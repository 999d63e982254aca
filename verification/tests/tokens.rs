use rusty_fungus::source::lines_to_token_matrix;
use rusty_fungus::token::{char_to_token, token_to_char, Token, TokenTable};

fn notation() -> Vec<(char, Token)> {
    vec![
        ('+', Token::Add),
        ('-', Token::Subtract),
        ('*', Token::Multiply),
        ('/', Token::Divide),
        ('%', Token::Modulo),
        ('!', Token::Not),
        ('`', Token::Greater),
        ('>', Token::Right),
        ('<', Token::Left),
        ('^', Token::Up),
        ('v', Token::Down),
        ('?', Token::Random),
        ('_', Token::HorizontalIf),
        ('|', Token::VerticalIf),
        ('"', Token::StringMode),
        (':', Token::Duplicate),
        ('\\', Token::Swap),
        ('$', Token::Discard),
        ('.', Token::PrintInt),
        (',', Token::PrintChar),
        ('#', Token::Bridge),
        ('g', Token::Get),
        ('p', Token::Put),
        ('@', Token::Quit),
        (' ', Token::Noop),
    ]
}

#[test]
fn every_dedicated_character_reads_as_its_instruction() {
    for (c, token) in notation() {
        assert_eq!(char_to_token(c), token, "character {:?}", c);
    }
}

#[test]
fn every_instruction_is_written_as_its_character() {
    for (c, token) in notation() {
        assert_eq!(token_to_char(&token), c, "token {:?}", token);
    }
}

#[test]
fn digits_read_as_their_value() {
    assert_eq!(char_to_token('0'), Token::Int(0));
    assert_eq!(char_to_token('5'), Token::Int(5));
    assert_eq!(char_to_token('9'), Token::Int(9));
}

#[test]
fn digit_literals_are_written_as_digits() {
    assert_eq!(token_to_char(&Token::Int(0)), '0');
    assert_eq!(token_to_char(&Token::Int(7)), '7');
    assert_eq!(token_to_char(&Token::Int(9)), '9');
}

#[test]
fn other_characters_read_as_themselves() {
    assert_eq!(char_to_token('a'), Token::Char('a'));
    assert_eq!(char_to_token('Z'), Token::Char('Z'));
    assert_eq!(char_to_token('&'), Token::Char('&'));
    assert_eq!(char_to_token('~'), Token::Char('~'));
    assert_eq!(char_to_token('\u{e9}'), Token::Char('\u{e9}'));
    assert_eq!(char_to_token('\r'), Token::Char('\r'));
}

#[test]
fn char_literals_are_written_as_themselves() {
    assert_eq!(token_to_char(&Token::Char('x')), 'x');
    assert_eq!(token_to_char(&Token::Char('\u{1F600}')), '\u{1F600}');
}

#[test]
fn reading_then_writing_gives_the_character_back() {
    for code in 0u32..0x3000 {
        let c = char::from_u32(code).unwrap();
        let token = char_to_token(c);
        assert!(token.has_char());
        assert_eq!(token_to_char(&token), c);
    }
}

#[test]
fn writing_then_reading_gives_the_token_back() {
    for (_, token) in notation() {
        assert_eq!(char_to_token(token_to_char(&token)), token);
    }
    for value in 0u8..=9 {
        let token = Token::Int(value);
        assert_eq!(char_to_token(token_to_char(&token)), token);
    }
    assert_eq!(char_to_token(token_to_char(&Token::Char('q'))), Token::Char('q'));
}

#[test]
fn tokens_without_a_character_say_so() {
    assert!(!Token::ReadInt.has_char());
    assert!(!Token::ReadChar.has_char());
    assert!(!Token::Int(10).has_char());
    assert!(!Token::Int(255).has_char());
    assert!(Token::Int(9).has_char());
    assert!(Token::Char('+').has_char());
    assert!(Token::Quit.has_char());
}

#[test]
fn a_table_answers_as_the_free_functions_do() {
    let table = TokenTable::new();
    for (c, token) in notation() {
        assert_eq!(table.char_to_token(c), token);
        assert_eq!(table.token_to_char(&token), c);
    }
    assert_eq!(table.char_to_token('4'), Token::Int(4));
    assert_eq!(table.char_to_token('k'), Token::Char('k'));
    assert_eq!(table.token_to_char(&Token::Int(4)), '4');
}

#[test]
fn text_is_read_line_by_line() {
    let rows = lines_to_token_matrix("55+.\n@");
    assert_eq!(
        rows,
        vec![
            vec![Token::Int(5), Token::Int(5), Token::Add, Token::PrintInt],
            vec![Token::Quit],
        ]
    );
}

#[test]
fn a_final_line_feed_adds_no_row() {
    assert_eq!(lines_to_token_matrix("1\n2\n"), lines_to_token_matrix("1\n2"));
    assert_eq!(lines_to_token_matrix("1\n2\n").len(), 2);
}

#[test]
fn empty_lines_are_empty_rows() {
    let rows = lines_to_token_matrix("\n\nv");
    assert_eq!(rows, vec![vec![], vec![], vec![Token::Down]]);
    assert_eq!(lines_to_token_matrix("\n"), vec![Vec::<Token>::new()]);
}

#[test]
fn empty_text_has_no_rows() {
    assert_eq!(lines_to_token_matrix(""), Vec::<Vec<Token>>::new());
}

#[test]
fn a_carriage_return_before_a_line_feed_is_dropped() {
    let rows = lines_to_token_matrix(">\r\n<\r\n");
    assert_eq!(rows, vec![vec![Token::Right], vec![Token::Left]]);
}

#[test]
fn a_carriage_return_elsewhere_is_kept() {
    let rows = lines_to_token_matrix("a\rb\n\r");
    assert_eq!(
        rows,
        vec![
            vec![Token::Char('a'), Token::Char('\r'), Token::Char('b')],
            vec![Token::Char('\r')],
        ]
    );
}

#[test]
fn text_is_split_as_the_standard_library_splits_lines() {
    let samples = ["", "\n", "a", "a\n", "a\nb", "a\r\nb\r\n", "\r", "\r\n", "a\r", "x\n\ny\n\n", "\r\r\n"];
    for text in samples {
        let expected: Vec<Vec<Token>> =
            text.lines().map(|line| line.chars().map(char_to_token).collect()).collect();
        assert_eq!(lines_to_token_matrix(text), expected, "text {:?}", text);
    }
}
