use rusty_fungus::direction::Direction;
use rusty_fungus::grid::grid_fits;
use rusty_fungus::input::{InputReader, StdinInputReader};
use rusty_fungus::program::Program;
use rusty_fungus::source::lines_to_token_matrix;
use rusty_fungus::state::Fault;
use rusty_fungus::token::Token;

struct Script {
    ints: Vec<i32>,
    chars: Vec<i32>,
}

impl InputReader for Script {
    fn read_char(&mut self) -> i32 {
        if self.chars.is_empty() {
            0
        } else {
            self.chars.remove(0)
        }
    }

    fn read_int(&mut self) -> i32 {
        if self.ints.is_empty() {
            0
        } else {
            self.ints.remove(0)
        }
    }
}

fn silent() -> Box<dyn InputReader> {
    Box::new(Script { ints: vec![], chars: vec![] })
}

fn load(text: &str) -> Program {
    let rows = lines_to_token_matrix(text);
    assert!(grid_fits(&rows));
    Program::with_seed(rows, silent(), 1)
}

fn load_with(text: &str, ints: Vec<i32>, chars: Vec<i32>) -> Program {
    let rows = lines_to_token_matrix(text);
    assert!(grid_fits(&rows));
    Program::with_seed(rows, Box::new(Script { ints, chars }), 1)
}

fn run(program: &mut Program, budget: usize) -> String {
    let mut output = String::new();
    let mut steps = 0;
    while program.is_running() && steps < budget {
        assert_eq!(program.fault(), None);
        program.step();
        output.push_str(&program.get_last_output());
        steps += 1;
    }
    output
}

fn steps(program: &mut Program, count: usize) {
    for _ in 0..count {
        assert_eq!(program.fault(), None);
        program.step();
    }
}

#[test]
fn a_new_program_starts_at_the_origin_heading_right() {
    let program = load("123\n45");
    assert_eq!(program.xptr(), 0);
    assert_eq!(program.yptr(), 0);
    assert_eq!(program.direction(), Direction::Right);
    assert!(program.is_running());
    assert!(!program.in_string_mode());
    assert!(program.get_stack().is_empty());
    assert_eq!(program.get_last_output(), "");
    assert_eq!(program.width(), 3);
    assert_eq!(program.height(), 2);
}

#[test]
fn the_width_is_the_longest_row() {
    assert_eq!(load("1\n12345\n12").width(), 5);
    assert_eq!(load("").width(), 0);
    assert_eq!(load("").height(), 0);
    assert_eq!(load("\n\n").width(), 0);
    assert_eq!(load("\n\n").height(), 2);
}

#[test]
fn five_plus_five_prints_ten() {
    let mut program = load("55+.@");
    assert_eq!(run(&mut program, 100), "10 ");
    assert!(!program.is_running());
}

#[test]
fn five_plus_five_within_four_steps() {
    let mut program = load("55+.");
    let mut output = String::new();
    for _ in 0..4 {
        program.step();
        output.push_str(&program.get_last_output());
    }
    assert_eq!(output, "10 ");
    assert!(program.is_running());
    assert_eq!(program.xptr(), 0);
    assert_eq!(program.yptr(), 0);
}

#[test]
fn subtract_takes_the_first_popped_from_the_second() {
    let mut program = load("1 2-.@");
    assert_eq!(run(&mut program, 100), "-1 ");
}

#[test]
fn the_output_of_a_step_lasts_one_step() {
    let mut program = load("7. @");
    steps(&mut program, 2);
    assert_eq!(program.get_last_output(), "7 ");
    steps(&mut program, 1);
    assert_eq!(program.get_last_output(), "");
}

#[test]
fn quit_halts_and_nothing_else_does() {
    let mut program = load("1+@");
    steps(&mut program, 2);
    assert!(program.is_running());
    steps(&mut program, 1);
    assert!(!program.is_running());
    assert_eq!(program.fault(), Some(Fault::Halted));
}

#[test]
fn a_halted_program_says_so_and_stays_as_it_is() {
    let mut program = load("3@");
    run(&mut program, 10);
    let x = program.xptr();
    let stack = program.get_stack().clone();
    assert_eq!(program.fault(), Some(Fault::Halted));
    assert_eq!(program.fault(), Some(Fault::Halted));
    assert_eq!(program.xptr(), x);
    assert_eq!(program.get_stack(), &stack);
    assert_eq!(stack, vec![3]);
}

#[test]
fn moving_right_wraps_to_the_first_column() {
    let mut program = load("123");
    steps(&mut program, 2);
    assert_eq!(program.xptr(), 2);
    steps(&mut program, 1);
    assert_eq!(program.xptr(), 0);
    assert_eq!(program.yptr(), 0);
}

#[test]
fn moving_left_wraps_to_the_last_column() {
    let mut program = load("<123");
    steps(&mut program, 1);
    assert_eq!(program.xptr(), 3);
    assert_eq!(program.yptr(), 0);
    steps(&mut program, 1);
    assert_eq!(program.xptr(), 2);
}

#[test]
fn moving_down_wraps_to_the_first_row() {
    let mut program = load("v\n1\n2");
    steps(&mut program, 1);
    assert_eq!((program.xptr(), program.yptr()), (0, 1));
    steps(&mut program, 1);
    assert_eq!((program.xptr(), program.yptr()), (0, 2));
    steps(&mut program, 1);
    assert_eq!((program.xptr(), program.yptr()), (0, 0));
}

#[test]
fn moving_up_wraps_to_the_last_row() {
    let mut program = load("^\n1\n2");
    steps(&mut program, 1);
    assert_eq!((program.xptr(), program.yptr()), (0, 2));
    steps(&mut program, 1);
    assert_eq!((program.xptr(), program.yptr()), (0, 1));
}

#[test]
fn rows_wrap_at_their_own_length() {
    let mut program = load("v    \n>1");
    steps(&mut program, 1);
    assert_eq!((program.xptr(), program.yptr()), (0, 1));
    steps(&mut program, 2);
    assert_eq!((program.xptr(), program.yptr()), (0, 1));
    assert_eq!(program.get_stack(), &vec![1]);
    assert_eq!(program.width(), 5);
}

#[test]
fn a_vertical_move_keeps_the_column_past_a_shorter_row() {
    let mut program = load("  v\n1\n  @");
    steps(&mut program, 3);
    assert_eq!((program.xptr(), program.yptr()), (2, 1));
    assert_eq!(program.get_token(2, 1), Some(Token::Noop));
    steps(&mut program, 1);
    assert_eq!((program.xptr(), program.yptr()), (2, 2));
    steps(&mut program, 1);
    assert!(!program.is_running());
}

#[test]
fn past_the_end_of_a_row_a_horizontal_move_wraps_into_it() {
    let rows = vec![
        vec![Token::Noop, Token::Noop, Token::Noop, Token::Noop, Token::Noop, Token::Down],
        vec![Token::Right, Token::Int(1), Token::Int(2)],
    ];
    let mut program = Program::with_seed(rows, silent(), 1);
    steps(&mut program, 6);
    assert_eq!((program.xptr(), program.yptr()), (5, 1));
    program.execute(Token::Right, 0, Direction::Up);
    program.move_program_pointer();
    assert_eq!((program.xptr(), program.yptr()), (0, 1));
}

#[test]
fn bridge_skips_one_cell() {
    let mut program = load("#1 2.@");
    assert_eq!(run(&mut program, 100), "2 ");
}

#[test]
fn bridge_wraps_as_any_move_does() {
    let mut program = load("1#");
    steps(&mut program, 2);
    assert_eq!(program.xptr(), 1);
    assert_eq!(program.get_stack(), &vec![1]);
    let mut program = load("12#");
    steps(&mut program, 3);
    assert_eq!(program.xptr(), 1);
}

#[test]
fn push_then_pop_gives_the_value() {
    let mut program = load(" ");
    program.stack_push(17);
    assert_eq!(program.stack_peek(), 17);
    assert_eq!(program.stack_pop(), 17);
    assert!(program.get_stack().is_empty());
}

#[test]
fn pop_on_an_empty_stack_is_zero() {
    let mut program = load(" ");
    assert_eq!(program.stack_pop(), 0);
    assert_eq!(program.stack_peek(), 0);
    assert!(program.get_stack().is_empty());
}

#[test]
fn the_stack_is_last_in_first_out() {
    let mut program = load(" ");
    program.stack_push(1);
    program.stack_push(2);
    program.stack_push(3);
    assert_eq!(program.get_stack(), &vec![1, 2, 3]);
    assert_eq!(program.stack_pop(), 3);
    assert_eq!(program.stack_pop(), 2);
    assert_eq!(program.stack_pop(), 1);
    assert_eq!(program.stack_pop(), 0);
}

#[test]
fn swap_exchanges_the_top_two() {
    let mut program = load("12\\");
    steps(&mut program, 3);
    assert_eq!(program.get_stack(), &vec![2, 1]);
}

#[test]
fn swap_twice_is_the_identity_on_two_values() {
    let mut program = load("912\\\\");
    steps(&mut program, 5);
    assert_eq!(program.get_stack(), &vec![9, 1, 2]);
}

#[test]
fn swap_fills_a_short_stack_with_zeros() {
    let mut program = load("7\\\\");
    steps(&mut program, 2);
    assert_eq!(program.get_stack(), &vec![7, 0]);
    steps(&mut program, 1);
    assert_eq!(program.get_stack(), &vec![0, 7]);
    let mut program = load("\\\\");
    steps(&mut program, 2);
    assert_eq!(program.get_stack(), &vec![0, 0]);
}

#[test]
fn duplicate_copies_the_top() {
    let mut program = load("4:");
    steps(&mut program, 2);
    assert_eq!(program.get_stack(), &vec![4, 4]);
}

#[test]
fn duplicate_on_an_empty_stack_pushes_zero() {
    let mut program = load(":");
    steps(&mut program, 1);
    assert_eq!(program.get_stack(), &vec![0]);
}

#[test]
fn discard_drops_the_top() {
    let mut program = load("12$");
    steps(&mut program, 3);
    assert_eq!(program.get_stack(), &vec![1]);
    let mut program = load("$");
    steps(&mut program, 1);
    assert!(program.get_stack().is_empty());
}

#[test]
fn arithmetic_on_two_values() {
    let mut program = load("34*.92/.92%.@");
    assert_eq!(run(&mut program, 100), "12 4 1 ");
}

#[test]
fn arithmetic_on_an_empty_stack_sees_zeros() {
    let mut program = load("+.5-.@");
    assert_eq!(run(&mut program, 100), "0 -5 ");
}

#[test]
fn division_of_negatives_rounds_toward_zero() {
    let mut program = load("07-2/.07-2%.@");
    assert_eq!(run(&mut program, 100), "-3 -1 ");
}

#[test]
fn addition_wraps_in_32_bits() {
    let mut program = load(" ");
    program.stack_push(i32::MAX);
    program.stack_push(1);
    program.perform_action(Token::Add);
    assert_eq!(program.get_stack(), &vec![i32::MIN]);
    program.stack_push(1);
    program.perform_action(Token::Subtract);
    assert_eq!(program.get_stack(), &vec![i32::MAX]);
    program.stack_push(2);
    program.perform_action(Token::Multiply);
    assert_eq!(program.get_stack(), &vec![-2]);
}

#[test]
fn addition_and_multiplication_commute() {
    let mut program = load("37+.73+.37*.73*.@");
    assert_eq!(run(&mut program, 100), "10 10 21 21 ");
}

#[test]
fn division_by_zero_asks_the_input_source() {
    let mut program = load_with("90/.@", vec![41], vec![]);
    assert_eq!(run(&mut program, 100), "41 ");
}

#[test]
fn division_by_a_value_does_not_ask_the_input_source() {
    let mut program = load_with("93/.0/.@", vec![41], vec![]);
    assert_eq!(run(&mut program, 100), "3 41 ");
}

#[test]
fn greater_compares_the_second_with_the_first() {
    let mut program = load("21`.12`.11`.@");
    assert_eq!(run(&mut program, 100), "1 0 0 ");
}

#[test]
fn not_is_the_logical_complement() {
    let mut program = load("0!.5!.!.@");
    assert_eq!(run(&mut program, 100), "1 0 1 ");
}

#[test]
fn horizontal_if_goes_right_on_zero() {
    let mut program = load("0_1.@");
    assert_eq!(run(&mut program, 100), "1 ");
    assert!(program.get_stack().is_empty());
}

#[test]
fn horizontal_if_goes_left_on_another_value() {
    let mut program = load("3_@.2");
    assert_eq!(run(&mut program, 100), "2 ");
}

#[test]
fn vertical_if_goes_down_on_zero() {
    let mut program = load("0|\n 2\n 1\n .\n @");
    assert_eq!(run(&mut program, 100), "1 ");
    let mut program = load("0|\n 1\n .\n @\n 2");
    assert_eq!(run(&mut program, 100), "1 ");
}

#[test]
fn vertical_if_goes_up_on_another_value() {
    let mut program = load("5|\n @\n .\n 2");
    assert_eq!(run(&mut program, 100), "2 ");
}

#[test]
fn direction_tokens_set_the_heading() {
    let mut program = load("v\n>^");
    steps(&mut program, 1);
    assert_eq!(program.direction(), Direction::Down);
    steps(&mut program, 1);
    assert_eq!(program.direction(), Direction::Right);
    steps(&mut program, 1);
    assert_eq!(program.direction(), Direction::Up);
    let mut program = load("<");
    steps(&mut program, 1);
    assert_eq!(program.direction(), Direction::Left);
}

#[test]
fn print_char_emits_the_character() {
    let mut program = load("\"A\",@");
    assert_eq!(run(&mut program, 100), "A");
}

#[test]
fn print_int_on_an_empty_stack_prints_zero() {
    let mut program = load(".@");
    assert_eq!(run(&mut program, 100), "0 ");
    assert!(program.get_stack().is_empty());
}

#[test]
fn string_mode_pushes_character_codes() {
    let mut program = load("\"hi+ 1\"");
    steps(&mut program, 1);
    assert!(program.in_string_mode());
    steps(&mut program, 6);
    assert!(!program.in_string_mode());
    assert_eq!(program.get_stack(), &vec![104, 105, 43, 32, 49]);
}

#[test]
fn a_string_pops_in_reverse() {
    let mut program = load("\"olleh\",,,,,@");
    assert_eq!(run(&mut program, 100), "hello");
    assert!(program.get_stack().is_empty());
}

#[test]
fn string_mode_does_not_execute() {
    let mut program = load("\"@\"1.@");
    assert_eq!(run(&mut program, 100), "1 ");
    assert_eq!(program.get_stack(), &vec![64]);
}

#[test]
fn characters_without_a_meaning_do_nothing() {
    let mut program = load("ab7c");
    steps(&mut program, 4);
    assert_eq!(program.get_stack(), &vec![7]);
    assert!(program.is_running());
}

#[test]
fn get_pushes_the_code_of_the_cell() {
    let mut program = load("20g.@\n  *");
    assert_eq!(run(&mut program, 100), "103 ");
    let mut program = load("21g.@\n  *");
    assert_eq!(run(&mut program, 100), "42 ");
}

#[test]
fn get_outside_the_grid_pushes_zero() {
    let mut program = load("99g.07-0g.@");
    assert_eq!(run(&mut program, 100), "0 0 ");
}

#[test]
fn get_past_the_end_of_a_row_sees_a_blank() {
    let mut program = load("41g.@\nab");
    assert_eq!(run(&mut program, 100), "32 ");
}

#[test]
fn put_then_get_gives_the_value_back() {
    let mut program = load("\"x\"31p31g.@");
    assert_eq!(run(&mut program, 100), "120 ");
    assert_eq!(program.get_token(3, 1), Some(Token::Char('x')));
}

#[test]
fn put_then_get_beyond_the_grid_gives_the_value_back() {
    let mut program = load(" ");
    program.stack_push(43);
    program.stack_push(40);
    program.stack_push(7);
    program.perform_action(Token::Put);
    assert!(program.get_stack().is_empty());
    assert_eq!(program.width(), 41);
    assert_eq!(program.height(), 8);
    program.stack_push(40);
    program.stack_push(7);
    program.perform_action(Token::Get);
    assert_eq!(program.get_stack(), &vec![43]);
    assert_eq!(program.get_token(40, 7), Some(Token::Add));
    assert_eq!(program.get_token(39, 7), Some(Token::Noop));
    assert_eq!(program.get_token(40, 6), Some(Token::Noop));
    assert_eq!(program.get_token(41, 7), None);
    assert_eq!(program.get_token(40, 8), None);
}

#[test]
fn a_written_instruction_is_executed() {
    let mut program = load("\"@\"70p   5");
    run(&mut program, 100);
    assert!(!program.is_running());
    assert!(program.get_stack().is_empty());
    assert_eq!(program.xptr(), 8 % program.width());
}

#[test]
fn put_writes_digits_as_literals() {
    let mut program = load("\"7\"60p @");
    run(&mut program, 100);
    assert_eq!(program.get_stack(), &vec![7]);
    assert_eq!(program.get_token(6, 0), Some(Token::Int(7)));
}

#[test]
fn reading_outside_the_grid_gives_nothing() {
    let program = load("12\n3");
    assert_eq!(program.get_token(-1, 0), None);
    assert_eq!(program.get_token(0, -1), None);
    assert_eq!(program.get_token(2, 0), None);
    assert_eq!(program.get_token(0, 2), None);
    assert_eq!(program.get_token(1, 1), Some(Token::Noop));
    assert_eq!(program.get_token(0, 1), Some(Token::Int(3)));
    assert_eq!(program.get_token(1, 0), Some(Token::Int(2)));
}

#[test]
fn writing_grows_the_grid_and_never_shrinks_it() {
    let mut program = load("12\n3");
    program.set_token(4, 0, Token::Quit);
    assert_eq!(program.width(), 5);
    assert_eq!(program.height(), 2);
    assert_eq!(program.get_token(4, 0), Some(Token::Quit));
    assert_eq!(program.get_token(3, 0), Some(Token::Noop));
    assert_eq!(program.get_token(4, 1), Some(Token::Noop));
    program.set_token(0, 3, Token::Add);
    assert_eq!(program.width(), 5);
    assert_eq!(program.height(), 4);
    assert_eq!(program.get_token(0, 2), Some(Token::Noop));
    assert_eq!(program.get_token(0, 3), Some(Token::Add));
    program.set_token(0, 0, Token::Noop);
    assert_eq!(program.width(), 5);
    assert_eq!(program.height(), 4);
    assert_eq!(program.get_token(1, 0), Some(Token::Int(2)));
}

#[test]
fn writing_at_the_width_widens_by_one() {
    let mut program = load("12");
    program.set_token(2, 0, Token::Int(3));
    assert_eq!(program.width(), 3);
    assert_eq!(program.get_token(2, 0), Some(Token::Int(3)));
}

#[test]
fn read_int_pushes_what_the_input_source_answers() {
    let rows = vec![vec![Token::ReadInt, Token::ReadInt, Token::Add, Token::PrintInt, Token::Quit]];
    let mut program = Program::with_seed(rows, Box::new(Script { ints: vec![30, 12], chars: vec![] }), 1);
    assert_eq!(run(&mut program, 100), "42 ");
}

#[test]
fn read_char_pushes_what_the_input_source_answers() {
    let rows = vec![vec![Token::ReadChar, Token::PrintChar, Token::Quit]];
    let mut program = Program::with_seed(rows, Box::new(Script { ints: vec![], chars: vec![122] }), 1);
    assert_eq!(run(&mut program, 100), "z");
}

#[test]
fn a_buffered_line_serves_as_input_source() {
    let mut reader = StdinInputReader::new();
    reader.refill(String::from("19 23"));
    let rows = vec![vec![Token::ReadInt, Token::ReadInt, Token::Add, Token::PrintInt, Token::Quit]];
    let mut program = Program::with_seed(rows, Box::new(reader), 1);
    assert_eq!(run(&mut program, 100), "42 ");
}

#[test]
fn step_with_takes_the_values_given() {
    let rows = vec![vec![Token::ReadInt, Token::Random, Token::Int(1)], vec![Token::Noop]];
    let mut program = Program::with_seed(rows, silent(), 1);
    program.step_with(77, Direction::Left);
    assert_eq!(program.get_stack(), &vec![77]);
    assert_eq!(program.xptr(), 1);
    program.step_with(5, Direction::Down);
    assert_eq!(program.direction(), Direction::Down);
    assert_eq!((program.xptr(), program.yptr()), (1, 1));
    assert_eq!(program.get_stack(), &vec![77]);
}

#[test]
fn random_picks_one_of_the_four_headings() {
    let mut seen = [false; 4];
    for seed in 0..64 {
        let mut program = Program::with_seed(lines_to_token_matrix("?"), silent(), seed);
        program.step();
        match program.direction() {
            Direction::Up => seen[0] = true,
            Direction::Down => seen[1] = true,
            Direction::Left => seen[2] = true,
            Direction::Right => seen[3] = true,
        }
    }
    assert_eq!(seen, [true; 4]);
}

#[test]
fn the_same_seed_draws_the_same_headings() {
    let text = "????\n????\n????\n????";
    let mut first = Program::with_seed(lines_to_token_matrix(text), silent(), 99);
    let mut second = Program::with_seed(lines_to_token_matrix(text), silent(), 99);
    for _ in 0..50 {
        first.step();
        second.step();
        assert_eq!(first.direction(), second.direction());
        assert_eq!((first.xptr(), first.yptr()), (second.xptr(), second.yptr()));
    }
}

#[test]
fn a_program_seeded_by_the_system_runs() {
    let mut program = Program::new(lines_to_token_matrix("?1.@"), silent());
    program.step();
    assert!(program.is_running());
    assert_eq!(program.fault(), None);
}

#[test]
fn an_empty_program_cannot_step() {
    assert_eq!(load("").fault(), Some(Fault::OutsideGrid));
    assert_eq!(load("\n\n").fault(), Some(Fault::OutsideGrid));
}

#[test]
fn a_horizontal_move_needs_a_token_in_the_row() {
    let mut program = load("v\n\n>");
    steps(&mut program, 1);
    assert_eq!(program.fault(), None);
    assert_eq!((program.xptr(), program.yptr()), (0, 1));
    steps(&mut program, 2);
    assert_eq!((program.xptr(), program.yptr()), (0, 2));
    assert_eq!(program.direction(), Direction::Right);
    let program = load("\n12");
    assert_eq!(program.fault(), Some(Fault::EmptyRow));
    assert!(!program.can_move());
    assert_eq!(program.action_fault(Token::Bridge), Some(Fault::EmptyRow));
    assert_eq!(load("12").action_fault(Token::Bridge), None);
}

#[test]
fn print_char_needs_a_character_code() {
    let mut program = load("01-,");
    steps(&mut program, 3);
    assert_eq!(program.fault(), Some(Fault::InvalidCharacter));
    assert_eq!(program.get_stack(), &vec![-1]);
    let mut program = load(" ");
    program.stack_push(0xD800);
    assert_eq!(program.action_fault(Token::PrintChar), Some(Fault::InvalidCharacter));
    assert_eq!(program.action_fault(Token::Add), None);
}

#[test]
fn put_needs_coordinates_that_are_not_negative() {
    let mut program = load(" ");
    program.stack_push(65);
    program.stack_push(-1);
    program.stack_push(0);
    assert_eq!(program.action_fault(Token::Put), Some(Fault::NegativeCoordinate));
    let mut program = load(" ");
    program.stack_push(65);
    program.stack_push(0);
    program.stack_push(-3);
    assert_eq!(program.action_fault(Token::Put), Some(Fault::NegativeCoordinate));
}

#[test]
fn put_needs_a_character_code() {
    let mut program = load(" ");
    program.stack_push(-65);
    program.stack_push(0);
    program.stack_push(0);
    assert_eq!(program.action_fault(Token::Put), Some(Fault::InvalidCharacter));
}

#[test]
fn put_needs_coordinates_that_the_grid_can_hold() {
    let mut program = load(" ");
    program.stack_push(65);
    program.stack_push(i32::MAX);
    program.stack_push(0);
    assert_eq!(program.action_fault(Token::Put), Some(Fault::GridLimit));
}

#[test]
fn modulo_needs_a_divisor() {
    let mut program = load("50%");
    steps(&mut program, 2);
    assert_eq!(program.fault(), Some(Fault::ModuloByZero));
}

#[test]
fn the_least_value_cannot_be_divided_by_minus_one() {
    let mut program = load(" ");
    program.stack_push(i32::MIN);
    program.stack_push(-1);
    assert_eq!(program.action_fault(Token::Divide), Some(Fault::DivisionOverflow));
    assert_eq!(program.action_fault(Token::Modulo), Some(Fault::DivisionOverflow));
    assert_eq!(program.action_fault(Token::Multiply), None);
}

#[test]
fn tokens_without_a_character_cannot_be_taken_as_text() {
    let rows = vec![vec![Token::StringMode, Token::ReadInt]];
    let mut program = Program::with_seed(rows, silent(), 1);
    program.step();
    assert_eq!(program.fault(), Some(Fault::NoCharacter));
    assert_eq!(program.string_fault(Token::ReadChar), Some(Fault::NoCharacter));
    assert_eq!(program.string_fault(Token::StringMode), None);
    assert_eq!(program.string_fault(Token::Add), None);
    let rows = vec![vec![Token::Int(1), Token::Int(0), Token::Get, Token::Int(12)]];
    let mut program = Program::with_seed(rows, silent(), 1);
    assert!(!program.has_text());
    steps(&mut program, 2);
    assert_eq!(program.fault(), None);
    let rows = vec![vec![Token::Int(3), Token::Int(0), Token::Get, Token::Int(12)]];
    let mut program = Program::with_seed(rows, silent(), 1);
    steps(&mut program, 2);
    assert_eq!(program.fault(), Some(Fault::NoCharacter));
}

#[test]
fn a_program_is_shown_row_by_row() {
    let program = load("12+\n\n@ v");
    assert!(program.has_text());
    assert_eq!(program.to_string(), "\n12+\n\n@ v");
    assert_eq!(load("").to_string(), "");
    assert_eq!(load("\"a\\").to_string(), "\n\"a\\");
}

#[test]
fn a_written_cell_shows_in_the_text() {
    let mut program = load("1\n2");
    program.set_token(2, 1, Token::Multiply);
    assert_eq!(program.to_string(), "\n1\n2 *");
}

#[test]
fn rows_that_fit_are_accepted() {
    assert!(grid_fits(&vec![]));
    assert!(grid_fits(&vec![vec![], vec![Token::Noop]]));
}
