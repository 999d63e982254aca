//! The instruction set and its one-character notation.

use bimap::BiHashMap;
use vstd::prelude::*;

verus! {

/// One instruction or literal of the language: what a single grid cell holds.
#[derive(Copy, Clone, PartialEq, Eq, Hash, Debug, Structural)]
pub enum Token {
    Add,
    Subtract,
    Multiply,
    Divide,
    Modulo,
    Not,
    Greater,
    Right,
    Left,
    Up,
    Down,
    Random,
    HorizontalIf,
    VerticalIf,
    StringMode,
    Duplicate,
    Swap,
    Discard,
    PrintInt,
    PrintChar,
    ReadInt,
    ReadChar,
    Bridge,
    Get,
    Put,
    Quit,
    Int(u8),
    Noop,
    Char(char),
}

/// The instruction that a dedicated character denotes. Digits and all
/// characters without a meaning of their own have none.
pub open spec fn symbol_token(c: char) -> Option<Token> {
    if c == '+' {
        Some(Token::Add)
    } else if c == '-' {
        Some(Token::Subtract)
    } else if c == '*' {
        Some(Token::Multiply)
    } else if c == '/' {
        Some(Token::Divide)
    } else if c == '%' {
        Some(Token::Modulo)
    } else if c == '!' {
        Some(Token::Not)
    } else if c == '`' {
        Some(Token::Greater)
    } else if c == '>' {
        Some(Token::Right)
    } else if c == '<' {
        Some(Token::Left)
    } else if c == '^' {
        Some(Token::Up)
    } else if c == 'v' {
        Some(Token::Down)
    } else if c == '?' {
        Some(Token::Random)
    } else if c == '_' {
        Some(Token::HorizontalIf)
    } else if c == '|' {
        Some(Token::VerticalIf)
    } else if c == '"' {
        Some(Token::StringMode)
    } else if c == ':' {
        Some(Token::Duplicate)
    } else if c == '\\' {
        Some(Token::Swap)
    } else if c == '$' {
        Some(Token::Discard)
    } else if c == '.' {
        Some(Token::PrintInt)
    } else if c == ',' {
        Some(Token::PrintChar)
    } else if c == '#' {
        Some(Token::Bridge)
    } else if c == 'g' {
        Some(Token::Get)
    } else if c == 'p' {
        Some(Token::Put)
    } else if c == '@' {
        Some(Token::Quit)
    } else if c == ' ' {
        Some(Token::Noop)
    } else {
        None
    }
}

/// The dedicated character of an instruction. Literals have none, and
/// neither have the two input instructions.
pub open spec fn token_symbol(t: Token) -> Option<char> {
    match t {
        Token::Add => Some('+'),
        Token::Subtract => Some('-'),
        Token::Multiply => Some('*'),
        Token::Divide => Some('/'),
        Token::Modulo => Some('%'),
        Token::Not => Some('!'),
        Token::Greater => Some('`'),
        Token::Right => Some('>'),
        Token::Left => Some('<'),
        Token::Up => Some('^'),
        Token::Down => Some('v'),
        Token::Random => Some('?'),
        Token::HorizontalIf => Some('_'),
        Token::VerticalIf => Some('|'),
        Token::StringMode => Some('"'),
        Token::Duplicate => Some(':'),
        Token::Swap => Some('\\'),
        Token::Discard => Some('$'),
        Token::PrintInt => Some('.'),
        Token::PrintChar => Some(','),
        Token::Bridge => Some('#'),
        Token::Get => Some('g'),
        Token::Put => Some('p'),
        Token::Quit => Some('@'),
        Token::Noop => Some(' '),
        Token::ReadInt | Token::ReadChar | Token::Int(_) | Token::Char(_) => None,
    }
}

/// The token that a character of program text denotes: a digit is its
/// value, a dedicated character its instruction, anything else itself.
pub open spec fn spec_char_to_token(c: char) -> Token {
    if '0' <= c <= '9' {
        Token::Int((c as int - 48) as u8)
    } else {
        match symbol_token(c) {
            Some(t) => t,
            None => Token::Char(c),
        }
    }
}

/// The character that a token is written as. Meaningful where
/// `t.spec_has_char()`.
pub open spec fn spec_token_to_char(t: Token) -> char {
    match t {
        Token::Int(v) => (v + 48) as char,
        Token::Char(c) => c,
        _ => token_symbol(t).unwrap(),
    }
}

impl Token {
    /// Whether the token can be written as a character: a digit literal
    /// must be a single digit, and the input instructions have no notation.
    pub open spec fn spec_has_char(self) -> bool {
        match self {
            Token::Int(v) => v <= 9,
            Token::Char(_) => true,
            _ => token_symbol(self) is Some,
        }
    }

    /// Whether the token is the one that its own character denotes: it
    /// can be written, and a `Char` holds no digit and no dedicated character.
    pub open spec fn is_canonical(self) -> bool {
        &&& self.spec_has_char()
        &&& self matches Token::Char(c) ==> spec_char_to_token(c) == self
    }

    /// Whether the token can be written as a character.
    #[verifier::when_used_as_spec(spec_has_char)]
    pub fn has_char(self) -> (r: bool)
        ensures
            r == self.spec_has_char(),
    {
        match self {
            Token::Int(v) => v <= 9,
            Token::ReadInt | Token::ReadChar => false,
            _ => true,
        }
    }
}

/// `bimap::BiHashMap`, the two-way hash map that holds the notation at run
/// time. Nothing inside it is visible to the verifier.
#[verifier::external_type_specification]
#[verifier::external_body]
#[verifier::reject_recursive_types(L)]
#[verifier::reject_recursive_types(R)]
#[verifier::reject_recursive_types(LS)]
#[verifier::reject_recursive_types(RS)]
pub struct ExBiHashMap<L, R, LS, RS>(BiHashMap<L, R, LS, RS>);

/// The pairs of character and token that a two-way map holds.
pub uninterp spec fn table_pairs(m: BiHashMap<char, Token>) -> Set<(char, Token)>;

/// What a set of pairs becomes when a pair is inserted into the two-way map
/// holding it: pairs that share the character or the token leave, the new
/// pair enters.
pub open spec fn pair_inserted(s: Set<(char, Token)>, c: char, t: Token) -> Set<(char, Token)> {
    Set::new(|p: (char, Token)| p == (c, t) || (s.contains(p) && p.0 != c && p.1 != t))
}

/// `BiHashMap::new`: an empty map.
#[verifier::external_body]
fn table_new() -> (m: BiHashMap<char, Token>)
    ensures
        table_pairs(m) == Set::<(char, Token)>::empty(),
{
    BiHashMap::new()
}

/// `BiHashMap::insert`: removes every pair that holds the given character
/// or the given token, then adds the given pair. What was overwritten is
/// not looked at. Like the two lookups below, this takes the `Eq` and
/// `Hash` that `Token` derives to tell tokens apart exactly as `==` does
/// in contracts.
#[verifier::external_body]
fn table_insert(m: &mut BiHashMap<char, Token>, c: char, t: Token)
    ensures
        table_pairs(*final(m)) == pair_inserted(table_pairs(*old(m)), c, t),
{
    m.insert(c, t);
}

/// `BiHashMap::get_by_left`: a token paired with the character, or `None`
/// where no pair holds the character.
#[verifier::external_body]
fn table_get_by_left(m: &BiHashMap<char, Token>, c: char) -> (r: Option<Token>)
    ensures
        match r {
            Some(t) => table_pairs(*m).contains((c, t)),
            None => forall|t: Token| !table_pairs(*m).contains((c, t)),
        },
{
    m.get_by_left(&c).copied()
}

/// `BiHashMap::get_by_right`: a character paired with the token, or `None`
/// where no pair holds the token.
#[verifier::external_body]
fn table_get_by_right(m: &BiHashMap<char, Token>, t: &Token) -> (r: Option<char>)
    ensures
        match r {
            Some(c) => table_pairs(*m).contains((c, *t)),
            None => forall|c: char| !table_pairs(*m).contains((c, *t)),
        },
{
    m.get_by_right(t).copied()
}

/// The notation as a two-way map between the dedicated characters and
/// their instructions.
pub struct TokenTable {
    map: BiHashMap<char, Token>,
}

impl TokenTable {
    /// The map holds exactly the pairs of `symbol_token`.
    pub closed spec fn wf(&self) -> bool {
        forall|c: char, t: Token| #[trigger]
            table_pairs(self.map).contains((c, t)) <==> symbol_token(c) == Some(t)
    }

    /// The notation, filled in pair by pair.
    pub fn new() -> (table: TokenTable)
        ensures
            table.wf(),
    {
        let mut map = table_new();
        table_insert(&mut map, '+', Token::Add);
        table_insert(&mut map, '-', Token::Subtract);
        table_insert(&mut map, '*', Token::Multiply);
        table_insert(&mut map, '/', Token::Divide);
        table_insert(&mut map, '%', Token::Modulo);
        table_insert(&mut map, '!', Token::Not);
        table_insert(&mut map, '`', Token::Greater);
        table_insert(&mut map, '>', Token::Right);
        table_insert(&mut map, '<', Token::Left);
        table_insert(&mut map, '^', Token::Up);
        table_insert(&mut map, 'v', Token::Down);
        table_insert(&mut map, '?', Token::Random);
        table_insert(&mut map, '_', Token::HorizontalIf);
        table_insert(&mut map, '|', Token::VerticalIf);
        table_insert(&mut map, '"', Token::StringMode);
        table_insert(&mut map, ':', Token::Duplicate);
        table_insert(&mut map, '\\', Token::Swap);
        table_insert(&mut map, '$', Token::Discard);
        table_insert(&mut map, '.', Token::PrintInt);
        table_insert(&mut map, ',', Token::PrintChar);
        table_insert(&mut map, '#', Token::Bridge);
        table_insert(&mut map, 'g', Token::Get);
        table_insert(&mut map, 'p', Token::Put);
        table_insert(&mut map, '@', Token::Quit);
        table_insert(&mut map, ' ', Token::Noop);
        TokenTable { map }
    }

    /// The token that a character of program text denotes.
    pub fn char_to_token(&self, character: char) -> (t: Token)
        requires
            self.wf(),
        ensures
            t == spec_char_to_token(character),
    {
        if '0' <= character && character <= '9' {
            Token::Int((character as u32 - 48) as u8)
        } else {
            match table_get_by_left(&self.map, character) {
                Some(t) => t,
                None => {
                    assert(symbol_token(character) matches Some(t) ==> table_pairs(
                        self.map,
                    ).contains((character, t)));
                    Token::Char(character)
                },
            }
        }
    }

    /// The character that a token is written as.
    pub fn token_to_char(&self, token: &Token) -> (c: char)
        requires
            self.wf(),
            token.has_char(),
        ensures
            c == spec_token_to_char(*token),
    {
        match token {
            Token::Int(value) => (*value + 48u8) as char,
            Token::Char(value) => *value,
            other => {
                proof {
                    let symbol = token_symbol(*other).unwrap();
                    lemma_symbols_inverse(symbol, *other);
                    assert(table_pairs(self.map).contains((symbol, *other)));
                }
                let c = table_get_by_right(&self.map, other).unwrap();
                proof {
                    lemma_symbols_inverse(c, *other);
                }
                c
            },
        }
    }
}

/// The character that a token is written as. The notation is built for
/// the one call; a `TokenTable` serves many.
pub fn token_to_char(token: &Token) -> (c: char)
    requires
        token.has_char(),
    ensures
        c == spec_token_to_char(*token),
{
    let table = TokenTable::new();
    table.token_to_char(token)
}

/// The token that a character of program text denotes. The notation is
/// built for the one call; a `TokenTable` serves many.
pub fn char_to_token(character: char) -> (t: Token)
    ensures
        t == spec_char_to_token(character),
{
    let table = TokenTable::new();
    table.char_to_token(character)
}

/// The two tables are each other's inverse: a character denotes an
/// instruction exactly where the instruction is written as that character.
pub proof fn lemma_symbols_inverse(c: char, t: Token)
    ensures
        symbol_token(c) == Some(t) <==> token_symbol(t) == Some(c),
{
}

/// Reading a character and writing the token back gives the character,
/// and the token read is canonical.
pub proof fn lemma_char_round_trip(c: char)
    ensures
        spec_char_to_token(c).is_canonical(),
        spec_token_to_char(spec_char_to_token(c)) == c,
{
    lemma_symbols_inverse(c, spec_char_to_token(c));
}

/// Writing a canonical token and reading the character back gives the
/// token.
pub proof fn lemma_token_round_trip(t: Token)
    requires
        t.is_canonical(),
    ensures
        spec_char_to_token(spec_token_to_char(t)) == t,
{
    lemma_symbols_inverse(spec_token_to_char(t), t);
}

} // verus!
