//! Where input comes from: the capability that the interpreter asks, a
//! reader over a buffered line, and a number taken key by key.

use crate::text::push_char;
use vstd::prelude::*;
use vstd::wrapping::i32_specs::{wrapping_add, wrapping_mul, wrapping_sub};

verus! {

/// Where the interpreter gets its input. Both methods may block until a
/// value is there; nothing is assumed of the value.
pub trait InputReader {
    /// The code of the next character.
    fn read_char(&mut self) -> i32;

    /// The next integer.
    fn read_int(&mut self) -> i32;
}

/// Whether the character is a decimal digit.
pub open spec fn spec_is_digit(c: char) -> bool {
    '0' <= c <= '9'
}

/// Whether the character at `i` can belong to an integer that starts at
/// `offset`: a digit anywhere, a minus sign at the start only.
pub open spec fn is_int_char(s: Seq<char>, offset: int, i: int) -> bool {
    spec_is_digit(s[i]) || (s[i] == '-' && i == offset)
}

/// Where the integer that starts at `offset` ends, searched from `i` on:
/// the first place that holds no character of it.
pub open spec fn int_end(s: Seq<char>, offset: int, i: int) -> int
    decreases s.len() - i,
{
    if 0 <= i < s.len() && is_int_char(s, offset, i) {
        int_end(s, offset, i + 1)
    } else {
        i
    }
}

/// The text of the integer that starts at `offset`: the longest run of
/// digits from there on, with a minus sign before it where there is one.
pub open spec fn spec_read_int_from_string(s: Seq<char>, offset: int) -> Seq<char> {
    if 0 <= offset < s.len() {
        s.subrange(offset, int_end(s, offset, offset))
    } else {
        Seq::empty()
    }
}

/// The number that a run of digits writes.
pub open spec fn digits_value(digits: Seq<char>) -> nat
    decreases digits.len(),
{
    if digits.len() == 0 {
        0
    } else {
        digits_value(digits.drop_last()) * 10 + (digits.last() as nat - 48) as nat
    }
}

/// Whether the text is a run of digits.
pub open spec fn all_digits(digits: Seq<char>) -> bool {
    forall|i: int| 0 <= i < digits.len() ==> spec_is_digit(#[trigger] digits[i])
}

/// The integer that a text writes: digits, with a minus sign before them
/// or without. Text of another shape, text without a digit and a number
/// that no `i32` holds all read as zero.
pub open spec fn spec_decimal_value(text: Seq<char>) -> i32 {
    let negative = text.len() > 0 && text[0] == '-';
    let digits = if negative {
        text.drop_first()
    } else {
        text
    };
    let value = if negative {
        -(digits_value(digits) as int)
    } else {
        digits_value(digits) as int
    };
    if digits.len() > 0 && all_digits(digits) && i32::MIN <= value <= i32::MAX {
        value as i32
    } else {
        0
    }
}

/// Whether the character is a decimal digit.
#[verifier::when_used_as_spec(spec_is_digit)]
pub fn is_digit(c: char) -> (r: bool)
    ensures
        r == spec_is_digit(c),
{
    '0' <= c && c <= '9'
}

/// The text of the integer that starts at `offset` in `s`.
pub fn read_int_from_string(s: &String, offset: usize) -> (text: String)
    ensures
        text@ == spec_read_int_from_string(s@, offset as int),
{
    let line: &str = s.as_str();
    let len: usize = line.unicode_len();
    let mut text = String::new();
    if offset >= len {
        return text;
    }
    let mut i: usize = offset;
    let mut inside: bool = true;
    while inside && i < len
        invariant
            offset <= i <= len,
            len == s@.len(),
            line@ == s@,
            text@ == s@.subrange(offset as int, i as int),
            int_end(s@, offset as int, offset as int) == int_end(s@, offset as int, i as int),
            !inside ==> i < len && !is_int_char(s@, offset as int, i as int),
        decreases len - i + if inside { 1nat } else { 0nat },
    {
        let c: char = line.get_char(i);
        if is_digit(c) || (c == '-' && i == offset) {
            push_char(&mut text, c);
            assert(text@ =~= s@.subrange(offset as int, i + 1));
            i += 1;
        } else {
            inside = false;
        }
    }
    text
}

/// The integer that `text` writes, or zero where it writes none.
pub fn decimal_value(text: &str) -> (value: i32)
    ensures
        value == spec_decimal_value(text@),
{
    let len: usize = text.unicode_len();
    if len == 0 {
        return 0;
    }
    let negative: bool = text.get_char(0) == '-';
    let start: usize = if negative {
        1
    } else {
        0
    };
    if start >= len {
        return 0;
    }
    let ghost digits = if negative {
        text@.drop_first()
    } else {
        text@
    };
    let limit: i64 = 0x8000_0001;
    let mut total: i64 = 0;
    let mut i: usize = start;
    while i < len
        invariant
            start <= i <= len,
            len == text@.len(),
            negative == (text@[0] == '-'),
            start == if negative {
                1usize
            } else {
                0usize
            },
            digits == if negative {
                text@.drop_first()
            } else {
                text@
            },
            limit == 0x8000_0001,
            all_digits(digits.take(i - start)),
            total == if digits_value(digits.take(i - start)) < limit {
                digits_value(digits.take(i - start)) as int
            } else {
                limit as int
            },
        decreases len - i,
    {
        let c: char = text.get_char(i);
        if !is_digit(c) {
            assert(digits[i - start] == c);
            assert(!all_digits(digits));
            return 0;
        }
        let digit: i64 = (c as u32 - 48) as i64;
        proof {
            assert(digits.take(i + 1 - start).drop_last() =~= digits.take(i - start));
            assert(digits.take(i + 1 - start).last() == c);
        }
        total = total * 10 + digit;
        if total > limit {
            total = limit;
        }
        i += 1;
    }
    assert(digits.take(len - start) =~= digits);
    if negative {
        if total <= 0x8000_0000 {
            (-total) as i32
        } else {
            0
        }
    } else {
        if total <= 0x7fff_ffff {
            total as i32
        } else {
            0
        }
    }
}

/// What the index becomes when `count` characters are used: their sum,
/// held at the largest index there is.
pub open spec fn index_after(index: nat, count: nat) -> nat {
    if index + count <= usize::MAX {
        index + count
    } else {
        usize::MAX as nat
    }
}

/// A reader over one buffered line of text. Characters and integers are
/// taken from the line in order; a line that is used up answers zero.
pub struct StdinInputReader {
    buffered_line: String,
    buffered_index: usize,
}

impl StdinInputReader {
    /// The buffered line.
    pub closed spec fn line(&self) -> Seq<char> {
        self.buffered_line@
    }

    /// How many characters of the line are used up.
    pub closed spec fn index(&self) -> nat {
        self.buffered_index as nat
    }

    /// A reader with nothing buffered.
    pub fn new() -> (reader: StdinInputReader)
        ensures
            reader.line() == Seq::<char>::empty(),
            reader.index() == 0,
    {
        StdinInputReader { buffered_line: String::new(), buffered_index: 0 }
    }

    /// Whether the line is used up, so that the next read needs a new
    /// line.
    pub fn is_exhausted(&self) -> (used_up: bool)
        ensures
            used_up == (self.index() >= self.line().len()),
    {
        self.buffered_index >= self.buffered_line.as_str().unicode_len()
    }

    /// The buffered line.
    pub fn buffered_line(&self) -> (line: &String)
        ensures
            line@ == self.line(),
    {
        &self.buffered_line
    }

    /// Buffers `line` in place of what was buffered, and starts at its
    /// first character.
    pub fn refill(&mut self, line: String)
        ensures
            final(self).line() == line@,
            final(self).index() == 0,
    {
        self.buffered_line = line;
        self.buffered_index = 0;
    }

    fn advance(&mut self, count: usize)
        ensures
            final(self).line() == old(self).line(),
            final(self).index() == index_after(old(self).index(), count as nat),
    {
        self.buffered_index = if count <= usize::MAX - self.buffered_index {
            self.buffered_index + count
        } else {
            usize::MAX
        };
    }
}

impl InputReader for StdinInputReader {
    /// The code of the next character of the line, or zero where the line
    /// is used up. One character is used either way.
    fn read_char(&mut self) -> (code: i32)
        ensures
            code == if old(self).index() < old(self).line().len() {
                old(self).line()[old(self).index() as int] as i32
            } else {
                0
            },
            final(self).line() == old(self).line(),
            final(self).index() == index_after(old(self).index(), 1),
    {
        let line: &str = self.buffered_line.as_str();
        let code: i32 = if self.buffered_index < line.unicode_len() {
            line.get_char(self.buffered_index) as i32
        } else {
            0
        };
        self.advance(1);
        code
    }

    /// The integer written at the reader's place in the line, or zero
    /// where none is. Its text is used, and one character after it.
    fn read_int(&mut self) -> (value: i32)
        ensures
            value == spec_decimal_value(
                spec_read_int_from_string(old(self).line(), old(self).index() as int),
            ),
            final(self).line() == old(self).line(),
            final(self).index() == index_after(
                index_after(
                    old(self).index(),
                    spec_read_int_from_string(old(self).line(), old(self).index() as int).len(),
                ),
                1,
            ),
    {
        let text = read_int_from_string(&self.buffered_line, self.buffered_index);
        let used: usize = text.as_str().unicode_len();
        self.advance(used);
        self.advance(1);
        decimal_value(text.as_str())
    }
}

/// An integer as it is typed: what the keys so far have made of it.
pub struct KeyState {
    pub started: bool,
    pub negative: bool,
    pub number: i32,
}

impl KeyState {
    /// Whether the key goes into the number: a minus sign as the first
    /// key, a digit at any time.
    pub open spec fn takes(self, key: i32) -> bool {
        (!self.started && key == 45) || 48 <= key <= 57
    }

    /// The state after a key that goes into the number. A digit is
    /// appended in 32-bit arithmetic that wraps.
    pub open spec fn fed(self, key: i32) -> KeyState {
        if !self.started && key == 45 {
            KeyState { started: true, negative: true, number: self.number }
        } else {
            KeyState {
                started: true,
                negative: self.negative,
                number: wrapping_add(wrapping_mul(self.number, 10), (key - 48) as i32),
            }
        }
    }

    /// The number typed so far, with its sign.
    pub open spec fn value(self) -> i32 {
        if self.negative {
            wrapping_sub(0, self.number)
        } else {
            self.number
        }
    }
}

/// Takes an integer key by key: an optional minus sign, then digits, up
/// to the first key that is neither.
pub struct KeyNumber {
    started: bool,
    negative: bool,
    number: i32,
}

impl View for KeyNumber {
    type V = KeyState;

    closed spec fn view(&self) -> KeyState {
        KeyState { started: self.started, negative: self.negative, number: self.number }
    }
}

impl KeyNumber {
    /// No key taken yet.
    pub fn new() -> (keys: KeyNumber)
        ensures
            keys@ == (KeyState { started: false, negative: false, number: 0 }),
    {
        KeyNumber { started: false, negative: false, number: 0 }
    }

    /// Takes the next key. A key that goes into the number gives `None`,
    /// and the caller reads on; any other key ends the number and gives
    /// its value.
    pub fn feed(&mut self, key: i32) -> (done: Option<i32>)
        ensures
            old(self)@.takes(key) ==> done is None && final(self)@ == old(self)@.fed(key),
            !old(self)@.takes(key) ==> done == Some(old(self)@.value()),
            !old(self)@.takes(key) ==> final(self)@ == old(self)@,
    {
        if !self.started && key == 45 {
            self.started = true;
            self.negative = true;
            None
        } else if 48 <= key && key <= 57 {
            self.started = true;
            self.number = self.number.wrapping_mul(10).wrapping_add(key - 48);
            None
        } else if self.negative {
            Some(0i32.wrapping_sub(self.number))
        } else {
            Some(self.number)
        }
    }
}

} // verus!
