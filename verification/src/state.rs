//! The interpreter's state as a mathematical value, and what one step
//! makes of it.

use crate::direction::Direction;
use crate::grid::{
    cell, grown, lemma_max_width_bounds, lemma_with_cell_extent, max_width, with_cell,
};
use crate::text::{decimal_text, spec_is_char_code};
use crate::token::{spec_char_to_token, spec_token_to_char, Token};
use vstd::arithmetic::div_mod::{lemma_mod_add_multiples_vanish, lemma_mod_self_0, lemma_small_mod};
use vstd::prelude::*;
use vstd::wrapping::i32_specs::{wrapping_add, wrapping_mul, wrapping_sub};

verus! {

/// The value on top of the stack. An empty stack reads as zero.
pub open spec fn top(stack: Seq<i32>) -> i32 {
    if stack.len() == 0 {
        0
    } else {
        stack.last()
    }
}

/// The stack without its top. An empty stack stays empty.
pub open spec fn rest(stack: Seq<i32>) -> Seq<i32> {
    if stack.len() == 0 {
        stack
    } else {
        stack.drop_last()
    }
}

/// Integer division that rounds toward zero.
pub open spec fn quotient(n: int, d: int) -> int {
    if n >= 0 {
        if d > 0 {
            n / d
        } else {
            -(n / (-d))
        }
    } else {
        if d > 0 {
            -((-n) / d)
        } else {
            (-n) / (-d)
        }
    }
}

/// What is left over by the division that rounds toward zero. It has the
/// sign of `n`.
pub open spec fn remainder(n: int, d: int) -> int {
    n - d * quotient(n, d)
}

/// `(value + 1) mod bound`.
pub open spec fn spec_increment_wrap(value: int, bound: int) -> int {
    (value + 1) % bound
}

/// `(value - 1 + bound) mod bound`.
pub open spec fn spec_decrement_wrap(value: int, bound: int) -> int {
    (value - 1 + bound) % bound
}

/// Inside its bound a coordinate moves by one, and at the edge it wraps
/// to the other edge.
pub proof fn lemma_wrap_inside(value: int, bound: int)
    requires
        0 <= value < bound,
    ensures
        spec_increment_wrap(value, bound) == if value == bound - 1 {
            0
        } else {
            value + 1
        },
        spec_decrement_wrap(value, bound) == if value == 0 {
            bound - 1
        } else {
            value - 1
        },
{
    if value == bound - 1 {
        lemma_mod_self_0(bound);
    } else {
        lemma_small_mod((value + 1) as nat, bound as nat);
    }
    if value == 0 {
        lemma_small_mod((bound - 1) as nat, bound as nat);
    } else {
        lemma_mod_add_multiples_vanish(value - 1, bound);
        lemma_small_mod((value - 1) as nat, bound as nat);
    }
}

/// Why a step cannot be taken.
#[derive(Copy, Clone, PartialEq, Eq, Debug, Structural)]
pub enum Fault {
    /// The interpreter has halted.
    Halted,
    /// The pointer is outside the grid.
    OutsideGrid,
    /// The pointer is to move along a row that holds no token.
    EmptyRow,
    /// The cell's token, or the one that `Get` is to read, cannot be
    /// written as a character.
    NoCharacter,
    /// The value to print or to store is the code of no character.
    InvalidCharacter,
    /// `Put` was given a negative coordinate.
    NegativeCoordinate,
    /// `Put` was given a coordinate so large that the grid's width or
    /// height would no longer fit an `i32`.
    GridLimit,
    /// `Modulo` was given a zero divisor.
    ModuloByZero,
    /// `Divide` or `Modulo` was given the least value and minus one.
    DivisionOverflow,
}

/// The interpreter's state.
pub struct ProgramState {
    /// The pointer's column.
    pub x: int,
    /// The pointer's row.
    pub y: int,
    /// The pointer's heading.
    pub direction: Direction,
    /// The stack, bottom first.
    pub stack: Seq<i32>,
    /// Whether the interpreter has not halted.
    pub running: bool,
    /// Whether tokens are taken as characters of a string.
    pub string_mode: bool,
    /// The rows of the grid, each as long as it was written.
    pub rows: Seq<Seq<Token>>,
    /// What the last step emitted.
    pub output: Seq<char>,
}

impl ProgramState {
    /// The state before the first step: the pointer at the origin, heading
    /// right, with an empty stack.
    pub open spec fn initial(rows: Seq<Seq<Token>>) -> ProgramState {
        ProgramState {
            x: 0,
            y: 0,
            direction: Direction::Right,
            stack: Seq::empty(),
            running: true,
            string_mode: false,
            rows,
            output: Seq::empty(),
        }
    }

    /// The length of the grid's longest row.
    pub open spec fn width(self) -> int {
        max_width(self.rows) as int
    }

    /// The number of rows of the grid.
    pub open spec fn height(self) -> int {
        self.rows.len() as int
    }

    /// The token under the pointer.
    pub open spec fn token(self) -> Option<Token> {
        cell(self.rows, self.x, self.y)
    }

    /// Whether the pointer is inside the grid.
    pub open spec fn in_grid(self) -> bool {
        0 <= self.x < self.width() && 0 <= self.y < self.height()
    }

    /// A value pushed.
    pub open spec fn pushed(self, value: i32) -> ProgramState {
        ProgramState { stack: self.stack.push(value), ..self }
    }

    /// The top popped.
    pub open spec fn popped(self) -> ProgramState {
        ProgramState { stack: rest(self.stack), ..self }
    }

    /// Two values popped and one pushed.
    pub open spec fn combined(self, value: i32) -> ProgramState {
        ProgramState { stack: rest(rest(self.stack)).push(value), ..self }
    }

    /// The pointer turned to a heading.
    pub open spec fn facing(self, direction: Direction) -> ProgramState {
        ProgramState { direction, ..self }
    }

    /// Whether the pointer can advance: its row is in the grid, and a
    /// horizontal heading needs a column that is not negative and a row
    /// that holds a token.
    pub open spec fn can_move(self) -> bool {
        &&& 0 <= self.y < self.height()
        &&& self.direction.spec_is_horizontal() ==> 0 <= self.x && self.rows[self.y].len() > 0
    }

    /// The pointer advanced by one cell in its heading. It wraps within
    /// the length of its own row, or within the height of the grid.
    pub open spec fn moved(self) -> ProgramState {
        match self.direction {
            Direction::Up => ProgramState {
                y: spec_decrement_wrap(self.y, self.height()),
                ..self
            },
            Direction::Down => ProgramState {
                y: spec_increment_wrap(self.y, self.height()),
                ..self
            },
            Direction::Left => ProgramState {
                x: spec_decrement_wrap(self.x, self.rows[self.y].len() as int),
                ..self
            },
            Direction::Right => ProgramState {
                x: spec_increment_wrap(self.x, self.rows[self.y].len() as int),
                ..self
            },
        }
    }

    /// Whether executing `action` asks the input source for an integer.
    pub open spec fn reads_int(self, action: Token) -> bool {
        action == Token::ReadInt || (action == Token::Divide && top(self.stack) == 0)
    }

    /// Whether executing `action` asks the input source for a character.
    pub open spec fn reads_char(self, action: Token) -> bool {
        action == Token::ReadChar
    }

    /// Whether executing `action` draws a heading.
    pub open spec fn draws(self, action: Token) -> bool {
        action == Token::Random
    }

    /// Whether executing `action` asks for a value from outside.
    pub open spec fn asks_for(self, action: Token) -> bool {
        self.reads_int(action) || self.reads_char(action) || self.draws(action)
    }

    /// Why `action` cannot be executed as an instruction, if it cannot.
    pub open spec fn action_fault(self, action: Token) -> Option<Fault> {
        let a = top(self.stack);
        let b = top(rest(self.stack));
        let c = top(rest(rest(self.stack)));
        match action {
            Token::Divide => if b == i32::MIN && a == -1 {
                Some(Fault::DivisionOverflow)
            } else {
                None
            },
            Token::Modulo => if a == 0 {
                Some(Fault::ModuloByZero)
            } else if b == i32::MIN && a == -1 {
                Some(Fault::DivisionOverflow)
            } else {
                None
            },
            Token::PrintChar => if !spec_is_char_code(a) {
                Some(Fault::InvalidCharacter)
            } else {
                None
            },
            Token::Bridge => if !self.can_move() {
                Some(Fault::EmptyRow)
            } else {
                None
            },
            Token::Get => match cell(self.rows, b as int, a as int) {
                Some(t) => if !t.spec_has_char() {
                    Some(Fault::NoCharacter)
                } else {
                    None
                },
                None => None,
            },
            Token::Put => if !spec_is_char_code(c) {
                Some(Fault::InvalidCharacter)
            } else if a < 0 || b < 0 {
                Some(Fault::NegativeCoordinate)
            } else if a == i32::MAX || b == i32::MAX {
                Some(Fault::GridLimit)
            } else {
                None
            },
            _ => None,
        }
    }

    /// What executing `action` as an instruction makes of the state.
    /// `input` is what the input source answers and `drawn` the heading
    /// drawn, where the instruction asks for one.
    pub open spec fn execute(self, action: Token, input: i32, drawn: Direction) -> ProgramState {
        let a = top(self.stack);
        let b = top(rest(self.stack));
        let c = top(rest(rest(self.stack)));
        match action {
            Token::Add => self.combined(wrapping_add(b, a)),
            Token::Subtract => self.combined(wrapping_sub(b, a)),
            Token::Multiply => self.combined(wrapping_mul(b, a)),
            Token::Divide => self.combined(
                if a == 0 {
                    input
                } else {
                    quotient(b as int, a as int) as i32
                },
            ),
            Token::Modulo => self.combined(remainder(b as int, a as int) as i32),
            Token::Not => self.popped().pushed(
                if a == 0 {
                    1
                } else {
                    0
                },
            ),
            Token::Greater => self.combined(
                if b > a {
                    1
                } else {
                    0
                },
            ),
            Token::Right => self.facing(Direction::Right),
            Token::Left => self.facing(Direction::Left),
            Token::Up => self.facing(Direction::Up),
            Token::Down => self.facing(Direction::Down),
            Token::Random => self.facing(drawn),
            Token::HorizontalIf => self.popped().facing(
                if a == 0 {
                    Direction::Right
                } else {
                    Direction::Left
                },
            ),
            Token::VerticalIf => self.popped().facing(
                if a == 0 {
                    Direction::Down
                } else {
                    Direction::Up
                },
            ),
            Token::StringMode => ProgramState { string_mode: true, ..self },
            Token::Duplicate => self.pushed(a),
            Token::Swap => ProgramState { stack: rest(rest(self.stack)).push(a).push(b), ..self },
            Token::Discard => self.popped(),
            Token::PrintInt => ProgramState {
                output: decimal_text(a as int).push(' '),
                ..self.popped()
            },
            Token::PrintChar => ProgramState { output: seq![a as char], ..self.popped() },
            Token::ReadInt => self.pushed(input),
            Token::ReadChar => self.pushed(input),
            Token::Bridge => self.moved(),
            Token::Get => self.combined(
                match cell(self.rows, b as int, a as int) {
                    Some(t) => spec_token_to_char(t) as i32,
                    None => 0,
                },
            ),
            Token::Put => ProgramState {
                stack: rest(rest(rest(self.stack))),
                rows: with_cell(self.rows, b as int, a as int, spec_char_to_token(c as char)),
                ..self
            },
            Token::Quit => ProgramState { running: false, ..self },
            Token::Int(value) => self.pushed(value as i32),
            Token::Noop => self,
            Token::Char(_) => self,
        }
    }

    /// Why `action` cannot be taken in string mode, if it cannot.
    pub open spec fn string_fault(self, action: Token) -> Option<Fault> {
        if action != Token::StringMode && !action.spec_has_char() {
            Some(Fault::NoCharacter)
        } else {
            None
        }
    }

    /// What `action` makes of the state in string mode: the mode's own
    /// token ends the mode, any other token pushes the code of its
    /// character.
    pub open spec fn execute_string(self, action: Token) -> ProgramState {
        if action == Token::StringMode {
            ProgramState { string_mode: false, ..self }
        } else {
            self.pushed(spec_token_to_char(action) as i32)
        }
    }

    /// Why no step can be taken from the state, if none can.
    pub open spec fn fault(self) -> Option<Fault> {
        if !self.running {
            Some(Fault::Halted)
        } else {
            match self.token() {
                None => Some(Fault::OutsideGrid),
                Some(token) => {
                    let stopped = if self.string_mode {
                        self.string_fault(token)
                    } else {
                        self.action_fault(token)
                    };
                    if stopped is Some {
                        stopped
                    } else if !self.can_move() {
                        Some(Fault::EmptyRow)
                    } else {
                        None
                    }
                },
            }
        }
    }

    /// What the token under the pointer makes of the state, before the
    /// pointer advances.
    pub open spec fn dispatched(self, input: i32, drawn: Direction) -> ProgramState {
        let cleared = ProgramState { output: Seq::empty(), ..self };
        let token = self.token().unwrap();
        if self.string_mode {
            cleared.execute_string(token)
        } else {
            cleared.execute(token, input, drawn)
        }
    }

    /// One step: the output of the step before is dropped, the token under
    /// the pointer takes effect, the pointer advances. A state from which
    /// no step can be taken is left as it is.
    pub open spec fn step(self, input: i32, drawn: Direction) -> ProgramState {
        if self.fault() is Some {
            self
        } else {
            self.dispatched(input, drawn).moved()
        }
    }
}

impl ProgramState {
    /// Whether the step from this state asks for a value from outside:
    /// an answer of the input source or a drawn heading.
    pub open spec fn asks(self) -> bool {
        &&& self.fault() is None
        &&& !self.string_mode
        &&& self.asks_for(self.token().unwrap())
    }
}

/// A write keeps every row at least as long as it was.
pub proof fn lemma_with_cell_keeps_rows(
    rows: Seq<Seq<Token>>,
    x: int,
    y: int,
    token: Token,
    i: int,
)
    requires
        0 <= x,
        0 <= y,
        0 <= i < rows.len(),
    ensures
        with_cell(rows, x, y, token).len() >= rows.len(),
        with_cell(rows, x, y, token)[i].len() >= rows[i].len(),
{
    let tall = grown(rows, y + 1);
    assert(tall[i] == rows[i]);
}

/// A pointer that can move lands inside the grid's height and, where it
/// moves along its row, inside that row.
pub proof fn lemma_moved_lands(s: ProgramState)
    requires
        s.can_move(),
    ensures
        0 <= s.moved().y < s.height(),
        s.direction.spec_is_horizontal() ==> 0 <= s.moved().x < s.rows[s.y].len(),
        !s.direction.spec_is_horizontal() ==> s.moved().x == s.x,
        s.moved().can_move(),
        s.moved().direction == s.direction,
        s.moved().rows == s.rows,
{
}

/// Where a step can be taken, the pointer can advance once the token has
/// taken effect, and the step leaves the pointer inside the grid.
pub proof fn lemma_step_keeps_pointer(s: ProgramState, input: i32, drawn: Direction)
    requires
        s.fault() is None,
    ensures
        s.dispatched(input, drawn).can_move(),
        s.step(input, drawn).in_grid(),
{
    let token = s.token().unwrap();
    let cleared = ProgramState { output: Seq::empty(), ..s };
    let d = s.dispatched(input, drawn);
    lemma_max_width_bounds(s.rows);
    if s.rows[s.y].len() == 0 {
        assert(token == Token::Noop);
    }
    if !s.string_mode && token == Token::Put {
        let a = top(s.stack);
        let b = top(rest(s.stack));
        let c = top(rest(rest(s.stack)));
        let t = spec_char_to_token(c as char);
        lemma_with_cell_keeps_rows(s.rows, b as int, a as int, t, s.y);
        lemma_with_cell_extent(s.rows, b as int, a as int, t);
    }
    if !s.string_mode && token == Token::Bridge {
        lemma_moved_lands(cleared);
    }
    assert(d.can_move());
    lemma_moved_lands(d);
    lemma_max_width_bounds(d.rows);
}

} // verus!
