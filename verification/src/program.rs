//! The interpreter: a grid, a stack, a pointer and the step that moves
//! them.

use crate::direction::{fresh_rng, random_direction, rng_from_seed, Direction};
use crate::grid::{all_have_chars, cell, grid_text, rows_fit, rows_of, with_cell, Grid};
use crate::input::InputReader;
use crate::state::{
    lemma_step_keeps_pointer, quotient, remainder, rest, spec_decrement_wrap, spec_increment_wrap,
    top, Fault, ProgramState,
};
use crate::text::{decimal_string, i32_to_char, is_char_code, push_char};
use crate::token::{Token, TokenTable};
use rand::rngs::StdRng;
use vstd::prelude::*;
use vstd::wrapping::i32_specs::{wrapping_add, wrapping_mul, wrapping_sub};

verus! {

/// `value + 1`, wrapped to zero at `max_value`.
pub fn increment_wrap(value: i32, max_value: i32) -> (r: i32)
    requires
        0 <= value,
        0 < max_value,
    ensures
        r == spec_increment_wrap(value as int, max_value as int),
        0 <= r < max_value,
{
    let next: i64 = value as i64 + 1;
    (next % (max_value as i64)) as i32
}

/// `value - 1`, wrapped to `max_value - 1` below zero.
pub fn decrement_wrap(value: i32, max_value: i32) -> (r: i32)
    requires
        0 <= value,
        0 < max_value,
    ensures
        r == spec_decrement_wrap(value as int, max_value as int),
        0 <= r < max_value,
{
    let next: i64 = value as i64 - 1 + max_value as i64;
    (next % (max_value as i64)) as i32
}

/// The quotient of `n` by `d`, rounded toward zero.
pub fn truncated_quotient(n: i32, d: i32) -> (q: i32)
    requires
        d != 0,
        !(n == i32::MIN && d == -1),
    ensures
        q == quotient(n as int, d as int),
{
    let nn: i64 = if n >= 0 {
        n as i64
    } else {
        -(n as i64)
    };
    let dd: i64 = if d > 0 {
        d as i64
    } else {
        -(d as i64)
    };
    let q: i64 = nn / dd;
    assert(0 <= q <= nn && (dd >= 2 ==> 2 * q <= nn)) by (nonlinear_arith)
        requires
            q == nn / dd,
            0 <= nn,
            0 < dd,
    ;
    if (n >= 0) == (d > 0) {
        q as i32
    } else {
        (-q) as i32
    }
}

/// What the division that rounds toward zero leaves over.
pub fn truncated_remainder(n: i32, d: i32) -> (r: i32)
    requires
        d != 0,
        !(n == i32::MIN && d == -1),
    ensures
        r == remainder(n as int, d as int),
{
    let nn: i64 = if n >= 0 {
        n as i64
    } else {
        -(n as i64)
    };
    let dd: i64 = if d > 0 {
        d as i64
    } else {
        -(d as i64)
    };
    let r: i64 = nn % dd;
    assert(0 <= r < dd && nn == dd * (nn / dd) + r) by (nonlinear_arith)
        requires
            r == nn % dd,
            0 <= nn,
            0 < dd,
    ;
    let ghost q = nn / dd;
    assert(dd * q == (-dd) * (-q) && dd * (-q) == -(dd * q) && (-dd) * q == -(dd * q))
        by (nonlinear_arith);
    if n >= 0 {
        r as i32
    } else {
        (-r) as i32
    }
}

/// An interpreter with its program: the grid, the pointer and its
/// heading, the stack, the mode, and what the last step emitted. It owns
/// the input source that it asks and the generator that it draws from.
pub struct Program {
    xptr: i32,
    yptr: i32,
    direction: Direction,
    grid: Grid,
    stack: Vec<i32>,
    is_running: bool,
    string_mode: bool,
    last_output: String,
    table: TokenTable,
    rng: StdRng,
    input_reader: Box<dyn InputReader>,
}

impl View for Program {
    type V = ProgramState;

    closed spec fn view(&self) -> ProgramState {
        ProgramState {
            x: self.xptr as int,
            y: self.yptr as int,
            direction: self.direction,
            stack: self.stack@,
            running: self.is_running,
            string_mode: self.string_mode,
            rows: self.grid@,
            output: self.last_output@,
        }
    }
}

impl Program {
    /// The grid and the notation are in order.
    pub closed spec fn wf(&self) -> bool {
        &&& self.grid.wf()
        &&& self.table.wf()
    }

    /// An interpreter for the given rows, with the pointer at the origin,
    /// heading right. The generator behind `Random` is seeded by the
    /// operating system.
    pub fn new(parsed_contents: Vec<Vec<Token>>, input_reader: Box<dyn InputReader>) -> (program:
        Program)
        requires
            rows_fit(rows_of(parsed_contents@)),
        ensures
            program.wf(),
            program@ == ProgramState::initial(rows_of(parsed_contents@)),
    {
        Program {
            xptr: 0,
            yptr: 0,
            direction: Direction::Right,
            grid: Grid::new(parsed_contents),
            stack: Vec::new(),
            is_running: true,
            string_mode: false,
            last_output: String::new(),
            table: TokenTable::new(),
            rng: fresh_rng(),
            input_reader,
        }
    }

    /// As `new`, with the generator behind `Random` started from `seed`,
    /// so that two interpreters made alike draw alike.
    pub fn with_seed(
        parsed_contents: Vec<Vec<Token>>,
        input_reader: Box<dyn InputReader>,
        seed: u64,
    ) -> (program: Program)
        requires
            rows_fit(rows_of(parsed_contents@)),
        ensures
            program.wf(),
            program@ == ProgramState::initial(rows_of(parsed_contents@)),
    {
        Program {
            xptr: 0,
            yptr: 0,
            direction: Direction::Right,
            grid: Grid::new(parsed_contents),
            stack: Vec::new(),
            is_running: true,
            string_mode: false,
            last_output: String::new(),
            table: TokenTable::new(),
            rng: rng_from_seed(seed),
            input_reader,
        }
    }

    /// Takes the top of the stack. An empty stack gives zero and stays
    /// empty.
    pub fn stack_pop(&mut self) -> (value: i32)
        requires
            old(self).wf(),
        ensures
            final(self).wf(),
            value == top(old(self)@.stack),
            final(self)@ == old(self)@.popped(),
    {
        match self.stack.pop() {
            Some(value) => value,
            None => 0,
        }
    }

    /// Puts `value` on top of the stack.
    pub fn stack_push(&mut self, value: i32)
        requires
            old(self).wf(),
        ensures
            final(self).wf(),
            final(self)@ == old(self)@.pushed(value),
    {
        self.stack.push(value);
    }

    /// The top of the stack, or zero where it is empty.
    pub fn stack_peek(&self) -> (value: i32)
        ensures
            value == top(self@.stack),
    {
        let n: usize = self.stack.len();
        if n == 0 {
            0
        } else {
            self.stack[n - 1]
        }
    }

    /// The value `depth` places below the top, or zero where the stack is
    /// not that deep.
    fn stack_peek_at(&self, depth: usize) -> (value: i32)
        ensures
            depth == 0 ==> value == top(self@.stack),
            depth == 1 ==> value == top(rest(self@.stack)),
            depth == 2 ==> value == top(rest(rest(self@.stack))),
    {
        let n: usize = self.stack.len();
        if n <= depth {
            0
        } else {
            self.stack[n - 1 - depth]
        }
    }

    /// Pops the first operand, then the second, and pushes what `op`
    /// makes of them.
    pub fn binary_stack_op_push<F>(&mut self, op: F) where F: Fn(i32, i32) -> i32
        requires
            old(self).wf(),
            call_requires(op, (top(old(self)@.stack), top(rest(old(self)@.stack)))),
        ensures
            final(self).wf(),
            exists|r: i32|
                call_ensures(op, (top(old(self)@.stack), top(rest(old(self)@.stack))), r)
                    && final(self)@ == #[trigger] old(self)@.combined(r),
    {
        let a: i32 = self.stack_pop();
        let b: i32 = self.stack_pop();
        let r: i32 = op(a, b);
        self.stack.push(r);
        assert(self@ == old(self)@.combined(r));
    }

    /// The number of rows of the grid.
    pub fn height(&self) -> (h: i32)
        requires
            self.wf(),
        ensures
            h == self@.height(),
    {
        self.grid.height()
    }

    /// The length of the grid's longest row.
    pub fn width(&self) -> (w: i32)
        requires
            self.wf(),
        ensures
            w == self@.width(),
    {
        self.grid.width()
    }

    /// Writes `token` at `(x, y)`, growing the grid where the cell lies
    /// outside it.
    pub fn set_token(&mut self, x: i32, y: i32, token: Token)
        requires
            old(self).wf(),
            0 <= x < i32::MAX,
            0 <= y < i32::MAX,
        ensures
            final(self).wf(),
            final(self)@ == (ProgramState {
                rows: with_cell(old(self)@.rows, x as int, y as int, token),
                ..old(self)@
            }),
    {
        self.grid.set(x, y, token);
    }

    /// The token at `(x, y)`, or `None` outside the grid.
    pub fn get_token(&self, x: i32, y: i32) -> (token: Option<Token>)
        requires
            self.wf(),
        ensures
            token == cell(self@.rows, x as int, y as int),
    {
        self.grid.get(x, y)
    }

    /// Advances the pointer by one cell in its heading.
    pub fn move_program_pointer(&mut self)
        requires
            old(self).wf(),
            old(self)@.can_move(),
        ensures
            final(self).wf(),
            final(self)@ == old(self)@.moved(),
    {
        let max_y: i32 = self.grid.height();
        let max_x: i32 = self.grid.row_len(self.yptr);
        match self.direction {
            Direction::Up => {
                self.yptr = decrement_wrap(self.yptr, max_y);
            },
            Direction::Down => {
                self.yptr = increment_wrap(self.yptr, max_y);
            },
            Direction::Left => {
                self.xptr = decrement_wrap(self.xptr, max_x);
            },
            Direction::Right => {
                self.xptr = increment_wrap(self.xptr, max_x);
            },
        }
    }

    /// Whether the interpreter has not halted.
    pub fn is_running(&self) -> (running: bool)
        ensures
            running == self@.running,
    {
        self.is_running
    }

    /// What the last step emitted; empty where it emitted nothing.
    pub fn get_last_output(&self) -> (output: String)
        ensures
            output@ == self@.output,
    {
        self.last_output.clone()
    }

    /// The pointer's column.
    pub fn xptr(&self) -> (x: i32)
        ensures
            x == self@.x,
    {
        self.xptr
    }

    /// The pointer's row.
    pub fn yptr(&self) -> (y: i32)
        ensures
            y == self@.y,
    {
        self.yptr
    }

    /// The stack, bottom first.
    pub fn get_stack(&self) -> (stack: &Vec<i32>)
        ensures
            stack@ == self@.stack,
    {
        &self.stack
    }

    /// The pointer's heading.
    pub fn direction(&self) -> (direction: Direction)
        ensures
            direction == self@.direction,
    {
        self.direction
    }

    /// Whether tokens are read as characters.
    pub fn in_string_mode(&self) -> (on: bool)
        ensures
            on == self@.string_mode,
    {
        self.string_mode
    }
}

impl Program {
    /// Executes `action` as an instruction, with `input` for what the
    /// input source answers and `drawn` for the heading drawn, where the
    /// instruction asks for one.
    pub fn execute(&mut self, action: Token, input: i32, drawn: Direction)
        requires
            old(self).wf(),
            old(self)@.action_fault(action) is None,
        ensures
            final(self).wf(),
            final(self)@ == old(self)@.execute(action, input, drawn),
    {
        match action {
            Token::Add => {
                let op = |a: i32, b: i32| -> (r: i32)
                    ensures
                        r == wrapping_add(b, a),
                    { b.wrapping_add(a) };
                self.binary_stack_op_push(op);
            },
            Token::Subtract => {
                let op = |a: i32, b: i32| -> (r: i32)
                    ensures
                        r == wrapping_sub(b, a),
                    { b.wrapping_sub(a) };
                self.binary_stack_op_push(op);
            },
            Token::Multiply => {
                let op = |a: i32, b: i32| -> (r: i32)
                    ensures
                        r == wrapping_mul(b, a),
                    { b.wrapping_mul(a) };
                self.binary_stack_op_push(op);
            },
            Token::Divide => {
                let op = |a: i32, b: i32| -> (r: i32)
                    requires
                        !(b == i32::MIN && a == -1),
                    ensures
                        r == if a == 0 {
                            input
                        } else {
                            quotient(b as int, a as int) as i32
                        },
                    {
                        if a == 0 {
                            input
                        } else {
                            truncated_quotient(b, a)
                        }
                    };
                self.binary_stack_op_push(op);
            },
            Token::Modulo => {
                let op = |a: i32, b: i32| -> (r: i32)
                    requires
                        a != 0,
                        !(b == i32::MIN && a == -1),
                    ensures
                        r == remainder(b as int, a as int) as i32,
                    { truncated_remainder(b, a) };
                self.binary_stack_op_push(op);
            },
            Token::Not => {
                let value: i32 = self.stack_pop();
                self.stack_push(
                    if value == 0 {
                        1
                    } else {
                        0
                    },
                );
            },
            Token::Greater => {
                let op = |a: i32, b: i32| -> (r: i32)
                    ensures
                        r == if b > a {
                            1i32
                        } else {
                            0i32
                        },
                    {
                        if b > a {
                            1
                        } else {
                            0
                        }
                    };
                self.binary_stack_op_push(op);
            },
            Token::Right => {
                self.direction = Direction::Right;
            },
            Token::Left => {
                self.direction = Direction::Left;
            },
            Token::Up => {
                self.direction = Direction::Up;
            },
            Token::Down => {
                self.direction = Direction::Down;
            },
            Token::Random => {
                self.direction = drawn;
            },
            Token::HorizontalIf => {
                let value: i32 = self.stack_pop();
                self.direction = if value == 0 {
                    Direction::Right
                } else {
                    Direction::Left
                };
            },
            Token::VerticalIf => {
                let value: i32 = self.stack_pop();
                self.direction = if value == 0 {
                    Direction::Down
                } else {
                    Direction::Up
                };
            },
            Token::StringMode => {
                self.string_mode = true;
            },
            Token::Duplicate => {
                let value: i32 = self.stack_peek();
                self.stack_push(value);
            },
            Token::Swap => {
                let upper: i32 = self.stack_pop();
                let lower: i32 = self.stack_pop();
                self.stack_push(upper);
                self.stack_push(lower);
            },
            Token::Discard => {
                self.stack_pop();
            },
            Token::PrintInt => {
                let value: i32 = self.stack_pop();
                let mut text = decimal_string(value);
                push_char(&mut text, ' ');
                self.last_output = text;
            },
            Token::PrintChar => {
                let value: i32 = self.stack_pop();
                let mut text = String::new();
                push_char(&mut text, i32_to_char(value));
                assert(text@ =~= seq![value as char]);
                self.last_output = text;
            },
            Token::ReadInt => {
                self.stack_push(input);
            },
            Token::ReadChar => {
                self.stack_push(input);
            },
            Token::Bridge => {
                self.move_program_pointer();
            },
            Token::Get => {
                let y: i32 = self.stack_pop();
                let x: i32 = self.stack_pop();
                let code: i32 = match self.get_token(x, y) {
                    Some(token) => self.table.token_to_char(&token) as i32,
                    None => 0,
                };
                self.stack_push(code);
            },
            Token::Put => {
                let y: i32 = self.stack_pop();
                let x: i32 = self.stack_pop();
                let value: i32 = self.stack_pop();
                let token = self.table.char_to_token(i32_to_char(value));
                self.set_token(x, y, token);
            },
            Token::Quit => {
                self.is_running = false;
            },
            Token::Int(value) => {
                self.stack_push(value as i32);
            },
            Token::Noop => {},
            Token::Char(_) => {},
        }
    }

    /// Takes `action` as a character of a string: the mode's own token
    /// ends the mode, any other pushes the code of its character.
    pub fn perform_string_action(&mut self, action: Token)
        requires
            old(self).wf(),
            old(self)@.string_fault(action) is None,
        ensures
            final(self).wf(),
            final(self)@ == old(self)@.execute_string(action),
    {
        match action {
            Token::StringMode => {
                self.string_mode = false;
            },
            Token::Char(value) => {
                self.stack_push(value as i32);
            },
            token => {
                let code: i32 = self.table.token_to_char(&token) as i32;
                self.stack_push(code);
            },
        }
    }
}

impl Program {
    /// Whether the pointer can advance.
    pub fn can_move(&self) -> (ok: bool)
        requires
            self.wf(),
        ensures
            ok == self@.can_move(),
    {
        if self.yptr < 0 || self.yptr >= self.grid.height() {
            return false;
        }
        if self.direction.is_horizontal() {
            0 <= self.xptr && self.grid.row_len(self.yptr) > 0
        } else {
            true
        }
    }

    /// Why `action` cannot be executed as an instruction, if it cannot.
    pub fn action_fault(&self, action: Token) -> (fault: Option<Fault>)
        requires
            self.wf(),
        ensures
            fault == self@.action_fault(action),
    {
        let a: i32 = self.stack_peek_at(0);
        let b: i32 = self.stack_peek_at(1);
        let c: i32 = self.stack_peek_at(2);
        match action {
            Token::Divide => {
                if b == i32::MIN && a == -1 {
                    Some(Fault::DivisionOverflow)
                } else {
                    None
                }
            },
            Token::Modulo => {
                if a == 0 {
                    Some(Fault::ModuloByZero)
                } else if b == i32::MIN && a == -1 {
                    Some(Fault::DivisionOverflow)
                } else {
                    None
                }
            },
            Token::PrintChar => {
                if !is_char_code(a) {
                    Some(Fault::InvalidCharacter)
                } else {
                    None
                }
            },
            Token::Bridge => {
                if !self.can_move() {
                    Some(Fault::EmptyRow)
                } else {
                    None
                }
            },
            Token::Get => {
                match self.get_token(b, a) {
                    Some(token) => {
                        if !token.has_char() {
                            Some(Fault::NoCharacter)
                        } else {
                            None
                        }
                    },
                    None => None,
                }
            },
            Token::Put => {
                if !is_char_code(c) {
                    Some(Fault::InvalidCharacter)
                } else if a < 0 || b < 0 {
                    Some(Fault::NegativeCoordinate)
                } else if a == i32::MAX || b == i32::MAX {
                    Some(Fault::GridLimit)
                } else {
                    None
                }
            },
            _ => None,
        }
    }

    /// Why `action` cannot be taken in string mode, if it cannot.
    pub fn string_fault(&self, action: Token) -> (fault: Option<Fault>)
        ensures
            fault == self@.string_fault(action),
    {
        if action != Token::StringMode && !action.has_char() {
            Some(Fault::NoCharacter)
        } else {
            None
        }
    }

    /// Why no step can be taken, if none can. `step` asks that there be
    /// no such reason.
    pub fn fault(&self) -> (fault: Option<Fault>)
        requires
            self.wf(),
        ensures
            fault == self@.fault(),
    {
        if !self.is_running {
            return Some(Fault::Halted);
        }
        match self.get_token(self.xptr, self.yptr) {
            None => Some(Fault::OutsideGrid),
            Some(token) => {
                let stopped = if self.string_mode {
                    self.string_fault(token)
                } else {
                    self.action_fault(token)
                };
                if stopped.is_some() {
                    stopped
                } else if !self.can_move() {
                    Some(Fault::EmptyRow)
                } else {
                    None
                }
            },
        }
    }

    /// Executes `action` as an instruction. Where the instruction asks for
    /// input or for a heading, the input source is asked or the generator
    /// draws; no other instruction touches either.
    pub fn perform_action(&mut self, action: Token)
        requires
            old(self).wf(),
            old(self)@.action_fault(action) is None,
        ensures
            final(self).wf(),
            exists|input: i32, drawn: Direction|
                final(self)@ == #[trigger] old(self)@.execute(action, input, drawn),
            !old(self)@.asks_for(action) ==> final(self)@ == old(self)@.execute(
                action,
                0,
                Direction::Right,
            ),
    {
        let input: i32 = match action {
            Token::ReadInt => self.input_reader.read_int(),
            Token::ReadChar => self.input_reader.read_char(),
            Token::Divide => {
                if self.stack_peek() == 0 {
                    self.input_reader.read_int()
                } else {
                    0
                }
            },
            _ => 0,
        };
        let drawn: Direction = match action {
            Token::Random => random_direction(&mut self.rng),
            _ => Direction::Right,
        };
        self.execute(action, input, drawn);
    }

    /// One step with the values from outside given: `input` stands for
    /// what the input source would answer, `drawn` for the heading that
    /// would be drawn. Neither the input source nor the generator is
    /// touched.
    pub fn step_with(&mut self, input: i32, drawn: Direction)
        requires
            old(self).wf(),
            old(self)@.fault() is None,
        ensures
            final(self).wf(),
            final(self)@ == old(self)@.step(input, drawn),
            final(self)@.in_grid(),
    {
        proof {
            lemma_step_keeps_pointer(self@, input, drawn);
        }
        self.last_output = String::new();
        let token = self.get_token(self.xptr, self.yptr).unwrap();
        if self.string_mode {
            self.perform_string_action(token);
        } else {
            self.execute(token, input, drawn);
        }
        self.move_program_pointer();
    }

    /// One step: drops the output of the step before, lets the token under
    /// the pointer take effect, and advances the pointer. The interpreter
    /// must be running and able to take the step: see `fault`.
    pub fn step(&mut self)
        requires
            old(self).wf(),
            old(self)@.fault() is None,
        ensures
            final(self).wf(),
            exists|input: i32, drawn: Direction|
                final(self)@ == #[trigger] old(self)@.step(input, drawn),
            !old(self)@.asks() ==> final(self)@ == old(self)@.step(0, Direction::Right),
            final(self)@.in_grid(),
    {
        proof {
            assert forall|input: i32, drawn: Direction|
                #![trigger old(self)@.step(input, drawn)]
                old(self)@.step(input, drawn).in_grid() by {
                lemma_step_keeps_pointer(old(self)@, input, drawn);
            }
            lemma_step_keeps_pointer(self@, 0, Direction::Right);
        }
        self.last_output = String::new();
        let current_token = self.get_token(self.xptr, self.yptr).unwrap();
        if self.string_mode {
            self.perform_string_action(current_token);
            assert(self@ == old(self)@.dispatched(0, Direction::Right));
        } else {
            let ghost cleared = self@;
            self.perform_action(current_token);
            let ghost (input, drawn) = choose|input: i32, drawn: Direction|
                self@ == #[trigger] cleared.execute(current_token, input, drawn);
            assert(self@ == old(self)@.dispatched(input, drawn));
            proof {
                lemma_step_keeps_pointer(old(self)@, input, drawn);
            }
        }
        self.move_program_pointer();
    }
}

impl Program {
    /// Whether every token of the grid can be written as a character, so
    /// that the program can be shown as text.
    pub fn has_text(&self) -> (ok: bool)
        ensures
            ok == all_have_chars(self@.rows),
    {
        self.grid.has_text()
    }

    /// The program as text: each row as it was written, after a line
    /// break.
    pub fn to_string(&self) -> (text: String)
        requires
            self.wf(),
            all_have_chars(self@.rows),
        ensures
            text@ == grid_text(self@.rows),
    {
        self.grid.to_text(&self.table)
    }
}

} // verus!
