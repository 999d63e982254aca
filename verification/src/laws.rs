//! What holds of the interpreter whatever the program.

use crate::direction::Direction;
use crate::grid::{cell, lemma_with_cell_reads_back};
use crate::state::{lemma_wrap_inside, rest, top, Fault, ProgramState};
use crate::text::spec_is_char_code;
use crate::token::{lemma_char_round_trip, spec_char_to_token, spec_token_to_char, Token};
use vstd::prelude::*;
use vstd::wrapping::i32_specs::{wrapping_add, wrapping_mul};

verus! {

/// A halted interpreter stays as it is: no step can be taken from it, and
/// the step that is asked for all the same changes nothing.
pub proof fn lemma_halted_step_changes_nothing(s: ProgramState, input: i32, drawn: Direction)
    requires
        !s.running,
    ensures
        s.fault() == Some(Fault::Halted),
        s.step(input, drawn) == s,
{
}

/// A step halts the interpreter exactly where it executes `Quit`.
pub proof fn lemma_only_quit_halts(s: ProgramState, input: i32, drawn: Direction)
    requires
        s.fault() is None,
    ensures
        s.step(input, drawn).running <==> (s.string_mode || s.token() != Some(Token::Quit)),
{
}

/// The pointer wraps: a move to the right from the last token of a row
/// lands on the row's first, a move to the left from the first on the
/// last, and a move down from the last row or up from the first does the
/// same against the grid's height. The other coordinate stays.
pub proof fn lemma_pointer_wraps(s: ProgramState)
    requires
        s.can_move(),
    ensures
        s.direction == Direction::Right && s.x == s.rows[s.y].len() - 1 ==> s.moved().x == 0,
        s.direction == Direction::Left && s.x == 0 ==> s.moved().x == s.rows[s.y].len() - 1,
        s.direction == Direction::Down && s.y == s.height() - 1 ==> s.moved().y == 0,
        s.direction == Direction::Up && s.y == 0 ==> s.moved().y == s.height() - 1,
        s.direction.spec_is_horizontal() ==> s.moved().y == s.y,
        !s.direction.spec_is_horizontal() ==> s.moved().x == s.x,
{
    if s.direction.spec_is_horizontal() {
        if s.x < s.rows[s.y].len() {
            lemma_wrap_inside(s.x, s.rows[s.y].len() as int);
        }
    } else {
        lemma_wrap_inside(s.y, s.height());
    }
}

/// Away from the edge the pointer moves by one: a move to the right or
/// down adds one, a move to the left or up takes one away.
pub proof fn lemma_pointer_moves_by_one(s: ProgramState)
    requires
        s.can_move(),
    ensures
        s.direction == Direction::Right && s.x + 1 < s.rows[s.y].len() ==> s.moved().x == s.x + 1,
        s.direction == Direction::Left && 0 < s.x < s.rows[s.y].len() ==> s.moved().x == s.x - 1,
        s.direction == Direction::Down && s.y + 1 < s.height() ==> s.moved().y == s.y + 1,
        s.direction == Direction::Up && 0 < s.y ==> s.moved().y == s.y - 1,
{
    if s.direction.spec_is_horizontal() {
        if s.x < s.rows[s.y].len() {
            lemma_wrap_inside(s.x, s.rows[s.y].len() as int);
        }
    } else {
        lemma_wrap_inside(s.y, s.height());
    }
}

/// What was pushed last is popped first, and the pop leaves the stack as
/// it was before the push.
pub proof fn lemma_push_then_pop(s: ProgramState, value: i32)
    ensures
        top(s.pushed(value).stack) == value,
        s.pushed(value).popped() == s,
{
    assert(s.pushed(value).popped().stack =~= s.stack);
}

/// An empty stack pops zero and stays empty.
pub proof fn lemma_pop_empty(s: ProgramState)
    requires
        s.stack.len() == 0,
    ensures
        top(s.stack) == 0,
        s.popped() == s,
{
}

/// The stack with zeros below it where it holds fewer than two values.
pub open spec fn two_deep(stack: Seq<i32>) -> Seq<i32> {
    if stack.len() >= 2 {
        stack
    } else if stack.len() == 1 {
        seq![0i32, stack[0]]
    } else {
        seq![0i32, 0i32]
    }
}

/// Two swaps in a row give back the stack, filled up with zeros to two
/// values where it held fewer, and change nothing else.
pub proof fn lemma_swap_twice(s: ProgramState, input: i32, drawn: Direction)
    ensures
        s.execute(Token::Swap, input, drawn).execute(Token::Swap, input, drawn) == (ProgramState {
            stack: two_deep(s.stack),
            ..s
        }),
{
    let twice = s.execute(Token::Swap, input, drawn).execute(Token::Swap, input, drawn);
    assert(twice.stack =~= two_deep(s.stack));
}

/// `Add` and `Multiply` do not care which operand was pushed first.
pub proof fn lemma_add_multiply_commute(
    s: ProgramState,
    a: i32,
    b: i32,
    input: i32,
    drawn: Direction,
)
    ensures
        s.pushed(a).pushed(b).execute(Token::Add, input, drawn) == s.pushed(b).pushed(a).execute(
            Token::Add,
            input,
            drawn,
        ),
        s.pushed(a).pushed(b).execute(Token::Multiply, input, drawn) == s.pushed(b).pushed(
            a,
        ).execute(Token::Multiply, input, drawn),
{
    let ab = s.pushed(a).pushed(b);
    let ba = s.pushed(b).pushed(a);
    assert(rest(ab.stack) =~= s.stack.push(a));
    assert(rest(ba.stack) =~= s.stack.push(b));
    assert(rest(rest(ab.stack)) =~= s.stack);
    assert(rest(rest(ba.stack)) =~= s.stack);
    assert(a * b == b * a) by (nonlinear_arith);
    assert(wrapping_add(a, b) == wrapping_add(b, a));
    assert(wrapping_mul(a, b) == wrapping_mul(b, a));
}

/// The codes of the characters that the tokens are written as.
pub open spec fn token_codes(tokens: Seq<Token>) -> Seq<i32> {
    Seq::new(tokens.len(), |i: int| spec_token_to_char(tokens[i]) as i32)
}

/// The state after the tokens were taken one by one in string mode.
pub open spec fn typed(s: ProgramState, tokens: Seq<Token>) -> ProgramState
    decreases tokens.len(),
{
    if tokens.len() == 0 {
        s
    } else {
        typed(s, tokens.drop_last()).execute_string(tokens.last())
    }
}

/// The stack after `count` pops.
pub open spec fn rest_n(stack: Seq<i32>, count: nat) -> Seq<i32>
    decreases count,
{
    if count == 0 {
        stack
    } else {
        rest_n(rest(stack), (count - 1) as nat)
    }
}

/// The values that `count` pops give, in the order in which they come.
pub open spec fn popped_values(stack: Seq<i32>, count: nat) -> Seq<i32> {
    Seq::new(count, |k: int| top(rest_n(stack, k as nat)))
}

/// Tokens taken in string mode push their codes, in order, and change
/// nothing but the stack.
pub proof fn lemma_typed_pushes_codes(s: ProgramState, tokens: Seq<Token>)
    requires
        forall|i: int| 0 <= i < tokens.len() ==> tokens[i] != Token::StringMode,
    ensures
        typed(s, tokens) == (ProgramState { stack: s.stack + token_codes(tokens), ..s }),
    decreases tokens.len(),
{
    if tokens.len() == 0 {
        assert(s.stack + token_codes(tokens) =~= s.stack);
    } else {
        let front = tokens.drop_last();
        lemma_typed_pushes_codes(s, front);
        assert(typed(s, tokens).stack =~= s.stack + token_codes(tokens));
    }
}

/// Popping as many values as were appended gives them last first, and
/// leaves what was below.
pub proof fn lemma_pops_reverse(base: Seq<i32>, values: Seq<i32>, count: nat)
    requires
        count <= values.len(),
    ensures
        rest_n(base + values, count) == base + values.take(values.len() - count),
        count < values.len() ==> top(rest_n(base + values, count)) == values[values.len() - 1
            - count],
    decreases count,
{
    if count == 0 {
        assert(values.take(values.len() as int) =~= values);
    } else {
        assert(rest(base + values) =~= base + values.drop_last());
        lemma_pops_reverse(base, values.drop_last(), (count - 1) as nat);
        assert(values.drop_last().take(values.len() - count) =~= values.take(values.len() - count));
    }
}

/// A string survives the round trip through the stack: entering string
/// mode, taking the tokens and leaving the mode pushes the codes of their
/// characters and changes nothing else; popping as many values gives the
/// codes last first and leaves the stack as it was.
pub proof fn lemma_string_round_trip(
    s: ProgramState,
    tokens: Seq<Token>,
    input: i32,
    drawn: Direction,
)
    requires
        !s.string_mode,
        forall|i: int| 0 <= i < tokens.len() ==> tokens[i] != Token::StringMode,
    ensures
        ({
            let entered = s.execute(Token::StringMode, input, drawn);
            let left = typed(entered, tokens).execute_string(Token::StringMode);
            &&& entered.string_mode
            &&& left == (ProgramState { stack: s.stack + token_codes(tokens), ..s })
            &&& popped_values(left.stack, tokens.len()) == token_codes(tokens).reverse()
            &&& rest_n(left.stack, tokens.len()) == s.stack
        }),
{
    let entered = s.execute(Token::StringMode, input, drawn);
    let left = typed(entered, tokens).execute_string(Token::StringMode);
    let codes = token_codes(tokens);
    lemma_typed_pushes_codes(entered, tokens);
    lemma_pops_reverse(s.stack, codes, codes.len());
    assert(s.stack + codes.take(0) =~= s.stack);
    assert forall|k: int| 0 <= k < codes.len() implies popped_values(left.stack, codes.len())[k]
        == codes.reverse()[k] by {
        lemma_pops_reverse(s.stack, codes, k as nat);
    }
    assert(popped_values(left.stack, tokens.len()) =~= codes.reverse());
}

/// A cell that was just written reads back as written: `Put` of the value
/// `v` at `(x, y)`, followed by `Get` at the same place, pushes `v`, the
/// code of the character that `v` denotes.
pub proof fn lemma_put_then_get(
    s: ProgramState,
    x: i32,
    y: i32,
    v: i32,
    input: i32,
    drawn: Direction,
)
    requires
        0 <= x < i32::MAX,
        0 <= y < i32::MAX,
        spec_is_char_code(v),
    ensures
        ({
            let ready = s.pushed(v).pushed(x).pushed(y);
            let put = ready.execute(Token::Put, input, drawn);
            let again = put.pushed(x).pushed(y);
            let got = again.execute(Token::Get, input, drawn);
            &&& ready.action_fault(Token::Put) is None
            &&& put.stack == s.stack
            &&& cell(put.rows, x as int, y as int) == Some(spec_char_to_token(v as char))
            &&& again.action_fault(Token::Get) is None
            &&& got.stack == s.stack.push(v)
            &&& got.rows == put.rows
        }),
{
    let ready = s.pushed(v).pushed(x).pushed(y);
    let put = ready.execute(Token::Put, input, drawn);
    let again = put.pushed(x).pushed(y);
    let got = again.execute(Token::Get, input, drawn);
    let token = spec_char_to_token(v as char);
    assert(rest(ready.stack) =~= s.stack.push(v).push(x));
    assert(rest(rest(ready.stack)) =~= s.stack.push(v));
    assert(rest(rest(rest(ready.stack))) =~= s.stack);
    lemma_with_cell_reads_back(s.rows, x as int, y as int, token);
    lemma_char_round_trip(v as char);
    assert(rest(again.stack) =~= put.stack.push(x));
    assert(rest(rest(again.stack)) =~= put.stack);
    assert(got.stack =~= s.stack.push(v));
}

} // verus!
