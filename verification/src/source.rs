//! Program text: one row per line, one token per character.

use crate::grid::{all_have_chars, rows_of};
use crate::token::{lemma_char_round_trip, spec_char_to_token, Token, TokenTable};
use vstd::prelude::*;

verus! {

/// A line without the carriage return at its end, if it has one.
pub open spec fn without_return(line: Seq<char>) -> Seq<char> {
    if line.len() > 0 && line.last() == '\r' {
        line.drop_last()
    } else {
        line
    }
}

/// What follows the last line feed of `text`: the line that is not yet
/// ended.
pub open spec fn open_line(text: Seq<char>) -> Seq<char>
    decreases text.len(),
{
    if text.len() == 0 || text.last() == '\n' {
        Seq::empty()
    } else {
        open_line(text.drop_last()).push(text.last())
    }
}

/// The lines of `text` that a line feed ends, each without the line feed
/// and without a carriage return directly before it.
pub open spec fn ended_lines(text: Seq<char>) -> Seq<Seq<char>>
    decreases text.len(),
{
    if text.len() == 0 {
        Seq::empty()
    } else if text.last() == '\n' {
        ended_lines(text.drop_last()).push(without_return(open_line(text.drop_last())))
    } else {
        ended_lines(text.drop_last())
    }
}

/// The lines of `text`. What follows the last line feed is a line unless
/// it is empty.
pub open spec fn text_lines(text: Seq<char>) -> Seq<Seq<char>> {
    if open_line(text).len() > 0 {
        ended_lines(text).push(open_line(text))
    } else {
        ended_lines(text)
    }
}

/// The tokens that the characters of a line denote.
pub open spec fn line_tokens(line: Seq<char>) -> Seq<Token> {
    Seq::new(line.len(), |i: int| spec_char_to_token(line[i]))
}

/// The rows of tokens that the lines denote.
pub open spec fn lines_tokens(lines: Seq<Seq<char>>) -> Seq<Seq<Token>> {
    Seq::new(lines.len(), |i: int| line_tokens(lines[i]))
}

/// The rows of the program that `text` holds.
pub open spec fn program_rows(text: Seq<char>) -> Seq<Seq<Token>> {
    lines_tokens(text_lines(text))
}

/// Reads program text into rows of tokens: one row for each line, one
/// token for each character.
pub fn lines_to_token_matrix(text: &str) -> (rows: Vec<Vec<Token>>)
    ensures
        rows_of(rows@) == program_rows(text@),
        all_have_chars(rows_of(rows@)),
{
    let table = TokenTable::new();
    let mut rows: Vec<Vec<Token>> = Vec::new();
    let mut current: Vec<Token> = Vec::new();
    let mut after_return: bool = false;
    for c in it: text.chars()
        invariant
            table.wf(),
            it.seq() == text@,
            rows_of(rows@) == lines_tokens(ended_lines(text@.take(it.index() as int))),
            current@ == line_tokens(open_line(text@.take(it.index() as int))),
            after_return == (current@.len() > 0 && open_line(text@.take(it.index() as int)).last()
                == '\r'),
    {
        let ghost seen = text@.take(it.index() as int);
        let ghost next = text@.take(it.index() + 1);
        assert(next.drop_last() =~= seen);
        assert(next.last() == c);
        if c == '\n' {
            if after_return {
                current.pop();
            }
            assert(current@ =~= line_tokens(without_return(open_line(seen))));
            let ghost rows_before = rows_of(rows@);
            rows.push(current);
            current = Vec::new();
            after_return = false;
            assert(rows_of(rows@) =~= rows_before.push(
                line_tokens(without_return(open_line(seen))),
            ));
            assert(lines_tokens(ended_lines(next)) =~= lines_tokens(ended_lines(seen)).push(
                line_tokens(without_return(open_line(seen))),
            ));
            assert(current@ =~= line_tokens(open_line(next)));
        } else {
            current.push(table.char_to_token(c));
            after_return = c == '\r';
            assert(current@ =~= line_tokens(open_line(next)));
        }
    }
    assert(text@.take(text@.len() as int) =~= text@);
    let ghost rows_before = rows_of(rows@);
    let ghost last_line = current@;
    if current.len() > 0 {
        rows.push(current);
        assert(rows_of(rows@) =~= rows_before.push(last_line));
        assert(program_rows(text@) =~= lines_tokens(ended_lines(text@)).push(
            line_tokens(open_line(text@)),
        ));
    }
    proof {
        lemma_program_rows_have_chars(text@);
    }
    rows
}

/// Every token read from text can be written as a character.
pub proof fn lemma_program_rows_have_chars(text: Seq<char>)
    ensures
        all_have_chars(program_rows(text)),
{
    let rows = program_rows(text);
    assert forall|y: int, x: int| 0 <= y < rows.len() && 0 <= x < rows[y].len() implies (
    #[trigger] rows[y][x]).spec_has_char() by {
        lemma_char_round_trip(text_lines(text)[y][x]);
    }
}

} // verus!
