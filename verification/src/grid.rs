//! The program grid: rows of tokens that grow on demand and never shrink.

use crate::text::push_char;
use crate::token::{spec_token_to_char, Token, TokenTable};
use vstd::prelude::*;

verus! {

/// The rows of a grid as sequences.
pub open spec fn rows_of(rows: Seq<Vec<Token>>) -> Seq<Seq<Token>> {
    Seq::new(rows.len(), |i: int| rows[i]@)
}

/// The width of a grid: the length of its longest row.
pub open spec fn max_width(rows: Seq<Seq<Token>>) -> nat
    decreases rows.len(),
{
    if rows.len() == 0 {
        0
    } else {
        let before = max_width(rows.drop_last());
        if rows.last().len() > before {
            rows.last().len()
        } else {
            before
        }
    }
}

/// What a read at `(x, y)` gives: nothing outside the grid's width and
/// height, the stored token inside a row, `Noop` past a row's end.
pub open spec fn cell(rows: Seq<Seq<Token>>, x: int, y: int) -> Option<Token> {
    if 0 <= y < rows.len() && 0 <= x < max_width(rows) {
        Some(
            if x < rows[y].len() {
                rows[y][x]
            } else {
                Token::Noop
            },
        )
    } else {
        None
    }
}

/// The rows with empty rows appended until there are `height` of them.
pub open spec fn grown(rows: Seq<Seq<Token>>, height: int) -> Seq<Seq<Token>> {
    if rows.len() >= height {
        rows
    } else {
        rows + Seq::new((height - rows.len()) as nat, |i: int| Seq::<Token>::empty())
    }
}

/// The row with `Noop` appended until it holds `width` tokens.
pub open spec fn padded(row: Seq<Token>, width: int) -> Seq<Token> {
    if row.len() >= width {
        row
    } else {
        row + Seq::new((width - row.len()) as nat, |i: int| Token::Noop)
    }
}

/// What a write of `token` at `(x, y)` makes of the rows, for `x` and `y`
/// that are not negative: the grid grows down to row `y`, that row grows
/// right to column `x`, and the cell takes the token.
pub open spec fn with_cell(rows: Seq<Seq<Token>>, x: int, y: int, token: Token) -> Seq<Seq<Token>> {
    let tall = grown(rows, y + 1);
    tall.update(y, padded(tall[y], x + 1).update(x, token))
}

/// Whether the rows can be held: the width and the height are given as
/// `i32`, so neither may exceed it.
pub open spec fn rows_fit(rows: Seq<Seq<Token>>) -> bool {
    &&& rows.len() <= i32::MAX
    &&& forall|i: int| 0 <= i < rows.len() ==> (#[trigger] rows[i]).len() <= i32::MAX
}

/// No row is longer than the width, and some row is as long, unless the
/// grid has no rows.
pub proof fn lemma_max_width_bounds(rows: Seq<Seq<Token>>)
    ensures
        forall|i: int| 0 <= i < rows.len() ==> (#[trigger] rows[i]).len() <= max_width(rows),
        rows.len() == 0 ==> max_width(rows) == 0,
        rows.len() > 0 ==> exists|i: int|
            0 <= i < rows.len() && (#[trigger] rows[i]).len() == max_width(rows),
    decreases rows.len(),
{
    if rows.len() > 0 {
        let front = rows.drop_last();
        lemma_max_width_bounds(front);
        assert forall|i: int| 0 <= i < rows.len() implies (#[trigger] rows[i]).len() <= max_width(
            rows,
        ) by {
            if i < front.len() {
                assert(front[i] == rows[i]);
            }
        }
        if rows.last().len() > max_width(front) || front.len() == 0 {
            assert(rows[rows.len() - 1].len() == max_width(rows));
        } else {
            let i = choose|i: int| 0 <= i < front.len() && (#[trigger] front[i]).len() == max_width(front);
            assert(rows[i].len() == max_width(rows));
        }
    }
}

/// A bound on every row that some row reaches is the width.
pub proof fn lemma_max_width_is(rows: Seq<Seq<Token>>, width: nat)
    requires
        forall|i: int| 0 <= i < rows.len() ==> (#[trigger] rows[i]).len() <= width,
        width == 0 || exists|i: int| 0 <= i < rows.len() && (#[trigger] rows[i]).len() == width,
    ensures
        max_width(rows) == width,
{
    lemma_max_width_bounds(rows);
    if rows.len() > 0 {
        let i = choose|i: int| 0 <= i < rows.len() && (#[trigger] rows[i]).len() == max_width(rows);
        assert(rows[i].len() <= width);
    }
}

/// A write widens the grid to hold its column and no further, and
/// heightens it to hold its row and no further.
pub proof fn lemma_with_cell_extent(rows: Seq<Seq<Token>>, x: int, y: int, token: Token)
    requires
        0 <= x,
        0 <= y,
    ensures
        max_width(with_cell(rows, x, y, token)) == if max_width(rows) > x + 1 {
            max_width(rows) as int
        } else {
            x + 1
        },
        with_cell(rows, x, y, token).len() == if rows.len() > y + 1 {
            rows.len() as int
        } else {
            y + 1
        },
{
    let after = with_cell(rows, x, y, token);
    let tall = grown(rows, y + 1);
    let width: nat = if max_width(rows) > x + 1 {
        max_width(rows)
    } else {
        (x + 1) as nat
    };
    lemma_max_width_bounds(rows);
    assert forall|i: int| 0 <= i < after.len() implies (#[trigger] after[i]).len() <= width by {
        if i < rows.len() {
            assert(tall[i] == rows[i]);
        }
    }
    if max_width(rows) > x + 1 {
        let i = choose|i: int| 0 <= i < rows.len() && (#[trigger] rows[i]).len() == max_width(rows);
        assert(tall[i] == rows[i]);
        assert(after[i].len() == width);
    } else {
        if y < rows.len() {
            assert(tall[y] == rows[y]);
        }
        assert(after[y].len() == width);
    }
    lemma_max_width_is(after, width);
}

/// A read of the cell just written gives the token written.
pub proof fn lemma_with_cell_reads_back(rows: Seq<Seq<Token>>, x: int, y: int, token: Token)
    requires
        0 <= x,
        0 <= y,
    ensures
        cell(with_cell(rows, x, y, token), x, y) == Some(token),
{
    lemma_with_cell_extent(rows, x, y, token);
}

/// A write leaves every other cell of the grid as it was: the grid never
/// shrinks, and no other token changes.
pub proof fn lemma_with_cell_keeps_others(
    rows: Seq<Seq<Token>>,
    x: int,
    y: int,
    token: Token,
    x2: int,
    y2: int,
)
    requires
        0 <= x,
        0 <= y,
        (x2, y2) != (x, y),
        cell(rows, x2, y2) is Some,
    ensures
        cell(with_cell(rows, x, y, token), x2, y2) == cell(rows, x2, y2),
{
    lemma_with_cell_extent(rows, x, y, token);
    let tall = grown(rows, y + 1);
    assert(tall[y2] == rows[y2]);
}

/// The program grid. Rows are as long as they were written; reads past a
/// row's end, within the grid's width, see `Noop`.
pub struct Grid {
    rows: Vec<Vec<Token>>,
    width: i32,
}

impl View for Grid {
    type V = Seq<Seq<Token>>;

    closed spec fn view(&self) -> Seq<Seq<Token>> {
        rows_of(self.rows@)
    }
}

/// Whether the rows can be held in a grid.
#[verifier::when_used_as_spec(spec_grid_fits)]
pub fn grid_fits(rows: &Vec<Vec<Token>>) -> (ok: bool)
    ensures
        ok == rows_fit(rows_of(rows@)),
{
    if rows.len() > i32::MAX as usize {
        return false;
    }
    let mut i: usize = 0;
    while i < rows.len()
        invariant
            i <= rows.len(),
            rows.len() <= i32::MAX,
            forall|j: int| 0 <= j < i ==> (#[trigger] rows_of(rows@)[j]).len() <= i32::MAX,
        decreases rows.len() - i,
    {
        if rows[i].len() > i32::MAX as usize {
            assert(rows_of(rows@)[i as int].len() > i32::MAX);
            return false;
        }
        i += 1;
    }
    true
}

/// `grid_fits` in contracts.
pub open spec fn spec_grid_fits(rows: &Vec<Vec<Token>>) -> bool {
    rows_fit(rows_of(rows@))
}

impl Grid {
    /// The cached width is the length of the longest row, and the height
    /// fits an `i32`.
    pub closed spec fn wf(&self) -> bool {
        &&& self.rows.len() <= i32::MAX
        &&& self.width == max_width(self@)
    }

    /// A grid of the given rows.
    pub fn new(rows: Vec<Vec<Token>>) -> (grid: Grid)
        requires
            rows_fit(rows_of(rows@)),
        ensures
            grid.wf(),
            grid@ == rows_of(rows@),
    {
        let ghost all = rows_of(rows@);
        let mut width: usize = 0;
        let mut i: usize = 0;
        while i < rows.len()
            invariant
                i <= rows.len(),
                all == rows_of(rows@),
                rows_fit(all),
                width == max_width(all.take(i as int)),
                width <= i32::MAX,
            decreases rows.len() - i,
        {
            let n: usize = rows[i].len();
            proof {
                assert(all.take(i + 1).drop_last() == all.take(i as int));
                assert(all.take(i + 1).last() == all[i as int]);
            }
            if n > width {
                width = n;
            }
            i += 1;
        }
        assert(all.take(rows.len() as int) == all);
        Grid { rows, width: width as i32 }
    }

    /// The number of rows.
    pub fn height(&self) -> (h: i32)
        requires
            self.wf(),
        ensures
            h == self@.len(),
    {
        self.rows.len() as i32
    }

    /// The length of the longest row.
    pub fn width(&self) -> (w: i32)
        requires
            self.wf(),
        ensures
            w == max_width(self@),
    {
        self.width
    }

    /// The length of row `y` as it was written.
    pub fn row_len(&self, y: i32) -> (n: i32)
        requires
            self.wf(),
            0 <= y < self@.len(),
        ensures
            n == self@[y as int].len(),
    {
        proof {
            lemma_max_width_bounds(self@);
        }
        self.rows[y as usize].len() as i32
    }

    /// The token at `(x, y)`, or `None` outside the grid.
    pub fn get(&self, x: i32, y: i32) -> (token: Option<Token>)
        requires
            self.wf(),
        ensures
            token == cell(self@, x as int, y as int),
    {
        if x < 0 || y < 0 || x >= self.width || y >= self.height() {
            return None;
        }
        let row = &self.rows[y as usize];
        if (x as usize) < row.len() {
            Some(row[x as usize])
        } else {
            Some(Token::Noop)
        }
    }

    /// Writes `token` at `(x, y)`, growing the grid where the cell lies
    /// outside it.
    pub fn set(&mut self, x: i32, y: i32, token: Token)
        requires
            old(self).wf(),
            0 <= x < i32::MAX,
            0 <= y < i32::MAX,
        ensures
            final(self).wf(),
            final(self)@ == with_cell(old(self)@, x as int, y as int, token),
    {
        let column: usize = x as usize;
        let line: usize = y as usize;
        let ghost before = self@;
        while self.rows.len() <= line
            invariant
                line == y,
                y < i32::MAX,
                before.len() <= self.rows.len(),
                self.rows.len() <= before.len() || self.rows.len() <= line + 1,
                self.width == old(self).width,
                forall|i: int| 0 <= i < before.len() ==> (#[trigger] self.rows[i])@ == before[i],
                forall|i: int|
                    before.len() <= i < self.rows.len() ==> (#[trigger] self.rows[i])@.len() == 0,
            decreases line + 1 - self.rows.len(),
        {
            self.rows.push(Vec::new());
        }
        assert(self@ =~~= grown(before, y + 1));
        let ghost tall = self@;
        while self.rows[line].len() <= column
            invariant
                line == y,
                column == x,
                x < i32::MAX,
                line < self.rows.len(),
                self.rows.len() == tall.len(),
                self.width == old(self).width,
                tall[line as int].len() <= self.rows[line as int].len(),
                self.rows[line as int].len() <= tall[line as int].len() || self.rows[line as int].len()
                    <= column + 1,
                forall|i: int|
                    0 <= i < tall.len() && i != line ==> (#[trigger] self.rows[i])@ == tall[i],
                forall|j: int|
                    0 <= j < tall[line as int].len() ==> (#[trigger] self.rows[line as int][j])
                        == tall[line as int][j],
                forall|j: int|
                    tall[line as int].len() <= j < self.rows[line as int].len() ==> (
                    #[trigger] self.rows[line as int][j]) == Token::Noop,
            decreases column + 1 - self.rows[line as int].len(),
        {
            self.rows[line].push(Token::Noop);
        }
        assert(self@ =~~= tall.update(line as int, padded(tall[line as int], x + 1)));
        self.rows[line][column] = token;
        if self.width <= x {
            self.width = x + 1;
        }
        proof {
            assert(self@ =~~= with_cell(before, x as int, y as int, token));
            lemma_with_cell_extent(before, x as int, y as int, token);
        }
    }
}

/// The characters of a row's tokens.
pub open spec fn row_text(row: Seq<Token>) -> Seq<char> {
    Seq::new(row.len(), |i: int| spec_token_to_char(row[i]))
}

/// The grid as text: each row as it was written, after a line break.
pub open spec fn grid_text(rows: Seq<Seq<Token>>) -> Seq<char>
    decreases rows.len(),
{
    if rows.len() == 0 {
        Seq::empty()
    } else {
        grid_text(rows.drop_last()).push('\n') + row_text(rows.last())
    }
}

/// Whether every token of the rows can be written as a character.
pub open spec fn all_have_chars(rows: Seq<Seq<Token>>) -> bool {
    forall|y: int, x: int|
        0 <= y < rows.len() && 0 <= x < rows[y].len() ==> (#[trigger] rows[y][x]).spec_has_char()
}

impl Grid {
    /// Whether every token of the grid can be written as a character, so
    /// that the grid can be shown as text.
    pub fn has_text(&self) -> (ok: bool)
        ensures
            ok == all_have_chars(self@),
    {
        let mut y: usize = 0;
        while y < self.rows.len()
            invariant
                y <= self.rows.len(),
                forall|i: int, j: int|
                    0 <= i < y && 0 <= j < self@[i].len() ==> (#[trigger] self@[i][j]).spec_has_char(),
            decreases self.rows.len() - y,
        {
            let row = &self.rows[y];
            let mut x: usize = 0;
            while x < row.len()
                invariant
                    x <= row.len(),
                    y < self.rows.len(),
                    row@ == self@[y as int],
                    forall|j: int| 0 <= j < x ==> (#[trigger] row@[j]).spec_has_char(),
                decreases row.len() - x,
            {
                if !row[x].has_char() {
                    assert(!self@[y as int][x as int].spec_has_char());
                    return false;
                }
                x += 1;
            }
            y += 1;
        }
        true
    }

    /// The grid as text: each row as it was written, after a line break.
    pub fn to_text(&self, table: &TokenTable) -> (text: String)
        requires
            table.wf(),
            all_have_chars(self@),
        ensures
            text@ == grid_text(self@),
    {
        let mut text = String::new();
        let mut y: usize = 0;
        while y < self.rows.len()
            invariant
                y <= self.rows.len(),
                table.wf(),
                all_have_chars(self@),
                text@ == grid_text(self@.take(y as int)),
            decreases self.rows.len() - y,
        {
            let row = &self.rows[y];
            push_char(&mut text, '\n');
            let ghost before = text@;
            let mut x: usize = 0;
            while x < row.len()
                invariant
                    x <= row.len(),
                    y < self.rows.len(),
                    table.wf(),
                    row@ == self@[y as int],
                    all_have_chars(self@),
                    text@ == before + row_text(row@).take(x as int),
                decreases row.len() - x,
            {
                assert(self@[y as int][x as int].spec_has_char());
                let c = table.token_to_char(&row[x]);
                push_char(&mut text, c);
                assert(row_text(row@).take(x + 1) =~= row_text(row@).take(x as int).push(c));
                x += 1;
            }
            proof {
                assert(row_text(row@).take(row@.len() as int) =~= row_text(row@));
                assert(self@.take(y + 1).drop_last() =~= self@.take(y as int));
                assert(self@.take(y + 1).last() == self@[y as int]);
            }
            y += 1;
        }
        assert(self@.take(self.rows.len() as int) =~= self@);
        text
    }
}

} // verus!
