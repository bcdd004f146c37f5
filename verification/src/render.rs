//! Text rendering of a grid: two characters per cell, one line per row,
//! so that a live cell shows as "+ " and a dead cell as two spaces.

use vstd::prelude::*;
use vstd::string::StringExecFns;

verus! {

/// The two characters that picture one cell: "+ " when it is alive,
/// two spaces when it is dead or holds any other value.
pub open spec fn glyph(c: i8) -> Seq<char> {
    if c == 1 {
        seq!['+', ' ']
    } else {
        seq![' ', ' ']
    }
}

/// The text of one row: the glyphs of its cells in order.
pub open spec fn row_text(row: Seq<i8>) -> Seq<char>
    decreases row.len(),
{
    if row.len() == 0 {
        Seq::empty()
    } else {
        row_text(row.drop_last()) + glyph(row.last())
    }
}

/// The text of a whole grid: the text of every row, each row followed by
/// a newline.
pub open spec fn grid_text(g: Seq<Seq<i8>>) -> Seq<char>
    decreases g.len(),
{
    if g.len() == 0 {
        Seq::empty()
    } else {
        grid_text(g.drop_last()) + row_text(g.last()) + seq!['\n']
    }
}

/// Builds the text form of the grid: one line per row, two characters per
/// cell. Total over any grid, jagged or empty ones included; each row is
/// rendered at its own length.
pub fn render(map: &Vec<Vec<i8>>) -> (r: String)
    ensures
        r@ == grid_text(map.deep_view()),
{
    let ghost g = map.deep_view();
    let mut out = String::new();
    let mut x: usize = 0;
    while x < map.len()
        invariant
            g == map.deep_view(),
            x <= g.len(),
            out@ == grid_text(g.take(x as int)),
        decreases g.len() - x,
    {
        let row = &map[x];
        let ghost rs = g[x as int];
        assert(rs =~= row.deep_view());
        let mut y: usize = 0;
        while y < row.len()
            invariant
                rs == row.deep_view(),
                y <= rs.len(),
                out@ == grid_text(g.take(x as int)) + row_text(rs.take(y as int)),
            decreases rs.len() - y,
        {
            proof {
                reveal_strlit("+ ");
                reveal_strlit("  ");
                assert(rs.take(y as int + 1).drop_last() =~= rs.take(y as int));
                assert(rs.take(y as int + 1).last() == rs[y as int]);
            }
            if row[y] == 1 {
                out.append("+ ");
                assert("+ "@ =~= glyph(rs[y as int]));
            } else {
                out.append("  ");
                assert("  "@ =~= glyph(rs[y as int]));
            }
            assert(out@ =~= grid_text(g.take(x as int)) + row_text(rs.take(y as int + 1)));
            y = y + 1;
        }
        proof {
            reveal_strlit("\n");
            assert(rs.take(rs.len() as int) =~= rs);
            assert(g.take(x as int + 1).drop_last() =~= g.take(x as int));
            assert(g.take(x as int + 1).last() == rs);
        }
        out.append("\n");
        assert(out@ =~= grid_text(g.take(x as int + 1)));
        x = x + 1;
    }
    proof {
        assert(g.take(g.len() as int) =~= g);
    }
    out
}

} // verus!
