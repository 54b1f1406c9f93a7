//! The text rendering of a grid: aligned cell columns with box-drawing
//! separators at block boundaries.

use vstd::prelude::*;

use crate::grid::SudokuField;
use crate::grid::cell_ok;
use crate::text::char_run;
use crate::text::dec_digits;
use crate::text::decimal_width;
use crate::text::lemma_dec_digits_len_bounds;
use crate::text::lemma_dec_digits_len_monotonic;
use crate::text::push_decimal;
use crate::text::push_repeated;

verus! {

/// The width of one dashed block of a horizontal rule: one dash under each
/// cell column (cell text plus its trailing space), one more under each
/// leading space, and one under the closing bar's space.
pub open spec fn block_width(sp: nat, cell_w: nat) -> nat {
    (cell_w + 1) * sp + 1
}

/// The first `count` dashed blocks of a horizontal rule, joined by `joint`.
pub open spec fn rule_blocks(count: nat, joint: char, width: nat) -> Seq<char>
    decreases count,
{
    if count == 0 {
        Seq::empty()
    } else {
        rule_blocks((count - 1) as nat, joint, width) + (if count == 1 {
            Seq::<char>::empty()
        } else {
            seq![joint]
        }) + char_run('─', width)
    }
}

/// One horizontal rule: `sp` dashed blocks joined by `joint`, bounded by
/// `left` and `right`, ended by a line break.
pub open spec fn rule_line(left: char, joint: char, right: char, sp: nat, width: nat) -> Seq<char> {
    seq![left] + rule_blocks(sp, joint, width) + seq![right, '\n']
}

/// The bare text of one cell: the decimal digits of a present value, a dot
/// for an empty cell.
pub open spec fn cell_text(cell: Option<u8>) -> Seq<char> {
    match cell {
        Some(v) => dec_digits(v as nat),
        None => seq!['.'],
    }
}

/// One printed cell: its text right-aligned to `cell_w` characters,
/// followed by one space.
pub open spec fn padded_cell(cell: Option<u8>, cell_w: nat) -> Seq<char> {
    char_run(' ', (cell_w - cell_text(cell).len()) as nat) + cell_text(cell) + seq![' ']
}

/// The first `count` printed cells of row `row`, with a `"| "` bar before
/// each block of `sp` columns.
pub open spec fn row_cells(
    cells: Seq<Option<u8>>,
    row: int,
    count: nat,
    edge: nat,
    sp: nat,
    cell_w: nat,
) -> Seq<char>
    decreases count,
{
    if count == 0 {
        Seq::empty()
    } else {
        let col = count - 1;
        row_cells(cells, row, (count - 1) as nat, edge, sp, cell_w) + (if col % (sp as int) == 0 {
            seq!['|', ' ']
        } else {
            Seq::<char>::empty()
        }) + padded_cell(cells[row * (edge as int) + col], cell_w)
    }
}

/// One full data row: all `edge` printed cells, a closing bar, a line break.
pub open spec fn row_line(
    cells: Seq<Option<u8>>,
    row: int,
    edge: nat,
    sp: nat,
    cell_w: nat,
) -> Seq<char> {
    row_cells(cells, row, edge, edge, sp, cell_w) + seq!['|', '\n']
}

/// The rule printed above row `row`: the top border above the first row, a
/// block-boundary rule above every later row whose index is a multiple of
/// `sp`, nothing elsewhere.
pub open spec fn row_separator(row: int, sp: nat, cell_w: nat) -> Seq<char> {
    if row == 0 {
        rule_line('┌', '┬', '┐', sp, block_width(sp, cell_w))
    } else if row % (sp as int) == 0 {
        rule_line('├', '┼', '┤', sp, block_width(sp, cell_w))
    } else {
        Seq::empty()
    }
}

/// The first `count` data rows, each preceded by its separator rule.
pub open spec fn grid_rows(
    cells: Seq<Option<u8>>,
    count: nat,
    edge: nat,
    sp: nat,
    cell_w: nat,
) -> Seq<char>
    decreases count,
{
    if count == 0 {
        Seq::empty()
    } else {
        grid_rows(cells, (count - 1) as nat, edge, sp, cell_w) + row_separator(
            count - 1,
            sp,
            cell_w,
        ) + row_line(cells, count - 1, edge, sp, cell_w)
    }
}

/// The whole rendering: every data row with its separators, closed by the
/// bottom border.
pub open spec fn grid_text(cells: Seq<Option<u8>>, edge: nat, sp: nat, cell_w: nat) -> Seq<char> {
    grid_rows(cells, edge, edge, sp, cell_w) + rule_line(
        '└',
        '┴',
        '┘',
        sp,
        block_width(sp, cell_w),
    )
}

/// Appends one horizontal rule to `out`: `sp` blocks of `block_w` dashes
/// joined by `joint`, bounded by `left` and `right`, ended by a line break.
/// The three boundary strings must each hold a single character.
fn push_rule_line(
    out: &mut String,
    left: &str,
    joint: &str,
    right: &str,
    sp: usize,
    block_w: usize,
)
    requires
        left@.len() == 1,
        joint@.len() == 1,
        right@.len() == 1,
    ensures
        final(out)@ == old(out)@ + rule_line(
            left@[0],
            joint@[0],
            right@[0],
            sp as nat,
            block_w as nat,
        ),
{
    out.append(left);
    proof {
        assert(out@ =~= old(out)@ + seq![left@[0]] + rule_blocks(0, joint@[0], block_w as nat));
    }
    let mut k: usize = 0;
    while k < sp
        invariant
            left@.len() == 1,
            joint@.len() == 1,
            k <= sp,
            out@ == old(out)@ + seq![left@[0]] + rule_blocks(k as nat, joint@[0], block_w as nat),
        decreases sp - k,
    {
        proof {
            reveal_strlit("─");
        }
        if k > 0 {
            out.append(joint);
        }
        push_repeated(out, "─", block_w);
        proof {
            assert(out@ =~= old(out)@ + seq![left@[0]] + rule_blocks(
                (k + 1) as nat,
                joint@[0],
                block_w as nat,
            ));
        }
        k = k + 1;
    }
    out.append(right);
    out.append("\n");
    proof {
        reveal_strlit("\n");
        assert(out@ =~= old(out)@ + rule_line(
            left@[0],
            joint@[0],
            right@[0],
            sp as nat,
            block_w as nat,
        ));
    }
}

impl SudokuField {
    /// What `pretty_format` returns: the grid's rendering, with every cell
    /// column as wide as the decimal digits of `edge_size`.
    pub open spec fn rendered(&self) -> Seq<char> {
        grid_text(
            self.cells(),
            self.spec_edge_size(),
            self.spec_size_param(),
            dec_digits(self.spec_edge_size()).len(),
        )
    }

    /// Renders the grid as the aligned multi-line diagram that
    /// [`SudokuField::rendered`] describes.
    pub fn pretty_format(&self) -> (text: String)
        requires
            self.wf(),
        ensures
            text@ == self.rendered(),
    {
        let sp = self.size_param_val();
        let edge = self.edge_size_val();
        let cell_w = decimal_width(edge);
        proof {
            assert(4 <= self.spec_edge_size()) by (nonlinear_arith)
                requires
                    2 <= self.spec_size_param(),
                    self.spec_edge_size() == self.spec_size_param() * self.spec_size_param(),
            ;
            lemma_dec_digits_len_bounds(self.spec_edge_size());
            assert(cell_w + 1 <= usize::MAX && (cell_w + 1) * self.spec_size_param()
                <= usize::MAX && (cell_w + 1) * self.spec_size_param() + 1 <= usize::MAX)
                by (nonlinear_arith)
                requires
                    2 <= self.spec_size_param(),
                    self.spec_edge_size() == self.spec_size_param() * self.spec_size_param(),
                    self.spec_num_cells() == self.spec_edge_size() * self.spec_edge_size(),
                    self.spec_num_cells() <= usize::MAX,
                    1 <= cell_w as nat <= self.spec_edge_size(),
            ;
        }
        let block_w = (cell_w + 1) * sp + 1;
        let mut text = String::new();
        let mut row: usize = 0;
        while row < edge
            invariant
                self.wf(),
                sp as nat == self.spec_size_param(),
                edge as nat == self.spec_edge_size(),
                cell_w == dec_digits(self.spec_edge_size()).len(),
                block_w == block_width(self.spec_size_param(), cell_w as nat),
                row <= self.spec_edge_size(),
                text@ == grid_rows(
                    self.cells(),
                    row as nat,
                    self.spec_edge_size(),
                    self.spec_size_param(),
                    cell_w as nat,
                ),
            decreases self.spec_edge_size() - row,
        {
            proof {
                reveal_strlit("┌");
                reveal_strlit("┬");
                reveal_strlit("┐");
                reveal_strlit("├");
                reveal_strlit("┼");
                reveal_strlit("┤");
            }
            let ghost row_prefix = text@;
            if row == 0 {
                push_rule_line(&mut text, "┌", "┬", "┐", sp, block_w);
            } else if row % sp == 0 {
                push_rule_line(&mut text, "├", "┼", "┤", sp, block_w);
            }
            proof {
                let ghost spn = self.spec_size_param();
                let ghost cw = cell_w as nat;
                let ghost sep = row_separator(row as int, spn, cw);
                if row == 0 {
                    assert(sep == rule_line('┌', '┬', '┐', spn, block_width(spn, cw)));
                } else if row as int % (spn as int) == 0 {
                    assert(sep == rule_line('├', '┼', '┤', spn, block_width(spn, cw)));
                } else {
                    assert(sep == Seq::<char>::empty());
                }
                assert(text@ =~= row_prefix + sep);
                assert(row_cells(self.cells(), row as int, 0, self.spec_edge_size(), spn, cw)
                    == Seq::<char>::empty());
                assert(text@ =~= row_prefix + sep + row_cells(
                    self.cells(),
                    row as int,
                    0,
                    self.spec_edge_size(),
                    spn,
                    cw,
                ));
            }
            let mut col: usize = 0;
            while col < edge
                invariant
                    self.wf(),
                    sp as nat == self.spec_size_param(),
                    edge as nat == self.spec_edge_size(),
                    cell_w == dec_digits(self.spec_edge_size()).len(),
                    row < self.spec_edge_size(),
                    col <= self.spec_edge_size(),
                    text@ == row_prefix + row_separator(
                        row as int,
                        self.spec_size_param(),
                        cell_w as nat,
                    ) + row_cells(
                        self.cells(),
                        row as int,
                        col as nat,
                        self.spec_edge_size(),
                        self.spec_size_param(),
                        cell_w as nat,
                    ),
                decreases self.spec_edge_size() - col,
            {
                proof {
                    reveal_strlit("| ");
                    reveal_strlit(".");
                    reveal_strlit(" ");
                    assert(row as int * self.spec_edge_size() as int + col
                        < self.spec_edge_size() as int * self.spec_edge_size() as int)
                        by (nonlinear_arith)
                        requires
                            row < self.spec_edge_size(),
                            col < self.spec_edge_size(),
                    ;
                }
                if col % sp == 0 {
                    text.append("| ");
                }
                let cell = self.get_at(col, row);
                proof {
                    assert(cell_ok(
                        self.cells()[row as int * self.spec_edge_size() as int + col as int],
                        self.spec_edge_size(),
                    ));
                    lemma_dec_digits_len_bounds(self.spec_edge_size());
                }
                match cell {
                    Some(v) => {
                        let w = decimal_width(v as usize);
                        proof {
                            lemma_dec_digits_len_monotonic(v as nat, self.spec_edge_size());
                        }
                        push_repeated(&mut text, " ", cell_w - w);
                        push_decimal(&mut text, v as usize);
                    },
                    None => {
                        push_repeated(&mut text, " ", cell_w - 1);
                        text.append(".");
                    },
                }
                text.append(" ");
                proof {
                    assert(text@ =~= row_prefix + row_separator(
                        row as int,
                        self.spec_size_param(),
                        cell_w as nat,
                    ) + row_cells(
                        self.cells(),
                        row as int,
                        (col + 1) as nat,
                        self.spec_edge_size(),
                        self.spec_size_param(),
                        cell_w as nat,
                    ));
                }
                col = col + 1;
            }
            proof {
                reveal_strlit("|\n");
            }
            text.append("|\n");
            proof {
                assert(text@ =~= grid_rows(
                    self.cells(),
                    (row + 1) as nat,
                    self.spec_edge_size(),
                    self.spec_size_param(),
                    cell_w as nat,
                ));
            }
            row = row + 1;
        }
        proof {
            reveal_strlit("└");
            reveal_strlit("┴");
            reveal_strlit("┘");
        }
        push_rule_line(&mut text, "└", "┴", "┘", sp, block_w);
        proof {
            assert(text@ =~= self.rendered());
        }
        text
    }
}

/// Rendering is deterministic: two renderings of the same unmodified grid
/// are identical, character for character.
pub proof fn lemma_pretty_format_deterministic(
    grid: &SudokuField,
    first: Seq<char>,
    second: Seq<char>,
)
    requires
        first == grid.rendered(),
        second == grid.rendered(),
    ensures
        first == second,
{
}

} // verus!
