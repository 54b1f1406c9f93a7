//! The grid itself: sized construction, bulk cell assignment with
//! normalization of out-of-range values, and the completion query.

use vstd::prelude::*;

use crate::text::dec_digits;
use crate::text::push_decimal;

verus! {

/// A square Sudoku grid of `edge_size = size_param * size_param` cells per
/// side, stored row-major as optional values in `[1, edge_size]`.
#[derive(Debug)]
pub struct SudokuField {
    size_param: usize,
    edge_size: usize,
    num_cells: usize,
    fields: Vec<Option<u8>>,
}

/// A present cell value lies in `[1, edge]`; an empty cell is always fine.
pub open spec fn cell_ok(cell: Option<u8>, edge: nat) -> bool {
    match cell {
        Some(v) => 1 <= v && v as nat <= edge,
        None => true,
    }
}

/// How a raw value maps to a cell: kept when it lies in `[1, edge]`,
/// silently turned into an empty cell otherwise.
pub open spec fn normalize(raw: u8, edge: nat) -> Option<u8> {
    if 1 <= raw && raw as nat <= edge {
        Some(raw)
    } else {
        None
    }
}

/// The message that rejects a block dimension smaller than two.
pub open spec fn invalid_size_message(size_param: nat) -> Seq<char> {
    "Invalid size "@ + dec_digits(size_param) + " provided (must at least be 2)."@
}

impl SudokuField {
    /// The block dimension the grid was built with.
    pub closed spec fn spec_size_param(&self) -> nat {
        self.size_param as nat
    }

    /// The side length of the square grid: `size_param * size_param`.
    pub closed spec fn spec_edge_size(&self) -> nat {
        self.edge_size as nat
    }

    /// The total cell count: `edge_size * edge_size`.
    pub closed spec fn spec_num_cells(&self) -> nat {
        self.num_cells as nat
    }

    /// The cells in row-major order (index = `row * edge_size + col`).
    pub closed spec fn cells(&self) -> Seq<Option<u8>> {
        self.fields@
    }

    /// Well-formedness: the derived sizes agree with the block dimension,
    /// the cell sequence has exactly one entry per cell, and every present
    /// value lies in `[1, edge_size]`.
    pub open spec fn wf(&self) -> bool {
        &&& 2 <= self.spec_size_param()
        &&& self.spec_edge_size() == self.spec_size_param() * self.spec_size_param()
        &&& self.spec_num_cells() == self.spec_edge_size() * self.spec_edge_size()
        &&& self.spec_num_cells() <= usize::MAX
        &&& self.cells().len() == self.spec_num_cells()
        &&& forall|i: int|
            0 <= i < self.cells().len() ==> cell_ok(
                #[trigger] self.cells()[i],
                self.spec_edge_size(),
            )
    }

    /// Builds an all-empty grid with `edge_size = size_param * size_param`,
    /// or rejects a block dimension smaller than two with a message that
    /// carries the offending value. The precondition only keeps the cell
    /// count within the machine word.
    pub fn new(size_param: usize) -> (result: Result<SudokuField, String>)
        requires
            size_param * size_param * size_param * size_param <= usize::MAX,
        ensures
            match result {
                Ok(grid) => {
                    &&& 2 <= size_param
                    &&& grid.wf()
                    &&& grid.spec_size_param() == size_param as nat
                    &&& grid.spec_edge_size() == size_param * size_param
                    &&& forall|i: int| 0 <= i < grid.cells().len() ==> grid.cells()[i] is None
                },
                Err(message) => {
                    &&& size_param < 2
                    &&& message@ == invalid_size_message(size_param as nat)
                },
            },
    {
        if size_param < 2 {
            let mut message = String::new();
            message.append("Invalid size ");
            push_decimal(&mut message, size_param);
            message.append(" provided (must at least be 2).");
            proof {
                assert(message@ =~= invalid_size_message(size_param as nat));
            }
            return Err(message);
        }
        proof {
            assert(size_param * size_param <= usize::MAX) by (nonlinear_arith)
                requires
                    2 <= size_param,
                    size_param * size_param * size_param * size_param <= usize::MAX,
            ;
        }
        let edge_size = size_param * size_param;
        proof {
            assert(edge_size * edge_size <= usize::MAX) by (nonlinear_arith)
                requires
                    edge_size == size_param * size_param,
                    size_param * size_param * size_param * size_param <= usize::MAX,
            ;
        }
        let num_cells = edge_size * edge_size;
        let mut fields: Vec<Option<u8>> = Vec::new();
        let mut i: usize = 0;
        while i < num_cells
            invariant
                i <= num_cells,
                fields@.len() == i,
                forall|j: int| 0 <= j < i ==> fields@[j] is None,
            decreases num_cells - i,
        {
            fields.push(None);
            i = i + 1;
        }
        Ok(SudokuField { size_param, edge_size, num_cells, fields })
    }

    /// Replaces the whole cell sequence: each raw value in `[1, edge_size]`
    /// is kept, every other value becomes an empty cell. The input must
    /// carry exactly one value per cell.
    pub fn set_fields(&mut self, fields: Vec<u8>)
        requires
            old(self).wf(),
            fields@.len() == old(self).spec_num_cells(),
        ensures
            final(self).wf(),
            final(self).spec_size_param() == old(self).spec_size_param(),
            final(self).spec_edge_size() == old(self).spec_edge_size(),
            final(self).spec_num_cells() == old(self).spec_num_cells(),
            final(self).cells() == Seq::new(
                fields@.len(),
                |i: int| normalize(fields@[i], old(self).spec_edge_size()),
            ),
    {
        let mut new_fields: Vec<Option<u8>> = Vec::new();
        let mut i: usize = 0;
        while i < fields.len()
            invariant
                i <= fields@.len(),
                self == old(self),
                new_fields@.len() == i,
                forall|j: int|
                    0 <= j < i ==> new_fields@[j] == normalize(
                        fields@[j],
                        old(self).spec_edge_size(),
                    ),
            decreases fields@.len() - i,
        {
            let raw = fields[i];
            if 1 <= raw && raw as usize <= self.edge_size {
                new_fields.push(Some(raw));
            } else {
                new_fields.push(None);
            }
            i = i + 1;
        }
        self.fields = new_fields;
        proof {
            assert(self.cells() =~= Seq::new(
                fields@.len(),
                |i: int| normalize(fields@[i], old(self).spec_edge_size()),
            ));
        }
    }

    /// The stored block dimension.
    pub(crate) fn size_param_val(&self) -> (sp: usize)
        ensures
            sp as nat == self.spec_size_param(),
    {
        self.size_param
    }

    /// The stored side length.
    pub(crate) fn edge_size_val(&self) -> (edge: usize)
        ensures
            edge as nat == self.spec_edge_size(),
    {
        self.edge_size
    }

    /// The row-major index of the cell in column `x` of row `y`.
    pub(crate) fn at(&self, x: usize, y: usize) -> (index: usize)
        requires
            self.wf(),
            x < self.spec_edge_size(),
            y < self.spec_edge_size(),
        ensures
            index == y * self.spec_edge_size() + x,
            index < self.spec_num_cells(),
    {
        proof {
            assert(y * self.spec_edge_size() + x < self.spec_edge_size() * self.spec_edge_size())
                by (nonlinear_arith)
                requires
                    x < self.spec_edge_size(),
                    y < self.spec_edge_size(),
            ;
        }
        y * self.edge_size + x
    }

    /// The cell in column `x` of row `y`.
    pub(crate) fn get_at(&self, x: usize, y: usize) -> (cell: Option<u8>)
        requires
            self.wf(),
            x < self.spec_edge_size(),
            y < self.spec_edge_size(),
        ensures
            cell == self.cells()[y * self.spec_edge_size() + x],
    {
        self.fields[self.at(x, y)]
    }

    /// True exactly when every cell holds a present value.
    pub fn is_complete(&self) -> (complete: bool)
        ensures
            complete == forall|i: int|
                0 <= i < self.cells().len() ==> (#[trigger] self.cells()[i]) is Some,
    {
        let mut i: usize = 0;
        while i < self.fields.len()
            invariant
                i <= self.cells().len(),
                forall|j: int| 0 <= j < i ==> (#[trigger] self.cells()[j]) is Some,
            decreases self.cells().len() - i,
        {
            if self.fields[i].is_none() {
                return false;
            }
            i = i + 1;
        }
        true
    }
}

} // verus!
