//! The playing field: an 8-by-8 grid of optional pieces, plus the identity
//! types that say who owns a piece and what kind of piece it is.

use vstd::prelude::*;

verus! {

/// Opaque identity token of a joined player.
#[derive(Debug, Clone, PartialEq)]
pub struct PlayerId(pub String);

impl View for PlayerId {
    type V = Seq<char>;

    open spec fn view(&self) -> Seq<char> {
        self.0@
    }
}

impl PlayerId {
    /// A fresh value equal to this one.
    pub fn duplicate(&self) -> (r: PlayerId)
        ensures
            r == *self,
    {
        PlayerId(self.0.clone())
    }
}

/// Name of a piece kind; the key into the rule catalog.
#[derive(Debug, Clone, PartialEq)]
pub struct PieceType(pub String);

impl View for PieceType {
    type V = Seq<char>;

    open spec fn view(&self) -> Seq<char> {
        self.0@
    }
}

impl PieceType {
    /// A fresh value equal to this one.
    pub fn duplicate(&self) -> (r: PieceType)
        ensures
            r == *self,
    {
        PieceType(self.0.clone())
    }
}

/// One piece on the board: its kind and its owner.
#[derive(Debug, Clone, PartialEq)]
pub struct Piece {
    pub piece_type: PieceType,
    pub owner: PlayerId,
}

impl Piece {
    /// A fresh value equal to this one.
    pub fn duplicate(&self) -> (r: Piece)
        ensures
            r == *self,
    {
        Piece { piece_type: self.piece_type.duplicate(), owner: self.owner.duplicate() }
    }
}

/// An 8-by-8 grid of cells, each holding at most one piece.
/// Stored row-major: the cell at (x, y) lives at index `y * 8 + x`.
#[derive(Debug, Clone, PartialEq)]
pub struct Board {
    pub cells: Vec<Option<Piece>>,
}

impl Board {
    /// The grid always holds exactly 64 cells.
    pub open spec fn wf(self) -> bool {
        self.cells@.len() == 64
    }

    /// The cell at column `x`, row `y`.
    pub open spec fn spec_at(self, x: int, y: int) -> Option<Piece> {
        self.cells@[y * 8 + x]
    }

    /// An empty board: 64 cells, all vacant.
    pub fn empty() -> (r: Board)
        ensures
            r.wf(),
            forall|x: int, y: int| 0 <= x < 8 && 0 <= y < 8 ==> r.spec_at(x, y) is None,
    {
        let mut cells: Vec<Option<Piece>> = Vec::new();
        let mut i: usize = 0;
        while i < 64
            invariant
                i <= 64,
                cells@.len() == i,
                forall|j: int| 0 <= j < i ==> cells@[j] is None,
            decreases 64 - i,
        {
            cells.push(None);
            i = i + 1;
        }
        let b = Board { cells };
        assert forall|x: int, y: int| 0 <= x < 8 && 0 <= y < 8 implies b.spec_at(x, y) is None by {
            assert(0 <= y * 8 + x < 64);
        }
        b
    }

    /// A fresh board whose cells equal this one's.
    pub fn duplicate(&self) -> (r: Board)
        ensures
            r.cells@ == self.cells@,
    {
        let mut cells: Vec<Option<Piece>> = Vec::new();
        let mut i: usize = 0;
        while i < self.cells.len()
            invariant
                i <= self.cells@.len(),
                cells@.len() == i,
                forall|j: int| 0 <= j < i ==> cells@[j] == self.cells@[j],
            decreases self.cells@.len() - i,
        {
            let c: Option<Piece> = match &self.cells[i] {
                Some(p) => Some(p.duplicate()),
                None => None,
            };
            cells.push(c);
            i = i + 1;
        }
        assert(cells@ =~= self.cells@);
        Board { cells }
    }

    /// Read the cell at (x, y).
    pub fn at(&self, x: u8, y: u8) -> (r: &Option<Piece>)
        requires
            self.wf(),
            x < 8,
            y < 8,
        ensures
            *r == self.spec_at(x as int, y as int),
    {
        let idx: usize = (y as usize) * 8 + (x as usize);
        &self.cells[idx]
    }

    /// Overwrite the cell at (x, y); every other cell keeps its contents.
    pub fn set_at(&mut self, x: u8, y: u8, v: Option<Piece>)
        requires
            old(self).wf(),
            x < 8,
            y < 8,
        ensures
            final(self).wf(),
            final(self).spec_at(x as int, y as int) == v,
            forall|i: int, j: int|
                0 <= i < 8 && 0 <= j < 8 && !(i == x as int && j == y as int)
                    ==> final(self).spec_at(i, j) == old(self).spec_at(i, j),
    {
        let idx: usize = (y as usize) * 8 + (x as usize);
        self.cells.set(idx, v);
        assert forall|i: int, j: int|
            0 <= i < 8 && 0 <= j < 8 && !(i == x as int && j == y as int) implies self.spec_at(i, j)
            == old(self).spec_at(i, j) by {
            assert(j * 8 + i != y as int * 8 + x as int);
        }
    }
}

} // verus!
