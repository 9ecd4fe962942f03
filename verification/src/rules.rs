//! The movement-rule catalog: piece rules made of movement capabilities,
//! keyed by piece-type name, and the validator that decides whether a
//! delta move is permitted by a rule.

use vstd::prelude::*;
use crate::board::Board;
use crate::board::Piece;

verus! {

/// The directional shape a slide capability allows.
#[derive(Debug, Clone, Copy, PartialEq, Eq)]
pub enum SlidePattern {
    /// Straight lines only: along a rank or a file.
    FrontBack,
    /// Diagonals only.
    Diagonal,
    /// Straight lines or diagonals.
    Omni,
}

/// One way a piece may move: a continuous slide with optional range,
/// jump and direction restrictions, or a leap to a fixed set of offsets.
#[derive(Debug, Clone, PartialEq)]
pub enum MovementCap {
    Slide { pattern: SlidePattern, range: u8, can_jump: bool, only_forward: bool },
    Leap { possibilities: Vec<(i8, i8)> },
}

/// A named piece kind: its display symbol, the ordered list of movement
/// capabilities (first accepting one wins), and whether losing every piece
/// of a royal kind ends the match.
#[derive(Debug, Clone, PartialEq)]
pub struct PieceRule {
    pub name: String,
    pub symbol: String,
    pub capabilities: Vec<MovementCap>,
    pub is_royal: bool,
}

/// The rule catalog: a mapping from piece-type name to its rule,
/// with unique names.
#[derive(Debug, Clone, PartialEq)]
pub struct RuleCatalog {
    pub entries: Vec<PieceRule>,
}

impl RuleCatalog {
    /// Names are unique: no two entries share a name.
    pub open spec fn wf(self) -> bool {
        forall|i: int, j: int|
            0 <= i < j < self.entries@.len() ==> self.entries@[i].name@ != self.entries@[j].name@
    }

    /// Whether some entry carries this name.
    pub open spec fn contains_name(self, name: Seq<char>) -> bool {
        exists|i: int| 0 <= i < self.entries@.len() && self.entries@[i].name@ == name
    }

    /// The index of the entry with this name (meaningful when `contains_name`).
    pub open spec fn index_of(self, name: Seq<char>) -> int {
        choose|i: int| 0 <= i < self.entries@.len() && self.entries@[i].name@ == name
    }

    /// The rule registered under this name (meaningful when `contains_name`).
    pub open spec fn rule_named(self, name: Seq<char>) -> PieceRule {
        self.entries@[self.index_of(name)]
    }

    /// Whether any rule in the catalog is flagged royal.
    pub open spec fn any_royal(self) -> bool {
        exists|i: int| 0 <= i < self.entries@.len() && self.entries@[i].is_royal
    }

    /// An empty catalog.
    pub fn new() -> (r: RuleCatalog)
        ensures
            r.wf(),
            r.entries@.len() == 0,
    {
        RuleCatalog { entries: Vec::new() }
    }

    /// Look up the rule registered under `name`.
    pub fn get(&self, name: &String) -> (r: Option<&PieceRule>)
        requires
            self.wf(),
        ensures
            match r {
                Some(rule) => self.contains_name(name@) && *rule == self.rule_named(name@),
                None => !self.contains_name(name@),
            },
    {
        let mut i: usize = 0;
        while i < self.entries.len()
            invariant
                self.wf(),
                i <= self.entries@.len(),
                forall|j: int| 0 <= j < i ==> self.entries@[j].name@ != name@,
            decreases self.entries@.len() - i,
        {
            if self.entries[i].name == *name {
                proof {
                    let idx = self.index_of(name@);
                    assert(0 <= idx < self.entries@.len() && self.entries@[idx].name@ == name@);
                    lemma_catalog_index_unique(*self, idx, i as int);
                }
                return Some(&self.entries[i]);
            }
            i = i + 1;
        }
        None
    }

    /// Install `rule` under its name: replace the entry that carries the
    /// same name, or append a new one. Every other name keeps its rule.
    pub fn insert(&mut self, rule: PieceRule)
        requires
            old(self).wf(),
        ensures
            final(self).wf(),
            final(self).entries@.len() == old(self).entries@.len() + (if old(self).contains_name(
                rule.name@,
            ) {
                0int
            } else {
                1int
            }),
            final(self).contains_name(rule.name@),
            final(self).rule_named(rule.name@) == rule,
            forall|n: Seq<char>|
                n != rule.name@ ==> final(self).contains_name(n) == old(self).contains_name(n),
            forall|n: Seq<char>|
                n != rule.name@ && old(self).contains_name(n) ==> final(self).rule_named(n) == old(
                    self,
                ).rule_named(n),
    {
        let ghost pre = *self;
        let mut i: usize = 0;
        while i < self.entries.len()
            invariant
                *self == pre,
                pre == *old(self),
                pre.wf(),
                i <= self.entries@.len(),
                forall|j: int| 0 <= j < i ==> self.entries@[j].name@ != rule.name@,
            decreases self.entries@.len() - i,
        {
            if self.entries[i].name == *&rule.name {
                self.entries.set(i, rule);
                proof {
                    lemma_catalog_lookup_unique(*self, pre, i as int);
                }
                return ;
            }
            i = i + 1;
        }
        self.entries.push(rule);
        proof {
            lemma_catalog_lookup_unique(*self, pre, pre.entries@.len() as int);
        }
    }
}

/// Sign of an integer: 1, -1 or 0.
pub open spec fn sign_of(v: int) -> int {
    if v > 0 {
        1
    } else if v < 0 {
        -1
    } else {
        0
    }
}

/// Absolute value.
pub open spec fn abs_of(v: int) -> int {
    if v >= 0 {
        v
    } else {
        -v
    }
}

/// The larger of two integers.
pub open spec fn max_of(a: int, b: int) -> int {
    if a >= b {
        a
    } else {
        b
    }
}

/// The forward direction of a mover: the first player advances along +y,
/// the second along -y.
pub open spec fn forward_sign(mover_is_first: bool) -> int {
    if mover_is_first {
        1
    } else {
        -1
    }
}

/// Whether a delta runs along a rank, a file, or a diagonal. Any other
/// delta is never reached by a slide, so path checks skip it vacuously.
pub open spec fn is_line(dx: int, dy: int) -> bool {
    dx == 0 || dy == 0 || abs_of(dx) == abs_of(dy)
}

/// The `k`-th square after `(fx, fy)` along the unit step direction of the
/// delta `(dx, dy)`.
pub open spec fn path_cell(board: Board, fx: int, fy: int, dx: int, dy: int, k: int) -> Option<
    Piece,
> {
    board.spec_at(fx + k * sign_of(dx), fy + k * sign_of(dy))
}

/// Whether every square strictly between `(fx, fy)` and `(tx, ty)` along
/// the unit step direction is empty. Non-line deltas are clear vacuously.
pub open spec fn spec_path_clear(board: Board, fx: int, fy: int, tx: int, ty: int) -> bool {
    let dx = tx - fx;
    let dy = ty - fy;
    if !is_line(dx, dy) {
        true
    } else {
        forall|k: int|
            1 <= k < max_of(abs_of(dx), abs_of(dy)) ==> #[trigger] path_cell(
                board,
                fx,
                fy,
                dx,
                dy,
                k,
            ) is None
    }
}

/// Whether a delta satisfies a pattern: `FrontBack` wants a rank or file
/// move, `Diagonal` equal absolute components, `Omni` either.
pub open spec fn pattern_matches(p: SlidePattern, dx: int, dy: int) -> bool {
    match p {
        SlidePattern::FrontBack => dx == 0 || dy == 0,
        SlidePattern::Diagonal => abs_of(dx) == abs_of(dy),
        SlidePattern::Omni => dx == 0 || dy == 0 || abs_of(dx) == abs_of(dy),
    }
}

/// Whether a slide capability accepts the move from `(fx, fy)` to
/// `(tx, ty)`: forward restriction, pattern, range (0 means unbounded),
/// and, unless the slide may jump, a clear path.
pub open spec fn slide_accepts(
    board: Board,
    pattern: SlidePattern,
    range: int,
    can_jump: bool,
    only_forward: bool,
    mover_is_first: bool,
    fx: int,
    fy: int,
    tx: int,
    ty: int,
) -> bool {
    let dx = tx - fx;
    let dy = ty - fy;
    &&& (only_forward ==> dy == 0 || sign_of(dy) == forward_sign(mover_is_first))
    &&& (range > 0 ==> max_of(abs_of(dx), abs_of(dy)) <= range)
    &&& pattern_matches(pattern, dx, dy)
    &&& (!can_jump ==> spec_path_clear(board, fx, fy, tx, ty))
}

/// Whether `(dx, dy)` is one of the leap offsets. Leaps are never
/// path-checked: by definition they jump.
pub open spec fn leap_accepts(offsets: Seq<(i8, i8)>, dx: int, dy: int) -> bool {
    exists|i: int| 0 <= i < offsets.len() && offsets[i].0 == dx && offsets[i].1 == dy
}

/// Whether one capability accepts the move. A zero delta matches no
/// capability.
pub open spec fn cap_accepts(
    board: Board,
    cap: MovementCap,
    mover_is_first: bool,
    fx: int,
    fy: int,
    tx: int,
    ty: int,
) -> bool {
    let dx = tx - fx;
    let dy = ty - fy;
    if dx == 0 && dy == 0 {
        false
    } else {
        match cap {
            MovementCap::Slide { pattern, range, can_jump, only_forward } => slide_accepts(
                board,
                pattern,
                range as int,
                can_jump,
                only_forward,
                mover_is_first,
                fx,
                fy,
                tx,
                ty,
            ),
            MovementCap::Leap { possibilities } => leap_accepts(possibilities@, dx, dy),
        }
    }
}

/// Whether any capability of the rule accepts the move.
pub open spec fn rule_accepts(
    board: Board,
    rule: PieceRule,
    mover_is_first: bool,
    fx: int,
    fy: int,
    tx: int,
    ty: int,
) -> bool {
    exists|i: int|
        0 <= i < rule.capabilities@.len() && cap_accepts(
            board,
            rule.capabilities@[i],
            mover_is_first,
            fx,
            fy,
            tx,
            ty,
        )
}

/// A leap capability never reads the board: whether it accepts a move is
/// the same on any two boards, whatever stands between the squares.
pub proof fn lemma_leap_ignores_board(
    cap: MovementCap,
    b1: Board,
    b2: Board,
    mover_is_first: bool,
    fx: int,
    fy: int,
    tx: int,
    ty: int,
)
    requires
        cap is Leap,
    ensures
        cap_accepts(b1, cap, mover_is_first, fx, fy, tx, ty) == cap_accepts(
            b2,
            cap,
            mover_is_first,
            fx,
            fy,
            tx,
            ty,
        ),
{
}

/// Stepping once more along a unit direction adds the direction once.
proof fn lemma_mul_step(k: int, s: int)
    by (nonlinear_arith)
    ensures
        (k + 1) * s == k * s + s,
        s == 1 ==> k * s == k,
        s == -1 ==> k * s == -k,
        s == 0 ==> k * s == 0,
{
}

/// In a well-formed catalog two indices that carry the same name are equal.
proof fn lemma_catalog_index_unique(c: RuleCatalog, a: int, b: int)
    requires
        c.wf(),
        0 <= a < c.entries@.len(),
        0 <= b < c.entries@.len(),
        c.entries@[a].name@ == c.entries@[b].name@,
    ensures
        a == b,
{
    if a < b {
        assert(c.entries@[a].name@ != c.entries@[b].name@);
    } else if b < a {
        assert(c.entries@[b].name@ != c.entries@[a].name@);
    }
}

/// After writing `rule` at index `i` of a catalog whose other entries are
/// unchanged and whose old entries before `i` do not carry `rule`'s name,
/// the lookup spec functions behave as `insert` promises.
proof fn lemma_catalog_lookup_unique(post: RuleCatalog, pre: RuleCatalog, i: int)
    requires
        pre.wf(),
        0 <= i <= pre.entries@.len(),
        post.entries@.len() == if i < pre.entries@.len() {
            pre.entries@.len()
        } else {
            pre.entries@.len() + 1
        },
        i < post.entries@.len(),
        forall|j: int| 0 <= j < post.entries@.len() && j != i ==> post.entries@[j] == pre.entries@[j],
        forall|j: int| 0 <= j < i ==> pre.entries@[j].name@ != post.entries@[i].name@,
        i < pre.entries@.len() ==> pre.entries@[i].name@ == post.entries@[i].name@,
    ensures
        post.wf(),
        post.contains_name(post.entries@[i].name@),
        post.rule_named(post.entries@[i].name@) == post.entries@[i],
        forall|n: Seq<char>|
            n != post.entries@[i].name@ ==> post.contains_name(n) == pre.contains_name(n),
        forall|n: Seq<char>|
            n != post.entries@[i].name@ && pre.contains_name(n) ==> post.rule_named(n)
                == pre.rule_named(n),
{
    let name = post.entries@[i].name@;
    assert forall|a: int, b: int| 0 <= a < b < post.entries@.len() implies post.entries@[a].name@
        != post.entries@[b].name@ by {
        if a != i && b != i {
            assert(pre.entries@[a].name@ != pre.entries@[b].name@);
        } else if a == i {
            if b < pre.entries@.len() && i < pre.entries@.len() {
                assert(pre.entries@[i].name@ != pre.entries@[b].name@);
            }
        } else {
            // b == i: a < i, so the precondition on names before i applies
            assert(pre.entries@[a].name@ != name);
        }
    }
    assert(post.contains_name(name));
    let k = post.index_of(name);
    assert(0 <= k < post.entries@.len() && post.entries@[k].name@ == name);
    if k != i {
        assert(post.entries@[k].name@ != post.entries@[i].name@);
    }
    assert forall|n: Seq<char>| n != name implies post.contains_name(n) == pre.contains_name(
        n,
    ) by {
        if post.contains_name(n) {
            let a = choose|a: int|
                0 <= a < post.entries@.len() && post.entries@[a].name@ == n;
            assert(a != i);
            assert(pre.entries@[a] == post.entries@[a]);
            assert(pre.contains_name(n));
        }
        if pre.contains_name(n) {
            let a = choose|a: int| 0 <= a < pre.entries@.len() && pre.entries@[a].name@ == n;
            if a == i {
                assert(pre.entries@[i].name@ == name);
            } else {
                assert(post.entries@[a].name@ == n);
                assert(post.contains_name(n));
            }
        }
    }
    assert forall|n: Seq<char>| n != name && pre.contains_name(n) implies post.rule_named(n)
        == pre.rule_named(n) by {
        let a = post.index_of(n);
        assert(post.contains_name(n));
        assert(0 <= a < post.entries@.len() && post.entries@[a].name@ == n);
        assert(a != i);
        let b = pre.index_of(n);
        assert(0 <= b < pre.entries@.len() && pre.entries@[b].name@ == n);
        if b == i {
            assert(pre.entries@[i].name@ == name);
        }
        assert(post.entries@[a] == pre.entries@[a]);
        if a != b {
            assert(pre.entries@[a].name@ != pre.entries@[b].name@);
        }
    }
}

/// Walk the squares strictly between `from` and `to` along the unit step
/// direction and report whether all of them are empty.
pub fn path_is_clear(board: &Board, from: (u8, u8), to: (u8, u8)) -> (r: bool)
    requires
        board.wf(),
        from.0 < 8,
        from.1 < 8,
        to.0 < 8,
        to.1 < 8,
    ensures
        r == spec_path_clear(*board, from.0 as int, from.1 as int, to.0 as int, to.1 as int),
{
    let fx: i16 = from.0 as i16;
    let fy: i16 = from.1 as i16;
    let dx: i16 = to.0 as i16 - fx;
    let dy: i16 = to.1 as i16 - fy;
    let adx: i16 = if dx >= 0 {
        dx
    } else {
        -dx
    };
    let ady: i16 = if dy >= 0 {
        dy
    } else {
        -dy
    };
    if dx != 0 && dy != 0 && adx != ady {
        return true;
    }
    let sx: i16 = if dx > 0 {
        1
    } else if dx < 0 {
        -1
    } else {
        0
    };
    let sy: i16 = if dy > 0 {
        1
    } else if dy < 0 {
        -1
    } else {
        0
    };
    let n: i16 = if adx >= ady {
        adx
    } else {
        ady
    };
    let mut k: i16 = 1;
    while k < n
        invariant
            board.wf(),
            from.0 < 8,
            from.1 < 8,
            to.0 < 8,
            to.1 < 8,
            fx == from.0 as int,
            fy == from.1 as int,
            dx == to.0 as int - fx,
            dy == to.1 as int - fy,
            is_line(dx as int, dy as int),
            sx == sign_of(dx as int),
            sy == sign_of(dy as int),
            n == max_of(abs_of(dx as int), abs_of(dy as int)),
            1 <= k,
            k <= max_of(n as int, 1),
            forall|m: int|
                1 <= m < k ==> #[trigger] path_cell(
                    *board,
                    fx as int,
                    fy as int,
                    dx as int,
                    dy as int,
                    m,
                ) is None,
        decreases n - k,
    {
        proof {
            lemma_mul_step(k as int, sx as int);
            lemma_mul_step(k as int, sy as int);
        }
        let cx: i16 = fx + k * sx;
        let cy: i16 = fy + k * sy;
        assert(0 <= cx < 8 && 0 <= cy < 8);
        assert(path_cell(*board, fx as int, fy as int, dx as int, dy as int, k as int)
            == board.spec_at(cx as int, cy as int));
        if board.at(cx as u8, cy as u8).is_some() {
            return false;
        }
        k = k + 1;
    }
    true
}

/// Decide whether one capability accepts the delta move, reading the board
/// for path checks.
#[verifier::loop_isolation(false)]
fn cap_matches(cap: &MovementCap, from: (u8, u8), to: (u8, u8), mover_is_first: bool, board: &Board) -> (r:
    bool)
    requires
        board.wf(),
        from.0 < 8,
        from.1 < 8,
        to.0 < 8,
        to.1 < 8,
    ensures
        r == cap_accepts(
            *board,
            *cap,
            mover_is_first,
            from.0 as int,
            from.1 as int,
            to.0 as int,
            to.1 as int,
        ),
{
    let dx: i16 = to.0 as i16 - from.0 as i16;
    let dy: i16 = to.1 as i16 - from.1 as i16;
    if dx == 0 && dy == 0 {
        return false;
    }
    match cap {
        MovementCap::Slide { pattern, range, can_jump, only_forward } => {
            if *only_forward {
                let f: i16 = if mover_is_first {
                    1
                } else {
                    -1
                };
                let sy: i16 = if dy > 0 {
                    1
                } else if dy < 0 {
                    -1
                } else {
                    0
                };
                if dy != 0 && sy != f {
                    return false;
                }
            }
            let adx: i16 = if dx >= 0 {
                dx
            } else {
                -dx
            };
            let ady: i16 = if dy >= 0 {
                dy
            } else {
                -dy
            };
            let dist: i16 = if adx >= ady {
                adx
            } else {
                ady
            };
            if *range > 0 && dist > *range as i16 {
                return false;
            }
            let pattern_ok: bool = match pattern {
                SlidePattern::FrontBack => dx == 0 || dy == 0,
                SlidePattern::Diagonal => adx == ady,
                SlidePattern::Omni => dx == 0 || dy == 0 || adx == ady,
            };
            if !pattern_ok {
                return false;
            }
            if !*can_jump && !path_is_clear(board, from, to) {
                return false;
            }
            true
        },
        MovementCap::Leap { possibilities } => {
            let dx8: i8 = dx as i8;
            let dy8: i8 = dy as i8;
            let mut i: usize = 0;
            while i < possibilities.len()
                invariant
                    i <= possibilities@.len(),
                    dx8 as int == dx as int,
                    dy8 as int == dy as int,
                    forall|j: int|
                        0 <= j < i ==> !(possibilities@[j].0 == dx8 as int && possibilities@[j].1
                            == dy8 as int),
                decreases possibilities@.len() - i,
            {
                let p: (i8, i8) = possibilities[i];
                if p.0 == dx8 && p.1 == dy8 {
                    assert(possibilities@[i as int].0 == dx as int && possibilities@[i as int].1
                        == dy as int);
                    return true;
                }
                i = i + 1;
            }
            false
        },
    }
}

/// Decide whether the rule permits the move from `from` to `to`: the move
/// is legal if any capability in the rule's ordered list accepts it.
pub fn evaluate(rule: &PieceRule, from: (u8, u8), to: (u8, u8), mover_is_first: bool, board: &Board) -> (r:
    bool)
    requires
        board.wf(),
        from.0 < 8,
        from.1 < 8,
        to.0 < 8,
        to.1 < 8,
    ensures
        r == rule_accepts(
            *board,
            *rule,
            mover_is_first,
            from.0 as int,
            from.1 as int,
            to.0 as int,
            to.1 as int,
        ),
{
    let mut i: usize = 0;
    while i < rule.capabilities.len()
        invariant
            board.wf(),
            from.0 < 8,
            from.1 < 8,
            to.0 < 8,
            to.1 < 8,
            i <= rule.capabilities@.len(),
            forall|j: int|
                0 <= j < i ==> !cap_accepts(
                    *board,
                    rule.capabilities@[j],
                    mover_is_first,
                    from.0 as int,
                    from.1 as int,
                    to.0 as int,
                    to.1 as int,
                ),
        decreases rule.capabilities@.len() - i,
    {
        if cap_matches(&rule.capabilities[i], from, to, mover_is_first, board) {
            return true;
        }
        i = i + 1;
    }
    false
}

} // verus!
