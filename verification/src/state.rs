//! The game state: board, registered players, whose turn it is, the rule
//! catalog, and the disagreement counter of the consensus protocol.
//! `apply_move` validates and applies atomically; `check_game_over` decides
//! the winner by the royal-piece criterion.

use vstd::prelude::*;
use crate::board::Board;
use crate::board::Piece;
use crate::board::PieceType;
use crate::board::PlayerId;
use crate::errors::GameError;
use crate::rules::MovementCap;
use crate::rules::PieceRule;
use crate::rules::RuleCatalog;
use crate::rules::SlidePattern;
use crate::rules::evaluate;
use crate::rules::path_is_clear;
use crate::rules::rule_accepts;
use crate::rules::spec_path_clear;

verus! {

/// The state of one running match.
#[derive(Debug, PartialEq)]
pub struct GameState {
    pub board: Board,
    pub turn: PlayerId,
    pub players: (PlayerId, PlayerId),
    pub rules: RuleCatalog,
    pub disagreement_count: u8,
    pub max_disagreements: u8,
}

/// The outcome the canonical validation order assigns to a move request:
/// the first failing check, or `Legal`.
pub enum MoveVerdict {
    Legal,
    BadBoundsFrom,
    BadBoundsTo,
    WrongTurn,
    EmptyFrom,
    WrongOwner,
    SelfCapture,
    UnknownPiece,
    Illegal,
}

impl GameState {
    /// Well-formedness: an 8-by-8 board, unique catalog names, the turn
    /// held by one of the two registered players, a positive override
    /// threshold.
    pub open spec fn wf(self) -> bool {
        &&& self.board.wf()
        &&& self.rules.wf()
        &&& self.turn@ == self.players.0@ || self.turn@ == self.players.1@
        &&& self.max_disagreements >= 1
    }

    /// The piece at the source square of a move.
    pub open spec fn src_piece(self, from: (u8, u8)) -> Option<Piece> {
        self.board.spec_at(from.0 as int, from.1 as int)
    }

    /// The player who moves after an accepted move: the other one.
    pub open spec fn spec_next_turn(self) -> PlayerId {
        if self.turn@ == self.players.1@ {
            self.players.0
        } else {
            self.players.1
        }
    }

    /// The canonical validation order: bounds, turn, source occupancy,
    /// ownership, destination, rule lookup, rule evaluation.
    pub open spec fn move_verdict(self, pid: Seq<char>, from: (u8, u8), to: (u8, u8)) -> MoveVerdict {
        if from.0 > 7 || from.1 > 7 {
            MoveVerdict::BadBoundsFrom
        } else if to.0 > 7 || to.1 > 7 {
            MoveVerdict::BadBoundsTo
        } else if pid != self.turn@ {
            MoveVerdict::WrongTurn
        } else {
            match self.src_piece(from) {
                None => MoveVerdict::EmptyFrom,
                Some(pc) => {
                    if pc.owner@ != pid {
                        MoveVerdict::WrongOwner
                    } else if self.board.spec_at(to.0 as int, to.1 as int) matches Some(dp)
                        && dp.owner@ == pid {
                        MoveVerdict::SelfCapture
                    } else if !self.rules.contains_name(pc.piece_type@) {
                        MoveVerdict::UnknownPiece
                    } else if !rule_accepts(
                        self.board,
                        self.rules.rule_named(pc.piece_type@),
                        pc.owner@ == self.players.0@,
                        from.0 as int,
                        from.1 as int,
                        to.0 as int,
                        to.1 as int,
                    ) {
                        MoveVerdict::Illegal
                    } else {
                        MoveVerdict::Legal
                    }
                },
            }
        }
    }

    /// Whether the catalog holds a rule for every piece-type currently
    /// present on the board.
    pub open spec fn board_types_known(self) -> bool {
        forall|x: int, y: int|
            0 <= x < 8 && 0 <= y < 8 ==> (#[trigger] self.board.spec_at(x, y) matches Some(pc)
                ==> self.rules.contains_name(pc.piece_type@))
    }

    /// Whether `p` still owns a piece whose rule is royal.
    pub open spec fn spec_has_royal(self, p: Seq<char>) -> bool {
        exists|x: int, y: int| 0 <= x < 8 && 0 <= y < 8 && cell_royal_for(self, x, y, p)
    }

    /// The winner by the royal-piece criterion, if the match is over:
    /// with no royal rule in the catalog there is no winner; otherwise the
    /// opponent of the one side that has no royal piece left.
    pub open spec fn spec_game_over(self) -> Option<PlayerId> {
        if !self.rules.any_royal() {
            None
        } else {
            let p1 = self.spec_has_royal(self.players.0@);
            let p2 = self.spec_has_royal(self.players.1@);
            if !p1 && p2 {
                Some(self.players.1)
            } else if !p2 && p1 {
                Some(self.players.0)
            } else {
                None
            }
        }
    }
}

/// Whether the cell at (x, y) holds a piece of `p` whose rule is royal.
pub open spec fn cell_royal_for(s: GameState, x: int, y: int, p: Seq<char>) -> bool {
    s.board.spec_at(x, y) matches Some(pc) && pc.owner@ == p && s.rules.contains_name(pc.piece_type@)
        && s.rules.rule_named(pc.piece_type@).is_royal
}

/// How a successful move transforms the state: the source piece lands on
/// the destination (capturing whatever stood there), the source empties,
/// every other cell is untouched, the turn flips, and catalog and
/// consensus counters stay as they were.
pub open spec fn move_applied(pre: GameState, post: GameState, from: (u8, u8), to: (u8, u8)) -> bool {
    &&& post.board.wf()
    &&& post.board.spec_at(to.0 as int, to.1 as int) == pre.board.spec_at(
        from.0 as int,
        from.1 as int,
    )
    &&& post.board.spec_at(from.0 as int, from.1 as int) is None
    &&& forall|x: int, y: int|
        0 <= x < 8 && 0 <= y < 8 && !(x == from.0 as int && y == from.1 as int) && !(x
            == to.0 as int && y == to.1 as int) ==> #[trigger] post.board.spec_at(x, y)
            == pre.board.spec_at(x, y)
    &&& post.turn == pre.spec_next_turn()
    &&& post.players == pre.players
    &&& post.rules == pre.rules
    &&& post.disagreement_count == pre.disagreement_count
    &&& post.max_disagreements == pre.max_disagreements
}

/// How an accepted (or force-accepted) rule transforms the state: the rule
/// is installed in the catalog under its name, every other name keeps its
/// rule, the disagreement counter resets to zero, and board, turn, players
/// and threshold stay as they were.
pub open spec fn rule_installed(pre: GameState, post: GameState, rule: PieceRule) -> bool {
    &&& post.board == pre.board
    &&& post.turn == pre.turn
    &&& post.players == pre.players
    &&& post.rules.wf()
    &&& post.rules.contains_name(rule.name@)
    &&& post.rules.rule_named(rule.name@) == rule
    &&& forall|n: Seq<char>|
        n != rule.name@ ==> post.rules.contains_name(n) == pre.rules.contains_name(n)
    &&& forall|n: Seq<char>|
        n != rule.name@ && pre.rules.contains_name(n) ==> post.rules.rule_named(n)
            == pre.rules.rule_named(n)
    &&& post.disagreement_count == 0
    &&& post.max_disagreements == pre.max_disagreements
}

/// The shape of the built-in pawn: a forward-only slide of range 1 that
/// cannot jump; not royal.
pub open spec fn pawn_rule_shape(r: PieceRule) -> bool {
    &&& r.name@ == "Pawn"@
    &&& r.symbol@ == "P"@
    &&& r.capabilities@.len() == 1
    &&& r.capabilities@[0] == (MovementCap::Slide {
        pattern: SlidePattern::FrontBack,
        range: 1u8,
        can_jump: false,
        only_forward: true,
    })
    &&& !r.is_royal
}

/// The eight L-shaped offsets of the built-in knight.
pub open spec fn knight_offsets() -> Seq<(i8, i8)> {
    seq![
        (1i8, 2i8),
        (2i8, 1i8),
        (2i8, -1i8),
        (1i8, -2i8),
        (-1i8, -2i8),
        (-2i8, -1i8),
        (-2i8, 1i8),
        (-1i8, 2i8),
    ]
}

/// The shape of the built-in knight: one leap capability over the eight
/// L-shaped offsets; not royal.
pub open spec fn knight_rule_shape(r: PieceRule) -> bool {
    &&& r.name@ == "Knight"@
    &&& r.symbol@ == "K"@
    &&& r.capabilities@.len() == 1
    &&& (r.capabilities@[0] matches MovementCap::Leap { possibilities } && possibilities@
        =~= knight_offsets())
    &&& !r.is_royal
}

/// The shape of the built-in rook: an unbounded straight slide that cannot
/// jump; not royal.
pub open spec fn rook_rule_shape(r: PieceRule) -> bool {
    &&& r.name@ == "Rook"@
    &&& r.symbol@ == "R"@
    &&& r.capabilities@.len() == 1
    &&& r.capabilities@[0] == (MovementCap::Slide {
        pattern: SlidePattern::FrontBack,
        range: 0u8,
        can_jump: false,
        only_forward: false,
    })
    &&& !r.is_royal
}

/// The shape of the built-in king: a straight slide of range 1; royal.
pub open spec fn king_rule_shape(r: PieceRule) -> bool {
    &&& r.name@ == "King"@
    &&& r.symbol@ == "K"@
    &&& r.capabilities@.len() == 1
    &&& r.capabilities@[0] == (MovementCap::Slide {
        pattern: SlidePattern::FrontBack,
        range: 1u8,
        can_jump: false,
        only_forward: false,
    })
    &&& r.is_royal
}

/// The catalog a new match starts from: exactly the four built-in rules.
pub open spec fn initial_catalog(c: RuleCatalog) -> bool {
    &&& c.wf()
    &&& c.entries@.len() == 4
    &&& c.contains_name("Pawn"@) && pawn_rule_shape(c.rule_named("Pawn"@))
    &&& c.contains_name("Knight"@) && knight_rule_shape(c.rule_named("Knight"@))
    &&& c.contains_name("Rook"@) && rook_rule_shape(c.rule_named("Rook"@))
    &&& c.contains_name("King"@) && king_rule_shape(c.rule_named("King"@))
}

/// The piece kind of the back rank at column `x`, if any: rooks in the
/// corners, knights beside them, the king on column 4.
pub open spec fn initial_back_rank(x: int) -> Option<Seq<char>> {
    if x == 0 || x == 7 {
        Some("Rook"@)
    } else if x == 1 || x == 6 {
        Some("Knight"@)
    } else if x == 4 {
        Some("King"@)
    } else {
        None
    }
}

/// What the starting position puts at (x, y): the piece-kind name and
/// whether it belongs to the first player. Rows 0 and 1 are the first
/// player's, rows 6 and 7 the second's.
pub open spec fn initial_cell_kind(x: int, y: int) -> Option<(Seq<char>, bool)> {
    if y == 1 {
        Some(("Pawn"@, true))
    } else if y == 6 {
        Some(("Pawn"@, false))
    } else if y == 0 {
        match initial_back_rank(x) {
            Some(t) => Some((t, true)),
            None => None,
        }
    } else if y == 7 {
        match initial_back_rank(x) {
            Some(t) => Some((t, false)),
            None => None,
        }
    } else {
        None
    }
}

/// Whether a cell holds what the starting position prescribes, given the
/// two players' identities.
pub open spec fn cell_matches(
    c: Option<Piece>,
    d: Option<(Seq<char>, bool)>,
    p1: Seq<char>,
    p2: Seq<char>,
) -> bool {
    match d {
        None => c is None,
        Some(td) => c matches Some(pc) && pc.piece_type@ == td.0 && pc.owner@ == (if td.1 {
            p1
        } else {
            p2
        }),
    }
}

/// Whether a board is the starting position for players `p1` and `p2`.
pub open spec fn initial_board(b: Board, p1: Seq<char>, p2: Seq<char>) -> bool {
    &&& b.wf()
    &&& forall|x: int, y: int|
        0 <= x < 8 && 0 <= y < 8 ==> cell_matches(
            #[trigger] b.spec_at(x, y),
            initial_cell_kind(x, y),
            p1,
            p2,
        )
}

/// Build the piece, if any, that the starting position puts at (x, y).
fn initial_cell(x: u8, y: u8, p1: &PlayerId, p2: &PlayerId) -> (r: Option<Piece>)
    requires
        x < 8,
        y < 8,
    ensures
        cell_matches(r, initial_cell_kind(x as int, y as int), p1@, p2@),
{
    let owner: PlayerId = if y <= 1 {
        p1.duplicate()
    } else {
        p2.duplicate()
    };
    if y == 1 || y == 6 {
        Some(Piece { piece_type: PieceType(String::from_str("Pawn")), owner })
    } else if y == 0 || y == 7 {
        if x == 0 || x == 7 {
            Some(Piece { piece_type: PieceType(String::from_str("Rook")), owner })
        } else if x == 1 || x == 6 {
            Some(Piece { piece_type: PieceType(String::from_str("Knight")), owner })
        } else if x == 4 {
            Some(Piece { piece_type: PieceType(String::from_str("King")), owner })
        } else {
            None
        }
    } else {
        None
    }
}

/// The cell of a row-major 64-cell sequence at (x, y).
pub open spec fn cell_at(cells: Seq<Option<Piece>>, x: int, y: int) -> Option<Piece> {
    cells[y * 8 + x]
}

/// Build the starting board for players `p1` (first) and `p2` (second).
fn initial_board_make(p1: &PlayerId, p2: &PlayerId) -> (r: Board)
    ensures
        initial_board(r, p1@, p2@),
{
    let mut cells: Vec<Option<Piece>> = Vec::new();
    let mut y: u8 = 0;
    while y < 8
        invariant
            y <= 8,
            cells@.len() == 8 * y,
            forall|i: int, j: int|
                0 <= i < 8 && 0 <= j < y ==> cell_matches(
                    #[trigger] cell_at(cells@, i, j),
                    initial_cell_kind(i, j),
                    p1@,
                    p2@,
                ),
        decreases 8 - y,
    {
        let mut x: u8 = 0;
        while x < 8
            invariant
                y < 8,
                x <= 8,
                cells@.len() == 8 * y + x,
                forall|i: int, j: int|
                    0 <= i < 8 && 0 <= j < y ==> cell_matches(
                        #[trigger] cell_at(cells@, i, j),
                        initial_cell_kind(i, j),
                        p1@,
                        p2@,
                    ),
                forall|i: int|
                    0 <= i < x ==> cell_matches(
                        #[trigger] cell_at(cells@, i, y as int),
                        initial_cell_kind(i, y as int),
                        p1@,
                        p2@,
                    ),
            decreases 8 - x,
        {
            let cnew = initial_cell(x, y, p1, p2);
            let ghost cv = cnew;
            let ghost pre = cells@;
            cells.push(cnew);
            proof {
                assert(cells@ == pre.push(cv));
                assert forall|i: int, j: int| 0 <= i < 8 && 0 <= j < y implies cell_matches(
                    #[trigger] cell_at(cells@, i, j),
                    initial_cell_kind(i, j),
                    p1@,
                    p2@,
                ) by {
                    assert(0 <= j * 8 + i < pre.len());
                    assert(cell_at(cells@, i, j) == cell_at(pre, i, j));
                    assert(cell_matches(cell_at(pre, i, j), initial_cell_kind(i, j), p1@, p2@));
                }
                assert forall|i: int| 0 <= i <= x implies cell_matches(
                    #[trigger] cell_at(cells@, i, y as int),
                    initial_cell_kind(i, y as int),
                    p1@,
                    p2@,
                ) by {
                    if i < x as int {
                        assert(0 <= y as int * 8 + i < pre.len());
                        assert(cell_at(cells@, i, y as int) == cell_at(pre, i, y as int));
                        assert(cell_matches(
                            cell_at(pre, i, y as int),
                            initial_cell_kind(i, y as int),
                            p1@,
                            p2@,
                        ));
                    } else {
                        assert(cell_at(cells@, i, y as int) == cv);
                    }
                }
            }
            x = x + 1;
        }
        y = y + 1;
    }
    let b = Board { cells };
    assert forall|x: int, y: int| 0 <= x < 8 && 0 <= y < 8 implies cell_matches(
        #[trigger] b.spec_at(x, y),
        initial_cell_kind(x, y),
        p1@,
        p2@,
    ) by {
        assert(b.spec_at(x, y) == cell_at(b.cells@, x, y));
    }
    b
}

/// Build the catalog of the four built-in rules.
fn initial_catalog_make() -> (r: RuleCatalog)
    ensures
        initial_catalog(r),
{
    proof {
        reveal_strlit("Pawn");
        reveal_strlit("Knight");
        reveal_strlit("Rook");
        reveal_strlit("King");
        assert("Pawn"@.len() == 4 && "Rook"@.len() == 4 && "King"@.len() == 4 && "Knight"@.len()
            == 6);
        assert("Pawn"@ != "Knight"@);
        assert("Knight"@ != "Rook"@);
        assert("Knight"@ != "King"@);
        assert("Pawn"@[0] != "Rook"@[0]);
        assert("Pawn"@ != "Rook"@);
        assert("Pawn"@[0] != "King"@[0]);
        assert("Pawn"@ != "King"@);
        assert("Rook"@[0] != "King"@[0]);
        assert("Rook"@ != "King"@);
    }
    let mut c = RuleCatalog::new();

    let mut pawn_caps: Vec<MovementCap> = Vec::new();
    pawn_caps.push(
        MovementCap::Slide {
            pattern: SlidePattern::FrontBack,
            range: 1,
            can_jump: false,
            only_forward: true,
        },
    );
    c.insert(
        PieceRule {
            name: String::from_str("Pawn"),
            symbol: String::from_str("P"),
            capabilities: pawn_caps,
            is_royal: false,
        },
    );

    let mut knight_moves: Vec<(i8, i8)> = Vec::new();
    knight_moves.push((1, 2));
    knight_moves.push((2, 1));
    knight_moves.push((2, -1));
    knight_moves.push((1, -2));
    knight_moves.push((-1, -2));
    knight_moves.push((-2, -1));
    knight_moves.push((-2, 1));
    knight_moves.push((-1, 2));
    assert(knight_moves@ =~= knight_offsets());
    let mut knight_caps: Vec<MovementCap> = Vec::new();
    knight_caps.push(MovementCap::Leap { possibilities: knight_moves });
    c.insert(
        PieceRule {
            name: String::from_str("Knight"),
            symbol: String::from_str("K"),
            capabilities: knight_caps,
            is_royal: false,
        },
    );

    let mut rook_caps: Vec<MovementCap> = Vec::new();
    rook_caps.push(
        MovementCap::Slide {
            pattern: SlidePattern::FrontBack,
            range: 0,
            can_jump: false,
            only_forward: false,
        },
    );
    c.insert(
        PieceRule {
            name: String::from_str("Rook"),
            symbol: String::from_str("R"),
            capabilities: rook_caps,
            is_royal: false,
        },
    );

    let mut king_caps: Vec<MovementCap> = Vec::new();
    king_caps.push(
        MovementCap::Slide {
            pattern: SlidePattern::FrontBack,
            range: 1,
            can_jump: false,
            only_forward: false,
        },
    );
    c.insert(
        PieceRule {
            name: String::from_str("King"),
            symbol: String::from_str("K"),
            capabilities: king_caps,
            is_royal: true,
        },
    );

    c
}

impl GameState {
    /// Create the state of a fresh match between `player1` (the first
    /// player, whose pawns advance along +y) and `player2`: the built-in
    /// catalog, the starting position, `player1` to move, no
    /// disagreements yet and an override threshold of 3.
    pub fn new(player1: PlayerId, player2: PlayerId) -> (r: GameState)
        ensures
            r.wf(),
            initial_catalog(r.rules),
            initial_board(r.board, player1@, player2@),
            r.turn == player1,
            r.players == (player1, player2),
            r.disagreement_count == 0,
            r.max_disagreements == 3,
    {
        let rules = initial_catalog_make();
        let board = initial_board_make(&player1, &player2);
        let turn = player1.duplicate();
        GameState {
            board,
            turn,
            players: (player1, player2),
            rules,
            disagreement_count: 0,
            max_disagreements: 3,
        }
    }

    /// Validate and apply one move atomically: on any failure the state is
    /// unchanged and the error names the first check of the canonical
    /// order that failed; on success the piece moves, captures, and the
    /// turn flips.
    pub fn apply_move(&mut self, player_id: &PlayerId, from: (u8, u8), to: (u8, u8)) -> (r: Result<
        (),
        GameError,
    >)
        requires
            old(self).wf(),
        ensures
            final(self).wf(),
            r is Err ==> *final(self) == *old(self),
            r is Ok <==> old(self).move_verdict(player_id@, from, to) is Legal,
            match old(self).move_verdict(player_id@, from, to) {
                MoveVerdict::Legal => move_applied(*old(self), *final(self), from, to),
                MoveVerdict::BadBoundsFrom => r == Err::<(), GameError>(
                    (GameError::OutOfBounds { x: from.0, y: from.1 }),
                ),
                MoveVerdict::BadBoundsTo => r == Err::<(), GameError>(
                    (GameError::OutOfBounds { x: to.0, y: to.1 }),
                ),
                MoveVerdict::WrongTurn => r == Err::<(), GameError>(
                    (GameError::NotYourTurn { current_player: old(self).turn.0 }),
                ),
                MoveVerdict::EmptyFrom => r == Err::<(), GameError>(
                    (GameError::EmptySource { x: from.0, y: from.1 }),
                ),
                MoveVerdict::WrongOwner => (r matches Err(GameError::NotYourPiece { owner })
                    && old(self).src_piece(from) matches Some(pc) && owner@ == pc.owner@),
                MoveVerdict::SelfCapture => r == Err::<(), GameError>(
                    (GameError::DestinationOccupiedBySelf { x: to.0, y: to.1 }),
                ),
                MoveVerdict::UnknownPiece => (r matches Err(GameError::ViolatesRule(m)) && m@
                    == "unknown piece"@),
                MoveVerdict::Illegal => (r matches Err(GameError::ViolatesRule(m)) && m@
                    == "move not allowed"@),
            },
    {
        if from.0 > 7 || from.1 > 7 {
            return Err(GameError::OutOfBounds { x: from.0, y: from.1 });
        }
        if to.0 > 7 || to.1 > 7 {
            return Err(GameError::OutOfBounds { x: to.0, y: to.1 });
        }
        if player_id.0 != self.turn.0 {
            return Err(GameError::NotYourTurn { current_player: self.turn.0.clone() });
        }
        let piece: Piece = match self.board.at(from.0, from.1) {
            Some(p) => p.duplicate(),
            None => {
                return Err(GameError::EmptySource { x: from.0, y: from.1 });
            },
        };
        if piece.owner.0 != player_id.0 {
            return Err(GameError::NotYourPiece { owner: piece.owner.0.clone() });
        }
        match self.board.at(to.0, to.1) {
            Some(dest_piece) => {
                if dest_piece.owner.0 == self.turn.0 {
                    return Err(GameError::DestinationOccupiedBySelf { x: to.0, y: to.1 });
                }
            },
            None => {},
        }
        let mover_is_first: bool = piece.owner.0 == self.players.0.0;
        match self.rules.get(&piece.piece_type.0) {
            None => {
                return Err(GameError::ViolatesRule(String::from_str("unknown piece")));
            },
            Some(rule) => {
                if !evaluate(rule, from, to, mover_is_first, &self.board) {
                    return Err(GameError::ViolatesRule(String::from_str("move not allowed")));
                }
            },
        }
        proof {
            if from.0 == to.0 && from.1 == to.1 {
                let rule = self.rules.rule_named(piece.piece_type@);
                let i = choose|i: int|
                    0 <= i < rule.capabilities@.len() && crate::rules::cap_accepts(
                        self.board,
                        rule.capabilities@[i],
                        mover_is_first,
                        from.0 as int,
                        from.1 as int,
                        to.0 as int,
                        to.1 as int,
                    );
                assert(false);
            }
        }
        self.board.set_at(to.0, to.1, Some(piece));
        self.board.set_at(from.0, from.1, None);
        self.turn = if self.turn.0 == self.players.1.0 {
            self.players.0.duplicate()
        } else {
            self.players.1.duplicate()
        };
        Ok(())
    }

    /// Whether `player` still owns at least one royal piece on the board.
    pub fn has_royal_pieces(&self, player: &PlayerId) -> (r: bool)
        requires
            self.wf(),
        ensures
            r == self.spec_has_royal(player@),
    {
        let mut y: u8 = 0;
        while y < 8
            invariant
                self.wf(),
                y <= 8,
                forall|i: int, j: int|
                    0 <= i < 8 && 0 <= j < y ==> !cell_royal_for(*self, i, j, player@),
            decreases 8 - y,
        {
            let mut x: u8 = 0;
            while x < 8
                invariant
                    self.wf(),
                    y < 8,
                    x <= 8,
                    forall|i: int, j: int|
                        0 <= i < 8 && 0 <= j < y ==> !cell_royal_for(*self, i, j, player@),
                    forall|i: int| 0 <= i < x ==> !cell_royal_for(*self, i, y as int, player@),
                decreases 8 - x,
            {
                match self.board.at(x, y) {
                    Some(piece) => {
                        if piece.owner.0 == player.0 {
                            match self.rules.get(&piece.piece_type.0) {
                                Some(rule) => {
                                    if rule.is_royal {
                                        assert(cell_royal_for(*self, x as int, y as int, player@));
                                        return true;
                                    }
                                },
                                None => {},
                            }
                        }
                    },
                    None => {},
                }
                assert(!cell_royal_for(*self, x as int, y as int, player@));
                x = x + 1;
            }
            y = y + 1;
        }
        false
    }

    /// Decide whether the match is over and who won: the opponent of the
    /// side that lost every royal piece, and nobody while no royal rule
    /// exists or both sides still hold (or both lack) royal pieces.
    pub fn check_game_over(&self) -> (r: Option<PlayerId>)
        requires
            self.wf(),
        ensures
            r == self.spec_game_over(),
    {
        let mut has_royal_rules: bool = false;
        let mut i: usize = 0;
        while i < self.rules.entries.len()
            invariant
                self.wf(),
                i <= self.rules.entries@.len(),
                has_royal_rules == exists|j: int| 0 <= j < i && self.rules.entries@[j].is_royal,
            decreases self.rules.entries@.len() - i,
        {
            if self.rules.entries[i].is_royal {
                has_royal_rules = true;
            }
            i = i + 1;
        }
        if !has_royal_rules {
            return None;
        }
        let p1_has_royal = self.has_royal_pieces(&self.players.0);
        let p2_has_royal = self.has_royal_pieces(&self.players.1);
        if !p1_has_royal && p2_has_royal {
            return Some(self.players.1.duplicate());
        }
        if !p2_has_royal && p1_has_royal {
            return Some(self.players.0.duplicate());
        }
        None
    }

    /// Whether every square strictly between `from` and `to` along the
    /// unit step direction is empty; a non-line delta passes vacuously.
    pub fn check_path_clear(&self, from: (u8, u8), to: (u8, u8)) -> (r: Result<(), GameError>)
        requires
            self.wf(),
            from.0 < 8,
            from.1 < 8,
            to.0 < 8,
            to.1 < 8,
        ensures
            r is Ok <==> spec_path_clear(
                self.board,
                from.0 as int,
                from.1 as int,
                to.0 as int,
                to.1 as int,
            ),
            r is Err ==> (r matches Err(GameError::ViolatesRule(m)) && m@ == "path is blocked"@),
    {
        if path_is_clear(&self.board, from, to) {
            Ok(())
        } else {
            Err(GameError::ViolatesRule(String::from_str("path is blocked")))
        }
    }
}

/// Turn strictly alternates: in a match between distinct players `a`
/// (first) and `b`, the player who moves after an accepted move of `a` is
/// `b`, and after an accepted move of `b` it is `a` again — so legal moves
/// alternate between the two indefinitely.
pub proof fn lemma_turn_alternates(s: GameState, a: PlayerId, b: PlayerId)
    requires
        s.players == (a, b),
        a@ != b@,
    ensures
        s.turn@ == a@ ==> s.spec_next_turn() == b,
        s.turn@ == b@ ==> s.spec_next_turn() == a,
{
}

/// A move request by anyone but the player whose turn it is fails the
/// turn check of the canonical validation order, whatever the squares
/// hold: with in-bounds coordinates its verdict is `WrongTurn`.
pub proof fn lemma_wrong_turn_rejected(s: GameState, pid: Seq<char>, from: (u8, u8), to: (u8, u8))
    requires
        from.0 <= 7,
        from.1 <= 7,
        to.0 <= 7,
        to.1 <= 7,
        pid != s.turn@,
    ensures
        s.move_verdict(pid, from, to) is WrongTurn,
{
}

/// A fresh match knows every piece it starts with: the starting position
/// holds only the four built-in kinds, and the built-in catalog has a
/// rule for each of them.
pub proof fn lemma_initial_types_known(g: GameState)
    requires
        initial_catalog(g.rules),
        initial_board(g.board, g.players.0@, g.players.1@),
    ensures
        g.board_types_known(),
{
    assert forall|x: int, y: int|
        0 <= x < 8 && 0 <= y < 8 implies (#[trigger] g.board.spec_at(x, y) matches Some(pc)
        ==> g.rules.contains_name(pc.piece_type@)) by {
        assert(cell_matches(
            g.board.spec_at(x, y),
            initial_cell_kind(x, y),
            g.players.0@,
            g.players.1@,
        ));
    }
}

/// An accepted move cannot bring an unknown piece-type onto the board:
/// if every piece had a rule before the move, every piece has one after,
/// since the only piece that moved already stood on the board and the
/// catalog is untouched.
pub proof fn lemma_move_preserves_known_types(
    pre: GameState,
    post: GameState,
    from: (u8, u8),
    to: (u8, u8),
)
    requires
        move_applied(pre, post, from, to),
        pre.board_types_known(),
        from.0 < 8,
        from.1 < 8,
        to.0 < 8,
        to.1 < 8,
    ensures
        post.board_types_known(),
{
    assert forall|x: int, y: int|
        0 <= x < 8 && 0 <= y < 8 implies (#[trigger] post.board.spec_at(x, y) matches Some(pc)
        ==> post.rules.contains_name(pc.piece_type@)) by {
        if x == to.0 as int && y == to.1 as int {
            assert(pre.board.spec_at(from.0 as int, from.1 as int) == post.board.spec_at(x, y));
        } else if !(x == from.0 as int && y == from.1 as int) {
            assert(post.board.spec_at(x, y) == pre.board.spec_at(x, y));
        }
    }
}

/// Installing a rule cannot orphan a piece on the board: the catalog only
/// ever gains or replaces entries, so every piece-type known before an
/// acceptance or forced acceptance is still known after it.
pub proof fn lemma_install_preserves_known_types(pre: GameState, post: GameState, rule: PieceRule)
    requires
        rule_installed(pre, post, rule),
        pre.board_types_known(),
    ensures
        post.board_types_known(),
{
    assert forall|x: int, y: int|
        0 <= x < 8 && 0 <= y < 8 implies (#[trigger] post.board.spec_at(x, y) matches Some(pc)
        ==> post.rules.contains_name(pc.piece_type@)) by {
        match post.board.spec_at(x, y) {
            Some(pc) => {
                assert(pre.board.spec_at(x, y) == post.board.spec_at(x, y));
                assert(pre.rules.contains_name(pc.piece_type@));
                if pc.piece_type@ != rule.name@ {
                    assert(post.rules.contains_name(pc.piece_type@) == pre.rules.contains_name(
                        pc.piece_type@,
                    ));
                }
            },
            None => {},
        }
    }
}

/// A pawn-shaped rule (forward slide of range 1) lets the first player
/// advance one square forward from (x, 1) to (x, 2) on any board, and
/// never two squares to (x, 3).
pub proof fn lemma_pawn_advance(b: Board, rule: PieceRule, x: int)
    requires
        pawn_rule_shape(rule),
        0 <= x < 8,
    ensures
        rule_accepts(b, rule, true, x, 1, x, 2),
        !rule_accepts(b, rule, true, x, 1, x, 3),
{
    assert(crate::rules::cap_accepts(b, rule.capabilities@[0], true, x, 1, x, 2));
    assert forall|i: int| 0 <= i < rule.capabilities@.len() implies !crate::rules::cap_accepts(
        b,
        rule.capabilities@[i],
        true,
        x,
        1,
        x,
        3,
    ) by {
        assert(i == 0);
    }
}

/// A rook-shaped rule (unbounded straight slide that cannot jump) permits
/// a horizontal move exactly when every square strictly between source and
/// destination is empty: one intervening piece blocks it, an empty path
/// admits it.
pub proof fn lemma_rook_slide(
    b: Board,
    rule: PieceRule,
    mover_is_first: bool,
    fx: int,
    fy: int,
    tx: int,
)
    requires
        rook_rule_shape(rule),
        0 <= fx < 8,
        0 <= fy < 8,
        0 <= tx < 8,
        fx != tx,
    ensures
        rule_accepts(b, rule, mover_is_first, fx, fy, tx, fy) <==> spec_path_clear(
            b,
            fx,
            fy,
            tx,
            fy,
        ),
{
    if spec_path_clear(b, fx, fy, tx, fy) {
        assert(crate::rules::cap_accepts(b, rule.capabilities@[0], mover_is_first, fx, fy, tx, fy));
    }
    if rule_accepts(b, rule, mover_is_first, fx, fy, tx, fy) {
        let i = choose|i: int|
            0 <= i < rule.capabilities@.len() && crate::rules::cap_accepts(
                b,
                rule.capabilities@[i],
                mover_is_first,
                fx,
                fy,
                tx,
                fy,
            );
        assert(i == 0);
    }
}

} // verus!
