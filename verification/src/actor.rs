//! The game actor: the single owner of one match. It validates and applies
//! every command — joining, moving, proposing and voting on rule changes,
//! spawning pieces, and reading a snapshot — and reports which events the
//! surrounding transport should fan out to subscribers.

use vstd::prelude::*;
use crate::board::Board;
use crate::board::Piece;
use crate::board::PieceType;
use crate::board::PlayerId;
use crate::errors::GameError;
use crate::rules::PieceRule;
use crate::state::GameState;
use crate::state::MoveVerdict;
use crate::state::initial_board;
use crate::state::initial_catalog;
use crate::state::move_applied;
use crate::state::rule_installed;

verus! {

/// The one-way lifecycle of a match.
#[derive(Debug, PartialEq)]
pub enum GameStatus {
    WaitingForPlayers,
    InProgress,
    Finished { winner: Option<PlayerId> },
}

impl GameStatus {
    /// A fresh value equal to this one.
    pub fn duplicate(&self) -> (r: GameStatus)
        ensures
            r == *self,
    {
        match self {
            GameStatus::WaitingForPlayers => GameStatus::WaitingForPlayers,
            GameStatus::InProgress => GameStatus::InProgress,
            GameStatus::Finished { winner } => GameStatus::Finished {
                winner: match winner {
                    Some(w) => Some(w.duplicate()),
                    None => None,
                },
            },
        }
    }
}

/// Why a join request was turned away.
#[derive(Debug, PartialEq)]
pub enum JoinError {
    GameFull,
    NameTaken,
    GameAlreadyStarted,
}

/// A client-originated intent, as the transport hands it over.
#[derive(Debug, PartialEq)]
pub enum ClientMessage {
    Join { name: String },
    Move { from: (u8, u8), to: (u8, u8) },
    ProposeRule { rule: PieceRule },
    Vote { accept: bool },
    Spawn { name: String, x: u8, y: u8 },
}

/// A point-in-time read of the match: board, turn, both players, status.
#[derive(Debug, PartialEq)]
pub struct GameStateSnapShot {
    pub board: Board,
    pub current_turn: PlayerId,
    pub player1: PlayerId,
    pub player2: PlayerId,
    pub status: GameStatus,
}

/// What a successful command asks the transport to broadcast.
#[derive(Debug, PartialEq)]
pub enum Event {
    /// A player entered the waiting room.
    PlayerJoined { name: String },
    /// The authoritative state changed; fan out a fresh snapshot.
    State,
    /// A rule was proposed; ask the other player to vote.
    VoteRequested { proposer_id: PlayerId, proposer_name: String },
    /// The disagreement threshold was reached and a rule was installed
    /// without a vote.
    ConsensusForced,
    /// The match ended.
    GameOver { winner: PlayerId },
}

/// The authoritative owner of one match: the game state once it exists,
/// the roster of joined players, the match status, and the pending rule
/// proposal of the consensus protocol.
pub struct GameActor {
    pub game: Option<GameState>,
    pub players: Vec<(String, PlayerId)>,
    pub status: GameStatus,
    pub pending_proposal: Option<(PlayerId, PieceRule)>,
}

impl GameActor {
    /// Well-formedness, kept by every command:
    /// the roster holds at most two players with distinct names; the game
    /// exists exactly once two players joined, which is also exactly when
    /// the waiting status ends; its registered players are the roster's;
    /// a pending proposal implies a running game whose disagreement count
    /// is still below the override threshold.
    pub open spec fn wf(self) -> bool {
        &&& self.players@.len() <= 2
        &&& (self.game is Some <==> self.players@.len() == 2)
        &&& (self.status is WaitingForPlayers <==> self.players@.len() < 2)
        &&& (self.game matches Some(g) ==> g.wf())
        &&& (self.game matches Some(g) ==> g.board_types_known())
        &&& (self.game matches Some(g) ==> (self.players@.len() == 2 ==> g.players.0
            == self.players@[0].1 && g.players.1 == self.players@[1].1))
        &&& (self.pending_proposal is Some ==> self.game is Some)
        &&& (self.game matches Some(g) ==> (self.pending_proposal is Some
            ==> g.disagreement_count < g.max_disagreements))
        &&& (self.players@.len() == 2 ==> self.players@[0].0@ != self.players@[1].0@)
    }

    /// Whether some joined player already carries this display name.
    pub open spec fn name_taken(self, name: Seq<char>) -> bool {
        exists|i: int| 0 <= i < self.players@.len() && self.players@[i].0@ == name
    }

    /// Whether this identity belongs to a joined player.
    pub open spec fn roster_has(self, pid: Seq<char>) -> bool {
        exists|i: int| 0 <= i < self.players@.len() && self.players@[i].1@ == pid
    }

    /// A fresh actor: empty roster, waiting for players, no game and no
    /// pending proposal yet.
    pub fn new() -> (r: GameActor)
        ensures
            r.wf(),
            r.game is None,
            r.players@.len() == 0,
            r.status is WaitingForPlayers,
            r.pending_proposal is None,
    {
        GameActor {
            game: None,
            players: Vec::new(),
            status: GameStatus::WaitingForPlayers,
            pending_proposal: None,
        }
    }
}

/// Relies on uuid::Uuid::new_v4 and the uuid Display impl: a fresh random
/// version-4 identifier rendered in the 36-character hyphenated form.
/// Nothing relates two calls: every outcome is a fresh draw.
#[verifier::external_body]
fn mint_identity() -> (r: String)
    ensures
        r@.len() == 36,
{
    uuid::Uuid::new_v4().to_string()
}

impl GameActor {
    /// Let a player join the waiting room. Rejected once the match has
    /// started or the name is already taken; on success a fresh opaque
    /// identity is minted and appended to the roster, and the second
    /// join creates the game and starts the match.
    #[verifier::loop_isolation(false)]
    pub fn handle_join(&mut self, player_name: String) -> (r: (
        Result<PlayerId, JoinError>,
        Vec<Event>,
    ))
        requires
            old(self).wf(),
        ensures
            final(self).wf(),
            r.0 is Err ==> *final(self) == *old(self) && r.1@.len() == 0,
            !(old(self).status is WaitingForPlayers) ==> r.0 == Err::<PlayerId, JoinError>(
                JoinError::GameAlreadyStarted,
            ),
            old(self).status is WaitingForPlayers && old(self).players@.len() >= 2 ==> r.0
                == Err::<PlayerId, JoinError>(JoinError::GameFull),
            old(self).status is WaitingForPlayers && old(self).players@.len() < 2 && old(
                self,
            ).name_taken(player_name@) ==> r.0 == Err::<PlayerId, JoinError>(JoinError::NameTaken),
            r.0 is Ok <==> (old(self).status is WaitingForPlayers && old(self).players@.len() < 2
                && !old(self).name_taken(player_name@)),
            r.0 matches Ok(pid) ==> {
                &&& final(self).players@ == old(self).players@.push((player_name, pid))
                &&& final(self).pending_proposal == old(self).pending_proposal
                &&& (old(self).players@.len() == 0 ==> {
                    &&& final(self).status is WaitingForPlayers
                    &&& final(self).game is None
                    &&& r.1@ =~= seq![(Event::PlayerJoined { name: player_name })]
                })
                &&& (old(self).players@.len() == 1 ==> {
                    &&& final(self).status is InProgress
                    &&& (final(self).game matches Some(g) && {
                        &&& initial_catalog(g.rules)
                        &&& initial_board(g.board, old(self).players@[0].1@, pid@)
                        &&& g.turn == old(self).players@[0].1
                        &&& g.players == (old(self).players@[0].1, pid)
                        &&& g.disagreement_count == 0
                        &&& g.max_disagreements == 3
                    })
                    &&& r.1@ =~= seq![Event::State]
                })
            },
    {
        match self.status {
            GameStatus::WaitingForPlayers => {},
            _ => {
                return (Err(JoinError::GameAlreadyStarted), Vec::new());
            },
        }
        if self.players.len() >= 2 {
            return (Err(JoinError::GameFull), Vec::new());
        }
        let mut i: usize = 0;
        while i < self.players.len()
            invariant
                i <= self.players@.len(),
                forall|j: int| 0 <= j < i ==> self.players@[j].0@ != player_name@,
            decreases self.players@.len() - i,
        {
            if self.players[i].0 == player_name {
                return (Err(JoinError::NameTaken), Vec::new());
            }
            i = i + 1;
        }
        let player_id = PlayerId(mint_identity());
        let returned_id = player_id.duplicate();
        self.players.push((player_name.clone(), player_id));
        let mut events: Vec<Event> = Vec::new();
        if self.players.len() == 2 {
            let p1 = self.players[0].1.duplicate();
            let p2 = self.players[1].1.duplicate();
            let game = GameState::new(p1, p2);
            proof {
                crate::state::lemma_initial_types_known(game);
            }
            self.game = Some(game);
            self.status = GameStatus::InProgress;
            events.push(Event::State);
        } else {
            events.push(Event::PlayerJoined { name: player_name });
        }
        (Ok(returned_id), events)
    }

    /// Apply a move for `player_id`: rejected before the match exists or
    /// for an unknown identity, otherwise delegated to the game's
    /// validate-then-apply step; a winning move finishes the match.
    #[verifier::loop_isolation(false)]
    pub fn handle_move(&mut self, player_id: &PlayerId, from: (u8, u8), to: (u8, u8)) -> (r: (
        Result<(), GameError>,
        Vec<Event>,
    ))
        requires
            old(self).wf(),
        ensures
            final(self).wf(),
            r.0 is Err ==> *final(self) == *old(self) && r.1@.len() == 0,
            old(self).game is None ==> r.0 == Err::<(), GameError>(GameError::GameNotStarted),
            old(self).game is Some && !old(self).roster_has(player_id@) ==> r.0 == Err::<
                (),
                GameError,
            >(GameError::UnknownPlayer),
            old(self).game matches Some(g) ==> (old(self).roster_has(player_id@) ==> {
                &&& (r.0 is Ok <==> g.move_verdict(player_id@, from, to) is Legal)
                &&& (g.move_verdict(player_id@, from, to) is Legal ==> {
                    &&& final(self).game matches Some(g2) && move_applied(g, g2, from, to) && {
                        &&& (g2.spec_game_over() matches Some(w) ==> final(self).status == (
                        GameStatus::Finished { winner: Some(w) }) && r.1@ =~= seq![
                            (Event::GameOver { winner: w }),
                            Event::State,
                        ])
                        &&& (g2.spec_game_over() is None ==> final(self).status == old(self).status
                            && r.1@ =~= seq![Event::State])
                    }
                    &&& final(self).players@ == old(self).players@
                    &&& final(self).pending_proposal == old(self).pending_proposal
                })
            }),
    {
        if self.players.len() < 2 {
            return (Err(GameError::GameNotStarted), Vec::new());
        }
        let mut known = false;
        let mut i: usize = 0;
        while i < self.players.len()
            invariant
                i <= self.players@.len(),
                known == exists|j: int| 0 <= j < i && self.players@[j].1@ == player_id@,
            decreases self.players@.len() - i,
        {
            if self.players[i].1.0 == player_id.0 {
                known = true;
            }
            i = i + 1;
        }
        if !known {
            return (Err(GameError::UnknownPlayer), Vec::new());
        }
        let res = match &mut self.game {
            None => {
                return (Err(GameError::GameNotStarted), Vec::new());
            },
            Some(g) => {
                let ghost pre = *g;
                let step = g.apply_move(player_id, from, to);
                proof {
                    if step is Ok {
                        crate::state::lemma_move_preserves_known_types(pre, *g, from, to);
                    }
                }
                step
            },
        };
        let mut events: Vec<Event> = Vec::new();
        match res {
            Err(e) => (Err(e), events),
            Ok(()) => {
                let winner_opt = match &self.game {
                    Some(g) => g.check_game_over(),
                    None => None,
                };
                match winner_opt {
                    Some(winner) => {
                        let announced = winner.duplicate();
                        self.status = GameStatus::Finished { winner: Some(winner) };
                        events.push(Event::GameOver { winner: announced });
                        events.push(Event::State);
                    },
                    None => {
                        events.push(Event::State);
                    },
                }
                (Ok(()), events)
            },
        }
    }

    /// Propose a rule change. Before the match exists the command is
    /// rejected. Once the disagreement counter has reached the override
    /// threshold, the proposal bypasses voting: the rule is installed at
    /// once and the counter resets. Otherwise, at most one proposal may be
    /// outstanding; recording a new one asks the other player to vote.
    #[verifier::loop_isolation(false)]
    pub fn handle_propose_rule(&mut self, player_id: &PlayerId, rule: PieceRule) -> (r: (
        Result<(), GameError>,
        Vec<Event>,
    ))
        requires
            old(self).wf(),
        ensures
            final(self).wf(),
            r.0 is Err ==> *final(self) == *old(self) && r.1@.len() == 0,
            old(self).game is None ==> r.0 == Err::<(), GameError>(GameError::GameNotStarted),
            old(self).game matches Some(g) ==> (g.disagreement_count >= g.max_disagreements ==> {
                &&& r.0 is Ok
                &&& (final(self).game matches Some(g2) && rule_installed(g, g2, rule))
                &&& final(self).pending_proposal == old(self).pending_proposal
                &&& final(self).players@ == old(self).players@
                &&& final(self).status == old(self).status
                &&& r.1@ =~= seq![Event::State, Event::ConsensusForced]
            }),
            old(self).game matches Some(g) ==> (g.disagreement_count < g.max_disagreements ==> {
                &&& (old(self).pending_proposal is Some ==> (r.0 matches Err(
                    GameError::ViolatesRule(m),
                ) && m@ == "vote in progress"@))
                &&& (old(self).pending_proposal is None ==> {
                    &&& r.0 is Ok
                    &&& (final(self).pending_proposal matches Some(p) && p.0 == *player_id && p.1
                        == rule)
                    &&& final(self).game == old(self).game
                    &&& final(self).players@ == old(self).players@
                    &&& final(self).status == old(self).status
                    &&& r.1@.len() == 1
                    &&& (r.1@[0] matches Event::VoteRequested { proposer_id, proposer_name } && {
                        &&& proposer_id == *player_id
                        &&& (old(self).roster_has(player_id@) ==> exists|i: int|
                            0 <= i < old(self).players@.len() && old(self).players@[i].1@
                                == player_id@ && proposer_name == old(self).players@[i].0)
                        &&& (!old(self).roster_has(player_id@) ==> proposer_name@ == "Unknown"@)
                    })
                })
            }),
    {
        match &mut self.game {
            None => {
                return (Err(GameError::GameNotStarted), Vec::new());
            },
            Some(g) => {
                if g.disagreement_count >= g.max_disagreements {
                    let ghost pre = *g;
                    let ghost installed = rule;
                    g.rules.insert(rule);
                    g.disagreement_count = 0;
                    proof {
                        crate::state::lemma_install_preserves_known_types(pre, *g, installed);
                    }
                    let mut events: Vec<Event> = Vec::new();
                    events.push(Event::State);
                    events.push(Event::ConsensusForced);
                    return (Ok(()), events);
                }
            },
        }
        if self.pending_proposal.is_some() {
            return (
                (Err(GameError::ViolatesRule(String::from_str("vote in progress")))),
                Vec::new(),
            );
        }
        let mut proposer_name: String = String::from_str("Unknown");
        let mut found = false;
        let mut i: usize = 0;
        while i < self.players.len()
            invariant
                i <= self.players@.len(),
                found == exists|j: int|
                    0 <= j < i && self.players@[j].1@ == player_id@,
                found ==> exists|j: int|
                    0 <= j < i && self.players@[j].1@ == player_id@ && proposer_name
                        == self.players@[j].0,
                !found ==> proposer_name@ == "Unknown"@,
            decreases self.players@.len() - i,
        {
            if !found && self.players[i].1.0 == player_id.0 {
                proposer_name = self.players[i].0.clone();
                found = true;
            }
            i = i + 1;
        }
        self.pending_proposal = Some((player_id.duplicate(), rule));
        let mut events: Vec<Event> = Vec::new();
        events.push(Event::VoteRequested { proposer_id: player_id.duplicate(), proposer_name });
        (Ok(()), events)
    }

    /// Cast the deciding vote on the pending proposal. Fails while no vote
    /// is in progress and always fails for the proposer (the self-vote
    /// ban), leaving the pending proposal intact. Acceptance installs the
    /// rule and resets the disagreement counter; rejection increments the
    /// counter. Either way the proposal is cleared.
    pub fn handle_vote(&mut self, voter_id: &PlayerId, accept: bool) -> (r: (
        Result<(), GameError>,
        Vec<Event>,
    ))
        requires
            old(self).wf(),
        ensures
            final(self).wf(),
            r.0 is Err ==> *final(self) == *old(self) && r.1@.len() == 0,
            old(self).pending_proposal is None ==> (r.0 matches Err(GameError::ViolatesRule(m))
                && m@ == "no vote in progress"@),
            old(self).pending_proposal matches Some(p) ==> (p.0@ == voter_id@ ==> (r.0 matches Err(
                GameError::ViolatesRule(m),
            ) && m@ == "cannot vote on your own proposal"@)),
            old(self).pending_proposal matches Some(p) ==> (p.0@ != voter_id@ ==> {
                &&& r.0 is Ok
                &&& final(self).pending_proposal is None
                &&& final(self).players@ == old(self).players@
                &&& final(self).status == old(self).status
                &&& (old(self).game matches Some(g) ==> {
                    &&& (accept ==> (final(self).game matches Some(g2) && rule_installed(
                        g,
                        g2,
                        p.1,
                    )))
                    &&& (!accept ==> (final(self).game matches Some(g2) && {
                        &&& g2.board == g.board
                        &&& g2.turn == g.turn
                        &&& g2.players == g.players
                        &&& g2.rules == g.rules
                        &&& g2.disagreement_count == g.disagreement_count + 1
                        &&& g2.max_disagreements == g.max_disagreements
                    }))
                })
                &&& r.1@ =~= seq![Event::State]
            }),
    {
        match &self.pending_proposal {
            None => {
                return (
                    (Err(GameError::ViolatesRule(String::from_str("no vote in progress")))),
                    Vec::new(),
                );
            },
            Some((proposer_id, _)) => {
                if voter_id.0 == proposer_id.0 {
                    return (
                        (Err(GameError::ViolatesRule(
                            String::from_str("cannot vote on your own proposal"),
                        ))),
                        Vec::new(),
                    );
                }
            },
        }
        let (_proposer_id, rule) = match self.pending_proposal.take() {
            Some(p) => p,
            None => {
                proof {
                    assert(false);
                }
                return (Err(GameError::GameNotStarted), Vec::new());
            },
        };
        match &mut self.game {
            None => {
                proof {
                    assert(false);
                }
                return (Err(GameError::GameNotStarted), Vec::new());
            },
            Some(g) => {
                if accept {
                    let ghost pre = *g;
                    let ghost installed = rule;
                    g.rules.insert(rule);
                    g.disagreement_count = 0;
                    proof {
                        crate::state::lemma_install_preserves_known_types(pre, *g, installed);
                    }
                } else {
                    g.disagreement_count = g.disagreement_count + 1;
                }
            },
        }
        let mut events: Vec<Event> = Vec::new();
        events.push(Event::State);
        (Ok(()), events)
    }

    /// Place a piece of a cataloged kind at a position, owned by
    /// `player_id`, with no legality check: an administrative override
    /// meant for trying out new rules. Rejected before the match exists,
    /// for a position off the board, and for a kind the catalog does not
    /// know.
    pub fn handle_spawn(&mut self, player_id: &PlayerId, piece_name: String, position: (u8, u8)) -> (r: (
        Result<(), GameError>,
        Vec<Event>,
    ))
        requires
            old(self).wf(),
        ensures
            final(self).wf(),
            r.0 is Err ==> *final(self) == *old(self) && r.1@.len() == 0,
            old(self).game is None ==> r.0 == Err::<(), GameError>(GameError::GameNotStarted),
            old(self).game is Some && (position.0 > 7 || position.1 > 7) ==> r.0 == Err::<
                (),
                GameError,
            >((GameError::OutOfBounds { x: position.0, y: position.1 })),
            old(self).game matches Some(g) ==> (position.0 <= 7 && position.1 <= 7
                && !g.rules.contains_name(piece_name@) ==> (r.0 matches Err(
                GameError::ViolatesRule(m),
            ) && m@ == "unknown piece"@)),
            old(self).game matches Some(g) ==> (position.0 <= 7 && position.1 <= 7
                && g.rules.contains_name(piece_name@) ==> {
                &&& r.0 is Ok
                &&& (final(self).game matches Some(g2) && {
                    &&& g2.board.wf()
                    &&& g2.board.spec_at(position.0 as int, position.1 as int) == Some(
                        (Piece { piece_type: PieceType(piece_name), owner: *player_id }),
                    )
                    &&& forall|x: int, y: int|
                        0 <= x < 8 && 0 <= y < 8 && !(x == position.0 as int && y
                            == position.1 as int) ==> #[trigger] g2.board.spec_at(x, y)
                            == g.board.spec_at(x, y)
                    &&& g2.turn == g.turn
                    &&& g2.players == g.players
                    &&& g2.rules == g.rules
                    &&& g2.disagreement_count == g.disagreement_count
                    &&& g2.max_disagreements == g.max_disagreements
                })
                &&& final(self).players@ == old(self).players@
                &&& final(self).status == old(self).status
                &&& final(self).pending_proposal == old(self).pending_proposal
                &&& r.1@ =~= seq![Event::State]
            }),
    {
        match &mut self.game {
            None => (Err(GameError::GameNotStarted), Vec::new()),
            Some(g) => {
                if position.0 > 7 || position.1 > 7 {
                    return (
                        (Err(GameError::OutOfBounds { x: position.0, y: position.1 })),
                        Vec::new(),
                    );
                }
                let known = match g.rules.get(&piece_name) {
                    Some(_) => true,
                    None => false,
                };
                if !known {
                    return (
                        (Err(GameError::ViolatesRule(String::from_str("unknown piece")))),
                        Vec::new(),
                    );
                }
                let ghost pre = *g;
                g.board.set_at(
                    position.0,
                    position.1,
                    Some(Piece { piece_type: PieceType(piece_name), owner: player_id.duplicate() }),
                );
                proof {
                    assert forall|x: int, y: int|
                        0 <= x < 8 && 0 <= y < 8 implies (#[trigger] g.board.spec_at(x, y) matches
                        Some(pc) ==> g.rules.contains_name(pc.piece_type@)) by {
                        if !(x == position.0 as int && y == position.1 as int) {
                            assert(g.board.spec_at(x, y) == pre.board.spec_at(x, y));
                        }
                    }
                }
                let mut events: Vec<Event> = Vec::new();
                events.push(Event::State);
                (Ok(()), events)
            },
        }
    }

    /// Read the authoritative current view: the board, turn, players and
    /// status, or an empty board with empty identities while no game
    /// exists yet.
    pub fn get_snapshot(&self) -> (r: GameStateSnapShot)
        requires
            self.wf(),
        ensures
            r.status == self.status,
            match self.game {
                Some(g) => {
                    &&& r.board.cells@ == g.board.cells@
                    &&& r.current_turn == g.turn
                    &&& r.player1 == g.players.0
                    &&& r.player2 == g.players.1
                },
                None => {
                    &&& r.board.wf()
                    &&& forall|x: int, y: int|
                        0 <= x < 8 && 0 <= y < 8 ==> r.board.spec_at(x, y) is None
                    &&& r.current_turn@ == Seq::<char>::empty()
                    &&& r.player1@ == Seq::<char>::empty()
                    &&& r.player2@ == Seq::<char>::empty()
                },
            },
    {
        match &self.game {
            Some(g) => GameStateSnapShot {
                board: g.board.duplicate(),
                current_turn: g.turn.duplicate(),
                player1: g.players.0.duplicate(),
                player2: g.players.1.duplicate(),
                status: self.status.duplicate(),
            },
            None => GameStateSnapShot {
                board: Board::empty(),
                current_turn: PlayerId(String::new()),
                player1: PlayerId(String::new()),
                player2: PlayerId(String::new()),
                status: self.status.duplicate(),
            },
        }
    }
}

} // verus!
