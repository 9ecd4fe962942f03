//! Tests of the game actor: joining, the consensus protocol with its
//! forced-acceptance override, spawning, snapshots, and the end-to-end
//! match flow.

use rulechess::actor::{Event, GameActor, GameStatus, JoinError};
use rulechess::board::{PieceType, PlayerId};
use rulechess::errors::GameError;
use rulechess::rules::{MovementCap, PieceRule, SlidePattern};

fn queen_rule() -> PieceRule {
    PieceRule {
        name: "Queen".to_string(),
        symbol: "Q".to_string(),
        capabilities: vec![MovementCap::Slide {
            pattern: SlidePattern::Omni,
            range: 0,
            can_jump: false,
            only_forward: false,
        }],
        is_royal: false,
    }
}

fn started_actor() -> (GameActor, PlayerId, PlayerId) {
    let mut actor = GameActor::new();
    let (ra, _) = actor.handle_join("Alice".to_string());
    let (rb, _) = actor.handle_join("Bob".to_string());
    (actor, ra.unwrap(), rb.unwrap())
}

#[test]
fn join_mints_distinct_opaque_identities() {
    let (actor, a, b) = started_actor();
    assert_eq!(a.0.len(), 36);
    assert_eq!(b.0.len(), 36);
    assert_ne!(a.0, b.0);
    assert!(matches!(actor.status, GameStatus::InProgress));
}

#[test]
fn join_errors() {
    let mut actor = GameActor::new();
    let (r1, ev1) = actor.handle_join("Alice".to_string());
    assert!(r1.is_ok());
    assert_eq!(ev1, vec![Event::PlayerJoined { name: "Alice".to_string() }]);
    // Same display name: rejected.
    let (r2, ev2) = actor.handle_join("Alice".to_string());
    assert_eq!(r2, Err(JoinError::NameTaken));
    assert!(ev2.is_empty());
    // Second player starts the match and broadcasts the initial state.
    let (r3, ev3) = actor.handle_join("Bob".to_string());
    assert!(r3.is_ok());
    assert_eq!(ev3, vec![Event::State]);
    // A third join arrives after the match started.
    let (r4, _) = actor.handle_join("Carol".to_string());
    assert_eq!(r4, Err(JoinError::GameAlreadyStarted));
}

#[test]
fn join_full_roster_rejected() {
    // A waiting room that already holds two entries turns the next join
    // away as full.
    let mut actor = GameActor::new();
    actor.players.push(("P1".to_string(), PlayerId("id-1".to_string())));
    actor.players.push(("P2".to_string(), PlayerId("id-2".to_string())));
    let (r, _) = actor.handle_join("P3".to_string());
    assert_eq!(r, Err(JoinError::GameFull));
}

#[test]
fn move_guards_session() {
    let mut actor = GameActor::new();
    let ghost_player = PlayerId("nobody".to_string());
    let (r, _) = actor.handle_move(&ghost_player, (0, 1), (0, 2));
    assert_eq!(r, Err(GameError::GameNotStarted));
    let mut actor2 = GameActor::new();
    actor2.handle_join("Alice".to_string()).0.unwrap();
    actor2.handle_join("Bob".to_string()).0.unwrap();
    let (r2, ev2) = actor2.handle_move(&ghost_player, (0, 1), (0, 2));
    assert_eq!(r2, Err(GameError::UnknownPlayer));
    assert!(ev2.is_empty());
}

#[test]
fn end_to_end_match_flow() {
    let mut actor = GameActor::new();
    let (ra, _) = actor.handle_join("Alice".to_string());
    let alice = ra.unwrap();
    assert!(matches!(actor.status, GameStatus::WaitingForPlayers));
    let (rb, _) = actor.handle_join("Bob".to_string());
    let bob = rb.unwrap();
    assert!(matches!(actor.status, GameStatus::InProgress));

    let snap = actor.get_snapshot();
    // 16 pawns on rows 1 and 6.
    let pawns = snap
        .board
        .cells
        .iter()
        .enumerate()
        .filter(|(i, c)| {
            (i / 8 == 1 || i / 8 == 6)
                && c.as_ref().map(|p| p.piece_type == PieceType("Pawn".to_string())).unwrap_or(
                    false,
                )
        })
        .count();
    assert_eq!(pawns, 16);
    assert_eq!(snap.current_turn, alice);
    assert_eq!(snap.player1, alice);
    assert_eq!(snap.player2, bob);

    // Alice advances a pawn: the turn flips to Bob.
    let (r1, ev1) = actor.handle_move(&alice, (0, 1), (0, 2));
    assert_eq!(r1, Ok(()));
    assert_eq!(ev1, vec![Event::State]);
    assert_eq!(actor.get_snapshot().current_turn, bob);

    // Alice immediately tries again: not her turn.
    let (r2, _) = actor.handle_move(&alice, (1, 1), (1, 2));
    assert!(matches!(r2, Err(GameError::NotYourTurn { .. })));

    // Bob moves backward (his forward is -y): violates the pawn rule.
    let (r3, _) = actor.handle_move(&bob, (2, 6), (2, 7));
    assert_eq!(r3, Err(GameError::ViolatesRule("move not allowed".to_string())));

    // Bob's real move goes through.
    let (r4, _) = actor.handle_move(&bob, (0, 6), (0, 5));
    assert_eq!(r4, Ok(()));
    assert_eq!(actor.get_snapshot().current_turn, alice);
}

#[test]
fn propose_and_accept_installs_rule() {
    let (mut actor, alice, bob) = started_actor();
    let (r, ev) = actor.handle_propose_rule(&alice, queen_rule());
    assert_eq!(r, Ok(()));
    assert_eq!(
        ev,
        vec![Event::VoteRequested { proposer_id: alice.clone(), proposer_name: "Alice".to_string() }]
    );
    assert!(actor.pending_proposal.is_some());
    // A second proposal while one is pending is turned away.
    let (r2, _) = actor.handle_propose_rule(&bob, queen_rule());
    assert_eq!(r2, Err(GameError::ViolatesRule("vote in progress".to_string())));
    // The other player accepts: the rule lands in the catalog.
    let (r3, ev3) = actor.handle_vote(&bob, true);
    assert_eq!(r3, Ok(()));
    assert_eq!(ev3, vec![Event::State]);
    assert!(actor.pending_proposal.is_none());
    let game = actor.game.as_ref().unwrap();
    assert_eq!(game.rules.get(&"Queen".to_string()), Some(&queen_rule()));
    assert_eq!(game.disagreement_count, 0);
}

#[test]
fn self_vote_always_fails_and_keeps_proposal() {
    let (mut actor, alice, _bob) = started_actor();
    actor.handle_propose_rule(&alice, queen_rule()).0.unwrap();
    let pending_before = actor.pending_proposal.clone();
    let (r, ev) = actor.handle_vote(&alice, true);
    assert_eq!(
        r,
        Err(GameError::ViolatesRule("cannot vote on your own proposal".to_string()))
    );
    assert!(ev.is_empty());
    assert_eq!(actor.pending_proposal, pending_before);
    // Rejecting one's own proposal fails the same way.
    let (r2, _) = actor.handle_vote(&alice, false);
    assert!(r2.is_err());
    assert_eq!(actor.pending_proposal, pending_before);
}

#[test]
fn vote_without_pending_proposal_fails() {
    let (mut actor, _alice, bob) = started_actor();
    let (r, _) = actor.handle_vote(&bob, true);
    assert_eq!(r, Err(GameError::ViolatesRule("no vote in progress".to_string())));
}

#[test]
fn threshold_rejections_force_next_proposal() {
    let (mut actor, alice, bob) = started_actor();
    // Three consecutive rejections: the counter reaches the threshold.
    for expected in 1..=3u8 {
        actor.handle_propose_rule(&alice, queen_rule()).0.unwrap();
        let (rv, ev) = actor.handle_vote(&bob, false);
        assert_eq!(rv, Ok(()));
        assert_eq!(ev, vec![Event::State]);
        assert_eq!(actor.game.as_ref().unwrap().disagreement_count, expected);
    }
    // The catalog still knows nothing of the queen.
    assert!(actor.game.as_ref().unwrap().rules.get(&"Queen".to_string()).is_none());
    // The next proposal bypasses voting entirely.
    let (r, ev) = actor.handle_propose_rule(&alice, queen_rule());
    assert_eq!(r, Ok(()));
    assert_eq!(ev, vec![Event::State, Event::ConsensusForced]);
    let game = actor.game.as_ref().unwrap();
    assert_eq!(game.rules.get(&"Queen".to_string()), Some(&queen_rule()));
    assert_eq!(game.disagreement_count, 0);
    assert!(actor.pending_proposal.is_none());
}

#[test]
fn rejected_commands_leave_actor_unchanged() {
    let (mut actor, alice, bob) = started_actor();
    let snap_before = actor.get_snapshot();
    let rules_before = actor.game.as_ref().unwrap().rules.clone();
    let count_before = actor.game.as_ref().unwrap().disagreement_count;
    // A batch of rejected commands of every kind.
    assert!(actor.handle_move(&alice, (9, 9), (0, 0)).0.is_err());
    assert!(actor.handle_move(&bob, (0, 6), (0, 5)).0.is_err());
    assert!(actor.handle_vote(&alice, true).0.is_err());
    assert!(actor.handle_spawn(&alice, "Wyvern".to_string(), (3, 3)).0.is_err());
    assert!(actor.handle_join("Carol".to_string()).0.is_err());
    assert_eq!(actor.get_snapshot(), snap_before);
    assert_eq!(actor.game.as_ref().unwrap().rules, rules_before);
    assert_eq!(actor.game.as_ref().unwrap().disagreement_count, count_before);
    assert!(actor.pending_proposal.is_none());
}

#[test]
fn spawn_requires_known_type_and_bounds() {
    let (mut actor, alice, _bob) = started_actor();
    let (r0, _) = actor.handle_spawn(&alice, "Wyvern".to_string(), (3, 3));
    assert_eq!(r0, Err(GameError::ViolatesRule("unknown piece".to_string())));
    let (r1, _) = actor.handle_spawn(&alice, "Rook".to_string(), (8, 3));
    assert_eq!(r1, Err(GameError::OutOfBounds { x: 8, y: 3 }));
    let (r2, ev2) = actor.handle_spawn(&alice, "Rook".to_string(), (3, 3));
    assert_eq!(r2, Ok(()));
    assert_eq!(ev2, vec![Event::State]);
    let game = actor.game.as_ref().unwrap();
    let placed = game.board.cells[3 * 8 + 3].as_ref().unwrap();
    assert_eq!(placed.piece_type, PieceType("Rook".to_string()));
    assert_eq!(placed.owner, alice);
}

#[test]
fn spawn_before_start_rejected() {
    let mut actor = GameActor::new();
    let someone = PlayerId("nobody".to_string());
    let (r, _) = actor.handle_spawn(&someone, "Rook".to_string(), (3, 3));
    assert_eq!(r, Err(GameError::GameNotStarted));
}

#[test]
fn snapshot_before_start_is_empty() {
    let actor = GameActor::new();
    let snap = actor.get_snapshot();
    assert!(matches!(snap.status, GameStatus::WaitingForPlayers));
    assert!(snap.board.cells.iter().all(|c| c.is_none()));
    assert_eq!(snap.current_turn.0, "");
    assert_eq!(snap.player1.0, "");
    assert_eq!(snap.player2.0, "");
}

#[test]
fn winning_capture_finishes_match() {
    let (mut actor, alice, bob) = started_actor();
    // Put an Alice rook next to Bob's king and let it strike.
    {
        let game = actor.game.as_mut().unwrap();
        game.board.cells[5 * 8 + 4] = Some(rulechess::board::Piece {
            piece_type: PieceType("Rook".to_string()),
            owner: alice.clone(),
        });
        // Clear Bob's pawn at (4, 6) so the file is open.
        game.board.cells[6 * 8 + 4] = None;
    }
    let (r, ev) = actor.handle_move(&alice, (4, 5), (4, 7));
    assert_eq!(r, Ok(()));
    assert_eq!(ev, vec![Event::GameOver { winner: alice.clone() }, Event::State]);
    assert!(matches!(&actor.status, GameStatus::Finished { winner: Some(w) } if *w == alice));
    // Finished is terminal: nobody can join a finished match.
    let (rj, _) = actor.handle_join("Carol".to_string());
    assert_eq!(rj, Err(JoinError::GameAlreadyStarted));
    let _ = bob;
}
