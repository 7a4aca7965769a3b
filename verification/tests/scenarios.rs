use lightcycles::heading::Heading;
use lightcycles::player::PlayerColor;
use lightcycles::round::Command;
use lightcycles::round::GameState;

/// A 10 x 10 field with the participating players parked deterministically.
fn field(count: usize, places: &[(usize, usize, Heading)]) -> GameState {
    let mut gs = GameState::new(10, 10);
    gs.apply_command(Command::SetPlayerCount { count });
    for (i, &(x, y, dir)) in places.iter().enumerate() {
        gs.players[i].x = x;
        gs.players[i].y = y;
        gs.players[i].dir = dir;
    }
    gs
}

#[test]
fn head_on_collision_ends_in_draw() {
    // Two participants approaching along one row; they meet on one cell,
    // then each runs into the other's trail on the same sub-step: both are
    // eliminated together and the round ends with no winner.
    let mut gs = field(2, &[(2, 5, Heading::Right), (6, 5, Heading::Left)]);
    gs.step_frame();
    assert!(!gs.game_running);
    assert!(gs.winner_resolved);
    assert_eq!(gs.winner, None);
    assert!(!gs.players[0].active);
    assert!(!gs.players[1].active);
    assert_eq!(gs.winner_message(), "Draw");
    // Sub-step one claimed (3,5) and (5,5); sub-step two put both players on
    // (4,5) and claimed it once; sub-step three eliminated both.
    assert_eq!(gs.trail.len(), 3);
    assert_eq!(
        (gs.trail[0].x, gs.trail[0].y, gs.trail[0].color),
        (3, 5, PlayerColor::Red),
    );
    assert_eq!(
        (gs.trail[1].x, gs.trail[1].y, gs.trail[1].color),
        (5, 5, PlayerColor::Green),
    );
    assert_eq!(
        (gs.trail[2].x, gs.trail[2].y, gs.trail[2].color),
        (4, 5, PlayerColor::Red),
    );
    assert!(gs.grid.is_claimed(3, 5) && gs.grid.is_claimed(4, 5) && gs.grid.is_claimed(5, 5));
    assert!(!gs.grid.is_claimed(2, 5) && !gs.grid.is_claimed(6, 5));
}

#[test]
fn shared_cell_same_sub_step_is_claimed_once() {
    // Both participants enter the same free cell on the same sub-step: the
    // collision pass reads the grid as it stood before the sub-step, so both
    // survive it, and the cell is claimed (and recorded) only by the earlier
    // slot.
    let mut gs = field(2, &[(3, 5, Heading::Right), (5, 5, Heading::Left)]);
    gs.sub_step();
    assert!(gs.players[0].active && gs.players[1].active);
    assert_eq!((gs.players[0].x, gs.players[0].y), (4, 5));
    assert_eq!((gs.players[1].x, gs.players[1].y), (4, 5));
    assert_eq!(gs.trail.len(), 1);
    assert_eq!(
        (gs.trail[0].x, gs.trail[0].y, gs.trail[0].color),
        (4, 5, PlayerColor::Red),
    );
    assert!(gs.game_running);
}

#[test]
fn entering_a_claimed_cell_eliminates() {
    let mut gs = field(1, &[(4, 5, Heading::Right)]);
    gs.grid.claim(5, 5);
    gs.sub_step();
    assert!(!gs.players[0].active);
    assert!(!gs.game_running);
}

#[test]
fn single_participant_round_ends_immediately() {
    // With one participant the alive count is 1 from the very first
    // sub-step, so the round ends on the first frame and the lone player
    // wins; this mirrors the literal `alive <= 1` rule.
    let mut gs = GameState::new(10, 10);
    gs.apply_command(Command::SetPlayerCount { count: 1 });
    gs.step_frame();
    assert!(!gs.game_running);
    assert!(gs.winner_resolved);
    assert_eq!(gs.winner, Some(0));
    assert!(gs.players[0].active);
    assert_eq!(gs.winner_message(), "Player 1 wins");
}

#[test]
fn last_survivor_wins() {
    // Slot 1 runs into a pre-claimed cell on the first sub-step; slot 0
    // survives and the round ends with slot 0 cached as the winner.
    let mut gs = field(2, &[(1, 1, Heading::Right), (7, 8, Heading::Down)]);
    gs.grid.claim(7, 9);
    gs.step_frame();
    assert!(!gs.game_running);
    assert!(gs.winner_resolved);
    assert_eq!(gs.winner, Some(0));
    assert!(gs.players[0].active);
    assert!(!gs.players[1].active);
    assert_eq!(gs.winner_message(), "Player 1 wins");
}

#[test]
fn claims_stay_within_a_round() {
    // Two participants cruising along separate rows: everything they claim,
    // and a cell claimed beforehand, stays claimed across the frame.
    let mut gs = field(2, &[(0, 0, Heading::Right), (0, 5, Heading::Right)]);
    gs.grid.claim(9, 9);
    gs.step_frame();
    assert!(gs.game_running);
    assert!(gs.grid.is_claimed(9, 9));
    for x in 1..=4 {
        assert!(gs.grid.is_claimed(x, 0));
        assert!(gs.grid.is_claimed(x, 5));
    }
    assert_eq!(gs.trail.len(), 8);
    assert_eq!((gs.players[0].x, gs.players[0].y), (4, 0));
    assert_eq!((gs.players[1].x, gs.players[1].y), (4, 5));
}

#[test]
fn ended_round_is_frozen_until_reset() {
    let mut gs = field(2, &[(2, 5, Heading::Right), (6, 5, Heading::Left)]);
    gs.step_frame();
    assert!(!gs.game_running && gs.winner_resolved);
    let positions: Vec<(usize, usize)> = gs.players.iter().map(|p| (p.x, p.y)).collect();
    let trail_len = gs.trail.len();
    gs.step_frame();
    gs.step_frame();
    assert!(!gs.game_running && gs.winner_resolved);
    assert_eq!(gs.winner, None);
    assert_eq!(gs.trail.len(), trail_len);
    let after: Vec<(usize, usize)> = gs.players.iter().map(|p| (p.x, p.y)).collect();
    assert_eq!(positions, after);
}

#[test]
fn reset_mid_round_revives_everyone_and_clears_everything() {
    // Three of four eliminated mid-round, grid and trail dirty; the reset
    // command is recorded, and consuming it returns all four slots alive
    // with the field wiped and the round running.
    let mut gs = GameState::new(10, 10);
    gs.players[1].active = false;
    gs.players[2].active = false;
    gs.players[3].active = false;
    gs.grid.claim(2, 2);
    gs.grid.claim(3, 2);
    gs.trail.push(lightcycles::round::TrailPoint { x: 2, y: 2, color: PlayerColor::Red });
    gs.winner = Some(0);
    gs.apply_command(Command::Reset);
    assert!(gs.reset_requested);
    gs.reset_round();
    assert!(gs.game_running);
    assert!(!gs.reset_requested);
    assert!(!gs.winner_resolved);
    assert_eq!(gs.winner, None);
    assert!(gs.trail.is_empty());
    for x in 0..10 {
        for y in 0..10 {
            assert!(!gs.grid.is_claimed(x, y));
        }
    }
    let colors = [PlayerColor::Red, PlayerColor::Green, PlayerColor::Blue, PlayerColor::Yellow];
    for (i, p) in gs.players.iter().enumerate() {
        assert!(p.active);
        assert!(p.x < 10 && p.y < 10);
        assert_eq!(p.color, colors[i]);
    }
}

#[test]
fn frame_consumes_the_reset_request() {
    let mut gs = field(2, &[(2, 5, Heading::Right), (6, 5, Heading::Left)]);
    gs.step_frame();
    assert!(!gs.game_running);
    gs.apply_command(Command::Reset);
    gs.step_frame();
    assert!(!gs.reset_requested);
    // The reset ran before the frame's sub-steps: the old three-entry trail
    // is gone and at most one frame of fresh claims exists.
    assert!(gs.trail.len() <= 8);
}
