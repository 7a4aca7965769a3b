use lightcycles::grid::Grid;
use lightcycles::heading::Heading;
use lightcycles::player::Player;
use lightcycles::player::PlayerColor;
use lightcycles::player::random_below;
use lightcycles::round::Command;
use lightcycles::round::GameState;
use lightcycles::round::TrailPoint;

fn player_at(x: usize, y: usize, dir: Heading) -> Player {
    Player { x, y, dir, active: true, color: PlayerColor::Red }
}

#[test]
fn tick_moves_one_cell() {
    let mut p = player_at(4, 4, Heading::Right);
    p.tick(10, 10);
    assert_eq!((p.x, p.y), (5, 4));
    let mut p = player_at(4, 4, Heading::Left);
    p.tick(10, 10);
    assert_eq!((p.x, p.y), (3, 4));
    let mut p = player_at(4, 4, Heading::Down);
    p.tick(10, 10);
    assert_eq!((p.x, p.y), (4, 5));
    let mut p = player_at(4, 4, Heading::Up);
    p.tick(10, 10);
    assert_eq!((p.x, p.y), (4, 3));
}

#[test]
fn tick_wraps_at_every_edge() {
    let mut p = player_at(9, 4, Heading::Right);
    p.tick(10, 8);
    assert_eq!((p.x, p.y), (0, 4));
    let mut p = player_at(0, 4, Heading::Left);
    p.tick(10, 8);
    assert_eq!((p.x, p.y), (9, 4));
    let mut p = player_at(4, 7, Heading::Down);
    p.tick(10, 8);
    assert_eq!((p.x, p.y), (4, 0));
    let mut p = player_at(4, 0, Heading::Up);
    p.tick(10, 8);
    assert_eq!((p.x, p.y), (4, 7));
}

#[test]
fn tick_stays_in_bounds_everywhere() {
    let (w, h) = (5, 3);
    for x in 0..w {
        for y in 0..h {
            for dir in [Heading::Down, Heading::Right, Heading::Up, Heading::Left] {
                let mut p = player_at(x, y, dir);
                p.tick(w, h);
                assert!(p.x < w && p.y < h);
            }
        }
    }
}

#[test]
fn heading_cycle_four_increments_is_identity() {
    for dir in [Heading::Down, Heading::Right, Heading::Up, Heading::Left] {
        assert_eq!(dir.rotated_inc().rotated_inc().rotated_inc().rotated_inc(), dir);
        assert_eq!(dir.rotated_inc().rotated_dec(), dir);
        assert_eq!(dir.rotated_dec().rotated_inc(), dir);
    }
}

#[test]
fn heading_order_matches_turn_commands() {
    assert_eq!(Heading::Down.rotated_inc(), Heading::Right);
    assert_eq!(Heading::Right.rotated_inc(), Heading::Up);
    assert_eq!(Heading::Up.rotated_inc(), Heading::Left);
    assert_eq!(Heading::Left.rotated_inc(), Heading::Down);
    assert_eq!(Heading::Down.rotated_dec(), Heading::Left);
    assert_eq!(Heading::from_index(0), Heading::Down);
    assert_eq!(Heading::from_index(1), Heading::Right);
    assert_eq!(Heading::from_index(2), Heading::Up);
    assert_eq!(Heading::from_index(3), Heading::Left);
}

#[test]
fn random_below_stays_below_bound() {
    for bound in [1usize, 2, 3, 7, 10, 720, 1280] {
        for _ in 0..50 {
            assert!(random_below(bound) < bound);
        }
    }
}

#[test]
fn new_player_is_alive_in_bounds_with_color() {
    for _ in 0..100 {
        let p = Player::new(PlayerColor::Blue, 7, 5);
        assert!(p.x < 7 && p.y < 5);
        assert!(p.active);
        assert_eq!(p.color, PlayerColor::Blue);
    }
}

#[test]
fn player_reset_revives_and_keeps_color() {
    let mut p = player_at(3, 3, Heading::Up);
    p.active = false;
    p.color = PlayerColor::Yellow;
    p.reset(6, 4);
    assert!(p.active);
    assert!(p.x < 6 && p.y < 4);
    assert_eq!(p.color, PlayerColor::Yellow);
}

#[test]
fn grid_claims_are_recorded_per_cell() {
    let mut g = Grid::new(4, 3);
    for x in 0..4 {
        for y in 0..3 {
            assert!(!g.is_claimed(x, y));
        }
    }
    g.claim(2, 1);
    for x in 0..4 {
        for y in 0..3 {
            assert_eq!(g.is_claimed(x, y), x == 2 && y == 1);
        }
    }
    g.claim(0, 0);
    assert!(g.is_claimed(0, 0) && g.is_claimed(2, 1));
    g.clear();
    for x in 0..4 {
        for y in 0..3 {
            assert!(!g.is_claimed(x, y));
        }
    }
}

#[test]
fn fresh_round_state() {
    let gs = GameState::new(10, 10);
    assert_eq!(gs.player_count, 4);
    assert!(gs.game_running);
    assert_eq!(gs.winner, None);
    assert!(!gs.winner_resolved);
    assert!(!gs.reset_requested);
    assert!(gs.trail.is_empty());
    assert_eq!(gs.players.len(), 4);
    let colors = [PlayerColor::Red, PlayerColor::Green, PlayerColor::Blue, PlayerColor::Yellow];
    for (i, p) in gs.players.iter().enumerate() {
        assert!(p.active);
        assert!(p.x < 10 && p.y < 10);
        assert_eq!(p.color, colors[i]);
    }
    for x in 0..10 {
        for y in 0..10 {
            assert!(!gs.grid.is_claimed(x, y));
        }
    }
}

#[test]
fn rotate_commands_turn_only_their_slot() {
    let mut gs = GameState::new(10, 10);
    let before: Vec<Heading> = gs.players.iter().map(|p| p.dir).collect();
    gs.apply_command(Command::RotateInc { slot: 2 });
    for i in 0..4 {
        if i == 2 {
            assert_eq!(gs.players[i].dir, before[i].rotated_inc());
        } else {
            assert_eq!(gs.players[i].dir, before[i]);
        }
    }
    gs.apply_command(Command::RotateDec { slot: 2 });
    for i in 0..4 {
        assert_eq!(gs.players[i].dir, before[i]);
    }
    // An out-of-range slot is ignored.
    gs.apply_command(Command::RotateInc { slot: 7 });
    for i in 0..4 {
        assert_eq!(gs.players[i].dir, before[i]);
    }
}

#[test]
fn player_count_command_checks_range() {
    let mut gs = GameState::new(10, 10);
    gs.apply_command(Command::SetPlayerCount { count: 2 });
    assert_eq!(gs.player_count, 2);
    gs.apply_command(Command::SetPlayerCount { count: 0 });
    assert_eq!(gs.player_count, 2);
    gs.apply_command(Command::SetPlayerCount { count: 5 });
    assert_eq!(gs.player_count, 2);
    gs.apply_command(Command::SetPlayerCount { count: 4 });
    assert_eq!(gs.player_count, 4);
}

#[test]
fn reset_command_is_only_recorded() {
    let mut gs = GameState::new(10, 10);
    let running = gs.game_running;
    gs.apply_command(Command::Reset);
    assert!(gs.reset_requested);
    assert_eq!(gs.game_running, running);
    assert!(gs.trail.is_empty());
}

#[test]
fn winner_messages_are_exact() {
    let mut gs = GameState::new(10, 10);
    gs.winner_resolved = true;
    gs.winner = None;
    assert_eq!(gs.winner_message(), "Draw");
    gs.winner = Some(0);
    assert_eq!(gs.winner_message(), "Player 1 wins");
    gs.winner = Some(1);
    assert_eq!(gs.winner_message(), "Player 2 wins");
    gs.winner = Some(2);
    assert_eq!(gs.winner_message(), "Player 3 wins");
    gs.winner = Some(3);
    assert_eq!(gs.winner_message(), "Player 4 wins");
}

#[test]
fn trail_point_fields_round_trip() {
    let t = TrailPoint { x: 3, y: 9, color: PlayerColor::Green };
    assert_eq!((t.x, t.y, t.color), (3, 9, PlayerColor::Green));
}
