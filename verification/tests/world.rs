use arena::fixed::Vec2;
use arena::game::{Game, GameError, Input, InputEvent, Pickup, PlayerId};

#[test]
fn new_rejects_zero_interval() {
    assert_eq!(Game::new(0).err(), Some(GameError::ZeroSpawnInterval));
    assert!(Game::new(1).is_ok());
}

#[test]
fn spawn_player_starts_at_origin() {
    let mut g = Game::new(1000).unwrap();
    let a = g.spawn_player();
    let b = g.spawn_player();
    assert_eq!(a.0, 0);
    assert_eq!(b.0, 1);
    let p = &g.players()[0];
    assert_eq!(p.position, Vec2 { x: 0, y: 0 });
    assert_eq!(p.score, 0);
    assert_eq!(p.size, 10_000);
    assert_eq!(p.speed, 100);
}

#[test]
fn handle_input_sets_and_clamps_axes() {
    let mut g = Game::new(1000).unwrap();
    let id = g.spawn_player();
    g.handle_input(InputEvent { id, input: Input::X(5000) });
    g.handle_input(InputEvent { id, input: Input::Y(-5000) });
    assert_eq!(g.players()[0].joystick, Vec2 { x: 1000, y: -1000 });
    g.handle_input(InputEvent { id, input: Input::X(-250) });
    assert_eq!(g.players()[0].joystick, Vec2 { x: -250, y: -1000 });
}

#[test]
fn integration_one_tick() {
    // A player at the origin, radius 10, speed 100, joystick pinned at
    // (1, 0), after one 16 ms tick sits at (1.6, 0) world units.
    let mut g = Game::new(1000).unwrap();
    let id = g.spawn_player();
    g.handle_input(InputEvent { id, input: Input::X(1000) });
    g.tick(16);
    assert_eq!(g.players()[0].position, Vec2 { x: 1600, y: 0 });
}

#[test]
fn integration_diagonal_and_negative() {
    let mut g = Game::new(1000).unwrap();
    let id = g.spawn_player();
    g.handle_input(InputEvent { id, input: Input::X(-1000) });
    g.handle_input(InputEvent { id, input: Input::Y(500) });
    g.tick(16);
    assert_eq!(g.players()[0].position, Vec2 { x: -1600, y: 800 });
}

#[test]
fn spawn_timing() {
    // With a 1 s interval and a player present from the start, 156 ticks of
    // 16 ms (2.496 s) spawn exactly two pickups; the accumulator holds the
    // 496 ms remainder.
    let mut g = Game::new(1000).unwrap();
    g.spawn_player();
    for _ in 0..156 {
        g.tick(16);
    }
    let spawned = g.players()[0].score as usize + g.pickups().len();
    assert_eq!(spawned, 2);
    assert_eq!(g.pickup_accumulator, 496);
}

#[test]
fn no_spawn_without_players() {
    let mut g = Game::new(100).unwrap();
    for _ in 0..20 {
        g.tick(16);
    }
    assert_eq!(g.pickups().len(), 0);
    assert_eq!(g.pickup_accumulator, 0);
    // Joining after the idle period does not produce an instant burst.
    g.spawn_player();
    g.tick(16);
    assert_eq!(g.pickups().len(), 0);
    assert_eq!(g.pickup_accumulator, 16);
}

#[test]
fn spawned_pickups_lie_in_the_square() {
    let mut g = Game::new(16).unwrap();
    g.spawn_player();
    // Park the player far away so nothing is consumed.
    g.players[0].position = Vec2 { x: 900_000_000, y: 900_000_000 };
    for _ in 0..10 {
        g.tick(16);
    }
    assert_eq!(g.pickups().len(), 10);
    for q in g.pickups().iter() {
        assert!(q.value == 1);
        assert!(-100_000 <= q.position.x && q.position.x < 100_000);
        assert!(-100_000 <= q.position.y && q.position.y < 100_000);
    }
}

#[test]
fn conservation_over_ticks() {
    // Total score awarded never exceeds the total value ever spawned, and
    // score plus the value still on the field accounts for all of it.
    let mut g = Game::new(100).unwrap();
    let id = g.spawn_player();
    for i in 0..200u64 {
        let v = if i % 2 == 0 { 1000 } else { -1000 };
        g.handle_input(InputEvent { id, input: Input::X(v) });
        g.handle_input(InputEvent { id, input: Input::Y(-v) });
        g.tick(16);
    }
    let spawned = (200 * 16) / 100;
    let score: u64 = g.players().iter().map(|p| p.score).sum();
    assert_eq!(score as usize + g.pickups().len(), spawned);
    assert!(score <= spawned as u64);
}

#[test]
fn deterministic_winner_closest_wins() {
    let mut g = Game::new(1000).unwrap();
    let a = g.spawn_player();
    let b = g.spawn_player();
    g.players[a.0].position = Vec2 { x: 5_000, y: 0 };
    g.players[b.0].position = Vec2 { x: -2_000, y: 0 };
    g.pickups.push(Pickup { position: Vec2 { x: 0, y: 0 }, value: 1 });
    g.tick(0);
    // Both collide (radius 10 units); only the closer player is credited.
    assert_eq!(g.players()[a.0].score, 0);
    assert_eq!(g.players()[b.0].score, 1);
    assert_eq!(g.pickups().len(), 0);
}

#[test]
fn deterministic_winner_tie_goes_to_first() {
    let mut g = Game::new(1000).unwrap();
    let a = g.spawn_player();
    let b = g.spawn_player();
    g.players[a.0].position = Vec2 { x: 3_000, y: 0 };
    g.players[b.0].position = Vec2 { x: -3_000, y: 0 };
    g.pickups.push(Pickup { position: Vec2 { x: 0, y: 0 }, value: 1 });
    g.tick(0);
    assert_eq!(g.players()[a.0].score, 1);
    assert_eq!(g.players()[b.0].score, 0);
}

#[test]
fn one_player_collects_many_pickups() {
    let mut g = Game::new(1000).unwrap();
    let a = g.spawn_player();
    g.pickups.push(Pickup { position: Vec2 { x: 1_000, y: 0 }, value: 1 });
    g.pickups.push(Pickup { position: Vec2 { x: 0, y: 1_000 }, value: 1 });
    g.pickups.push(Pickup { position: Vec2 { x: 50_000, y: 0 }, value: 1 });
    g.tick(0);
    assert_eq!(g.players()[a.0].score, 2);
    assert_eq!(g.pickups().len(), 1);
    assert_eq!(g.pickups()[0].position, Vec2 { x: 50_000, y: 0 });
}

#[test]
fn removal_swaps_last_into_place() {
    // Consumed pickups leave by a swap with the then-last element, walked in
    // descending index order, so the survivors end up reordered exactly so.
    let mut g = Game::new(1000).unwrap();
    g.spawn_player();
    g.pickups.push(Pickup { position: Vec2 { x: 0, y: 0 }, value: 1 }); // consumed
    g.pickups.push(Pickup { position: Vec2 { x: 50_000, y: 0 }, value: 1 }); // survives
    g.pickups.push(Pickup { position: Vec2 { x: 1_000, y: 1_000 }, value: 1 }); // consumed
    g.pickups.push(Pickup { position: Vec2 { x: 60_000, y: 0 }, value: 1 }); // survives
    g.tick(0);
    assert_eq!(g.players()[0].score, 2);
    let positions: Vec<i64> = g.pickups().iter().map(|q| q.position.x).collect();
    assert_eq!(positions, vec![60_000, 50_000]);
}

#[test]
fn out_of_range_pickup_survives() {
    let mut g = Game::new(1000).unwrap();
    g.spawn_player();
    // Exactly on the radius collides; one milli-unit outside does not.
    g.pickups.push(Pickup { position: Vec2 { x: 10_000, y: 0 }, value: 1 });
    g.pickups.push(Pickup { position: Vec2 { x: 10_001, y: 0 }, value: 1 });
    g.tick(0);
    assert_eq!(g.players()[0].score, 1);
    assert_eq!(g.pickups().len(), 1);
    assert_eq!(g.pickups()[0].position, Vec2 { x: 10_001, y: 0 });
}

#[test]
fn resize_sets_both_cameras() {
    let mut g = Game::new(1000).unwrap();
    g.resize(800, 600);
    assert_eq!(g.active_camera().width, 400_000);
    assert_eq!(g.active_camera().height, 300_000);
    assert_eq!(g.active_camera().position, Vec2 { x: 0, y: 0 });
    assert_eq!(g.ui_camera().width, 800_000);
    assert_eq!(g.ui_camera().height, -600_000);
    assert_eq!(g.ui_camera().position, Vec2 { x: 200_000, y: 150_000 });
}

#[test]
fn player_ids_are_stable_indices() {
    let mut g = Game::new(1000).unwrap();
    let ids: Vec<PlayerId> = (0..4).map(|_| g.spawn_player()).collect();
    for (i, id) in ids.iter().enumerate() {
        assert_eq!(id.0, i);
    }
    assert_eq!(g.players().len(), 4);
}
