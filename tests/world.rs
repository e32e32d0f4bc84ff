use orbgame::{
    CommandError, GameCommand, GameDisplayState, GameSnapshot, GameWorld, PlayerAction,
    PlayerCommand, PlayerId, PlayerInput, PlayerSnapshot,
};

type Body = (i32, i32);

const SPAWN: Body = (10, 80);

fn spawn(world: &mut GameWorld<Body>) -> Result<Option<PlayerId>, CommandError> {
    world.apply_command(&GameCommand::SpawnPlayer { client_handle: 7 })
}

fn idle() -> PlayerInput {
    PlayerInput { jump: false, left: false, right: false }
}

/// Moves each body by its push, as a stand-in integrator would.
fn tick(world: &mut GameWorld<Body>) {
    let actions = world.step_inputs();
    for a in actions {
        let body = world.player(a.id).unwrap().body;
        let lift = if a.jump { 5 } else { 0 };
        assert!(world.set_body(a.id, (body.0 + a.push as i32, body.1 + lift - 1)));
    }
}

#[test]
fn spawn_ids_increase_from_zero() {
    let mut world = GameWorld::new(SPAWN);
    for k in 0..20u8 {
        assert_eq!(spawn(&mut world), Ok(Some(PlayerId(k))));
    }
    assert_eq!(world.len(), 20);
}

#[test]
fn spawn_after_removal_takes_max_plus_one() {
    let mut world = GameWorld::new(SPAWN);
    for _ in 0..3 {
        spawn(&mut world).unwrap();
    }
    assert!(world.remove_player(PlayerId(1)));
    assert_eq!(spawn(&mut world), Ok(Some(PlayerId(3))));
    assert!(world.remove_player(PlayerId(3)));
    assert!(world.remove_player(PlayerId(2)));
    assert_eq!(spawn(&mut world), Ok(Some(PlayerId(1))));
}

#[test]
fn spawn_fails_when_ids_exhausted() {
    let mut world = GameWorld::new(SPAWN);
    for k in 0..=255u8 {
        assert_eq!(spawn(&mut world), Ok(Some(PlayerId(k))));
    }
    assert_eq!(spawn(&mut world), Err(CommandError::PlayerIdsExhausted));
    assert_eq!(world.len(), 256);
}

#[test]
fn next_player_id_of_empty_world_is_zero() {
    let world: GameWorld<Body> = GameWorld::new(SPAWN);
    assert_eq!(world.next_player_id(), Some(PlayerId(0)));
}

#[test]
fn input_changes_only_target_field() {
    let mut world = GameWorld::new(SPAWN);
    spawn(&mut world).unwrap();
    spawn(&mut world).unwrap();
    let cmd = GameCommand::Input(PlayerId(1), PlayerCommand::Left, true);
    assert_eq!(world.apply_command(&cmd), Ok(None));
    let p1 = world.player(PlayerId(1)).unwrap();
    assert_eq!(p1.input, PlayerInput { jump: false, left: true, right: false });
    assert_eq!(p1.body, SPAWN);
    assert_eq!(world.player(PlayerId(0)).unwrap().input, idle());
    let cmd = GameCommand::Input(PlayerId(1), PlayerCommand::Jump, true);
    world.apply_command(&cmd).unwrap();
    let p1 = world.player(PlayerId(1)).unwrap();
    assert_eq!(p1.input, PlayerInput { jump: true, left: true, right: false });
    let cmd = GameCommand::Input(PlayerId(1), PlayerCommand::Left, false);
    world.apply_command(&cmd).unwrap();
    let p1 = world.player(PlayerId(1)).unwrap();
    assert_eq!(p1.input, PlayerInput { jump: true, left: false, right: false });
    assert_eq!(world.player(PlayerId(0)).unwrap().input, idle());
}

#[test]
fn input_for_unknown_player_is_an_error() {
    let mut world = GameWorld::new(SPAWN);
    spawn(&mut world).unwrap();
    let cmd = GameCommand::Input(PlayerId(4), PlayerCommand::Right, true);
    assert_eq!(world.apply_command(&cmd), Err(CommandError::UnknownPlayer(PlayerId(4))));
    assert_eq!(world.player(PlayerId(0)).unwrap().input, idle());
}

#[test]
fn validation_rejects_spawn_from_any_client() {
    for client in [0usize, 1, 7, 255, 1000] {
        let cmd = GameCommand::SpawnPlayer { client_handle: client as u32 };
        assert!(!GameCommand::command_is_valid(&cmd, client));
    }
}

#[test]
fn validation_accepts_only_own_input() {
    let cmd = GameCommand::Input(PlayerId(3), PlayerCommand::Jump, true);
    assert!(GameCommand::command_is_valid(&cmd, 3));
    assert!(!GameCommand::command_is_valid(&cmd, 2));
    assert!(!GameCommand::command_is_valid(&cmd, 259));
    assert_eq!(PlayerId(3).as_usize(), 3);
}

#[test]
fn step_clears_jump_and_keeps_left_right() {
    let mut world = GameWorld::new(SPAWN);
    spawn(&mut world).unwrap();
    world.apply_command(&GameCommand::Input(PlayerId(0), PlayerCommand::Jump, true)).unwrap();
    world.apply_command(&GameCommand::Input(PlayerId(0), PlayerCommand::Left, true)).unwrap();
    let actions = world.step_inputs();
    assert_eq!(actions, vec![PlayerAction { id: PlayerId(0), push: -1, jump: true }]);
    let p = world.player(PlayerId(0)).unwrap();
    assert_eq!(p.input, PlayerInput { jump: false, left: true, right: false });
    let actions = world.step_inputs();
    assert_eq!(actions, vec![PlayerAction { id: PlayerId(0), push: -1, jump: false }]);
}

#[test]
fn push_is_zero_with_both_or_neither() {
    assert_eq!(idle().push(), 0);
    assert_eq!(PlayerInput { jump: true, left: true, right: true }.push(), 0);
    assert_eq!(PlayerInput { jump: false, left: false, right: true }.push(), 1);
    assert_eq!(PlayerInput { jump: false, left: true, right: false }.push(), -1);
}

#[test]
fn spawn_then_right_then_step() {
    let mut world = GameWorld::new(SPAWN);
    assert_eq!(spawn(&mut world), Ok(Some(PlayerId(0))));
    assert_eq!(world.len(), 1);
    assert_eq!(world.player(PlayerId(0)).unwrap().body, SPAWN);
    world.apply_command(&GameCommand::Input(PlayerId(0), PlayerCommand::Right, true)).unwrap();
    let actions = world.step_inputs();
    assert_eq!(actions, vec![PlayerAction { id: PlayerId(0), push: 1, jump: false }]);
    assert!(world.player(PlayerId(0)).unwrap().input.right);
}

#[test]
fn restore_into_empty_world_matches_source() {
    let mut w1 = GameWorld::new(SPAWN);
    spawn(&mut w1).unwrap();
    spawn(&mut w1).unwrap();
    w1.apply_command(&GameCommand::Input(PlayerId(0), PlayerCommand::Right, true)).unwrap();
    w1.apply_command(&GameCommand::Input(PlayerId(1), PlayerCommand::Jump, true)).unwrap();
    for _ in 0..10 {
        tick(&mut w1);
    }
    let mut w2 = GameWorld::new((0, 0));
    let changes = w2.apply_snapshot(&w1.snapshot());
    assert_eq!(changes.created, vec![PlayerId(0), PlayerId(1)]);
    assert!(changes.removed.is_empty());
    assert_eq!(w2.snapshot(), w1.snapshot());
    assert_eq!(w2.player(PlayerId(0)).unwrap().body, (20, 70));
}

#[test]
fn apply_snapshot_creates_and_removes() {
    let mut world = GameWorld::new(SPAWN);
    for _ in 0..3 {
        spawn(&mut world).unwrap();
    }
    let snap = GameSnapshot {
        players: vec![
            (PlayerId(2), PlayerSnapshot { body: (1, 2), input: idle() }),
            (PlayerId(5), PlayerSnapshot { body: (3, 4), input: PlayerInput { jump: true, left: false, right: true } }),
        ],
    };
    let changes = world.apply_snapshot(&snap);
    assert_eq!(changes.created, vec![PlayerId(5)]);
    assert_eq!(changes.removed, vec![PlayerId(0), PlayerId(1)]);
    assert_eq!(world.snapshot(), snap);
    let again = world.apply_snapshot(&snap);
    assert!(again.created.is_empty() && again.removed.is_empty());
    assert_eq!(world.snapshot(), snap);
}

#[test]
fn apply_snapshot_last_entry_wins() {
    let mut world: GameWorld<Body> = GameWorld::new(SPAWN);
    let snap = GameSnapshot {
        players: vec![
            (PlayerId(4), PlayerSnapshot { body: (1, 1), input: idle() }),
            (PlayerId(4), PlayerSnapshot { body: (9, 9), input: idle() }),
        ],
    };
    let changes = world.apply_snapshot(&snap);
    assert_eq!(changes.created, vec![PlayerId(4)]);
    assert_eq!(world.len(), 1);
    assert_eq!(world.player(PlayerId(4)).unwrap().body, (9, 9));
}

#[test]
fn apply_empty_snapshot_removes_everyone() {
    let mut world = GameWorld::new(SPAWN);
    spawn(&mut world).unwrap();
    let changes = world.apply_snapshot(&GameSnapshot { players: vec![] });
    assert_eq!(changes.removed, vec![PlayerId(0)]);
    assert_eq!(world.len(), 0);
    assert_eq!(world.next_player_id(), Some(PlayerId(0)));
}

#[test]
fn remove_player_is_idempotent() {
    let mut world = GameWorld::new(SPAWN);
    spawn(&mut world).unwrap();
    spawn(&mut world).unwrap();
    assert!(world.remove_player(PlayerId(0)));
    assert!(!world.remove_player(PlayerId(0)));
    assert_eq!(world.len(), 1);
    assert!(world.player(PlayerId(0)).is_none());
    assert!(world.player(PlayerId(1)).is_some());
}

#[test]
fn display_state_lists_bodies() {
    let mut world = GameWorld::new(SPAWN);
    spawn(&mut world).unwrap();
    spawn(&mut world).unwrap();
    assert!(world.set_body(PlayerId(1), (5, 6)));
    assert!(!world.set_body(PlayerId(9), (5, 6)));
    let d = world.display_state();
    assert_eq!(d.player_positions, vec![(PlayerId(0), SPAWN), (PlayerId(1), (5, 6))]);
}

fn lerp_states(s1: &GameDisplayState<f32>, s2: &GameDisplayState<f32>, t: f32) -> GameDisplayState<f32> {
    GameDisplayState::from_interpolation(s1, s2, |a: f32, b: f32| a * (1.0 - t) + b * t)
}

#[test]
fn interpolation_endpoints() {
    let s1 = GameDisplayState { player_positions: vec![(PlayerId(0), 1.0f32), (PlayerId(1), 4.0)] };
    let s2 = GameDisplayState { player_positions: vec![(PlayerId(1), 8.0f32), (PlayerId(0), 3.0)] };
    let at0 = lerp_states(&s1, &s2, 0.0);
    assert_eq!(at0.player_positions, vec![(PlayerId(0), 1.0), (PlayerId(1), 4.0)]);
    let at1 = lerp_states(&s1, &s2, 1.0);
    assert_eq!(at1.player_positions, vec![(PlayerId(0), 3.0), (PlayerId(1), 8.0)]);
    let mid = lerp_states(&s1, &s2, 0.5);
    assert_eq!(mid.player_positions, vec![(PlayerId(0), 2.0), (PlayerId(1), 6.0)]);
}

#[test]
fn interpolation_keeps_first_only_and_drops_second_only() {
    let s1 = GameDisplayState { player_positions: vec![(PlayerId(0), 1.0f32), (PlayerId(2), 7.0)] };
    let s2 = GameDisplayState { player_positions: vec![(PlayerId(0), 3.0f32), (PlayerId(5), 9.0)] };
    let r = lerp_states(&s1, &s2, 1.0);
    assert_eq!(r.player_positions, vec![(PlayerId(0), 3.0), (PlayerId(2), 7.0)]);
}

#[test]
fn default_input_is_idle() {
    assert_eq!(PlayerInput::default(), idle());
    let mut i = idle();
    i.set(PlayerCommand::Right, true);
    assert_eq!(i, PlayerInput { jump: false, left: false, right: true });
}
