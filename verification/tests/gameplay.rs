use river_raid::{Cell, GameCore, Kind, KeyInput, Missile, Player, Scene, State, banner_position};

fn all_river_scene(width: usize, height: usize) -> Scene {
    let mut rows = Vec::new();
    for _ in 0..height {
        rows.push(Cell::create_cells_vec(width, Kind::River));
    }
    Scene { rows }
}

fn all_land_scene(width: usize, height: usize) -> Scene {
    let mut rows = Vec::new();
    for _ in 0..height {
        rows.push(Cell::create_cells_vec(width, Kind::Land));
    }
    Scene { rows }
}

fn playing_game(scene: Scene, x: u16, y: u16) -> GameCore {
    GameCore {
        scene,
        state: State::Playing,
        frame: 0,
        player: Player { x, y },
        missiles: Vec::new(),
    }
}

#[test]
fn state_labels() {
    assert_eq!(State::Main.label(), "Main");
    assert_eq!(State::Playing.label(), "Playing");
    assert_eq!(State::Paused.label(), "Paused");
    assert_eq!(State::GameOver.label(), "GameOver");
    assert_eq!(State::Quit.label(), "Quit");
}

#[test]
fn missile_reaches_top_in_exactly_initial_height_steps() {
    // Created at y0 = 22, the projectile needs exactly 22 steps, each one
    // decrementing y by exactly 1, and never goes below 0.
    let mut m = Missile::new(40, 22);
    for expected in (0..22).rev() {
        m.step();
        assert_eq!(m.y, expected);
        assert_eq!(m.x, 40);
    }
    assert_eq!(m.y, 0);
    m.step();
    assert_eq!(m.y, 0);
}

#[test]
fn any_key_starts_the_game_from_main() {
    let mut g = GameCore::new(all_river_scene(80, 30));
    assert_eq!(g.state, State::Main);
    assert_eq!(g.player, Player { x: 0, y: 0 });
    assert_eq!(g.frame, 0);
    g.handle_key(KeyInput::Other, 80, 24);
    assert_eq!(g.state, State::Playing);
    assert_eq!(g.player, Player { x: 40, y: 23 });
}

#[test]
fn pause_key_starts_from_main_then_toggles() {
    // From the main screen any key press starts the game, the pause key
    // included; afterwards it toggles between playing and paused.
    let mut g = GameCore::new(all_river_scene(80, 30));
    g.handle_key(KeyInput::Pause, 80, 24);
    assert_eq!(g.state, State::Playing);
    assert_eq!(g.player, Player { x: 40, y: 23 });
    g.handle_key(KeyInput::Pause, 80, 24);
    assert_eq!(g.state, State::Paused);
    g.handle_key(KeyInput::Pause, 80, 24);
    assert_eq!(g.state, State::Playing);
}

#[test]
fn interrupt_quits_from_any_state() {
    let mut g = GameCore::new(all_river_scene(80, 30));
    g.handle_key(KeyInput::Interrupt, 80, 24);
    assert_eq!(g.state, State::Quit);
    let mut g = playing_game(all_river_scene(80, 30), 40, 23);
    g.handle_key(KeyInput::Interrupt, 80, 24);
    assert_eq!(g.state, State::Quit);
}

#[test]
fn movement_shifts_one_column_and_stops_at_the_edges() {
    let mut g = playing_game(all_river_scene(80, 30), 1, 23);
    g.handle_key(KeyInput::Left, 80, 24);
    assert_eq!(g.player.x, 0);
    g.handle_key(KeyInput::Left, 80, 24);
    assert_eq!(g.player.x, 0);
    let mut g = playing_game(all_river_scene(80, 30), 78, 23);
    g.handle_key(KeyInput::Right, 80, 24);
    assert_eq!(g.player.x, 79);
    g.handle_key(KeyInput::Right, 80, 24);
    assert_eq!(g.player.x, 79);
}

#[test]
fn fire_spawns_a_projectile_just_above_the_craft() {
    let mut g = playing_game(all_river_scene(80, 30), 40, 23);
    g.handle_key(KeyInput::Fire, 80, 24);
    assert_eq!(g.missiles.len(), 1);
    assert_eq!(g.missiles[0], Missile { x: 40, y: 22 });
}

#[test]
fn tick_advances_only_while_playing() {
    let mut g = GameCore::new(all_river_scene(80, 30));
    g.tick();
    assert_eq!(g.frame, 0);
    g.state = State::Playing;
    g.tick();
    g.tick();
    assert_eq!(g.frame, 2);
    g.state = State::Paused;
    g.tick();
    assert_eq!(g.frame, 2);
}

#[test]
fn fired_projectile_flies_up_and_is_removed_at_the_top() {
    // Space at player position (40, 23) creates a projectile at (40, 22);
    // after 22 motion steps it stands at y == 0 and the next render pass
    // removes it.
    let mut g = playing_game(all_river_scene(80, 30), 40, 23);
    g.handle_key(KeyInput::Fire, 80, 24);
    assert_eq!(g.missiles[0], Missile { x: 40, y: 22 });
    for _ in 0..22 {
        g.step_missiles();
    }
    assert_eq!(g.missiles[0].y, 0);
    g.render_pass(24);
    assert_eq!(g.missiles.len(), 0);
    assert_eq!(g.state, State::Playing);
}

#[test]
fn collision_removes_projectile_and_enemy_exactly_once() {
    // With frame 0 and a 24-row screen, a projectile at y == 22 is drawn on
    // logical terrain row (0 + 24 - 22) mod 30 == 2. Put an enemy there and
    // aim two projectiles at it in the same pass: the first removes the
    // enemy and itself, the second finds river and survives.
    let mut scene = all_river_scene(80, 30);
    scene.rows[2][40] = Cell { kind: Kind::Enemy };
    let mut g = playing_game(scene, 10, 23);
    g.missiles.push(Missile { x: 40, y: 22 });
    g.missiles.push(Missile { x: 40, y: 22 });
    g.render_pass(24);
    assert_eq!(g.scene.cell_at(2, 40).kind, Kind::River);
    assert_eq!(g.missiles.len(), 1);
    assert_eq!(g.missiles[0], Missile { x: 40, y: 22 });
    assert_eq!(g.state, State::Playing);
}

#[test]
fn projectile_outside_the_window_is_left_alone() {
    let mut g = playing_game(all_river_scene(80, 30), 10, 23);
    g.missiles.push(Missile { x: 40, y: 25 });
    g.render_pass(24);
    assert_eq!(g.missiles.len(), 1);
}

#[test]
fn player_on_land_is_game_over_and_inputs_stop_acting() {
    // The craft stands on a land cell, so the very next render pass ends
    // the game; afterwards no movement or firing is observed any more.
    let mut g = playing_game(all_land_scene(80, 30), 40, 23);
    g.render_pass(24);
    assert_eq!(g.state, State::GameOver);
    g.handle_key(KeyInput::Left, 80, 24);
    assert_eq!(g.player, Player { x: 40, y: 23 });
    g.handle_key(KeyInput::Fire, 80, 24);
    assert_eq!(g.missiles.len(), 0);
    g.handle_key(KeyInput::Pause, 80, 24);
    assert_eq!(g.state, State::GameOver);
    g.handle_key(KeyInput::Interrupt, 80, 24);
    assert_eq!(g.state, State::Quit);
}

#[test]
fn player_on_enemy_is_game_over() {
    // With frame 0 and a 24-row screen, the craft at y == 23 stands on
    // logical terrain row (0 + 24 - 23) mod 30 == 1.
    let mut scene = all_river_scene(80, 30);
    scene.rows[1][40] = Cell { kind: Kind::Enemy };
    let mut g = playing_game(scene, 40, 23);
    g.render_pass(24);
    assert_eq!(g.state, State::GameOver);
}

#[test]
fn player_on_river_keeps_playing() {
    let mut g = playing_game(all_river_scene(80, 30), 40, 23);
    g.render_pass(24);
    assert_eq!(g.state, State::Playing);
}

#[test]
fn banner_sits_centered() {
    assert_eq!(banner_position(80, 24, 11), (35, 12));
    assert_eq!(banner_position(11, 3, 11), (0, 1));
}
