use console_raycaster::game::{
    column_char, map_ray_char, player_step, shows_columns, shows_map, tick_elapsed, view_mode,
    GameMap, PlayerStep,
};
use console_raycaster::terminal::input::keys;
use console_raycaster::terminal::input::{
    clean_up, key_after_event, key_to_store, Hook, KeyboardEvent,
};
use console_raycaster::terminal::output::{BLACK_BOX_CHAR, DASH_CHAR, STRIP_BOX_CHAR};
use console_raycaster::vec2::Vec2;

#[test]
fn starting_map_walls() {
    let m = GameMap::starting_map();
    assert_eq!(m.columns(), 10);
    assert!(m.blocks_ray(Vec2 { x: 0, y: 0 }));
    assert!(!m.blocks_ray(Vec2 { x: 1, y: 1 }));
    assert!(m.blocks_ray(Vec2 { x: 3, y: 2 }));
    assert!(!m.blocks_ray(Vec2 { x: 8, y: 0 }));
    assert!(!m.blocks_ray(Vec2 { x: 9, y: 9 }));
}

#[test]
fn squares_past_a_row_count_into_the_next_row() {
    let m = GameMap::starting_map();
    // Column 10 of row 0 is square 10, the first square of row 1: a wall.
    assert!(m.blocks_ray(Vec2 { x: 10, y: 0 }));
    // Column 11 of row 0 is square 11, open.
    assert!(!m.blocks_ray(Vec2 { x: 11, y: 0 }));
}

#[test]
fn squares_past_the_map_block_rays() {
    let m = GameMap::starting_map();
    assert!(m.blocks_ray(Vec2 { x: 0, y: 10 }));
    assert!(m.blocks_ray(Vec2 { x: -3, y: 0 }));
}

#[test]
fn key_bindings() {
    assert_eq!(player_step(keys::KEY_W), PlayerStep { dx: 0, dy: 1, turn: 0 });
    assert_eq!(player_step(keys::KEY_S), PlayerStep { dx: 0, dy: -1, turn: 0 });
    assert_eq!(player_step(keys::KEY_A), PlayerStep { dx: -1, dy: 0, turn: 0 });
    assert_eq!(player_step(keys::KEY_D), PlayerStep { dx: 1, dy: 0, turn: 0 });
    assert_eq!(player_step(keys::KEY_E), PlayerStep { dx: 0, dy: 0, turn: 1 });
    assert_eq!(player_step(keys::KEY_Q), PlayerStep { dx: 0, dy: 0, turn: -1 });
    assert_eq!(player_step(keys::KEY_UP), PlayerStep { dx: 0, dy: 0, turn: 0 });
    assert_eq!(player_step(keys::KEY_X), PlayerStep { dx: 0, dy: 0, turn: 0 });
}

#[test]
fn ticks_last_six_hundred_millis() {
    assert!(!tick_elapsed(0));
    assert!(!tick_elapsed(599));
    assert!(tick_elapsed(600));
    assert!(tick_elapsed(1250));
}

#[test]
fn ray_characters() {
    assert_eq!(map_ray_char(false), BLACK_BOX_CHAR);
    assert_eq!(map_ray_char(true), DASH_CHAR);
    assert_eq!(column_char(false), BLACK_BOX_CHAR);
    assert_eq!(column_char(true), STRIP_BOX_CHAR);
}

#[test]
fn view_modes() {
    assert!(shows_map(view_mode::mode_2d));
    assert!(!shows_columns(view_mode::mode_2d));
    assert!(!shows_map(view_mode::mode_3d));
    assert!(shows_columns(view_mode::mode_3d));
    assert!(shows_map(view_mode::mode_2d_and_3d));
    assert!(shows_columns(view_mode::mode_2d_and_3d));
}

#[test]
fn keyboard_events() {
    assert_eq!(key_after_event(keys::KEY_UP, KeyboardEvent::KeyDown(keys::KEY_W)), keys::KEY_W);
    assert_eq!(key_after_event(keys::KEY_W, KeyboardEvent::KeyUp), keys::KEY_UP);
    assert_eq!(key_after_event(keys::KEY_A, KeyboardEvent::Other), keys::KEY_A);
}

#[test]
fn hook_shares_the_held_key() {
    let mut hook = Hook::new();
    assert_eq!(hook.get_key(), keys::KEY_UP);
    let key = hook.key_handle();
    key.store(keys::KEY_D, std::sync::atomic::Ordering::Relaxed);
    assert_eq!(hook.get_key(), keys::KEY_D);
    let switch = hook.switch_handle();
    assert!(switch.load(std::sync::atomic::Ordering::Relaxed));
    hook.end();
    assert!(!switch.load(std::sync::atomic::Ordering::Relaxed));
    clean_up();
}

#[test]
fn polling_stores_the_held_key_only_when_no_message_was_removed() {
    assert_eq!(key_to_store(false, keys::KEY_W), Some(keys::KEY_W));
    assert_eq!(key_to_store(true, keys::KEY_W), None);
}
