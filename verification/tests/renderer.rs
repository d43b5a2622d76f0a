use console_raycaster::terminal::output::{
    ConsoleCommand, Renderer, CHAR_EMPTY, FORCE_PAINT_CHAR,
};
use console_raycaster::vec2::Vec2;

fn origin() -> ConsoleCommand {
    ConsoleCommand::SetCursor(Vec2 { x: 0, y: 0 })
}

#[test]
fn new_renderer_has_unknown_size_and_empty_screens() {
    let r = Renderer::new();
    assert_eq!(*r.get_screen_dim(), Vec2 { x: -1, y: -1 });
    assert!(r.front_screen().is_empty());
}

#[test]
fn drawing_before_the_first_update_changes_nothing() {
    let mut r = Renderer::new();
    r.draw_point_unnormalized(Vec2 { x: 0, y: 0 }, b'#');
    r.draw_point(Vec2 { x: 0, y: 0 }, b'#');
    assert_eq!(r.render(), vec![origin(), origin()]);
}

#[test]
fn first_update_forces_a_full_repaint() {
    let mut r = Renderer::new();
    r.update(Vec2 { x: 3, y: 2 });
    assert_eq!(*r.get_screen_dim(), Vec2 { x: 3, y: 2 });
    assert_eq!(r.front_screen(), &vec![FORCE_PAINT_CHAR; 6]);
    let commands = r.render();
    // The changed run reaches the end of the screen: it is written at the
    // origin and without its last cell.
    assert_eq!(
        commands,
        vec![origin(), ConsoleCommand::Write { start: 0, len: 5 }, origin()]
    );
    assert_eq!(r.front_screen(), &vec![CHAR_EMPTY; 6]);
}

#[test]
fn a_drawn_point_is_written_at_its_cursor_position() {
    let mut r = Renderer::new();
    r.update(Vec2 { x: 4, y: 3 });
    r.render();
    r.update(Vec2 { x: 4, y: 3 });
    r.render();
    r.update(Vec2 { x: 4, y: 3 });
    r.draw_point_unnormalized(Vec2 { x: 1, y: 2 }, b'#');
    let commands = r.render();
    assert_eq!(
        commands,
        vec![
            origin(),
            ConsoleCommand::SetCursor(Vec2 { x: 1, y: 2 }),
            ConsoleCommand::Write { start: 9, len: 1 },
            origin(),
            origin(),
        ]
    );
    assert_eq!(r.front_screen()[9], b'#');
    assert_eq!(r.front_screen().iter().filter(|c| **c == b'#').count(), 1);
}

#[test]
fn two_runs_of_changes_give_two_writes() {
    let mut r = Renderer::new();
    r.update(Vec2 { x: 5, y: 2 });
    r.render();
    r.update(Vec2 { x: 5, y: 2 });
    r.render();
    r.update(Vec2 { x: 5, y: 2 });
    r.draw_point_unnormalized(Vec2 { x: 1, y: 0 }, b'a');
    r.draw_point_unnormalized(Vec2 { x: 2, y: 0 }, b'b');
    r.draw_point_unnormalized(Vec2 { x: 4, y: 0 }, b'c');
    r.draw_point_unnormalized(Vec2 { x: 0, y: 1 }, b'd');
    let commands = r.render();
    assert_eq!(
        commands,
        vec![
            origin(),
            ConsoleCommand::SetCursor(Vec2 { x: 1, y: 0 }),
            ConsoleCommand::Write { start: 1, len: 2 },
            origin(),
            ConsoleCommand::SetCursor(Vec2 { x: 4, y: 0 }),
            ConsoleCommand::Write { start: 4, len: 2 },
            origin(),
            origin(),
        ]
    );
}

#[test]
fn an_unchanged_frame_writes_nothing() {
    let mut r = Renderer::new();
    r.update(Vec2 { x: 3, y: 3 });
    r.render();
    r.update(Vec2 { x: 3, y: 3 });
    r.render();
    r.update(Vec2 { x: 3, y: 3 });
    assert_eq!(r.render(), vec![origin(), origin()]);
}

#[test]
fn points_outside_the_console_are_ignored() {
    let mut r = Renderer::new();
    r.update(Vec2 { x: 3, y: 3 });
    r.render();
    r.update(Vec2 { x: 3, y: 3 });
    r.render();
    r.update(Vec2 { x: 3, y: 3 });
    r.draw_point_unnormalized(Vec2 { x: 3, y: 0 }, b'#');
    r.draw_point_unnormalized(Vec2 { x: 0, y: 3 }, b'#');
    r.draw_point_unnormalized(Vec2 { x: -1, y: 0 }, b'#');
    r.draw_point_unnormalized(Vec2 { x: 0, y: -1 }, b'#');
    assert_eq!(r.render(), vec![origin(), origin()]);
}

#[test]
fn draw_point_halves_the_row_toward_zero() {
    let mut r = Renderer::new();
    r.update(Vec2 { x: 3, y: 3 });
    r.render();
    r.update(Vec2 { x: 3, y: 3 });
    r.draw_point(Vec2 { x: 1, y: 5 }, b'#');
    r.draw_point(Vec2 { x: 2, y: -1 }, b'%');
    r.render();
    assert_eq!(r.front_screen()[3 * 2 + 1], b'#');
    assert_eq!(r.front_screen()[2], b'%');
}

#[test]
fn update_with_the_same_size_keeps_the_front_screen() {
    let mut r = Renderer::new();
    r.update(Vec2 { x: 2, y: 2 });
    r.draw_point_unnormalized(Vec2 { x: 1, y: 1 }, b'#');
    r.render();
    let shown = r.front_screen().clone();
    r.update(Vec2 { x: 2, y: 2 });
    assert_eq!(r.front_screen(), &shown);
    // Same number of cells, other shape: the screens are kept too.
    r.update(Vec2 { x: 1, y: 4 });
    assert_eq!(r.front_screen(), &shown);
    assert_eq!(*r.get_screen_dim(), Vec2 { x: 1, y: 4 });
}

#[test]
fn render_twice_swaps_back() {
    let mut r = Renderer::new();
    r.update(Vec2 { x: 2, y: 1 });
    r.draw_point_unnormalized(Vec2 { x: 0, y: 0 }, b'x');
    r.render();
    assert_eq!(r.front_screen(), &vec![b'x', CHAR_EMPTY]);
    r.render();
    assert_eq!(r.front_screen(), &vec![FORCE_PAINT_CHAR, FORCE_PAINT_CHAR]);
}

#[test]
fn zero_sized_console_has_no_cells() {
    let mut r = Renderer::new();
    r.update(Vec2 { x: -4, y: 0 });
    assert!(r.front_screen().is_empty());
    r.draw_point_unnormalized(Vec2 { x: 0, y: 0 }, b'#');
    assert_eq!(r.render(), vec![origin(), origin()]);
}

#[test]
fn cursor_position_uses_the_console_width() {
    let mut r = Renderer::new();
    r.update(Vec2 { x: 7, y: 3 });
    r.render();
    r.update(Vec2 { x: 7, y: 3 });
    r.render();
    r.update(Vec2 { x: 7, y: 3 });
    r.draw_point_unnormalized(Vec2 { x: 5, y: 1 }, b'#');
    let commands = r.render();
    assert_eq!(commands[1], ConsoleCommand::SetCursor(Vec2 { x: 5, y: 1 }));
    assert_eq!(commands[2], ConsoleCommand::Write { start: 12, len: 1 });
}
