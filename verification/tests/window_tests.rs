//! Tests of the window/cursor model: clamping after arbitrary move
//! sequences and the scroll invariant.

use cuprum::api::{BufferId, Mode};
use cuprum::buffer::Buffer;
use cuprum::vec2::{IVec2, UVec2};
use cuprum::window::Window;

fn max_col(buf: &Buffer, y: usize, mode: Mode) -> usize {
    let len = buf.get_line_length(y).unwrap();
    match mode {
        Mode::Insert(_) => len,
        _ => {
            if len == 0 {
                0
            } else {
                len - 1
            }
        },
    }
}

/// After any sequence of moves the cursor line stays inside the buffer,
/// the effective cursor column stays at or below the mode-appropriate
/// maximum, and the scroll offset keeps the cursor line inside the
/// two-line viewport.
#[test]
fn test_clamping_and_scroll_after_move_sequence() {
    let buf = Buffer::from_text(None, "alpha\nbe\n\nlongest line here\nx");
    let mode = Mode::Normal;
    let mut win = Window::new(BufferId(0), UVec2 { x: 80, y: 2 });

    let moves: Vec<IVec2> = vec![
        IVec2 { x: 4, y: 0 },
        IVec2 { x: 0, y: 1 },
        IVec2 { x: 0, y: 1 },
        IVec2 { x: 0, y: 1 },
        IVec2 { x: 9, y: 0 },
        IVec2 { x: 0, y: -3 },
        IVec2 { x: 0, y: 99 },
        IVec2 { x: 0, y: 1 },
        IVec2 { x: -1, y: 0 },
        IVec2 { x: 0, y: -1 },
    ];
    for m in moves {
        win.move_by(&buf, mode, m);
        let c = win.get_cursor();
        assert!(c.y < buf.get_line_count());
        let eff = win.get_effective_cursor(&buf, mode);
        assert!(eff.x <= max_col(&buf, eff.y, mode));
        let scroll = win.get_scroll();
        assert!(scroll <= c.y && c.y < scroll + 2);
    }

    win.move_to_y(&buf, 3);
    win.move_to_line_end(&buf);
    let eff = win.get_effective_cursor(&buf, mode);
    assert_eq!(eff, UVec2 { x: 16, y: 3 });
    win.move_to_x(&buf, mode, 999);
    assert_eq!(win.get_cursor(), UVec2 { x: 16, y: 3 });
    win.move_to_buffer_end(&buf);
    assert_eq!(win.get_cursor(), UVec2 { x: 1, y: 4 });
    win.move_to_buffer_start();
    assert_eq!(win.get_cursor(), UVec2 { x: 0, y: 0 });
    assert_eq!(win.get_scroll(), 0);
}

/// The scroll offset follows the cursor exactly as specified: unchanged
/// inside the viewport, snapping up when the cursor rises above it and
/// down to `cursor - height + 1` when it sinks below.
#[test]
fn test_sync_scroll_rule() {
    let buf = Buffer::from_text(None, "a\nb\nc\nd\ne\nf\ng\nh");
    let mut win = Window::new(BufferId(0), UVec2 { x: 80, y: 3 });
    win.move_to_y(&buf, 5);
    assert_eq!(win.get_scroll(), 3);
    win.move_to_y(&buf, 4);
    assert_eq!(win.get_scroll(), 3);
    win.move_to_y(&buf, 1);
    assert_eq!(win.get_scroll(), 1);
    win.move_to_y(&buf, 7);
    assert_eq!(win.get_scroll(), 5);

    let mut flat = Window::new(BufferId(0), UVec2 { x: 80, y: 0 });
    flat.move_to_y(&buf, 6);
    assert_eq!(flat.get_scroll(), 6);
}

/// A move that would leave the buffer is rejected and leaves the cursor
/// in place (apart from the horizontal pre-clamp).
#[test]
fn test_rejected_moves() {
    let buf = Buffer::from_text(None, "ab\ncd");
    let mode = Mode::Normal;
    let mut win = Window::new(BufferId(0), UVec2 { x: 80, y: 10 });
    win.move_by(&buf, mode, IVec2 { x: 0, y: -1 });
    assert_eq!(win.get_cursor(), UVec2 { x: 0, y: 0 });
    win.move_by(&buf, mode, IVec2 { x: 0, y: 2 });
    assert_eq!(win.get_cursor(), UVec2 { x: 0, y: 0 });
    win.move_by(&buf, mode, IVec2 { x: 1, y: 1 });
    assert_eq!(win.get_cursor(), UVec2 { x: 1, y: 1 });
}
