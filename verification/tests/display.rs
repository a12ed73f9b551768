//! The frame-buffer and flush discipline on a real display session.

use sensor_display::{BusResponse, DisplaySession, FRAME_HEIGHT, FRAME_WIDTH};

fn panel_pixels(session: &DisplaySession) -> Vec<bool> {
    let mut pixels = Vec::new();
    for y in 0..FRAME_HEIGHT {
        for x in 0..FRAME_WIDTH {
            pixels.push(session.panel_pixel(x, y));
        }
    }
    pixels
}

#[test]
fn initialize_needs_acknowledgement() {
    assert!(DisplaySession::initialize(BusResponse::Ack).is_ok());
    assert!(DisplaySession::initialize(BusResponse::Nack).is_err());
}

#[test]
fn clear_then_flush_is_all_off() {
    let mut session = DisplaySession::initialize(BusResponse::Ack).unwrap();
    session.draw_text("G_x: -0.5000", 0, 0);
    session.clear_region(0, 0, 128, 32);
    session.flush();
    assert!(panel_pixels(&session).iter().all(|p| !p));
}

#[test]
fn draw_text_lights_only_its_rows() {
    let mut session = DisplaySession::initialize(BusResponse::Ack).unwrap();
    session.draw_text("H: 65%", 0, 0);
    session.flush();
    let mut lit = 0;
    for y in 0..FRAME_HEIGHT {
        for x in 0..FRAME_WIDTH {
            if session.panel_pixel(x, y) {
                assert!(y < 8, "glyphs of a 6x8 font stay in their eight rows");
                lit += 1;
            }
        }
    }
    assert!(lit > 0, "rendering a non-empty string lights pixels");
}

#[test]
fn panel_lags_buffer_until_flush() {
    let mut session = DisplaySession::initialize(BusResponse::Ack).unwrap();
    session.draw_text("T:25C", 0, 0);
    assert!(panel_pixels(&session).iter().all(|p| !p));
    session.flush();
    assert!(panel_pixels(&session).iter().any(|p| *p));
}

#[test]
fn redraw_after_clear_reproduces_frame() {
    let mut dirty = DisplaySession::initialize(BusResponse::Ack).unwrap();
    dirty.draw_text("R: 0050", 7, 13);
    dirty.draw_text("G: 0060", 2, 20);
    dirty.flush();

    let mut clean = DisplaySession::initialize(BusResponse::Ack).unwrap();

    dirty.clear_region(0, 0, 128, 32);
    dirty.draw_text("C: 0300", 0, 9);
    dirty.flush();

    clean.clear_region(0, 0, 128, 32);
    clean.draw_text("C: 0300", 0, 9);
    clean.flush();

    assert_eq!(panel_pixels(&dirty), panel_pixels(&clean));
}

#[test]
fn clear_region_leaves_outside_pixels() {
    let mut session = DisplaySession::initialize(BusResponse::Ack).unwrap();
    session.draw_text("B: 0070", 0, 0);
    session.clear_region(0, 16, 128, 32);
    session.flush();
    assert!(panel_pixels(&session).iter().any(|p| *p));
    session.clear_region(0, 0, 128, 16);
    session.flush();
    assert!(panel_pixels(&session).iter().all(|p| !p));
}
