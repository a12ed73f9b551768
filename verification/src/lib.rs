//! A verified model of a sensor-to-OLED firmware loop: two I2C buses are
//! brought up, a sensor session and a display session are initialized, and a
//! render loop formats each sensor reading into a bounded text line, draws it
//! into an in-memory frame buffer, flushes the frame to the panel, and toggles
//! a heartbeat output.

mod bringup;
mod display;
mod fault;
mod frame;
mod heartbeat;
mod render;
mod sensor;
mod text;

pub use bringup::{bring_up_plan, BringUpPlan, BOOT_SETTLE_MS, BUS_FREQUENCY_HZ, LOOP_DELAY_MS};
pub use display::DisplaySession;
pub use fault::{BusResponse, FatalError};
pub use frame::{
    all_off, covers, glyph_points, lemma_clear_keeps_all_off, lemma_full_clear_all_off,
    lemma_redraw_reproduces_frame, on_panel, pixel_index, points_drawn, region_cleared, Frame,
    FRAME_HEIGHT, FRAME_PIXELS, FRAME_WIDTH,
};
pub use heartbeat::{lemma_heartbeat_period_two, Heartbeat};
pub use render::{
    line_count, line_text, line_y, lines_fit, rendered_frame, rendered_upto, System, LINE_PITCH,
};
pub use sensor::{
    inertial_config, read_step, ReadStep, Reading, SampleStatus, SensorConfig, SensorSession,
    HUMIDITY_SCALE, INERTIAL_AG_ADDR, INERTIAL_MAG_ADDR, TEMPERATURE_SCALE,
};
pub use text::{
    ascii_chars, dec_digits, dec_value, fixed4_chars, format_fixed4, format_padded4,
    format_scaled, is_dec_digit, lemma_fixed4_four_decimals, lemma_scaled_round_trip, line_chars,
    pad4, padded4_chars, scaled_chars, Line, FIXED4_SCALE, LINE_CAPACITY,
};
