//! End-to-end render-loop scenarios against the verified system model.

use sensor_display::{
    bring_up_plan, inertial_config, read_step, BusResponse, DisplaySession, ReadStep, Reading,
    SampleStatus, SensorSession, System, FRAME_HEIGHT, FRAME_WIDTH,
};

fn panel_pixels(session: &DisplaySession) -> Vec<bool> {
    let mut pixels = Vec::new();
    for y in 0..FRAME_HEIGHT {
        for x in 0..FRAME_WIDTH {
            pixels.push(session.panel_pixel(x, y));
        }
    }
    pixels
}

fn booted() -> System {
    System::boot(BusResponse::Ack, inertial_config(), BusResponse::Ack).unwrap()
}

/// The frame a list of lines drawn on a cleared display produces.
fn reference_frame(lines: &[&str]) -> Vec<bool> {
    let mut session = DisplaySession::initialize(BusResponse::Ack).unwrap();
    session.clear_region(0, 0, 128, 32);
    for (k, text) in lines.iter().enumerate() {
        session.draw_text(text, 0, (9 * k) as i32);
    }
    session.flush();
    panel_pixels(&session)
}

#[test]
fn humidity_reading_renders_its_lines() {
    let mut system = booted();
    let reading = Reading::Climate { humidity_x2: 131, temperature_x8: 200 };
    system.render_iteration(&reading).unwrap();
    assert_eq!(panel_pixels(&system.display), reference_frame(&["H: 65%", "T:25C"]));
}

#[test]
fn light_reading_renders_four_padded_lines() {
    let mut system = booted();
    let reading = Reading::Light { clear: 300, red: 50, green: 60, blue: 70 };
    system.render_iteration(&reading).unwrap();
    assert_eq!(
        panel_pixels(&system.display),
        reference_frame(&["C: 0300", "R: 0050", "G: 0060", "B: 0070"])
    );
}

#[test]
fn inertial_reading_renders_three_lines() {
    let mut system = booted();
    let reading = Reading::Inertial { gx: -5000, gy: 1, gz: 123456 };
    system.render_iteration(&reading).unwrap();
    assert_eq!(
        panel_pixels(&system.display),
        reference_frame(&["G_x: -0.5000", "G_y: 0.0001", "G_z: 12.3456"])
    );
}

#[test]
fn iteration_is_independent_of_prior_frame() {
    let mut system = booted();
    let first = Reading::Climate { humidity_x2: 88, temperature_x8: 161 };
    let second = Reading::Climate { humidity_x2: 131, temperature_x8: 200 };
    system.render_iteration(&first).unwrap();
    system.render_iteration(&second).unwrap();
    let mut fresh = booted();
    fresh.render_iteration(&second).unwrap();
    assert_eq!(panel_pixels(&system.display), panel_pixels(&fresh.display));
}

#[test]
fn heartbeat_returns_after_two_iterations() {
    let mut system = booted();
    let reading = Reading::Climate { humidity_x2: 100, temperature_x8: 100 };
    let start = system.heartbeat.high;
    system.render_iteration(&reading).unwrap();
    assert_eq!(system.heartbeat.high, !start);
    system.render_iteration(&reading).unwrap();
    assert_eq!(system.heartbeat.high, start);
    system.render_iteration(&reading).unwrap();
    assert_eq!(system.heartbeat.high, !start);
}

#[test]
fn overflowing_line_freezes_heartbeat_and_panel() {
    let mut system = booted();
    let good = Reading::Climate { humidity_x2: 131, temperature_x8: 200 };
    system.render_iteration(&good).unwrap();
    let before_heartbeat = system.heartbeat.high;
    let before_panel = panel_pixels(&system.display);
    let bad = Reading::Inertial { gx: i32::MIN, gy: 0, gz: 0 };
    assert!(system.render_iteration(&bad).is_err());
    assert_eq!(system.heartbeat.high, before_heartbeat);
    assert_eq!(panel_pixels(&system.display), before_panel);
}

#[test]
fn sensor_nack_aborts_before_first_iteration() {
    assert!(System::boot(BusResponse::Ack, inertial_config(), BusResponse::Nack).is_err());
    assert!(System::boot(BusResponse::Nack, inertial_config(), BusResponse::Ack).is_err());
    assert!(SensorSession::initialize(inertial_config(), BusResponse::Nack).is_err());
}

#[test]
fn boot_with_acknowledgements_starts_dark_and_low() {
    let system = booted();
    assert!(!system.heartbeat.high);
    assert!(panel_pixels(&system.display).iter().all(|p| !p));
    assert_eq!(system.sensor.config, inertial_config());
}

#[test]
fn read_discipline_never_surfaces_not_ready() {
    let reading = Reading::Light { clear: 1, red: 2, green: 3, blue: 4 };
    assert_eq!(read_step(SampleStatus::Ready(reading)), ReadStep::Deliver(reading));
    assert_eq!(read_step(SampleStatus::NotReady), ReadStep::RetryRead);
    assert_eq!(read_step(SampleStatus::Fault), ReadStep::Abort);
}

#[test]
fn bring_up_uses_fixed_rates_and_settle() {
    let plan = bring_up_plan();
    assert!(plan.power_enable_high);
    assert!(plan.pullup_enable_high);
    assert_eq!(plan.settle_ms, 100);
    assert_eq!(plan.bus_frequency_hz, 400_000);
    assert_eq!(plan.loop_delay_ms, 100);
}

#[test]
fn inertial_config_matches_board_addresses() {
    let config = inertial_config();
    assert_eq!(config.ag_addr, 0x6B);
    assert_eq!(config.mag_addr, 0x1E);
    assert!(config.accel && config.gyro && config.mag);
}
