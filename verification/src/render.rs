//! The render loop: the unconditional cycle of clearing the drawn region,
//! formatting the latest reading into bounded lines, drawing them at fixed
//! coordinates, flushing the frame, and toggling the heartbeat.
//!
//! Any fatal error aborts the whole process immediately: there is no
//! resume and no partial-iteration skip. The loop itself never terminates;
//! one iteration of its decisions is `System::render_iteration`, and the
//! blocking waits around it (the sensor read and the fixed delay) are the
//! caller's.

use vstd::prelude::*;

use crate::display::DisplaySession;
use crate::fault::{BusResponse, FatalError};
use crate::frame::{all_off, glyph_points, lemma_full_clear_all_off, points_drawn};
use crate::heartbeat::Heartbeat;
use crate::sensor::{Reading, SensorConfig, SensorSession, HUMIDITY_SCALE, TEMPERATURE_SCALE};
use crate::text::{
    ascii_chars, fixed4_chars, format_fixed4, format_padded4, format_scaled, padded4_chars,
    scaled_chars,
};

verus! {

/// Vertical pitch of the text lines: the 6x8 glyphs plus one blank row.
pub const LINE_PITCH: usize = 9;

/// The text of the `k`-th display line for a reading: each enabled channel
/// formatted after its fixed label.
pub open spec fn line_text(r: Reading, k: int) -> Seq<char> {
    match r {
        Reading::Inertial { gx, gy, gz } => if k == 0 {
            fixed4_chars("G_x"@, gx as int)
        } else if k == 1 {
            fixed4_chars("G_y"@, gy as int)
        } else {
            fixed4_chars("G_z"@, gz as int)
        },
        Reading::Climate { humidity_x2, temperature_x8 } => if k == 0 {
            scaled_chars("H: "@, humidity_x2 as nat, HUMIDITY_SCALE as nat, "%"@)
        } else {
            scaled_chars("T:"@, temperature_x8 as nat, TEMPERATURE_SCALE as nat, "C"@)
        },
        Reading::Light { clear, red, green, blue } => if k == 0 {
            padded4_chars("C: "@, clear as nat)
        } else if k == 1 {
            padded4_chars("R: "@, red as nat)
        } else if k == 2 {
            padded4_chars("G: "@, green as nat)
        } else {
            padded4_chars("B: "@, blue as nat)
        },
    }
}

/// How many lines a reading is rendered as.
pub open spec fn line_count(r: Reading) -> int {
    match r {
        Reading::Inertial { .. } => 3,
        Reading::Climate { .. } => 2,
        Reading::Light { .. } => 4,
    }
}

/// The top row of the `k`-th display line.
pub open spec fn line_y(k: int) -> int {
    (LINE_PITCH as int) * k
}

/// The frame after the first `n` lines of a reading are drawn on an
/// all-off frame.
pub open spec fn rendered_upto(r: Reading, n: int) -> Seq<bool>
    decreases n,
{
    if n <= 0 {
        all_off()
    } else {
        points_drawn(rendered_upto(r, n - 1), glyph_points(line_text(r, n - 1), 0, line_y(n - 1)))
    }
}

/// The frame one iteration transmits for a reading: every line drawn at
/// its fixed coordinate on a cleared frame, independent of anything drawn
/// before.
pub open spec fn rendered_frame(r: Reading) -> Seq<bool> {
    rendered_upto(r, line_count(r))
}

/// True when every formatted line of the reading fits its 16-byte buffer.
pub open spec fn lines_fit(r: Reading) -> bool {
    forall|k: int| 0 <= k < line_count(r) ==> #[trigger] line_text(r, k).len() <= 16
}

/// The whole firmware state the loop carries: the two sessions, each
/// owning its own bus, and the heartbeat level.
pub struct System {
    /// The session owning the display bus.
    pub display: DisplaySession,
    /// The session owning the sensor bus.
    pub sensor: SensorSession,
    /// The liveness LED level, toggled once per iteration.
    pub heartbeat: Heartbeat,
}

impl System {
    /// The display buffers hold exactly one panel's worth of pixels.
    pub open spec fn wf(&self) -> bool {
        self.display.wf()
    }

    /// Bring the system up: the display handshake, then the sensor
    /// handshake. Either device failing to acknowledge is fatal, so no
    /// system state exists and no frame is ever transmitted; the render
    /// loop never begins. On success the panel shows the initial all-off
    /// flush and the heartbeat starts low.
    pub fn boot(
        display_handshake: BusResponse,
        config: SensorConfig,
        sensor_handshake: BusResponse,
    ) -> (r: Result<System, FatalError>)
        ensures
            r is Ok <==> (display_handshake is Ack && sensor_handshake is Ack),
            r matches Ok(s) ==> s.wf() && s.display.panel_view() =~= all_off() && s.sensor.config
                == config && s.heartbeat.high == false,
    {
        let display = match DisplaySession::initialize(display_handshake) {
            Ok(d) => d,
            Err(e) => {
                return Err(e);
            },
        };
        let sensor = match SensorSession::initialize(config, sensor_handshake) {
            Ok(s) => s,
            Err(e) => {
                return Err(e);
            },
        };
        Ok(System { display, sensor, heartbeat: Heartbeat::new(false) })
    }

    /// One pass of the render loop: clear the drawn region, format the
    /// reading's channels, draw each line at its fixed coordinate, flush
    /// the frame to the panel, and toggle the heartbeat. A line that
    /// exceeds its bounded buffer is fatal: nothing is transmitted and
    /// the heartbeat freezes, exactly as an aborted process leaves them.
    pub fn render_iteration(&mut self, reading: &Reading) -> (res: Result<(), FatalError>)
        requires
            old(self).wf(),
        ensures
            final(self).wf(),
            res is Ok <==> lines_fit(*reading),
            res is Ok ==> final(self).display.panel_view() =~= rendered_frame(*reading),
            res is Ok ==> final(self).heartbeat.high == !old(self).heartbeat.high,
            res is Err ==> final(self).heartbeat == old(self).heartbeat
                && final(self).display.panel_view() == old(self).display.panel_view(),
            final(self).sensor == old(self).sensor,
    {
        let ghost r = *reading;
        match *reading {
            Reading::Inertial { gx, gy, gz } => {
                proof {
                    reveal_strlit("G_x");
                    reveal_strlit("G_y");
                    reveal_strlit("G_z");
                    assert("G_x"@ =~= seq!['G', '_', 'x']);
                    assert("G_y"@ =~= seq!['G', '_', 'y']);
                    assert("G_z"@ =~= seq!['G', '_', 'z']);
                    assert(ascii_chars("G_x"@));
                    assert(ascii_chars("G_y"@));
                    assert(ascii_chars("G_z"@));
                }
                let l0 = match format_fixed4("G_x", gx) {
                    Ok(l) => l,
                    Err(e) => {
                        assert(line_text(r, 0).len() > 16);
                        return Err(e);
                    },
                };
                let l1 = match format_fixed4("G_y", gy) {
                    Ok(l) => l,
                    Err(e) => {
                        assert(line_text(r, 1).len() > 16);
                        return Err(e);
                    },
                };
                let l2 = match format_fixed4("G_z", gz) {
                    Ok(l) => l,
                    Err(e) => {
                        assert(line_text(r, 2).len() > 16);
                        return Err(e);
                    },
                };
                assert forall|k: int| 0 <= k < line_count(r) implies #[trigger] line_text(
                    r,
                    k,
                ).len() <= 16 by {
                    if k == 0 {
                        assert(line_text(r, 0) == l0@);
                    } else if k == 1 {
                        assert(line_text(r, 1) == l1@);
                    } else {
                        assert(line_text(r, 2) == l2@);
                    }
                }
                self.display.clear_region(0, 0, 128, 32);
                proof {
                    lemma_full_clear_all_off(old(self).display.frame@);
                    assert(self.display.frame@ =~= rendered_upto(r, 0));
                }
                self.display.draw_text(l0.text(), 0, 0);
                assert(self.display.frame@ =~= rendered_upto(r, 1));
                self.display.draw_text(l1.text(), 0, 9);
                assert(self.display.frame@ =~= rendered_upto(r, 2));
                self.display.draw_text(l2.text(), 0, 18);
                assert(self.display.frame@ =~= rendered_upto(r, 3));
            },
            Reading::Climate { humidity_x2, temperature_x8 } => {
                proof {
                    reveal_strlit("H: ");
                    reveal_strlit("%");
                    reveal_strlit("T:");
                    reveal_strlit("C");
                    assert("H: "@ =~= seq!['H', ':', ' ']);
                    assert("%"@ =~= seq!['%']);
                    assert("T:"@ =~= seq!['T', ':']);
                    assert("C"@ =~= seq!['C']);
                    assert(ascii_chars("H: "@));
                    assert(ascii_chars("%"@));
                    assert(ascii_chars("T:"@));
                    assert(ascii_chars("C"@));
                }
                let l0 = match format_scaled("H: ", humidity_x2, HUMIDITY_SCALE, "%") {
                    Ok(l) => l,
                    Err(e) => {
                        assert(line_text(r, 0).len() > 16);
                        return Err(e);
                    },
                };
                let l1 = match format_scaled("T:", temperature_x8, TEMPERATURE_SCALE, "C") {
                    Ok(l) => l,
                    Err(e) => {
                        assert(line_text(r, 1).len() > 16);
                        return Err(e);
                    },
                };
                assert forall|k: int| 0 <= k < line_count(r) implies #[trigger] line_text(
                    r,
                    k,
                ).len() <= 16 by {
                    if k == 0 {
                        assert(line_text(r, 0) == l0@);
                    } else {
                        assert(line_text(r, 1) == l1@);
                    }
                }
                self.display.clear_region(0, 0, 128, 32);
                proof {
                    lemma_full_clear_all_off(old(self).display.frame@);
                    assert(self.display.frame@ =~= rendered_upto(r, 0));
                }
                self.display.draw_text(l0.text(), 0, 0);
                assert(self.display.frame@ =~= rendered_upto(r, 1));
                self.display.draw_text(l1.text(), 0, 9);
                assert(self.display.frame@ =~= rendered_upto(r, 2));
            },
            Reading::Light { clear, red, green, blue } => {
                proof {
                    reveal_strlit("C: ");
                    reveal_strlit("R: ");
                    reveal_strlit("G: ");
                    reveal_strlit("B: ");
                    assert("C: "@ =~= seq!['C', ':', ' ']);
                    assert("R: "@ =~= seq!['R', ':', ' ']);
                    assert("G: "@ =~= seq!['G', ':', ' ']);
                    assert("B: "@ =~= seq!['B', ':', ' ']);
                    assert(ascii_chars("C: "@));
                    assert(ascii_chars("R: "@));
                    assert(ascii_chars("G: "@));
                    assert(ascii_chars("B: "@));
                }
                let l0 = match format_padded4("C: ", clear as u32) {
                    Ok(l) => l,
                    Err(e) => {
                        assert(line_text(r, 0).len() > 16);
                        return Err(e);
                    },
                };
                let l1 = match format_padded4("R: ", red as u32) {
                    Ok(l) => l,
                    Err(e) => {
                        assert(line_text(r, 1).len() > 16);
                        return Err(e);
                    },
                };
                let l2 = match format_padded4("G: ", green as u32) {
                    Ok(l) => l,
                    Err(e) => {
                        assert(line_text(r, 2).len() > 16);
                        return Err(e);
                    },
                };
                let l3 = match format_padded4("B: ", blue as u32) {
                    Ok(l) => l,
                    Err(e) => {
                        assert(line_text(r, 3).len() > 16);
                        return Err(e);
                    },
                };
                assert forall|k: int| 0 <= k < line_count(r) implies #[trigger] line_text(
                    r,
                    k,
                ).len() <= 16 by {
                    if k == 0 {
                        assert(line_text(r, 0) == l0@);
                    } else if k == 1 {
                        assert(line_text(r, 1) == l1@);
                    } else if k == 2 {
                        assert(line_text(r, 2) == l2@);
                    } else {
                        assert(line_text(r, 3) == l3@);
                    }
                }
                self.display.clear_region(0, 0, 128, 32);
                proof {
                    lemma_full_clear_all_off(old(self).display.frame@);
                    assert(self.display.frame@ =~= rendered_upto(r, 0));
                }
                self.display.draw_text(l0.text(), 0, 0);
                assert(self.display.frame@ =~= rendered_upto(r, 1));
                self.display.draw_text(l1.text(), 0, 9);
                assert(self.display.frame@ =~= rendered_upto(r, 2));
                self.display.draw_text(l2.text(), 0, 18);
                assert(self.display.frame@ =~= rendered_upto(r, 3));
                self.display.draw_text(l3.text(), 0, 27);
                assert(self.display.frame@ =~= rendered_upto(r, 4));
            },
        }
        assert(self.display.frame@ =~= rendered_frame(r));
        self.display.flush();
        self.heartbeat.toggle();
        Ok(())
    }
}

} // verus!
