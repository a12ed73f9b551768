//! The display session: an in-memory frame buffer mirrored to the OLED
//! controller on explicit flush.
//!
//! Separating clear and draw (in memory) from flush (one full-frame
//! transfer) bounds the bus traffic to one transmission per loop iteration.
//! The panel always lags the in-memory buffer until `flush` is called.

use vstd::prelude::*;

use crate::fault::{BusResponse, FatalError};
use crate::frame::{region_cleared, points_drawn, glyph_points, all_off, Frame, on_panel,
    pixel_index};

verus! {

/// A session with the OLED controller. `frame` is the in-memory buffer the
/// render loop draws into; `panel` models the pixel state last transmitted
/// to the controller, which lags the buffer until a flush.
pub struct DisplaySession {
    /// The in-memory frame buffer.
    pub frame: Frame,
    /// The model of the controller's pixel state; written only by `flush`.
    pub panel: Frame,
}

impl DisplaySession {
    /// The pixel state on the physical panel: what the last flush
    /// transmitted.
    pub open spec fn panel_view(&self) -> Seq<bool> {
        self.panel@
    }

    /// Both buffers always hold exactly one panel's worth of pixels.
    pub open spec fn wf(&self) -> bool {
        self.frame@.len() == 4096 && self.panel_view().len() == 4096
    }

    /// Open the session after the controller's reset-and-configuration
    /// handshake. A handshake the controller did not acknowledge is fatal:
    /// there is no partial-display fallback. On success both the buffer
    /// and the panel start all off, as the initial flush of the cleared
    /// buffer leaves them.
    pub fn initialize(handshake: BusResponse) -> (r: Result<DisplaySession, FatalError>)
        ensures
            r is Ok <==> handshake is Ack,
            r matches Ok(d) ==> d.wf() && d.frame@ =~= all_off() && d.panel_view() =~= all_off(),
    {
        match handshake {
            BusResponse::Ack => Ok(
                DisplaySession { frame: Frame::new(), panel: Frame::new() },
            ),
            BusResponse::Nack => Err(FatalError),
        }
    }

    /// Switch off every buffer pixel of the half-open rectangle
    /// `[x0, x1) x [y0, y1)`; the panel keeps its last flushed contents.
    pub fn clear_region(&mut self, x0: usize, y0: usize, x1: usize, y1: usize)
        requires
            x0 <= x1 <= 128,
            y0 <= y1 <= 32,
            old(self).wf(),
        ensures
            final(self).wf(),
            final(self).frame@ =~= region_cleared(
                old(self).frame@,
                x0 as int,
                y0 as int,
                x1 as int,
                y1 as int,
            ),
            final(self).panel_view() == old(self).panel_view(),
    {
        self.frame.clear_region(x0, y0, x1, y1);
    }

    /// Rasterize a string at a top-left coordinate into the buffer; the
    /// panel keeps its last flushed contents.
    pub fn draw_text(&mut self, text: &str, x: i32, y: i32)
        requires
            0 <= x < 128,
            0 <= y < 32,
            text@.len() <= 64,
            old(self).wf(),
        ensures
            final(self).wf(),
            final(self).frame@ =~= points_drawn(
                old(self).frame@,
                glyph_points(text@, x as int, y as int),
            ),
            final(self).panel_view() == old(self).panel_view(),
    {
        self.frame.draw_text(text, x, y);
    }

    /// Transmit the whole in-memory buffer to the controller: afterwards
    /// the panel shows exactly the buffer.
    pub fn flush(&mut self)
        requires
            old(self).wf(),
        ensures
            final(self).wf(),
            final(self).frame@ == old(self).frame@,
            final(self).panel_view() == old(self).frame@,
    {
        self.panel = self.frame.snapshot();
    }

    /// The panel pixel at a coordinate, as of the last flush.
    pub fn panel_pixel(&self, x: usize, y: usize) -> (r: bool)
        requires
            on_panel(x as int, y as int),
            self.wf(),
        ensures
            r == self.panel_view()[pixel_index(x as int, y as int)],
    {
        self.panel.get(x, y)
    }

    /// The buffer pixel at a coordinate, which the panel may still lag.
    pub fn frame_pixel(&self, x: usize, y: usize) -> (r: bool)
        requires
            on_panel(x as int, y as int),
            self.wf(),
        ensures
            r == self.frame@[pixel_index(x as int, y as int)],
    {
        self.frame.get(x, y)
    }
}

} // verus!
