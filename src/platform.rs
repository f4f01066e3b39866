use vstd::prelude::*;
use crate::clock::{observed, TickClock, TICK_PERIOD_MS};
use crate::framebuffer::{
    covered, pixel_at, region_blits, regions_valid, FrameBuffer, Rect, RowBlit,
};
use crate::pixel::swapped;
use crate::touch::{events_of, next_state, PointerEvent, PointerState, TouchSample};

verus! {

/// Width of the display in pixels.
pub const DISPLAY_WIDTH: usize = 320;

/// Height of the display in pixels.
pub const DISPLAY_HEIGHT: usize = 240;

/// Bytes per pixel of the renderer's 16-bit encoding.
pub const BYTES_PER_PIXEL: usize = 2;

/// The status that the panel driver returns on success.
pub const ESP_OK: i32 = 0;

/// What stops the platform from running.
#[derive(Clone, Copy, Debug, PartialEq, Eq, Structural)]
pub enum PlatformError {
    /// The panel driver could not initialise the display; it returned this
    /// status.
    PanelInitFailed(i32),
}

/// A command to the panel driver.
#[derive(Clone, Copy, Debug, PartialEq, Eq, Structural)]
pub enum PanelCommand {
    /// Switch the display on or off.
    DisplayOnOff(bool),
    /// Mirror the picture along the x and y axes.
    Mirror(bool, bool),
}

/// Where the event loop stands.
#[derive(Clone, Copy, Debug, PartialEq, Eq, Structural)]
pub enum LoopPhase {
    /// The panel has not been initialised yet.
    Boot,
    /// The panel is up and the loop runs.
    Running,
    /// Panel initialisation failed; the loop was never entered.
    Failed,
}

/// What the loop does at the end of a cycle.
#[derive(Clone, Copy, Debug, PartialEq, Eq, Structural)]
pub enum IdleAction {
    /// Start the next cycle at once.
    Continue,
    /// Wait in low power for the next hardware event.
    Wait,
}

/// The commands that bring the panel up once it is initialised: the display
/// on, and the picture turned by half a turn.
pub open spec fn startup_commands() -> Seq<PanelCommand> {
    seq![PanelCommand::DisplayOnOff(true), PanelCommand::Mirror(true, true)]
}

/// The display platform: the one frame buffer, the pointer state and the
/// clock, and the decisions of each cycle of the event loop. The caller does
/// the hardware work that each decision asks for.
pub struct EspPlatform {
    framebuffer: FrameBuffer,
    pointer: PointerState,
    clock: TickClock,
    phase: LoopPhase,
}

impl EspPlatform {
    pub closed spec fn spec_framebuffer(&self) -> FrameBuffer {
        self.framebuffer
    }

    pub closed spec fn spec_pointer(&self) -> PointerState {
        self.pointer
    }

    pub closed spec fn spec_clock(&self) -> TickClock {
        self.clock
    }

    pub closed spec fn spec_phase(&self) -> LoopPhase {
        self.phase
    }

    /// The platform state holds together: its frame buffer covers the
    /// display.
    pub open spec fn wf(&self) -> bool {
        &&& self.spec_framebuffer().wf()
        &&& self.spec_framebuffer().spec_width() == DISPLAY_WIDTH
        &&& self.spec_framebuffer().spec_height() == DISPLAY_HEIGHT
    }

    /// The platform at boot: a black frame buffer of the display's size, the
    /// pointer up, the clock at zero.
    pub fn new() -> (r: EspPlatform)
        ensures
            r.wf(),
            r.spec_phase() == LoopPhase::Boot,
            r.spec_pointer() == PointerState::new_spec(),
            r.spec_clock() == (TickClock { last_raw: 0, elapsed_ticks: 0, ms_per_tick: TICK_PERIOD_MS }),
            forall|i: int|
                0 <= i < DISPLAY_WIDTH * DISPLAY_HEIGHT ==> r.spec_framebuffer().spec_pixels()[i] == 0,
    {
        EspPlatform {
            framebuffer: FrameBuffer::new(DISPLAY_WIDTH, DISPLAY_HEIGHT),
            pointer: PointerState::new(),
            clock: TickClock::new(TICK_PERIOD_MS),
            phase: LoopPhase::Boot,
        }
    }

    /// The largest transfer on the panel bus: the whole frame buffer, in
    /// bytes.
    pub fn max_transfer_size() -> (r: i32)
        ensures
            r == DISPLAY_WIDTH * DISPLAY_HEIGHT * BYTES_PER_PIXEL,
    {
        (DISPLAY_WIDTH * DISPLAY_HEIGHT * BYTES_PER_PIXEL) as i32
    }

    pub fn phase(&self) -> (r: LoopPhase)
        ensures
            r == self.spec_phase(),
    {
        self.phase
    }

    pub fn framebuffer(&self) -> (r: &FrameBuffer)
        ensures
            *r == self.spec_framebuffer(),
    {
        &self.framebuffer
    }

    /// The frame buffer, for the renderer to draw into.
    pub fn framebuffer_mut(&mut self) -> (r: &mut FrameBuffer)
        ensures
            *r == old(self).spec_framebuffer(),
            *final(r) == final(self).spec_framebuffer(),
            final(self).spec_pointer() == old(self).spec_pointer(),
            final(self).spec_clock() == old(self).spec_clock(),
            final(self).spec_phase() == old(self).spec_phase(),
    {
        &mut self.framebuffer
    }

    /// Milliseconds since boot, given the scheduler's tick counter as read
    /// now. Never less than what an earlier call returned.
    pub fn duration_since_start(&mut self, ticks: u32) -> (ms: u64)
        ensures
            final(self).spec_clock() == observed(old(self).spec_clock(), ticks),
            ms == final(self).spec_clock().millis(),
            old(self).spec_clock().millis() <= ms,
            final(self).spec_framebuffer() == old(self).spec_framebuffer(),
            final(self).spec_pointer() == old(self).spec_pointer(),
            final(self).spec_phase() == old(self).spec_phase(),
    {
        self.clock.duration_since_start(ticks)
    }

    /// Enters the event loop, given the status of the panel's
    /// initialisation. On success the loop runs and the panel commands to
    /// send are returned; on failure the error is returned and the loop is
    /// never entered.
    pub fn begin_event_loop(&mut self, panel_init_status: i32) -> (r: Result<
        Vec<PanelCommand>,
        PlatformError,
    >)
        requires
            old(self).spec_phase() == LoopPhase::Boot,
        ensures
            panel_init_status == ESP_OK <==> r is Ok,
            match r {
                Ok(cmds) => cmds@ == startup_commands() && final(self).spec_phase()
                    == LoopPhase::Running,
                Err(e) => e == PlatformError::PanelInitFailed(panel_init_status)
                    && final(self).spec_phase() == LoopPhase::Failed,
            },
            final(self).spec_framebuffer() == old(self).spec_framebuffer(),
            final(self).spec_pointer() == old(self).spec_pointer(),
            final(self).spec_clock() == old(self).spec_clock(),
    {
        if panel_init_status != ESP_OK {
            self.phase = LoopPhase::Failed;
            return Err(PlatformError::PanelInitFailed(panel_init_status));
        }
        self.phase = LoopPhase::Running;
        let cmds: Vec<PanelCommand> = vec![PanelCommand::DisplayOnOff(true), PanelCommand::Mirror(true, true)];
        assert(cmds@ =~= startup_commands());
        Ok(cmds)
    }

    /// The input step of a cycle: the touch sample read this cycle (none on
    /// a failed read or no contact) becomes the pointer events to deliver.
    pub fn poll_touch(&mut self, sample: Option<TouchSample>) -> (events: Vec<PointerEvent>)
        requires
            old(self).spec_phase() == LoopPhase::Running,
        ensures
            final(self).spec_pointer() == next_state(old(self).spec_pointer(), sample),
            events@ == events_of(old(self).spec_pointer(), sample),
            final(self).spec_framebuffer() == old(self).spec_framebuffer(),
            final(self).spec_clock() == old(self).spec_clock(),
            final(self).spec_phase() == old(self).spec_phase(),
    {
        self.pointer.handle_sample(sample)
    }

    /// The render step of a cycle, once the renderer has drawn the dirty
    /// regions into the frame buffer: transcodes them to wire byte order and
    /// returns the row blits to send. No region, no blit.
    pub fn render_regions(&mut self, regions: &Vec<Rect>) -> (blits: Vec<RowBlit>)
        requires
            old(self).wf(),
            old(self).spec_phase() == LoopPhase::Running,
            regions_valid(regions@, DISPLAY_WIDTH as int, DISPLAY_HEIGHT as int),
        ensures
            final(self).wf(),
            forall|a: int, b: int|
                0 <= a < DISPLAY_WIDTH && 0 <= b < DISPLAY_HEIGHT ==> #[trigger] pixel_at(
                    final(self).spec_framebuffer().spec_pixels(),
                    DISPLAY_WIDTH as int,
                    a,
                    b,
                ) == if covered(regions@, a, b) {
                    swapped(
                        pixel_at(old(self).spec_framebuffer().spec_pixels(), DISPLAY_WIDTH as int, a, b),
                    )
                } else {
                    pixel_at(old(self).spec_framebuffer().spec_pixels(), DISPLAY_WIDTH as int, a, b)
                },
            blits@ == region_blits(regions@, DISPLAY_WIDTH as int),
            regions@.len() == 0 ==> blits@.len() == 0,
            final(self).spec_pointer() == old(self).spec_pointer(),
            final(self).spec_clock() == old(self).spec_clock(),
            final(self).spec_phase() == old(self).spec_phase(),
    {
        self.framebuffer.transcode_regions(regions)
    }

    /// The end of a cycle: with animations running the next cycle starts at
    /// once; without, the loop may wait in low power.
    pub fn idle_action(has_active_animations: bool) -> (r: IdleAction)
        ensures
            r == (if has_active_animations {
                IdleAction::Continue
            } else {
                IdleAction::Wait
            }),
    {
        if has_active_animations {
            IdleAction::Continue
        } else {
            IdleAction::Wait
        }
    }
}

} // verus!
