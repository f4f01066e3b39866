//! Display-platform core for a single-panel microcontroller UI: pixel
//! transcoding, dirty-region blit planning, touch sampling and pointer-event
//! dispatch, a monotonic tick clock, and the decisions of the event loop.

pub mod clock;
pub mod framebuffer;
pub mod pixel;
pub mod platform;
pub mod touch;
pub mod ui_model;
