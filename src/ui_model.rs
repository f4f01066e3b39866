use vstd::prelude::*;

verus! {

/// The state behind the demo screen: a counter that a button raises.
#[derive(Clone, Copy, Debug, PartialEq, Eq, Structural)]
pub struct AppModel {
    pub counter: i32,
}

/// The demo application's state as it starts: the counter at zero.
pub fn create_slint_app() -> (r: AppModel)
    ensures
        r.counter == 0,
{
    AppModel { counter: 0 }
}

impl AppModel {
    /// The button's action: the counter goes up by one.
    pub fn request_increase_value(&mut self)
        requires
            old(self).counter < i32::MAX,
        ensures
            final(self).counter == old(self).counter + 1,
    {
        self.counter = self.counter + 1;
    }
}

/// What the sensor panel shows.
#[derive(Clone, Copy, Debug, PartialEq, Eq, Structural)]
pub enum SensorStatus {
    Valid,
    Error,
}

/// The status for the latest sensor reading: an error when there is none,
/// so that a missing reading never shows as stale data.
pub fn sensor_status<T>(reading: &Option<T>) -> (r: SensorStatus)
    ensures
        r == (if reading.is_some() {
            SensorStatus::Valid
        } else {
            SensorStatus::Error
        }),
{
    match reading {
        Some(_) => SensorStatus::Valid,
        None => SensorStatus::Error,
    }
}

} // verus!
