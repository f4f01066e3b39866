use vstd::prelude::*;

verus! {

/// One read of the touch controller: the first contact point, the number of
/// contact points, and whether the controller reports the panel as pressed.
#[derive(Clone, Copy, Debug, PartialEq, Eq, Structural)]
pub struct TouchSample {
    pub x: i32,
    pub y: i32,
    pub pressed: bool,
    pub count: u8,
}

impl TouchSample {
    /// The sample that a controller read yields: none when the read failed
    /// or reported no contact point, else the first point as read.
    pub fn from_controller(read_ok: bool, x: i32, y: i32, count: u8, pressed: bool) -> (r: Option<
        TouchSample,
    >)
        ensures
            r == (if read_ok && count > 0 {
                Some(TouchSample { x, y, pressed, count })
            } else {
                None
            }),
    {
        if read_ok && count > 0 {
            Some(TouchSample { x, y, pressed, count })
        } else {
            None
        }
    }
}

/// A position in the UI's logical coordinates; the panel maps one to one.
#[derive(Clone, Copy, Debug, PartialEq, Eq, Structural)]
pub struct LogicalPoint {
    pub x: i32,
    pub y: i32,
}

/// A pointer event for the UI engine.
#[derive(Clone, Copy, Debug, PartialEq, Eq, Structural)]
pub enum PointerEvent {
    Moved(LogicalPoint),
    Pressed(LogicalPoint),
    Released(LogicalPoint),
    Exited,
}

/// The pointer as the UI engine has been told of it.
#[derive(Clone, Copy, Debug, PartialEq, Eq, Structural)]
pub struct PointerState {
    pub last_position: LogicalPoint,
    pub is_down: bool,
}

/// Whether a sample reports a pressed panel.
pub open spec fn is_press(sample: Option<TouchSample>) -> bool {
    match sample {
        Some(t) => t.pressed,
        None => false,
    }
}

/// The logical position of a sample.
pub open spec fn position_of(t: TouchSample) -> LogicalPoint {
    LogicalPoint { x: t.x, y: t.y }
}

/// The state after `sample` in state `s`.
pub open spec fn next_state(s: PointerState, sample: Option<TouchSample>) -> PointerState {
    match sample {
        Some(t) if t.pressed => PointerState { last_position: position_of(t), is_down: true },
        _ => PointerState { last_position: s.last_position, is_down: false },
    }
}

/// The events that `sample` gives in state `s`: a press moves the pointer
/// and, coming from up, presses it; anything else, coming from down,
/// releases the pointer where it was and lets it leave.
pub open spec fn events_of(s: PointerState, sample: Option<TouchSample>) -> Seq<PointerEvent> {
    match sample {
        Some(t) if t.pressed => if s.is_down {
            seq![PointerEvent::Moved(position_of(t))]
        } else {
            seq![PointerEvent::Moved(position_of(t)), PointerEvent::Pressed(position_of(t))]
        },
        _ => if s.is_down {
            seq![PointerEvent::Released(s.last_position), PointerEvent::Exited]
        } else {
            seq![]
        },
    }
}

impl PointerState {
    /// The pointer at the origin, up.
    pub open spec fn new_spec() -> PointerState {
        PointerState { last_position: LogicalPoint { x: 0, y: 0 }, is_down: false }
    }

    /// The pointer at the origin, up.
    pub fn new() -> (r: PointerState)
        ensures
            r == PointerState::new_spec(),
    {
        PointerState { last_position: LogicalPoint { x: 0, y: 0 }, is_down: false }
    }

    /// Translates one touch sample (none: no contact this cycle) into the
    /// pointer events to deliver, in order, and updates the state.
    pub fn handle_sample(&mut self, sample: Option<TouchSample>) -> (events: Vec<PointerEvent>)
        ensures
            *final(self) == next_state(*old(self), sample),
            events@ == events_of(*old(self), sample),
    {
        let mut events: Vec<PointerEvent> = Vec::new();
        match sample {
            Some(t) if t.pressed => {
                let p = LogicalPoint { x: t.x, y: t.y };
                self.last_position = p;
                events.push(PointerEvent::Moved(p));
                if !self.is_down {
                    events.push(PointerEvent::Pressed(p));
                }
                self.is_down = true;
            },
            _ => {
                if self.is_down {
                    events.push(PointerEvent::Released(self.last_position));
                    events.push(PointerEvent::Exited);
                    self.is_down = false;
                }
            },
        }
        assert(events@ =~= events_of(*old(self), sample));
        events
    }
}

/// Without contact the pointer stays up and nothing is reported.
pub proof fn lemma_no_contact_when_up(s: PointerState, sample: Option<TouchSample>)
    requires
        !s.is_down,
        !is_press(sample),
    ensures
        events_of(s, sample) == Seq::<PointerEvent>::empty(),
        next_state(s, sample) == s,
{
    assert(events_of(s, sample) =~= Seq::<PointerEvent>::empty());
}

/// A press while the pointer is down only moves it: no second press.
pub proof fn lemma_no_press_while_down(s: PointerState, t: TouchSample)
    requires
        s.is_down,
        t.pressed,
    ensures
        events_of(s, Some(t)) == seq![PointerEvent::Moved(position_of(t))],
        next_state(s, Some(t)).is_down,
{
}

/// Two presses at the same point, coming from up, press the pointer once:
/// the second only moves it.
pub proof fn lemma_repeated_press(s: PointerState, t: TouchSample)
    requires
        !s.is_down,
        t.pressed,
    ensures
        events_of(s, Some(t)) + events_of(next_state(s, Some(t)), Some(t)) == seq![
            PointerEvent::Moved(position_of(t)),
            PointerEvent::Pressed(position_of(t)),
            PointerEvent::Moved(position_of(t)),
        ],
        events_of(next_state(s, Some(t)), Some(t)) == seq![PointerEvent::Moved(position_of(t))],
{
    assert(events_of(s, Some(t)) + events_of(next_state(s, Some(t)), Some(t)) =~= seq![
        PointerEvent::Moved(position_of(t)),
        PointerEvent::Pressed(position_of(t)),
        PointerEvent::Moved(position_of(t)),
    ]);
}

/// The pointer goes down only through a press and up only through a
/// release: a `Pressed` event comes exactly when an up pointer is pressed,
/// a `Released` exactly when a down pointer is let go.
pub proof fn lemma_press_release_alternate(s: PointerState, sample: Option<TouchSample>)
    ensures
        events_of(s, sample).contains(PointerEvent::Pressed(next_state(s, sample).last_position))
            <==> (!s.is_down && next_state(s, sample).is_down),
        events_of(s, sample).contains(PointerEvent::Released(s.last_position)) <==> (s.is_down
            && !next_state(s, sample).is_down),
{
    let e = events_of(s, sample);
    let n = next_state(s, sample);
    if is_press(sample) {
        if s.is_down {
            assert(!e.contains(PointerEvent::Pressed(n.last_position)));
            assert(!e.contains(PointerEvent::Released(s.last_position)));
        } else {
            assert(e[1] == PointerEvent::Pressed(n.last_position));
            assert(!e.contains(PointerEvent::Released(s.last_position)));
        }
    } else {
        if s.is_down {
            assert(e[0] == PointerEvent::Released(s.last_position));
            assert(!e.contains(PointerEvent::Pressed(n.last_position)));
        } else {
            assert(!e.contains(PointerEvent::Pressed(n.last_position)));
            assert(!e.contains(PointerEvent::Released(s.last_position)));
        }
    }
}

} // verus!
