//! Counting button presses.
//!
//! Pressing a button several times in quick succession is one gesture: the
//! counter gathers presses that land within one press interval of each
//! other, up to a configured maximum, and reports the total — together with
//! whether the final press was still held when the interval ran out. The
//! driver owns the button-event stream and the interval timer; every
//! counting decision is made here.

use crate::ButtonEvent;
use vstd::prelude::*;

verus! {

/// An event for a counted button press, up to the counter's maximum.
/// If the last press is held, the `Hold` variant is used.
#[derive(Debug, Clone, Copy, PartialEq, Eq, Structural)]
pub enum ButtonPressEvent {
    /// This many presses, the last one released in time.
    Press(u8),
    /// This many presses, with the final press still being held.
    Hold(u8),
}

/// One observation handed to [`ButtonPressCounter::step`] by the driver.
pub enum CounterEvent {
    /// The button stream yielded an event.
    Button(ButtonEvent),
    /// The press-interval timer elapsed.
    TimerElapsed,
    /// The button stream is exhausted.
    InputClosed,
}

/// What the driver must do after handing one event to the counter.
pub struct CounterStep {
    /// Report this counted gesture, if any.
    pub emit: Option<ButtonPressEvent>,
    /// Start the press-interval timer anew.
    pub arm_timer: bool,
    /// The stream of counted gestures ends; nothing more will be emitted.
    pub closed: bool,
}

/// The mathematical state of a press counter.
pub struct CounterModel {
    /// The greatest number of presses counted as one gesture.
    pub max: u8,
    /// Presses gathered in the gesture under way.
    pub count: u8,
    /// Whether the latest press has been released.
    pub released: bool,
    /// Whether the press-interval timer is running.
    pub armed: bool,
    /// Whether the button stream has ended.
    pub closed: bool,
}

/// Counter well-formedness: the maximum is positive and the gathered count
/// stays within it.
pub open spec fn counter_wf(m: CounterModel) -> bool {
    &&& m.max >= 1
    &&& 1 <= m.count <= m.max
}

/// The events a driver can hand to a counter in state `m`: nothing after
/// the stream ended, and the timer fires only while it is armed.
pub open spec fn counter_event_ok(m: CounterModel, e: CounterEvent) -> bool {
    &&& !m.closed
    &&& (e is TimerElapsed ==> m.armed)
}

/// A [`CounterStep`] that asks the driver for nothing.
pub open spec fn counter_quiet() -> CounterStep {
    CounterStep { emit: None, arm_timer: false, closed: false }
}

/// The complete transition function of the press counter.
pub open spec fn spec_counter_step(m: CounterModel, e: CounterEvent) -> (
    CounterModel,
    CounterStep,
) {
    match e {
        CounterEvent::InputClosed => (
            CounterModel { closed: true, ..m },
            CounterStep { emit: None, arm_timer: false, closed: true },
        ),
        CounterEvent::TimerElapsed => (
            CounterModel { armed: false, ..m },
            CounterStep {
                emit: Some(
                    if m.released {
                        ButtonPressEvent::Press(m.count)
                    } else {
                        ButtonPressEvent::Hold(m.count)
                    },
                ),
                arm_timer: false,
                closed: false,
            },
        ),
        CounterEvent::Button(b) => if !m.armed {
            // waiting for the first press of a gesture
            if b is Press {
                (
                    CounterModel { count: 1, released: false, armed: true, ..m },
                    CounterStep { emit: None, arm_timer: true, closed: false },
                )
            } else {
                (m, counter_quiet())
            }
        } else if m.released {
            // within a gesture, between presses
            if b is Press {
                let c = if m.count < m.max {
                    (m.count + 1) as u8
                } else {
                    m.count
                };
                if c == m.max {
                    (
                        CounterModel { count: c, armed: false, ..m },
                        CounterStep {
                            emit: Some(ButtonPressEvent::Press(c)),
                            arm_timer: false,
                            closed: false,
                        },
                    )
                } else {
                    (
                        CounterModel { count: c, released: false, ..m },
                        CounterStep { emit: None, arm_timer: true, closed: false },
                    )
                }
            } else {
                (m, counter_quiet())
            }
        } else {
            // within a gesture, button held down
            if b is Release {
                (CounterModel { released: true, ..m }, counter_quiet())
            } else {
                (m, counter_quiet())
            }
        },
    }
}

/// Counts how many times a button is pressed within one gesture, and
/// whether the gesture ends in a held press.
pub struct ButtonPressCounter {
    max: u8,
    count: u8,
    released: bool,
    armed: bool,
    closed: bool,
}

impl View for ButtonPressCounter {
    type V = CounterModel;

    closed spec fn view(&self) -> CounterModel {
        CounterModel {
            max: self.max,
            count: self.count,
            released: self.released,
            armed: self.armed,
            closed: self.closed,
        }
    }
}

impl ButtonPressCounter {
    /// A counter that gathers up to `max` presses into one gesture.
    pub fn new(max: u8) -> (r: Self)
        requires
            max >= 1,
        ensures
            r@ == (CounterModel { max, count: 1, released: false, armed: false, closed: false }),
            counter_wf(r@),
    {
        ButtonPressCounter { max, count: 1, released: false, armed: false, closed: false }
    }

    /// Feed one observation to the counter and learn what to do next.
    pub fn step(&mut self, event: CounterEvent) -> (r: CounterStep)
        requires
            counter_wf(old(self)@),
            counter_event_ok(old(self)@, event),
        ensures
            final(self)@ == spec_counter_step(old(self)@, event).0,
            r == spec_counter_step(old(self)@, event).1,
            counter_wf(final(self)@),
    {
        match event {
            CounterEvent::InputClosed => {
                self.closed = true;
                CounterStep { emit: None, arm_timer: false, closed: true }
            },
            CounterEvent::TimerElapsed => {
                self.armed = false;
                CounterStep {
                    emit: Some(
                        if self.released {
                            ButtonPressEvent::Press(self.count)
                        } else {
                            ButtonPressEvent::Hold(self.count)
                        },
                    ),
                    arm_timer: false,
                    closed: false,
                }
            },
            CounterEvent::Button(b) => {
                if !self.armed {
                    if matches!(b, ButtonEvent::Press) {
                        self.count = 1;
                        self.released = false;
                        self.armed = true;
                        CounterStep { emit: None, arm_timer: true, closed: false }
                    } else {
                        CounterStep { emit: None, arm_timer: false, closed: false }
                    }
                } else if self.released {
                    if matches!(b, ButtonEvent::Press) {
                        if self.count < self.max {
                            self.count = self.count + 1;
                        }
                        if self.count == self.max {
                            self.armed = false;
                            CounterStep {
                                emit: Some(ButtonPressEvent::Press(self.count)),
                                arm_timer: false,
                                closed: false,
                            }
                        } else {
                            self.released = false;
                            CounterStep { emit: None, arm_timer: true, closed: false }
                        }
                    } else {
                        CounterStep { emit: None, arm_timer: false, closed: false }
                    }
                } else {
                    if matches!(b, ButtonEvent::Release) {
                        self.released = true;
                    }
                    CounterStep { emit: None, arm_timer: false, closed: false }
                }
            },
        }
    }
}

/// Every reported gesture counts between one press and the configured
/// maximum, never zero and never more.
pub proof fn lemma_emitted_count_in_range(m: CounterModel, e: CounterEvent)
    requires
        counter_wf(m),
        counter_event_ok(m, e),
    ensures
        ({
            let emit = spec_counter_step(m, e).1.emit;
            &&& emit matches Some(ButtonPressEvent::Press(n)) ==> 1 <= n <= m.max
            &&& emit matches Some(ButtonPressEvent::Hold(n)) ==> 1 <= n <= m.max
        }),
{
}

} // verus!
