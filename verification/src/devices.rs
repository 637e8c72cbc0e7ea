//! The value vocabulary of the supported devices: the enumerations their
//! attributes range over, and how each attribute mode maps onto the
//! subscribe/publish transport underneath.
//!
//! The transport itself — device protocols, wire formats — belongs to the
//! device layer outside this crate; automations see only these plain values.

use crate::SwitchState;
use vstd::prelude::*;

verus! {

/// How a device attribute can be accessed.
#[derive(Debug, Clone, Copy, PartialEq, Eq, Structural)]
pub enum Mode {
    /// A stream of updates only.
    Stream,
    /// A stream of updates, and explicit reads.
    StreamGet,
    /// Writes only.
    SetOnly,
    /// A stream of updates, and writes.
    StreamSet,
    /// A stream of updates, explicit reads, and writes.
    StreamGetSet,
    /// Writes, and a toggle request.
    SetToggle,
    /// Everything: stream, reads, writes and toggle.
    StreamGetSetToggle,
}

/// Which directions of the underlying transport an attribute mode needs.
#[derive(Debug, Clone, Copy, PartialEq, Eq, Structural)]
pub enum SubPub {
    /// Only a subscription for updates.
    SubOnly,
    /// Only publishing of requests.
    PubOnly,
    /// Both a subscription and publishing.
    Both,
}

impl Mode {
    /// The transport directions this access mode needs: reading streams
    /// subscribe, writes and explicit reads publish requests.
    pub fn sub_pub(&self) -> (r: SubPub)
        ensures
            r == (match self {
                Mode::Stream => SubPub::SubOnly,
                Mode::StreamGet => SubPub::Both,
                Mode::SetOnly => SubPub::PubOnly,
                Mode::StreamSet => SubPub::Both,
                Mode::StreamGetSet => SubPub::Both,
                Mode::SetToggle => SubPub::PubOnly,
                Mode::StreamGetSetToggle => SubPub::Both,
            }),
    {
        match self {
            Mode::Stream => SubPub::SubOnly,
            Mode::StreamGet => SubPub::Both,
            Mode::SetOnly => SubPub::PubOnly,
            Mode::StreamSet => SubPub::Both,
            Mode::StreamGetSet => SubPub::Both,
            Mode::SetToggle => SubPub::PubOnly,
            Mode::StreamGetSetToggle => SubPub::Both,
        }
    }
}

/// A commonly used temperature unit, for human readability.
#[derive(Debug, Clone, Copy, PartialEq, Eq, Structural)]
pub enum TemperatureUnit {
    /// Degrees Celsius, the usual metric unit for temperature.
    Celsius,
    /// Degrees Fahrenheit, still reported by many devices.
    Fahrenheit,
}

/// An action from a rocker wall switch.
#[derive(Debug, Clone, Copy, PartialEq, Eq, Structural)]
pub enum Action {
    /// The button is released.
    Release,
    /// The button is held.
    Hold,
    /// The button is double pressed.
    Double,
    /// The button is pressed.
    Single,
    /// The button is released after being held.
    HoldRelease,
}

/// Determines the behaviour of a rocker wall switch.
#[derive(Debug, Clone, Copy, PartialEq, Eq, Structural)]
pub enum OperationMode {
    /// Relay actions from the rocker to the switch.
    ControlRelay,
    /// Do not relay actions; both can be used in automations instead.
    Decoupled,
}

/// The operational state of a roller shade driver.
#[derive(Debug, Clone, Copy, PartialEq, Eq, Structural)]
pub enum RollerShadeDriverState {
    /// The blinds are open.
    Open,
    /// The blinds are closed.
    Close,
}

/// A command that can be issued to control a roller shade driver.
#[derive(Debug, Clone, Copy, PartialEq, Eq, Structural)]
pub enum RollerShadeDriverStateCommand {
    /// Open the blinds.
    Open,
    /// Close the blinds.
    Close,
    /// Stop the motor.
    Stop,
}

/// The operational states of a motor that drives a roller shade.
#[derive(Debug, Clone, Copy, PartialEq, Eq, Structural)]
pub enum RollerShadeDriverMotorState {
    /// The blinds are closing.
    Closing,
    /// The blinds are opening.
    Opening,
    /// The blinds are stopped.
    Stopped,
    /// The blinds are stopped because something blocks them.
    Blocked,
}

/// The speed settings of a roller shade driver's motor.
#[derive(Debug, Clone, Copy, PartialEq, Eq, Structural)]
pub enum RollerShadeDriverMotorSpeed {
    /// Low speed.
    Low,
    /// Medium speed.
    Medium,
    /// High speed.
    High,
}

/// A light protocol response indicating success or failure.
#[derive(Debug, Clone, Copy, PartialEq, Eq, Structural)]
pub struct Success {
    success: bool,
}

impl Success {
    /// Wrap a reported outcome.
    pub fn new(success: bool) -> (r: Self)
        ensures
            r@ == success,
    {
        Success { success }
    }

    /// True when the device reported success.
    pub fn succeeded(&self) -> (r: bool)
        ensures
            r == self@,
    {
        self.success
    }
}

impl View for Success {
    type V = bool;

    closed spec fn view(&self) -> bool {
        self.success
    }
}

} // verus!
