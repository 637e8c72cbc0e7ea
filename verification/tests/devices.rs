use home_control::automation::JobStream;
use home_control::button::{ButtonPressCounter, ButtonPressEvent, CounterEvent};
use home_control::device::CreateDeviceError;
use home_control::devices::{Mode, SubPub, Success, TemperatureUnit};
use home_control::manager::{DeviceManagerNotFound, Manager, UNMANAGED_MANAGER};
use home_control::{ButtonEvent, Changes, InputStreamClosed, SwitchState};

#[test]
fn switch_state_not_flips() {
    assert_eq!(SwitchState::On.not(), SwitchState::Off);
    assert_eq!(SwitchState::Off.not(), SwitchState::On);
    assert_eq!(SwitchState::On.not().not(), SwitchState::On);
}

#[test]
fn filter_changes_drops_repeats() {
    let mut changes = Changes::new();
    assert_eq!(changes.accept(SwitchState::On), Some(SwitchState::On));
    assert_eq!(changes.accept(SwitchState::On), None);
    assert_eq!(changes.accept(SwitchState::On), None);
    assert_eq!(changes.accept(SwitchState::Off), Some(SwitchState::Off));
    assert_eq!(changes.accept(SwitchState::On), Some(SwitchState::On));
}

#[test]
fn mode_transport_directions() {
    assert_eq!(Mode::Stream.sub_pub(), SubPub::SubOnly);
    assert_eq!(Mode::StreamGet.sub_pub(), SubPub::Both);
    assert_eq!(Mode::SetOnly.sub_pub(), SubPub::PubOnly);
    assert_eq!(Mode::StreamSet.sub_pub(), SubPub::Both);
    assert_eq!(Mode::StreamGetSet.sub_pub(), SubPub::Both);
    assert_eq!(Mode::SetToggle.sub_pub(), SubPub::PubOnly);
    assert_eq!(Mode::StreamGetSetToggle.sub_pub(), SubPub::Both);
}

#[test]
fn temperature_units_are_distinct() {
    assert_ne!(TemperatureUnit::Celsius, TemperatureUnit::Fahrenheit);
}

#[test]
fn success_reports_its_outcome() {
    assert!(Success::new(true).succeeded());
    assert!(!Success::new(false).succeeded());
}

#[test]
fn error_messages() {
    assert_eq!(DeviceManagerNotFound.message(), "Manager not registered");
    assert_eq!(InputStreamClosed.message(), "The input stream has closed");
}

#[test]
fn create_device_error_from_missing_manager() {
    let e = CreateDeviceError::from(DeviceManagerNotFound);
    assert!(e.is_manager_not_found());
    assert_eq!(e, CreateDeviceError::ManagerNotFound(DeviceManagerNotFound));
    let d = CreateDeviceError::Device(String::from("bulb rejected the request"));
    assert!(!d.is_manager_not_found());
}

#[test]
fn manager_registry_dedups_and_looks_up() {
    let manager = Manager::builder()
        .add_device_manager(7)
        .add_device_manager(9)
        .add_device_manager(7)
        .build();
    // the built-in manager for unmanaged devices always comes first
    assert_eq!(manager.manager_count(), 3);
    assert_eq!(manager.device_manager(UNMANAGED_MANAGER), Ok(0));
    assert_eq!(manager.device_manager(7), Ok(1));
    assert_eq!(manager.device_manager(9), Ok(2));
    // an error exactly when the manager was never added
    assert_eq!(manager.device_manager(8), Err(DeviceManagerNotFound));
}

#[test]
fn job_stream_numbers_jobs_in_order() {
    let mut jobs = JobStream::<&str>::new(String::from("toggle light"));
    assert_eq!(jobs.name(), "toggle light");
    let a = jobs.next_job(Some("press")).unwrap();
    assert_eq!(a.number, 0);
    assert_eq!(a.trigger, "press");
    let b = jobs.next_job(Some("press again")).unwrap();
    assert_eq!(b.number, 1);
    assert!(jobs.next_job(None).is_none());
}

#[test]
fn presses_counted_up_to_timer() {
    let mut counter = ButtonPressCounter::new(5);
    // one press, released, interval runs out: one counted press
    let r = counter.step(CounterEvent::Button(ButtonEvent::Press));
    assert!(r.arm_timer);
    assert!(r.emit.is_none());
    counter.step(CounterEvent::Button(ButtonEvent::Release));
    let r = counter.step(CounterEvent::TimerElapsed);
    assert_eq!(r.emit, Some(ButtonPressEvent::Press(1)));

    // a double press within the interval
    counter.step(CounterEvent::Button(ButtonEvent::Press));
    counter.step(CounterEvent::Button(ButtonEvent::Release));
    let r = counter.step(CounterEvent::Button(ButtonEvent::Press));
    assert!(r.arm_timer);
    counter.step(CounterEvent::Button(ButtonEvent::Release));
    let r = counter.step(CounterEvent::TimerElapsed);
    assert_eq!(r.emit, Some(ButtonPressEvent::Press(2)));
}

#[test]
fn held_press_is_reported_as_hold() {
    let mut counter = ButtonPressCounter::new(3);
    counter.step(CounterEvent::Button(ButtonEvent::Press));
    // never released: the interval runs out on a held button
    let r = counter.step(CounterEvent::TimerElapsed);
    assert_eq!(r.emit, Some(ButtonPressEvent::Hold(1)));
}

#[test]
fn reaching_the_maximum_emits_at_once() {
    let mut counter = ButtonPressCounter::new(2);
    counter.step(CounterEvent::Button(ButtonEvent::Press));
    counter.step(CounterEvent::Button(ButtonEvent::Release));
    let r = counter.step(CounterEvent::Button(ButtonEvent::Press));
    // the maximum is reached: no need to wait for the interval
    assert_eq!(r.emit, Some(ButtonPressEvent::Press(2)));
    assert!(!r.arm_timer);
}

#[test]
fn counter_ends_with_its_input() {
    let mut counter = ButtonPressCounter::new(2);
    let r = counter.step(CounterEvent::InputClosed);
    assert!(r.closed);
    assert!(r.emit.is_none());
}

#[test]
fn stray_events_are_ignored_while_waiting() {
    let mut counter = ButtonPressCounter::new(2);
    // releases and holds before any press do not start a gesture
    let r = counter.step(CounterEvent::Button(ButtonEvent::Release));
    assert!(!r.arm_timer);
    assert!(r.emit.is_none());
    let r = counter.step(CounterEvent::Button(ButtonEvent::Hold));
    assert!(!r.arm_timer);
    assert!(r.emit.is_none());
}
