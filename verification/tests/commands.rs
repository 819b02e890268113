use battery_health::commands::{decide_request, RequestAction, RequestMethod};

#[test]
fn reset_needs_no_form() {
    assert_eq!(decide_request(RequestMethod::RESET, ""), RequestAction::Reset);
    assert!(!RequestMethod::RESET.needs_content());
    assert!(RequestMethod::CHANGE_V.needs_content());
    assert!(RequestMethod::CHANGE_T.needs_content());
}

#[test]
fn voltage_bounds() {
    assert_eq!(
        decide_request(RequestMethod::CHANGE_V, "vmin=3.3&vmax=4.2"),
        RequestAction::SetVoltage { vmin: 33, vmax: 42 }
    );
    assert_eq!(
        decide_request(RequestMethod::CHANGE_V, "vmax=4.2&vmin=3.0"),
        RequestAction::SetVoltage { vmin: 30, vmax: 42 }
    );
    assert_eq!(decide_request(RequestMethod::CHANGE_V, "vmin=3.3"), RequestAction::Ignore);
    assert_eq!(decide_request(RequestMethod::CHANGE_V, "vmin=x&vmax=4.2"), RequestAction::Ignore);
    assert_eq!(decide_request(RequestMethod::CHANGE_V, "vmin=3.3&vmax=-4"), RequestAction::Ignore);
}

#[test]
fn sampling_period() {
    assert_eq!(decide_request(RequestMethod::CHANGE_T, "time=15"), RequestAction::SetTime(15));
    assert_eq!(decide_request(RequestMethod::CHANGE_T, "time=255"), RequestAction::SetTime(255));
    assert_eq!(decide_request(RequestMethod::CHANGE_T, "time=256"), RequestAction::Ignore);
    assert_eq!(decide_request(RequestMethod::CHANGE_T, "time=1.5"), RequestAction::Ignore);
    assert_eq!(decide_request(RequestMethod::CHANGE_T, "vmin=1"), RequestAction::Ignore);
}
