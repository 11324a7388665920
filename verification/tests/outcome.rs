use systemctl::outcome::classify;
use systemctl::CtlError;
use systemctl::Outcome;

#[test]
fn code_zero_is_success() {
    assert_eq!(classify(Some(0)), Ok(Outcome::Success));
}

#[test]
fn codes_one_and_three_still_count_as_made() {
    assert_eq!(classify(Some(1)), Ok(Outcome::AbsentOrInactive));
    assert_eq!(classify(Some(3)), Ok(Outcome::AbsentOrInactive));
}

#[test]
fn code_four_is_permission_or_ambiguous() {
    assert_eq!(classify(Some(4)), Err(CtlError::PermissionOrAmbiguous));
    assert_ne!(classify(Some(4)), Err(CtlError::UnknownExitCode(4)));
}

#[test]
fn other_codes_are_carried() {
    for code in [2, 5, 127, 255, -1, i32::MAX, i32::MIN] {
        assert_eq!(classify(Some(code)), Err(CtlError::UnknownExitCode(code)));
    }
}

#[test]
fn no_code_is_death_by_signal() {
    assert_eq!(classify(None), Err(CtlError::KilledBySignal));
}
