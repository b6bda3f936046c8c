use louis_token::flag::AvailabilityFlag;
use louis_token::flag::ThreadUnsafetyToken;

#[test]
fn fresh_flag_grants() {
    let mut flag = AvailabilityFlag::new();
    let token = ThreadUnsafetyToken::take(&mut flag);
    assert!(token.is_some());
}

#[test]
fn no_double_grant() {
    let mut flag = AvailabilityFlag::new();
    let first = ThreadUnsafetyToken::take(&mut flag);
    assert!(first.is_some());
    let second = ThreadUnsafetyToken::take(&mut flag);
    assert!(second.is_none());
}

#[test]
fn reacquire_after_release() {
    let mut flag = AvailabilityFlag::new();
    let token = ThreadUnsafetyToken::take(&mut flag).unwrap();
    assert!(token.release(&mut flag));
    let again = ThreadUnsafetyToken::take(&mut flag);
    assert!(again.is_some());
}

#[test]
fn two_requesters_trace() {
    // Thread A acquires (succeeds), thread B acquires (fails), A releases,
    // B acquires (succeeds), B releases: the trace of outcomes is
    // [success, empty, success].
    let mut flag = AvailabilityFlag::new();
    let mut outcomes: Vec<bool> = Vec::new();

    let a1 = ThreadUnsafetyToken::take(&mut flag);
    outcomes.push(a1.is_some());
    let b_denied = ThreadUnsafetyToken::take(&mut flag);
    outcomes.push(b_denied.is_some());
    assert!(a1.unwrap().release(&mut flag));
    let b1 = ThreadUnsafetyToken::take(&mut flag);
    outcomes.push(b1.is_some());
    assert!(b1.unwrap().release(&mut flag));

    assert_eq!(outcomes, vec![true, false, true]);
}

#[test]
fn repeated_acquire_release() {
    let mut flag = AvailabilityFlag::new();
    for _ in 0..1000 {
        let token = ThreadUnsafetyToken::take(&mut flag);
        assert!(token.is_some());
        assert!(token.unwrap().release(&mut flag));
    }
}

#[test]
fn release_reports_corruption() {
    // Force the flag to `available` while a token is still alive: take the
    // token from one flag and return it to a fresh, still-available one.
    // The release must report the defect rather than succeed silently.
    let mut held_flag = AvailabilityFlag::new();
    let token = ThreadUnsafetyToken::take(&mut held_flag).unwrap();
    let mut available_flag = AvailabilityFlag::new();
    assert!(!token.release(&mut available_flag));
}

#[test]
fn denied_acquire_leaves_flag_held() {
    let mut flag = AvailabilityFlag::new();
    let token = ThreadUnsafetyToken::take(&mut flag).unwrap();
    let denied = ThreadUnsafetyToken::take(&mut flag);
    assert!(denied.is_none());
    // The failed acquire changed nothing: the held token still releases
    // lawfully, and the flag is available again afterwards.
    assert!(token.release(&mut flag));
    assert!(ThreadUnsafetyToken::take(&mut flag).is_some());
}
