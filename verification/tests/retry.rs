use p2p_chat::retry::{
    after_failure, open_policy, stop_db, write_policy, CloseStep, RetryPolicy, RetryStep,
    CLOSE_POLL_MS,
};

#[test]
fn opening_is_tried_once_more_after_ten_seconds() {
    let policy = open_policy();
    assert_eq!(policy, RetryPolicy { retries: 1, delay_ms: 10_000 });
    assert_eq!(after_failure(&policy, 1), RetryStep::Wait { delay_ms: 10_000 });
    assert_eq!(after_failure(&policy, 2), RetryStep::GiveUp);
}

#[test]
fn writing_is_tried_once_more_after_half_a_second() {
    let policy = write_policy();
    assert_eq!(policy, RetryPolicy { retries: 1, delay_ms: 500 });
    assert_eq!(after_failure(&policy, 1), RetryStep::Wait { delay_ms: 500 });
    assert_eq!(after_failure(&policy, 2), RetryStep::GiveUp);
    assert_eq!(after_failure(&policy, 3), RetryStep::GiveUp);
}

#[test]
fn a_policy_without_retries_gives_up_at_once() {
    let policy = RetryPolicy { retries: 0, delay_ms: 1 };
    assert_eq!(after_failure(&policy, 1), RetryStep::GiveUp);
}

#[test]
fn a_policy_with_more_retries_waits_longer() {
    let policy = RetryPolicy { retries: 3, delay_ms: 7 };
    assert_eq!(after_failure(&policy, 3), RetryStep::Wait { delay_ms: 7 });
    assert_eq!(after_failure(&policy, 4), RetryStep::GiveUp);
    assert_eq!(after_failure(&policy, u32::MAX), RetryStep::GiveUp);
}

#[test]
fn a_busy_store_is_not_closed() {
    assert_eq!(stop_db(true), CloseStep::Wait { delay_ms: 1000 });
    assert_eq!(CLOSE_POLL_MS, 1000);
}

#[test]
fn an_idle_store_is_closed() {
    assert_eq!(stop_db(false), CloseStep::Finalize);
}

#[test]
fn closing_polls_until_the_store_is_idle() {
    let reports = [true, true, true, false];
    let mut waits = 0;
    let mut closed = false;
    for busy in reports {
        match stop_db(busy) {
            CloseStep::Wait { delay_ms } => {
                assert_eq!(delay_ms, 1000);
                waits += 1;
            }
            CloseStep::Finalize => {
                closed = true;
                break;
            }
        }
    }
    assert!(closed);
    assert_eq!(waits, 3);
}
