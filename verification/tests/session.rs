use photo_album::auth::{extended_expiry, CustomExpirySessionConfig};
use photo_album::session::{
    expiry_after_response, long_term_expiry, refresh_decision, session_update, ExpiryUpdate,
    SessionExpiry, SessionExpiryConfig,
};

const HOUR: i128 = 3_600_000_000_000;
const DAY: i128 = 24 * HOUR;
const LATEST: i128 = 253_402_300_799_999_999_999;
const EARLIEST: i128 = -377_705_116_800_000_000_000;

fn now() -> i128 {
    1_700_000_000_000_000_000
}

#[test]
fn default_session_config() {
    let c = SessionExpiryConfig::default();
    assert_eq!(c.expiry, 3 * HOUR);
    assert_eq!(c.max_age_term_expiry, 60 * DAY);
    assert_eq!(c.on_activity_check, HOUR);
    assert!(c.on_activity_check < c.expiry);
    let a = CustomExpirySessionConfig::default();
    assert_eq!((a.expiry, a.max_age_term_expiry, a.on_activity_check), (3 * HOUR, 60 * DAY, HOUR));
}

#[test]
fn stale_inactivity_session_is_refreshed() {
    let u = session_update(Some(now() - 2 * HOUR), None, now(), SessionExpiryConfig::default());
    assert_eq!(u, ExpiryUpdate { refresh: true, new_expiry: Some(SessionExpiry::OnInactivity(3 * HOUR)) });
}

#[test]
fn recent_session_is_left_alone() {
    for stored in [None, Some(SessionExpiry::OnSessionEnd), Some(SessionExpiry::AtDateTime(now() + HOUR))] {
        let u = session_update(Some(now() - HOUR / 2), stored, now(), SessionExpiryConfig::default());
        assert_eq!(u, ExpiryUpdate { refresh: false, new_expiry: None });
    }
}

#[test]
fn session_updated_exactly_at_check_interval_is_refreshed() {
    let u = session_update(Some(now() - HOUR), None, now(), SessionExpiryConfig::default());
    assert!(u.refresh);
}

#[test]
fn never_updated_session_counts_as_stale() {
    let u = session_update(None, Some(SessionExpiry::OnSessionEnd), now(), SessionExpiryConfig::default());
    assert_eq!(u, ExpiryUpdate { refresh: true, new_expiry: None });
}

#[test]
fn inactivity_duration_is_kept() {
    let u = session_update(None, Some(SessionExpiry::OnInactivity(7)), now(), SessionExpiryConfig::default());
    assert_eq!(u, ExpiryUpdate { refresh: true, new_expiry: Some(SessionExpiry::OnInactivity(7)) });
}

#[test]
fn far_long_term_session_is_kept() {
    let config = SessionExpiryConfig::default();
    let long = long_term_expiry(now() - 2 * HOUR, config);
    assert_eq!(long, SessionExpiry::AtDateTime(now() - 2 * HOUR + 60 * DAY));
    let u = session_update(Some(now() - 2 * HOUR), Some(long), now(), config);
    assert_eq!(u, ExpiryUpdate { refresh: true, new_expiry: None });
}

#[test]
fn near_long_term_session_becomes_inactivity() {
    let config = SessionExpiryConfig::default();
    let u = session_update(Some(now() - 2 * HOUR), Some(SessionExpiry::AtDateTime(now() + HOUR)), now(), config);
    assert_eq!(u, ExpiryUpdate { refresh: true, new_expiry: Some(SessionExpiry::OnInactivity(3 * HOUR)) });
    let edge = session_update(Some(now() - 2 * HOUR), Some(SessionExpiry::AtDateTime(now() + 3 * HOUR)), now(), config);
    assert_eq!(edge.new_expiry, None);
}

#[test]
fn long_term_expiry_saturates_at_latest_date() {
    let config = SessionExpiryConfig::default();
    assert_eq!(long_term_expiry(LATEST - DAY, config), SessionExpiry::AtDateTime(LATEST));
    assert_eq!(long_term_expiry(0, config), SessionExpiry::AtDateTime(60 * DAY));
}

#[test]
fn session_update_saturates_at_earliest_date() {
    let u = session_update(Some(EARLIEST), None, EARLIEST, SessionExpiryConfig::default());
    assert_eq!(u, ExpiryUpdate { refresh: true, new_expiry: Some(SessionExpiry::OnInactivity(3 * HOUR)) });
    let v = session_update(Some(EARLIEST + 1), None, EARLIEST, SessionExpiryConfig::default());
    assert_eq!(v.refresh, false);
}

#[test]
fn refresh_decision_cases() {
    assert_eq!(
        refresh_decision(5, SessionExpiry::AtDateTime(10), 5, 11, 3),
        ExpiryUpdate { refresh: true, new_expiry: Some(SessionExpiry::OnInactivity(3)) }
    );
    assert_eq!(
        refresh_decision(5, SessionExpiry::AtDateTime(11), 5, 11, 3),
        ExpiryUpdate { refresh: true, new_expiry: None }
    );
    assert_eq!(
        refresh_decision(6, SessionExpiry::OnInactivity(9), 5, 11, 3),
        ExpiryUpdate { refresh: false, new_expiry: None }
    );
}

#[test]
fn expiry_after_response_defaults_to_inactivity() {
    let c = SessionExpiryConfig::default();
    assert_eq!(expiry_after_response(None, c), SessionExpiry::OnInactivity(3 * HOUR));
    assert_eq!(expiry_after_response(Some(SessionExpiry::OnSessionEnd), c), SessionExpiry::OnSessionEnd);
}

#[test]
fn extended_expiry_switches_near_dates() {
    let c = CustomExpirySessionConfig::default();
    assert_eq!(extended_expiry(now() + HOUR, now(), c), Some(SessionExpiry::OnInactivity(3 * HOUR)));
    assert_eq!(extended_expiry(now() + 3 * HOUR, now(), c), None);
    assert_eq!(extended_expiry(now() + 30 * DAY, now(), c), None);
    assert_eq!(extended_expiry(LATEST, LATEST, c), None);
}
