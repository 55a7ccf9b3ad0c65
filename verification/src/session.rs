use vstd::prelude::*;

verus! {

/// Nanoseconds since the Unix epoch of `-9999-01-01 00:00:00 UTC`, the earliest
/// instant that a date-time of the `time` crate holds in its default build.
pub open spec fn earliest_instant() -> int {
    -377_705_116_800_000_000_000
}

/// Nanoseconds since the Unix epoch of `9999-12-31 23:59:59.999999999 UTC`.
pub open spec fn latest_instant() -> int {
    253_402_300_799_999_999_999
}

/// An instant, in nanoseconds since the Unix epoch, within the years -9999 to 9999.
pub open spec fn representable_instant(t: int) -> bool {
    earliest_instant() <= t <= latest_instant()
}

/// A length of time in nanoseconds whose whole seconds fit in an `i64`, as a
/// `time::Duration` holds it.
pub open spec fn representable_duration(d: int) -> bool {
    -9_223_372_036_854_775_808_999_999_999 <= d <= 9_223_372_036_854_775_807_999_999_999
}

/// An instant moved into the range of date-times: the earliest or the latest
/// instant where it lies before or after it.
pub open spec fn clamp_instant(t: int) -> int {
    if t < earliest_instant() {
        earliest_instant()
    } else if t > latest_instant() {
        latest_instant()
    } else {
        t
    }
}

/// The instant, in nanoseconds since the Unix epoch, that
/// `OffsetDateTime::saturating_add` gives for the UTC date-time at `t` and a
/// duration of `d` nanoseconds: `t + d`, clamped to the range of date-times.
pub open spec fn datetime_saturating_add(t: int, d: int) -> int {
    clamp_instant(t + d)
}

/// The instant that `OffsetDateTime::saturating_sub` gives for the UTC
/// date-time at `t` and a duration of `d` nanoseconds: `t - d`, clamped to the
/// range of date-times.
pub open spec fn datetime_saturating_sub(t: int, d: int) -> int {
    clamp_instant(t - d)
}

/// Calls `time::OffsetDateTime::saturating_add` on the UTC date-time at `t`
/// and the duration of `d` nanoseconds. Claimed: the result is `t + d` where
/// that is a date-time, else the earliest or latest date-time on the side of
/// `d` (`checked_add` fails exactly when the sum leaves the range).
#[verifier::external_body]
pub(crate) fn saturating_add(t: i128, d: i128) -> (r: i128)
    requires
        representable_instant(t as int),
        representable_duration(d as int),
    ensures
        r == datetime_saturating_add(t as int, d as int),
{
    let start = time::OffsetDateTime::from_unix_timestamp_nanos(t).unwrap();
    start.saturating_add(time::Duration::nanoseconds_i128(d)).unix_timestamp_nanos()
}

/// Calls `time::OffsetDateTime::saturating_sub` on the UTC date-time at `t`
/// and the duration of `d` nanoseconds. Claimed: the result is `t - d` where
/// that is a date-time, else the earliest or latest date-time on the side of
/// `-d`.
#[verifier::external_body]
pub(crate) fn saturating_sub(t: i128, d: i128) -> (r: i128)
    requires
        representable_instant(t as int),
        representable_duration(d as int),
    ensures
        r == datetime_saturating_sub(t as int, d as int),
{
    let start = time::OffsetDateTime::from_unix_timestamp_nanos(t).unwrap();
    start.saturating_sub(time::Duration::nanoseconds_i128(d)).unix_timestamp_nanos()
}

/// When a session expires: at the end of the browser session, after a
/// duration (in nanoseconds) without activity, or at an instant (in
/// nanoseconds since the Unix epoch).
#[derive(PartialEq, Eq, Structural, Clone, Copy, Debug)]
pub enum SessionExpiry {
    OnSessionEnd,
    OnInactivity(i128),
    AtDateTime(i128),
}

/// Durations, in nanoseconds, that govern how long sessions last.
#[derive(Clone, Copy, Debug)]
pub struct SessionExpiryConfig {
    /// Expire on inactivity after expiry on default
    pub expiry: i128,
    /// if remember me option is on allow long long sessions
    /// Switch to on inactivity after max_age_term_expiry
    pub max_age_term_expiry: i128,
    /// time interval to check for to update expiry to prevent
    /// too many database writes
    /// needs to be smaller than expiry
    pub on_activity_check: i128,
}

/// Three hours, sixty days and one hour, in nanoseconds.
pub open spec fn default_expiry_config() -> SessionExpiryConfig {
    SessionExpiryConfig {
        expiry: 10_800_000_000_000,
        max_age_term_expiry: 5_184_000_000_000_000,
        on_activity_check: 3_600_000_000_000,
    }
}

impl Default for SessionExpiryConfig {
    fn default() -> (r: Self)
        ensures
            r == default_expiry_config(),
    {
        SessionExpiryConfig {
            expiry: 10_800_000_000_000,
            max_age_term_expiry: 5_184_000_000_000_000,
            on_activity_check: 3_600_000_000_000,
        }
    }
}

/// A configuration whose durations the `time` crate can hold.
pub open spec fn config_representable(c: SessionExpiryConfig) -> bool {
    representable_duration(c.expiry as int) && representable_duration(c.max_age_term_expiry as int)
        && representable_duration(c.on_activity_check as int)
}

/// What a session update does: whether it records the present as the last
/// update and cycles the session id, and the expiry it stores and sets, if any.
#[derive(PartialEq, Eq, Structural, Clone, Copy, Debug)]
pub struct ExpiryUpdate {
    pub refresh: bool,
    pub new_expiry: Option<SessionExpiry>,
}

/// The update decided from the last update, the stored expiry, the instant
/// before which the last update counts as stale, the instant before which a
/// fixed expiry counts as near, and the configured inactivity duration.
pub open spec fn refresh_decision_spec(
    last_updated: i128,
    expiry: SessionExpiry,
    stale_before: i128,
    near_before: i128,
    inactivity: i128,
) -> ExpiryUpdate {
    if last_updated <= stale_before {
        ExpiryUpdate {
            refresh: true,
            new_expiry: match expiry {
                SessionExpiry::OnInactivity(d) => Some(SessionExpiry::OnInactivity(d)),
                SessionExpiry::AtDateTime(at) => if at < near_before {
                    Some(SessionExpiry::OnInactivity(inactivity))
                } else {
                    None
                },
                SessionExpiry::OnSessionEnd => None,
            },
        }
    } else {
        ExpiryUpdate { refresh: false, new_expiry: None }
    }
}

/// Decides a session update once the thresholds are known: a session last
/// updated before `stale_before` is refreshed; an inactivity expiry is stored
/// again, and a fixed expiry before `near_before` becomes an inactivity expiry
/// of `inactivity`, so that users are not logged out in the middle of their work.
pub fn refresh_decision(
    last_updated: i128,
    expiry: SessionExpiry,
    stale_before: i128,
    near_before: i128,
    inactivity: i128,
) -> (r: ExpiryUpdate)
    ensures
        r == refresh_decision_spec(last_updated, expiry, stale_before, near_before, inactivity),
{
    if last_updated <= stale_before {
        let new_expiry = match expiry {
            SessionExpiry::OnInactivity(d) => Some(SessionExpiry::OnInactivity(d)),
            SessionExpiry::AtDateTime(at) => {
                if at < near_before {
                    Some(SessionExpiry::OnInactivity(inactivity))
                } else {
                    None
                }
            },
            SessionExpiry::OnSessionEnd => None,
        };
        ExpiryUpdate { refresh: true, new_expiry }
    } else {
        ExpiryUpdate { refresh: false, new_expiry: None }
    }
}

/// The stored expiry, or an inactivity expiry of the configured length.
pub open spec fn effective_expiry(stored: Option<SessionExpiry>, config: SessionExpiryConfig) -> SessionExpiry {
    match stored {
        Some(e) => e,
        None => SessionExpiry::OnInactivity(config.expiry),
    }
}

/// The update of a session at `now` from what it stores.
pub open spec fn session_update_spec(
    last_updated: Option<i128>,
    stored_expiry: Option<SessionExpiry>,
    now: i128,
    config: SessionExpiryConfig,
) -> ExpiryUpdate {
    let last = match last_updated {
        Some(t) => t as int,
        None => datetime_saturating_sub(now as int, config.expiry as int),
    };
    let expiry = effective_expiry(stored_expiry, config);
    if last <= datetime_saturating_sub(now as int, config.on_activity_check as int) {
        ExpiryUpdate {
            refresh: true,
            new_expiry: match expiry {
                SessionExpiry::OnInactivity(d) => Some(SessionExpiry::OnInactivity(d)),
                SessionExpiry::AtDateTime(at) => if at < datetime_saturating_add(now as int, config.expiry as int) {
                    Some(SessionExpiry::OnInactivity(config.expiry))
                } else {
                    None
                },
                SessionExpiry::OnSessionEnd => None,
            },
        }
    } else {
        ExpiryUpdate { refresh: false, new_expiry: None }
    }
}

/// Decides how to update a session's expiry at `now`, from the stored instant
/// of its last update (if none, `now` less the inactivity expiry) and its
/// stored expiry (if none, the configured inactivity expiry).
pub fn session_update(
    last_updated: Option<i128>,
    stored_expiry: Option<SessionExpiry>,
    now: i128,
    config: SessionExpiryConfig,
) -> (r: ExpiryUpdate)
    requires
        representable_instant(now as int),
        config_representable(config),
    ensures
        r == session_update_spec(last_updated, stored_expiry, now, config),
        r.refresh ==> (last_updated matches Some(t) ==> (config.on_activity_check >= 0
            && representable_instant(now - config.on_activity_check) ==> t <= now - config.on_activity_check)),
        !r.refresh ==> r.new_expiry is None,
{
    let last = match last_updated {
        Some(t) => t,
        None => saturating_sub(now, config.expiry),
    };
    let expiry = match stored_expiry {
        Some(e) => e,
        None => SessionExpiry::OnInactivity(config.expiry),
    };
    let stale_before = saturating_sub(now, config.on_activity_check);
    let near_before = saturating_add(now, config.expiry);
    refresh_decision(last, expiry, stale_before, near_before, config.expiry)
}

/// The expiry set on a modified session after a response: the stored one, or
/// the configured inactivity expiry.
pub fn expiry_after_response(stored_expiry: Option<SessionExpiry>, config: SessionExpiryConfig) -> (r: SessionExpiry)
    ensures
        r == effective_expiry(stored_expiry, config),
{
    match stored_expiry {
        Some(e) => e,
        None => SessionExpiry::OnInactivity(config.expiry),
    }
}

/// The expiry of a long-term ("remember me") session started at `now`.
pub open spec fn long_term_expiry_spec(now: i128, config: SessionExpiryConfig) -> SessionExpiry {
    SessionExpiry::AtDateTime(datetime_saturating_add(now as int, config.max_age_term_expiry as int) as i128)
}

/// The expiry that makes a session long-term: a fixed instant
/// `max_age_term_expiry` after `now`.
pub fn long_term_expiry(now: i128, config: SessionExpiryConfig) -> (r: SessionExpiry)
    requires
        representable_instant(now as int),
        config_representable(config),
    ensures
        r == long_term_expiry_spec(now, config),
{
    SessionExpiry::AtDateTime(saturating_add(now, config.max_age_term_expiry))
}

/// A long-term session whose fixed expiry lies at least the inactivity
/// expiry ahead of an update keeps its expiry: the update stores no new one.
pub proof fn law_long_session_kept_while_far(
    started: i128,
    last_updated: Option<i128>,
    now: i128,
    config: SessionExpiryConfig,
)
    requires
        long_term_expiry_spec(started, config) matches SessionExpiry::AtDateTime(at)
            && at >= datetime_saturating_add(now as int, config.expiry as int),
    ensures
        session_update_spec(last_updated, Some(long_term_expiry_spec(started, config)), now, config).new_expiry is None,
{
}

/// If a long session expires, it becomes an inactivity session, so users are
/// not kicked out in the middle of their work: an update with a fixed expiry
/// before `now + expiry` stores the configured inactivity expiry.
pub proof fn law_near_long_session_becomes_inactivity(
    last_updated: Option<i128>,
    at: i128,
    now: i128,
    config: SessionExpiryConfig,
)
    requires
        session_update_spec(last_updated, Some(SessionExpiry::AtDateTime(at)), now, config).refresh,
        (at as int) < datetime_saturating_add(now as int, config.expiry as int),
    ensures
        session_update_spec(last_updated, Some(SessionExpiry::AtDateTime(at)), now, config).new_expiry
            == Some(SessionExpiry::OnInactivity(config.expiry)),
{
}

/// An update never changes the duration of an inactivity expiry; it stores it
/// again when it refreshes the session.
pub proof fn law_inactivity_expiry_unchanged(last_updated: Option<i128>, d: i128, now: i128, config: SessionExpiryConfig)
    ensures
        ({
            let u = session_update_spec(last_updated, Some(SessionExpiry::OnInactivity(d)), now, config);
            u.refresh ==> u.new_expiry == Some(SessionExpiry::OnInactivity(d))
        }),
{
}

/// A session updated more recently than the activity-check interval is left
/// alone, which keeps database writes rare.
pub proof fn law_recent_update_not_refreshed(
    last_updated: i128,
    stored: Option<SessionExpiry>,
    now: i128,
    config: SessionExpiryConfig,
)
    requires
        last_updated > datetime_saturating_sub(now as int, config.on_activity_check as int),
    ensures
        session_update_spec(Some(last_updated), stored, now, config)
            == (ExpiryUpdate { refresh: false, new_expiry: None }),
{
}

/// The default activity-check interval is smaller than the inactivity expiry,
/// as the configuration requires.
pub proof fn law_default_check_shorter_than_expiry()
    ensures
        default_expiry_config().on_activity_check < default_expiry_config().expiry,
        config_representable(default_expiry_config()),
{
}

} // verus!
