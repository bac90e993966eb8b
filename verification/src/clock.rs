use vstd::prelude::*;

verus! {

/// Calls `SystemTime::now().duration_since(UNIX_EPOCH)` and gives the duration as its whole
/// seconds and the nanoseconds past the last whole second (`as_secs`, `subsec_nanos`), or
/// `None` when the clock reads earlier than the epoch (the call's `Err`). The time itself is
/// not claimed; only that the nanoseconds stay below one second, as `subsec_nanos` documents.
#[verifier::external_body]
pub(crate) fn time_since_epoch() -> (r: Option<(u64, u32)>)
    ensures
        r matches Some((_, nanos)) ==> nanos < 1_000_000_000,
{
    match std::time::SystemTime::now().duration_since(std::time::UNIX_EPOCH) {
        Ok(d) => Some((d.as_secs(), d.subsec_nanos())),
        Err(_) => None,
    }
}

/// The RFC 3339 text chrono writes for the UTC time `secs` seconds and `nanos` nanoseconds
/// after the Unix epoch.
pub uninterp spec fn rfc3339_utc(secs: i64, nanos: u32) -> Seq<char>;

/// `t` ends in the UTC offset as chrono writes it in RFC 3339, `+00:00`.
pub open spec fn ends_in_utc_offset(t: Seq<char>) -> bool {
    &&& t.len() >= 6
    &&& t.subrange(t.len() - 6, t.len() as int) == seq!['+', '0', '0', ':', '0', '0']
}

/// Calls `chrono::DateTime::<Utc>::from_timestamp(secs, nanos)` and, when it gives a time,
/// that time's `to_rfc3339()`. Claimed, from chrono's source: the text is a function of the
/// two numbers, named `rfc3339_utc`; it is at least 25 characters (date, `T`, time to the
/// second, offset) and ends in `+00:00`, the offset chrono writes for UTC; and the time is
/// given for every instant from the epoch to 8 * 10^12 seconds after it (past the year
/// 250000, below chrono's last year) with fewer than 10^9 nanoseconds. Outside that range
/// nothing is claimed of when `from_timestamp` gives `None`.
#[verifier::external_body]
pub(crate) fn rfc3339_utc_text(secs: i64, nanos: u32) -> (r: Option<String>)
    ensures
        0 <= secs <= 8_000_000_000_000 && nanos < 1_000_000_000 ==> r is Some,
        r matches Some(t) ==> {
            &&& t@ == rfc3339_utc(secs, nanos)
            &&& t@.len() >= 25
            &&& ends_in_utc_offset(t@)
        },
{
    match chrono::DateTime::<chrono::Utc>::from_timestamp(secs, nanos) {
        Some(d) => Some(d.to_rfc3339()),
        None => None,
    }
}

} // verus!
