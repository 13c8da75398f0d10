use vstd::prelude::*;
use std::time::Duration;

verus! {

/// A moment in UTC, as chrono's `DateTime<Utc>`: the time at which a trace or a suite
/// report was taken. The library only stores it; its contents are opaque here.
#[verifier::external_body]
#[derive(Debug)]
pub struct Timestamp(pub chrono::DateTime<chrono::Utc>);

impl Clone for Timestamp {
    /// Calls chrono's derived `Clone` for `DateTime`. Nothing is claimed: the value is
    /// opaque here.
    #[verifier::external_body]
    fn clone(&self) -> Self {
        Timestamp(self.0.clone())
    }
}

/// std derives `Clone` for the `Copy` type `Duration`: the clone is the same duration.
pub assume_specification[ <Duration as Clone>::clone ](d: &Duration) -> (r: Duration)
    ensures
        r == *d,
;

/// The duration of `secs` whole seconds: what `Duration::from_secs` returns.
pub uninterp spec fn duration_of_secs(secs: u64) -> Duration;

/// Calls `Duration::from_secs`. Claimed: the result is `duration_of_secs(secs)`.
#[verifier::external_body]
pub(crate) fn duration_from_secs(secs: u64) -> (d: Duration)
    ensures
        d == duration_of_secs(secs),
{
    Duration::from_secs(secs)
}

/// The `Debug` text of a duration (such as `60s` or `1.5ms`).
pub uninterp spec fn duration_debug_text(d: Duration) -> Seq<char>;

/// Formats a duration with its `Debug` impl from std. Claimed: the text is
/// `duration_debug_text(d)`, a function of the duration alone.
#[verifier::external_body]
pub(crate) fn duration_debug(d: &Duration) -> (r: String)
    ensures
        r@ == duration_debug_text(*d),
{
    format!("{:?}", d)
}

} // verus!
