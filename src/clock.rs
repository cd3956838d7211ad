//! Calendar time through chrono: instants are whole seconds since the Unix epoch, UTC.
use vstd::prelude::*;

verus! {

/// The first instant that renders in RFC 2822 form: 0000-01-01 00:00:00 UTC.
pub const MIN_RENDERABLE_SECS: i64 = -62167219200;

/// The last instant that renders in RFC 2822 form: 9999-12-31 23:59:59 UTC.
pub const MAX_RENDERABLE_SECS: i64 = 253402300799;

/// The RFC 2822 text (`Www, D Mmm YYYY HH:MM:SS +0000`) of the instant `secs`.
pub uninterp spec fn rfc2822_text(secs: int) -> Seq<char>;

/// The instant that the RFC 2822 text `s` denotes, if it parses.
pub uninterp spec fn rfc2822_secs(s: Seq<char>) -> Option<i64>;

/// Relies on chrono's `DateTime::<Utc>::to_rfc2822`: the text depends on the instant
/// alone, and years 0 through 9999 render without a panic.
#[verifier::external_body]
pub(crate) fn render_rfc2822(secs: i64) -> (r: String)
    requires
        MIN_RENDERABLE_SECS <= secs <= MAX_RENDERABLE_SECS,
    ensures
        r@ == rfc2822_text(secs as int),
{
    chrono::DateTime::from_timestamp(secs, 0).unwrap_or_default().to_rfc2822()
}

/// Relies on chrono's `DateTime::parse_from_rfc2822`, read back as seconds since
/// the Unix epoch: the result depends on the text alone.
#[verifier::external_body]
pub(crate) fn parse_rfc2822(s: &str) -> (r: Option<i64>)
    ensures
        r == rfc2822_secs(s@),
{
    chrono::DateTime::parse_from_rfc2822(s).ok().map(|d| d.timestamp())
}

} // verus!
