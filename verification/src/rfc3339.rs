use vstd::prelude::*;

verus! {

/// What parsing a text as an RFC 3339 date-time yields: nothing when
/// the text is not in that format, else the seconds since the Unix
/// epoch of the instant it names. The outcome depends on the text
/// alone.
pub uninterp spec fn rfc3339_epoch(s: Seq<char>) -> Option<i64>;

/// Relies on time::OffsetDateTime::parse with the Rfc3339 well-known
/// format, then OffsetDateTime::unix_timestamp. The format admits
/// exactly four year digits and an offset below one day, so every
/// accepted instant lies within a day of the years 0000 through 9999;
/// the bound below restates that.
#[verifier::external_body]
pub fn parse_rfc3339_secs(s: &str) -> (r: Option<i64>)
    ensures
        r == rfc3339_epoch(s@),
        r is Some ==> -62_167_305_600 <= r->0 <= 253_402_387_200,
{
    match time::OffsetDateTime::parse(s, &time::format_description::well_known::Rfc3339) {
        Ok(t) => Some(t.unix_timestamp()),
        Err(_) => None,
    }
}

} // verus!
