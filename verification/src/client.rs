use vstd::prelude::*;
use vstd::string::StrSliceExecFns;
use vstd::string::StringExecFns;
use crate::config::{ClientConfig, ConfigError};

verus! {

/// A character that may stand in an HTTP header value: horizontal tab,
/// or anything above the control range. Control characters below the
/// space, and delete, are refused by the transport.
pub open spec fn header_value_char(c: char) -> bool {
    c == '\t' || (c as int >= 32 && c as int != 127)
}

/// A text every character of which may stand in a header value.
pub open spec fn valid_header_value(s: Seq<char>) -> bool {
    forall|i: int| 0 <= i < s.len() ==> header_value_char(#[trigger] s[i])
}

/// Checks a header value character by character.
pub fn check_header_value(s: &str) -> (r: bool)
    ensures
        r == valid_header_value(s@),
{
    let n = s.unicode_len();
    let mut i: usize = 0;
    while i < n
        invariant
            n == s@.len(),
            0 <= i <= n,
            forall|j: int| 0 <= j < i ==> header_value_char(#[trigger] s@[j]),
        decreases n - i,
    {
        let c = s.get_char(i);
        if !(c == '\t' || ((c as u32) >= 32 && (c as u32) != 127)) {
            return false;
        }
        i = i + 1;
    }
    true
}

/// The bearer authorization value for a token.
pub fn auth_header_value(token: &str) -> (r: String)
    ensures
        r@ == "Bearer "@ + token@,
{
    let mut v = "Bearer ".to_owned();
    v.append(token);
    v
}

/// The fixed headers every request carries: bearer authorization, the
/// provider's JSON media type, a client identifier, and the pinned API
/// version, in that order. Fails exactly when the authorization value
/// built from the token cannot stand in a header; the other three are
/// fixed literals.
pub fn header_pairs(c: &ClientConfig) -> (r: Result<Vec<(String, String)>, ConfigError>)
    ensures
        match r {
            Ok(hs) => {
                &&& valid_header_value("Bearer "@ + c.token@)
                &&& hs@.len() == 4
                &&& hs@[0].0@ == "Authorization"@ && hs@[0].1@ == "Bearer "@ + c.token@
                &&& hs@[1].0@ == "Accept"@ && hs@[1].1@ == "application/vnd.github+json"@
                &&& hs@[2].0@ == "User-Agent"@ && hs@[2].1@ == "action-hero/v0.1.0"@
                &&& hs@[3].0@ == "X-GitHub-Api-Version"@ && hs@[3].1@ == "2022-11-28"@
            },
            Err(e) => e == ConfigError::TokenInvalid && !valid_header_value(
                "Bearer "@ + c.token@,
            ),
        },
{
    let auth = auth_header_value(c.token.as_str());
    if !check_header_value(auth.as_str()) {
        return Err(ConfigError::TokenInvalid);
    }
    let mut hs: Vec<(String, String)> = Vec::new();
    hs.push(("Authorization".to_owned(), auth));
    hs.push(("Accept".to_owned(), "application/vnd.github+json".to_owned()));
    hs.push(("User-Agent".to_owned(), "action-hero/v0.1.0".to_owned()));
    hs.push(("X-GitHub-Api-Version".to_owned(), "2022-11-28".to_owned()));
    Ok(hs)
}

/// The URL listing the most recent runs of the configured workflow:
/// the first page, holding at most ten entries.
pub fn runs_url(c: &ClientConfig) -> (r: String)
    ensures
        r@ == "https://api.github.com/repos/"@ + c.owner@ + "/"@ + c.repository@
            + "/actions/workflows/"@ + c.workflow@ + "/runs?per_page=10&page=1"@,
{
    let mut u = "https://api.github.com/repos/".to_owned();
    u.append(c.owner.as_str());
    u.append("/");
    u.append(c.repository.as_str());
    u.append("/actions/workflows/");
    u.append(c.workflow.as_str());
    u.append("/runs?per_page=10&page=1");
    proof {
        assert(u@ =~= "https://api.github.com/repos/"@ + c.owner@ + "/"@ + c.repository@
            + "/actions/workflows/"@ + c.workflow@ + "/runs?per_page=10&page=1"@);
    }
    u
}

/// The URL listing every job, with its steps, of one run.
pub fn jobs_url(c: &ClientConfig, run_id: &str) -> (r: String)
    ensures
        r@ == "https://api.github.com/repos/"@ + c.owner@ + "/"@ + c.repository@
            + "/actions/runs/"@ + run_id@ + "/jobs"@,
{
    let mut u = "https://api.github.com/repos/".to_owned();
    u.append(c.owner.as_str());
    u.append("/");
    u.append(c.repository.as_str());
    u.append("/actions/runs/");
    u.append(run_id);
    u.append("/jobs");
    proof {
        assert(u@ =~= "https://api.github.com/repos/"@ + c.owner@ + "/"@ + c.repository@
            + "/actions/runs/"@ + run_id@ + "/jobs"@);
    }
    u
}

} // verus!
