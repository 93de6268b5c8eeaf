//! Extraction of the caller's IP address from a connectivity-trace
//! body: `key=value` lines, one of which begins with `ip=`.

use vstd::prelude::*;

use crate::conv::{chars_to_string, str_to_chars};
use crate::text::{lines_of, starts_with, v_lines, v_starts_with, v_subrange};

verus! {

/// The value of the first line beginning with `ip=`, from line `i` on.
pub open spec fn ip_line_from(lines: Seq<Seq<char>>, i: int) -> Option<Seq<char>>
    decreases lines.len() - i,
{
    if i < 0 || i >= lines.len() {
        None
    } else if starts_with(lines[i], "ip="@) {
        Some(lines[i].subrange("ip="@.len() as int, lines[i].len() as int))
    } else {
        ip_line_from(lines, i + 1)
    }
}

/// The IP address a trace body reports, when one of its lines carries
/// it.
pub open spec fn ip_of_trace(s: Seq<char>) -> Option<Seq<char>> {
    ip_line_from(lines_of(s), 0)
}

/// Finds the reported IP address, as `ip_of_trace` states; without one
/// the fixed message is the error.
pub fn ip_from_trace(body: &str) -> (r: Result<String, String>)
    ensures
        match r {
            Ok(ip) => ip_of_trace(body@) == Some(ip@),
            Err(m) => ip_of_trace(body@) is None && m@
                == "Could not find IP address in response"@,
        },
{
    let v = str_to_chars(body);
    let lines = v_lines(&v);
    let ghost lm = lines.deep_view();
    let pat = str_to_chars("ip=");
    let mut i: usize = 0;
    while i < lines.len()
        invariant
            i <= lines@.len(),
            lm == lines.deep_view(),
            lm.len() == lines@.len(),
            lm == lines_of(body@),
            pat@ == "ip="@,
            ip_line_from(lm, 0) == ip_line_from(lm, i as int),
        decreases lines.len() - i,
    {
        assert(lm[i as int] =~= lines@[i as int]@);
        let line = &lines[i];
        if v_starts_with(line, &pat) {
            let ip = v_subrange(line, pat.len(), line.len());
            assert(ip@ == lm[i as int].subrange("ip="@.len() as int, lm[i as int].len() as int));
            return Ok(chars_to_string(&ip));
        }
        i = i + 1;
    }
    assert(ip_line_from(lm, lm.len() as int) is None);
    Err(chars_to_string(&str_to_chars("Could not find IP address in response")))
}

} // verus!
