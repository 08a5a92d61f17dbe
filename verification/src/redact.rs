use vstd::prelude::*;

use crate::strutil::lower_chars;
use crate::strutil::str_eq_ignore_ascii_case;

verus! {

/// The longest header value the diagnostics print before truncating.
pub const MAX_HEADER_VALUE: usize = 200;

/// The sequence cut to `max` characters, with a truncation mark appended
/// when anything was cut.
pub open spec fn truncate_spec(s: Seq<char>, max: int) -> Seq<char> {
    if s.len() <= max {
        s
    } else {
        s.subrange(0, max) + "… (truncated)"@
    }
}

/// A run of `n` mask characters.
pub open spec fn stars(n: int) -> Seq<char> {
    Seq::new(n as nat, |i: int| '*')
}

/// A diagnostic header pair with its secrets removed: an authorization
/// value is replaced entirely, an account identifier is masked but for its
/// last four characters, and any other value is only cut to length.
pub open spec fn redact_pair_spec(name: Seq<char>, value: Seq<char>) -> (Seq<char>, Seq<char>) {
    let l = lower_chars(name);
    if l == "authorization"@ {
        (name, "<redacted>"@)
    } else if l == "chatgpt-account-id"@ {
        if value.len() > 8 {
            (name, stars(value.len() - 4) + value.subrange(value.len() - 4, value.len() as int))
        } else {
            (name, "****"@)
        }
    } else {
        (name, truncate_spec(value, MAX_HEADER_VALUE as int))
    }
}

/// Cuts a string to at most `max` characters, marking the cut.
pub fn truncate_str(s: &str, max: usize) -> (r: String)
    ensures
        r@ == truncate_spec(s@, max as int),
{
    let ln: usize = s.unicode_len();
    if ln <= max {
        s.to_owned()
    } else {
        let mut out = s.substring_char(0, max).to_owned();
        out.append("… (truncated)");
        out
    }
}

proof fn lemma_redact_literals()
    ensures
        lower_chars("authorization"@) == "authorization"@,
        lower_chars("chatgpt-account-id"@) == "chatgpt-account-id"@,
{
    reveal_strlit("authorization");
    reveal_strlit("chatgpt-account-id");
    assert(lower_chars("authorization"@) =~= "authorization"@);
    assert(lower_chars("chatgpt-account-id"@) =~= "chatgpt-account-id"@);
}

/// Redacts one header pair for diagnostics.
pub fn redact_header_pair(name: &str, value: &str) -> (r: (String, String))
    ensures
        r.0@ == redact_pair_spec(name@, value@).0,
        r.1@ == redact_pair_spec(name@, value@).1,
{
    proof {
        lemma_redact_literals();
    }
    if str_eq_ignore_ascii_case(name, "authorization") {
        (name.to_owned(), String::from_str("<redacted>"))
    } else if str_eq_ignore_ascii_case(name, "chatgpt-account-id") {
        let lv: usize = value.unicode_len();
        if lv > 8 {
            let keep: usize = lv - 4;
            let mut out = String::new();
            let mut i: usize = 0;
            while i < keep
                invariant
                    0 <= i <= keep,
                    out@ =~= stars(i as int),
                decreases keep - i,
            {
                crate::strutil::push_char(&mut out, '*');
                proof {
                    assert(out@ =~= stars(i + 1));
                }
                i = i + 1;
            }
            let tail = value.substring_char(keep, lv);
            out.append(tail);
            (name.to_owned(), out)
        } else {
            (name.to_owned(), String::from_str("****"))
        }
    } else {
        (name.to_owned(), truncate_str(value, MAX_HEADER_VALUE))
    }
}

} // verus!
