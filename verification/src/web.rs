//! Helpers for the web layer: header-safe file names, the export query
//! shape, and the clock.

use std::time::SystemTime;
use std::time::UNIX_EPOCH;
use vstd::prelude::*;
use vstd::string::StrSliceExecFns;

verus! {

/// Relies on std's system clock through SystemTime::now and
/// Duration::as_secs: the whole seconds since the Unix epoch, or zero
/// should the clock read earlier than the epoch. The result depends on
/// the clock, so nothing is promised of it.
#[verifier::external_body]
fn clock_unix_seconds() -> u64 {
    match SystemTime::now().duration_since(UNIX_EPOCH) {
        Ok(d) => d.as_secs(),
        Err(_) => 0,
    }
}

/// Whole seconds since the Unix epoch, read from the system clock; no
/// more can be said of a clock reading.
pub fn unix_now() -> u64 {
    clock_unix_seconds()
}

/// Query parameters of an inventory export request.
pub struct ExportQuery {
    /// The requested file format, for example "csv" or "json"
    pub format: Option<String>,
}

/// Whether `char::is_alphanumeric` holds: a Unicode letter or digit.
pub uninterp spec fn is_unicode_alphanumeric(c: char) -> bool;

/// Relies on char::is_alphanumeric: whether the character is a Unicode
/// letter or digit; the result depends on the character alone.
#[verifier::external_body]
fn char_is_alphanumeric(c: char) -> (r: bool)
    ensures
        r == is_unicode_alphanumeric(c),
{
    c.is_alphanumeric()
}

/// A character that may stay in a file name: alphanumeric, dash,
/// underscore, dot or space.
pub open spec fn allowed_char(c: char) -> bool {
    is_unicode_alphanumeric(c) || c == '-' || c == '_' || c == '.' || c == ' '
}

/// The allowed characters among the first `n`, in order.
pub open spec fn filter_allowed(s: Seq<char>, n: int) -> Seq<char>
    decreases n,
{
    if n <= 0 {
        Seq::empty()
    } else if allowed_char(s[n - 1]) {
        filter_allowed(s, n - 1).push(s[n - 1])
    } else {
        filter_allowed(s, n - 1)
    }
}

/// The string with every non-overlapping `".."` pair removed, scanning
/// left to right.
pub open spec fn remove_dotdot(s: Seq<char>) -> Seq<char>
    decreases s.len(),
{
    if s.len() >= 2 && s[0] == '.' && s[1] == '.' {
        remove_dotdot(s.skip(2))
    } else if s.len() >= 1 {
        seq![s[0]] + remove_dotdot(s.skip(1))
    } else {
        Seq::empty()
    }
}

/// Sanitize a file name for use in Content-Disposition headers: keep
/// only alphanumerics, dashes, underscores, dots and spaces, then
/// remove `".."` pairs against path traversal.
pub fn sanitize_filename(name: &str) -> (r: String)
    ensures
        r@ == remove_dotdot(filter_allowed(name@, name@.len() as int)),
{
    let n = name.unicode_len();
    let mut filtered = String::new();
    let mut i: usize = 0;
    while i < n
        invariant
            i <= n,
            n == name@.len(),
            filtered@ == filter_allowed(name@, i as int),
        decreases n - i,
    {
        let c = name.get_char(i);
        if char_is_alphanumeric(c) || c == '-' || c == '_' || c == '.' || c == ' ' {
            let piece = name.substring_char(i, i + 1);
            proof {
                assert(piece@ =~= seq![name@[i as int]]);
            }
            filtered.append(piece);
            proof {
                assert(filtered@ =~= filter_allowed(name@, i + 1));
            }
        }
        i += 1;
    }
    let f = filtered.as_str();
    let m = f.unicode_len();
    let mut out = String::new();
    let mut j: usize = 0;
    proof {
        assert(f@.skip(0) =~= f@);
    }
    while j < m
        invariant
            j <= m,
            m == f@.len(),
            f@ == filter_allowed(name@, name@.len() as int),
            out@ + remove_dotdot(f@.skip(j as int)) == remove_dotdot(f@),
        decreases m - j,
    {
        let c = f.get_char(j);
        if c == '.' && j + 1 < m && f.get_char(j + 1) == '.' {
            proof {
                assert(f@.skip(j as int)[0] == f@[j as int]);
                assert(f@.skip(j as int)[1] == f@[j + 1]);
                assert(f@.skip(j as int).skip(2) =~= f@.skip(j + 2));
            }
            j += 2;
        } else {
            let piece = f.substring_char(j, j + 1);
            proof {
                assert(piece@ =~= seq![f@[j as int]]);
                assert(f@.skip(j as int)[0] == f@[j as int]);
                assert(f@.skip(j as int).skip(1) =~= f@.skip(j + 1));
                assert(out@ + piece@ + remove_dotdot(f@.skip(j + 1)) =~= out@ + remove_dotdot(
                    f@.skip(j as int),
                ));
            }
            out.append(piece);
            j += 1;
        }
    }
    proof {
        assert(f@.skip(m as int) =~= Seq::<char>::empty());
        assert(out@ + Seq::<char>::empty() =~= out@);
    }
    out
}

} // verus!
