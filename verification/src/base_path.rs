//! The app's base path: how the configured value is normalized, and what
//! mounting a router under it serves and redirects.
use vstd::prelude::*;

use crate::text::{push_char, string_of, chars_of};

verus! {

/// `s` without its trailing slashes.
pub open spec fn trim_slashes(s: Seq<char>) -> Seq<char>
    decreases s.len(),
{
    if s.len() > 0 && s.last() == '/' {
        trim_slashes(s.drop_last())
    } else {
        s
    }
}

/// Whether a configured base path is accepted: missing, made of slashes
/// only, or starting with `/`.
pub open spec fn valid_base_path(raw: Option<Seq<char>>) -> bool {
    match raw {
        None => true,
        Some(r) => trim_slashes(r).len() == 0 || r[0] == '/',
    }
}

/// The normalized base path: `""` when missing, empty or `/`; otherwise the
/// value without trailing slashes.
pub open spec fn base_path_of(raw: Option<Seq<char>>) -> Seq<char> {
    match raw {
        None => Seq::empty(),
        Some(r) => trim_slashes(r),
    }
}

proof fn lemma_trim_prefix(s: Seq<char>)
    ensures
        trim_slashes(s).len() <= s.len(),
        trim_slashes(s) =~= s.take(trim_slashes(s).len() as int),
        trim_slashes(s).len() == 0 || trim_slashes(s).last() != '/',
        forall|i: int| trim_slashes(s).len() <= i < s.len() ==> s[i] == '/',
    decreases s.len(),
{
    if s.len() > 0 && s.last() == '/' {
        lemma_trim_prefix(s.drop_last());
        assert forall|i: int| trim_slashes(s).len() <= i < s.len() implies s[i] == '/' by {
            if i < s.len() - 1 {
                assert(s.drop_last()[i] == s[i]);
            }
        }
    }
}

/// Whether `raw` is a base path that `base_path` accepts.
pub fn is_valid_base_path(raw: Option<&str>) -> (r: bool)
    ensures
        r == valid_base_path(match raw {
            Some(s) => Some(s@),
            None => None,
        }),
{
    match raw {
        None => true,
        Some(s) => {
            let t = trimmed(s);
            t.unicode_len() == 0 || s.get_char(0) == '/'
        },
    }
}

fn trimmed(s: &str) -> (r: String)
    ensures
        r@ == trim_slashes(s@),
{
    let chars = chars_of(s);
    let mut end = chars.len();
    proof {
        lemma_trim_prefix(s@);
        assert(s@.take(s@.len() as int) =~= s@);
    }
    while end > 0 && chars[end - 1] == '/'
        invariant
            end <= chars.len(),
            chars@ == s@,
            trim_slashes(s@) == trim_slashes(s@.take(end as int)),
        decreases end,
    {
        proof {
            let t = s@.take(end as int);
            assert(t.drop_last() =~= s@.take(end as int - 1));
        }
        end = end - 1;
    }
    let mut kept: Vec<char> = Vec::new();
    let mut i: usize = 0;
    while i < end
        invariant
            i <= end <= chars.len(),
            chars@ == s@,
            kept@ == s@.take(i as int),
        decreases end - i,
    {
        kept.push(chars[i]);
        proof {
            assert(kept@ =~= s@.take(i as int + 1));
        }
        i = i + 1;
    }
    proof {
        let t = s@.take(end as int);
        assert(t.len() == 0 || t.last() != '/');
    }
    string_of(&kept)
}

/// Normalizes and validates the configured base path: missing, empty and `/`
/// mean no base path, and trailing slashes are removed. A value that is not
/// accepted (one not starting with `/`) is ruled out by `requires`; check it
/// with `is_valid_base_path` first.
pub fn base_path(raw: Option<&str>) -> (r: String)
    requires
        valid_base_path(match raw {
            Some(s) => Some(s@),
            None => None,
        }),
    ensures
        r@ == base_path_of(match raw {
            Some(s) => Some(s@),
            None => None,
        }),
{
    match raw {
        None => String::new(),
        Some(s) => trimmed(s),
    }
}

/// A normalized base path is either empty or starts with `/`, never ends
/// with `/`, and normalizing it again changes nothing.
pub proof fn law_base_path_normal_form(raw: Option<Seq<char>>)
    requires
        valid_base_path(raw),
    ensures
        base_path_of(raw).len() == 0 || base_path_of(raw)[0] == '/',
        base_path_of(raw).len() == 0 || base_path_of(raw).last() != '/',
        base_path_of(Some(base_path_of(raw))) == base_path_of(raw),
{
    match raw {
        None => {},
        Some(r) => {
            lemma_trim_prefix(r);
            let t = trim_slashes(r);
            if t.len() > 0 {
                assert(t[0] == r[0]);
            }
        },
    }
}

/// The route under which `mount` nests the app: `{base}/`.
pub fn nest_path(base: &str) -> (r: String)
    ensures
        r@ == base@.push('/'),
{
    let mut r = base.to_owned();
    push_char(&mut r, '/');
    r
}

/// Where a request for the bare base path is redirected: `{base}/`, keeping
/// the query string.
pub fn redirect_location(base: &str, query: Option<&str>) -> (r: String)
    ensures
        r@ == base@.push('/') + match query {
            Some(q) => seq!['?'] + q@,
            None => Seq::empty(),
        },
{
    let mut r = nest_path(base);
    match query {
        Some(q) => {
            push_char(&mut r, '?');
            r.append(q);
        },
        None => {},
    }
    r
}

} // verus!
