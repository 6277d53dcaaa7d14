//! Helpers for showing repositories: creation dates and owner avatars.
use vstd::prelude::*;
use crate::text::push_char;

verus! {

/// A grey placeholder avatar, used when an owner's avatar URL is not safe to load.
pub const DEFAULT_AVATAR: &'static str = "data:image/svg+xml,%3Csvg xmlns='http://www.w3.org/2000/svg' viewBox='0 0 40 40'%3E%3Ccircle cx='20' cy='20' r='20' fill='%2330363d'/%3E%3Ccircle cx='20' cy='16' r='7' fill='%238b949e'/%3E%3Cpath d='M6 36c0-8 6-14 14-14s14 6 14 14' fill='%238b949e'/%3E%3C/svg%3E";

/// The text before the first `T`: the date of an ISO 8601 timestamp.
pub open spec fn date_part(s: Seq<char>) -> Seq<char>
    decreases s.len(),
{
    if s.len() == 0 || s[0] == 'T' {
        seq![]
    } else {
        seq![s[0]] + date_part(s.drop_first())
    }
}

/// The date of an ISO 8601 timestamp: everything before the first `T`.
pub fn format_date(date_str: &str) -> (r: String)
    ensures
        r@ == date_part(date_str@),
{
    let mut out = String::new();
    let mut done = false;
    assert(date_str@.skip(0) =~= date_str@);
    assert(out@ + date_part(date_str@) =~= date_part(date_str@));
    for c in it: date_str.chars()
        invariant
            it.seq() == date_str@,
            it.index() <= date_str@.len(),
            done ==> out@ == date_part(date_str@),
            !done ==> date_part(date_str@) == out@ + date_part(date_str@.skip(it.index() as int)),
    {
        let ghost i = it.index() as int;
        assert(c == date_str@[i]);
        assert(date_str@.skip(i).drop_first() =~= date_str@.skip(i + 1));
        if !done {
            if c == 'T' {
                done = true;
                assert(out@ =~= date_part(date_str@));
            } else {
                push_char(&mut out, c);
                assert(date_part(date_str@) =~= out@ + date_part(date_str@.skip(i + 1)));
            }
        }
    }
    proof {
        if !done {
            assert(date_str@.skip(date_str@.len() as int) =~= Seq::<char>::empty());
            assert(out@ =~= date_part(date_str@));
        }
    }
    out
}

/// What `str::to_lowercase` returns for `s`.
pub uninterp spec fn lower_of(s: Seq<char>) -> Seq<char>;

/// Relies on `str::to_lowercase`: the lower-case form, which depends on the
/// characters alone.
#[verifier::external_body]
fn lowercase(s: &str) -> (r: String)
    ensures
        r@ == lower_of(s@),
{
    s.to_lowercase()
}

/// Whether a lower-case URL uses a scheme that is safe for an image source:
/// `https://`, `http://` or `data:`.
pub open spec fn has_safe_scheme(lower: Seq<char>) -> bool {
    "https://"@.is_prefix_of(lower) || "http://"@.is_prefix_of(lower) || "data:"@.is_prefix_of(lower)
}

/// Whether `prefix` begins `s`.
fn starts_with(s: &str, prefix: &str) -> (r: bool)
    ensures
        r == prefix@.is_prefix_of(s@),
{
    let n = prefix.unicode_len();
    let m = s.unicode_len();
    if n > m {
        return false;
    }
    let mut i: usize = 0;
    while i < n
        invariant
            n == prefix@.len(),
            m == s@.len(),
            n <= m,
            i <= n,
            forall|j: int| 0 <= j < i ==> prefix@[j] == s@[j],
        decreases n - i,
    {
        if prefix.get_char(i) != s.get_char(i) {
            return false;
        }
        i = i + 1;
    }
    assert(prefix@ =~= s@.subrange(0, n as int));
    true
}

/// Whether a URL that is already lower case uses a safe scheme.
pub fn is_safe_lowered_url(lower: &str) -> (r: bool)
    ensures
        r == has_safe_scheme(lower@),
{
    starts_with(lower, "https://") || starts_with(lower, "http://") || starts_with(lower, "data:")
}

/// Whether `url` may be used as an image source: its scheme, in any case, is
/// `https://`, `http://` or `data:`.
pub fn is_safe_image_url(url: &str) -> (r: bool)
    ensures
        r == has_safe_scheme(lower_of(url@)),
{
    let url_lower = lowercase(url);
    is_safe_lowered_url(url_lower.as_str())
}

/// The avatar URL to show: `url` when it is safe to load, else the placeholder.
pub fn get_safe_avatar_url(url: &str) -> (r: String)
    ensures
        r@ == if has_safe_scheme(lower_of(url@)) {
            url@
        } else {
            DEFAULT_AVATAR@
        },
{
    if is_safe_image_url(url) {
        String::from_str(url)
    } else {
        String::from_str(DEFAULT_AVATAR)
    }
}

} // verus!
