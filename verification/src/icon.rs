//! Icon resolution chain.
//!
//! An app's icon can come from several sources, tried in order until one
//! resolves; the last step is a generated fallback that always succeeds. This
//! module classifies an icon hint (a file path, URL, domain, or brand/app
//! name) and builds the ordered [`IconStep`] chain for a notification.

use vstd::prelude::*;
use crate::notification::Notification;
use crate::text::{
    chars_of, has_char, has_char_exec, is_prefix, starts_with_chars, slice_chars, string_from_chars,
    trim, trim_chars,
};

verus! {

/// What an icon reference string denotes, used to route it into the chain.
#[derive(Debug, PartialEq, Eq)]
pub enum IconRef {
    /// A local file path.
    FilePath(String),
    /// A full URL to an image.
    Url(String),
    /// A bare domain: favicon lookup.
    Domain(String),
    /// A brand/app name: brand-icon lookup.
    Name(String),
}

/// One step in the resolution chain; [`IconStep::Fallback`] is terminal.
#[derive(Debug, PartialEq, Eq)]
pub enum IconStep {
    /// Image data carried inline on the notification.
    Embedded,
    /// Load from a local file path.
    File(String),
    /// Download from an image URL.
    Url(String),
    /// Fetch the favicon for a domain.
    Favicon(String),
    /// Look up a brand icon by name.
    Brand(String),
    /// Use a previously cached icon for this app.
    CachedApp(String),
    /// Generate a placeholder from the app name. Always succeeds.
    Fallback(String),
}

/// An [`IconRef`] with its text as a character sequence.
pub enum IconRefSpec {
    FilePath(Seq<char>),
    Url(Seq<char>),
    Domain(Seq<char>),
    Name(Seq<char>),
}

/// An [`IconStep`] with its text as a character sequence.
pub enum IconStepSpec {
    Embedded,
    File(Seq<char>),
    Url(Seq<char>),
    Favicon(Seq<char>),
    Brand(Seq<char>),
    CachedApp(Seq<char>),
    Fallback(Seq<char>),
}

impl View for IconRef {
    type V = IconRefSpec;

    open spec fn view(&self) -> IconRefSpec {
        match self {
            IconRef::FilePath(s) => IconRefSpec::FilePath(s@),
            IconRef::Url(s) => IconRefSpec::Url(s@),
            IconRef::Domain(s) => IconRefSpec::Domain(s@),
            IconRef::Name(s) => IconRefSpec::Name(s@),
        }
    }
}

impl View for IconStep {
    type V = IconStepSpec;

    open spec fn view(&self) -> IconStepSpec {
        match self {
            IconStep::Embedded => IconStepSpec::Embedded,
            IconStep::File(s) => IconStepSpec::File(s@),
            IconStep::Url(s) => IconStepSpec::Url(s@),
            IconStep::Favicon(s) => IconStepSpec::Favicon(s@),
            IconStep::Brand(s) => IconStepSpec::Brand(s@),
            IconStep::CachedApp(s) => IconStepSpec::CachedApp(s@),
            IconStep::Fallback(s) => IconStepSpec::Fallback(s@),
        }
    }
}

/// An ASCII letter.
pub open spec fn is_ascii_alpha(c: char) -> bool {
    ('a' <= c && c <= 'z') || ('A' <= c && c <= 'Z')
}

fn is_ascii_alpha_exec(c: char) -> (b: bool)
    ensures
        b == is_ascii_alpha(c),
{
    ('a' <= c && c <= 'z') || ('A' <= c && c <= 'Z')
}

/// Looks like a local path: has a slash or backslash, starts with `.` or
/// `~`, or starts with a drive prefix like `C:`.
pub open spec fn looks_like_path(r: Seq<char>) -> bool {
    has_char(r, '/') || has_char(r, '\\') || (r.len() > 0 && (r[0] == '.' || r[0] == '~'))
        || (r.len() >= 2 && r[1] == ':' && is_ascii_alpha(r[0]))
}

/// Index of the last `.` in `r`, if any.
pub open spec fn last_dot(r: Seq<char>) -> int
    decreases r.len(),
{
    if r.len() == 0 {
        -1
    } else if r.last() == '.' {
        r.len() - 1
    } else {
        last_dot(r.drop_last())
    }
}

/// Looks like a bare domain: non-empty, no spaces, has a dot, and the part
/// after the last dot is at least two ASCII letters.
pub open spec fn looks_like_domain(r: Seq<char>) -> bool {
    let tld = r.subrange(last_dot(r) + 1, r.len() as int);
    r.len() > 0 && !has_char(r, ' ') && has_char(r, '.') && tld.len() >= 2
        && forall|i: int| 0 <= i < tld.len() ==> is_ascii_alpha(#[trigger] tld[i])
}

/// `http://`, `https://`, `file://`.
pub open spec fn http_prefix() -> Seq<char> {
    seq!['h', 't', 't', 'p', ':', '/', '/']
}

pub open spec fn https_prefix() -> Seq<char> {
    seq!['h', 't', 't', 'p', 's', ':', '/', '/']
}

pub open spec fn file_prefix() -> Seq<char> {
    seq!['f', 'i', 'l', 'e', ':', '/', '/']
}

/// How an icon hint is classified (after trimming whitespace).
pub open spec fn classify_spec(reference: Seq<char>) -> IconRefSpec {
    let r = trim(reference);
    if is_prefix(http_prefix(), r) || is_prefix(https_prefix(), r) {
        IconRefSpec::Url(r)
    } else if is_prefix(file_prefix(), r) {
        IconRefSpec::FilePath(r.subrange(7, r.len() as int))
    } else if looks_like_path(r) {
        IconRefSpec::FilePath(r)
    } else if looks_like_domain(r) {
        IconRefSpec::Domain(r)
    } else {
        IconRefSpec::Name(r)
    }
}

/// Whether `r` looks like a local file path.
pub fn is_file_path(r: &[char]) -> (b: bool)
    ensures
        b == looks_like_path(r@),
{
    has_char_exec(r, '/') || has_char_exec(r, '\\') || (r.len() > 0 && (r[0] == '.' || r[0] == '~'))
        || (r.len() >= 2 && r[1] == ':' && is_ascii_alpha_exec(r[0]))
}

/// Whether `r` looks like a bare domain.
pub fn is_domain(r: &[char]) -> (b: bool)
    ensures
        b == looks_like_domain(r@),
{
    if r.len() == 0 || has_char_exec(r, ' ') || !has_char_exec(r, '.') {
        return false;
    }
    // Find the last dot.
    let mut k: usize = r.len();
    assert(r@.subrange(0, k as int) =~= r@);
    while k > 0 && r[k - 1] != '.'
        invariant
            k <= r@.len(),
            last_dot(r@) == last_dot(r@.subrange(0, k as int)),
        decreases k,
    {
        assert(r@.subrange(0, k as int).drop_last() =~= r@.subrange(0, k - 1));
        k = k - 1;
    }
    proof {
        if k > 0 {
            assert(r@.subrange(0, k as int).last() == '.');
        }
    }
    // k is one past the last dot.
    let tld_len = r.len() - k;
    if tld_len < 2 {
        return false;
    }
    let mut i: usize = k;
    while i < r.len()
        invariant
            k <= i <= r@.len(),
            last_dot(r@) + 1 == k,
            forall|j: int| k <= j < i ==> is_ascii_alpha(#[trigger] r@[j]),
        decreases r.len() - i,
    {
        if !is_ascii_alpha_exec(r[i]) {
            assert(r@.subrange(k as int, r@.len() as int)[i - k] == r@[i as int]);
            return false;
        }
        i = i + 1;
    }
    assert forall|j: int| 0 <= j < r@.len() - k implies is_ascii_alpha(#[trigger] r@.subrange(k as int, r@.len() as int)[j]) by {
        assert(r@.subrange(k as int, r@.len() as int)[j] == r@[k + j]);
    }
    true
}

fn string_starts_with(r: &[char], p: &[char]) -> (b: bool)
    ensures
        b == is_prefix(p@, r@),
{
    starts_with_chars(r, p)
}

/// Classify an icon hint string. Never fails: anything that isn't clearly a
/// path, URL or domain is treated as a brand/app name.
pub fn classify(reference: &str) -> (r: IconRef)
    ensures
        r@ == classify_spec(reference@),
{
    let r = trim_str_chars(reference);
    let http: [char; 7] = ['h', 't', 't', 'p', ':', '/', '/'];
    let https: [char; 8] = ['h', 't', 't', 'p', 's', ':', '/', '/'];
    let file: [char; 7] = ['f', 'i', 'l', 'e', ':', '/', '/'];
    assert(http@ == http_prefix());
    assert(https@ == https_prefix());
    assert(file@ == file_prefix());
    if string_starts_with(r.as_slice(), http.as_slice()) || string_starts_with(r.as_slice(), https.as_slice()) {
        IconRef::Url(string_from_chars(r.as_slice()))
    } else if string_starts_with(r.as_slice(), file.as_slice()) {
        let path = slice_chars(r.as_slice(), 7, r.len());
        IconRef::FilePath(string_from_chars(path.as_slice()))
    } else if is_file_path(r.as_slice()) {
        IconRef::FilePath(string_from_chars(r.as_slice()))
    } else if is_domain(r.as_slice()) {
        IconRef::Domain(string_from_chars(r.as_slice()))
    } else {
        IconRef::Name(string_from_chars(r.as_slice()))
    }
}

fn trim_str_chars(s: &str) -> (r: Vec<char>)
    ensures
        r@ == trim(s@),
{
    let v = chars_of(s);
    trim_chars(v.as_slice())
}

/// The step an icon hint contributes, by its classification.
pub open spec fn hint_step(c: IconRefSpec) -> IconStepSpec {
    match c {
        IconRefSpec::FilePath(p) => IconStepSpec::File(p),
        IconRefSpec::Url(u) => IconStepSpec::Url(u),
        IconRefSpec::Domain(d) => IconStepSpec::Favicon(d),
        IconRefSpec::Name(name) => IconStepSpec::Brand(name),
    }
}

/// The trimmed icon hint of `n`, if it has a non-blank one.
pub open spec fn usable_hint(n: &Notification) -> Option<Seq<char>> {
    match n.app_icon {
        Some(h) if trim(h@).len() > 0 => Some(trim(h@)),
        _ => None,
    }
}

/// The ordered resolution chain: embedded image, the explicit hint, the
/// cached app icon, a brand lookup by app name, then the fallback.
pub open spec fn chain_spec(n: &Notification) -> Seq<IconStepSpec> {
    (if n.image is Some { seq![IconStepSpec::Embedded] } else { Seq::empty() })
        + (match usable_hint(n) {
            Some(h) => seq![hint_step(classify_spec(h))],
            None => Seq::empty(),
        })
        + seq![
            IconStepSpec::CachedApp(n.app_name@),
            IconStepSpec::Brand(n.app_name@),
            IconStepSpec::Fallback(n.app_name@),
        ]
}

/// Build the ordered icon-resolution chain for a notification: an inline
/// image first, then an explicit producer hint, then a cached app icon, a
/// brand lookup, and finally the always-succeeds generated fallback.
pub fn icon_chain(n: &Notification) -> (steps: Vec<IconStep>)
    ensures
        steps@.map_values(|s: IconStep| s@) == chain_spec(n),
{
    let mut steps: Vec<IconStep> = Vec::new();
    if n.image.is_some() {
        steps.push(IconStep::Embedded);
    }
    let ghost first = steps@.map_values(|s: IconStep| s@);
    match &n.app_icon {
        Some(h) => {
            let t = trim_str_chars(h.as_str());
            if t.len() > 0 {
                let hint = string_from_chars(t.as_slice());
                let step = match classify(hint.as_str()) {
                    IconRef::FilePath(p) => IconStep::File(p),
                    IconRef::Url(u) => IconStep::Url(u),
                    IconRef::Domain(d) => IconStep::Favicon(d),
                    IconRef::Name(name) => IconStep::Brand(name),
                };
                steps.push(step);
            }
        },
        None => {},
    }
    steps.push(IconStep::CachedApp(n.app_name.clone()));
    steps.push(IconStep::Brand(n.app_name.clone()));
    steps.push(IconStep::Fallback(n.app_name.clone()));
    assert(steps@.map_values(|s: IconStep| s@) =~= chain_spec(n));
    steps
}

} // verus!
