//! Slugs: the short names that address a snippet and its room.
use vstd::prelude::*;

verus! {

/// The lower-case form of a text, as `str::to_lowercase` gives it.
pub uninterp spec fn lower_of(s: Seq<char>) -> Seq<char>;

/// Whether a character is alphabetic or numeric, as `char::is_alphanumeric` says.
pub uninterp spec fn alnum_of(c: char) -> bool;

/// A text without its leading and trailing white space, as `str::trim` gives it.
pub uninterp spec fn trimmed_of(s: Seq<char>) -> Seq<char>;

/// Relies on `str::to_lowercase`: the lower-case form of the characters.
#[verifier::external_body]
fn lowercase(s: &str) -> (r: String)
    ensures
        r@ == lower_of(s@),
{
    s.to_lowercase()
}

/// Relies on `char::is_alphanumeric`.
#[verifier::external_body]
fn is_alnum(c: char) -> (r: bool)
    ensures
        r == alnum_of(c),
{
    c.is_alphanumeric()
}

/// Relies on `str::chars`: the characters of the text, in order.
#[verifier::external_body]
fn chars_of(s: &str) -> (r: Vec<char>)
    ensures
        r@ == s@,
{
    s.chars().collect()
}

/// Relies on `String::push`: appends one character.
#[verifier::external_body]
fn push_char(s: &mut String, c: char)
    ensures
        final(s)@ == old(s)@.push(c),
{
    s.push(c)
}

/// Relies on `str::trim`: the text without surrounding white space.
#[verifier::external_body]
fn trim_space(s: &str) -> (r: &str)
    ensures
        r@ == trimmed_of(s@),
{
    s.trim()
}

/// Relies on `regex::Regex::is_match` with the anchored pattern
/// `^[a-z0-9][a-z0-9\-]*[a-z0-9]$`: at least two characters, all lower-case
/// ASCII letters, digits or hyphens, neither the first nor the last a hyphen.
#[verifier::external_body]
fn matches_slug_pattern(s: &str) -> (r: bool)
    ensures
        r == slug_shaped(s@),
{
    regex::Regex::new(r"^[a-z0-9][a-z0-9\-]*[a-z0-9]$").unwrap().is_match(s)
}

/// What a character of the lower-cased input becomes in a slug.
pub open spec fn slug_char(c: char) -> char {
    if alnum_of(c) || c == '-' {
        c
    } else {
        '-'
    }
}

/// The text without its leading hyphens.
pub open spec fn strip_leading_dashes(s: Seq<char>) -> Seq<char>
    decreases s.len(),
{
    if s.len() > 0 && s[0] == '-' {
        strip_leading_dashes(s.drop_first())
    } else {
        s
    }
}

/// The text without its trailing hyphens.
pub open spec fn strip_trailing_dashes(s: Seq<char>) -> Seq<char>
    decreases s.len(),
{
    if s.len() > 0 && s.last() == '-' {
        strip_trailing_dashes(s.drop_last())
    } else {
        s
    }
}

/// The slug form of an already lower-cased text: every character that is
/// neither alphanumeric nor a hyphen replaced by a hyphen, outer hyphens
/// removed.
pub open spec fn slug_form(lower: Seq<char>) -> Seq<char> {
    strip_trailing_dashes(strip_leading_dashes(lower.map_values(|c: char| slug_char(c))))
}

/// The slug made from raw input: its lower-case form, put in slug form.
pub open spec fn sanitized(raw: Seq<char>) -> Seq<char> {
    slug_form(lower_of(raw))
}

/// Turns raw input into slug form.
pub fn sanitize(raw: &str) -> (r: String)
    ensures
        r@ == sanitized(raw@),
{
    let lower = lowercase(raw);
    slug_form_of(lower.as_str())
}

/// What a character becomes in a slug, given whether it is alphanumeric.
pub open spec fn mark_char(c: char, alnum: bool) -> char {
    if alnum || c == '-' {
        c
    } else {
        '-'
    }
}

/// The characters `cs` with each one that is neither alphanumeric, as
/// `alnum` tells at the same position, nor a hyphen replaced by a hyphen.
pub open spec fn marked(cs: Seq<char>, alnum: Seq<bool>) -> Seq<char> {
    Seq::new(cs.len(), |i: int| mark_char(cs[i], alnum[i]))
}

/// Puts an already lower-cased text in slug form.
pub fn slug_form_of(lower: &str) -> (r: String)
    ensures
        r@ == slug_form(lower@),
{
    let cs = chars_of(lower);
    let mut alnum: Vec<bool> = Vec::new();
    let mut i: usize = 0;
    while i < cs.len()
        invariant
            i <= cs@.len(),
            alnum@.len() == i,
            forall|j: int| 0 <= j < i ==> alnum@[j] == alnum_of(#[trigger] cs@[j]),
        decreases cs.len() - i,
    {
        alnum.push(is_alnum(cs[i]));
        i = i + 1;
    }
    proof {
        assert(marked(cs@, alnum@) =~= lower@.map_values(|c: char| slug_char(c)));
    }
    slug_form_with(&cs, &alnum)
}

/// Puts the characters `cs` in slug form, where `alnum` tells for each
/// position whether its character is alphanumeric: the others but hyphens
/// become hyphens, and outer hyphens are removed.
pub fn slug_form_with(cs: &Vec<char>, alnum: &Vec<bool>) -> (r: String)
    requires
        alnum@.len() == cs@.len(),
    ensures
        r@ == strip_trailing_dashes(strip_leading_dashes(marked(cs@, alnum@))),
{
    let ghost full = marked(cs@, alnum@);
    let n = cs.len();
    let mut mapped: Vec<char> = Vec::new();
    let mut i: usize = 0;
    while i < n
        invariant
            n == cs@.len(),
            n == alnum@.len(),
            full == marked(cs@, alnum@),
            i <= n,
            mapped@ == full.take(i as int),
        decreases n - i,
    {
        let c = cs[i];
        let m = if alnum[i] || c == '-' {
            c
        } else {
            '-'
        };
        mapped.push(m);
        proof {
            assert(full.take(i + 1) =~= full.take(i as int).push(m));
        }
        i = i + 1;
    }
    proof {
        assert(full.take(n as int) =~= full);
        assert(mapped@.subrange(0, n as int) =~= full);
    }
    let mut start: usize = 0;
    while start < n && mapped[start] == '-'
        invariant
            n == mapped@.len(),
            start <= n,
            strip_leading_dashes(mapped@.subrange(start as int, n as int))
                == strip_leading_dashes(full),
            mapped@ == full,
        decreases n - start,
    {
        proof {
            assert(mapped@.subrange(start as int, n as int).drop_first() =~= mapped@.subrange(
                start + 1,
                n as int,
            ));
        }
        start = start + 1;
    }
    let mut end: usize = n;
    while end > start && mapped[end - 1] == '-'
        invariant
            n == mapped@.len(),
            start <= end <= n,
            strip_trailing_dashes(mapped@.subrange(start as int, end as int))
                == strip_trailing_dashes(mapped@.subrange(start as int, n as int)),
            strip_leading_dashes(full) == mapped@.subrange(start as int, n as int),
        decreases end - start,
    {
        proof {
            assert(mapped@.subrange(start as int, end as int).drop_last() =~= mapped@.subrange(
                start as int,
                end - 1,
            ));
        }
        end = end - 1;
    }
    let mut out = String::new();
    let mut j: usize = start;
    while j < end
        invariant
            n == mapped@.len(),
            start <= j <= end <= n,
            out@ == mapped@.subrange(start as int, j as int),
        decreases end - j,
    {
        push_char(&mut out, mapped[j]);
        proof {
            assert(out@ =~= mapped@.subrange(start as int, j + 1));
        }
        j = j + 1;
    }
    out
}

/// Why a slug is refused.
#[derive(Debug, Clone, PartialEq, Eq)]
pub enum SlugError {
    /// Under three bytes.
    TooShort,
    /// Over sixty bytes.
    TooLong,
    /// Not lower-case letters, digits and inner hyphens.
    Malformed,
    /// One of the names the service keeps for itself; the slug is carried.
    Reserved(String),
}

/// Appends the characters of `t` to `s`.
fn append_text(s: &mut String, t: &str)
    ensures
        final(s)@ == old(s)@ + t@,
{
    let cs = chars_of(t);
    let mut i: usize = 0;
    while i < cs.len()
        invariant
            cs@ == t@,
            i <= cs@.len(),
            s@ == old(s)@ + t@.take(i as int),
        decreases cs.len() - i,
    {
        push_char(s, cs[i]);
        proof {
            assert(t@.take(i + 1) =~= t@.take(i as int).push(cs@[i as int]));
        }
        i = i + 1;
    }
    proof {
        assert(t@.take(i as int) =~= t@);
    }
}

impl SlugError {
    /// The text shown to the client for this error.
    pub fn message(&self) -> (r: String)
        ensures
            r@ == match self {
                SlugError::TooShort => "Slug must be \u{2265} 3 characters"@,
                SlugError::TooLong => "Slug must be \u{2264} 60 characters"@,
                SlugError::Malformed => "Only lowercase letters, numbers, hyphens. No leading/trailing hyphens."@,
                SlugError::Reserved(slug) => "'"@ + slug@ + "' is reserved"@,
            },
    {
        match self {
            SlugError::TooShort => "Slug must be \u{2265} 3 characters".to_owned(),
            SlugError::TooLong => "Slug must be \u{2264} 60 characters".to_owned(),
            SlugError::Malformed => "Only lowercase letters, numbers, hyphens. No leading/trailing hyphens.".to_owned(),
            SlugError::Reserved(slug) => {
                let mut m = "'".to_owned();
                append_text(&mut m, slug.as_str());
                append_text(&mut m, "' is reserved");
                m
            },
        }
    }
}

/// Shortest accepted slug, in bytes.
pub const MIN_SLUG_BYTES: usize = 3;

/// Longest accepted slug, in bytes.
pub const MAX_SLUG_BYTES: usize = 60;

/// A character that may begin or end a slug.
pub open spec fn slug_edge_char(c: char) -> bool {
    ('a' <= c && c <= 'z') || ('0' <= c && c <= '9')
}

/// A character that may stand anywhere in a slug.
pub open spec fn slug_inner_char(c: char) -> bool {
    slug_edge_char(c) || c == '-'
}

/// At least two characters, all of them letters `a`-`z`, digits or hyphens,
/// the first and the last not a hyphen.
pub open spec fn slug_shaped(s: Seq<char>) -> bool {
    &&& s.len() >= 2
    &&& slug_edge_char(s[0])
    &&& slug_edge_char(s.last())
    &&& forall|i: int| 0 <= i < s.len() ==> slug_inner_char(#[trigger] s[i])
}

/// The names that routes of the service already use.
pub open spec fn reserved(s: Seq<char>) -> bool {
    s == "api"@ || s == "admin"@ || s == "health"@ || s == "ws"@ || s == "new"@ || s == "static"@
}

/// The length of a text in UTF-8 bytes, as `str::len` reports it.
pub open spec fn byte_len(s: Seq<char>) -> usize {
    vstd::utf8::encode_utf8(s).len() as usize
}

/// A candidate that breaks none of the rules on length, shape and reserved names.
pub open spec fn slug_acceptable(s: Seq<char>) -> bool {
    &&& MIN_SLUG_BYTES <= byte_len(s) <= MAX_SLUG_BYTES
    &&& slug_shaped(s)
    &&& !reserved(s)
}

/// Whether `r` is the verdict on the candidate slug `s`: the first rule it
/// breaks, in the order length, shape, reserved names; a reserved name is
/// reported with the slug.
pub open spec fn is_verdict(r: Result<(), SlugError>, s: Seq<char>) -> bool {
    if byte_len(s) < MIN_SLUG_BYTES {
        r == Err::<(), SlugError>(SlugError::TooShort)
    } else if byte_len(s) > MAX_SLUG_BYTES {
        r == Err::<(), SlugError>(SlugError::TooLong)
    } else if !slug_shaped(s) {
        r == Err::<(), SlugError>(SlugError::Malformed)
    } else if reserved(s) {
        r is Err && r->Err_0 is Reserved && r->Err_0->Reserved_0@ == s
    } else {
        r is Ok
    }
}

fn same_text(a: &str, b: &str) -> (r: bool)
    ensures
        r == (a@ == b@),
{
    a.to_owned() == b.to_owned()
}

/// Whether `slug` is one of the reserved names.
pub fn is_reserved(slug: &str) -> (r: bool)
    ensures
        r == reserved(slug@),
{
    same_text(slug, "api") || same_text(slug, "admin") || same_text(slug, "health") || same_text(
        slug,
        "ws",
    ) || same_text(slug, "new") || same_text(slug, "static")
}

/// Checks a slug against the length, shape and reserved-name rules.
pub fn validate(slug: &str) -> (r: Result<(), SlugError>)
    ensures
        is_verdict(r, slug@),
        r is Ok <==> slug_acceptable(slug@),
{
    let len = slug.len();
    if len < MIN_SLUG_BYTES {
        return Err(SlugError::TooShort);
    }
    if len > MAX_SLUG_BYTES {
        return Err(SlugError::TooLong);
    }
    if !matches_slug_pattern(slug) {
        return Err(SlugError::Malformed);
    }
    if is_reserved(slug) {
        return Err(SlugError::Reserved(slug.to_owned()));
    }
    Ok(())
}

/// The view of an optional text.
pub open spec fn opt_view(o: Option<String>) -> Option<Seq<char>> {
    match o {
        Some(s) => Some(s@),
        None => None,
    }
}

/// The slug that a creation request names, or `None` when it leaves the
/// choice to the service.
///
/// Absent or blank input leaves the choice to the service; otherwise the
/// trimmed input, sanitized, is the slug if it passes `validate`, and the
/// verdict of `validate` is the error if not.
pub fn requested_slug(raw: &Option<String>) -> (r: Result<Option<String>, SlugError>)
    ensures
        match opt_view(*raw) {
            None => r is Ok && r->Ok_0 is None,
            Some(s) => if trimmed_of(s).len() == 0 {
                r is Ok && r->Ok_0 is None
            } else {
                match r {
                    Ok(Some(t)) => t@ == sanitized(trimmed_of(s)) && slug_acceptable(t@),
                    Ok(None) => false,
                    Err(e) => is_verdict(Err(e), sanitized(trimmed_of(s))),
                }
            },
        },
{
    match raw {
        None => Ok(None),
        Some(s) => {
            let t = trim_space(s.as_str());
            if t.is_empty() {
                return Ok(None);
            }
            let sl = sanitize(t);
            match validate(sl.as_str()) {
                Ok(()) => Ok(Some(sl)),
                Err(e) => Err(e),
            }
        },
    }
}

/// Answer to an availability query for a slug.
#[derive(Debug, Clone, PartialEq, Eq)]
pub struct SlugCheck {
    pub available: bool,
    pub slug: String,
}

/// Sanitizes raw input and tells whether the result is a valid slug; only a
/// valid one is worth looking up in the store.
pub fn probe_slug(raw: &str) -> (r: (String, bool))
    ensures
        r.0@ == sanitized(raw@),
        r.1 == slug_acceptable(sanitized(raw@)),
{
    let slug = sanitize(raw);
    let valid = validate(slug.as_str()).is_ok();
    (slug, valid)
}

impl SlugCheck {
    /// The answer for `slug`: available when it is valid and no live snippet
    /// holds it.
    pub fn answer(slug: String, valid: bool, taken: bool) -> (r: SlugCheck)
        ensures
            r.slug == slug,
            r.available == (valid && !taken),
    {
        SlugCheck { available: valid && !taken, slug }
    }
}

/// How many generated slugs are looked up before one is taken unchecked.
pub const MAX_SLUG_CHECKS: u32 = 10;

/// What to do after looking up a generated slug.
#[derive(Debug, Clone, Copy, PartialEq, Eq)]
pub enum SlugSearch {
    /// The slug is free: use it.
    Use,
    /// The slug is taken: draw another and look it up.
    Redraw,
    /// The slug is taken and the lookups are spent: draw another and use it.
    RedrawUnchecked,
}

/// The decision after the `checks`-th lookup of a generated slug.
pub fn after_slug_check(checks: u32, taken: bool) -> (r: SlugSearch)
    requires
        1 <= checks <= MAX_SLUG_CHECKS,
    ensures
        !taken ==> r == SlugSearch::Use,
        taken && checks < MAX_SLUG_CHECKS ==> r == SlugSearch::Redraw,
        taken && checks == MAX_SLUG_CHECKS ==> r == SlugSearch::RedrawUnchecked,
{
    if !taken {
        SlugSearch::Use
    } else if checks < MAX_SLUG_CHECKS {
        SlugSearch::Redraw
    } else {
        SlugSearch::RedrawUnchecked
    }
}

} // verus!
