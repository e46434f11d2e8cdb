//! From the path that a catalog gives for a document to a full address.

use crate::text::{
    append_chars, begins_with, chars_of, first_occurrence, find, matches_at, occurs_at, slice_of,
    starts_with, string_of, strip_trailing, trim, trimmed, without_trailing,
};
use vstd::prelude::*;

verus! {

/// The path is a full address already: it names its scheme.
pub open spec fn has_scheme(path: Seq<char>) -> bool {
    ||| starts_with(path, "http://"@)
    ||| starts_with(path, "https://"@)
    ||| starts_with(path, "file://"@)
}

/// Where the host of an address begins: behind the first `://`, behind a
/// leading `//`, or at the start where the address has neither.
pub open spec fn authority_start(base: Seq<char>) -> int {
    match first_occurrence(base, "://"@) {
        Some(at) => at + "://"@.len(),
        None => if starts_with(base, "//"@) {
            "//"@.len() as int
        } else {
            0
        },
    }
}

/// The place of the first `/` at or behind `from`; the length of the text
/// where there is none.
pub open spec fn next_slash(s: Seq<char>, from: int) -> int
    decreases s.len() - from,
{
    if from < 0 || from >= s.len() {
        s.len() as int
    } else if s[from] == '/' {
        from
    } else {
        next_slash(s, from + 1)
    }
}

/// Where the path of an address begins: at the first `/` behind its host;
/// at its end where it has no path.
pub open spec fn path_start(base: Seq<char>) -> int {
    next_slash(base, authority_start(base))
}

/// `segment` is a segment of the path of `base` at `at`: it stands there,
/// behind the host, and a `/` or the end of the address follows it.
pub open spec fn is_segment_at(base: Seq<char>, segment: Seq<char>, at: int) -> bool {
    &&& path_start(base) <= at
    &&& occurs_at(base, segment, at)
    &&& (at + segment.len() == base.len() || base[at + segment.len()] == '/')
}

/// `at` is the least place at which `segment` is a segment of the path.
pub open spec fn is_first_segment(base: Seq<char>, segment: Seq<char>, at: int) -> bool {
    is_segment_at(base, segment, at) && forall|j: int|
        0 <= j < at ==> !is_segment_at(base, segment, j)
}

/// The least place at which `segment` is a segment of the path of `base`.
pub open spec fn first_segment(base: Seq<char>, segment: Seq<char>) -> Option<int> {
    if exists|i: int| is_segment_at(base, segment, i) {
        Some(choose|i: int| is_first_segment(base, segment, i))
    } else {
        None
    }
}

/// The part of a service's base address that names the host: the address up
/// to the first path segment `/v1`, failing that up to the first path segment
/// `/v2`, failing that the whole address. A `v1` or `v2` in the host's name,
/// or at the start of a longer segment, cuts nothing.
pub open spec fn domain_root(base: Seq<char>) -> Seq<char> {
    match first_segment(base, "/v1"@) {
        Some(at) => base.take(at),
        None => match first_segment(base, "/v2"@) {
            Some(at) => base.take(at),
            None => base,
        },
    }
}

/// The full address of the document at `path`, a path without white space
/// around it, for a service at `base`.
///
/// A path that names its scheme is the address. A path that begins with `//`
/// gets `https:` in front. A path that begins with `/` is joined to the host
/// part of `base`, any other path to `base` itself with a `/` between;
/// slashes at the end of either are dropped first.
pub open spec fn located(base: Seq<char>, path: Seq<char>) -> Seq<char> {
    let service = strip_trailing(base, '/');
    if has_scheme(path) {
        path
    } else if starts_with(path, "//"@) {
        "https:"@ + path
    } else if starts_with(path, "/"@) {
        strip_trailing(domain_root(service), '/') + path
    } else {
        service + "/"@ + path
    }
}

/// The full address of the document at `raw_path`, for a service at `base`:
/// the path itself, as it is written, where it names its scheme; the address
/// of the trimmed path where it does not.
pub open spec fn absolute_url(base: Seq<char>, raw_path: Seq<char>) -> Seq<char> {
    if has_scheme(raw_path) {
        raw_path
    } else {
        located(base, trim(raw_path))
    }
}

/// A place at which the segment stands with none before it is the first.
pub proof fn lemma_first_segment(base: Seq<char>, segment: Seq<char>, at: int)
    requires
        is_first_segment(base, segment, at),
    ensures
        first_segment(base, segment) == Some(at),
{
    let k = choose|k: int| is_first_segment(base, segment, k);
    assert(is_segment_at(base, segment, k));
    if k < at {
        assert(!is_segment_at(base, segment, k));
    }
    if at < k {
        assert(!is_segment_at(base, segment, at));
    }
}

/// The first `/` at or behind `from` stands between `from` and the end, and
/// no `/` stands between `from` and it.
pub proof fn lemma_next_slash(s: Seq<char>, from: int)
    requires
        0 <= from <= s.len(),
    ensures
        from <= next_slash(s, from) <= s.len(),
        next_slash(s, from) < s.len() ==> s[next_slash(s, from)] == '/',
        forall|k: int| from <= k < next_slash(s, from) ==> s[k] != '/',
    decreases s.len() - from,
{
    if from < s.len() && s[from] != '/' {
        lemma_next_slash(s, from + 1);
    }
}

/// An address that has no path is its own host part: a `v1` or `v2` in the
/// name of the host cuts nothing.
pub proof fn lemma_host_alone_is_its_own_root(base: Seq<char>)
    requires
        path_start(base) == base.len(),
    ensures
        domain_root(base) == base,
{
    reveal_strlit("/v1");
    reveal_strlit("/v2");
    assert forall|i: int| !is_segment_at(base, "/v1"@, i) by {}
    assert forall|i: int| !is_segment_at(base, "/v2"@, i) by {}
}

/// A path that names its scheme comes back unchanged, whatever the service
/// and whatever stands behind the scheme.
pub proof fn lemma_full_address_is_unchanged(base: Seq<char>, path: Seq<char>)
    requires
        has_scheme(path),
    ensures
        absolute_url(base, path) == path,
{
}

/// An address that names its scheme is settled: resolving it again, against
/// any service, changes nothing.
pub proof fn lemma_full_address_is_settled(base: Seq<char>, other: Seq<char>, path: Seq<char>)
    requires
        has_scheme(absolute_url(base, path)),
    ensures
        absolute_url(other, absolute_url(base, path)) == absolute_url(base, path),
{
}

/// Where the path of an address begins.
pub fn path_start_of(base: &Vec<char>) -> (start: usize)
    ensures
        start == path_start(base@),
        start <= base.len(),
{
    let scheme = chars_of("://");
    let from: usize = match find(base, &scheme) {
        Some(at) => at + scheme.len(),
        None => {
            if begins_with(base, "//") {
                chars_of("//").len()
            } else {
                0
            }
        },
    };
    assert(from == authority_start(base@));
    let mut i: usize = from;
    while i < base.len() && base[i] != '/'
        invariant
            from <= i <= base.len(),
            next_slash(base@, from as int) == next_slash(base@, i as int),
        decreases base.len() - i,
    {
        i += 1;
    }
    i
}

/// The least place at which `segment` is a segment of the path of `base`.
pub fn find_segment(base: &Vec<char>, segment: &Vec<char>) -> (found: Option<usize>)
    ensures
        match found {
            Some(at) => first_segment(base@, segment@) == Some(at as int) && at <= base.len(),
            None => first_segment(base@, segment@) is None,
        },
{
    let start = path_start_of(base);
    if segment.len() > base.len() || start > base.len() - segment.len() {
        assert forall|i: int| !is_segment_at(base@, segment@, i) by {}
        return None;
    }
    let last: usize = base.len() - segment.len();
    let mut i: usize = start;
    loop
        invariant
            start == path_start(base@),
            last == base.len() - segment.len(),
            start <= i <= last,
            forall|j: int| 0 <= j < i ==> !is_segment_at(base@, segment@, j),
        decreases last - i,
    {
        if matches_at(base, segment, i) && (i == last || base[i + segment.len()] == '/') {
            proof {
                lemma_first_segment(base@, segment@, i as int);
            }
            return Some(i);
        }
        if i == last {
            assert forall|j: int| !is_segment_at(base@, segment@, j) by {}
            return None;
        }
        i += 1;
    }
}

/// The host part of a service's base address.
pub fn domain_root_of(base: &Vec<char>) -> (root: Vec<char>)
    ensures
        root@ == domain_root(base@),
{
    let v1 = chars_of("/v1");
    let v2 = chars_of("/v2");
    match find_segment(base, &v1) {
        Some(at) => slice_of(base, 0, at),
        None => match find_segment(base, &v2) {
            Some(at) => slice_of(base, 0, at),
            None => {
                let whole = slice_of(base, 0, base.len());
                assert(whole@ =~= base@);
                whole
            },
        },
    }
}

/// The full address of the document at `path`, a path without white space
/// around it, for a service at `base`.
pub fn locate(base: &Vec<char>, path: &Vec<char>) -> (url: Vec<char>)
    ensures
        url@ == located(base@, path@),
{
    if begins_with(path, "http://") || begins_with(path, "https://") || begins_with(
        path,
        "file://",
    ) {
        let whole = slice_of(path, 0, path.len());
        assert(whole@ =~= path@);
        return whole;
    }
    if begins_with(path, "//") {
        let mut url = chars_of("https:");
        append_chars(&mut url, path);
        return url;
    }
    let service = without_trailing(base, '/');
    if begins_with(path, "/") {
        let mut url = without_trailing(&domain_root_of(&service), '/');
        append_chars(&mut url, path);
        url
    } else {
        let mut url = service;
        append_chars(&mut url, &chars_of("/"));
        append_chars(&mut url, path);
        url
    }
}

/// The full address of the document at `pdf_path`, for a service at `base`.
/// A path that names its scheme comes back as it is.
pub fn absolute_pdf_url(base: &str, pdf_path: &str) -> (url: String)
    ensures
        url@ == absolute_url(base@, pdf_path@),
        has_scheme(pdf_path@) ==> url@ == pdf_path@,
{
    let raw = chars_of(pdf_path);
    if begins_with(&raw, "http://") || begins_with(&raw, "https://") || begins_with(
        &raw,
        "file://",
    ) {
        return string_of(&raw);
    }
    let url = locate(&chars_of(base), &trimmed(&raw));
    string_of(&url)
}

} // verus!
