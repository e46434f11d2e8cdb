//! Walking a whole JSON value: its content as one line of text, and the
//! first document that it names.

use crate::json::{Json, Member};
use crate::text::{
    append_chars, begins_with, chars_of, contains, first_where, has_text, joined, lowercase,
    slice_of, starts_with, string_of, strip_trailing, trim, trimmed, without_trailing,
};
use crate::tokens::word_texts;
use crate::url::{find_segment, first_segment, has_scheme};
use vstd::prelude::*;

verus! {

/// The content of a value as one line: a text in lower case, a number as it
/// is written, `true` or `false`, and the lines of the items of a list or of
/// the values of an object with one space between each two. Null is empty.
pub open spec fn flat_text(v: Json) -> Seq<char>
    decreases v,
{
    match v {
        Json::Null => Seq::empty(),
        Json::Bool(b) => if b {
            "true"@
        } else {
            "false"@
        },
        Json::Number(n) => n@,
        Json::Text(t) => lowercase(t@),
        Json::List(items) => joined(flat_items(items@)),
        Json::Object(members) => joined(flat_values(members@)),
    }
}

/// The lines of the items of a list.
pub open spec fn flat_items(items: Seq<Json>) -> Seq<Seq<char>>
    decreases items,
{
    if items.len() == 0 {
        Seq::empty()
    } else {
        flat_items(items.drop_last()).push(flat_text(items.last()))
    }
}

/// The lines of the values of an object.
pub open spec fn flat_values(members: Seq<Member>) -> Seq<Seq<char>>
    decreases members,
{
    if members.len() == 0 {
        Seq::empty()
    } else {
        flat_values(members.drop_last()).push(flat_text(members.last().value))
    }
}

/// Every text that a value holds at any depth, trimmed, in the order in
/// which the value holds them.
pub open spec fn leaf_texts(v: Json) -> Seq<Seq<char>>
    decreases v,
{
    match v {
        Json::Text(t) => seq![trim(t@)],
        Json::List(items) => leaves_of_items(items@),
        Json::Object(members) => leaves_of_values(members@),
        _ => Seq::empty(),
    }
}

/// The texts that the items of a list hold.
pub open spec fn leaves_of_items(items: Seq<Json>) -> Seq<Seq<char>>
    decreases items,
{
    if items.len() == 0 {
        Seq::empty()
    } else {
        leaves_of_items(items.drop_last()) + leaf_texts(items.last())
    }
}

/// The texts that the values of an object hold.
pub open spec fn leaves_of_values(members: Seq<Member>) -> Seq<Seq<char>>
    decreases members,
{
    if members.len() == 0 {
        Seq::empty()
    } else {
        leaves_of_values(members.drop_last()) + leaf_texts(members.last().value)
    }
}

/// The text says where it lies: it names its scheme, or begins with `//`.
pub open spec fn is_located(t: Seq<char>) -> bool {
    has_scheme(t) || starts_with(t, "//"@)
}

/// The text names a PDF document and says where it lies.
pub open spec fn is_full_document() -> spec_fn(Seq<char>) -> bool {
    |t: Seq<char>| contains(lowercase(t), ".pdf"@) && is_located(t)
}

/// The text names a PDF document and does not say where it lies.
pub open spec fn is_bare_document() -> spec_fn(Seq<char>) -> bool {
    |t: Seq<char>| contains(lowercase(t), ".pdf"@) && !is_located(t)
}

/// A service's base address up to the first path segment `/v2`.
pub open spec fn root_before_v2(base: Seq<char>) -> Seq<char> {
    match first_segment(base, "/v2"@) {
        Some(at) => base.take(at),
        None => base,
    }
}

/// The address of a document that says where it lies.
pub open spec fn address_of_full(url: Seq<char>) -> Seq<char> {
    if starts_with(url, "//"@) {
        "https:"@ + url
    } else {
        url
    }
}

/// The address of a document that does not say where it lies, for a service
/// at `base`: a path from the root is joined to the host part, a file name is
/// looked for among the service's charts.
pub open spec fn address_of_bare(name: Seq<char>, base: Seq<char>) -> Seq<char> {
    let service = strip_trailing(base, '/');
    if starts_with(name, "/"@) {
        strip_trailing(root_before_v2(service), '/') + name
    } else {
        service + "/charts/"@ + name
    }
}

/// The address of the first PDF document that a value names: the first text
/// that says where it lies if there is one, the first of the others if not.
pub open spec fn first_pdf_address(v: Json, base: Seq<char>) -> Option<Seq<char>> {
    match first_where(leaf_texts(v), is_full_document()) {
        Some(url) => Some(address_of_full(url)),
        None => match first_where(leaf_texts(v), is_bare_document()) {
            Some(name) => Some(address_of_bare(name, base)),
            None => None,
        },
    }
}

/// The content of a value as one line of text.
#[verifier::loop_isolation(false)]
pub fn flatten_text(v: &Json) -> (line: String)
    ensures
        line@ == flat_text(*v),
    decreases *v,
{
    match v {
        Json::Null => String::new(),
        Json::Bool(b) => {
            if *b {
                string_of(&chars_of("true"))
            } else {
                string_of(&chars_of("false"))
            }
        },
        Json::Number(n) => n.clone(),
        Json::Text(t) => t.as_str().to_lowercase(),
        Json::List(items) => {
            let mut line: Vec<char> = Vec::new();
            let mut i: usize = 0;
            assert(items@.take(0) =~= Seq::<Json>::empty());
            while i < items.len()
                invariant
                    i <= items.len(),
                    flat_items(items@.take(i as int)).len() == i,
                    line@ == joined(flat_items(items@.take(i as int))),
                decreases items.len() - i,
            {
                assert(decreases_to!(*items => items[i as int]));
                let part = flatten_text(&items[i]);
                let ghost before = line@;
                if i > 0 {
                    line.push(' ');
                }
                append_chars(&mut line, &chars_of(part.as_str()));
                proof {
                    assert(items@.take(i + 1).drop_last() =~= items@.take(i as int));
                    assert(items@.take(i + 1).last() == items@[i as int]);
                    let parts = flat_items(items@.take(i + 1));
                    assert(parts.drop_last() =~= flat_items(items@.take(i as int)));
                    if i == 0 {
                        assert(line@ =~= part@);
                    } else {
                        assert(line@ =~= before + seq![' '] + part@);
                    }
                }
                i += 1;
            }
            assert(items@.take(items.len() as int) =~= items@);
            string_of(&line)
        },
        Json::Object(members) => {
            let mut line: Vec<char> = Vec::new();
            let mut i: usize = 0;
            assert(members@.take(0) =~= Seq::<Member>::empty());
            while i < members.len()
                invariant
                    i <= members.len(),
                    flat_values(members@.take(i as int)).len() == i,
                    line@ == joined(flat_values(members@.take(i as int))),
                decreases members.len() - i,
            {
                assert(decreases_to!(*members => members[i as int]));
                let part = flatten_text(&members[i].value);
                let ghost before = line@;
                if i > 0 {
                    line.push(' ');
                }
                append_chars(&mut line, &chars_of(part.as_str()));
                proof {
                    assert(members@.take(i + 1).drop_last() =~= members@.take(i as int));
                    assert(members@.take(i + 1).last() == members@[i as int]);
                    let parts = flat_values(members@.take(i + 1));
                    assert(parts.drop_last() =~= flat_values(members@.take(i as int)));
                    if i == 0 {
                        assert(line@ =~= part@);
                    } else {
                        assert(line@ =~= before + seq![' '] + part@);
                    }
                }
                i += 1;
            }
            assert(members@.take(members.len() as int) =~= members@);
            string_of(&line)
        },
    }
}

/// Adds to `out` every text that the value holds, trimmed.
#[verifier::loop_isolation(false)]
pub fn collect_texts(v: &Json, out: &mut Vec<Vec<char>>)
    ensures
        word_texts(final(out)@) == word_texts(old(out)@) + leaf_texts(*v),
    decreases *v,
{
    let ghost start = word_texts(out@);
    match v {
        Json::Text(t) => {
            let text = trimmed(&chars_of(t.as_str()));
            out.push(text);
            assert(word_texts(out@) =~= start + seq![trim(t@)]);
        },
        Json::List(items) => {
            let mut i: usize = 0;
            assert(items@.take(0) =~= Seq::<Json>::empty());
            assert(start + Seq::<Seq<char>>::empty() =~= start);
            while i < items.len()
                invariant
                    i <= items.len(),
                    word_texts(out@) == start + leaves_of_items(items@.take(i as int)),
                decreases items.len() - i,
            {
                assert(decreases_to!(*items => items[i as int]));
                let ghost before = word_texts(out@);
                collect_texts(&items[i], out);
                proof {
                    assert(items@.take(i + 1).drop_last() =~= items@.take(i as int));
                    assert(items@.take(i + 1).last() == items@[i as int]);
                    assert(word_texts(out@) =~= start + leaves_of_items(items@.take(i + 1)));
                }
                i += 1;
            }
            assert(items@.take(items.len() as int) =~= items@);
        },
        Json::Object(members) => {
            let mut i: usize = 0;
            assert(members@.take(0) =~= Seq::<Member>::empty());
            assert(start + Seq::<Seq<char>>::empty() =~= start);
            while i < members.len()
                invariant
                    i <= members.len(),
                    word_texts(out@) == start + leaves_of_values(members@.take(i as int)),
                decreases members.len() - i,
            {
                assert(decreases_to!(*members => members[i as int]));
                collect_texts(&members[i].value, out);
                proof {
                    assert(members@.take(i + 1).drop_last() =~= members@.take(i as int));
                    assert(members@.take(i + 1).last() == members@[i as int]);
                    assert(word_texts(out@) =~= start + leaves_of_values(members@.take(i + 1)));
                }
                i += 1;
            }
            assert(members@.take(members.len() as int) =~= members@);
        },
        _ => {
            assert(start + Seq::<Seq<char>>::empty() =~= start);
        },
    }
}

/// Whether the text names a PDF document.
pub fn names_pdf(t: &Vec<char>) -> (r: bool)
    ensures
        r == contains(lowercase(t@), ".pdf"@),
{
    let low = string_of(t).as_str().to_lowercase();
    has_text(&chars_of(low.as_str()), ".pdf")
}

/// Whether the text says where it lies.
pub fn located(t: &Vec<char>) -> (r: bool)
    ensures
        r == is_located(t@),
{
    begins_with(t, "http://") || begins_with(t, "https://") || begins_with(t, "file://")
        || begins_with(t, "//")
}

/// Where the first PDF document among the texts stands: the first that says
/// where it lies if `full`, the first that does not if not.
pub fn first_document(texts: &Vec<Vec<char>>, full: bool) -> (at: Option<usize>)
    ensures
        match at {
            Some(i) => i < texts.len() && first_where(
                word_texts(texts@),
                if full {
                    is_full_document()
                } else {
                    is_bare_document()
                },
            ) == Some(texts@[i as int]@),
            None => first_where(
                word_texts(texts@),
                if full {
                    is_full_document()
                } else {
                    is_bare_document()
                },
            ) is None,
        },
{
    let ghost all = word_texts(texts@);
    let ghost wanted = if full {
        is_full_document()
    } else {
        is_bare_document()
    };
    let mut i: usize = 0;
    assert(all.skip(0) =~= all);
    while i < texts.len()
        invariant
            i <= texts.len(),
            all == word_texts(texts@),
            wanted == if full {
                is_full_document()
            } else {
                is_bare_document()
            },
            first_where(all, wanted) == first_where(all.skip(i as int), wanted),
        decreases texts.len() - i,
    {
        assert(all.skip(i as int)[0] == texts@[i as int]@);
        if names_pdf(&texts[i]) && located(&texts[i]) == full {
            return Some(i);
        }
        assert(all.skip(i as int).drop_first() =~= all.skip(i + 1));
        i += 1;
    }
    None
}

/// The address of a document that does not say where it lies, for a
/// service at `base`.
pub fn locate_bare(name: &Vec<char>, base: &str) -> (url: Vec<char>)
    ensures
        url@ == address_of_bare(name@, base@),
{
    let service = without_trailing(&chars_of(base), '/');
    if begins_with(name, "/") {
        let root = match find_segment(&service, &chars_of("/v2")) {
            Some(at) => slice_of(&service, 0, at),
            None => {
                let whole = slice_of(&service, 0, service.len());
                assert(whole@ =~= service@);
                whole
            },
        };
        let mut url = without_trailing(&root, '/');
        append_chars(&mut url, name);
        url
    } else {
        let mut url = service;
        append_chars(&mut url, &chars_of("/charts/"));
        append_chars(&mut url, name);
        url
    }
}

/// The address of the first PDF document that the value names, for a
/// service at `base`; none where it names no PDF document.
pub fn find_first_pdf_url(v: &Json, base: &str) -> (url: Option<String>)
    ensures
        match url {
            Some(u) => first_pdf_address(*v, base@) == Some(u@),
            None => first_pdf_address(*v, base@) is None,
        },
{
    let mut texts: Vec<Vec<char>> = Vec::new();
    assert(word_texts(texts@) =~= Seq::<Seq<char>>::empty());
    collect_texts(v, &mut texts);
    assert(Seq::<Seq<char>>::empty() + leaf_texts(*v) =~= leaf_texts(*v));
    match first_document(&texts, true) {
        Some(i) => {
            if begins_with(&texts[i], "//") {
                let mut url = chars_of("https:");
                append_chars(&mut url, &texts[i]);
                Some(string_of(&url))
            } else {
                Some(string_of(&texts[i]))
            }
        },
        None => match first_document(&texts, false) {
            Some(i) => Some(string_of(&locate_bare(&texts[i], base))),
            None => None,
        },
    }
}

} // verus!
