//! The words of a chart title: runs of capital letters and digits.

use crate::text::{chars_of, contains, find, is_capital, is_digit, lemma_first_occurrence_is_first, slice_of, string_of};
use vstd::prelude::*;

verus! {

/// `c` may stand in a word: a capital letter or a digit.
pub open spec fn is_word_char(c: char) -> bool {
    is_capital(c) || is_digit(c)
}

/// How many word characters `s` begins with.
pub open spec fn run_len(s: Seq<char>) -> nat
    decreases s.len(),
{
    if s.len() > 0 && is_word_char(s[0]) {
        1 + run_len(s.drop_first())
    } else {
        0
    }
}

/// The words of `s` in their order: each is a run of word characters that no
/// word character precedes or follows.
pub open spec fn tokens(s: Seq<char>) -> Seq<Seq<char>>
    decreases s.len(),
{
    if s.len() == 0 {
        Seq::empty()
    } else if !is_word_char(s[0]) {
        tokens(s.drop_first())
    } else {
        proof {
            lemma_run_len_bound(s);
        }
        seq![s.take(run_len(s) as int)] + tokens(s.skip(run_len(s) as int))
    }
}

/// The word stands in some word of the title, or is one.
pub open spec fn held_by(title: Seq<Seq<char>>, word: Seq<char>) -> bool {
    exists|t: int| 0 <= t < title.len() && contains(#[trigger] title[t], word)
}

/// Every word asked for stands in some word of the title.
pub open spec fn covers(title: Seq<Seq<char>>, asked: Seq<Seq<char>>) -> bool {
    forall|q: int| 0 <= q < asked.len() ==> held_by(title, #[trigger] asked[q])
}

/// What each of the given words holds.
pub open spec fn word_texts(words: Seq<Vec<char>>) -> Seq<Seq<char>> {
    words.map_values(|w: Vec<char>| w@)
}

/// What each of the given strings holds.
pub open spec fn string_texts(words: Seq<String>) -> Seq<Seq<char>> {
    words.map_values(|w: String| w@)
}

/// A run is no longer than the text, and not empty where the text begins
/// with a word character.
pub proof fn lemma_run_len_bound(s: Seq<char>)
    ensures
        run_len(s) <= s.len(),
        s.len() > 0 && is_word_char(s[0]) ==> run_len(s) >= 1,
    decreases s.len(),
{
    if s.len() > 0 && is_word_char(s[0]) {
        lemma_run_len_bound(s.drop_first());
    }
}

/// The run at the head of `s` has length `n` where the first `n` characters
/// are word characters and the next one, if there is one, is not.
pub proof fn lemma_run_len_is(s: Seq<char>, n: int)
    requires
        0 <= n <= s.len(),
        forall|k: int| 0 <= k < n ==> is_word_char(#[trigger] s[k]),
        n < s.len() ==> !is_word_char(s[n]),
    ensures
        run_len(s) == n,
    decreases n,
{
    if n > 0 {
        let rest = s.drop_first();
        assert forall|k: int| 0 <= k < n - 1 implies is_word_char(#[trigger] rest[k]) by {
            assert(rest[k] == s[k + 1]);
        }
        lemma_run_len_is(rest, n - 1);
    }
}

/// The words of `s`.
pub fn words_of(s: &Vec<char>) -> (words: Vec<Vec<char>>)
    ensures
        word_texts(words@) == tokens(s@),
{
    let n = s.len();
    let mut words: Vec<Vec<char>> = Vec::new();
    let mut i: usize = 0;
    assert(s@.skip(0) =~= s@);
    assert(word_texts(words@) + tokens(s@) =~= tokens(s@));
    while i < n
        invariant
            n == s.len(),
            i <= n,
            tokens(s@) == word_texts(words@) + tokens(s@.skip(i as int)),
        decreases n - i,
    {
        let ghost rest = s@.skip(i as int);
        let c = s[i];
        if (c >= 'A' && c <= 'Z') || (c >= '0' && c <= '9') {
            let mut j: usize = i + 1;
            while j < n && ((s[j] >= 'A' && s[j] <= 'Z') || (s[j] >= '0' && s[j] <= '9'))
                invariant
                    n == s.len(),
                    i < j <= n,
                    forall|k: int| i <= k < j ==> is_word_char(#[trigger] s@[k]),
                decreases n - j,
            {
                j += 1;
            }
            proof {
                assert forall|k: int| 0 <= k < j - i implies is_word_char(#[trigger] rest[k]) by {
                    assert(rest[k] == s@[i + k]);
                }
                lemma_run_len_is(rest, j - i);
                assert(rest.take(j - i) =~= s@.subrange(i as int, j as int));
                assert(rest.skip(j - i) =~= s@.skip(j as int));
            }
            let word = slice_of(s, i, j);
            let ghost before = word_texts(words@);
            words.push(word);
            assert(word_texts(words@) =~= before + seq![rest.take(j - i)]);
            assert(tokens(s@) =~= word_texts(words@) + tokens(s@.skip(j as int)));
            i = j;
        } else {
            assert(rest.drop_first() =~= s@.skip(i + 1));
            i += 1;
        }
    }
    assert(tokens(s@.skip(n as int)) =~= Seq::<Seq<char>>::empty());
    assert(word_texts(words@) + Seq::<Seq<char>>::empty() =~= word_texts(words@));
    words
}

/// The words of `text`: its runs of capital letters and digits.
pub fn tokenize(text: &str) -> (words: Vec<String>)
    ensures
        string_texts(words@) == tokens(text@),
{
    let s = chars_of(text);
    let inner = words_of(&s);
    let mut words: Vec<String> = Vec::new();
    let mut i: usize = 0;
    while i < inner.len()
        invariant
            i <= inner.len(),
            words.len() == i,
            string_texts(words@) == word_texts(inner@).take(i as int),
        decreases inner.len() - i,
    {
        let w = string_of(&inner[i]);
        let ghost before = words@;
        words.push(w);
        assert forall|k: int| 0 <= k <= i implies string_texts(words@)[k] == word_texts(
            inner@,
        )[k] by {
            if k < i {
                assert(words@[k] == before[k]);
                assert(string_texts(before)[k] == word_texts(inner@).take(i as int)[k]);
            }
        }
        assert(string_texts(words@) =~= word_texts(inner@).take(i + 1));
        i += 1;
    }
    assert(word_texts(inner@).take(inner.len() as int) =~= word_texts(inner@));
    words
}

/// Whether `asked` stands in one of the words of `title`.
pub fn some_word_holds(title: &Vec<Vec<char>>, asked: &Vec<char>) -> (r: bool)
    ensures
        r == held_by(word_texts(title@), asked@),
{
    let mut t: usize = 0;
    while t < title.len()
        invariant
            t <= title.len(),
            forall|k: int| 0 <= k < t ==> !contains(#[trigger] word_texts(title@)[k], asked@),
        decreases title.len() - t,
    {
        let found = find(&title[t], asked);
        proof {
            assert(word_texts(title@)[t as int] == title@[t as int]@);
            if contains(title@[t as int]@, asked@) {
                lemma_first_occurrence_is_first(title@[t as int]@, asked@);
            }
        }
        if found.is_some() {
            return true;
        }
        t += 1;
    }
    false
}

/// Whether every word of `asked` stands in some word of `title`.
pub fn covers_words(title: &Vec<Vec<char>>, asked: &Vec<Vec<char>>) -> (r: bool)
    ensures
        r == covers(word_texts(title@), word_texts(asked@)),
{
    let mut q: usize = 0;
    while q < asked.len()
        invariant
            q <= asked.len(),
            forall|k: int|
                0 <= k < q ==> held_by(word_texts(title@), #[trigger] word_texts(asked@)[k]),
        decreases asked.len() - q,
    {
        let held = some_word_holds(title, &asked[q]);
        assert(word_texts(asked@)[q as int] == asked@[q as int]@);
        if !held {
            return false;
        }
        q += 1;
    }
    true
}

} // verus!
