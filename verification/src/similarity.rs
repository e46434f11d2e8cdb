//! How alike two texts are, as a whole number of millionths.
//!
//! The edit distance comes from the `strsim` crate; the score made of it is
//! computed and bounded here.

use vstd::prelude::*;

verus! {

/// The score of two texts that are the same: one, in millionths.
pub const SCORE_ONE: u32 = 1_000_000;

/// The least of three numbers.
pub open spec fn min3(x: nat, y: nat, z: nat) -> nat {
    if x <= y && x <= z {
        x
    } else if y <= z {
        y
    } else {
        z
    }
}

/// The Levenshtein distance of two texts: the least number of characters to
/// insert, delete or replace that turns `a` into `b`.
pub open spec fn edit_distance(a: Seq<char>, b: Seq<char>) -> nat
    decreases a.len() + b.len(),
{
    if a.len() == 0 {
        b.len()
    } else if b.len() == 0 {
        a.len()
    } else {
        let replace: nat = if a.last() == b.last() {
            0
        } else {
            1
        };
        min3(
            edit_distance(a.drop_last(), b.drop_last()) + replace,
            edit_distance(a.drop_last(), b) + 1,
            edit_distance(a, b.drop_last()) + 1,
        )
    }
}

/// The length of the longer of two texts.
pub open spec fn longer_len(a: Seq<char>, b: Seq<char>) -> nat {
    if a.len() >= b.len() {
        a.len()
    } else {
        b.len()
    }
}

/// The likeness of two texts in millionths, rounded down: the share of the
/// longer text that no edit touches. Two empty texts are alike.
pub open spec fn similarity(a: Seq<char>, b: Seq<char>) -> nat {
    let m = longer_len(a, b);
    if m == 0 {
        1_000_000
    } else {
        ((m - edit_distance(a, b)) * 1_000_000 / (m as int)) as nat
    }
}

/// Not proved: `strsim::levenshtein` returns the Levenshtein distance of the
/// two strings, counted in characters.
pub assume_specification[ strsim::levenshtein ](a: &str, b: &str) -> (d: usize)
    ensures
        d == edit_distance(a@, b@),
;

/// No more edits are needed than the longer text has characters.
pub proof fn lemma_edit_distance_bound(a: Seq<char>, b: Seq<char>)
    ensures
        edit_distance(a, b) <= longer_len(a, b),
    decreases a.len() + b.len(),
{
    if a.len() > 0 && b.len() > 0 {
        lemma_edit_distance_bound(a.drop_last(), b.drop_last());
    }
}

/// A text is at distance zero from itself.
pub proof fn lemma_edit_distance_same(a: Seq<char>)
    ensures
        edit_distance(a, a) == 0,
    decreases a.len(),
{
    if a.len() > 0 {
        lemma_edit_distance_same(a.drop_last());
    }
}

/// Distance zero is sameness.
pub proof fn lemma_edit_distance_zero(a: Seq<char>, b: Seq<char>)
    requires
        edit_distance(a, b) == 0,
    ensures
        a == b,
    decreases a.len() + b.len(),
{
    if a.len() == 0 || b.len() == 0 {
        assert(a =~= b);
    } else {
        lemma_edit_distance_zero(a.drop_last(), b.drop_last());
        assert(a =~= a.drop_last().push(a.last()));
        assert(b =~= b.drop_last().push(b.last()));
    }
}

/// The likeness of two texts is at most one, and it is one exactly where the
/// texts are the same.
pub proof fn lemma_similarity_range(a: Seq<char>, b: Seq<char>)
    ensures
        similarity(a, b) <= 1_000_000,
        similarity(a, b) == 1_000_000 <==> a == b,
{
    let m = longer_len(a, b) as int;
    let d = edit_distance(a, b) as int;
    lemma_edit_distance_bound(a, b);
    if m == 0 {
        assert(a =~= b);
    } else {
        assert((m - d) * 1_000_000 / m <= 1_000_000 && (d > 0 ==> (m - d) * 1_000_000 / m
            < 1_000_000) && (d == 0 ==> (m - d) * 1_000_000 / m == 1_000_000) && (m - d)
            * 1_000_000 / m >= 0) by (nonlinear_arith)
            requires
                0 <= d <= m,
                m > 0,
        ;
        if a == b {
            lemma_edit_distance_same(a);
        }
        if d == 0 {
            lemma_edit_distance_zero(a, b);
        }
    }
}

/// How alike `a` and `b` are, in millionths.
pub fn similarity_score(a: &str, b: &str) -> (s: u32)
    ensures
        s == similarity(a@, b@),
        s <= SCORE_ONE,
{
    let la = a.unicode_len();
    let lb = b.unicode_len();
    let m: usize = if la >= lb {
        la
    } else {
        lb
    };
    proof {
        lemma_similarity_range(a@, b@);
        lemma_edit_distance_bound(a@, b@);
    }
    if m == 0 {
        return SCORE_ONE;
    }
    let d = strsim::levenshtein(a, b);
    let kept: u128 = (m - d) as u128;
    assert(kept * 1_000_000 <= 0xffff_ffff_ffff_ffff * 1_000_000) by (nonlinear_arith)
        requires
            kept <= 0xffff_ffff_ffff_ffff,
    ;
    let s: u128 = kept * 1_000_000 / (m as u128);
    s as u32
}

} // verus!
