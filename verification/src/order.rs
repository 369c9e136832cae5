//! The order of a directory listing: directories first, then names without
//! regard to case.

use vstd::prelude::*;

verus! {

/// What `str::to_lowercase` returns for the characters `s`.
pub uninterp spec fn lowercase(s: Seq<char>) -> Seq<char>;

/// `str::to_lowercase` returns the lowercase form of the string, which
/// depends on its characters alone.
pub assume_specification[ str::to_lowercase ](s: &str) -> (r: String)
    ensures
        r@ == lowercase(s@),
;

/// What decides the place of an entry in a listing.
pub struct SortKey {
    pub is_dir: bool,
    pub folded: Seq<char>,
}

/// `a` is at most `b` in dictionary order, characters compared by code
/// point.
pub open spec fn lex_le(a: Seq<char>, b: Seq<char>) -> bool
    decreases a.len(),
{
    if a.len() == 0 {
        true
    } else if b.len() == 0 {
        false
    } else if a[0] != b[0] {
        (a[0] as u32) < (b[0] as u32)
    } else {
        lex_le(a.drop_first(), b.drop_first())
    }
}

/// `a` may stand before `b` in a listing: a directory before anything that
/// is not one, and within each group the folded names in dictionary order.
pub open spec fn key_le(a: SortKey, b: SortKey) -> bool {
    if a.is_dir != b.is_dir {
        a.is_dir
    } else {
        lex_le(a.folded, b.folded)
    }
}

/// Every pair of keys in `s` stands in listing order.
pub open spec fn keys_sorted(s: Seq<SortKey>) -> bool {
    forall|i: int, j: int| 0 <= i < j < s.len() ==> key_le(s[i], s[j])
}

/// Where a new key goes in `s`: behind the last key that may stand before
/// it, so that equal keys keep the order in which they came.
pub open spec fn insertion_point(s: Seq<SortKey>, k: SortKey) -> int
    decreases s.len(),
{
    if s.len() == 0 {
        0
    } else if key_le(s.last(), k) {
        s.len() as int
    } else {
        insertion_point(s.drop_last(), k)
    }
}

/// Dictionary order relates every text to itself.
pub proof fn lemma_lex_le_reflexive(a: Seq<char>)
    ensures
        lex_le(a, a),
    decreases a.len(),
{
    if a.len() > 0 {
        lemma_lex_le_reflexive(a.drop_first());
    }
}

/// Of two texts one is at most the other.
pub proof fn lemma_lex_le_total(a: Seq<char>, b: Seq<char>)
    ensures
        lex_le(a, b) || lex_le(b, a),
    decreases a.len(),
{
    if a.len() > 0 && b.len() > 0 {
        if a[0] == b[0] {
            lemma_lex_le_total(a.drop_first(), b.drop_first());
        } else {
            vstd::utf8::char_u32_cast(a[0], a[0] as u32);
            vstd::utf8::char_u32_cast(b[0], b[0] as u32);
        }
    }
}

/// Dictionary order is transitive.
pub proof fn lemma_lex_le_transitive(a: Seq<char>, b: Seq<char>, c: Seq<char>)
    requires
        lex_le(a, b),
        lex_le(b, c),
    ensures
        lex_le(a, c),
    decreases a.len(),
{
    if a.len() > 0 && b.len() > 0 && c.len() > 0 && a[0] == b[0] && b[0] == c[0] {
        lemma_lex_le_transitive(a.drop_first(), b.drop_first(), c.drop_first());
    }
}

/// Listing order is total and transitive.
pub proof fn lemma_key_le_total_preorder(a: SortKey, b: SortKey, c: SortKey)
    ensures
        key_le(a, a),
        key_le(a, b) || key_le(b, a),
        key_le(a, b) && key_le(b, c) ==> key_le(a, c),
{
    lemma_lex_le_reflexive(a.folded);
    lemma_lex_le_total(a.folded, b.folded);
    if key_le(a, b) && key_le(b, c) && a.is_dir == b.is_dir && b.is_dir == c.is_dir {
        lemma_lex_le_transitive(a.folded, b.folded, c.folded);
    }
}

/// The insertion point lies within the sequence; the key before it may
/// stand before the new key, and no key from it on may.
pub proof fn lemma_insertion_point(s: Seq<SortKey>, k: SortKey)
    ensures
        0 <= insertion_point(s, k) <= s.len(),
        insertion_point(s, k) > 0 ==> key_le(s[insertion_point(s, k) - 1], k),
        forall|j: int| insertion_point(s, k) <= j < s.len() ==> !key_le(#[trigger] s[j], k),
    decreases s.len(),
{
    if s.len() > 0 && !key_le(s.last(), k) {
        lemma_insertion_point(s.drop_last(), k);
        assert forall|j: int| insertion_point(s, k) <= j < s.len() implies !key_le(
            #[trigger] s[j],
            k,
        ) by {
            if j < s.len() - 1 {
                assert(s.drop_last()[j] == s[j]);
            }
        }
    }
}

/// Placing a key at its insertion point keeps a sorted sequence sorted.
pub proof fn lemma_insert_keeps_sorted(s: Seq<SortKey>, k: SortKey)
    requires
        keys_sorted(s),
    ensures
        keys_sorted(s.insert(insertion_point(s, k), k)),
{
    let p = insertion_point(s, k);
    let t = s.insert(p, k);
    lemma_insertion_point(s, k);
    assert forall|i: int, j: int| 0 <= i < j < t.len() implies key_le(t[i], t[j]) by {
        if j < p {
            assert(t[i] == s[i] && t[j] == s[j]);
        } else if j == p {
            assert(t[i] == s[i]);
            lemma_key_le_total_preorder(s[i], s[p - 1], k);
            if i < p - 1 {
                assert(key_le(s[i], s[p - 1]));
            }
        } else if i < p {
            assert(t[i] == s[i] && t[j] == s[j - 1]);
        } else if i == p {
            assert(t[j] == s[j - 1]);
            assert(!key_le(s[j - 1], k));
            lemma_key_le_total_preorder(k, s[j - 1], k);
        } else {
            assert(t[i] == s[i - 1] && t[j] == s[j - 1]);
        }
    }
}

/// Whether `a` is at most `b` in dictionary order.
pub fn text_le(a: &Vec<char>, b: &Vec<char>) -> (r: bool)
    ensures
        r == lex_le(a@, b@),
{
    let mut i: usize = 0;
    assert(a@.skip(0) =~= a@ && b@.skip(0) =~= b@);
    while i < a.len() && i < b.len()
        invariant
            i <= a.len(),
            i <= b.len(),
            lex_le(a@, b@) == lex_le(a@.skip(i as int), b@.skip(i as int)),
        decreases a.len() - i,
    {
        let x = a[i];
        let y = b[i];
        assert(a@.skip(i as int)[0] == x && b@.skip(i as int)[0] == y);
        if x != y {
            return (x as u32) < (y as u32);
        }
        assert(a@.skip(i as int).drop_first() =~= a@.skip(i + 1));
        assert(b@.skip(i as int).drop_first() =~= b@.skip(i + 1));
        i = i + 1;
    }
    i == a.len()
}

} // verus!
