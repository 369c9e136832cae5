//! Rendering of Unix permission bits as the familiar `rwxr-xr-x` text.

use vstd::prelude::*;
use crate::text::string_of;

verus! {

/// The letter shown at position `i` (0 = owner read, 8 = other execute) when
/// the corresponding bit is set.
pub open spec fn permission_letter(i: int) -> char {
    if i % 3 == 0 {
        'r'
    } else if i % 3 == 1 {
        'w'
    } else {
        'x'
    }
}

/// The mode bit that position `i` of the text stands for.
pub open spec fn permission_mask(i: int) -> u32 {
    if i == 0 {
        0o400
    } else if i == 1 {
        0o200
    } else if i == 2 {
        0o100
    } else if i == 3 {
        0o040
    } else if i == 4 {
        0o020
    } else if i == 5 {
        0o010
    } else if i == 6 {
        0o004
    } else if i == 7 {
        0o002
    } else {
        0o001
    }
}

/// The character at position `i` of the text for mode `perm`.
pub open spec fn permission_char(perm: u32, i: int) -> char {
    if perm & permission_mask(i) != 0 {
        permission_letter(i)
    } else {
        '-'
    }
}

/// The nine-character text for mode `perm`: owner, group, other, each as
/// `r`, `w`, `x` or `-`.
pub open spec fn permission_text(perm: u32) -> Seq<char> {
    Seq::new(9, |i: int| permission_char(perm, i))
}

/// Renders the low nine bits of `perm` as text such as `rwxr-xr-x`.
pub fn format_permissions(perm: u32) -> (s: String)
    ensures
        s@ == permission_text(perm),
{
    let mut v: Vec<char> = Vec::new();
    v.push(if perm & 0o400 != 0 { 'r' } else { '-' });
    v.push(if perm & 0o200 != 0 { 'w' } else { '-' });
    v.push(if perm & 0o100 != 0 { 'x' } else { '-' });
    v.push(if perm & 0o040 != 0 { 'r' } else { '-' });
    v.push(if perm & 0o020 != 0 { 'w' } else { '-' });
    v.push(if perm & 0o010 != 0 { 'x' } else { '-' });
    v.push(if perm & 0o004 != 0 { 'r' } else { '-' });
    v.push(if perm & 0o002 != 0 { 'w' } else { '-' });
    v.push(if perm & 0o001 != 0 { 'x' } else { '-' });
    assert(v@ =~= permission_text(perm));
    let n = v.len();
    let s = string_of(&v, 0, n);
    assert(v@.subrange(0, n as int) =~= v@);
    s
}

/// Whether `s` is a text that some mode renders to: nine characters, each
/// either the letter of its position or `-`.
pub open spec fn is_permission_text(s: Seq<char>) -> bool {
    &&& s.len() == 9
    &&& forall|i: int| 0 <= i < 9 ==> s[i] == permission_letter(i) || s[i] == '-'
}

/// The mode bit that position `i` of the text `s` contributes.
pub open spec fn text_bit(s: Seq<char>, i: int) -> u32 {
    if s[i] != '-' {
        permission_mask(i)
    } else {
        0
    }
}

/// The nine-bit mode that the text `s` stands for.
pub open spec fn text_mode(s: Seq<char>) -> u32 {
    text_bit(s, 0) | text_bit(s, 1) | text_bit(s, 2) | text_bit(s, 3) | text_bit(s, 4)
        | text_bit(s, 5) | text_bit(s, 6) | text_bit(s, 7) | text_bit(s, 8)
}

/// Reading a rendered mode back gives the low nine bits of the mode: the
/// text keeps all of them and nothing else.
pub proof fn lemma_text_mode_of_permission_text(perm: u32)
    ensures
        is_permission_text(permission_text(perm)),
        text_mode(permission_text(perm)) == perm & 0o777,
{
    let s = permission_text(perm);
    assert(((if perm & 0o400 != 0 { 0o400u32 } else { 0 })
        | (if perm & 0o200 != 0 { 0o200u32 } else { 0 })
        | (if perm & 0o100 != 0 { 0o100u32 } else { 0 })
        | (if perm & 0o040 != 0 { 0o040u32 } else { 0 })
        | (if perm & 0o020 != 0 { 0o020u32 } else { 0 })
        | (if perm & 0o010 != 0 { 0o010u32 } else { 0 })
        | (if perm & 0o004 != 0 { 0o004u32 } else { 0 })
        | (if perm & 0o002 != 0 { 0o002u32 } else { 0 })
        | (if perm & 0o001 != 0 { 0o001u32 } else { 0 })) == perm & 0o777) by (bit_vector);
}

/// Every well-formed text is the rendering of the mode it stands for, and
/// that mode lies below 512.
pub proof fn lemma_permission_text_of_text_mode(s: Seq<char>)
    requires
        is_permission_text(s),
    ensures
        text_mode(s) < 512,
        permission_text(text_mode(s)) == s,
{
    let b0 = text_bit(s, 0);
    let b1 = text_bit(s, 1);
    let b2 = text_bit(s, 2);
    let b3 = text_bit(s, 3);
    let b4 = text_bit(s, 4);
    let b5 = text_bit(s, 5);
    let b6 = text_bit(s, 6);
    let b7 = text_bit(s, 7);
    let b8 = text_bit(s, 8);
    let m = b0 | b1 | b2 | b3 | b4 | b5 | b6 | b7 | b8;
    assert(m < 512 && m & 0o400 == b0 && m & 0o200 == b1 && m & 0o100 == b2 && m & 0o040 == b3
        && m & 0o020 == b4 && m & 0o010 == b5 && m & 0o004 == b6 && m & 0o002 == b7 && m
        & 0o001 == b8) by (bit_vector)
        requires
            m == b0 | b1 | b2 | b3 | b4 | b5 | b6 | b7 | b8,
            b0 == 0 || b0 == 0o400,
            b1 == 0 || b1 == 0o200,
            b2 == 0 || b2 == 0o100,
            b3 == 0 || b3 == 0o040,
            b4 == 0 || b4 == 0o020,
            b5 == 0 || b5 == 0o010,
            b6 == 0 || b6 == 0o004,
            b7 == 0 || b7 == 0o002,
            b8 == 0 || b8 == 0o001,
    ;
    assert(permission_text(m) =~= s);
}

/// Two modes render to the same text exactly when their low nine bits
/// agree.
pub proof fn lemma_permission_text_injective(a: u32, b: u32)
    ensures
        permission_text(a) == permission_text(b) <==> a & 0o777 == b & 0o777,
{
    lemma_text_mode_of_permission_text(a);
    lemma_text_mode_of_permission_text(b);
    if a & 0o777 == b & 0o777 {
        assert(a & 0o400 == b & 0o400 && a & 0o200 == b & 0o200 && a & 0o100 == b & 0o100 && a
            & 0o040 == b & 0o040 && a & 0o020 == b & 0o020 && a & 0o010 == b & 0o010 && a
            & 0o004 == b & 0o004 && a & 0o002 == b & 0o002 && a & 0o001 == b & 0o001)
            by (bit_vector)
            requires
                a & 0o777 == b & 0o777,
        ;
        assert(permission_text(a) =~= permission_text(b));
    }
}

} // verus!
