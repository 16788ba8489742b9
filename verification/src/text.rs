//! Verified helpers for comparing and ordering strings character by character.

use vstd::prelude::*;
use vstd::string::StrSliceExecFns;

verus! {

/// Lexicographic order on character sequences, by Unicode scalar value.
pub open spec fn lex_leq(a: Seq<char>, b: Seq<char>) -> bool
    decreases a.len(),
{
    if a.len() == 0 {
        true
    } else if b.len() == 0 {
        false
    } else if a[0] == b[0] {
        lex_leq(a.drop_first(), b.drop_first())
    } else {
        (a[0] as u32) < (b[0] as u32)
    }
}

/// Whether `s` is sorted under `lex_leq`.
pub open spec fn lex_sorted(s: Seq<Seq<char>>) -> bool {
    forall|i: int, j: int| 0 <= i < j < s.len() ==> lex_leq(s[i], s[j])
}

/// Character-wise string equality, decided against the views.
pub fn str_eq(a: &str, b: &str) -> (r: bool)
    ensures
        r == (a@ == b@),
    decreases a@.len(),
{
    let an = a.unicode_len();
    let bn = b.unicode_len();
    if an != bn {
        false
    } else if an == 0 {
        proof {
            assert(a@ =~= b@);
        }
        true
    } else {
        let ca = a.get_char(0);
        let cb = b.get_char(0);
        if ca != cb {
            false
        } else {
            let r = str_eq(a.substring_char(1, an), b.substring_char(1, bn));
            proof {
                if r {
                    assert(a@ =~= b@) by {
                        assert(a@.subrange(1, an as int) =~= b@.subrange(1, bn as int));
                        assert(forall|i: int|
                            1 <= i < a@.len() ==> a@[i] == a@.subrange(1, an as int)[i - 1]);
                    }
                } else {
                    assert(a@.subrange(1, an as int) != b@.subrange(1, bn as int));
                    if a@ == b@ {
                        assert(a@.subrange(1, an as int) =~= b@.subrange(1, bn as int));
                    }
                }
            }
            r
        }
    }
}

/// Lexicographic string comparison, decided against `lex_leq` of the views.
pub fn str_leq(a: &str, b: &str) -> (r: bool)
    ensures
        r == lex_leq(a@, b@),
    decreases a@.len(),
{
    let an = a.unicode_len();
    let bn = b.unicode_len();
    if an == 0 {
        true
    } else if bn == 0 {
        false
    } else {
        let ca = a.get_char(0);
        let cb = b.get_char(0);
        if ca == cb {
            let r = str_leq(a.substring_char(1, an), b.substring_char(1, bn));
            proof {
                assert(a@.subrange(1, an as int) =~= a@.drop_first());
                assert(b@.subrange(1, bn as int) =~= b@.drop_first());
            }
            r
        } else {
            (ca as u32) < (cb as u32)
        }
    }
}

/// `lex_leq` is total: any two sequences compare in one direction or the other.
pub proof fn lemma_lex_leq_total(a: Seq<char>, b: Seq<char>)
    ensures
        lex_leq(a, b) || lex_leq(b, a),
    decreases a.len(),
{
    if a.len() != 0 && b.len() != 0 {
        if a[0] == b[0] {
            lemma_lex_leq_total(a.drop_first(), b.drop_first());
        } else {
            vstd::utf8::char_u32_cast(a[0], a[0] as u32);
            vstd::utf8::char_u32_cast(b[0], b[0] as u32);
            assert((a[0] as u32) != (b[0] as u32));
        }
    }
}

/// `lex_leq` is reflexive.
pub proof fn lemma_lex_leq_refl(a: Seq<char>)
    ensures
        lex_leq(a, a),
    decreases a.len(),
{
    if a.len() != 0 {
        lemma_lex_leq_refl(a.drop_first());
    }
}

/// `lex_leq` is antisymmetric: two sequences each at most the other are one.
pub proof fn lemma_lex_leq_antisym(a: Seq<char>, b: Seq<char>)
    requires
        lex_leq(a, b),
        lex_leq(b, a),
    ensures
        a == b,
    decreases a.len(),
{
    if a.len() == 0 {
        assert(b.len() == 0);
        assert(a =~= b);
    } else {
        assert(b.len() != 0);
        if a[0] == b[0] {
            lemma_lex_leq_antisym(a.drop_first(), b.drop_first());
            assert(a =~= b) by {
                assert(a.drop_first() == b.drop_first());
                assert(forall|i: int| 1 <= i < a.len() ==> a[i] == a.drop_first()[i - 1]);
                assert(forall|i: int| 1 <= i < b.len() ==> b[i] == b.drop_first()[i - 1]);
            }
        } else {
            assert((a[0] as u32) < (b[0] as u32) && (b[0] as u32) < (a[0] as u32));
            assert(false);
        }
    }
}

/// `lex_leq` is transitive.
pub proof fn lemma_lex_leq_trans(a: Seq<char>, b: Seq<char>, c: Seq<char>)
    requires
        lex_leq(a, b),
        lex_leq(b, c),
    ensures
        lex_leq(a, c),
    decreases a.len(),
{
    if a.len() != 0 && b.len() != 0 && c.len() != 0 {
        if a[0] == b[0] && b[0] == c[0] {
            lemma_lex_leq_trans(a.drop_first(), b.drop_first(), c.drop_first());
        }
    }
}

} // verus!
