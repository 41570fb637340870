//! Lexicographic order on character sequences (by Unicode scalar
//! value), with the total-order lemmas the link list needs, and a
//! sorting deduplication pass over owned strings.

use vstd::prelude::*;
use vstd::string::StrSliceExecFns;

verus! {

/// `a` is lexicographically at or before `b`, comparing scalar values.
pub open spec fn lex_le(a: Seq<char>, b: Seq<char>) -> bool
    decreases a.len(),
{
    if a.len() == 0 {
        true
    } else if b.len() == 0 {
        false
    } else if (a[0] as u32) < (b[0] as u32) {
        true
    } else if (a[0] as u32) > (b[0] as u32) {
        false
    } else {
        lex_le(a.drop_first(), b.drop_first())
    }
}

pub open spec fn lex_lt(a: Seq<char>, b: Seq<char>) -> bool {
    lex_le(a, b) && a != b
}

/// Casting to a scalar value loses nothing: equal scalars mean equal
/// characters.
proof fn lemma_char_scalar_injective(c1: char, c2: char)
    requires
        c1 as u32 == c2 as u32,
    ensures
        c1 == c2,
{
    vstd::utf8::char_u32_cast(c1, c1 as u32);
    vstd::utf8::char_u32_cast(c2, c2 as u32);
}

/// Any two sequences are ordered one way or the other.
pub proof fn lemma_lex_le_total(a: Seq<char>, b: Seq<char>)
    ensures
        lex_le(a, b) || lex_le(b, a),
    decreases a.len(),
{
    if a.len() > 0 && b.len() > 0 && (a[0] as u32) == (b[0] as u32) {
        lemma_lex_le_total(a.drop_first(), b.drop_first());
    }
}

/// Mutual order means equality.
pub proof fn lemma_lex_le_antisymmetric(a: Seq<char>, b: Seq<char>)
    requires
        lex_le(a, b),
        lex_le(b, a),
    ensures
        a == b,
    decreases a.len(),
{
    if a.len() == 0 {
        assert(b.len() == 0);
        assert(a =~= b);
    } else {
        assert((a[0] as u32) == (b[0] as u32));
        lemma_char_scalar_injective(a[0], b[0]);
        lemma_lex_le_antisymmetric(a.drop_first(), b.drop_first());
        assert(a =~= b) by {
            assert(forall|i: int|
                1 <= i < a.len() ==> #[trigger] a[i] == a.drop_first()[i - 1]
                    && b[i] == b.drop_first()[i - 1]);
        }
    }
}

/// The order is transitive.
pub proof fn lemma_lex_le_transitive(a: Seq<char>, b: Seq<char>, c: Seq<char>)
    requires
        lex_le(a, b),
        lex_le(b, c),
    ensures
        lex_le(a, c),
    decreases a.len(),
{
    if a.len() > 0 && b.len() > 0 && c.len() > 0 && (a[0] as u32) == (b[0] as u32) && (b[0] as u32)
        == (c[0] as u32) {
        lemma_lex_le_transitive(a.drop_first(), b.drop_first(), c.drop_first());
    }
}

/// Executable lexicographic comparison of two strings.
pub fn lex_le_str(a: &str, b: &str) -> (r: bool)
    ensures
        r == lex_le(a@, b@),
{
    let na = a.unicode_len();
    let nb = b.unicode_len();
    proof {
        assert(a@.skip(0) =~= a@);
        assert(b@.skip(0) =~= b@);
    }
    let mut i: usize = 0;
    loop
        invariant
            na == a@.len(),
            nb == b@.len(),
            i <= na,
            i <= nb,
            lex_le(a@, b@) == lex_le(a@.skip(i as int), b@.skip(i as int)),
        decreases na - i,
    {
        proof {
            assert(a@.skip(i as int).len() == na - i);
            assert(b@.skip(i as int).len() == nb - i);
        }
        if i >= na {
            return true;
        }
        if i >= nb {
            return false;
        }
        let ca = a.get_char(i) as u32;
        let cb = b.get_char(i) as u32;
        proof {
            assert(a@.skip(i as int)[0] == a@[i as int]);
            assert(b@.skip(i as int)[0] == b@[i as int]);
            assert(a@.skip(i as int).drop_first() =~= a@.skip(i as int + 1));
            assert(b@.skip(i as int).drop_first() =~= b@.skip(i as int + 1));
        }
        if ca < cb {
            return true;
        }
        if ca > cb {
            return false;
        }
        i = i + 1;
    }
}

/// Some element of `v` reads `x`.
pub open spec fn has_link(v: Seq<String>, x: Seq<char>) -> bool {
    exists|i: int| 0 <= i < v.len() && #[trigger] v[i]@ == x
}

/// Strictly ascending lexicographic order: sorted, with no element
/// repeated.
pub open spec fn strictly_sorted(v: Seq<String>) -> bool {
    forall|i: int, j: int| 0 <= i < j < v.len() ==> lex_lt(#[trigger] v[i]@, #[trigger] v[j]@)
}

/// Sort the strings lexicographically and drop duplicates: the result
/// is strictly ascending and reads exactly the input's values.
pub fn sort_dedup(links: Vec<String>) -> (r: Vec<String>)
    ensures
        strictly_sorted(r@),
        forall|x: Seq<char>| has_link(r@, x) == has_link(links@, x),
{
    let mut out: Vec<String> = Vec::new();
    let mut k: usize = 0;
    while k < links.len()
        invariant
            k <= links@.len(),
            strictly_sorted(out@),
            forall|x: Seq<char>| has_link(out@, x) == has_link(links@.take(k as int), x),
        decreases links@.len() - k,
    {
        let ghost out_before: Seq<String> = out@;
        let x: &String = &links[k];
        let mut j: usize = 0;
        while j < out.len() && !lex_le_str(x.as_str(), out[j].as_str())
            invariant
                j <= out@.len(),
                out@ == out_before,
                strictly_sorted(out@),
                forall|jj: int| 0 <= jj < j ==> !lex_le(x@, #[trigger] out@[jj]@),
            decreases out@.len() - j,
        {
            j = j + 1;
        }
        proof {
            assert forall|jj: int| 0 <= jj < j implies lex_lt(#[trigger] out@[jj]@, x@) by {
                lemma_lex_le_total(x@, out@[jj]@);
            }
        }
        let duplicate: bool = j < out.len() && out[j].eq(x);
        if !duplicate {
            out.insert(j, x.clone());
            proof {
                let t = out@;
                assert(t.len() == out_before.len() + 1);
                assert(t[j as int]@ == x@);
                assert(forall|i: int| 0 <= i < j ==> t[i] == out_before[i]);
                assert(forall|i: int|
                    j < i < t.len() ==> t[i] == out_before[i - 1]);
                if (j as int) < out_before.len() {
                    assert(lex_le(x@, out_before[j as int]@));
                    assert(x@ != out_before[j as int]@);
                }
                assert forall|i1: int, i2: int| 0 <= i1 < i2 < t.len() implies lex_lt(
                    #[trigger] t[i1]@,
                    #[trigger] t[i2]@,
                ) by {
                    if i1 < j && i2 == j {
                    } else if i1 == j && i2 > j {
                        assert(lex_lt(x@, out_before[i2 - 1]@)) by {
                            if (j as int) < out_before.len() && i2 - 1 > j {
                                lemma_lex_le_transitive(x@, out_before[j as int]@, out_before[i2 - 1]@);
                                if x@ == out_before[i2 - 1]@ {
                                    lemma_lex_le_antisymmetric(x@, out_before[j as int]@);
                                }
                            }
                        }
                    } else if i1 < j && i2 > j {
                        assert(lex_lt(out_before[i1]@, x@));
                        assert(lex_lt(x@, out_before[i2 - 1]@)) by {
                            if i2 - 1 > j {
                                lemma_lex_le_transitive(
                                    x@,
                                    out_before[j as int]@,
                                    out_before[i2 - 1]@,
                                );
                                if x@ == out_before[i2 - 1]@ {
                                    lemma_lex_le_antisymmetric(x@, out_before[j as int]@);
                                }
                            }
                        }
                        lemma_lex_le_transitive(out_before[i1]@, x@, out_before[i2 - 1]@);
                        if out_before[i1]@ == out_before[i2 - 1]@ {
                            lemma_lex_le_antisymmetric(out_before[i1]@, x@);
                        }
                    }
                }
            }
        }
        proof {
            let t = out@;
            assert(links@.take(k as int + 1).drop_last() =~= links@.take(k as int));
            assert(links@.take(k as int + 1).last() == links@[k as int]);
            assert forall|y: Seq<char>| has_link(t, y) == has_link(
                links@.take(k as int + 1),
                y,
            ) by {
                if has_link(t, y) {
                    let i = choose|i: int| 0 <= i < t.len() && t[i]@ == y;
                    if duplicate || y == x@ {
                        if y == x@ {
                            assert(links@.take(k as int + 1)[k as int]@ == y);
                        } else {
                            assert(has_link(out_before, y));
                            assert(has_link(links@.take(k as int), y));
                            let w = choose|w: int|
                                0 <= w < links@.take(k as int).len() && links@.take(k as int)[w]@
                                    == y;
                            assert(links@.take(k as int + 1)[w]@ == y);
                        }
                    } else {
                        if i == j && t[i]@ == x@ {
                            assert(links@.take(k as int + 1)[k as int]@ == y);
                        } else {
                            assert(has_link(out_before, y));
                            let w = choose|w: int|
                                0 <= w < links@.take(k as int).len() && links@.take(k as int)[w]@
                                    == y;
                            assert(links@.take(k as int + 1)[w]@ == y);
                        }
                    }
                }
                if has_link(links@.take(k as int + 1), y) {
                    let w = choose|w: int|
                        0 <= w < links@.take(k as int + 1).len() && #[trigger] links@.take(
                            k as int + 1,
                        )[w]@ == y;
                    if w < k as int {
                        assert(links@.take(k as int)[w]@ == y);
                        assert(has_link(out_before, y));
                        let i = choose|i: int| 0 <= i < out_before.len() && out_before[i]@ == y;
                        if duplicate {
                            assert(t[i]@ == y);
                        } else {
                            if i < j {
                                assert(t[i]@ == y);
                            } else {
                                assert(t[i + 1]@ == y);
                            }
                        }
                    } else {
                        assert(y == links@[k as int]@);
                        assert(t[j as int]@ == x@);
                    }
                }
            }
        }
        k = k + 1;
    }
    proof {
        assert(links@.take(links@.len() as int) =~= links@);
    }
    out
}

} // verus!
