//! Low-level string building helper.

use vstd::prelude::*;

verus! {

/// The character sequences a string vector holds, in order.
pub open spec fn views_of_strings(v: Seq<String>) -> Seq<Seq<char>> {
    v.map_values(|s: String| s@)
}

/// Relies on `String::push`, which appends the given character to the
/// end of the string.
#[verifier::external_body]
pub(crate) fn push_char(s: &mut String, c: char)
    ensures
        final(s)@ == old(s)@ + seq![c],
{
    s.push(c);
}

/// The parts joined with single spaces between them.
pub open spec fn joined_spaced(parts: Seq<Seq<char>>) -> Seq<char>
    decreases parts.len(),
{
    if parts.len() == 0 {
        Seq::empty()
    } else if parts.len() == 1 {
        parts[0]
    } else {
        joined_spaced(parts.drop_last()) + seq![' '] + parts.last()
    }
}

/// Join the word list into one token, space-separated.
pub fn join_spaced(parts: &Vec<String>) -> (r: String)
    ensures
        r@ == joined_spaced(views_of_strings(parts@)),
{
    let mut out = String::new();
    let n = parts.len();
    proof {
        assert(views_of_strings(parts@).take(0) =~= Seq::<Seq<char>>::empty());
    }
    let mut i: usize = 0;
    while i < n
        invariant
            n == parts@.len(),
            i <= n,
            out@ == joined_spaced(views_of_strings(parts@).take(i as int)),
        decreases n - i,
    {
        if i > 0 {
            push_char(&mut out, ' ');
        }
        out.append(parts[i].as_str());
        proof {
            let pv = views_of_strings(parts@);
            assert(pv.take(i as int + 1).drop_last() =~= pv.take(i as int));
            assert(pv.take(i as int + 1).last() == pv[i as int]);
            assert(pv[i as int] == parts@[i as int]@);
            if i == 0 {
                assert(out@ =~= pv[0]);
            } else {
                assert(out@ =~= joined_spaced(pv.take(i as int)) + seq![' '] + pv[i as int]);
            }
        }
        i = i + 1;
    }
    proof {
        assert(views_of_strings(parts@).take(n as int) =~= views_of_strings(parts@));
    }
    out
}

} // verus!
