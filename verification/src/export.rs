//! Export formatter: renders a sampled byte vector as a space-separated list
//! of decimal values followed by a `" Size: <N>"` suffix, where `N` is the
//! number of elements.

use vstd::prelude::*;
use vstd::string::StringExecFns;

verus! {

/// The character for a single decimal digit `d` in `0..10`.
pub open spec fn digit_char(d: int) -> char {
    if d == 0 {
        '0'
    } else if d == 1 {
        '1'
    } else if d == 2 {
        '2'
    } else if d == 3 {
        '3'
    } else if d == 4 {
        '4'
    } else if d == 5 {
        '5'
    } else if d == 6 {
        '6'
    } else if d == 7 {
        '7'
    } else if d == 8 {
        '8'
    } else {
        '9'
    }
}

/// The decimal representation of `n`, most significant digit first,
/// with no leading zeros (except for `n == 0` itself).
pub open spec fn dec_rep(n: nat) -> Seq<char>
    decreases n,
{
    if n < 10 {
        seq![digit_char(n as int)]
    } else {
        dec_rep(n / 10) + seq![digit_char((n % 10) as int)]
    }
}

/// The decimal representations of the elements of `s`, joined with single
/// spaces; empty when `s` is empty.
pub open spec fn joined_rep(s: Seq<u8>) -> Seq<char>
    decreases s.len(),
{
    if s.len() == 0 {
        Seq::empty()
    } else if s.len() == 1 {
        dec_rep(s[0] as nat)
    } else {
        joined_rep(s.drop_last()) + seq![' '] + dec_rep(s.last() as nat)
    }
}

/// The full export string for a sampled vector: the joined decimal elements
/// followed by the literal size suffix. For an empty vector the join is empty,
/// so the result starts with the suffix's leading space.
pub open spec fn export_rep(s: Seq<u8>) -> Seq<char> {
    joined_rep(s) + " Size: "@ + dec_rep(s.len())
}

/// Appends the decimal representation of `n` to `out`.
fn push_decimal(out: &mut String, n: u64)
    ensures
        final(out)@ == old(out)@ + dec_rep(n as nat),
    decreases n,
{
    if n >= 10 {
        push_decimal(out, n / 10);
    }
    let d: u64 = n % 10;
    let ds: &str = if d == 0 {
        "0"
    } else if d == 1 {
        "1"
    } else if d == 2 {
        "2"
    } else if d == 3 {
        "3"
    } else if d == 4 {
        "4"
    } else if d == 5 {
        "5"
    } else if d == 6 {
        "6"
    } else if d == 7 {
        "7"
    } else if d == 8 {
        "8"
    } else {
        "9"
    };
    proof {
        reveal_strlit("0");
        reveal_strlit("1");
        reveal_strlit("2");
        reveal_strlit("3");
        reveal_strlit("4");
        reveal_strlit("5");
        reveal_strlit("6");
        reveal_strlit("7");
        reveal_strlit("8");
        reveal_strlit("9");
        assert(ds@ =~= seq![digit_char(d as int)]);
    }
    out.append(ds);
    proof {
        if n < 10 {
            assert(out@ =~= old(out)@ + dec_rep(n as nat));
        } else {
            assert(out@ =~= old(out)@ + dec_rep(n as nat));
        }
    }
}

/// Serializes a sampled vector for export: every element in decimal, in
/// order, separated by single spaces, followed by `" Size: <N>"` where `N`
/// is the element count.
pub fn format(v: &Vec<u8>) -> (r: String)
    ensures
        r@ == export_rep(v@),
{
    let mut out = String::new();
    let mut i: usize = 0;
    while i < v.len()
        invariant
            i <= v.len(),
            out@ == joined_rep(v@.take(i as int)),
        decreases v.len() - i,
    {
        if i > 0 {
            out.append(" ");
            proof {
                reveal_strlit(" ");
            }
        }
        push_decimal(&mut out, v[i] as u64);
        proof {
            let t = v@.take(i as int + 1);
            assert(t.drop_last() =~= v@.take(i as int));
            assert(t.last() == v@[i as int]);
            if i == 0 {
                assert(out@ =~= joined_rep(t));
            } else {
                assert(out@ =~= joined_rep(t));
            }
        }
        i = i + 1;
    }
    proof {
        assert(v@.take(v@.len() as int) =~= v@);
    }
    out.append(" Size: ");
    push_decimal(&mut out, v.len() as u64);
    proof {
        assert(out@ =~= export_rep(v@));
    }
    out
}

} // verus!
