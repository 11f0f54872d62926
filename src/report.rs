//! Ordering the collected `(input, length)` pairs and rendering them as text.
use vstd::prelude::*;

verus! {

broadcast use vstd::seq_lib::to_multiset_insert;

/// The order of the pairs: by input, then by length.
pub open spec fn pair_le(a: (u128, u128), b: (u128, u128)) -> bool {
    a.0 < b.0 || (a.0 == b.0 && a.1 <= b.1)
}

/// The pairs stand in ascending order.
pub open spec fn is_sorted(s: Seq<(u128, u128)>) -> bool {
    forall|i: int, j: int| 0 <= i < j < s.len() ==> pair_le(#[trigger] s[i], #[trigger] s[j])
}

/// The decimal digits of `n` as ASCII bytes, most significant first.
pub open spec fn decimal(n: nat) -> Seq<u8>
    decreases n,
{
    if n < 10 {
        seq![(48 + n) as u8]
    } else {
        decimal(n / 10).push((48 + n % 10) as u8)
    }
}

/// One report line: `"<input>, <length>\n"`.
pub open spec fn line(p: (u128, u128)) -> Seq<u8> {
    decimal(p.0 as nat) + seq![44u8, 32u8] + decimal(p.1 as nat) + seq![10u8]
}

/// The report: one line per pair, in the order given.
pub open spec fn report(s: Seq<(u128, u128)>) -> Seq<u8>
    decreases s.len(),
{
    if s.len() == 0 {
        Seq::empty()
    } else {
        report(s.drop_last()) + line(s.last())
    }
}

/// Returns the pairs of `results` in ascending order, by input and then by
/// length: the same pairs, each as often as it occurs there.
pub fn sort_results(results: &Vec<(u128, u128)>) -> (r: Vec<(u128, u128)>)
    ensures
        is_sorted(r@),
        r@.to_multiset() == results@.to_multiset(),
{
    let mut out: Vec<(u128, u128)> = Vec::new();
    let mut i: usize = 0;
    proof {
        assert(out@ =~= results@.take(0));
    }
    while i < results.len()
        invariant
            i <= results.len(),
            is_sorted(out@),
            out@.to_multiset() == results@.take(i as int).to_multiset(),
        decreases results.len() - i,
    {
        let x = results[i];
        let mut j: usize = 0;
        while j < out.len() && (out[j].0 < x.0 || (out[j].0 == x.0 && out[j].1 <= x.1))
            invariant
                j <= out.len(),
                forall|k: int| 0 <= k < j ==> pair_le(#[trigger] out@[k], x),
            decreases out.len() - j,
        {
            j = j + 1;
        }
        let ghost before = out@;
        out.insert(j, x);
        proof {
            assert(out@ == before.insert(j as int, x));
            assert(results@.take(i as int + 1) == results@.take(i as int).push(x));
            assert(results@.take(i as int).push(x) == results@.take(i as int).insert(i as int, x));
            assert forall|a: int, b: int| 0 <= a < b < out@.len() implies pair_le(
                #[trigger] out@[a],
                #[trigger] out@[b],
            ) by {
                if b < j {
                    assert(pair_le(before[a], before[b]));
                } else if b == j {
                    assert(pair_le(before[a], x));
                } else if a < j {
                    assert(pair_le(before[a], x));
                    assert(!pair_le(before[j as int], x));
                    if b - 1 > j {
                        assert(pair_le(before[j as int], before[b - 1]));
                    }
                } else if a == j {
                    assert(!pair_le(before[j as int], x));
                    if b - 1 > j {
                        assert(pair_le(before[j as int], before[b - 1]));
                    }
                } else {
                    assert(pair_le(before[a - 1], before[b - 1]));
                }
            }
        }
        i = i + 1;
    }
    proof {
        assert(results@.take(results@.len() as int) == results@);
    }
    out
}

/// Appends the decimal digits of `n` to `out`.
pub fn push_decimal(out: &mut Vec<u8>, n: u128)
    ensures
        final(out)@ == old(out)@ + decimal(n as nat),
    decreases n,
{
    if n >= 10 {
        push_decimal(out, n / 10);
    }
    let d: u8 = (n % 10) as u8;
    out.push(48 + d);
    proof {
        assert(final(out)@ =~= old(out)@ + decimal(n as nat));
    }
}

/// Renders the pairs as the report text: for each pair in the order given,
/// a line `"<input>, <length>\n"` in ASCII.
pub fn render_report(results: &Vec<(u128, u128)>) -> (r: Vec<u8>)
    ensures
        r@ == report(results@),
{
    let mut out: Vec<u8> = Vec::new();
    let mut i: usize = 0;
    while i < results.len()
        invariant
            i <= results.len(),
            out@ == report(results@.take(i as int)),
        decreases results.len() - i,
    {
        let p = results[i];
        let ghost before = out@;
        push_decimal(&mut out, p.0);
        out.push(44);
        out.push(32);
        push_decimal(&mut out, p.1);
        out.push(10);
        proof {
            let t = results@.take(i as int + 1);
            assert(t.drop_last() == results@.take(i as int));
            assert(t.last() == p);
            assert(out@ =~= before + line(p));
        }
        i = i + 1;
    }
    proof {
        assert(results@.take(results@.len() as int) == results@);
    }
    out
}

} // verus!
