//! Laws of merging app profiles: what merging keeps of their usage.
use crate::app_profile::{best_index, fold_merge, key_matches, lemma_best_index, merge_view, merged, unmatched, ProfileView};
use vstd::prelude::*;

verus! {

/// `x` and `y` are equal modulo 2^64: the counters wrap at the `i64` bounds.
pub open spec fn same_mod_2_64(x: int, y: int) -> bool {
    (x - y) % 0x1_0000_0000_0000_0000 == 0
}

/// Sums of pairs equal modulo 2^64 are equal modulo 2^64.
proof fn lemma_same_mod_add(a: int, b: int, c: int, d: int)
    requires
        same_mod_2_64(a, b),
        same_mod_2_64(c, d),
    ensures
        same_mod_2_64(a + c, b + d),
{
    let m: int = 0x1_0000_0000_0000_0000;
    vstd::arithmetic::div_mod::lemma_fundamental_div_mod(a - b, m);
    vstd::arithmetic::div_mod::lemma_fundamental_div_mod(c - d, m);
    let q1 = (a - b) / m;
    let q2 = (c - d) / m;
    assert(a + c - (b + d) == m * (q1 + q2)) by (nonlinear_arith)
        requires
            a - b == m * q1,
            c - d == m * q2,
    ;
    vstd::arithmetic::div_mod::lemma_mod_multiples_basic(q1 + q2, m);
    vstd::arithmetic::mul::lemma_mul_is_commutative(m, q1 + q2);
}

/// A wrapping sum equals the true sum modulo 2^64.
proof fn lemma_wrapping_same_mod(x: i64, y: i64)
    ensures
        same_mod_2_64(x.wrapping_add(y) as int, x + y),
{
    let m: int = 0x1_0000_0000_0000_0000;
    let w = x.wrapping_add(y) as int;
    assert(w - (x + y) == 0 || w - (x + y) == m || w - (x + y) == -m);
    assert((0int) % m == 0);
    assert(m % m == 0);
    assert((-m) % m == 0);
}

/// Merging one profile into another loses nothing: the record counts add
/// up, and the active time, uptime, activations and launches are the sums
/// of the two profiles' (modulo 2^64, as the counters wrap); the key stays,
/// and the app counts as foreground when either was.
pub proof fn lemma_merge_view_sums(t: ProfileView, s: ProfileView)
    ensures
        merge_view(t, s).bundle_id == t.bundle_id,
        merge_view(t, s).record_count == t.record_count + s.record_count,
        same_mod_2_64(merge_view(t, s).active_seconds as int, t.active_seconds + s.active_seconds),
        same_mod_2_64(merge_view(t, s).uptime_seconds as int, t.uptime_seconds + s.uptime_seconds),
        same_mod_2_64(merge_view(t, s).activations as int, t.activations + s.activations),
        same_mod_2_64(merge_view(t, s).launches as int, t.launches + s.launches),
        merge_view(t, s).foreground == (t.foreground || s.foreground),
{
    lemma_wrapping_same_mod(t.active_seconds, s.active_seconds);
    lemma_wrapping_same_mod(t.uptime_seconds, s.uptime_seconds);
    lemma_wrapping_same_mod(t.activations, s.activations);
    lemma_wrapping_same_mod(t.launches, s.launches);
}

/// The sum of a counter over the profiles.
pub open spec fn counter_total(g: Seq<ProfileView>, c: spec_fn(ProfileView) -> int) -> int
    decreases g.len(),
{
    if g.len() == 0 {
        0
    } else {
        counter_total(g.drop_last(), c) + c(g.last())
    }
}

/// Removing one profile lowers a counter's sum by its value.
proof fn lemma_counter_remove(g: Seq<ProfileView>, i: int, c: spec_fn(ProfileView) -> int)
    requires
        0 <= i < g.len(),
    ensures
        counter_total(g.remove(i), c) + c(g[i]) == counter_total(g, c),
    decreases g.len(),
{
    if i == g.len() - 1 {
        assert(g.remove(i) =~= g.drop_last());
    } else {
        lemma_counter_remove(g.drop_last(), i, c);
        assert(g.remove(i).drop_last() =~= g.drop_last().remove(i));
    }
}

/// Folding matching profiles into `t` keeps a counter's sum modulo 2^64,
/// for a counter that merging adds up.
proof fn lemma_fold_counter(t: ProfileView, h: Seq<ProfileView>, ql: Seq<char>, c: spec_fn(ProfileView) -> int)
    requires
        forall|a: ProfileView, b: ProfileView| same_mod_2_64(#[trigger] c(merge_view(a, b)), c(a) + c(b)),
    ensures
        same_mod_2_64(
            c(fold_merge(t, h, ql)) + counter_total(unmatched(h, ql), c),
            c(t) + counter_total(h, c),
        ),
    decreases h.len(),
{
    if h.len() == 0 {
        assert(same_mod_2_64(c(t), c(t)));
    } else {
        let d = h.drop_last();
        let x = h.last();
        lemma_fold_counter(t, d, ql, c);
        let a = fold_merge(t, d, ql);
        let u = unmatched(d, ql);
        if key_matches(x.bundle_id, ql) {
            assert(same_mod_2_64(c(merge_view(a, x)), c(a) + c(x)));
            lemma_same_mod_add(c(merge_view(a, x)), c(a) + c(x), counter_total(u, c), counter_total(u, c));
            lemma_same_mod_add(
                c(a) + counter_total(u, c),
                c(t) + counter_total(d, c),
                c(x),
                c(x),
            );
            assert(same_mod_2_64(
                c(merge_view(a, x)) + counter_total(u, c),
                c(a) + counter_total(u, c) + c(x),
            ));
            lemma_same_mod_trans(
                c(merge_view(a, x)) + counter_total(u, c),
                c(a) + counter_total(u, c) + c(x),
                c(t) + counter_total(d, c) + c(x),
            );
        } else {
            assert(u.push(x).drop_last() =~= u);
            lemma_same_mod_add(c(a) + counter_total(u, c), c(t) + counter_total(d, c), c(x), c(x));
        }
    }
}

/// Equality modulo 2^64 is transitive.
proof fn lemma_same_mod_trans(a: int, b: int, c: int)
    requires
        same_mod_2_64(a, b),
        same_mod_2_64(b, c),
    ensures
        same_mod_2_64(a, c),
{
    lemma_same_mod_add(a, b, b, c);
    let m: int = 0x1_0000_0000_0000_0000;
    assert(a + b - (b + c) == a - c);
}

/// A counter's sum is kept, modulo 2^64, by merging related profiles.
proof fn lemma_merged_counter(g: Seq<ProfileView>, ql: Seq<char>, c: spec_fn(ProfileView) -> int)
    requires
        forall|a: ProfileView, b: ProfileView| same_mod_2_64(#[trigger] c(merge_view(a, b)), c(a) + c(b)),
    ensures
        same_mod_2_64(counter_total(merged(g, ql), c), counter_total(g, c)),
{
    lemma_best_index(g, ql);
    let k = best_index(g, ql);
    if k < 0 {
        assert(same_mod_2_64(counter_total(g, c), counter_total(g, c)));
    } else {
        let rest = g.remove(k);
        lemma_counter_remove(g, k, c);
        lemma_fold_counter(g[k], rest, ql, c);
        let u = unmatched(rest, ql);
        let m = merged(g, ql);
        assert(m.drop_last() =~= u);
    }
}

/// Merging related profiles loses no usage: over all profiles, the active
/// time, uptime, activations and launches add up to what they did before
/// (modulo 2^64, as the counters wrap).
pub proof fn lemma_merge_keeps_usage(g: Seq<ProfileView>, ql: Seq<char>)
    ensures
        ({
            let c = |p: ProfileView| p.active_seconds as int;
            same_mod_2_64(counter_total(merged(g, ql), c), counter_total(g, c))
        }),
        ({
            let c = |p: ProfileView| p.uptime_seconds as int;
            same_mod_2_64(counter_total(merged(g, ql), c), counter_total(g, c))
        }),
        ({
            let c = |p: ProfileView| p.activations as int;
            same_mod_2_64(counter_total(merged(g, ql), c), counter_total(g, c))
        }),
        ({
            let c = |p: ProfileView| p.launches as int;
            same_mod_2_64(counter_total(merged(g, ql), c), counter_total(g, c))
        }),
{
    let c1 = |p: ProfileView| p.active_seconds as int;
    let c2 = |p: ProfileView| p.uptime_seconds as int;
    let c3 = |p: ProfileView| p.activations as int;
    let c4 = |p: ProfileView| p.launches as int;
    assert forall|a: ProfileView, b: ProfileView| {
        &&& same_mod_2_64(#[trigger] c1(merge_view(a, b)), c1(a) + c1(b))
        &&& same_mod_2_64(c2(merge_view(a, b)), c2(a) + c2(b))
        &&& same_mod_2_64(c3(merge_view(a, b)), c3(a) + c3(b))
        &&& same_mod_2_64(c4(merge_view(a, b)), c4(a) + c4(b))
    } by {
        lemma_merge_view_sums(a, b);
    }
    lemma_merged_counter(g, ql, c1);
    lemma_merged_counter(g, ql, c2);
    lemma_merged_counter(g, ql, c3);
    lemma_merged_counter(g, ql, c4);
}

} // verus!
