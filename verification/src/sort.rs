//! Stable sorting by a total preorder, and lexicographic order of strings.
use crate::text::chars_of;
use vstd::prelude::*;

verus! {

broadcast use vstd::seq_lib::group_to_multiset_ensures;

/// A total preorder on `T` (ties allowed).
pub trait Preorder<T>: Sized {
    /// `a` may come before `b`.
    spec fn le(a: T, b: T) -> bool;

    /// Any two values are ordered one way or the other.
    proof fn lemma_total(a: T, b: T)
        ensures
            Self::le(a, b) || Self::le(b, a),
    ;

    /// The order is transitive.
    proof fn lemma_trans(a: T, b: T, c: T)
        requires
            Self::le(a, b),
            Self::le(b, c),
        ensures
            Self::le(a, c),
    ;
}

/// A total preorder with an executable test.
pub trait Order<T>: Preorder<T> {
    /// Executable test of `le`.
    fn exec_le(a: &T, b: &T) -> (r: bool)
        ensures
            r == Self::le(*a, *b),
    ;
}

/// The number of leading elements of `s` that may come before `x`: where a
/// stable insertion puts `x`.
pub open spec fn first_above<T, O: Preorder<T>>(s: Seq<T>, x: T) -> nat
    decreases s.len(),
{
    if s.len() == 0 {
        0
    } else if O::le(s[0], x) {
        1 + first_above::<T, O>(s.drop_first(), x)
    } else {
        0
    }
}

/// Stable insertion sort: each element goes after every earlier element
/// that may come before it.
pub open spec fn insertion_sort<T, O: Preorder<T>>(s: Seq<T>) -> Seq<T>
    decreases s.len(),
{
    if s.len() == 0 {
        s
    } else {
        let r = insertion_sort::<T, O>(s.drop_last());
        r.insert(first_above::<T, O>(r, s.last()) as int, s.last())
    }
}

/// `s` is sorted by the order `O`.
pub open spec fn sorted<T, O: Preorder<T>>(s: Seq<T>) -> bool {
    forall|i: int, j: int| 0 <= i < j < s.len() ==> O::le(s[i], s[j])
}

/// Position at which `x` is inserted after every element not above it.
fn insert_position<T, O: Order<T>>(out: &Vec<T>, x: &T) -> (p: usize)
    requires
        sorted::<T, O>(out@),
    ensures
        p <= out@.len(),
        p == first_above::<T, O>(out@, *x),
        forall|i: int| 0 <= i < p ==> O::le(#[trigger] out@[i], *x),
        forall|i: int| p <= i < out@.len() ==> O::le(*x, #[trigger] out@[i]) && !O::le(out@[i], *x),
{
    let mut p: usize = 0;
    assert(out@.subrange(0, out@.len() as int) =~= out@);
    while p < out.len() && O::exec_le(&out[p], x)
        invariant
            p <= out@.len(),
            sorted::<T, O>(out@),
            forall|i: int| 0 <= i < p ==> O::le(#[trigger] out@[i], *x),
            first_above::<T, O>(out@, *x) == p + first_above::<T, O>(out@.subrange(p as int, out@.len() as int), *x),
        decreases out.len() - p,
    {
        assert(out@.subrange(p as int, out@.len() as int).drop_first() =~= out@.subrange(p + 1, out@.len() as int));
        p = p + 1;
    }
    proof {
        if p < out@.len() {
            assert(!O::le(out@[p as int], *x));
            O::lemma_total(out@[p as int], *x);
            assert forall|i: int| p <= i < out@.len() implies O::le(*x, #[trigger] out@[i]) && !O::le(
                out@[i],
                *x,
            ) by {
                if i > p {
                    assert(O::le(out@[p as int], out@[i]));
                    O::lemma_trans(*x, out@[p as int], out@[i]);
                    if O::le(out@[i], *x) {
                        O::lemma_trans(out@[p as int], out@[i], *x);
                    }
                }
            }
        }
    }
    p
}

/// Stable sort by the order `O`: the result is sorted and holds the same
/// elements, and elements that tie keep their relative order.
pub fn sort_by_order<T, O: Order<T>>(v: Vec<T>) -> (r: Vec<T>)
    ensures
        sorted::<T, O>(r@),
        r@.to_multiset() == v@.to_multiset(),
        r@ == insertion_sort::<T, O>(v@),
{
    let ghost orig = v@;
    let mut v = v;
    let total = v.len();
    let mut out: Vec<T> = Vec::new();
    let mut taken: usize = 0;
    while v.len() > 0
        invariant
            total == orig.len(),
            taken + v@.len() == orig.len(),
            v@ == orig.subrange(taken as int, orig.len() as int),
            sorted::<T, O>(out@),
            out@.to_multiset() == orig.subrange(0, taken as int).to_multiset(),
            out@ == insertion_sort::<T, O>(orig.subrange(0, taken as int)),
        decreases v.len(),
    {
        let x = v.remove(0);
        assert(orig.subrange(0, taken + 1) =~= orig.subrange(0, taken as int).push(x));
        assert(orig.subrange(0, taken + 1).drop_last() =~= orig.subrange(0, taken as int));
        let p = insert_position::<T, O>(&out, &x);
        let ghost before = out@;
        out.insert(p, x);
        assert(out@ == before.insert(p as int, x));
        assert forall|i: int, j: int| 0 <= i < j < out@.len() implies O::le(out@[i], out@[j]) by {
            if j < p {
                assert(out@[i] == before[i] && out@[j] == before[j]);
            } else if j == p {
                assert(out@[i] == before[i]);
            } else if i < p {
                assert(out@[i] == before[i] && out@[j] == before[j - 1]);
                O::lemma_trans(before[i], x, before[j - 1]);
            } else if i == p {
                assert(out@[j] == before[j - 1]);
            } else {
                assert(out@[i] == before[i - 1] && out@[j] == before[j - 1]);
            }
        }
        taken = taken + 1;
        assert(v@ =~= orig.subrange(taken as int, orig.len() as int));
    }
    assert(orig.subrange(0, taken as int) =~= orig);
    out
}

/// Lexicographic order of character sequences by code point (the order of
/// `String`, whose UTF-8 bytes compare the same way).
pub open spec fn lex_le(a: Seq<char>, b: Seq<char>) -> bool
    decreases a.len(),
{
    if a.len() == 0 {
        true
    } else if b.len() == 0 {
        false
    } else if a[0] != b[0] {
        (a[0] as int) < (b[0] as int)
    } else {
        lex_le(a.drop_first(), b.drop_first())
    }
}

/// Lexicographic order is total.
pub proof fn lemma_lex_total(a: Seq<char>, b: Seq<char>)
    ensures
        lex_le(a, b) || lex_le(b, a),
    decreases a.len(),
{
    if a.len() > 0 && b.len() > 0 {
        if a[0] == b[0] {
            lemma_lex_total(a.drop_first(), b.drop_first());
        } else {
            assert((a[0] as int) != (b[0] as int));
        }
    }
}

/// Lexicographic order is transitive.
pub proof fn lemma_lex_trans(a: Seq<char>, b: Seq<char>, c: Seq<char>)
    requires
        lex_le(a, b),
        lex_le(b, c),
    ensures
        lex_le(a, c),
    decreases a.len(),
{
    if a.len() > 0 && b.len() > 0 && c.len() > 0 && a[0] == b[0] && b[0] == c[0] {
        lemma_lex_trans(a.drop_first(), b.drop_first(), c.drop_first());
    }
}

/// Lexicographic order is antisymmetric.
pub proof fn lemma_lex_antisym(a: Seq<char>, b: Seq<char>)
    requires
        lex_le(a, b),
        lex_le(b, a),
    ensures
        a == b,
    decreases a.len(),
{
    if a.len() > 0 && b.len() > 0 {
        if a[0] != b[0] {
            assert((a[0] as int) != (b[0] as int));
        } else {
            lemma_lex_antisym(a.drop_first(), b.drop_first());
            assert(a.len() == b.len());
            assert forall|i: int| 0 <= i < a.len() implies a[i] == b[i] by {
                if i > 0 {
                    assert(a[i] == a.drop_first()[i - 1]);
                    assert(b[i] == b.drop_first()[i - 1]);
                }
            }
            assert(a =~= b);
        }
    }
}

/// Whether `a` comes no later than `b` lexicographically.
pub fn str_le(a: &str, b: &str) -> (r: bool)
    ensures
        r == lex_le(a@, b@),
{
    let x = chars_of(a);
    let y = chars_of(b);
    let mut i: usize = 0;
    assert(x@.skip(0) =~= x@);
    assert(y@.skip(0) =~= y@);
    while i < x.len() && i < y.len() && x[i] == y[i]
        invariant
            x@ == a@,
            y@ == b@,
            i <= x.len() && i <= y.len(),
            lex_le(a@, b@) == lex_le(x@.skip(i as int), y@.skip(i as int)),
        decreases x.len() - i,
    {
        assert(x@.skip(i as int).drop_first() =~= x@.skip(i + 1));
        assert(y@.skip(i as int).drop_first() =~= y@.skip(i + 1));
        i = i + 1;
    }
    if i == x.len() {
        return true;
    }
    if i == y.len() {
        return false;
    }
    assert(x@.skip(i as int)[0] == x@[i as int]);
    assert(y@.skip(i as int)[0] == y@[i as int]);
    x[i] < y[i]
}

/// Character sequences in lexicographic order.
pub struct LexOrder;

impl Preorder<Seq<char>> for LexOrder {
    open spec fn le(a: Seq<char>, b: Seq<char>) -> bool {
        lex_le(a, b)
    }

    proof fn lemma_total(a: Seq<char>, b: Seq<char>) {
        lemma_lex_total(a, b);
    }

    proof fn lemma_trans(a: Seq<char>, b: Seq<char>, c: Seq<char>) {
        lemma_lex_trans(a, b, c);
    }
}

/// Strings in their natural order.
pub struct StringOrder;

impl Preorder<String> for StringOrder {
    open spec fn le(a: String, b: String) -> bool {
        lex_le(a@, b@)
    }

    proof fn lemma_total(a: String, b: String) {
        lemma_lex_total(a@, b@);
    }

    proof fn lemma_trans(a: String, b: String, c: String) {
        lemma_lex_trans(a@, b@, c@);
    }
}

impl Order<String> for StringOrder {
    fn exec_le(a: &String, b: &String) -> (r: bool) {
        str_le(a.as_str(), b.as_str())
    }
}


/// Lists with the same elements keep the same elements under a map.
pub proof fn lemma_map_multiset<A, B>(a: Seq<A>, b: Seq<A>, f: spec_fn(A) -> B)
    requires
        a.to_multiset() == b.to_multiset(),
    ensures
        a.map_values(f).to_multiset() == b.map_values(f).to_multiset(),
    decreases a.len(),
{
    broadcast use vstd::seq_lib::group_to_multiset_ensures;

    if a.len() == 0 {
        assert(b.len() == 0) by {
            assert(a.to_multiset().len() == a.len());
            assert(b.to_multiset().len() == b.len());
        }
        assert(a.map_values(f) =~= b.map_values(f));
    } else {
        let x = a.last();
        assert(a.contains(x)) by {
            assert(a[a.len() - 1] == x);
        }
        assert(a.to_multiset().count(x) > 0);
        assert(b.contains(x));
        let j = choose|j: int| 0 <= j < b.len() && b[j] == x;
        let a1 = a.drop_last();
        let b1 = b.remove(j);
        assert(a =~= a1.push(x));
        assert(a1.to_multiset() =~= b1.to_multiset()) by {
            assert(a.to_multiset() =~= a1.to_multiset().insert(x));
            assert(b1.to_multiset() =~= b.to_multiset().remove(x));
        }
        lemma_map_multiset(a1, b1, f);
        assert(a.map_values(f) =~= a1.map_values(f).push(f(x)));
        assert(b.map_values(f).remove(j) =~= b1.map_values(f));
        assert(b.map_values(f)[j] == f(x));
        assert(b.map_values(f).remove(j).to_multiset() =~= b.map_values(f).to_multiset().remove(f(x)));
        assert(b.map_values(f).contains(f(x))) by {
            assert(b.map_values(f)[j] == f(x));
        }
        assert(b.map_values(f).to_multiset().count(f(x)) > 0);
        assert(b.map_values(f).to_multiset() =~= b1.map_values(f).to_multiset().insert(f(x)));
    }
}


/// Where an element goes is the same for values and their images, when
/// the two orders agree.
proof fn lemma_first_above_map<T, V, O: Preorder<T>, P: Preorder<V>>(s: Seq<T>, x: T, f: spec_fn(T) -> V)
    requires
        forall|a: T, b: T| #[trigger] O::le(a, b) == P::le(f(a), f(b)),
    ensures
        first_above::<T, O>(s, x) == first_above::<V, P>(s.map_values(f), f(x)),
    decreases s.len(),
{
    if s.len() > 0 {
        assert(s.map_values(f).drop_first() =~= s.drop_first().map_values(f));
        assert(O::le(s[0], x) == P::le(f(s[0]), f(x)));
        lemma_first_above_map::<T, V, O, P>(s.drop_first(), x, f);
    }
}

/// Sorting and then taking images is taking images and then sorting, when
/// the two orders agree.
pub proof fn lemma_sort_map<T, V, O: Preorder<T>, P: Preorder<V>>(s: Seq<T>, f: spec_fn(T) -> V)
    requires
        forall|a: T, b: T| #[trigger] O::le(a, b) == P::le(f(a), f(b)),
    ensures
        insertion_sort::<T, O>(s).map_values(f) == insertion_sort::<V, P>(s.map_values(f)),
    decreases s.len(),
{
    if s.len() > 0 {
        let r = insertion_sort::<T, O>(s.drop_last());
        lemma_sort_map::<T, V, O, P>(s.drop_last(), f);
        assert(s.map_values(f).drop_last() =~= s.drop_last().map_values(f));
        lemma_first_above_map::<T, V, O, P>(r, s.last(), f);
        let k = first_above::<T, O>(r, s.last());
        lemma_first_above_bound::<T, O>(r, s.last());
        assert(r.insert(k as int, s.last()).map_values(f) =~= r.map_values(f).insert(k as int, f(s.last())));
    }
}

/// An insertion position is within the list.
pub proof fn lemma_first_above_bound<T, O: Preorder<T>>(s: Seq<T>, x: T)
    ensures
        first_above::<T, O>(s, x) <= s.len(),
    decreases s.len(),
{
    if s.len() > 0 {
        lemma_first_above_bound::<T, O>(s.drop_first(), x);
    }
}


/// Sorting keeps the length, and every element of the sorted list is an
/// element of the list.
pub proof fn lemma_sort_elements<T, O: Preorder<T>>(s: Seq<T>)
    ensures
        insertion_sort::<T, O>(s).len() == s.len(),
        forall|i: int|
            0 <= i < insertion_sort::<T, O>(s).len() ==> exists|j: int|
                0 <= j < s.len() && #[trigger] insertion_sort::<T, O>(s)[i] == s[j],
    decreases s.len(),
{
    if s.len() > 0 {
        let d = s.drop_last();
        lemma_sort_elements::<T, O>(d);
        let r = insertion_sort::<T, O>(d);
        let x = s.last();
        let k = first_above::<T, O>(r, x);
        lemma_first_above_bound::<T, O>(r, x);
        let t = r.insert(k as int, x);
        assert forall|i: int| 0 <= i < t.len() implies exists|j: int| 0 <= j < s.len() && #[trigger] t[i] == s[j] by {
            if i < k {
                assert(t[i] == r[i]);
                let j = choose|j: int| 0 <= j < d.len() && r[i] == d[j];
                assert(s[j] == d[j]);
            } else if i == k {
                assert(t[i] == s[s.len() - 1]);
            } else {
                assert(t[i] == r[i - 1]);
                let j = choose|j: int| 0 <= j < d.len() && r[i - 1] == d[j];
                assert(s[j] == d[j]);
            }
        }
    }
}

} // verus!
