//! Sequences built from the elements of another.

use vstd::prelude::*;

verus! {

/// What `f` gives for each element, one after the other.
pub open spec fn gather<T, U>(s: Seq<T>, f: spec_fn(T) -> Seq<U>) -> Seq<U>
    decreases s.len(),
{
    if s.len() == 0 {
        Seq::empty()
    } else {
        gather(s.drop_last(), f) + f(s.last())
    }
}

/// One more element adds what `f` gives for it.
pub proof fn lemma_gather_step<T, U>(s: Seq<T>, f: spec_fn(T) -> Seq<U>, i: int)
    requires
        0 <= i < s.len(),
    ensures
        gather(s.take(i + 1), f) == gather(s.take(i), f) + f(s[i]),
{
    assert(s.take(i + 1).drop_last() =~= s.take(i));
    assert(s.take(i + 1).last() == s[i]);
}

/// What is gathered is what is gathered before an element, what `f` gives for
/// it, and what is gathered behind it.
pub proof fn lemma_gather_split<T, U>(s: Seq<T>, f: spec_fn(T) -> Seq<U>, i: int)
    requires
        0 <= i < s.len(),
    ensures
        gather(s, f) == gather(s.take(i), f) + f(s[i]) + gather(s.skip(i + 1), f),
    decreases s.len(),
{
    let head = s.drop_last();
    if i == s.len() - 1 {
        assert(s.take(i) =~= head);
        assert(s.skip(i + 1) =~= Seq::<T>::empty());
        assert(gather(s, f) =~= gather(s.take(i), f) + f(s[i]) + gather(s.skip(i + 1), f));
    } else {
        lemma_gather_split(head, f, i);
        assert(head.take(i) =~= s.take(i));
        assert(head.skip(i + 1) =~= s.skip(i + 1).drop_last());
        assert(s.skip(i + 1).last() == s.last());
        assert(gather(s, f) =~= gather(s.take(i), f) + f(s[i]) + gather(s.skip(i + 1), f));
    }
}

/// Sequences one after the other are the same however they are put together.
pub proof fn lemma_regrouped<T>(a: Seq<T>, b: Seq<T>, c: Seq<T>, d: Seq<T>, e: Seq<T>, f: Seq<T>)
    ensures
        a + (b + c + d + e + f) == (a + b) + c + (d + e + f),
{
    assert(a + (b + c + d + e + f) =~= (a + b) + c + (d + e + f));
}

/// Sequences one after the other are the same however they are put together.
pub proof fn lemma_regrouped_within<T>(a: Seq<T>, b: Seq<T>, c: Seq<T>, d: Seq<T>, e: Seq<T>)
    ensures
        a + (b + c + d) + e == (a + b) + c + (d + e),
{
    assert(a + (b + c + d) + e =~= (a + b) + c + (d + e));
}

/// What is gathered of two sequences together is what is gathered of each.
pub proof fn lemma_gather_in_two<T, U>(first: Seq<T>, second: Seq<T>, f: spec_fn(T) -> Seq<U>)
    ensures
        gather(first + second, f) == gather(first, f) + gather(second, f),
    decreases second.len(),
{
    if second.len() == 0 {
        assert(first + second =~= first);
        assert(gather(first, f) + gather(second, f) =~= gather(first, f));
    } else {
        lemma_gather_in_two(first, second.drop_last(), f);
        assert((first + second).drop_last() =~= first + second.drop_last());
        assert((first + second).last() == second.last());
        assert(gather(first, f) + gather(second, f) =~= gather(first, f) + gather(
            second.drop_last(),
            f,
        ) + f(second.last()));
    }
}

/// What is gathered of one element is what `f` gives for it.
pub proof fn lemma_gather_one<T, U>(x: T, f: spec_fn(T) -> Seq<U>)
    ensures
        gather(seq![x], f) == f(x),
{
    reveal_with_fuel(gather, 2);
    assert(seq![x].drop_last() =~= Seq::<T>::empty());
    assert(gather(seq![x], f) =~= f(x));
}

/// Where `f` gives each element itself, all of them are gathered.
pub proof fn lemma_gather_each<T>(s: Seq<T>, f: spec_fn(T) -> Seq<T>)
    requires
        forall|i: int| 0 <= i < s.len() ==> f(#[trigger] s[i]) == seq![s[i]],
    ensures
        gather(s, f) == s,
    decreases s.len(),
{
    if s.len() > 0 {
        let head = s.drop_last();
        assert forall|i: int| 0 <= i < head.len() implies f(#[trigger] head[i]) == seq![head[i]] by {
            assert(head[i] == s[i]);
        }
        lemma_gather_each(head, f);
        assert(f(s[s.len() - 1]) == seq![s.last()]);
        assert(gather(s, f) =~= s);
    }
}

/// Every element that `f` gives for some element of a sequence is gathered.
pub proof fn lemma_gather_has<T, U>(s: Seq<T>, f: spec_fn(T) -> Seq<U>, i: int, x: U)
    requires
        0 <= i < s.len(),
        f(s[i]).contains(x),
    ensures
        gather(s, f).contains(x),
    decreases s.len(),
{
    let head = gather(s.drop_last(), f);
    let tail = f(s.last());
    if i == s.len() - 1 {
        let k = choose|k: int| 0 <= k < tail.len() && tail[k] == x;
        assert((head + tail)[head.len() + k] == x);
    } else {
        assert(s.drop_last()[i] == s[i]);
        lemma_gather_has(s.drop_last(), f, i, x);
        let k = choose|k: int| 0 <= k < head.len() && head[k] == x;
        assert((head + tail)[k] == x);
    }
}

/// Every gathered element comes from some element of the sequence.
pub proof fn lemma_gather_from<T, U>(s: Seq<T>, f: spec_fn(T) -> Seq<U>, x: U) -> (i: int)
    requires
        gather(s, f).contains(x),
    ensures
        0 <= i < s.len(),
        f(s[i]).contains(x),
    decreases s.len(),
{
    let head = gather(s.drop_last(), f);
    let tail = f(s.last());
    let k = choose|k: int| 0 <= k < (head + tail).len() && (head + tail)[k] == x;
    if k < head.len() {
        assert(head[k] == x);
        let j = lemma_gather_from(s.drop_last(), f, x);
        assert(s.drop_last()[j] == s[j]);
        j
    } else {
        assert(tail[k - head.len()] == x);
        s.len() - 1
    }
}

/// True where two sequences have elements that are alike, one by one.
pub open spec fn alike<T>(a: Seq<T>, b: Seq<T>, rel: spec_fn(T, T) -> bool) -> bool {
    &&& a.len() == b.len()
    &&& forall|i: int| 0 <= i < a.len() ==> rel(#[trigger] a[i], b[i])
}

/// Where what is gathered for each element is alike, so is all of it.
pub proof fn lemma_gather_alike<T, U>(
    s: Seq<T>,
    f: spec_fn(T) -> Seq<U>,
    t: Seq<T>,
    g: spec_fn(T) -> Seq<U>,
    rel: spec_fn(U, U) -> bool,
)
    requires
        s.len() == t.len(),
        forall|i: int| 0 <= i < s.len() ==> alike(f(#[trigger] s[i]), g(t[i]), rel),
    ensures
        alike(gather(s, f), gather(t, g), rel),
    decreases s.len(),
{
    if s.len() > 0 {
        let head = s.drop_last();
        assert forall|i: int| 0 <= i < head.len() implies alike(
            f(#[trigger] head[i]),
            g(t.drop_last()[i]),
            rel,
        ) by {
            assert(head[i] == s[i]);
        }
        lemma_gather_alike(head, f, t.drop_last(), g, rel);
        assert(s[s.len() - 1] == s.last());
        let a = gather(s, f);
        let b = gather(t, g);
        let n = gather(head, f).len();
        assert forall|i: int| 0 <= i < a.len() implies rel(#[trigger] a[i], b[i]) by {
            if i < n {
                assert(a[i] == gather(head, f)[i]);
            } else {
                assert(a[i] == f(s.last())[i - n]);
            }
        }
    }
}

/// True where a property holds of every element.
pub open spec fn each<T>(s: Seq<T>, p: spec_fn(T) -> bool) -> bool {
    forall|i: int| 0 <= i < s.len() ==> p(#[trigger] s[i])
}

/// A property of the elements of two sequences is one of the elements of both
/// together.
pub proof fn lemma_each_concat<T>(a: Seq<T>, b: Seq<T>, p: spec_fn(T) -> bool)
    requires
        each(a, p),
        each(b, p),
    ensures
        each(a + b, p),
{
    assert forall|i: int| 0 <= i < (a + b).len() implies p(#[trigger] (a + b)[i]) by {
        if i < a.len() {
            assert(p(a[i]));
        } else {
            assert(p(b[i - a.len()]));
        }
    }
}

/// A property of all that `f` gives is one of all that is gathered.
pub proof fn lemma_each_gathered<T, U>(
    s: Seq<T>,
    f: spec_fn(T) -> Seq<U>,
    p: spec_fn(U) -> bool,
)
    requires
        forall|i: int| 0 <= i < s.len() ==> each(f(#[trigger] s[i]), p),
    ensures
        each(gather(s, f), p),
    decreases s.len(),
{
    if s.len() > 0 {
        let head = s.drop_last();
        assert forall|i: int| 0 <= i < head.len() implies each(f(#[trigger] head[i]), p) by {
            assert(head[i] == s[i]);
        }
        lemma_each_gathered(head, f, p);
        assert(each(f(s[s.len() - 1]), p));
        lemma_each_concat(gather(head, f), f(s.last()), p);
    }
}

/// How many elements have a property.
pub open spec fn how_many<T>(s: Seq<T>, p: spec_fn(T) -> bool) -> nat
    decreases s.len(),
{
    if s.len() == 0 {
        0
    } else {
        how_many(s.drop_last(), p) + if p(s.last()) {
            1nat
        } else {
            0
        }
    }
}

/// In two sequences together there are as many as in each.
pub proof fn lemma_how_many_in_two<T>(a: Seq<T>, b: Seq<T>, p: spec_fn(T) -> bool)
    ensures
        how_many(a + b, p) == how_many(a, p) + how_many(b, p),
    decreases b.len(),
{
    if b.len() == 0 {
        assert(a + b =~= a);
    } else {
        lemma_how_many_in_two(a, b.drop_last(), p);
        assert((a + b).drop_last() =~= a + b.drop_last());
        assert((a + b).last() == b.last());
    }
}

/// Where no element has a property, there are none.
pub proof fn lemma_none<T>(s: Seq<T>, p: spec_fn(T) -> bool)
    requires
        forall|i: int| 0 <= i < s.len() ==> !p(#[trigger] s[i]),
    ensures
        how_many(s, p) == 0,
    decreases s.len(),
{
    if s.len() > 0 {
        let head = s.drop_last();
        assert forall|i: int| 0 <= i < head.len() implies !p(#[trigger] head[i]) by {
            assert(head[i] == s[i]);
        }
        lemma_none(head, p);
        assert(!p(s[s.len() - 1]));
    }
}

/// Where for each element either one thing of a kind is gathered, or none, as
/// many of the kind are gathered as there are elements for which it is.
pub proof fn lemma_how_many_gathered<T, U>(
    s: Seq<T>,
    f: spec_fn(T) -> Seq<U>,
    p: spec_fn(U) -> bool,
    q: spec_fn(T) -> bool,
)
    requires
        forall|i: int|
            0 <= i < s.len() ==> how_many(f(#[trigger] s[i]), p) == if q(s[i]) {
                1nat
            } else {
                0
            },
    ensures
        how_many(gather(s, f), p) == how_many(s, q),
    decreases s.len(),
{
    if s.len() > 0 {
        let head = s.drop_last();
        assert forall|i: int| 0 <= i < head.len() implies how_many(f(#[trigger] head[i]), p) == if q(
            head[i],
        ) {
            1nat
        } else {
            0
        } by {
            assert(head[i] == s[i]);
        }
        lemma_how_many_gathered(head, f, p, q);
        lemma_how_many_in_two(gather(head, f), f(s.last()), p);
        assert(s[s.len() - 1] == s.last());
    }
}

} // verus!
