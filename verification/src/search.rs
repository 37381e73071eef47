//! Searching sequences: the first element with a property, and what a filter keeps.
use vstd::prelude::*;

verus! {

/// Whether position `i` of `s` is the first one whose element has property `p`.
pub open spec fn is_first<A>(s: Seq<A>, p: spec_fn(A) -> bool, i: int) -> bool {
    &&& 0 <= i < s.len()
    &&& p(s[i])
    &&& forall|j: int| 0 <= j < i ==> !#[trigger] p(s[j])
}

/// The first element of `s` that has property `p`.
pub open spec fn first_where<A>(s: Seq<A>, p: spec_fn(A) -> bool) -> Option<A> {
    if exists|i: int| is_first(s, p, i) {
        Some(s[choose|i: int| is_first(s, p, i)])
    } else {
        None
    }
}

/// A first position determines `first_where`.
pub proof fn lemma_first_found<A>(s: Seq<A>, p: spec_fn(A) -> bool, i: int)
    requires
        is_first(s, p, i),
    ensures
        first_where(s, p) == Some(s[i]),
{
    let k = choose|k: int| is_first(s, p, k);
    if k < i {
        assert(!p(s[k]));
    } else if i < k {
        assert(!p(s[i]));
    }
}

/// Where no element has the property, `first_where` is absent.
pub proof fn lemma_first_absent<A>(s: Seq<A>, p: spec_fn(A) -> bool)
    requires
        forall|j: int| 0 <= j < s.len() ==> !#[trigger] p(s[j]),
    ensures
        first_where(s, p) is None,
{
}

/// `first_where` finds an element with the property whenever there is one.
pub proof fn law_first_where<A>(s: Seq<A>, p: spec_fn(A) -> bool)
    ensures
        first_where(s, p) is Some <==> exists|i: int| 0 <= i < s.len() && #[trigger] p(s[i]),
        first_where(s, p) matches Some(a) ==> p(a) && s.contains(a),
    decreases s.len(),
{
    if exists|i: int| 0 <= i < s.len() && #[trigger] p(s[i]) {
        let i = choose|i: int| 0 <= i < s.len() && #[trigger] p(s[i]);
        lemma_first_exists(s, p, i);
    }
}

proof fn lemma_first_exists<A>(s: Seq<A>, p: spec_fn(A) -> bool, i: int)
    requires
        0 <= i < s.len(),
        p(s[i]),
    ensures
        exists|k: int| is_first(s, p, k),
    decreases i,
{
    if exists|j: int| 0 <= j < i && #[trigger] p(s[j]) {
        let j = choose|j: int| 0 <= j < i && #[trigger] p(s[j]);
        lemma_first_exists(s, p, j);
    } else {
        assert(is_first(s, p, i));
    }
}

/// What `first_where` finds has the property, and nothing before it has.
pub proof fn law_first_where_is_first<A>(s: Seq<A>, p: spec_fn(A) -> bool)
    ensures
        first_where(s, p) matches Some(a) ==> exists|i: int|
            0 <= i < s.len() && #[trigger] s[i] == a && p(a) && forall|j: int|
                0 <= j < i ==> !p(#[trigger] s[j]),
        forall|i: int|
            0 <= i < s.len() && p(#[trigger] s[i]) && (forall|j: int|
                0 <= j < i ==> !p(#[trigger] s[j])) ==> first_where(s, p) == Some(s[i]),
        (forall|i: int| 0 <= i < s.len() ==> !p(#[trigger] s[i])) ==> first_where(s, p) is None,
{
    if first_where(s, p) is Some {
        let i = choose|i: int| is_first(s, p, i);
        assert(is_first(s, p, i));
        assert(forall|j: int| 0 <= j < i ==> !p(#[trigger] s[j]));
        assert(s[i] == first_where(s, p)->0);
    }
    assert forall|i: int|
        0 <= i < s.len() && p(#[trigger] s[i]) && (forall|j: int|
            0 <= j < i ==> !p(#[trigger] s[j])) implies first_where(s, p) == Some(s[i]) by {
        assert(is_first(s, p, i));
        lemma_first_found(s, p, i);
    }
}

/// How a filter grows by one element.
pub proof fn lemma_filter_push<A>(s: Seq<A>, a: A, p: spec_fn(A) -> bool)
    ensures
        Seq::<A>::empty().filter(p) == Seq::<A>::empty(),
        s.push(a).filter(p) == (if p(a) {
            s.filter(p).push(a)
        } else {
            s.filter(p)
        }),
{
    reveal(Seq::filter);
    assert(s.push(a).drop_last() =~= s);
}

/// How a filter grows by one element.
pub proof fn lemma_filter_step<A>(s: Seq<A>, p: spec_fn(A) -> bool, i: int)
    requires
        0 <= i < s.len(),
    ensures
        s.take(i + 1).filter(p) == (if p(s[i]) {
            s.take(i).filter(p).push(s[i])
        } else {
            s.take(i).filter(p)
        }),
{
    reveal(Seq::filter);
    assert(s.take(i + 1).drop_last() =~= s.take(i));
    assert(s.take(i + 1).last() == s[i]);
}

/// A filter keeps exactly the elements that have the property.
pub proof fn lemma_filter_members<A>(s: Seq<A>, p: spec_fn(A) -> bool)
    ensures
        forall|a: A| #[trigger] s.filter(p).contains(a) <==> s.contains(a) && p(a),
    decreases s.len(),
{
    reveal(Seq::filter);
    if s.len() > 0 {
        let front = s.drop_last();
        lemma_filter_members(front, p);
        assert(s =~= front.push(s.last()));
        assert forall|a: A| #[trigger] s.filter(p).contains(a) <==> s.contains(a) && p(a) by {
            if s.contains(a) {
                let i = choose|i: int| 0 <= i < s.len() && s[i] == a;
                if i < front.len() {
                    assert(front[i] == a);
                }
            }
            if front.contains(a) {
                let i = choose|i: int| 0 <= i < front.len() && front[i] == a;
                assert(s[i] == a);
            }
            if p(s.last()) {
                let kept = front.filter(p);
                assert(kept.push(s.last())[kept.len() as int] == s.last());
                if kept.contains(a) {
                    let i = choose|i: int| 0 <= i < kept.len() && kept[i] == a;
                    assert(kept.push(s.last())[i] == a);
                }
                if kept.push(s.last()).contains(a) && a != s.last() {
                    let i = choose|i: int|
                        0 <= i < kept.push(s.last()).len() && kept.push(s.last())[i] == a;
                    assert(kept[i] == a);
                }
            }
        }
    }
}

} // verus!
