//! Searching sequences and comparing runs of code units.

use vstd::prelude::*;

verus! {

/// The position of the first element that satisfies `p`.
pub open spec fn first_index<T>(s: Seq<T>, p: spec_fn(T) -> bool) -> Option<int>
    decreases s.len(),
{
    if s.len() == 0 {
        None
    } else {
        match first_index(s.drop_last(), p) {
            Some(i) => Some(i),
            None => if p(s.last()) {
                Some(s.len() - 1)
            } else {
                None
            },
        }
    }
}

/// What was found satisfies `p` and nothing before it does; where nothing was
/// found, nothing does.
pub proof fn first_index_is_first<T>(s: Seq<T>, p: spec_fn(T) -> bool)
    ensures
        first_index(s, p) matches Some(i) ==> 0 <= i < s.len() && p(s[i]) && (forall|j: int|
            0 <= j < i ==> !p(#[trigger] s[j])),
        first_index(s, p) is None ==> (forall|j: int| 0 <= j < s.len() ==> !p(#[trigger] s[j])),
    decreases s.len(),
{
    if s.len() > 0 {
        let front = s.drop_last();
        first_index_is_first(front, p);
        assert(forall|j: int| 0 <= j < front.len() ==> front[j] == #[trigger] s[j]);
    }
}

/// An element that satisfies `p` behind others that do not is the first.
pub proof fn first_index_found<T>(s: Seq<T>, p: spec_fn(T) -> bool, i: int)
    requires
        0 <= i < s.len(),
        p(s[i]),
        forall|j: int| 0 <= j < i ==> !p(#[trigger] s[j]),
    ensures
        first_index(s, p) == Some(i),
{
    first_index_is_first(s, p);
}

/// Where no element satisfies `p`, none is found.
pub proof fn first_index_missing<T>(s: Seq<T>, p: spec_fn(T) -> bool)
    requires
        forall|j: int| 0 <= j < s.len() ==> !p(#[trigger] s[j]),
    ensures
        first_index(s, p) is None,
{
    first_index_is_first(s, p);
}

/// Filtering a sequence with one more element behind it.
pub proof fn filter_push<T>(s: Seq<T>, p: spec_fn(T) -> bool, x: T)
    ensures
        s.push(x).filter(p) == if p(x) {
            s.filter(p).push(x)
        } else {
            s.filter(p)
        },
{
    reveal(Seq::filter);
    assert(s.push(x).drop_last() == s);
}

/// A filtered sequence holds what the sequence holds and `p` accepts.
pub proof fn filter_holds<T>(s: Seq<T>, p: spec_fn(T) -> bool, x: T)
    ensures
        s.filter(p).contains(x) <==> s.contains(x) && p(x),
    decreases s.len(),
{
    reveal(Seq::filter);
    if s.len() > 0 {
        let front = s.drop_last();
        filter_holds(front, p, x);
        assert(s == front.push(s.last()));
        push_holds(front, s.last(), x);
        push_holds(front.filter(p), s.last(), x);
    }
}

/// A sequence with one more element holds that element and what it held.
pub proof fn push_holds<T>(s: Seq<T>, y: T, x: T)
    ensures
        s.push(y).contains(x) <==> s.contains(x) || x == y,
{
    if s.contains(x) {
        let i = choose|i: int| 0 <= i < s.len() && s[i] == x;
        assert(s.push(y)[i] == x);
    }
    if x == y {
        assert(s.push(y)[s.len() as int] == x);
    }
    if s.push(y).contains(x) && x != y {
        let i = choose|i: int| 0 <= i < s.push(y).len() && s.push(y)[i] == x;
        assert(s[i] == x);
    }
}

/// Where an element that `p` accepts gives way to another one that it accepts,
/// the filtered sequence changes in that place alone.
pub proof fn filter_update<T>(s: Seq<T>, p: spec_fn(T) -> bool, k: int, x: T) -> (j: int)
    requires
        0 <= k < s.len(),
        p(s[k]),
        p(x),
    ensures
        0 <= j < s.filter(p).len(),
        s.filter(p)[j] == s[k],
        s.update(k, x).filter(p) == s.filter(p).update(j, x),
    decreases s.len(),
{
    let front = s.drop_last();
    assert(s == front.push(s.last()));
    filter_push(front, p, s.last());
    if k == s.len() - 1 {
        assert(s.update(k, x) == front.push(x));
        filter_push(front, p, x);
        assert(front.filter(p).push(x) =~= s.filter(p).update(front.filter(p).len() as int, x));
        front.filter(p).len() as int
    } else {
        let j = filter_update(front, p, k, x);
        assert(s.update(k, x) == front.update(k, x).push(s.last()));
        filter_push(front.update(k, x), p, s.last());
        assert(s.update(k, x).filter(p) =~= s.filter(p).update(j, x));
        j
    }
}

/// Where an element that `p` does not accept gives way to another one that it
/// does not accept, the filtered sequence stays the same.
pub proof fn filter_skips<T>(s: Seq<T>, p: spec_fn(T) -> bool, k: int, x: T)
    requires
        0 <= k < s.len(),
        !p(s[k]),
        !p(x),
    ensures
        s.update(k, x).filter(p) == s.filter(p),
    decreases s.len(),
{
    let front = s.drop_last();
    assert(s == front.push(s.last()));
    filter_push(front, p, s.last());
    if k == s.len() - 1 {
        assert(s.update(k, x) == front.push(x));
        filter_push(front, p, x);
    } else {
        filter_skips(front, p, k, x);
        assert(s.update(k, x) == front.update(k, x).push(s.last()));
        filter_push(front.update(k, x), p, s.last());
    }
}

/// The position of the last occurrence of `x`.
pub open spec fn last_index<T>(s: Seq<T>, x: T) -> Option<int>
    decreases s.len(),
{
    if s.len() == 0 {
        None
    } else if s.last() == x {
        Some(s.len() - 1)
    } else {
        last_index(s.drop_last(), x)
    }
}

/// What was found is `x` and nothing behind it is.
pub proof fn last_index_is_last<T>(s: Seq<T>, x: T)
    ensures
        last_index(s, x) matches Some(i) ==> 0 <= i < s.len() && s[i] == x && (forall|j: int|
            i < j < s.len() ==> #[trigger] s[j] != x),
        last_index(s, x) is None ==> !s.contains(x),
    decreases s.len(),
{
    if s.len() > 0 && s.last() != x {
        let front = s.drop_last();
        last_index_is_last(front, x);
        assert(forall|j: int| 0 <= j < front.len() ==> front[j] == #[trigger] s[j]);
        if !front.contains(x) {
            assert forall|j: int| 0 <= j < s.len() implies #[trigger] s[j] != x by {
                if s[j] == x {
                    assert(front[j] == x);
                }
            }
        }
    }
}

/// An occurrence of `x` with none behind it is the last.
pub proof fn last_index_found<T>(s: Seq<T>, x: T, i: int)
    requires
        0 <= i < s.len(),
        s[i] == x,
        forall|j: int| i < j < s.len() ==> #[trigger] s[j] != x,
    ensures
        last_index(s, x) == Some(i),
{
    last_index_is_last(s, x);
    assert(s.contains(x));
}

/// Finds the last occurrence of a character.
pub fn rfind(chars: &[char], x: char) -> (found: Option<usize>)
    ensures
        match found {
            Some(i) => last_index(chars@, x) == Some(i as int),
            None => last_index(chars@, x) is None,
        },
{
    let mut end: usize = chars.len();
    assert(chars@.take(end as int) == chars@);
    while end > 0
        invariant
            end <= chars@.len(),
            last_index(chars@, x) == last_index(chars@.take(end as int), x),
        decreases end,
    {
        let ghost front = chars@.take(end as int);
        assert(front.last() == chars@[end - 1]);
        assert(front.drop_last() == chars@.take(end - 1));
        if chars[end - 1] == x {
            return Some(end - 1);
        }
        end = end - 1;
    }
    None
}

/// Whether two runs of code units are the same.
pub fn same_units(a: &[u16], b: &[u16]) -> (same: bool)
    ensures
        same == (a@ == b@),
{
    if a.len() != b.len() {
        return false;
    }
    for i in 0..a.len()
        invariant
            a@.len() == b@.len(),
            forall|j: int| 0 <= j < i ==> a@[j] == b@[j],
    {
        if a[i] != b[i] {
            return false;
        }
    }
    assert(a@ =~= b@);
    true
}

/// `u` stands somewhere before `v`.
pub open spec fn stands_before<T>(s: Seq<T>, u: T, v: T) -> bool {
    exists|x: int, y: int| 0 <= x < y < s.len() && #[trigger] s[x] == u && #[trigger] s[y] == v
}

/// Every two elements of `a` stand in `b` too, in the same order.
pub open spec fn in_order<T>(a: Seq<T>, b: Seq<T>) -> bool {
    forall|i: int, j: int|
        #![trigger a[i], a[j]]
        0 <= i < j < a.len() ==> stands_before(b, a[i], a[j])
}

/// Filtering keeps the order.
pub proof fn filter_in_order<T>(s: Seq<T>, p: spec_fn(T) -> bool)
    ensures
        in_order(s.filter(p), s),
    decreases s.len(),
{
    reveal(Seq::filter);
    if s.len() > 0 {
        let front = s.drop_last();
        filter_in_order(front, p);
        let kept = s.filter(p);
        let before = front.filter(p);
        assert forall|i: int, j: int|
            #![trigger kept[i], kept[j]]
            0 <= i < j < kept.len() implies stands_before(s, kept[i], kept[j]) by {
            if j < before.len() {
                assert(before[i] == kept[i] && before[j] == kept[j]);
                assert(stands_before(front, before[i], before[j]));
                let (x, y) = choose|x: int, y: int|
                    0 <= x < y < front.len() && #[trigger] front[x] == before[i]
                        && #[trigger] front[y] == before[j];
                assert(s[x] == kept[i] && s[y] == kept[j]);
            } else {
                assert(before[i] == kept[i]);
                filter_holds(front, p, before[i]);
                assert(before.contains(before[i]));
                let x = choose|x: int| 0 <= x < front.len() && front[x] == before[i];
                assert(s[x] == kept[i] && s[s.len() - 1] == kept[j]);
            }
        }
        assert(in_order(kept, s));
    } else {
        assert(s.filter(p).len() == 0);
    }
}

/// A filter that accepts everything changes nothing.
pub proof fn filter_of_all<T>(s: Seq<T>, p: spec_fn(T) -> bool)
    requires
        forall|i: int| 0 <= i < s.len() ==> p(#[trigger] s[i]),
    ensures
        s.filter(p) == s,
    decreases s.len(),
{
    reveal(Seq::filter);
    if s.len() > 0 {
        let front = s.drop_last();
        assert(forall|i: int| 0 <= i < front.len() ==> front[i] == #[trigger] s[i]);
        filter_of_all(front, p);
        assert(s =~= front.push(s.last()));
    }
}

} // verus!
