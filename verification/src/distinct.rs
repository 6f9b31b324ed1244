//! The distinct items of a sequence in the order in which they first occur.

use vstd::prelude::*;

verus! {

/// The distinct items of `s`, each at the place of its first occurrence.
pub open spec fn first_seen<T>(s: Seq<T>) -> Seq<T>
    decreases s.len(),
{
    if s.len() == 0 {
        Seq::empty()
    } else {
        let before = first_seen(s.drop_last());
        if before.contains(s.last()) {
            before
        } else {
            before.push(s.last())
        }
    }
}

/// A place at which `d` holds `x`.
pub open spec fn slot_of<T>(d: Seq<T>, x: T) -> int {
    choose|i: int| 0 <= i < d.len() && d[i] == x
}

/// `first_seen(s)` holds what `s` holds, each item once.
pub proof fn lemma_first_seen<T>(s: Seq<T>)
    ensures
        first_seen(s).no_duplicates(),
        first_seen(s).len() <= s.len(),
        forall|x: T| #[trigger] first_seen(s).contains(x) <==> s.contains(x),
    decreases s.len(),
{
    if s.len() > 0 {
        let front = s.drop_last();
        let before = first_seen(front);
        lemma_first_seen(front);
        assert forall|x: T| #[trigger] first_seen(s).contains(x) <==> s.contains(x) by {
            if s.contains(x) {
                let i = choose|i: int| 0 <= i < s.len() && s[i] == x;
                if i < s.len() - 1 {
                    assert(front[i] == x);
                    assert(before.contains(x));
                    let j = choose|j: int| 0 <= j < before.len() && before[j] == x;
                    assert(first_seen(s)[j] == x);
                } else if !before.contains(x) {
                    assert(first_seen(s)[before.len() as int] == x);
                } else {
                    let j = choose|j: int| 0 <= j < before.len() && before[j] == x;
                    assert(first_seen(s)[j] == x);
                }
            }
            if first_seen(s).contains(x) {
                let j = choose|j: int| 0 <= j < first_seen(s).len() && first_seen(s)[j] == x;
                if j < before.len() {
                    assert(before[j] == x);
                    assert(before.contains(x));
                    assert(front.contains(x));
                    let i = choose|i: int| 0 <= i < front.len() && front[i] == x;
                    assert(s[i] == x);
                } else {
                    assert(s[s.len() - 1] == x);
                }
            }
        }
    }
}

/// One more item is appended exactly when it has not been seen.
pub proof fn lemma_first_seen_push<T>(s: Seq<T>, x: T)
    ensures
        first_seen(s.push(x)) == if first_seen(s).contains(x) {
            first_seen(s)
        } else {
            first_seen(s).push(x)
        },
{
    assert(s.push(x).drop_last() =~= s);
}

/// What has been seen of a part of `s` stays where it is when the rest is
/// seen.
pub proof fn lemma_first_seen_prefix<T>(s: Seq<T>, i: int)
    requires
        0 <= i <= s.len(),
    ensures
        first_seen(s.take(i)).is_prefix_of(first_seen(s)),
    decreases s.len() - i,
{
    if i < s.len() {
        lemma_first_seen_prefix(s, i + 1);
        assert(s.take(i + 1).drop_last() =~= s.take(i));
        let a = first_seen(s.take(i));
        let b = first_seen(s.take(i + 1));
        assert(a.is_prefix_of(b));
        assert(a =~= first_seen(s).subrange(0, a.len() as int));
    } else {
        assert(s.take(i) =~= s);
    }
}

/// Where nothing occurs twice, an item is found at its own place.
pub proof fn lemma_slot_of<T>(d: Seq<T>, i: int)
    requires
        d.no_duplicates(),
        0 <= i < d.len(),
    ensures
        slot_of(d, d[i]) == i,
{
}

/// An item seen in the first `i` items of `s` keeps its place in
/// `first_seen(s)`.
pub proof fn lemma_slot_stable<T>(s: Seq<T>, i: int, x: T)
    requires
        0 <= i <= s.len(),
        first_seen(s.take(i)).contains(x),
    ensures
        slot_of(first_seen(s), x) == slot_of(first_seen(s.take(i)), x),
        0 <= slot_of(first_seen(s), x) < first_seen(s.take(i)).len(),
{
    lemma_first_seen(s);
    lemma_first_seen(s.take(i));
    lemma_first_seen_prefix(s, i);
    let part = first_seen(s.take(i));
    let j = slot_of(part, x);
    assert(first_seen(s).subrange(0, part.len() as int)[j] == x);
    lemma_slot_of(first_seen(s), j);
}

} // verus!
