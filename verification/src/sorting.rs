//! Putting a course list in order. The sort is stable: entries with the same
//! name and customer number stay in the order in which they came.

use vstd::prelude::*;
use vstd::seq_lib::*;
use crate::entry::{
    entry_precedes,
    lemma_entry_before_not_after,
    lemma_entry_trichotomy,
    CourseEntry,
};

verus! {

/// Whether no entry of the list is listed before one that stands earlier.
pub open spec fn is_sorted(entries: Seq<CourseEntry>) -> bool {
    forall|i: int, j: int|
        0 <= i < j < entries.len() ==> !entry_precedes(
            (#[trigger] entries[j])@,
            (#[trigger] entries[i])@,
        )
}

/// The test for an entry with the given name and customer number.
pub open spec fn has_key(name: Seq<char>, id: int) -> spec_fn(CourseEntry) -> bool {
    |entry: CourseEntry| entry.name@ == name && entry.id == id
}

/// The entries of the list that have the given name and customer number, in
/// the order in which the list holds them.
pub open spec fn with_key(entries: Seq<CourseEntry>, name: Seq<char>, id: int) -> Seq<
    CourseEntry,
> {
    entries.filter(has_key(name, id))
}

/// Whether `after` holds the entries of `before` in order, with entries that
/// the order cannot tell apart in the order that they had in `before`.
pub open spec fn is_stable_sort_of(after: Seq<CourseEntry>, before: Seq<CourseEntry>) -> bool {
    &&& is_sorted(after)
    &&& after.to_multiset() == before.to_multiset()
    &&& forall|name: Seq<char>, id: int| #[trigger]
        with_key(after, name, id) == with_key(before, name, id)
}

/// Putting `x` into a sorted list behind everything that is not listed after
/// it gives a stable sort of what the list held, followed by `x`.
proof fn lemma_insert_keeps_order(
    sorted: Seq<CourseEntry>,
    seen: Seq<CourseEntry>,
    x: CourseEntry,
    p: int,
)
    requires
        is_stable_sort_of(sorted, seen),
        0 <= p <= sorted.len(),
        forall|j: int| p <= j < sorted.len() ==> entry_precedes(x@, (#[trigger] sorted[j])@),
        p > 0 ==> !entry_precedes(x@, sorted[p - 1]@),
    ensures
        is_stable_sort_of(sorted.insert(p, x), seen.push(x)),
{
    let grown = sorted.insert(p, x);
    assert forall|i: int, j: int| 0 <= i < j < grown.len() implies !entry_precedes(
        (#[trigger] grown[j])@,
        (#[trigger] grown[i])@,
    ) by {
        if j == p {
            // grown[i] stood before the place of x
            assert(grown[i] == sorted[i]);
            if i < p - 1 {
                assert(!entry_precedes(sorted[p - 1]@, sorted[i]@));
                if entry_precedes(x@, sorted[i]@) {
                    lemma_entry_before_not_after(x@, sorted[i]@, sorted[p - 1]@);
                }
            }
        } else if i == p {
            assert(grown[j] == sorted[j - 1]);
            lemma_entry_trichotomy(x@, sorted[j - 1]@);
        } else {
            let a = if i < p { i } else { i - 1 };
            let b = if j < p { j } else { j - 1 };
            assert(grown[i] == sorted[a] && grown[j] == sorted[b]);
        }
    }
    to_multiset_insert(sorted, p, x);
    to_multiset_build(seen, x);
    assert forall|name: Seq<char>, id: int| #[trigger]
        with_key(grown, name, id) == with_key(seen.push(x), name, id) by {
        let pred = has_key(name, id);
        let front = sorted.take(p);
        let back = sorted.skip(p);
        assert(sorted =~= front + back);
        assert(grown =~= front.push(x) + back);
        Seq::filter_distributes_over_add(front, back, pred);
        Seq::filter_distributes_over_add(front.push(x), back, pred);
        front.lemma_filter_push(x, pred);
        seen.lemma_filter_push(x, pred);
        assert(with_key(sorted, name, id) == with_key(seen, name, id));
        if pred(x) {
            assert forall|k: int| 0 <= k < back.len() implies !pred(#[trigger] back[k]) by {
                assert(back[k] == sorted[p + k]);
                lemma_entry_trichotomy(x@, sorted[p + k]@);
            }
            assert(back.all(|e: CourseEntry| !pred(e)));
            back.lemma_all_neg_filter_empty(pred);
            assert(back.filter(pred) =~= Seq::<CourseEntry>::empty());
            assert(front.filter(pred) + back.filter(pred) =~= front.filter(pred));
            assert(front.push(x).filter(pred) + back.filter(pred) =~= front.filter(pred).push(x));
        }
    }
}

/// The entries with a given key of a list that starts with `x`: `x` and
/// those of the rest where `x` has the key, else those of the rest.
proof fn lemma_with_key_of_first(list: Seq<CourseEntry>, name: Seq<char>, id: int)
    requires
        list.len() > 0,
    ensures
        with_key(list, name, id) == if has_key(name, id)(list[0]) {
            seq![list[0]] + with_key(list.drop_first(), name, id)
        } else {
            with_key(list.drop_first(), name, id)
        },
{
    let pred = has_key(name, id);
    let first = Seq::<CourseEntry>::empty().push(list[0]);
    assert(list =~= first + list.drop_first());
    Seq::filter_distributes_over_add(first, list.drop_first(), pred);
    Seq::<CourseEntry>::empty().lemma_filter_push(list[0], pred);
    Seq::<CourseEntry>::empty().lemma_filter_len(pred);
    assert(Seq::<CourseEntry>::empty().filter(pred) =~= Seq::<CourseEntry>::empty());
    if pred(list[0]) {
        assert(first.filter(pred) =~= seq![list[0]]);
    } else {
        assert(first.filter(pred) + list.drop_first().filter(pred) =~= list.drop_first().filter(
            pred,
        ));
    }
}

/// Two sorted lists with the same entries, and with the same entries in the
/// same order for every name and customer number, are the same list.
proof fn lemma_sorted_lists_equal(a: Seq<CourseEntry>, b: Seq<CourseEntry>)
    requires
        is_sorted(a),
        is_sorted(b),
        a.to_multiset() == b.to_multiset(),
        forall|name: Seq<char>, id: int| #[trigger] with_key(a, name, id) == with_key(b, name, id),
    ensures
        a == b,
    decreases a.len(),
{
    to_multiset_len(a);
    to_multiset_len(b);
    if a.len() == 0 {
        assert(a =~= b);
    } else {
        let x = a[0];
        let y = b[0];
        // each list holds the first entry of the other, so neither first
        // entry is listed before the other
        to_multiset_contains(a, x);
        to_multiset_contains(b, x);
        to_multiset_contains(a, y);
        to_multiset_contains(b, y);
        assert(a.contains(x));
        assert(b.contains(y));
        let j = choose|j: int| 0 <= j < b.len() && b[j] == x;
        let i = choose|i: int| 0 <= i < a.len() && a[i] == y;
        assert(!entry_precedes(x@, y@)) by {
            if j > 0 {
                assert(!entry_precedes(b[j]@, b[0]@));
            } else {
                lemma_entry_trichotomy(x@, y@);
            }
        }
        assert(!entry_precedes(y@, x@)) by {
            if i > 0 {
                assert(!entry_precedes(a[i]@, a[0]@));
            } else {
                lemma_entry_trichotomy(y@, x@);
            }
        }
        lemma_entry_trichotomy(x@, y@);
        // so the two have one key, and are the first entry with that key
        let name = x.name@;
        let id = x.id as int;
        lemma_with_key_of_first(a, name, id);
        lemma_with_key_of_first(b, name, id);
        assert(with_key(a, name, id) == with_key(b, name, id));
        assert(with_key(a, name, id)[0] == x);
        assert(with_key(b, name, id)[0] == y);
        assert(x == y);
        // and what follows them is the same by induction
        let rest_a = a.drop_first();
        let rest_b = b.drop_first();
        assert(a.remove(0) =~= rest_a);
        assert(b.remove(0) =~= rest_b);
        to_multiset_remove(a, 0);
        to_multiset_remove(b, 0);
        assert forall|i: int, j: int| 0 <= i < j < rest_a.len() implies !entry_precedes(
            (#[trigger] rest_a[j])@,
            (#[trigger] rest_a[i])@,
        ) by {
            assert(rest_a[j] == a[j + 1] && rest_a[i] == a[i + 1]);
        }
        assert forall|i: int, j: int| 0 <= i < j < rest_b.len() implies !entry_precedes(
            (#[trigger] rest_b[j])@,
            (#[trigger] rest_b[i])@,
        ) by {
            assert(rest_b[j] == b[j + 1] && rest_b[i] == b[i + 1]);
        }
        assert forall|name: Seq<char>, id: int| #[trigger]
            with_key(rest_a, name, id) == with_key(rest_b, name, id) by {
            lemma_with_key_of_first(a, name, id);
            lemma_with_key_of_first(b, name, id);
            assert(with_key(a, name, id) == with_key(b, name, id));
            if has_key(name, id)(x) {
                let whole = with_key(a, name, id);
                assert(with_key(rest_a, name, id) =~= whole.drop_first());
                assert(with_key(rest_b, name, id) =~= whole.drop_first());
            }
        }
        lemma_sorted_lists_equal(rest_a, rest_b);
        assert(a =~= seq![x] + rest_a);
        assert(b =~= seq![y] + rest_b);
    }
}

/// A list has one stable sort only: two lists that both are a stable sort
/// of it are the same.
pub proof fn lemma_stable_sort_unique(
    first: Seq<CourseEntry>,
    second: Seq<CourseEntry>,
    before: Seq<CourseEntry>,
)
    requires
        is_stable_sort_of(first, before),
        is_stable_sort_of(second, before),
    ensures
        first == second,
{
    assert forall|name: Seq<char>, id: int| #[trigger]
        with_key(first, name, id) == with_key(second, name, id) by {
        assert(with_key(first, name, id) == with_key(before, name, id));
        assert(with_key(second, name, id) == with_key(before, name, id));
    }
    lemma_sorted_lists_equal(first, second);
}

/// A sorted list is its own stable sort, so sorting it again changes nothing.
pub proof fn lemma_sorted_is_own_sort(list: Seq<CourseEntry>)
    requires
        is_sorted(list),
    ensures
        is_stable_sort_of(list, list),
{
}

/// Sorts the list by name, and by customer number where two names are the
/// same. Entries with the same name and number keep their order.
pub fn sort_entries(list: &mut Vec<CourseEntry>)
    ensures
        is_stable_sort_of(final(list)@, old(list)@),
{
    let ghost before = list@;
    let n = list.len();
    let mut i: usize = 0;
    proof {
        assert(list@.take(0) =~= Seq::<CourseEntry>::empty());
        assert(before.take(0) =~= Seq::<CourseEntry>::empty());
        assert forall|name: Seq<char>, id: int| #[trigger]
            with_key(list@.take(0), name, id) == with_key(before.take(0), name, id) by {}
    }
    while i < n
        invariant
            i <= n,
            n == before.len(),
            list@.len() == n,
            list@.skip(i as int) == before.skip(i as int),
            is_stable_sort_of(list@.take(i as int), before.take(i as int)),
        decreases n - i,
    {
        let ghost sorted = list@.take(i as int);
        let ghost rest = before.skip(i + 1);
        assert(list@[i as int] == list@.skip(i as int)[0]);
        let x = list.remove(i);
        assert(x == before[i as int]);
        assert(list@ =~= sorted + rest) by {
            assert(before.skip(i as int).skip(1) =~= rest);
        }
        let mut p: usize = i;
        while p > 0 && x.precedes(&list[p - 1])
            invariant
                p <= i,
                i < n,
                list@ == sorted + rest,
                sorted.len() == i,
                forall|j: int| p <= j < i ==> entry_precedes(x@, (#[trigger] sorted[j])@),
            decreases p,
        {
            p -= 1;
        }
        list.insert(p, x);
        proof {
            assert(p > 0 ==> list@[p - 1] == sorted[p - 1]);
            lemma_insert_keeps_order(sorted, before.take(i as int), x, p as int);
            assert(list@ =~= sorted.insert(p as int, x) + rest);
            assert(list@.take(i + 1) =~= sorted.insert(p as int, x));
            assert(list@.skip(i + 1) =~= rest);
            assert(before.take(i + 1) =~= before.take(i as int).push(x));
        }
        i += 1;
    }
    proof {
        assert(list@.take(i as int) =~= list@);
        assert(before.take(i as int) =~= before);
    }
}

} // verus!
