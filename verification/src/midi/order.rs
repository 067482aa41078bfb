//! Stable ordering of the merged note list by start time.
//!
//! The target order is pinned down by a spec-level insertion sort: elements
//! are taken left to right, and each is placed after every element already
//! placed whose start time does not exceed its own. That makes the sort
//! stable by construction — ties keep their arrival order — and the
//! executable sort is proved to return exactly that sequence.

use vstd::prelude::*;

use crate::midi::note::Note;
use crate::midi::pairing::notes_wf;

verus! {

/// The global output invariant: start times never decrease along the list.
pub open spec fn sorted_by_start(notes: Seq<Note>) -> bool {
    forall|i: int, j: int|
        0 <= i <= j < notes.len()
            ==> #[trigger] notes[i].start_time <= #[trigger] notes[j].start_time
}

/// Where a stable insertion places `x` in the already sorted `s`: after
/// every element whose start time is at most `x`'s, before every later one.
pub open spec fn insert_note(s: Seq<Note>, x: Note) -> Seq<Note>
    decreases s.len(),
{
    if s.len() == 0 {
        seq![x]
    } else if s.last().start_time > x.start_time {
        insert_note(s.drop_last(), x).push(s.last())
    } else {
        s.push(x)
    }
}

/// The stable sort of `s` by start time: insert the elements left to right.
pub open spec fn stable_sorted(s: Seq<Note>) -> Seq<Note>
    decreases s.len(),
{
    if s.len() == 0 {
        Seq::empty()
    } else {
        insert_note(stable_sorted(s.drop_last()), s.last())
    }
}

/// Inserting adds exactly `x` to the elements of `s`.
proof fn lemma_insert_note_elems(s: Seq<Note>, x: Note)
    ensures
        insert_note(s, x).len() == s.len() + 1,
        forall|k: int|
            0 <= k < insert_note(s, x).len()
                ==> s.contains(#[trigger] insert_note(s, x)[k]) || insert_note(s, x)[k] == x,
    decreases s.len(),
{
    if s.len() == 0 {
    } else if s.last().start_time > x.start_time {
        lemma_insert_note_elems(s.drop_last(), x);
        assert forall|k: int| 0 <= k < insert_note(s, x).len()
            implies s.contains(#[trigger] insert_note(s, x)[k]) || insert_note(s, x)[k] == x by {
            let r = insert_note(s.drop_last(), x);
            if k < r.len() {
                if s.drop_last().contains(r[k]) {
                    let w = choose|w: int| 0 <= w < s.drop_last().len() && s.drop_last()[w] == r[k];
                    assert(s[w] == r[k]);
                }
            } else {
                assert(insert_note(s, x)[k] == s.last());
                assert(s[s.len() - 1] == s.last());
            }
        }
    } else {
        assert forall|k: int| 0 <= k < insert_note(s, x).len()
            implies s.contains(#[trigger] insert_note(s, x)[k]) || insert_note(s, x)[k] == x by {
            if k < s.len() {
                assert(s[k] == insert_note(s, x)[k]);
            }
        }
    }
}

/// Inserting into a sorted sequence keeps it sorted.
proof fn lemma_insert_note_sorted(s: Seq<Note>, x: Note)
    requires
        sorted_by_start(s),
    ensures
        sorted_by_start(insert_note(s, x)),
    decreases s.len(),
{
    if s.len() == 0 {
    } else if s.last().start_time > x.start_time {
        assert(sorted_by_start(s.drop_last()));
        lemma_insert_note_sorted(s.drop_last(), x);
        lemma_insert_note_elems(s.drop_last(), x);
        let r = insert_note(s.drop_last(), x);
        assert forall|k: int| 0 <= k < r.len()
            implies (#[trigger] r[k]).start_time <= s.last().start_time by {
            if s.drop_last().contains(r[k]) {
                let w = choose|w: int| 0 <= w < s.drop_last().len() && s.drop_last()[w] == r[k];
                assert(s[w].start_time <= s.last().start_time);
            }
        }
    } else {
        assert forall|i: int, j: int| 0 <= i <= j < s.push(x).len()
            implies #[trigger] s.push(x)[i].start_time <= #[trigger] s.push(x)[j].start_time by {
            if j < s.len() {
            } else {
                if i < s.len() {
                    assert(s[i].start_time <= s.last().start_time);
                }
            }
        }
    }
}

/// The stable sort returns a sorted sequence.
pub proof fn lemma_stable_sorted_sorted(s: Seq<Note>)
    ensures
        sorted_by_start(stable_sorted(s)),
    decreases s.len(),
{
    if s.len() == 0 {
    } else {
        lemma_stable_sorted_sorted(s.drop_last());
        lemma_insert_note_sorted(stable_sorted(s.drop_last()), s.last());
    }
}

/// The stable sort keeps every element well formed.
pub proof fn lemma_stable_sorted_wf(s: Seq<Note>)
    requires
        notes_wf(s),
    ensures
        notes_wf(stable_sorted(s)),
    decreases s.len(),
{
    if s.len() == 0 {
    } else {
        assert(notes_wf(s.drop_last()));
        lemma_stable_sorted_wf(s.drop_last());
        lemma_insert_note_elems(stable_sorted(s.drop_last()), s.last());
        let r = insert_note(stable_sorted(s.drop_last()), s.last());
        assert forall|k: int| 0 <= k < r.len() implies (#[trigger] r[k]).wf() by {
            let p = stable_sorted(s.drop_last());
            if p.contains(r[k]) {
                let w = choose|w: int| 0 <= w < p.len() && p[w] == r[k];
            } else {
                assert(r[k] == s.last());
                assert(s[s.len() - 1].wf());
            }
        }
    }
}

/// Inserting adds exactly `x`, as multisets.
proof fn lemma_insert_note_multiset(s: Seq<Note>, x: Note)
    ensures
        insert_note(s, x).to_multiset() == s.to_multiset().insert(x),
    decreases s.len(),
{
    broadcast use vstd::seq_lib::group_to_multiset_ensures;

    if s.len() == 0 {
        assert(seq![x] =~= Seq::<Note>::empty().push(x));
    } else if s.last().start_time > x.start_time {
        lemma_insert_note_multiset(s.drop_last(), x);
        assert(s =~= s.drop_last().push(s.last()));
        let m = s.drop_last().to_multiset();
        assert(m.insert(x).insert(s.last()) =~= m.insert(s.last()).insert(x));
    } else {
    }
}

/// The stable sort only reorders: it returns exactly the notes it was
/// given, as multisets.
pub proof fn lemma_stable_sorted_permutes(s: Seq<Note>)
    ensures
        stable_sorted(s).to_multiset() == s.to_multiset(),
    decreases s.len(),
{
    broadcast use vstd::seq_lib::group_to_multiset_ensures;

    if s.len() == 0 {
    } else {
        lemma_stable_sorted_permutes(s.drop_last());
        lemma_insert_note_multiset(stable_sorted(s.drop_last()), s.last());
        assert(s =~= s.drop_last().push(s.last()));
    }
}

/// The notes that start at exactly `key`.
pub open spec fn starts_at(key: u128) -> spec_fn(Note) -> bool {
    |n: Note| n.start_time == key
}

/// Inserting `x` appends it to its own start-time group and leaves every
/// other group unchanged.
proof fn lemma_insert_note_filter(s: Seq<Note>, x: Note, key: u128)
    ensures
        insert_note(s, x).filter(starts_at(key)) == if x.start_time == key {
            s.filter(starts_at(key)).push(x)
        } else {
            s.filter(starts_at(key))
        },
    decreases s.len(),
{
    reveal_with_fuel(Seq::<Note>::filter, 2);
    let pred = starts_at(key);
    if s.len() == 0 {
        assert(seq![x] =~= Seq::<Note>::empty().push(x));
        assert(seq![x].drop_last() =~= Seq::<Note>::empty());
    } else if s.last().start_time > x.start_time {
        lemma_insert_note_filter(s.drop_last(), x, key);
        let r = insert_note(s.drop_last(), x);
        assert(r.push(s.last()).drop_last() =~= r);
        assert(s.drop_last().push(s.last()).drop_last() =~= s.drop_last());
        assert(s =~= s.drop_last().push(s.last()));
    } else {
        assert(s.push(x).drop_last() =~= s);
    }
}

/// Stability: for every start time, the sorted result lists the notes with
/// that start time in exactly their input order.
pub proof fn lemma_stable_sorted_stable(s: Seq<Note>, key: u128)
    ensures
        stable_sorted(s).filter(starts_at(key)) == s.filter(starts_at(key)),
    decreases s.len(),
{
    reveal_with_fuel(Seq::<Note>::filter, 2);
    if s.len() == 0 {
    } else {
        lemma_stable_sorted_stable(s.drop_last(), key);
        lemma_insert_note_filter(stable_sorted(s.drop_last()), s.last(), key);
        assert(s.drop_last().push(s.last()).drop_last() =~= s.drop_last());
        assert(s =~= s.drop_last().push(s.last()));
    }
}

/// Sorts the merged note list ascending by start time, in place, with a
/// stable insertion sort: the result is exactly the stable sort of the
/// input, so ties keep their arrival order.
pub fn sort_notes_by_start(notes: &mut Vec<Note>)
    ensures
        final(notes)@ == stable_sorted(old(notes)@),
        sorted_by_start(final(notes)@),
{
    let ghost orig = old(notes)@;
    let n: usize = notes.len();
    proof {
        assert(orig.take(0) =~= Seq::<Note>::empty());
        assert(orig.skip(0) =~= orig);
    }
    let mut i: usize = 0;
    while i < n
        invariant
            n == notes@.len(),
            n == orig.len(),
            0 <= i <= n,
            notes@ == stable_sorted(orig.take(i as int)) + orig.skip(i as int),
            sorted_by_start(stable_sorted(orig.take(i as int))),
            stable_sorted(orig.take(i as int)).len() == i,
        decreases n - i,
    {
        let ghost p = stable_sorted(orig.take(i as int));
        let x = notes[i];
        proof {
            assert(orig.skip(i as int)[0] == orig[i as int]);
            assert(x == orig[i as int]);
            assert(orig.take(i + 1).drop_last() =~= orig.take(i as int));
            assert(orig.take(i + 1).last() == orig[i as int]);
            assert(stable_sorted(orig.take(i + 1)) == insert_note(p, x));
            assert(p.take(i as int) =~= p);
            assert(p.skip(i as int) =~= Seq::<Note>::empty());
            assert(insert_note(p.take(i as int), x) + p.skip(i as int) =~= insert_note(p, x));
        }
        let mut j: usize = i;
        while j > 0 && notes[j - 1].start_time > x.start_time
            invariant
                n == notes@.len(),
                n == orig.len(),
                0 <= j <= i < n,
                p == stable_sorted(orig.take(i as int)),
                p.len() == i,
                x == orig[i as int],
                sorted_by_start(p),
                forall|k: int| 0 <= k < j ==> notes@[k] == p[k],
                forall|k: int| j < k <= i ==> notes@[k] == p[k - 1],
                forall|k: int| i < k < n ==> notes@[k] == orig[k],
                insert_note(p.take(j as int), x) + p.skip(j as int) == insert_note(p, x),
            decreases j,
        {
            proof {
                assert(notes@[j - 1] == p[j - 1]);
                assert(p.take(j as int).last() == p[j - 1]);
                assert(p.take(j as int).drop_last() =~= p.take(j - 1));
                assert(insert_note(p.take(j as int), x)
                    == insert_note(p.take(j - 1), x).push(p[j - 1]));
                assert(insert_note(p.take(j - 1), x).push(p[j - 1]) + p.skip(j as int)
                    =~= insert_note(p.take(j - 1), x) + p.skip(j - 1)) by {
                    assert(p.skip(j - 1)[0] == p[j - 1]);
                }
            }
            let moved = notes[j - 1];
            notes[j] = moved;
            j = j - 1;
        }
        proof {
            if j > 0 {
                assert(notes@[j - 1] == p[j - 1]);
                assert(p.take(j as int).last() == p[j - 1]);
                assert(insert_note(p.take(j as int), x) == p.take(j as int).push(x));
            } else {
                assert(p.take(0) =~= Seq::<Note>::empty());
                assert(insert_note(p.take(0), x) == seq![x]);
            }
        }
        notes[j] = x;
        proof {
            assert(notes@ =~= stable_sorted(orig.take(i + 1)) + orig.skip(i + 1)) by {
                assert(insert_note(p, x) =~= p.take(j as int).push(x) + p.skip(j as int));
                assert(forall|k: int| 0 <= k < j ==> notes@[k] == p[k]);
                assert(notes@[j as int] == x);
                assert(forall|k: int| j < k <= i ==> notes@[k] == p[k - 1]);
                assert(forall|k: int| i < k < n ==> notes@[k] == orig[k]);
                assert(orig.skip(i + 1) =~= orig.skip(i as int).skip(1));
            }
            lemma_insert_note_sorted(p, x);
            lemma_insert_note_elems(p, x);
        }
        i = i + 1;
    }
    proof {
        assert(orig.take(n as int) =~= orig);
        assert(orig.skip(n as int) =~= Seq::<Note>::empty());
        assert(notes@ =~= stable_sorted(orig));
    }
}

} // verus!
