//! Name-keyed per-frame status maps.
//!
//! Each behavior kind with hover/press-like state keeps a map from a
//! display name to its latest status. The map is a per-frame derived
//! projection: every frame the newly detected statuses replace the old
//! ones, except that an entry which was active last frame and was not
//! detected this frame is retained exactly once more with its active
//! flag cleared — the single-frame "just stopped" transition — and is
//! dropped on the following frame.
//!
//! Lookup is fuzzy: [`StatusMap::any`] returns the first entry whose
//! name contains the pattern, in the map's entry order. When several
//! entries could match a pattern the caller must disambiguate with a
//! longer substring; that is a documented constraint of the design.

use vstd::prelude::*;

use crate::text::{contains_seq, str_contains};

verus! {

/// A status that can decay: it knows whether it is currently active and
/// what it looks like with the active flag cleared.
pub trait FrameStatus: Sized {
    /// Whether this status counts as active (hovered, inside, ...).
    spec fn active(self) -> bool;

    /// This status with its active flag cleared.
    spec fn cleared(self) -> Self;

    /// Clear the active flag.
    fn deactivate(self) -> (r: Self)
        ensures
            r == self.cleared(),
            !r.active(),
    ;

    /// Whether this status counts as active, decided at run time.
    fn is_active(&self) -> (r: bool)
        ensures
            r == self.active(),
    ;
}

/// First status stored under exactly the name `name`.
pub open spec fn assoc_find<S>(entries: Seq<(String, S)>, name: Seq<char>) -> Option<S>
    decreases entries.len(),
{
    if entries.len() == 0 {
        None
    } else if entries[0].0@ == name {
        Some(entries[0].1)
    } else {
        assoc_find(entries.drop_first(), name)
    }
}

/// Whether some entry carries exactly the name `name`.
pub open spec fn has_name<S>(entries: Seq<(String, S)>, name: Seq<char>) -> bool {
    exists|j: int| 0 <= j < entries.len() && entries[j].0@ == name
}

/// No two entries share a name.
pub open spec fn distinct_names<S>(entries: Seq<(String, S)>) -> bool {
    forall|i: int, j: int|
        0 <= i < j < entries.len() ==> entries[i].0@ != entries[j].0@
}

/// The entries retained one extra frame when `fresh` replaces `entries`:
/// those that were active and are not redetected, with their active flag
/// cleared, in their original order.
pub open spec fn decayed<S: FrameStatus>(
    entries: Seq<(String, S)>,
    fresh: Seq<(String, S)>,
) -> Seq<(String, S)>
    decreases entries.len(),
{
    if entries.len() == 0 {
        Seq::empty()
    } else {
        let last = entries.last();
        decayed(entries.drop_last(), fresh) + if last.1.active() && !has_name(fresh, last.0@) {
            seq![(last.0, last.1.cleared())]
        } else {
            Seq::empty()
        }
    }
}

/// First entry, front to back, whose name contains `pat`.
pub open spec fn first_fuzzy_match<S>(entries: Seq<(String, S)>, pat: Seq<char>) -> Option<S>
    decreases entries.len(),
{
    if entries.len() == 0 {
        None
    } else if contains_seq(entries[0].0@, pat) {
        Some(entries[0].1)
    } else {
        first_fuzzy_match(entries.drop_first(), pat)
    }
}

/// A per-frame map from display name to status.
pub struct StatusMap<S> {
    entries: Vec<(String, S)>,
}

impl<S> StatusMap<S> {
    /// The entries, in lookup order.
    pub closed spec fn entries_view(&self) -> Seq<(String, S)> {
        self.entries@
    }

    /// Names are unique.
    pub open spec fn wf(&self) -> bool {
        distinct_names(self.entries_view())
    }

    /// The status stored under exactly `name`.
    pub open spec fn spec_find(&self, name: Seq<char>) -> Option<S> {
        assoc_find(self.entries_view(), name)
    }

    /// An empty map.
    pub fn new() -> (r: StatusMap<S>)
        ensures
            r.entries_view() == Seq::<(String, S)>::empty(),
            r.wf(),
    {
        StatusMap { entries: Vec::new() }
    }

    /// Drop everything and store exactly `fresh`; the rebuild used by
    /// kinds without decay semantics.
    pub fn rebuild(&mut self, fresh: Vec<(String, S)>)
        requires
            distinct_names(fresh@),
        ensures
            final(self).entries_view() == fresh@,
            final(self).wf(),
    {
        self.entries = fresh;
    }
}

impl<S: Copy> StatusMap<S> {
    /// Fuzzy lookup: the first entry whose name contains `pat`, in entry
    /// order; `None` when no name contains it.
    pub fn any(&self, pat: &str) -> (r: Option<S>)
        ensures
            r == first_fuzzy_match(self.entries_view(), pat@),
    {
        let n = self.entries.len();
        let mut i: usize = 0;
        proof {
            assert(self.entries@.skip(0) =~= self.entries@);
        }
        while i < n
            invariant
                n == self.entries@.len(),
                0 <= i <= n,
                first_fuzzy_match(self.entries@, pat@) == first_fuzzy_match(
                    self.entries@.skip(i as int),
                    pat@,
                ),
            decreases n - i,
        {
            let entry = &self.entries[i];
            proof {
                assert(self.entries@.skip(i as int)[0] == self.entries@[i as int]);
            }
            if str_contains(entry.0.as_str(), pat) {
                return Some(entry.1);
            }
            proof {
                assert(self.entries@.skip(i as int).drop_first() =~= self.entries@.skip(
                    i as int + 1,
                ));
            }
            i += 1;
        }
        proof {
            assert(self.entries@.skip(n as int) =~= Seq::<(String, S)>::empty());
        }
        None
    }
}

impl<S: FrameStatus + Copy> StatusMap<S> {
    /// Replace the map by this frame's detected statuses, retaining each
    /// active, undetected entry exactly once more with its flag cleared.
    pub fn refresh(&mut self, fresh: Vec<(String, S)>)
        requires
            old(self).wf(),
            distinct_names(fresh@),
        ensures
            final(self).entries_view() == decayed(old(self).entries_view(), fresh@) + fresh@,
            final(self).wf(),
    {
        let ghost old_entries = self.entries@;
        let mut kept: Vec<(String, S)> = Vec::new();
        let n = self.entries.len();
        let mut i: usize = 0;
        while i < n
            invariant
                n == old_entries.len(),
                self.entries@ == old_entries,
                0 <= i <= n,
                kept@ == decayed(old_entries.take(i as int), fresh@),
                distinct_names(old_entries),
                forall|k: int|
                    0 <= k < kept@.len() ==> {
                        &&& has_name(old_entries.take(i as int), #[trigger] kept@[k].0@)
                        &&& !has_name(fresh@, kept@[k].0@)
                    },
            decreases n - i,
        {
            let entry = &self.entries[i];
            let retained = entry.1.is_active() && !contains_name(&fresh, &entry.0);
            proof {
                assert(old_entries.take(i as int + 1).drop_last() =~= old_entries.take(i as int));
                assert(old_entries.take(i as int + 1).last() == old_entries[i as int]);
            }
            let ghost prev_kept = kept@;
            if retained {
                let cleared = entry.1.deactivate();
                let name_copy = clone_string(&entry.0);
                kept.push((name_copy, cleared));
                proof {
                    assert((name_copy, cleared) == (
                        old_entries[i as int].0,
                        old_entries[i as int].1.cleared(),
                    ));
                    assert(kept@ =~= decayed(old_entries.take(i as int + 1), fresh@));
                    assert(has_name(old_entries.take(i as int + 1), kept@.last().0@)) by {
                        assert(old_entries.take(i as int + 1)[i as int].0@ == kept@.last().0@);
                    }
                }
            } else {
                proof {
                    assert(kept@ =~= decayed(old_entries.take(i as int + 1), fresh@));
                }
            }
            proof {
                assert forall|k: int| 0 <= k < prev_kept.len() implies has_name(
                    old_entries.take(i as int + 1),
                    #[trigger] prev_kept[k].0@,
                ) by {
                    lemma_has_name_extend(old_entries, i as int, prev_kept[k].0@);
                }
                assert(forall|k: int|
                    0 <= k < prev_kept.len() ==> kept@[k] == #[trigger] prev_kept[k]);
            }
            i += 1;
        }
        proof {
            assert(old_entries.take(n as int) =~= old_entries);
        }
        let ghost kept_entries = kept@;
        let mut out = kept;
        let mut fresh_in = fresh;
        let ghost fresh_entries = fresh_in@;
        let fm = fresh_in.len();
        let mut j: usize = 0;
        // Move the fresh entries to the back of the kept ones in order.
        while j < fm
            invariant
                fm == fresh_entries.len(),
                0 <= j <= fm,
                fresh_in@ == fresh_entries.skip(j as int),
                out@ == kept_entries + fresh_entries.take(j as int),
            decreases fm - j,
        {
            let head = fresh_in.remove(0);
            proof {
                assert(fresh_entries.skip(j as int)[0] == fresh_entries[j as int]);
                assert(fresh_entries.skip(j as int).drop_first() =~= fresh_entries.skip(
                    j as int + 1,
                ));
            }
            out.push(head);
            proof {
                assert(out@ =~= kept_entries + fresh_entries.take(j as int + 1));
            }
            j += 1;
        }
        proof {
            assert(fresh_entries.take(fm as int) =~= fresh_entries);
        }
        self.entries = out;
        proof {
            lemma_decayed_distinct(old_entries, fresh_entries);
            assert forall|a: int, b: int|
                0 <= a < b < self.entries@.len() implies self.entries@[a].0@
                != self.entries@[b].0@ by {
                let kl = kept_entries.len() as int;
                if b < kl {
                } else if a >= kl {
                    assert(fresh_entries[a - kl].0@ != fresh_entries[b - kl].0@);
                } else {
                    assert(!has_name(fresh_entries, kept_entries[a].0@));
                    assert(fresh_entries[b - kl].0@ != kept_entries[a].0@);
                }
            }
        }
    }
}

/// A name found among the first `i` entries is still found among the
/// first `i + 1`.
proof fn lemma_has_name_extend<S>(s: Seq<(String, S)>, i: int, n: Seq<char>)
    requires
        0 <= i < s.len(),
        has_name(s.take(i), n),
    ensures
        has_name(s.take(i + 1), n),
{
    let j = choose|j: int| 0 <= j < s.take(i).len() && s.take(i)[j].0@ == n;
    assert(s.take(i + 1)[j].0@ == n);
}

/// The retained entries of a refresh keep distinct names and never
/// collide with a fresh name.
proof fn lemma_decayed_distinct<S: FrameStatus>(entries: Seq<(String, S)>, fresh: Seq<(String, S)>)
    requires
        distinct_names(entries),
    ensures
        distinct_names(decayed(entries, fresh)),
        forall|k: int|
            0 <= k < decayed(entries, fresh).len() ==> !has_name(
                fresh,
                #[trigger] decayed(entries, fresh)[k].0@,
            ),
        forall|k: int|
            0 <= k < decayed(entries, fresh).len() ==> has_name(
                entries,
                #[trigger] decayed(entries, fresh)[k].0@,
            ),
    decreases entries.len(),
{
    if entries.len() > 0 {
        let front = entries.drop_last();
        assert(distinct_names(front));
        lemma_decayed_distinct(front, fresh);
        let d = decayed(entries, fresh);
        let df = decayed(front, fresh);
        assert forall|k: int| 0 <= k < d.len() implies has_name(entries, #[trigger] d[k].0@) by {
            if k < df.len() {
                let j = choose|j: int| 0 <= j < front.len() && front[j].0@ == df[k].0@;
                assert(entries[j].0@ == d[k].0@);
            } else {
                assert(d[k].0@ == entries.last().0@);
                assert(entries[entries.len() - 1].0@ == d[k].0@);
            }
        }
        assert forall|a: int, b: int| 0 <= a < b < d.len() implies d[a].0@ != d[b].0@ by {
            if b < df.len() {
            } else {
                assert(d[b].0@ == entries.last().0@);
                let j = choose|j: int| 0 <= j < front.len() && front[j].0@ == df[a].0@;
                assert(entries[j].0@ == d[a].0@);
                assert(entries[j].0@ != entries[entries.len() - 1].0@);
            }
        }
    }
}

/// Index of the first entry named `name`; meaningful only when one
/// exists.
pub open spec fn first_index_named<S>(entries: Seq<(String, S)>, name: Seq<char>) -> int
    decreases entries.len(),
{
    if entries.len() == 0 {
        0
    } else if entries[0].0@ == name {
        0
    } else {
        1 + first_index_named(entries.drop_first(), name)
    }
}

/// Store `v` under `name` the way a map insert does: overwrite the
/// first entry already carrying the name, else append a new entry.
pub open spec fn assoc_upsert<S>(entries: Seq<(String, S)>, name: String, v: S) -> Seq<
    (String, S),
> {
    if has_name(entries, name@) {
        let i = first_index_named(entries, name@);
        entries.update(i, (entries[i].0, v))
    } else {
        entries.push((name, v))
    }
}

/// When the name is present, its first index is a real index, carries
/// the name, and nothing before it does.
pub proof fn lemma_first_index_named<S>(entries: Seq<(String, S)>, name: Seq<char>)
    requires
        has_name(entries, name),
    ensures
        0 <= first_index_named(entries, name) < entries.len(),
        entries[first_index_named(entries, name)].0@ == name,
        forall|k: int| 0 <= k < first_index_named(entries, name) ==> entries[k].0@ != name,
    decreases entries.len(),
{
    if entries[0].0@ == name {
    } else {
        let tail_entries = entries.drop_first();
        assert(has_name(tail_entries, name)) by {
            let j = choose|j: int| 0 <= j < entries.len() && entries[j].0@ == name;
            assert(tail_entries[j - 1].0@ == name);
        }
        lemma_first_index_named(tail_entries, name);
        let i = first_index_named(entries, name);
        assert(entries[i] == tail_entries[i - 1]);
        assert forall|k: int| 0 <= k < i implies entries[k].0@ != name by {
            if k > 0 {
                assert(entries[k] == tail_entries[k - 1]);
            }
        }
    }
}

/// An upsert keeps names unique.
pub proof fn lemma_upsert_distinct<S>(entries: Seq<(String, S)>, name: String, v: S)
    requires
        distinct_names(entries),
    ensures
        distinct_names(assoc_upsert(entries, name, v)),
{
    if has_name(entries, name@) {
        lemma_first_index_named(entries, name@);
    } else {
        let pushed = entries.push((name, v));
        assert forall|a: int, b: int|
            0 <= a < b < pushed.len() implies pushed[a].0@ != pushed[b].0@ by {
            if b == entries.len() as int {
                assert(pushed[a] == entries[a]);
                assert(entries[a].0@ != name@);
            } else {
                assert(pushed[a] == entries[a]);
                assert(pushed[b] == entries[b]);
            }
        }
    }
}

/// Map-style insert into the entry list: overwrite the first entry
/// carrying `name`, else append.
pub fn upsert<S>(entries: &mut Vec<(String, S)>, name: String, v: S)
    ensures
        final(entries)@ == assoc_upsert(old(entries)@, name, v),
{
    let ghost orig = entries@;
    let n = entries.len();
    let mut found: Option<usize> = None;
    let mut i: usize = 0;
    while i < n && found.is_none()
        invariant
            n == entries@.len(),
            entries@ == orig,
            0 <= i <= n,
            forall|k: int| 0 <= k < i ==> entries@[k].0@ != name@,
            match found {
                Some(f) => f == i && i < n && entries@[f as int].0@ == name@,
                None => true,
            },
        decreases n - i + (if found is None { 1int } else { 0int }),
    {
        if entries[i].0.eq(&name) {
            found = Some(i);
        } else {
            i += 1;
        }
    }
    match found {
        Some(f) => {
            proof {
                assert(orig[f as int].0@ == name@);
                assert(has_name(orig, name@));
                lemma_first_index_named(orig, name@);
                assert(first_index_named(orig, name@) == f as int);
            }
            let pair = (clone_string(&entries[f].0), v);
            proof {
                assert(pair == (orig[f as int].0, v));
            }
            entries.set(f, pair);
            proof {
                assert(entries@ =~= assoc_upsert(orig, name, v));
            }
        }
        None => {
            proof {
                assert(!has_name(orig, name@));
            }
            entries.push((name, v));
        }
    }
}

/// Lookup distributes over appending entry lists: the front list wins.
proof fn lemma_find_append<S>(a: Seq<(String, S)>, b: Seq<(String, S)>, n: Seq<char>)
    ensures
        assoc_find(a + b, n) == match assoc_find(a, n) {
            Some(v) => Some(v),
            None => assoc_find(b, n),
        },
    decreases a.len(),
{
    if a.len() == 0 {
        assert(a + b =~= b);
    } else {
        assert((a + b)[0] == a[0]);
        assert((a + b).drop_first() =~= a.drop_first() + b);
        lemma_find_append(a.drop_first(), b, n);
    }
}

/// A name is found exactly when some entry carries it.
proof fn lemma_find_has_name<S>(s: Seq<(String, S)>, n: Seq<char>)
    ensures
        assoc_find(s, n) is Some <==> has_name(s, n),
    decreases s.len(),
{
    if s.len() == 0 {
    } else if s[0].0@ == n {
        assert(has_name(s, n)) by {
            assert(s[0].0@ == n);
        }
    } else {
        lemma_find_has_name(s.drop_first(), n);
        if has_name(s, n) {
            let j = choose|j: int| 0 <= j < s.len() && s[j].0@ == n;
            assert(s.drop_first()[j - 1].0@ == n);
            assert(has_name(s.drop_first(), n));
        }
        if has_name(s.drop_first(), n) {
            let j = choose|j: int| 0 <= j < s.drop_first().len() && s.drop_first()[j].0@ == n;
            assert(s[j + 1].0@ == n);
        }
    }
}

/// What a name maps to among the retained entries: its old status with
/// the flag cleared when that status was active and the name was not
/// redetected, and nothing otherwise.
proof fn lemma_find_decayed<S: FrameStatus>(
    entries: Seq<(String, S)>,
    fresh: Seq<(String, S)>,
    n: Seq<char>,
)
    requires
        distinct_names(entries),
    ensures
        assoc_find(decayed(entries, fresh), n) == match assoc_find(entries, n) {
            Some(s) => if s.active() && !has_name(fresh, n) {
                Some(s.cleared())
            } else {
                None
            },
            None => None,
        },
    decreases entries.len(),
{
    if entries.len() > 0 {
        let front = entries.drop_last();
        let last = entries.last();
        let held = if last.1.active() && !has_name(fresh, last.0@) {
            seq![(last.0, last.1.cleared())]
        } else {
            Seq::<(String, S)>::empty()
        };
        assert(distinct_names(front));
        lemma_find_decayed(front, fresh, n);
        lemma_find_append(decayed(front, fresh), held, n);
        assert(entries =~= front + seq![last]);
        lemma_find_append(front, seq![last], n);
        lemma_find_has_name(front, n);
        assert(assoc_find(Seq::<(String, S)>::empty(), n) == None::<S>);
        if assoc_find(front, n) is Some {
            assert(has_name(front, n));
            let j = choose|j: int| 0 <= j < front.len() && front[j].0@ == n;
            assert(front[j] == entries[j]);
            assert(entries[j].0@ == n);
            assert(entries[entries.len() - 1].0@ != n);
            assert(last.0@ != n);
            if held.len() > 0 {
                assert(assoc_find(held, n) == None::<S>) by {
                    assert(held[0] == (last.0, last.1.cleared()));
                    assert(held[0].0@ != n);
                    assert(held.drop_first() =~= Seq::<(String, S)>::empty());
                }
            }
        } else {
            if last.0@ == n {
                assert(assoc_find(seq![last], n) == Some(last.1)) by {
                    assert(seq![last][0] == last);
                }
                if last.1.active() && !has_name(fresh, n) {
                    assert(assoc_find(held, n) == Some(last.1.cleared())) by {
                        assert(held[0] == (last.0, last.1.cleared()));
                    }
                } else {
                    if held.len() > 0 {
                        assert(assoc_find(held, n) == None::<S>) by {
                            assert(held.drop_first() =~= Seq::<(String, S)>::empty());
                        }
                    }
                }
            } else {
                assert(assoc_find(seq![last], n) == None::<S>) by {
                    assert(seq![last][0] == last);
                    assert(seq![last][0].0@ != n);
                    assert(seq![last].drop_first() =~= Seq::<(String, S)>::empty());
                }
                if held.len() > 0 {
                    assert(assoc_find(held, n) == None::<S>) by {
                        assert(held[0] == (last.0, last.1.cleared()));
                        assert(held[0].0@ != n);
                        assert(held.drop_first() =~= Seq::<(String, S)>::empty());
                    }
                }
            }
        }
    }
}

/// A refreshed entry list keeps names unique.
proof fn lemma_refreshed_distinct<S: FrameStatus>(
    entries: Seq<(String, S)>,
    fresh: Seq<(String, S)>,
)
    requires
        distinct_names(entries),
        distinct_names(fresh),
    ensures
        distinct_names(decayed(entries, fresh) + fresh),
{
    lemma_decayed_distinct(entries, fresh);
    let d = decayed(entries, fresh);
    let whole = d + fresh;
    assert forall|a: int, b: int| 0 <= a < b < whole.len() implies whole[a].0@ != whole[b].0@ by {
        let dl = d.len() as int;
        if b < dl {
        } else if a >= dl {
            assert(fresh[a - dl].0@ != fresh[b - dl].0@);
        } else {
            assert(!has_name(fresh, d[a].0@));
            assert(fresh[b - dl].0@ != d[a].0@);
        }
    }
}

/// The single-frame decay law. Suppose the map holds an active status
/// under some name (say, a hovered button) at one frame, and the name is
/// not among the detected entries of the next two frames. After the next
/// frame's refresh the name is still present, with the status's active
/// flag cleared; after the frame after that, it is gone.
pub proof fn lemma_single_frame_decay<S: FrameStatus>(
    entries: Seq<(String, S)>,
    fresh1: Seq<(String, S)>,
    fresh2: Seq<(String, S)>,
    n: Seq<char>,
    s: S,
)
    requires
        distinct_names(entries),
        distinct_names(fresh1),
        distinct_names(fresh2),
        assoc_find(entries, n) == Some(s),
        s.active(),
        !s.cleared().active(),
        !has_name(fresh1, n),
        !has_name(fresh2, n),
    ensures
        assoc_find(decayed(entries, fresh1) + fresh1, n) == Some(s.cleared()),
        assoc_find(decayed(decayed(entries, fresh1) + fresh1, fresh2) + fresh2, n) == None::<S>,
{
    let m1 = decayed(entries, fresh1) + fresh1;
    lemma_find_decayed(entries, fresh1, n);
    lemma_find_append(decayed(entries, fresh1), fresh1, n);
    assert(assoc_find(m1, n) == Some(s.cleared()));
    lemma_refreshed_distinct(entries, fresh1);
    lemma_find_decayed(m1, fresh2, n);
    lemma_find_append(decayed(m1, fresh2), fresh2, n);
    lemma_find_has_name(fresh2, n);
}

/// Whether some entry's name equals `name`, by character content.
fn contains_name<S>(entries: &Vec<(String, S)>, name: &String) -> (r: bool)
    ensures
        r == has_name(entries@, name@),
{
    let n = entries.len();
    let mut i: usize = 0;
    while i < n
        invariant
            n == entries@.len(),
            0 <= i <= n,
            forall|j: int| 0 <= j < i ==> entries@[j].0@ != name@,
        decreases n - i,
    {
        if entries[i].0.eq(name) {
            return true;
        }
        i += 1;
    }
    false
}

/// A fresh copy of a display name.
pub fn clone_string(s: &String) -> (r: String)
    ensures
        r == *s,
{
    s.clone()
}

} // verus!
