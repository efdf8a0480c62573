//! Resume positions: where each file was left, remembered per path, with
//! the table kept to a bounded size.

use vstd::prelude::*;

use crate::text::same_text;

verus! {

/// The most positions kept, so the state file cannot grow forever.
pub const RESUME_CAP: usize = 300;

/// A table of positions by path. A position is kept as the bit pattern of
/// its value in seconds, so it comes back exactly as it went in.
#[derive(Debug)]
pub struct ResumeTable {
    entries: Vec<(String, u64)>,
}

/// The table's entries as (path, position) pairs, oldest first.
pub open spec fn pairs_of(v: Seq<(String, u64)>) -> Seq<(Seq<char>, u64)> {
    v.map_values(|p: (String, u64)| (p.0@, p.1))
}

/// No path appears twice.
pub open spec fn distinct_keys(e: Seq<(Seq<char>, u64)>) -> bool {
    forall|i: int, j: int| 0 <= i < j < e.len() ==> #[trigger] e[i].0 != #[trigger] e[j].0
}

/// The position stored for `key`.
pub open spec fn lookup(e: Seq<(Seq<char>, u64)>, key: Seq<char>) -> Option<u64>
    decreases e.len(),
{
    if e.len() == 0 {
        None
    } else if e.last().0 == key {
        Some(e.last().1)
    } else {
        lookup(e.drop_last(), key)
    }
}

/// Where `key` sits, or -1.
pub open spec fn index_of(e: Seq<(Seq<char>, u64)>, key: Seq<char>) -> int
    decreases e.len(),
{
    if e.len() == 0 {
        -1
    } else if e.last().0 == key {
        e.len() - 1
    } else {
        index_of(e.drop_last(), key)
    }
}

/// `e` with `key` set to `pos`: in place if it is there, else added last.
pub open spec fn put(e: Seq<(Seq<char>, u64)>, key: Seq<char>, pos: u64) -> Seq<(Seq<char>, u64)> {
    let i = index_of(e, key);
    if i >= 0 {
        e.update(i, (key, pos))
    } else {
        e.push((key, pos))
    }
}

/// `e` without `key`.
pub open spec fn drop_key(e: Seq<(Seq<char>, u64)>, key: Seq<char>) -> Seq<(Seq<char>, u64)> {
    let i = index_of(e, key);
    if i >= 0 {
        e.remove(i)
    } else {
        e
    }
}

/// The table after remembering `pos` for `key` (or forgetting `key` when
/// `pos` is `None`); past the cap, the oldest entry gives way.
pub open spec fn remembered(e: Seq<(Seq<char>, u64)>, key: Seq<char>, pos: Option<u64>) -> Seq<(Seq<char>, u64)> {
    let step = match pos {
        Some(p) => put(e, key, p),
        None => drop_key(e, key),
    };
    if step.len() > RESUME_CAP {
        step.drop_first()
    } else {
        step
    }
}

proof fn lemma_index_of(e: Seq<(Seq<char>, u64)>, key: Seq<char>)
    requires
        distinct_keys(e),
    ensures
        -1 <= index_of(e, key) < e.len(),
        index_of(e, key) >= 0 ==> e[index_of(e, key)].0 == key && lookup(e, key) == Some(
            e[index_of(e, key)].1,
        ),
        index_of(e, key) < 0 ==> lookup(e, key) is None && forall|k: int| 0 <= k < e.len() ==> #[trigger] e[k].0 != key,
        forall|k: int| 0 <= k < e.len() && e[k].0 == key ==> k == index_of(e, key),
    decreases e.len(),
{
    if e.len() > 0 {
        let d = e.drop_last();
        assert(distinct_keys(d)) by {
            assert forall|i: int, j: int| 0 <= i < j < d.len() implies #[trigger] d[i].0 != #[trigger] d[j].0 by {
                assert(d[i] == e[i] && d[j] == e[j]);
            }
        }
        lemma_index_of(d, key);
        if e.last().0 != key {
            assert forall|k: int| 0 <= k < e.len() && e[k].0 == key implies k == index_of(e, key) by {
                if k < e.len() - 1 {
                    assert(d[k] == e[k]);
                }
            }
            if index_of(d, key) >= 0 {
                assert(d[index_of(d, key)] == e[index_of(d, key)]);
            } else {
                assert forall|k: int| 0 <= k < e.len() implies #[trigger] e[k].0 != key by {
                    if k < e.len() - 1 {
                        assert(d[k] == e[k]);
                    }
                }
            }
        } else {
            assert forall|k: int| 0 <= k < e.len() && e[k].0 == key implies k == index_of(e, key) by {
                if k < e.len() - 1 {
                    assert(e[k].0 != e[e.len() - 1].0);
                }
            }
        }
    }
}

proof fn lemma_distinct_remove(e: Seq<(Seq<char>, u64)>, i: int)
    requires
        distinct_keys(e),
        0 <= i < e.len(),
    ensures
        distinct_keys(e.remove(i)),
{
    let r = e.remove(i);
    assert forall|a: int, b: int| 0 <= a < b < r.len() implies #[trigger] r[a].0 != #[trigger] r[b].0 by {
        let a2 = if a < i { a } else { a + 1 };
        let b2 = if b < i { b } else { b + 1 };
        assert(r[a] == e[a2] && r[b] == e[b2]);
    }
}

impl ResumeTable {
    /// The table's entries, oldest first.
    pub closed spec fn view_pairs(&self) -> Seq<(Seq<char>, u64)> {
        pairs_of(self.entries@)
    }

    pub closed spec fn well_formed(&self) -> bool {
        distinct_keys(pairs_of(self.entries@))
    }

    /// In a well-formed table no path appears twice, which is what the laws
    /// of remembering ask of a table.
    pub proof fn lemma_paths_distinct(&self)
        requires
            self.well_formed(),
        ensures
            distinct_keys(self.view_pairs()),
    {
    }

    /// An empty table.
    pub fn new() -> (t: ResumeTable)
        ensures
            t.well_formed(),
            t.view_pairs() == Seq::<(Seq<char>, u64)>::empty(),
    {
        let t = ResumeTable { entries: Vec::new() };
        assert(pairs_of(t.entries@) =~= Seq::<(Seq<char>, u64)>::empty());
        t
    }

    /// How many positions are kept.
    pub fn len(&self) -> (n: usize)
        ensures
            n == self.view_pairs().len(),
    {
        self.entries.len()
    }

    fn find(&self, key: &str) -> (r: Option<usize>)
        requires
            self.well_formed(),
        ensures
            match r {
                Some(i) => index_of(self.view_pairs(), key@) == i,
                None => index_of(self.view_pairs(), key@) == -1,
            },
    {
        proof {
            lemma_index_of(self.view_pairs(), key@);
        }
        let mut i: usize = 0;
        while i < self.entries.len()
            invariant
                i <= self.entries@.len(),
                distinct_keys(pairs_of(self.entries@)),
                forall|k: int| 0 <= k < i ==> #[trigger] pairs_of(self.entries@)[k].0 != key@,
                forall|k: int| 0 <= k < pairs_of(self.entries@).len() && pairs_of(self.entries@)[k].0 == key@
                    ==> k == index_of(pairs_of(self.entries@), key@),
                -1 <= index_of(pairs_of(self.entries@), key@) < pairs_of(self.entries@).len(),
                index_of(pairs_of(self.entries@), key@) >= 0 ==> pairs_of(self.entries@)[index_of(
                    pairs_of(self.entries@),
                    key@,
                )].0 == key@,
            decreases self.entries@.len() - i,
        {
            assert(pairs_of(self.entries@)[i as int].0 == self.entries@[i as int].0@);
            if same_text(self.entries[i].0.as_str(), key) {
                return Some(i);
            }
            i = i + 1;
        }
        None
    }

    /// The position remembered for `key`.
    pub fn resume_for(&self, key: &str) -> (r: Option<u64>)
        requires
            self.well_formed(),
        ensures
            r == lookup(self.view_pairs(), key@),
    {
        proof {
            lemma_index_of(self.view_pairs(), key@);
        }
        match self.find(key) {
            Some(i) => {
                assert(self.view_pairs()[i as int].1 == self.entries@[i as int].1);
                Some(self.entries[i].1)
            },
            None => None,
        }
    }

    /// Remembers `pos` for `key`, or forgets `key` when `pos` is `None`.
    /// Past the cap, the oldest entry gives way.
    pub fn remember(&mut self, key: String, pos: Option<u64>)
        requires
            old(self).well_formed(),
        ensures
            final(self).well_formed(),
            final(self).view_pairs() == remembered(old(self).view_pairs(), key@, pos),
    {
        let ghost e = self.view_pairs();
        proof {
            lemma_index_of(e, key@);
        }
        let found = self.find(key.as_str());
        match pos {
            Some(p) => match found {
                Some(i) => {
                    self.entries.set(i, (key, p));
                    proof {
                        assert(pairs_of(self.entries@) =~= e.update(i as int, (key@, p)));
                        assert forall|a: int, b: int| 0 <= a < b < e.len() implies #[trigger] pairs_of(
                            self.entries@,
                        )[a].0 != #[trigger] pairs_of(self.entries@)[b].0 by {
                            if a != i && b != i {
                                assert(e[a].0 != e[b].0);
                            } else if a == i {
                                assert(e[b].0 != key@);
                            } else {
                                assert(e[a].0 != key@);
                            }
                        }
                    }
                },
                None => {
                    self.entries.push((key, p));
                    proof {
                        assert(pairs_of(self.entries@) =~= e.push((key@, p)));
                        assert forall|a: int, b: int| 0 <= a < b < e.len() + 1 implies #[trigger] pairs_of(
                            self.entries@,
                        )[a].0 != #[trigger] pairs_of(self.entries@)[b].0 by {
                            if b < e.len() {
                                assert(e[a].0 != e[b].0);
                            } else {
                                assert(e[a].0 != key@);
                            }
                        }
                    }
                },
            },
            None => match found {
                Some(i) => {
                    self.entries.remove(i);
                    proof {
                        assert(pairs_of(self.entries@) =~= e.remove(i as int));
                        lemma_distinct_remove(e, i as int);
                    }
                },
                None => {},
            },
        }
        let ghost step = pairs_of(self.entries@);
        assert(step == match pos {
            Some(p) => put(e, key@, p),
            None => drop_key(e, key@),
        });
        if self.entries.len() > RESUME_CAP {
            self.entries.remove(0);
            proof {
                assert(pairs_of(self.entries@) =~= step.remove(0));
                assert(step.remove(0) =~= step.drop_first());
                lemma_distinct_remove(step, 0);
            }
        }
    }
}

proof fn lemma_distinct_put(e: Seq<(Seq<char>, u64)>, key: Seq<char>, pos: u64)
    requires
        distinct_keys(e),
    ensures
        distinct_keys(put(e, key, pos)),
        lookup(put(e, key, pos), key) == Some(pos),
        put(e, key, pos).len() == e.len() + (if index_of(e, key) >= 0 { 0int } else { 1 }),
{
    lemma_index_of(e, key);
    let u = put(e, key, pos);
    let i = index_of(e, key);
    assert forall|a: int, b: int| 0 <= a < b < u.len() implies #[trigger] u[a].0 != #[trigger] u[b].0 by {
        if i >= 0 {
            if a != i && b != i {
                assert(e[a].0 != e[b].0);
            } else if a == i {
                assert(e[b].0 != key);
            } else {
                assert(e[a].0 != key);
            }
        } else {
            if b < e.len() {
                assert(e[a].0 != e[b].0);
            } else {
                assert(e[a].0 != key);
            }
        }
    }
    lemma_index_of(u, key);
    if i >= 0 {
        assert(u[i].0 == key);
    } else {
        assert(u[e.len() as int].0 == key);
    }
}

/// After remembering a position for a path, reading the path back gives
/// that position; after forgetting it, nothing. This holds whenever the
/// table is within its cap, which remembering keeps it.
pub proof fn lemma_resume_read_after_write(e: Seq<(Seq<char>, u64)>, key: Seq<char>, pos: Option<u64>)
    requires
        distinct_keys(e),
        e.len() <= RESUME_CAP,
    ensures
        lookup(remembered(e, key, pos), key) == pos,
        distinct_keys(remembered(e, key, pos)),
        remembered(e, key, pos).len() <= RESUME_CAP,
{
    lemma_index_of(e, key);
    let i = index_of(e, key);
    match pos {
        Some(p) => {
            lemma_distinct_put(e, key, p);
            let u = put(e, key, p);
            if u.len() > RESUME_CAP {
                assert(i < 0);
                let d = u.drop_first();
                assert(d.last() == (key, p));
                assert(u.remove(0) =~= d);
                lemma_distinct_remove(u, 0);
            }
        },
        None => {
            if i >= 0 {
                let u = e.remove(i);
                lemma_distinct_remove(e, i);
                lemma_index_of(u, key);
                if index_of(u, key) >= 0 {
                    let j = index_of(u, key);
                    let j2 = if j < i { j } else { j + 1 };
                    assert(u[j] == e[j2]);
                }
            }
        },
    }
}

/// Remembering never takes a table that is within its cap beyond it.
pub proof fn lemma_resume_capped(e: Seq<(Seq<char>, u64)>, key: Seq<char>, pos: Option<u64>)
    requires
        distinct_keys(e),
        e.len() <= RESUME_CAP,
    ensures
        remembered(e, key, pos).len() <= RESUME_CAP,
{
    lemma_resume_read_after_write(e, key, pos);
}

/// Dropping the oldest entry leaves every other path's position as it was.
proof fn lemma_lookup_drop_first(u: Seq<(Seq<char>, u64)>, other: Seq<char>)
    requires
        distinct_keys(u),
        u.len() > 0,
        u[0].0 != other,
    ensures
        lookup(u.drop_first(), other) == lookup(u, other),
{
    let d = u.drop_first();
    assert(u.remove(0) =~= d);
    lemma_distinct_remove(u, 0);
    lemma_index_of(u, other);
    lemma_index_of(d, other);
    let q = index_of(u, other);
    if q >= 0 {
        assert(d[q - 1] == u[q]);
    } else if index_of(d, other) >= 0 {
        let q2 = index_of(d, other);
        assert(d[q2] == u[q2 + 1]);
    }
}

/// Remembering one path leaves the others alone, but for the oldest entry
/// when the table is full and the path is new: that one gives way, and only
/// that one.
pub proof fn lemma_resume_others_kept(e: Seq<(Seq<char>, u64)>, key: Seq<char>, pos: Option<u64>, other: Seq<char>)
    requires
        distinct_keys(e),
        e.len() <= RESUME_CAP,
        other != key,
        e.len() < RESUME_CAP || other != e[0].0,
    ensures
        lookup(remembered(e, key, pos), other) == lookup(e, other),
{
    lemma_others_kept_before_cap(e, key, pos, other);
    let u = match pos {
        Some(p) => put(e, key, p),
        None => drop_key(e, key),
    };
    if u.len() > RESUME_CAP {
        lemma_index_of(e, key);
        let p = pos->0;
        lemma_distinct_put(e, key, p);
        assert(u[0] == e[0]);
        lemma_lookup_drop_first(u, other);
    }
}

/// Setting or dropping one path's position leaves the others alone.
proof fn lemma_others_kept_before_cap(e: Seq<(Seq<char>, u64)>, key: Seq<char>, pos: Option<u64>, other: Seq<char>)
    requires
        distinct_keys(e),
        other != key,
    ensures
        lookup(
            match pos {
                Some(p) => put(e, key, p),
                None => drop_key(e, key),
            },
            other,
        ) == lookup(e, other),
{
    lemma_index_of(e, key);
    lemma_index_of(e, other);
    let i = index_of(e, key);
    let u = match pos {
        Some(p) => put(e, key, p),
        None => drop_key(e, key),
    };
    match pos {
        Some(p) => {
            lemma_distinct_put(e, key, p);
        },
        None => {
            if i >= 0 {
                lemma_distinct_remove(e, i);
            }
        },
    }
    assert(distinct_keys(u));
    lemma_index_of(u, other);
    let j = index_of(e, other);
    if j >= 0 {
        assert(j != i);
        let j2 = match pos {
            Some(p) => j,
            None => if i >= 0 && j > i { j - 1 } else { j },
        };
        assert(u[j2] == e[j]);
    } else {
        if index_of(u, other) >= 0 {
            let q = index_of(u, other);
            match pos {
                Some(p) => {
                    if q < e.len() {
                        if q != i {
                            assert(u[q] == e[q]);
                        }
                    }
                },
                None => {
                    let q2 = if i >= 0 && q >= i { q + 1 } else { q };
                    assert(u[q] == e[q2]);
                },
            }
        }
    }
}

impl ResumeTable {
    /// A table holding `pairs`, a later pair for the same path overriding an
    /// earlier one. No cap is applied: the table is exactly what was stored.
    pub fn from_pairs(pairs: Vec<(String, u64)>) -> (t: ResumeTable)
        ensures
            t.well_formed(),
            forall|k: Seq<char>| #[trigger] lookup(t.view_pairs(), k) == lookup(pairs_of(pairs@), k),
    {
        let mut t = ResumeTable::new();
        let mut i: usize = 0;
        while i < pairs.len()
            invariant
                i <= pairs@.len(),
                t.well_formed(),
                forall|k: Seq<char>| #[trigger] lookup(t.view_pairs(), k) == lookup(pairs_of(pairs@.take(i as int)), k),
            decreases pairs@.len() - i,
        {
            let ghost before = t.view_pairs();
            let k = pairs[i].0.clone();
            let v = pairs[i].1;
            t.put_raw(k, v);
            proof {
                assert(pairs_of(pairs@.take(i + 1)).drop_last() =~= pairs_of(pairs@.take(i as int)));
                assert forall|q: Seq<char>| #[trigger] lookup(t.view_pairs(), q) == lookup(pairs_of(pairs@.take(i + 1)), q) by {
                    lemma_distinct_put(before, pairs@[i as int].0@, pairs@[i as int].1);
                    if q != pairs@[i as int].0@ {
                        lemma_put_keeps_others(before, pairs@[i as int].0@, pairs@[i as int].1, q);
                    }
                }
            }
            i = i + 1;
        }
        assert(pairs@.take(pairs@.len() as int) =~= pairs@);
        t
    }

    fn put_raw(&mut self, key: String, pos: u64)
        requires
            old(self).well_formed(),
        ensures
            final(self).well_formed(),
            final(self).view_pairs() == put(old(self).view_pairs(), key@, pos),
    {
        let ghost e = self.view_pairs();
        proof {
            lemma_distinct_put(e, key@, pos);
            lemma_index_of(e, key@);
        }
        match self.find(key.as_str()) {
            Some(i) => {
                self.entries.set(i, (key, pos));
                assert(pairs_of(self.entries@) =~= put(e, key@, pos));
            },
            None => {
                self.entries.push((key, pos));
                assert(pairs_of(self.entries@) =~= put(e, key@, pos));
            },
        }
    }

    /// The (path, position) pairs, oldest first, for storing.
    pub fn to_pairs(&self) -> (r: Vec<(String, u64)>)
        ensures
            pairs_of(r@) == self.view_pairs(),
    {
        let mut r: Vec<(String, u64)> = Vec::new();
        let mut i: usize = 0;
        while i < self.entries.len()
            invariant
                i <= self.entries@.len(),
                pairs_of(r@) == pairs_of(self.entries@.take(i as int)),
            decreases self.entries@.len() - i,
        {
            let k = self.entries[i].0.clone();
            let ghost before = pairs_of(r@);
            r.push((k, self.entries[i].1));
            assert(pairs_of(r@) =~= before.push((self.entries@[i as int].0@, self.entries@[i as int].1)));
            assert(pairs_of(self.entries@.take(i + 1)) =~= pairs_of(self.entries@.take(i as int)).push(
                (self.entries@[i as int].0@, self.entries@[i as int].1),
            ));
            i = i + 1;
        }
        assert(self.entries@.take(self.entries@.len() as int) =~= self.entries@);
        r
    }
}

proof fn lemma_put_keeps_others(e: Seq<(Seq<char>, u64)>, key: Seq<char>, pos: u64, other: Seq<char>)
    requires
        distinct_keys(e),
        other != key,
    ensures
        lookup(put(e, key, pos), other) == lookup(e, other),
{
    lemma_index_of(e, key);
    lemma_index_of(e, other);
    lemma_distinct_put(e, key, pos);
    let u = put(e, key, pos);
    lemma_index_of(u, other);
    let i = index_of(e, key);
    let j = index_of(e, other);
    if j >= 0 {
        assert(u[j] == e[j]);
    } else if index_of(u, other) >= 0 {
        let q = index_of(u, other);
        if q < e.len() && q != i {
            assert(u[q] == e[q]);
        }
    }
}

} // verus!
