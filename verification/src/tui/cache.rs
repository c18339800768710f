//! The profiles the terminal interface keeps after decrypting them, each for
//! a few seconds after it was stored.

use std::time::Instant;
use vstd::prelude::*;

use crate::text::str_eq;

verus! {

/// A moment of the monotonic clock.
#[verifier::external_type_specification]
#[verifier::external_body]
pub struct ExInstant(Instant);

/// How long a stored profile is kept, in seconds.
pub const MAX_AGE_SECS: u64 = 10;

/// `Instant::now`: the current moment. Nothing is stated of it.
#[verifier::external_body]
fn instant_now() -> (r: Instant) {
    Instant::now()
}

/// `Instant::elapsed`, in nanoseconds: the time since `start`. It depends on
/// the clock, and nothing is stated of it.
#[verifier::external_body]
fn elapsed_nanos(start: &Instant) -> (r: u128) {
    start.elapsed().as_nanos()
}

/// Whether a value stored `elapsed_nanos` nanoseconds ago has expired: it has
/// once [`MAX_AGE_SECS`] seconds have passed.
pub fn expired_after(elapsed_nanos: u128) -> (r: bool)
    ensures
        r == (elapsed_nanos >= MAX_AGE_SECS * 1_000_000_000),
{
    elapsed_nanos >= (MAX_AGE_SECS as u128) * 1_000_000_000
}

/// A value and the moment it was stored.
pub struct Cached<T> {
    pub value: T,
    pub timestamp: Instant,
}

impl<T> Cached<T> {
    /// `value`, stored now.
    pub fn new(value: T) -> (r: Cached<T>)
        ensures
            r.value == value,
    {
        Cached { value, timestamp: instant_now() }
    }

    /// Whether the value was stored [`MAX_AGE_SECS`] seconds ago or more, by
    /// the clock read now; [`expired_after`] decides from the time read.
    pub fn is_expired(&self) -> bool {
        expired_after(elapsed_nanos(&self.timestamp))
    }
}

/// The names of the entries, in order.
pub open spec fn entry_names<T>(entries: Seq<(String, Cached<T>)>) -> Seq<Seq<char>> {
    entries.map_values(|e: (String, Cached<T>)| e.0@)
}

/// The names and values of entries, in order.
pub open spec fn entries_view<T>(entries: Seq<(String, Cached<T>)>) -> Seq<(Seq<char>, T)> {
    entries.map_values(|e: (String, Cached<T>)| (e.0@, e.1.value))
}

/// The entries not named `name`, in order.
pub open spec fn without_name<T>(s: Seq<(Seq<char>, T)>, name: Seq<char>) -> Seq<(Seq<char>, T)>
    decreases s.len(),
{
    if s.len() == 0 {
        Seq::empty()
    } else if s.last().0 != name {
        without_name(s.drop_last(), name).push(s.last())
    } else {
        without_name(s.drop_last(), name)
    }
}

/// No two entries share a name.
pub open spec fn names_distinct(names: Seq<Seq<char>>) -> bool {
    forall|i: int, j: int| 0 <= i < names.len() && 0 <= j < names.len() && i != j ==> names[i] != names[j]
}

/// The values stored under some names: one entry per name.
pub struct ProfileCache<T> {
    entries: Vec<(String, Cached<T>)>,
}

impl<T> ProfileCache<T> {
    /// The names and values stored, in the order they were first stored.
    pub closed spec fn spec_entries(&self) -> Seq<(Seq<char>, T)> {
        entries_view(self.entries@)
    }

    /// No two entries share a name.
    #[verifier::type_invariant]
    pub closed spec fn wf(&self) -> bool {
        names_distinct(entry_names(self.entries@))
    }

    /// An empty cache.
    pub fn new() -> (r: ProfileCache<T>)
        ensures
            r.wf(),
            r.spec_entries() == Seq::<(Seq<char>, T)>::empty(),
    {
        let r = ProfileCache { entries: Vec::new() };
        assert(r.spec_entries() =~= Seq::<(Seq<char>, T)>::empty());
        r
    }

    /// The position of the entry named `name`, if there is one.
    fn position(&self, name: &str) -> (r: Option<usize>)
        ensures
            r matches Some(i) ==> i < self.entries@.len() && self.entries@[i as int].0@ == name@,
            r is None ==> forall|i: int| 0 <= i < self.entries@.len() ==> self.entries@[i].0@ != name@,
    {
        let mut i: usize = 0;
        while i < self.entries.len()
            invariant
                i <= self.entries@.len(),
                forall|j: int| 0 <= j < i ==> self.entries@[j].0@ != name@,
            decreases self.entries@.len() - i,
        {
            if str_eq(self.entries[i].0.as_str(), name) {
                return Some(i);
            }
            i = i + 1;
        }
        None
    }

    /// Whether a value is stored under `name`, expired or not.
    pub fn has_profile(&self, name: &str) -> (r: bool)
        ensures
            r == exists|i: int| 0 <= i < self.spec_entries().len() && #[trigger] self.spec_entries()[i].0 == name@,
    {
        match self.position(name) {
            Some(i) => {
                assert(self.spec_entries()[i as int].0 == name@);
                true
            },
            None => {
                assert forall|i: int| 0 <= i < self.spec_entries().len() implies #[trigger] self.spec_entries()[i].0
                    != name@ by {
                    assert(self.spec_entries()[i].0 == self.entries@[i].0@);
                }
                false
            },
        }
    }

    /// The value stored under `name`, given that it was stored
    /// `elapsed_nanos` nanoseconds ago: it is returned while it has not
    /// expired; an expired one is dropped, and nothing is returned for a name
    /// that is not stored.
    pub fn get_profile_after(&mut self, name: &str, elapsed_nanos: u128) -> (r: Option<&T>)
        ensures
            final(self).wf(),
            r is Some <==> (exists|i: int| 0 <= i < old(self).spec_entries().len() && #[trigger] old(self).spec_entries()[i].0
                == name@) && !(elapsed_nanos >= MAX_AGE_SECS * 1_000_000_000),
            r matches Some(v) ==> final(self).spec_entries() == old(self).spec_entries() && exists|i: int|
                0 <= i < old(self).spec_entries().len() && #[trigger] old(self).spec_entries()[i] == (name@, *v),
            r is None ==> final(self).spec_entries() == without_name(old(self).spec_entries(), name@),
    {
        proof {
            use_type_invariant(&*self);
        }
        let ghost before = self.spec_entries();
        match self.position(name) {
            Some(i) => {
                proof {
                    assert(before[i as int].0 == self.entries@[i as int].0@);
                }
                if !expired_after(elapsed_nanos) {
                    proof {
                        assert(before[i as int] == (name@, self.entries@[i as int].1.value));
                    }
                    return Some(&self.entries[i].1.value);
                }
                let ghost old_entries = self.entries@;
                let mut taken = ProfileCache::new();
                std::mem::swap(self, &mut taken);
                let ProfileCache { mut entries } = taken;
                entries.remove(i);
                proof {
                    lemma_filter_removes_one(old_entries, i as int, name@);
                    lemma_distinct_remove(entry_names(old_entries), i as int);
                    assert(entry_names(entries@) =~= entry_names(old_entries).remove(i as int));
                }
                *self = ProfileCache { entries };
                None
            },
            None => {
                proof {
                    lemma_filter_keeps_all(self.entries@, name@);
                    assert forall|k: int| 0 <= k < before.len() implies #[trigger] before[k].0 != name@ by {
                        assert(before[k].0 == self.entries@[k].0@);
                    }
                }
                None
            },
        }
    }

    /// The value stored under `name` when it has not expired by the clock
    /// read now; an expired one is dropped. [`Self::get_profile_after`]
    /// decides from the time read.
    pub fn get_profile(&mut self, name: &str) -> (r: Option<&T>)
        ensures
            final(self).wf(),
            r matches Some(v) ==> final(self).spec_entries() == old(self).spec_entries() && exists|i: int|
                0 <= i < old(self).spec_entries().len() && #[trigger] old(self).spec_entries()[i] == (name@, *v),
            r is None ==> final(self).spec_entries() == without_name(old(self).spec_entries(), name@),
            (forall|i: int| 0 <= i < old(self).spec_entries().len() ==> #[trigger] old(self).spec_entries()[i].0 != name@)
                ==> r is None,
    {
        proof {
            use_type_invariant(&*self);
        }
        let elapsed = match self.position(name) {
            Some(i) => elapsed_nanos(&self.entries[i].1.timestamp),
            None => 0,
        };
        self.get_profile_after(name, elapsed)
    }

    /// Stores `value` under `name`, now; a value stored under that name
    /// before is replaced where it stands.
    pub fn insert_profile(&mut self, name: String, value: T)
        ensures
            final(self).wf(),
            (exists|i: int| 0 <= i < old(self).spec_entries().len() && #[trigger] old(self).spec_entries()[i].0 == name@)
                ==> exists|i: int| 0 <= i < old(self).spec_entries().len() && old(self).spec_entries()[i].0 == name@
                && #[trigger] final(self).spec_entries() == old(self).spec_entries().update(i, (name@, value)),
            (forall|i: int| 0 <= i < old(self).spec_entries().len() ==> #[trigger] old(self).spec_entries()[i].0 != name@)
                ==> final(self).spec_entries() == old(self).spec_entries().push((name@, value)),
    {
        proof {
            use_type_invariant(&*self);
        }
        let ghost before = self.spec_entries();
        let ghost name_v = name@;
        let pos = self.position(name.as_str());
        let ghost old_entries = self.entries@;
        let mut taken = ProfileCache::new();
        std::mem::swap(self, &mut taken);
        let ProfileCache { mut entries } = taken;
        match pos {
            Some(i) => {
                entries.set(i, (name, Cached::new(value)));
                proof {
                    assert(entries_view(entries@) =~= before.update(i as int, (name_v, value)));
                    assert(entry_names(entries@) =~= entry_names(old_entries));
                    assert(before[i as int].0 == name_v);
                }
            },
            None => {
                entries.push((name, Cached::new(value)));
                proof {
                    assert(entries_view(entries@) =~= before.push((name_v, value)));
                    assert(entry_names(entries@) =~= entry_names(old_entries).push(name_v));
                    assert forall|a: int, b: int|
                        0 <= a < entry_names(entries@).len() && 0 <= b < entry_names(entries@).len() && a
                            != b implies entry_names(entries@)[a] != entry_names(entries@)[b] by {
                        if a < old_entries.len() as int && b < old_entries.len() as int {
                        } else if a < old_entries.len() as int {
                            assert(old_entries[a].0@ != name_v);
                        } else {
                            assert(old_entries[b].0@ != name_v);
                        }
                    }
                    assert forall|k: int| 0 <= k < before.len() implies before[k].0 != name_v by {
                        assert(before[k].0 == old_entries[k].0@);
                    }
                }
            },
        }
        *self = ProfileCache { entries };
    }

    /// Drops the values that have expired; the others keep their order.
    pub fn cleanup_expired(&mut self)
        ensures
            final(self).wf(),
            exists|keep: Seq<bool>| #[trigger] keep.len() == old(self).spec_entries().len()
                && final(self).spec_entries() == kept(old(self).spec_entries(), keep),
    {
        proof {
            use_type_invariant(&*self);
        }
        let ghost before = self.entries@;
        let mut out: Vec<(String, Cached<T>)> = Vec::new();
        let ghost mut keep: Seq<bool> = Seq::empty();
        let mut taken = ProfileCache::new();
        std::mem::swap(self, &mut taken);
        let ProfileCache { entries: mut rest } = taken;
        let n = rest.len();
        proof {
            assert(rest@.skip(0) =~= rest@);
            assert(entries_view(before.take(0)) =~= Seq::<(Seq<char>, T)>::empty());
        }
        let mut i: usize = 0;
        while i < n
            invariant
                n == before.len(),
                i <= n,
                names_distinct(entry_names(before)),
                rest@ == before.skip(i as int),
                keep.len() == i,
                entries_view(out@) == kept(entries_view(before.take(i as int)), keep),
                names_distinct(entry_names(out@)),
                forall|a: int| 0 <= a < out@.len() ==> exists|j: int| 0 <= j < i && #[trigger] out@[a].0@ == before[j].0@,
            decreases n - i,
        {
            let e = rest.remove(0);
            proof {
                assert(e == before[i as int]);
                assert(rest@ =~= before.skip(i + 1));
            }
            let expired = e.1.is_expired();
            let ghost prev_out = out@;
            let ghost ev = (e.0@, e.1.value);
            if !expired {
                out.push(e);
            }
            proof {
                assert(entries_view(before.take(i + 1)) =~= entries_view(before.take(i as int)).push(ev));
                lemma_kept_push(entries_view(before.take(i as int)), keep, ev, !expired);
                if !expired {
                    assert(entries_view(out@) =~= entries_view(prev_out).push(ev));
                    assert forall|a: int, b: int|
                        0 <= a < entry_names(out@).len() && 0 <= b < entry_names(out@).len() && a != b implies entry_names(
                        out@,
                    )[a] != entry_names(out@)[b] by {
                        if a < prev_out.len() && b < prev_out.len() {
                            assert(entry_names(prev_out)[a] != entry_names(prev_out)[b]);
                        } else if a < prev_out.len() {
                            let j = choose|j: int| 0 <= j < i && #[trigger] prev_out[a].0@ == before[j].0@;
                            assert(entry_names(before)[j] != entry_names(before)[i as int]);
                        } else {
                            let j = choose|j: int| 0 <= j < i && #[trigger] prev_out[b].0@ == before[j].0@;
                            assert(entry_names(before)[j] != entry_names(before)[i as int]);
                        }
                    }
                    assert forall|a: int| 0 <= a < out@.len() implies exists|j: int|
                        0 <= j < i + 1 && #[trigger] out@[a].0@ == before[j].0@ by {
                        if a < prev_out.len() {
                            let j = choose|j: int| 0 <= j < i && #[trigger] prev_out[a].0@ == before[j].0@;
                            assert(out@[a].0@ == before[j].0@);
                        } else {
                            assert(out@[a].0@ == before[i as int].0@);
                        }
                    }
                } else {
                    assert(out@ == prev_out);
                }
                keep = keep.push(!expired);
            }
            i = i + 1;
        }
        proof {
            assert(before.take(n as int) =~= before);
        }
        *self = ProfileCache { entries: out };
    }
}

/// The items of `s` whose flag in `keep` is set, in order.
pub open spec fn kept<A>(s: Seq<A>, keep: Seq<bool>) -> Seq<A>
    decreases s.len(),
{
    if s.len() == 0 || keep.len() < s.len() {
        Seq::empty()
    } else {
        let front = kept(s.drop_last(), keep.take(s.len() - 1));
        if keep[s.len() - 1] {
            front.push(s.last())
        } else {
            front
        }
    }
}

proof fn lemma_kept_push<A>(s: Seq<A>, keep: Seq<bool>, x: A, b: bool)
    requires
        keep.len() == s.len(),
    ensures
        kept(s.push(x), keep.push(b)) == if b { kept(s, keep).push(x) } else { kept(s, keep) },
{
    assert(s.push(x).drop_last() =~= s);
    assert(keep.push(b).take(s.len() as int) =~= keep);
}

proof fn lemma_distinct_remove(s: Seq<Seq<char>>, i: int)
    requires
        names_distinct(s),
        0 <= i < s.len(),
    ensures
        names_distinct(s.remove(i)),
{
    let r = s.remove(i);
    assert forall|a: int, b: int| 0 <= a < r.len() && 0 <= b < r.len() && a != b implies r[a] != r[b] by {
        let oa = if a < i { a } else { a + 1 };
        let ob = if b < i { b } else { b + 1 };
        assert(r[a] == s[oa] && r[b] == s[ob]);
    }
}

proof fn lemma_filter_removes_one<T>(entries: Seq<(String, Cached<T>)>, i: int, name: Seq<char>)
    requires
        names_distinct(entry_names(entries)),
        0 <= i < entries.len(),
        entries[i].0@ == name,
    ensures
        entries_view(entries.remove(i)) == without_name(entries_view(entries), name),
{
    let s = entries_view(entries);
    assert forall|j: int| 0 <= j < s.len() && j != i implies #[trigger] s[j].0 != name by {
        assert(entry_names(entries)[j] != entry_names(entries)[i]);
    }
    lemma_without_skips(s, i, name);
    assert(entries_view(entries.remove(i)) =~= s.remove(i));
}

proof fn lemma_without_skips<T>(s: Seq<(Seq<char>, T)>, i: int, name: Seq<char>)
    requires
        0 <= i < s.len(),
        s[i].0 == name,
        forall|j: int| 0 <= j < s.len() && j != i ==> #[trigger] s[j].0 != name,
    ensures
        without_name(s, name) == s.remove(i),
    decreases s.len(),
{
    if i == s.len() - 1 {
        lemma_without_all(s.drop_last(), name);
        assert(s.remove(i) =~= s.drop_last());
    } else {
        assert forall|j: int| 0 <= j < s.drop_last().len() && j != i implies #[trigger] s.drop_last()[j].0 != name by {
            assert(s.drop_last()[j] == s[j]);
        }
        lemma_without_skips(s.drop_last(), i, name);
        assert(s.last().0 != name);
        assert(s.remove(i) =~= s.drop_last().remove(i).push(s.last()));
    }
}

proof fn lemma_without_all<T>(s: Seq<(Seq<char>, T)>, name: Seq<char>)
    requires
        forall|j: int| 0 <= j < s.len() ==> #[trigger] s[j].0 != name,
    ensures
        without_name(s, name) == s,
    decreases s.len(),
{
    if s.len() > 0 {
        assert forall|j: int| 0 <= j < s.drop_last().len() implies #[trigger] s.drop_last()[j].0 != name by {
            assert(s.drop_last()[j] == s[j]);
        }
        lemma_without_all(s.drop_last(), name);
        assert(s[s.len() - 1].0 != name);
        assert(s.drop_last().push(s.last()) =~= s);
    }
}

proof fn lemma_filter_keeps_all<T>(entries: Seq<(String, Cached<T>)>, name: Seq<char>)
    requires
        forall|i: int| 0 <= i < entries.len() ==> entries[i].0@ != name,
    ensures
        entries_view(entries) == without_name(entries_view(entries), name),
{
    let s = entries_view(entries);
    assert forall|j: int| 0 <= j < s.len() implies #[trigger] s[j].0 != name by {
        assert(s[j].0 == entries[j].0@);
    }
    lemma_without_all(s, name);
}

} // verus!
