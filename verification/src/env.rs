use indexmap::IndexMap;
use vstd::prelude::*;

use crate::date::Date;
use crate::error::{Error, Result};

verus! {

/// One environment variable of a profile.
#[derive(Clone, Debug)]
pub struct Env {
    pub key: String,
    pub value: String,
    pub comment: Option<String>,
    pub expiration_date: Option<Date>,
}

/// The mathematical value of an [`Env`].
pub struct EnvView {
    pub key: Seq<char>,
    pub value: Seq<char>,
    pub comment: Option<Seq<char>>,
    pub expiration_date: Option<Date>,
}

/// The characters of an optional string.
pub open spec fn opt_str_view(s: Option<String>) -> Option<Seq<char>> {
    match s {
        Some(s) => Some(s@),
        None => None,
    }
}

impl View for Env {
    type V = EnvView;

    open spec fn view(&self) -> EnvView {
        EnvView {
            key: self.key@,
            value: self.value@,
            comment: opt_str_view(self.comment),
            expiration_date: self.expiration_date,
        }
    }
}

fn clone_opt_string(s: &Option<String>) -> (r: Option<String>)
    ensures
        opt_str_view(r) == opt_str_view(*s),
{
    match s {
        Some(s) => Some(s.clone()),
        None => None,
    }
}

impl Env {
    /// A variable with every attribute given.
    pub fn new(key: String, value: String, comment: Option<String>, expiration_date: Option<Date>) -> (r: Env)
        ensures
            r@ == (EnvView { key: key@, value: value@, comment: opt_str_view(comment), expiration_date }),
    {
        Env { key, value, comment, expiration_date }
    }

    /// A variable with a key and a value, and neither comment nor expiration date.
    pub fn from_key_value(key: String, value: String) -> (r: Env)
        ensures
            r@ == (EnvView { key: key@, value: value@, comment: None, expiration_date: None }),
    {
        Env::new(key, value, None, None)
    }

    /// A copy of the variable.
    pub fn duplicate(&self) -> (r: Env)
        ensures
            r@ == self@,
    {
        Env {
            key: self.key.clone(),
            value: self.value.clone(),
            comment: clone_opt_string(&self.comment),
            expiration_date: self.expiration_date,
        }
    }
}

// ---------------------------------------------------------------------------
// The ordered map of `indexmap` that holds the variables.
// ---------------------------------------------------------------------------

#[verifier::external_type_specification]
#[verifier::external_body]
#[verifier::reject_recursive_types(K)]
#[verifier::reject_recursive_types(V)]
#[verifier::reject_recursive_types(S)]
pub struct ExIndexMap<K, V, S>(IndexMap<K, V, S>);

/// The entries of an `IndexMap<String, Env>`, in the map's order: each key
/// with the value stored under it.
pub uninterp spec fn index_map_entries(m: IndexMap<String, Env>) -> Seq<(Seq<char>, EnvView)>;

/// Some entry of `entries` has the key `k`.
pub open spec fn entries_have_key(entries: Seq<(Seq<char>, EnvView)>, k: Seq<char>) -> bool {
    exists|i: int| 0 <= i < entries.len() && #[trigger] entries[i].0 == k
}

/// The position of the entry with key `k`.
pub open spec fn entries_index_of(entries: Seq<(Seq<char>, EnvView)>, k: Seq<char>) -> int {
    choose|i: int| 0 <= i < entries.len() && #[trigger] entries[i].0 == k
}

/// No two entries share a key.
pub open spec fn entries_keys_distinct(entries: Seq<(Seq<char>, EnvView)>) -> bool {
    forall|i: int, j: int|
        0 <= i < entries.len() && 0 <= j < entries.len() && i != j ==> #[trigger] entries[i].0
            != #[trigger] entries[j].0
}

/// What `IndexMap::insert` leaves: an existing key keeps its place and takes
/// the new value; a new key goes last.
pub open spec fn entries_insert(entries: Seq<(Seq<char>, EnvView)>, k: Seq<char>, v: EnvView) -> Seq<(Seq<char>, EnvView)> {
    if entries_have_key(entries, k) {
        entries.update(entries_index_of(entries, k), (k, v))
    } else {
        entries.push((k, v))
    }
}

/// What `IndexMap::shift_remove` leaves: the entry of `k` is taken out and
/// the ones after it move up.
pub open spec fn entries_remove(entries: Seq<(Seq<char>, EnvView)>, k: Seq<char>) -> Seq<(Seq<char>, EnvView)> {
    if entries_have_key(entries, k) {
        entries.remove(entries_index_of(entries, k))
    } else {
        entries
    }
}

/// Calls `IndexMap::new`: the map starts empty.
#[verifier::external_body]
fn index_map_new() -> (m: IndexMap<String, Env>)
    ensures
        index_map_entries(m) == Seq::<(Seq<char>, EnvView)>::empty(),
{
    IndexMap::new()
}

/// Calls `IndexMap::insert`. As its documentation says, an equivalent key
/// already in the map keeps its place and gets the new value, and the old
/// value comes back; otherwise the pair goes last and `None` comes back.
#[verifier::external_body]
fn index_map_insert(m: &mut IndexMap<String, Env>, key: String, value: Env) -> (prev: Option<Env>)
    ensures
        index_map_entries(*final(m)) == entries_insert(index_map_entries(*old(m)), key@, value@),
        prev is Some <==> entries_have_key(index_map_entries(*old(m)), key@),
        prev matches Some(p) ==> p@ == index_map_entries(*old(m))[entries_index_of(
            index_map_entries(*old(m)),
            key@,
        )].1,
{
    m.insert(key, value)
}

/// Calls `IndexMap::shift_remove`: the entry of `key`, if any, is taken out,
/// the later ones keep their order, and its value comes back.
#[verifier::external_body]
fn index_map_shift_remove(m: &mut IndexMap<String, Env>, key: &str) -> (prev: Option<Env>)
    ensures
        index_map_entries(*final(m)) == entries_remove(index_map_entries(*old(m)), key@),
        prev is Some <==> entries_have_key(index_map_entries(*old(m)), key@),
        prev matches Some(p) ==> p@ == index_map_entries(*old(m))[entries_index_of(
            index_map_entries(*old(m)),
            key@,
        )].1,
{
    m.shift_remove(key)
}

/// Calls `IndexMap::get`: the value stored under `key`, if any.
#[verifier::external_body]
fn index_map_get<'a>(m: &'a IndexMap<String, Env>, key: &str) -> (r: Option<&'a Env>)
    ensures
        r is Some <==> entries_have_key(index_map_entries(*m), key@),
        r matches Some(v) ==> v@ == index_map_entries(*m)[entries_index_of(
            index_map_entries(*m),
            key@,
        )].1,
{
    m.get(key)
}

/// Calls `IndexMap::len`: the number of entries.
#[verifier::external_body]
fn index_map_len(m: &IndexMap<String, Env>) -> (n: usize)
    ensures
        n == index_map_entries(*m).len(),
{
    m.len()
}

/// Calls `IndexMap::get_index`: the entry at position `i` in the map's order.
#[verifier::external_body]
fn index_map_get_index<'a>(m: &'a IndexMap<String, Env>, i: usize) -> (r: Option<(&'a String, &'a Env)>)
    ensures
        r is Some <==> i < index_map_entries(*m).len(),
        r matches Some(p) ==> p.0@ == index_map_entries(*m)[i as int].0 && p.1@
            == index_map_entries(*m)[i as int].1,
{
    m.get_index(i)
}

// ---------------------------------------------------------------------------
// The map of variables, as a sequence.
// ---------------------------------------------------------------------------

/// Some variable of `s` has the key `k`.
pub open spec fn has_key(s: Seq<EnvView>, k: Seq<char>) -> bool {
    exists|i: int| 0 <= i < s.len() && #[trigger] s[i].key == k
}

/// The position of the variable with key `k` in `s`.
pub open spec fn index_of(s: Seq<EnvView>, k: Seq<char>) -> int {
    choose|i: int| 0 <= i < s.len() && #[trigger] s[i].key == k
}

/// No two variables of `s` share a key.
pub open spec fn keys_distinct(s: Seq<EnvView>) -> bool {
    forall|i: int, j: int|
        0 <= i < s.len() && 0 <= j < s.len() && i != j ==> #[trigger] s[i].key != #[trigger] s[j].key
}

/// The variable with key `k`, if `s` has one.
pub open spec fn lookup(s: Seq<EnvView>, k: Seq<char>) -> Option<EnvView> {
    if has_key(s, k) {
        Some(s[index_of(s, k)])
    } else {
        None
    }
}

/// Setting a variable: one with the same key is replaced where it stands,
/// otherwise the variable goes last.
pub open spec fn insert(s: Seq<EnvView>, e: EnvView) -> Seq<EnvView> {
    if has_key(s, e.key) {
        s.update(index_of(s, e.key), e)
    } else {
        s.push(e)
    }
}

/// Removing the variable with key `k`; the later ones keep their order.
pub open spec fn remove(s: Seq<EnvView>, k: Seq<char>) -> Seq<EnvView> {
    if has_key(s, k) {
        s.remove(index_of(s, k))
    } else {
        s
    }
}

/// The keys of `s`, in order.
pub open spec fn keys_of(s: Seq<EnvView>) -> Seq<Seq<char>> {
    s.map_values(|e: EnvView| e.key)
}

/// The variables of `entries`, in order.
pub open spec fn values_of(entries: Seq<(Seq<char>, EnvView)>) -> Seq<EnvView> {
    entries.map_values(|p: (Seq<char>, EnvView)| p.1)
}

/// The variables `s` with the variables of `keys` removed in turn, stopping
/// at the first key that is missing, and that key.
pub open spec fn remove_all(s: Seq<EnvView>, keys: Seq<Seq<char>>) -> (Seq<EnvView>, Option<Seq<char>>)
    decreases keys.len(),
{
    if keys.len() == 0 {
        (s, None)
    } else {
        let p = remove_all(s, keys.drop_last());
        if p.1 is Some {
            p
        } else if has_key(p.0, keys.last()) {
            (remove(p.0, keys.last()), None)
        } else {
            (p.0, Some(keys.last()))
        }
    }
}

/// The views of variables.
pub open spec fn env_views(envs: Seq<Env>) -> Seq<EnvView> {
    envs.map_values(|e: Env| e@)
}

/// Every entry is stored under the key of its variable, and keys are distinct.
pub open spec fn entries_wf(entries: Seq<(Seq<char>, EnvView)>) -> bool {
    &&& forall|i: int| 0 <= i < entries.len() ==> #[trigger] entries[i].0 == entries[i].1.key
    &&& entries_keys_distinct(entries)
}

/// An ordered map from keys to environment variables: each variable is
/// stored under its own key, and the variables keep the order in which their
/// keys first came in.
pub struct EnvMap {
    envs: IndexMap<String, Env>,
}

impl View for EnvMap {
    type V = Seq<EnvView>;

    closed spec fn view(&self) -> Seq<EnvView> {
        values_of(index_map_entries(self.envs))
    }
}

proof fn lemma_entries_key_lookup(entries: Seq<(Seq<char>, EnvView)>, k: Seq<char>)
    requires
        entries_wf(entries),
    ensures
        entries_have_key(entries, k) == has_key(values_of(entries), k),
        entries_have_key(entries, k) ==> entries_index_of(entries, k) == index_of(values_of(entries), k),
        entries_have_key(entries, k) ==> 0 <= entries_index_of(entries, k) < entries.len()
            && entries[entries_index_of(entries, k)].0 == k,
{
    let s = values_of(entries);
    if entries_have_key(entries, k) {
        let i = entries_index_of(entries, k);
        assert(s[i].key == k);
        let j = index_of(s, k);
        assert(entries[j].0 == k);
    }
    if has_key(s, k) {
        let j = index_of(s, k);
        assert(entries[j].0 == k);
    }
}

impl EnvMap {
    /// The map is well formed: each variable under its own key, keys distinct.
    #[verifier::type_invariant]
    pub closed spec fn wf(&self) -> bool {
        entries_wf(index_map_entries(self.envs))
    }

    /// An empty map.
    pub fn new() -> (r: EnvMap)
        ensures
            r.wf(),
            r@ == Seq::<EnvView>::empty(),
    {
        let r = EnvMap { envs: index_map_new() };
        assert(r@ =~= Seq::<EnvView>::empty());
        r
    }

    /// Sets a variable: one with the same key is replaced in place,
    /// otherwise the variable is added last.
    pub fn insert(&mut self, env: Env)
        ensures
            final(self).wf(),
            final(self)@ == insert(old(self)@, env@),
    {
        proof {
            use_type_invariant(&*self);
        }
        let ghost old_entries = index_map_entries(self.envs);
        let ghost e = env@;
        proof {
            lemma_entries_key_lookup(old_entries, e.key);
        }
        let key = env.key.clone();
        let mut taken = EnvMap::new();
        std::mem::swap(self, &mut taken);
        let EnvMap { mut envs } = taken;
        let _ = index_map_insert(&mut envs, key, env);
        let ghost new_entries = index_map_entries(envs);
        proof {
            let s = values_of(old_entries);
            if entries_have_key(old_entries, e.key) {
                let i = entries_index_of(old_entries, e.key);
                assert(new_entries == old_entries.update(i, (e.key, e)));
                assert(values_of(new_entries) =~= s.update(i, e));
                assert forall|a: int, b: int|
                    0 <= a < new_entries.len() && 0 <= b < new_entries.len() && a != b implies #[trigger] new_entries[a].0
                    != #[trigger] new_entries[b].0 by {
                    if a != i && b != i {
                        assert(old_entries[a].0 != old_entries[b].0);
                    }
                }
            } else {
                assert(new_entries == old_entries.push((e.key, e)));
                assert(values_of(new_entries) =~= s.push(e));
                assert forall|a: int, b: int|
                    0 <= a < new_entries.len() && 0 <= b < new_entries.len() && a != b implies #[trigger] new_entries[a].0
                    != #[trigger] new_entries[b].0 by {
                    if a != old_entries.len() && b != old_entries.len() {
                        assert(old_entries[a].0 != old_entries[b].0);
                    } else if a == old_entries.len() {
                        assert(old_entries[b].0 != e.key);
                    } else {
                        assert(old_entries[a].0 != e.key);
                    }
                }
            }
        }
        *self = EnvMap { envs };
    }

    /// Sets each of the variables `envs` in turn.
    pub fn insert_envs(&mut self, envs: Vec<Env>)
        ensures
            final(self).wf(),
            final(self)@ == insert_all(old(self)@, env_views(envs@)),
    {
        proof {
            use_type_invariant(&*self);
        }
        let ghost all = envs@;
        let mut rest = envs;
        let n = rest.len();
        let mut i: usize = 0;
        proof {
            assert(env_views(all.take(0)) =~= Seq::<EnvView>::empty());
            assert(rest@.skip(0) =~= rest@);
        }
        while rest.len() > 0
            invariant
                self.wf(),
                n == all.len(),
                i + rest@.len() == n,
                rest@ == all.skip(i as int),
                self@ == insert_all(old(self)@, env_views(all.take(i as int))),
            decreases rest@.len(),
        {
            let e = rest.remove(0);
            proof {
                assert(e == all[i as int]);
                assert(rest@ =~= all.skip(i + 1));
                assert(env_views(all.take(i + 1)).drop_last() =~= env_views(all.take(i as int)));
                assert(env_views(all.take(i + 1)).last() == e@);
            }
            self.insert(e);
            i = i + 1;
        }
        proof {
            assert(all.take(n as int) =~= all);
        }
    }

    /// Removes the variables of `keys` in turn; fails at the first key that
    /// is missing, the ones before it removed and the rest left in place.
    pub fn remove_keys(&mut self, keys: &[String]) -> (r: Result<()>)
        ensures
            final(self).wf(),
            final(self)@ == remove_all(old(self)@, keys@.map_values(|k: String| k@)).0,
            r is Ok <==> remove_all(old(self)@, keys@.map_values(|k: String| k@)).1 is None,
            r matches Err(e) ==> (remove_all(old(self)@, keys@.map_values(|k: String| k@)).1 matches Some(m)
                && e matches Error::EnvDoesNotExist(k) && k@ == m),
    {
        proof {
            use_type_invariant(&*self);
        }
        let ghost ks = keys@.map_values(|k: String| k@);
        let mut i: usize = 0;
        proof {
            assert(ks.take(0) =~= Seq::<Seq<char>>::empty());
        }
        while i < keys.len()
            invariant
                self.wf(),
                i <= keys@.len(),
                ks == keys@.map_values(|k: String| k@),
                self@ == remove_all(old(self)@, ks.take(i as int)).0,
                remove_all(old(self)@, ks.take(i as int)).1 is None,
            decreases keys@.len() - i,
        {
            proof {
                assert(ks.take(i + 1).drop_last() =~= ks.take(i as int));
                assert(ks.take(i + 1).last() == keys@[i as int]@);
            }
            match self.remove(keys[i].as_str()) {
                Ok(()) => {},
                Err(e) => {
                    proof {
                        lemma_remove_all_stops(old(self)@, ks, i as int + 1);
                    }
                    return Err(e);
                },
            }
            i = i + 1;
        }
        proof {
            assert(ks.take(i as int) =~= ks);
        }
        Ok(())
    }

    /// Sets a variable with neither comment nor expiration date.
    pub fn insert_from_key_value(&mut self, key: String, value: String)
        ensures
            final(self).wf(),
            final(self)@ == insert(
                old(self)@,
                EnvView { key: key@, value: value@, comment: None, expiration_date: None },
            ),
    {
        proof {
            use_type_invariant(&*self);
        }
        self.insert(Env::from_key_value(key, value));
    }

    /// Removes the variable with key `key`; the later ones keep their order.
    /// Fails, and leaves the map as it was, when there is no such variable.
    pub fn remove(&mut self, key: &str) -> (r: Result<()>)
        ensures
            final(self).wf(),
            final(self)@ == remove(old(self)@, key@),
            r is Ok <==> has_key(old(self)@, key@),
            r matches Err(e) ==> e matches Error::EnvDoesNotExist(k) && k@ == key@,
    {
        proof {
            use_type_invariant(&*self);
        }
        let ghost old_entries = index_map_entries(self.envs);
        proof {
            lemma_entries_key_lookup(old_entries, key@);
        }
        let mut taken = EnvMap::new();
        std::mem::swap(self, &mut taken);
        let EnvMap { mut envs } = taken;
        let prev = index_map_shift_remove(&mut envs, key);
        let ghost new_entries = index_map_entries(envs);
        proof {
            let s = values_of(old_entries);
            if entries_have_key(old_entries, key@) {
                let i = entries_index_of(old_entries, key@);
                assert(new_entries == old_entries.remove(i));
                assert(values_of(new_entries) =~= s.remove(i));
                assert forall|a: int, b: int|
                    0 <= a < new_entries.len() && 0 <= b < new_entries.len() && a != b implies #[trigger] new_entries[a].0
                    != #[trigger] new_entries[b].0 by {
                    let oa = if a < i { a } else { a + 1 };
                    let ob = if b < i { b } else { b + 1 };
                    assert(new_entries[a] == old_entries[oa]);
                    assert(new_entries[b] == old_entries[ob]);
                    assert(old_entries[oa].0 != old_entries[ob].0);
                }
                assert forall|a: int| 0 <= a < new_entries.len() implies #[trigger] new_entries[a].0
                    == new_entries[a].1.key by {
                    let oa = if a < i { a } else { a + 1 };
                    assert(new_entries[a] == old_entries[oa]);
                }
            }
        }
        *self = EnvMap { envs };
        match prev {
            Some(_) => Ok(()),
            None => Err(Error::EnvDoesNotExist(key.to_owned())),
        }
    }

    /// The variable with key `key`, if there is one.
    pub fn get(&self, key: &str) -> (r: Option<&Env>)
        ensures
            match r {
                Some(e) => lookup(self@, key@) == Some(e@),
                None => lookup(self@, key@) is None,
            },
    {
        proof {
            use_type_invariant(&*self);
        }
        proof {
            lemma_entries_key_lookup(index_map_entries(self.envs), key@);
        }
        index_map_get(&self.envs, key)
    }

    /// Whether a variable has the key `key`.
    pub fn contains_key(&self, key: &str) -> (r: bool)
        ensures
            r == has_key(self@, key@),
    {
        proof {
            use_type_invariant(&*self);
        }
        proof {
            lemma_entries_key_lookup(index_map_entries(self.envs), key@);
        }
        index_map_get(&self.envs, key).is_some()
    }

    /// The number of variables.
    pub fn len(&self) -> (n: usize)
        ensures
            n == self@.len(),
    {
        proof {
            use_type_invariant(&*self);
        }
        index_map_len(&self.envs)
    }

    /// Whether the map holds no variable.
    pub fn is_empty(&self) -> (r: bool)
        ensures
            r == (self@.len() == 0),
    {
        proof {
            use_type_invariant(&*self);
        }
        index_map_len(&self.envs) == 0
    }

    /// The variable at position `i`, in the map's order.
    pub fn get_index(&self, i: usize) -> (r: Option<&Env>)
        ensures
            r is Some <==> i < self@.len(),
            r matches Some(e) ==> e@ == self@[i as int],
    {
        proof {
            use_type_invariant(&*self);
        }
        match index_map_get_index(&self.envs, i) {
            Some((_, e)) => Some(e),
            None => None,
        }
    }

    /// The keys, in order.
    pub fn keys(&self) -> (r: Vec<String>)
        ensures
            r@.map_values(|k: String| k@) == keys_of(self@),
    {
        proof {
            use_type_invariant(&*self);
        }
        let n = self.len();
        let mut r: Vec<String> = Vec::new();
        for i in 0..n
            invariant
                n == self@.len(),
                r@.len() == i,
                forall|j: int| 0 <= j < i ==> #[trigger] r@[j]@ == self@[j].key,
        {
            let e = self.get_index(i).unwrap();
            r.push(e.key.clone());
        }
        assert(r@.map_values(|k: String| k@) =~= keys_of(self@));
        r
    }

    /// Copies of the variables, in order.
    pub fn values(&self) -> (r: Vec<Env>)
        ensures
            r@.map_values(|e: Env| e@) == self@,
    {
        proof {
            use_type_invariant(&*self);
        }
        let n = self.len();
        let mut r: Vec<Env> = Vec::new();
        for i in 0..n
            invariant
                n == self@.len(),
                r@.len() == i,
                forall|j: int| 0 <= j < i ==> #[trigger] r@[j]@ == self@[j],
        {
            let e = self.get_index(i).unwrap();
            r.push(e.duplicate());
        }
        assert(r@.map_values(|e: Env| e@) =~= self@);
        r
    }
}


/// The variables of `s` for which `keep` says so, in order.
pub open spec fn retained(s: Seq<EnvView>, keep: Seq<bool>) -> Seq<EnvView>
    decreases s.len(),
{
    if s.len() == 0 || keep.len() == 0 {
        Seq::<EnvView>::empty()
    } else {
        let rest = retained(s.drop_last(), keep.drop_last());
        if keep.last() {
            rest.push(s.last())
        } else {
            rest
        }
    }
}

/// The predicate `f` may answer `b` for a variable whose value is `v`.
pub open spec fn answers<F: Fn(&Env) -> bool>(f: F, v: EnvView, b: bool) -> bool {
    exists|e: Env| e@ == v && #[trigger] call_ensures(f, (&e,), b)
}

/// Setting each variable of `es` in turn, starting from `s`.
pub open spec fn insert_all(s: Seq<EnvView>, es: Seq<EnvView>) -> Seq<EnvView>
    decreases es.len(),
{
    if es.len() == 0 {
        s
    } else {
        insert(insert_all(s, es.drop_last()), es.last())
    }
}

/// A variable with only a key and a value.
pub open spec fn plain_env(key: Seq<char>, value: Seq<char>) -> EnvView {
    EnvView { key, value, comment: None, expiration_date: None }
}

impl EnvMap {
    /// Keeps the variables for which `f` answers `true`; they keep their order.
    pub fn retain<F: Fn(&Env) -> bool>(&mut self, f: F)
        requires
            forall|e: &Env| #[trigger] call_requires(f, (e,)),
        ensures
            final(self).wf(),
            exists|keep: Seq<bool>|
                {
                    &&& keep.len() == old(self)@.len()
                    &&& final(self)@ == retained(old(self)@, keep)
                    &&& forall|i: int| 0 <= i < keep.len() ==> answers(f, old(self)@[i], #[trigger] keep[i])
                },
    {
        proof {
            use_type_invariant(&*self);
        }
        let ghost s = self@;
        proof {
            lemma_wf_keys_distinct(self);
        }
        let n = self.len();
        let mut kept = EnvMap::new();
        let ghost mut keep: Seq<bool> = Seq::empty();
        for i in 0..n
            invariant
                n == s.len(),
                s == self@,
                self.wf(),
                keys_distinct(s),
                forall|e: &Env| #[trigger] call_requires(f, (e,)),
                kept.wf(),
                keep.len() == i,
                kept@ == retained(s.take(i as int), keep),
                forall|j: int| 0 <= j < i ==> answers(f, s[j], #[trigger] keep[j]),
                forall|j: int| 0 <= j < kept@.len() ==> has_key(s.take(i as int), #[trigger] kept@[j].key),
        {
            let e = self.get_index(i).unwrap();
            let b = f(e);
            proof {
                assert(answers(f, s[i as int], b));
                assert(s.take(i + 1).drop_last() =~= s.take(i as int));
            }
            let ghost prev = kept@;
            if b {
                proof {
                    if has_key(prev, e@.key) {
                        let j = index_of(prev, e@.key);
                        assert(has_key(s.take(i as int), prev[j].key));
                        let k = index_of(s.take(i as int), prev[j].key);
                        assert(s[k].key == s[i as int].key);
                    }
                }
                kept.insert(e.duplicate());
                proof {
                    assert(kept@ == prev.push(e@));
                    assert forall|j: int| 0 <= j < kept@.len() implies has_key(
                        s.take(i + 1),
                        #[trigger] kept@[j].key,
                    ) by {
                        if j < prev.len() {
                            let k = index_of(s.take(i as int), prev[j].key);
                            assert(s.take(i + 1)[k].key == prev[j].key);
                        } else {
                            assert(s.take(i + 1)[i as int].key == kept@[j].key);
                        }
                    }
                }
            } else {
                proof {
                    assert forall|j: int| 0 <= j < kept@.len() implies has_key(
                        s.take(i + 1),
                        #[trigger] kept@[j].key,
                    ) by {
                        let k = index_of(s.take(i as int), prev[j].key);
                        assert(s.take(i + 1)[k].key == prev[j].key);
                    }
                }
            }
            proof {
                let keep2 = keep.push(b);
                assert(keep2.drop_last() =~= keep);
                keep = keep2;
                assert forall|j: int| 0 <= j < i + 1 implies answers(f, s[j], #[trigger] keep[j]) by {
                    if j < i {
                        assert(keep[j] == keep.drop_last()[j]);
                    }
                }
            }
        }
        proof {
            assert(s.take(n as int) =~= s);
        }
        *self = kept;
    }

    /// A map holding each variable of `envs` in turn: a later variable with
    /// the key of an earlier one replaces it where it stands.
    pub fn from_envs(envs: Vec<Env>) -> (r: EnvMap)
        ensures
            r.wf(),
            r@ == insert_all(Seq::empty(), envs@.map_values(|e: Env| e@)),
    {
        let ghost es = envs@.map_values(|e: Env| e@);
        let mut r = EnvMap::new();
        let mut envs = envs;
        let mut rest: Vec<Env> = Vec::new();
        // take the variables out from the back, then put them in from the front
        let n = envs.len();
        while envs.len() > 0
            invariant
                envs@.len() + rest@.len() == n,
                n == es.len(),
                forall|j: int| 0 <= j < envs@.len() ==> #[trigger] envs@[j]@ == es[j],
                forall|j: int| 0 <= j < rest@.len() ==> #[trigger] rest@[j]@ == es[n - 1 - j],
            decreases envs.len(),
        {
            let e = envs.pop().unwrap();
            rest.push(e);
        }
        let mut i: usize = 0;
        while rest.len() > 0
            invariant
                rest@.len() + i == n,
                n == es.len(),
                forall|j: int| 0 <= j < rest@.len() ==> #[trigger] rest@[j]@ == es[n - 1 - j],
                r.wf(),
                r@ == insert_all(Seq::empty(), es.take(i as int)),
            decreases rest.len(),
        {
            let e = rest.pop().unwrap();
            proof {
                assert(es.take(i + 1).drop_last() =~= es.take(i as int));
            }
            r.insert(e);
            i = i + 1;
        }
        proof {
            assert(es.take(n as int) =~= es);
        }
        r
    }

    /// Builds a map from key and value pairs, in turn; a later pair with the
    /// key of an earlier one replaces its value where it stands.
    pub fn from_pairs(pairs: Vec<(String, String)>) -> (r: EnvMap)
        ensures
            r.wf(),
            r@ == insert_all(
                Seq::empty(),
                pairs@.map_values(|p: (String, String)| plain_env(p.0@, p.1@)),
            ),
    {
        let ghost es = pairs@.map_values(|p: (String, String)| plain_env(p.0@, p.1@));
        let mut r = EnvMap::new();
        let n = pairs.len();
        for i in 0..n
            invariant
                n == pairs@.len(),
                n == es.len(),
                es == pairs@.map_values(|p: (String, String)| plain_env(p.0@, p.1@)),
                r.wf(),
                r@ == insert_all(Seq::empty(), es.take(i as int)),
        {
            let (k, v) = &pairs[i];
            proof {
                assert(es.take(i + 1).drop_last() =~= es.take(i as int));
            }
            r.insert_from_key_value(k.clone(), v.clone());
        }
        proof {
            assert(es.take(n as int) =~= es);
        }
        r
    }

    /// The keys with their values, in order.
    pub fn to_pairs(&self) -> (r: Vec<(String, String)>)
        ensures
            r@.len() == self@.len(),
            forall|i: int| 0 <= i < r@.len() ==> (#[trigger] r@[i]).0@ == self@[i].key && r@[i].1@ == self@[i].value,
    {
        proof {
            use_type_invariant(&*self);
        }
        let n = self.len();
        let mut r: Vec<(String, String)> = Vec::new();
        for i in 0..n
            invariant
                n == self@.len(),
                r@.len() == i,
                forall|j: int| 0 <= j < i ==> (#[trigger] r@[j]).0@ == self@[j].key && r@[j].1@ == self@[j].value,
        {
            let e = self.get_index(i).unwrap();
            r.push((e.key.clone(), e.value.clone()));
        }
        r
    }

    /// A copy of the map.
    pub fn duplicate(&self) -> (r: EnvMap)
        ensures
            r.wf(),
            r@ == self@,
    {
        proof {
            use_type_invariant(&*self);
        }
        let mut r = EnvMap::new();
        let n = self.len();
        proof {
            lemma_wf_keys_distinct(self);
        }
        for i in 0..n
            invariant
                n == self@.len(),
                keys_distinct(self@),
                r.wf(),
                r@ == self@.take(i as int),
        {
            let e = self.get_index(i).unwrap();
            proof {
                if has_key(r@, e@.key) {
                    let j = index_of(r@, e@.key);
                    assert(self@[j].key == self@[i as int].key);
                }
            }
            r.insert(e.duplicate());
            proof {
                assert(self@.take(i + 1) =~= self@.take(i as int).push(e@));
            }
        }
        proof {
            assert(self@.take(n as int) =~= self@);
        }
        r
    }
}

impl Default for EnvMap {
    fn default() -> (r: EnvMap)
        ensures
            r.wf(),
            r@ == Seq::<EnvView>::empty(),
    {
        EnvMap::new()
    }
}

/// The well-formed map's variables have distinct keys.
pub proof fn lemma_wf_keys_distinct(m: &EnvMap)
    requires
        m.wf(),
    ensures
        keys_distinct(m@),
{
    let entries = index_map_entries(m.envs);
    assert forall|i: int, j: int| 0 <= i < m@.len() && 0 <= j < m@.len() && i != j implies #[trigger] m@[i].key
        != #[trigger] m@[j].key by {
        assert(entries[i].0 != entries[j].0);
    }
}

} // verus!

verus! {

// ---------------------------------------------------------------------------
// Laws of the map of variables.
// ---------------------------------------------------------------------------

/// Reading a key after setting a variable gives that variable for its own key
/// and what was there before for every other key.
pub proof fn law_get_after_insert(s: Seq<EnvView>, e: EnvView, k: Seq<char>)
    requires
        keys_distinct(s),
    ensures
        lookup(insert(s, e), k) == (if k == e.key {
            Some(e)
        } else {
            lookup(s, k)
        }),
{
    let t = insert(s, e);
    if has_key(s, e.key) {
        let i = index_of(s, e.key);
        assert(t[i].key == e.key);
        if k == e.key {
            let j = index_of(t, k);
            if j != i {
                assert(s[j].key == k);
            }
        } else {
            if has_key(s, k) {
                let j = index_of(s, k);
                assert(t[j] == s[j]);
                let j2 = index_of(t, k);
                assert(s[j2].key == k);
            }
            if has_key(t, k) {
                let j2 = index_of(t, k);
                assert(s[j2].key == k);
            }
        }
    } else {
        assert(t[s.len() as int] == e);
        if k == e.key {
            let j = index_of(t, k);
            if j != s.len() {
                assert(s[j].key == k);
            }
        } else {
            if has_key(s, k) {
                let j = index_of(s, k);
                assert(t[j] == s[j]);
                let j2 = index_of(t, k);
                assert(s[j2].key == k);
            }
            if has_key(t, k) {
                let j2 = index_of(t, k);
                assert(s[j2].key == k);
            }
        }
    }
}

/// Setting a variable keeps keys distinct; it adds one variable when its key
/// is new and otherwise keeps the number of variables and the order of keys.
pub proof fn law_insert_shape(s: Seq<EnvView>, e: EnvView)
    requires
        keys_distinct(s),
    ensures
        keys_distinct(insert(s, e)),
        has_key(s, e.key) ==> insert(s, e).len() == s.len() && keys_of(insert(s, e)) == keys_of(s),
        !has_key(s, e.key) ==> insert(s, e).len() == s.len() + 1 && keys_of(insert(s, e)) == keys_of(
            s,
        ).push(e.key),
{
    let t = insert(s, e);
    if has_key(s, e.key) {
        let i = index_of(s, e.key);
        assert forall|a: int, b: int|
            0 <= a < t.len() && 0 <= b < t.len() && a != b implies #[trigger] t[a].key != #[trigger] t[b].key by {
            if a != i && b != i {
                assert(s[a].key != s[b].key);
            } else if a == i {
                assert(s[b].key != s[i].key);
            } else {
                assert(s[a].key != s[i].key);
            }
        }
        assert(keys_of(t) =~= keys_of(s));
    } else {
        assert forall|a: int, b: int|
            0 <= a < t.len() && 0 <= b < t.len() && a != b implies #[trigger] t[a].key != #[trigger] t[b].key by {
            if a != s.len() && b != s.len() {
                assert(s[a].key != s[b].key);
            } else if a == s.len() {
                assert(s[b].key != e.key);
            } else {
                assert(s[a].key != e.key);
            }
        }
        assert(keys_of(t) =~= keys_of(s).push(e.key));
    }
}

/// Reading a key after removing a variable gives nothing for the removed key
/// and what was there before for every other key.
pub proof fn law_get_after_remove(s: Seq<EnvView>, k: Seq<char>, k2: Seq<char>)
    requires
        keys_distinct(s),
    ensures
        lookup(remove(s, k), k2) == (if k2 == k {
            None
        } else {
            lookup(s, k2)
        }),
        keys_distinct(remove(s, k)),
{
    let t = remove(s, k);
    if has_key(s, k) {
        let i = index_of(s, k);
        assert forall|a: int| 0 <= a < t.len() implies #[trigger] t[a] == s[if a < i {
            a
        } else {
            a + 1
        }] by {}
        assert forall|a: int, b: int|
            0 <= a < t.len() && 0 <= b < t.len() && a != b implies #[trigger] t[a].key != #[trigger] t[b].key by {
            let oa = if a < i { a } else { a + 1 };
            let ob = if b < i { b } else { b + 1 };
            assert(t[a] == s[oa]);
            assert(t[b] == s[ob]);
        }
        if k2 == k {
            if has_key(t, k2) {
                let j = index_of(t, k2);
                let oj = if j < i { j } else { j + 1 };
                assert(t[j] == s[oj]);
            }
        } else {
            if has_key(s, k2) {
                let j = index_of(s, k2);
                assert(j != i);
                let tj = if j < i { j } else { j - 1 };
                assert(t[tj] == s[j]);
                let j2 = index_of(t, k2);
                let oj2 = if j2 < i { j2 } else { j2 + 1 };
                assert(t[j2] == s[oj2]);
            }
            if has_key(t, k2) {
                let j2 = index_of(t, k2);
                let oj2 = if j2 < i { j2 } else { j2 + 1 };
                assert(t[j2] == s[oj2]);
            }
        }
    }
}

/// Removing a variable that was just added under a new key gives back the
/// variables as they were.
pub proof fn law_remove_undoes_insert(s: Seq<EnvView>, e: EnvView)
    requires
        keys_distinct(s),
        !has_key(s, e.key),
    ensures
        remove(insert(s, e), e.key) == s,
{
    let t = insert(s, e);
    assert(t == s.push(e));
    assert(t[s.len() as int].key == e.key);
    let j = index_of(t, e.key);
    if j != s.len() {
        assert(s[j].key == e.key);
    }
    assert(t.remove(s.len() as int) =~= s);
}

/// Setting two variables with the same key in turn is the same as setting
/// only the second.
pub proof fn law_insert_overwrites(s: Seq<EnvView>, e1: EnvView, e2: EnvView)
    requires
        keys_distinct(s),
        e1.key == e2.key,
    ensures
        insert(insert(s, e1), e2) == insert(s, e2),
{
    let t = insert(s, e1);
    law_insert_shape(s, e1);
    if has_key(s, e1.key) {
        let i = index_of(s, e1.key);
        assert(t[i].key == e2.key);
        let j = index_of(t, e2.key);
        if j != i {
            assert(t[j].key == t[i].key);
        }
        assert(t.update(i, e2) =~= s.update(i, e2));
    } else {
        let n = s.len() as int;
        assert(t[n].key == e2.key);
        let j = index_of(t, e2.key);
        if j != n {
            assert(t[j].key == t[n].key);
        }
        assert(t.update(n, e2) =~= s.push(e2));
    }
}

/// What is kept by `retain` comes in the same order as before and keeps keys
/// distinct: it is the sequence with some variables left out.
pub proof fn law_retained_is_subsequence(s: Seq<EnvView>, keep: Seq<bool>)
    requires
        keys_distinct(s),
        keep.len() == s.len(),
    ensures
        keys_distinct(retained(s, keep)),
        retained(s, keep).len() <= s.len(),
        forall|j: int| 0 <= j < retained(s, keep).len() ==> has_key(s, #[trigger] retained(s, keep)[j].key)
            && s[index_of(s, retained(s, keep)[j].key)] == retained(s, keep)[j],
    decreases s.len(),
{
    let r = retained(s, keep);
    if s.len() == 0 {
    } else {
        let s0 = s.drop_last();
        let k0 = keep.drop_last();
        assert forall|a: int, b: int|
            0 <= a < s0.len() && 0 <= b < s0.len() && a != b implies #[trigger] s0[a].key != #[trigger] s0[b].key by {
            assert(s[a].key != s[b].key);
        }
        law_retained_is_subsequence(s0, k0);
        let r0 = retained(s0, k0);
        assert forall|j: int| 0 <= j < r0.len() implies has_key(s, #[trigger] r0[j].key) && s[index_of(
            s,
            r0[j].key,
        )] == r0[j] by {
            let i0 = index_of(s0, r0[j].key);
            assert(s[i0] == r0[j]);
            let i = index_of(s, r0[j].key);
            if i != i0 {
                assert(s[i].key != s[i0].key);
            }
        }
        if keep.last() {
            assert(r == r0.push(s.last()));
            let n = s.len() - 1;
            assert(s[n] == s.last());
            assert forall|j: int| 0 <= j < r.len() implies has_key(s, #[trigger] r[j].key) && s[index_of(
                s,
                r[j].key,
            )] == r[j] by {
                if j < r0.len() {
                    assert(r[j] == r0[j]);
                } else {
                    let i = index_of(s, r[j].key);
                    if i != n {
                        assert(s[i].key != s[n].key);
                    }
                }
            }
            assert forall|a: int, b: int|
                0 <= a < r.len() && 0 <= b < r.len() && a != b implies #[trigger] r[a].key != #[trigger] r[b].key by {
                if a < r0.len() && b < r0.len() {
                    assert(r0[a].key != r0[b].key);
                } else if a < r0.len() {
                    let i0 = index_of(s0, r0[a].key);
                    assert(s[i0].key != s[n].key);
                } else {
                    let i0 = index_of(s0, r0[b].key);
                    assert(s[i0].key != s[n].key);
                }
            }
        } else {
            assert(r == r0);
        }
    }
}

/// Setting variables with distinct keys in turn, starting from none, lists
/// them in that order.
pub proof fn lemma_insert_all_distinct(es: Seq<EnvView>)
    requires
        keys_distinct(es),
    ensures
        insert_all(Seq::empty(), es) == es,
    decreases es.len(),
{
    if es.len() > 0 {
        let front = es.drop_last();
        assert(keys_distinct(front)) by {
            assert forall|i: int, j: int|
                0 <= i < front.len() && 0 <= j < front.len() && i != j implies #[trigger] front[i].key != #[trigger] front[j].key by {
                assert(front[i] == es[i] && front[j] == es[j]);
            }
        }
        lemma_insert_all_distinct(front);
        assert(!has_key(front, es.last().key)) by {
            if has_key(front, es.last().key) {
                let i = choose|i: int| 0 <= i < front.len() && #[trigger] front[i].key == es.last().key;
                assert(es[i].key == es[es.len() - 1].key);
            }
        }
        assert(front.push(es.last()) =~= es);
    }
}


proof fn lemma_remove_all_stops(s: Seq<EnvView>, keys: Seq<Seq<char>>, k: int)
    requires
        0 <= k <= keys.len(),
        remove_all(s, keys.take(k)).1 is Some,
    ensures
        remove_all(s, keys) == remove_all(s, keys.take(k)),
    decreases keys.len() - k,
{
    if k < keys.len() {
        assert(keys.take(k + 1).drop_last() =~= keys.take(k));
        lemma_remove_all_stops(s, keys, k + 1);
    } else {
        assert(keys.take(k) =~= keys);
    }
}

} // verus!
