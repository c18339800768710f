//! The screen that lists the profiles: it filters them by a search text and
//! asks for confirmation before a profile is deleted.

use vstd::prelude::*;

use crate::profile::{is_later, ProfileMetadata};
use crate::text::{contains, pop_char, push_char, without_last};
use crate::tui::input::{stepped, step_selection, Action, KeyCode, KeyPress};

verus! {

/// A profile as the list shows it.
pub struct ProfileInfo {
    pub name: String,
    pub metadata: ProfileMetadata,
}

/// The mathematical value of a [`SelectScreen`].
pub struct SelectView {
    pub profiles: Seq<ProfileInfo>,
    pub filtered: Seq<usize>,
    pub selected: Option<usize>,
    pub search: Seq<char>,
    pub search_mode: bool,
    pub confirming: Option<Seq<char>>,
}

/// The profiles, the positions of those that the search text matches, the
/// selected row among these, the search text and whether it is being typed,
/// and the profile whose deletion awaits confirmation.
pub struct SelectScreen {
    profiles: Vec<ProfileInfo>,
    filtered_profiles: Vec<usize>,
    selected: Option<usize>,
    search_input: String,
    search_mode: bool,
    delete_confirmation: Option<String>,
}

/// The characters of an optional string.
pub open spec fn opt_chars(s: Option<String>) -> Option<Seq<char>> {
    match s {
        Some(s) => Some(s@),
        None => None,
    }
}

impl View for SelectScreen {
    type V = SelectView;

    closed spec fn view(&self) -> SelectView {
        SelectView {
            profiles: self.profiles@,
            filtered: self.filtered_profiles@,
            selected: self.selected,
            search: self.search_input@,
            search_mode: self.search_mode,
            confirming: opt_chars(self.delete_confirmation),
        }
    }
}

/// What `str::to_lowercase` gives for `s`.
pub uninterp spec fn lowercase(s: Seq<char>) -> Seq<char>;

/// `str::to_lowercase`, which gives the lowercase equivalent of `s` by the
/// Unicode rules; the contract names the result and states nothing more of
/// it.
#[verifier::external_body]
fn to_lowercase(s: &str) -> (r: String)
    ensures
        r@ == lowercase(s@),
{
    s.to_lowercase()
}

/// The lowercase names of the profiles.
pub open spec fn lowered_names(ps: Seq<ProfileInfo>) -> Seq<Seq<char>> {
    ps.map_values(|p: ProfileInfo| lowercase(p.name@))
}

/// The positions, in order, of the texts in `lowered` in which `query`
/// occurs.
pub open spec fn matching(lowered: Seq<Seq<char>>, query: Seq<char>) -> Seq<usize>
    decreases lowered.len(),
{
    if lowered.len() == 0 {
        Seq::empty()
    } else {
        let before = matching(lowered.drop_last(), query);
        if contains(lowered.last(), query) {
            before.push((lowered.len() - 1) as usize)
        } else {
            before
        }
    }
}

/// Every position that [`matching`] gives is a position of `lowered`.
pub proof fn lemma_matching_bounds(lowered: Seq<Seq<char>>, query: Seq<char>)
    ensures
        matching(lowered, query).len() <= lowered.len(),
        forall|j: int| 0 <= j < matching(lowered, query).len()
            ==> #[trigger] matching(lowered, query)[j] < lowered.len(),
    decreases lowered.len(),
{
    if lowered.len() > 0 {
        lemma_matching_bounds(lowered.drop_last(), query);
    }
}

/// With an empty query every position matches.
proof fn lemma_matching_empty(lowered: Seq<Seq<char>>, query: Seq<char>)
    requires
        query.len() == 0,
        lowered.len() <= usize::MAX,
    ensures
        matching(lowered, query).len() == lowered.len(),
        forall|j: int| 0 <= j < lowered.len() ==> #[trigger] matching(lowered, query)[j] == j,
    decreases lowered.len(),
{
    if lowered.len() > 0 {
        lemma_matching_empty(lowered.drop_last(), query);
        assert(lowered.last().subrange(0, 0) =~= query);
        assert(crate::text::occurs_at(lowered.last(), query, 0));
        let before = matching(lowered.drop_last(), query);
        assert(contains(lowered.last(), query));
        assert(matching(lowered, query) == before.push((lowered.len() - 1) as usize));
        assert forall|j: int| 0 <= j < lowered.len() implies #[trigger] matching(lowered, query)[j] == j by {
            if j < lowered.len() - 1 {
                assert(before[j] == j);
            }
        }
    }
}

/// `query` occurs in `text`, starting at some position.
pub open spec fn occurs_in(text: Seq<char>, query: Seq<char>) -> bool {
    exists|k: int| 0 <= k && k + query.len() <= text.len() && #[trigger] text.subrange(k, k + query.len()) == query
}

/// Searching keeps exactly the positions of the texts in which the query
/// occurs at some position (not only at the start or the end), each once and
/// in increasing order.
pub proof fn law_matching_is_substring_search(lowered: Seq<Seq<char>>, query: Seq<char>)
    requires
        lowered.len() <= usize::MAX,
    ensures
        forall|i: int| 0 <= i < lowered.len() ==> (#[trigger] matching(lowered, query).contains(i as usize) <==> occurs_in(
            lowered[i],
            query,
        )),
        forall|j: int| 0 <= j < matching(lowered, query).len() ==> #[trigger] matching(lowered, query)[j] < lowered.len(),
        forall|a: int, b: int|
            0 <= a < b < matching(lowered, query).len() ==> #[trigger] matching(lowered, query)[a]
                < #[trigger] matching(lowered, query)[b],
    decreases lowered.len(),
{
    if lowered.len() > 0 {
        let n = lowered.len();
        let front = lowered.drop_last();
        let m0 = matching(front, query);
        let m = matching(lowered, query);
        law_matching_is_substring_search(front, query);
        assert(contains(lowered.last(), query) == occurs_in(lowered.last(), query)) by {
            if contains(lowered.last(), query) {
                let k = choose|k: int| crate::text::occurs_at(lowered.last(), query, k);
                assert(lowered.last().subrange(k, k + query.len()) == query);
            }
            if occurs_in(lowered.last(), query) {
                let k = choose|k: int|
                    0 <= k && k + query.len() <= lowered.last().len() && #[trigger] lowered.last().subrange(
                        k,
                        k + query.len(),
                    ) == query;
                assert(crate::text::occurs_at(lowered.last(), query, k));
            }
        }
        assert forall|i: int| 0 <= i < n implies (#[trigger] m.contains(i as usize) <==> occurs_in(lowered[i], query)) by {
            if i < n - 1 {
                assert(lowered[i] == front[i]);
                if m.contains(i as usize) {
                    let j = choose|j: int| 0 <= j < m.len() && m[j] == i as usize;
                    if j < m0.len() {
                        assert(m[j] == m0[j]);
                    } else {
                        assert(m[j] == (n - 1) as usize);
                    }
                    assert(m0.contains(i as usize));
                }
                if m0.contains(i as usize) {
                    let j = choose|j: int| 0 <= j < m0.len() && m0[j] == i as usize;
                    assert(m[j] == m0[j]);
                    assert(m.contains(i as usize));
                }
            } else {
                assert(lowered[i] == lowered.last());
                if contains(lowered.last(), query) {
                    assert(m[m.len() - 1] == (n - 1) as usize);
                    assert(m.contains(i as usize));
                } else {
                    assert(m == m0);
                    if m.contains(i as usize) {
                        let j = choose|j: int| 0 <= j < m0.len() && m0[j] == i as usize;
                        assert(m0[j] < front.len());
                    }
                }
            }
        }
        assert forall|j: int| 0 <= j < m.len() implies #[trigger] m[j] < n by {
            if j < m0.len() {
                assert(m[j] == m0[j]);
            }
        }
        assert forall|a: int, b: int| 0 <= a < b < m.len() implies #[trigger] m[a] < #[trigger] m[b] by {
            if b < m0.len() {
                assert(m[a] == m0[a] && m[b] == m0[b]);
            } else {
                assert(m[a] == m0[a]);
                assert(m0[a] < front.len());
            }
        }
    }
}

/// The positions of the texts of `lowered` in which `query` occurs.
pub fn filter_indices(lowered: &Vec<String>, query: &str) -> (r: Vec<usize>)
    ensures
        r@ == matching(lowered@.map_values(|s: String| s@), query@),
        forall|i: int| 0 <= i < lowered@.len() ==> (#[trigger] r@.contains(i as usize) <==> occurs_in(
            lowered@[i]@,
            query@,
        )),
        forall|a: int, b: int| 0 <= a < b < r@.len() ==> #[trigger] r@[a] < #[trigger] r@[b],
{
    let ghost texts = lowered@.map_values(|s: String| s@);
    let mut r: Vec<usize> = Vec::new();
    let mut i: usize = 0;
    while i < lowered.len()
        invariant
            i <= lowered@.len(),
            texts == lowered@.map_values(|s: String| s@),
            r@ == matching(texts.take(i as int), query@),
        decreases lowered@.len() - i,
    {
        proof {
            assert(texts.take(i + 1).drop_last() =~= texts.take(i as int));
        }
        if crate::text::str_contains(lowered[i].as_str(), query) {
            r.push(i);
        }
        i = i + 1;
    }
    proof {
        assert(texts.take(i as int) =~= texts);
        law_matching_is_substring_search(texts, query@);
        assert forall|k: int| 0 <= k < lowered@.len() implies texts[k] == lowered@[k]@ by {}
    }
    r
}

/// The selection kept when the list now has `len` rows: the same row if it
/// is still within reach, else the first row, else none.
pub open spec fn adjusted(selected: Option<usize>, len: int) -> Option<usize> {
    let max: int = if len == 0 { 0 } else { len - 1 };
    match selected {
        Some(i) => if i <= max {
            Some(i)
        } else if len > 0 {
            Some(0usize)
        } else {
            None
        },
        None => if len > 0 {
            Some(0usize)
        } else {
            None
        },
    }
}

/// `v` with other positions and selection.
pub open spec fn with_filter(v: SelectView, filtered: Seq<usize>, selected: Option<usize>) -> SelectView {
    SelectView {
        profiles: v.profiles,
        filtered,
        selected,
        search: v.search,
        search_mode: v.search_mode,
        confirming: v.confirming,
    }
}

/// `v` with the positions recomputed from its search text.
pub open spec fn refiltered(v: SelectView) -> SelectView {
    let f = matching(lowered_names(v.profiles), lowercase(v.search));
    with_filter(v, f, adjusted(v.selected, f.len() as int))
}

/// The position in the profiles of the selected row, if a row is selected.
pub open spec fn selected_index(v: SelectView) -> Option<int> {
    match v.selected {
        Some(i) => if i < v.filtered.len() {
            Some(v.filtered[i as int] as int)
        } else {
            None
        },
        None => None,
    }
}

/// Every position points at a profile.
pub open spec fn select_wf(v: SelectView) -> bool {
    forall|j: int| 0 <= j < v.filtered.len() ==> #[trigger] v.filtered[j] < v.profiles.len()
}

/// `v` with the selection moved by `delta` rows.
pub open spec fn select_moved(v: SelectView, delta: int) -> SelectView {
    if v.filtered.len() == 0 {
        v
    } else {
        with_filter(v, v.filtered, Some(stepped(v.selected, delta, v.filtered.len() as int) as usize))
    }
}

/// `v` with another search text, search mode and pending deletion.
pub open spec fn with_search(v: SelectView, search: Seq<char>, search_mode: bool, confirming: Option<Seq<char>>) -> SelectView {
    SelectView {
        profiles: v.profiles,
        filtered: v.filtered,
        selected: v.selected,
        search,
        search_mode,
        confirming,
    }
}

/// The key is `y` or `Y`.
pub open spec fn is_yes(k: KeyPress) -> bool {
    k.code == KeyCode::Char('y') || k.code == KeyCode::Char('Y')
}

/// The key is `n`, `N` or Escape.
pub open spec fn is_no(k: KeyPress) -> bool {
    k.code == KeyCode::Char('n') || k.code == KeyCode::Char('N') || k.code == KeyCode::Esc
}

/// The screen after the key press `k` on `v`.
pub open spec fn select_after_key(v: SelectView, k: KeyPress) -> SelectView {
    if v.confirming is Some {
        if is_yes(k) || is_no(k) {
            with_search(v, v.search, v.search_mode, None)
        } else {
            v
        }
    } else if v.search_mode {
        match k.code {
            KeyCode::Esc => with_search(v, v.search, false, None),
            KeyCode::Enter => with_search(v, v.search, false, None),
            KeyCode::Char(c) => refiltered(with_search(v, v.search.push(c), true, None)),
            KeyCode::Backspace => refiltered(with_search(v, without_last(v.search), true, None)),
            _ => v,
        }
    } else {
        match k.code {
            KeyCode::Up => select_moved(v, -1),
            KeyCode::Down => select_moved(v, 1),
            KeyCode::Char(c) => if c == '/' {
                with_search(v, v.search, true, None)
            } else if c == 'k' {
                select_moved(v, -1)
            } else if c == 'j' {
                select_moved(v, 1)
            } else if c == 'd' {
                match selected_index(v) {
                    Some(i) => with_search(v, v.search, false, Some(v.profiles[i].name@)),
                    None => v,
                }
            } else {
                v
            },
            _ => v,
        }
    }
}

/// `r` opens the selected profile, or is nothing when no profile is selected.
pub open spec fn opens_selected(v: SelectView, r: Action) -> bool {
    match selected_index(v) {
        Some(i) => r matches Action::OpenProfile(s) && s@ == v.profiles[i].name@,
        None => r is Nothing,
    }
}

/// `r` edits the selected profile, or is nothing when no profile is selected.
pub open spec fn edits_selected(v: SelectView, r: Action) -> bool {
    match selected_index(v) {
        Some(i) => r matches Action::EditProfile(s) && s@ == v.profiles[i].name@,
        None => r is Nothing,
    }
}

/// What the key press `k` on `v` asks of the application.
pub open spec fn select_action(v: SelectView, k: KeyPress, r: Action) -> bool {
    match v.confirming {
        Some(n) => if is_yes(k) {
            r matches Action::DeleteProfile(s) && s@ == n
        } else {
            r is Nothing
        },
        None => if v.search_mode {
            if k.code == KeyCode::Enter {
                opens_selected(v, r)
            } else {
                r is Nothing
            }
        } else {
            match k.code {
                KeyCode::Char(c) => if c == 'n' {
                    r is NewProfile
                } else if c == 'e' {
                    edits_selected(v, r)
                } else {
                    r is Nothing
                },
                KeyCode::Enter => opens_selected(v, r),
                KeyCode::Esc => r is Exit,
                _ => r is Nothing,
            }
        },
    }
}

/// Where `p` goes among `s`, kept from the latest update to the earliest:
/// before the first profile updated earlier than it.
pub open spec fn insert_pos(s: Seq<ProfileInfo>, p: ProfileInfo) -> int
    decreases s.len(),
{
    if s.len() == 0 {
        0
    } else if is_later(p.metadata.updated_at, s[0].metadata.updated_at) {
        0
    } else {
        1 + insert_pos(s.drop_first(), p)
    }
}

/// The profiles from the latest update to the earliest; profiles updated at
/// the same moment keep their order.
pub open spec fn sorted_by_update(ps: Seq<ProfileInfo>) -> Seq<ProfileInfo>
    decreases ps.len(),
{
    if ps.len() == 0 {
        Seq::empty()
    } else {
        let s = sorted_by_update(ps.drop_last());
        s.insert(insert_pos(s, ps.last()), ps.last())
    }
}

/// Profiles kept from the latest update to the earliest.
pub open spec fn latest_first(s: Seq<ProfileInfo>) -> bool {
    forall|i: int, j: int|
        0 <= i < j < s.len() ==> !is_later(#[trigger] s[j].metadata.updated_at, #[trigger] s[i].metadata.updated_at)
}

proof fn lemma_insert_pos(s: Seq<ProfileInfo>, p: ProfileInfo)
    ensures
        0 <= insert_pos(s, p) <= s.len(),
        forall|j: int| 0 <= j < insert_pos(s, p) ==> !is_later(p.metadata.updated_at, #[trigger] s[j].metadata.updated_at),
        insert_pos(s, p) < s.len() ==> is_later(p.metadata.updated_at, s[insert_pos(s, p)].metadata.updated_at),
    decreases s.len(),
{
    if s.len() > 0 && !is_later(p.metadata.updated_at, s[0].metadata.updated_at) {
        lemma_insert_pos(s.drop_first(), p);
        assert forall|j: int| 0 <= j < insert_pos(s, p) implies !is_later(p.metadata.updated_at, #[trigger] s[j].metadata.updated_at) by {
            if j > 0 {
                assert(s[j] == s.drop_first()[j - 1]);
            }
        }
    }
}

/// Sorting keeps the profiles, each as often as before, and puts them from
/// the latest update to the earliest.
#[verifier::rlimit(40)]
#[verifier::spinoff_prover]
pub proof fn law_sorted_by_update(ps: Seq<ProfileInfo>)
    ensures
        sorted_by_update(ps).to_multiset() == ps.to_multiset(),
        latest_first(sorted_by_update(ps)),
    decreases ps.len(),
{
    broadcast use vstd::seq_lib::group_seq_properties;
    if ps.len() > 0 {
        let front = ps.drop_last();
        let p = ps.last();
        law_sorted_by_update(front);
        let s = sorted_by_update(front);
        lemma_insert_pos(s, p);
        let k = insert_pos(s, p);
        let t = s.insert(k, p);
        assert(t.to_multiset() == s.to_multiset().insert(p)) by {
            vstd::seq_lib::lemma_multiset_commutative(s.take(k), s.skip(k));
            assert(t =~= s.take(k).push(p) + s.skip(k));
            assert(s =~= s.take(k) + s.skip(k));
            vstd::seq_lib::lemma_multiset_commutative(s.take(k).push(p), s.skip(k));
            vstd::seq_lib::lemma_multiset_commutative(s.take(k), s.skip(k));
        }
        assert(ps =~= front.push(p));
        assert forall|i: int, j: int| 0 <= i < j < t.len() implies !is_later(
            #[trigger] t[j].metadata.updated_at,
            #[trigger] t[i].metadata.updated_at,
        ) by {
            let a = t[i].metadata.updated_at;
            let b = t[j].metadata.updated_at;
            if j < k {
                assert(t[i] == s[i] && t[j] == s[j]);
            } else if j == k {
                assert(t[i] == s[i]);
            } else if i == k {
                assert(t[j] == s[j - 1]);
                assert(is_later(p.metadata.updated_at, s[k].metadata.updated_at));
                if j - 1 > k {
                    assert(!is_later(s[j - 1].metadata.updated_at, s[k].metadata.updated_at));
                }
            } else if i < k {
                assert(t[i] == s[i] && t[j] == s[j - 1]);
            } else {
                assert(t[i] == s[i - 1] && t[j] == s[j - 1]);
            }
        }
    }
}

/// The profiles from the latest update to the earliest, profiles updated at
/// the same moment in the order given.
pub fn sort_by_update(profiles: Vec<ProfileInfo>) -> (r: Vec<ProfileInfo>)
    ensures
        r@ == sorted_by_update(profiles@),
{
    let ghost ps = profiles@;
    let n = profiles.len();
    let mut rest = profiles;
    let mut back: Vec<ProfileInfo> = Vec::new();
    while rest.len() > 0
        invariant
            rest@.len() + back@.len() == n,
            n == ps.len(),
            forall|j: int| 0 <= j < rest@.len() ==> #[trigger] rest@[j] == ps[j],
            forall|j: int| 0 <= j < back@.len() ==> #[trigger] back@[j] == ps[n - 1 - j],
        decreases rest.len(),
    {
        let p = rest.pop().unwrap();
        back.push(p);
    }
    let mut out: Vec<ProfileInfo> = Vec::new();
    let mut i: usize = 0;
    while back.len() > 0
        invariant
            back@.len() + i == n,
            n == ps.len(),
            forall|j: int| 0 <= j < back@.len() ==> #[trigger] back@[j] == ps[n - 1 - j],
            out@ == sorted_by_update(ps.take(i as int)),
        decreases back.len(),
    {
        let p = back.pop().unwrap();
        proof {
            assert(ps.take(i + 1).drop_last() =~= ps.take(i as int));
            assert(ps.take(i + 1).last() == p);
            lemma_insert_pos(out@, p);
        }
        let mut k: usize = 0;
        while k < out.len() && !p.metadata.updated_at.is_later_than(&out[k].metadata.updated_at)
            invariant
                k <= out@.len(),
                insert_pos(out@, p) >= k,
                forall|j: int| 0 <= j < k ==> !is_later(p.metadata.updated_at, #[trigger] out@[j].metadata.updated_at),
            decreases out@.len() - k,
        {
            proof {
                lemma_insert_pos_skip(out@, p, k as int);
            }
            k = k + 1;
        }
        proof {
            lemma_insert_pos_is(out@, p, k as int);
        }
        out.insert(k, p);
        i = i + 1;
    }
    proof {
        assert(ps.take(n as int) =~= ps);
    }
    out
}

proof fn lemma_insert_pos_skip(s: Seq<ProfileInfo>, p: ProfileInfo, k: int)
    requires
        0 <= k < s.len(),
        forall|j: int| 0 <= j <= k ==> !is_later(p.metadata.updated_at, #[trigger] s[j].metadata.updated_at),
    ensures
        insert_pos(s, p) >= k + 1,
    decreases k,
{
    assert(!is_later(p.metadata.updated_at, s[0].metadata.updated_at));
    lemma_insert_pos(s.drop_first(), p);
    if k > 0 {
        assert forall|j: int| 0 <= j <= k - 1 implies !is_later(p.metadata.updated_at, #[trigger] s.drop_first()[j].metadata.updated_at) by {
            assert(s.drop_first()[j] == s[j + 1]);
        }
        lemma_insert_pos_skip(s.drop_first(), p, k - 1);
    }
}

proof fn lemma_insert_pos_is(s: Seq<ProfileInfo>, p: ProfileInfo, k: int)
    requires
        0 <= k <= s.len(),
        forall|j: int| 0 <= j < k ==> !is_later(p.metadata.updated_at, #[trigger] s[j].metadata.updated_at),
        k < s.len() ==> is_later(p.metadata.updated_at, s[k].metadata.updated_at),
    ensures
        insert_pos(s, p) == k,
    decreases k,
{
    if k > 0 {
        assert(!is_later(p.metadata.updated_at, s[0].metadata.updated_at));
        assert forall|j: int| 0 <= j < k - 1 implies !is_later(p.metadata.updated_at, #[trigger] s.drop_first()[j].metadata.updated_at) by {
            assert(s.drop_first()[j] == s[j + 1]);
        }
        if k < s.len() {
            assert(s.drop_first()[k - 1] == s[k]);
        }
        lemma_insert_pos_is(s.drop_first(), p, k - 1);
    }
}

impl SelectScreen {
    /// A screen listing `profiles` from the latest update to the earliest,
    /// the first selected.
    pub fn new(profiles: Vec<ProfileInfo>) -> (r: SelectScreen)
        ensures
            r@.profiles == sorted_by_update(profiles@),
            r@.filtered == matching(lowered_names(sorted_by_update(profiles@)), lowercase(Seq::empty())),
            r@.selected == (if r@.filtered.len() > 0 { Some(0usize) } else { None }),
            r@.search == Seq::<char>::empty(),
            !r@.search_mode,
            r@.confirming is None,
            select_wf(r@),
    {
        let mut screen = SelectScreen {
            profiles: sort_by_update(profiles),
            filtered_profiles: Vec::new(),
            selected: None,
            search_input: String::new(),
            search_mode: false,
            delete_confirmation: None,
        };
        screen.update_filter();
        if screen.filtered_profiles.len() > 0 {
            screen.selected = Some(0);
        }
        screen
    }

    /// Replaces the profiles by `profiles`, as read again after a deletion,
    /// sorted from the latest update to the earliest, and filters them anew;
    /// the selection stays within the list.
    pub fn reload_profiles(&mut self, profiles: Vec<ProfileInfo>)
        ensures
            final(self)@ == refiltered((SelectView {
                profiles: sorted_by_update(profiles@),
                filtered: old(self)@.filtered,
                selected: old(self)@.selected,
                search: old(self)@.search,
                search_mode: old(self)@.search_mode,
                confirming: old(self)@.confirming,
            })),
            select_wf(final(self)@),
    {
        self.profiles = sort_by_update(profiles);
        self.update_filter();
        if self.filtered_profiles.len() > 0 {
            let max_idx = self.filtered_profiles.len() - 1;
            let current = match self.selected {
                Some(i) => i,
                None => 0,
            };
            self.selected = Some(if current < max_idx { current } else { max_idx });
        }
    }

    /// The profiles, in order.
    pub fn profiles(&self) -> (r: &Vec<ProfileInfo>)
        ensures
            r@ == self@.profiles,
    {
        &self.profiles
    }

    /// The positions of the profiles shown.
    pub fn filtered_profiles(&self) -> (r: &Vec<usize>)
        ensures
            r@ == self@.filtered,
    {
        &self.filtered_profiles
    }

    /// The selected row, if any.
    pub fn selected(&self) -> (r: Option<usize>)
        ensures
            r == self@.selected,
    {
        self.selected
    }

    /// The search text.
    pub fn search_input(&self) -> (r: &str)
        ensures
            r@ == self@.search,
    {
        self.search_input.as_str()
    }

    /// Whether the search text is being typed.
    pub fn search_mode(&self) -> (r: bool)
        ensures
            r == self@.search_mode,
    {
        self.search_mode
    }

    /// The profile whose deletion awaits confirmation, if any.
    pub fn delete_confirmation(&self) -> (r: Option<&str>)
        ensures
            r is Some == self@.confirming is Some,
            r matches Some(s) ==> Some(s@) == self@.confirming,
    {
        match &self.delete_confirmation {
            Some(s) => Some(s.as_str()),
            None => None,
        }
    }

    /// Recomputes the positions of the profiles that the search text
    /// matches, ignoring case, and keeps the selection within them.
    pub fn update_filter(&mut self)
        ensures
            final(self)@ == refiltered(old(self)@),
            select_wf(final(self)@),
    {
        let ghost v = self@;
        let search_lower = to_lowercase(self.search_input.as_str());
        let n = self.profiles.len();
        let ghost f = matching(lowered_names(v.profiles), lowercase(v.search));
        let mut filtered: Vec<usize> = Vec::new();
        if search_lower.as_str().is_empty() {
            proof {
                lemma_matching_empty(lowered_names(v.profiles), lowercase(v.search));
            }
            let mut i: usize = 0;
            while i < n
                invariant
                    n == v.profiles.len(),
                    i <= n,
                    filtered@.len() == i,
                    forall|j: int| 0 <= j < i ==> #[trigger] filtered@[j] == j,
                decreases n - i,
            {
                filtered.push(i);
                i = i + 1;
            }
            proof {
                assert(filtered@ =~= f);
            }
        } else {
            let mut lowered: Vec<String> = Vec::new();
            let mut i: usize = 0;
            while i < n
                invariant
                    n == v.profiles.len(),
                    self.profiles@ == v.profiles,
                    i <= n,
                    lowered@.len() == i,
                    forall|j: int| 0 <= j < i ==> #[trigger] lowered@[j]@ == lowercase(v.profiles[j].name@),
                decreases n - i,
            {
                lowered.push(to_lowercase(self.profiles[i].name.as_str()));
                i = i + 1;
            }
            proof {
                assert(lowered@.map_values(|s: String| s@) =~= lowered_names(v.profiles));
            }
            filtered = filter_indices(&lowered, search_lower.as_str());
        }
        proof {
            lemma_matching_bounds(lowered_names(v.profiles), lowercase(v.search));
        }
        self.filtered_profiles = filtered;
        self.adjust_selection();
    }

    /// Keeps the selection within the rows shown.
    fn adjust_selection(&mut self)
        ensures
            final(self)@ == with_filter(old(self)@, old(self)@.filtered,
                adjusted(old(self)@.selected, old(self)@.filtered.len() as int)),
    {
        let len = self.filtered_profiles.len();
        let max_index = if len == 0 { 0 } else { len - 1 };
        self.selected = match self.selected {
            Some(i) => if i <= max_index {
                Some(i)
            } else if len > 0 {
                Some(0)
            } else {
                None
            },
            None => if len > 0 {
                Some(0)
            } else {
                None
            },
        };
    }

    /// Moves the selection by `delta` rows, staying inside the list.
    pub fn move_selection(&mut self, delta: i32)
        ensures
            final(self)@ == select_moved(old(self)@, delta as int),
    {
        if self.filtered_profiles.len() == 0 {
            return;
        }
        let new = step_selection(self.selected, delta, self.filtered_profiles.len());
        self.selected = Some(new);
    }

    /// The selected profile, if a row is selected.
    pub fn get_selected_profile(&self) -> (r: Option<&ProfileInfo>)
        requires
            select_wf(self@),
        ensures
            r is Some == selected_index(self@) is Some,
            r matches Some(p) ==> *p == self@.profiles[selected_index(self@)->0],
    {
        match self.selected {
            Some(idx) => if idx < self.filtered_profiles.len() {
                Some(&self.profiles[self.filtered_profiles[idx]])
            } else {
                None
            },
            None => None,
        }
    }

    fn open_selected(&self) -> (r: Action)
        requires
            select_wf(self@),
        ensures
            opens_selected(self@, r),
    {
        match self.get_selected_profile() {
            Some(p) => Action::OpenProfile(p.name.clone()),
            None => Action::Nothing,
        }
    }

    /// Handles a key press while a deletion awaits confirmation.
    fn handle_delete_confirmation_key(&mut self, key: KeyPress) -> (r: Action)
        requires
            old(self)@.confirming is Some,
        ensures
            final(self)@ == select_after_key(old(self)@, key),
            select_action(old(self)@, key, r),
    {
        if key.code == KeyCode::Char('y') || key.code == KeyCode::Char('Y') {
            let name = match self.delete_confirmation.take() {
                Some(n) => n,
                None => String::new(),
            };
            Action::DeleteProfile(name)
        } else if key.code == KeyCode::Char('n') || key.code == KeyCode::Char('N') || key.code == KeyCode::Esc {
            self.delete_confirmation = None;
            Action::Nothing
        } else {
            Action::Nothing
        }
    }

    /// Handles a key press while the search text is being typed.
    fn handle_search_key(&mut self, key: KeyPress) -> (r: Action)
        requires
            old(self)@.confirming is None,
            old(self)@.search_mode,
            select_wf(old(self)@),
        ensures
            final(self)@ == select_after_key(old(self)@, key),
            select_action(old(self)@, key, r),
            select_wf(final(self)@),
    {
        match key.code {
            KeyCode::Esc => {
                self.search_mode = false;
                Action::Nothing
            },
            KeyCode::Enter => {
                self.search_mode = false;
                self.open_selected()
            },
            KeyCode::Char(c) => {
                push_char(&mut self.search_input, c);
                self.update_filter();
                Action::Nothing
            },
            KeyCode::Backspace => {
                pop_char(&mut self.search_input);
                self.update_filter();
                Action::Nothing
            },
            _ => Action::Nothing,
        }
    }

    /// Handles a key press: searches, moves, opens, creates, edits, deletes
    /// after confirmation, or leaves.
    pub fn handle_key_event(&mut self, key: KeyPress) -> (r: Action)
        requires
            select_wf(old(self)@),
        ensures
            final(self)@ == select_after_key(old(self)@, key),
            select_action(old(self)@, key, r),
            select_wf(final(self)@),
    {
        if self.delete_confirmation.is_some() {
            return self.handle_delete_confirmation_key(key);
        }
        if self.search_mode {
            return self.handle_search_key(key);
        }
        match key.code {
            KeyCode::Up => {
                self.move_selection(-1);
                Action::Nothing
            },
            KeyCode::Down => {
                self.move_selection(1);
                Action::Nothing
            },
            KeyCode::Char(c) => {
                if c == '/' {
                    self.search_mode = true;
                    Action::Nothing
                } else if c == 'k' {
                    self.move_selection(-1);
                    Action::Nothing
                } else if c == 'j' {
                    self.move_selection(1);
                    Action::Nothing
                } else if c == 'n' {
                    Action::NewProfile
                } else if c == 'e' {
                    match self.get_selected_profile() {
                        Some(p) => Action::EditProfile(p.name.clone()),
                        None => Action::Nothing,
                    }
                } else if c == 'd' {
                    let name = match self.get_selected_profile() {
                        Some(p) => Some(p.name.clone()),
                        None => None,
                    };
                    if name.is_some() {
                        self.delete_confirmation = name;
                    }
                    Action::Nothing
                } else {
                    Action::Nothing
                }
            },
            KeyCode::Enter => self.open_selected(),
            KeyCode::Esc => Action::Exit,
            _ => Action::Nothing,
        }
    }
}

} // verus!
