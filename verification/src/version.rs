//! Finding the latest released version: the tag of the latest release in
//! the release service's answer, or the greatest tag that `git ls-remote`
//! lists.

use vstd::prelude::*;

use crate::profile::Timestamp;
use crate::date::decimal;
use crate::text::{lines, push_str, split_lines, starts_with, str_starts_with, u64_decimal_string};

verus! {

/// A semantic version, as `semver` reads it.
#[verifier::external_type_specification]
#[verifier::external_body]
pub struct ExVersion(semver::Version);

/// The parts of a version: major, minor and patch numbers, pre-release and
/// build metadata texts.
pub type VersionParts = (u64, u64, u64, Seq<char>, Seq<char>);

/// The parts of the version `semver` reads from `s`, if it reads one.
pub uninterp spec fn semver_parsed(s: Seq<char>) -> Option<VersionParts>;

/// Where the version with parts `a` stands to the one with parts `b` in the
/// order of `semver`: negative before, zero equal, positive after.
pub uninterp spec fn semver_order(a: VersionParts, b: VersionParts) -> int;

/// The version with no pre-release and no build metadata.
pub open spec fn plain_parts(major: u64, minor: u64, patch: u64) -> VersionParts {
    (major, minor, patch, Seq::<char>::empty(), Seq::<char>::empty())
}

/// A semantic version: its parts, and the `semver` value they were read
/// into, which the library's functions only build from those parts.
pub struct SemVer {
    major: u64,
    minor: u64,
    patch: u64,
    pre: String,
    build: String,
    version: semver::Version,
}

impl View for SemVer {
    type V = VersionParts;

    closed spec fn view(&self) -> VersionParts {
        (self.major, self.minor, self.patch, self.pre@, self.build@)
    }
}

impl SemVer {
    /// The major number.
    pub fn major(&self) -> (r: u64)
        ensures
            r == self@.0,
    {
        self.major
    }

    /// The minor number.
    pub fn minor(&self) -> (r: u64)
        ensures
            r == self@.1,
    {
        self.minor
    }

    /// The patch number.
    pub fn patch(&self) -> (r: u64)
        ensures
            r == self@.2,
    {
        self.patch
    }

    /// The pre-release text, empty when there is none.
    pub fn pre(&self) -> (r: &str)
        ensures
            r@ == self@.3,
    {
        self.pre.as_str()
    }

    /// The build metadata text, empty when there is none.
    pub fn build(&self) -> (r: &str)
        ensures
            r@ == self@.4,
    {
        self.build.as_str()
    }

    /// The text of the version, as `semver` displays it:
    /// `major.minor.patch`, then `-` and the pre-release when there is one,
    /// then `+` and the build metadata when there is some.
    pub fn version_text(&self) -> (r: String)
        ensures
            r@ == version_text_of(self@),
    {
        proof {
            reveal_strlit(".");
            reveal_strlit("-");
            reveal_strlit("+");
        }
        let mut out = u64_decimal_string(self.major);
        push_str(&mut out, ".");
        let minor = u64_decimal_string(self.minor);
        push_str(&mut out, minor.as_str());
        push_str(&mut out, ".");
        let patch = u64_decimal_string(self.patch);
        push_str(&mut out, patch.as_str());
        let ghost numbers = out@;
        if self.pre.as_str().unicode_len() > 0 {
            push_str(&mut out, "-");
            push_str(&mut out, self.pre.as_str());
        }
        let ghost with_pre = out@;
        if self.build.as_str().unicode_len() > 0 {
            push_str(&mut out, "+");
            push_str(&mut out, self.build.as_str());
        }
        proof {
            let p = self@;
            assert(numbers =~= decimal(p.0 as nat) + "."@ + decimal(p.1 as nat) + "."@ + decimal(p.2 as nat));
            assert(with_pre =~= numbers + (if p.3.len() > 0 { "-"@ + p.3 } else { Seq::<char>::empty() }));
            assert(out@ =~= version_text_of(p));
        }
        out
    }
}

/// The text `semver` displays for the version with parts `p`.
pub open spec fn version_text_of(p: VersionParts) -> Seq<char> {
    decimal(p.0 as nat) + "."@ + decimal(p.1 as nat) + "."@ + decimal(p.2 as nat) + (if p.3.len() > 0 {
        "-"@ + p.3
    } else {
        Seq::<char>::empty()
    }) + (if p.4.len() > 0 {
        "+"@ + p.4
    } else {
        Seq::<char>::empty()
    })
}

/// `semver::Version::parse`: the version `s` writes, if `semver` reads it as
/// one, with its parts copied out of the `semver` value.
#[verifier::external_body]
pub(crate) fn parse_semver(s: &str) -> (r: Option<SemVer>)
    ensures
        r is None <==> semver_parsed(s@) is None,
        r matches Some(v) ==> semver_parsed(s@) == Some(v@),
{
    match semver::Version::parse(s) {
        Ok(v) => Some(SemVer {
            major: v.major,
            minor: v.minor,
            patch: v.patch,
            pre: v.pre.as_str().to_owned(),
            build: v.build.as_str().to_owned(),
            version: v,
        }),
        Err(_) => None,
    }
}

/// `semver::Version::new`: the version `major.minor.patch`, with empty
/// pre-release and build metadata.
#[verifier::external_body]
pub(crate) fn new_semver(major: u64, minor: u64, patch: u64) -> (r: SemVer)
    ensures
        r@ == plain_parts(major, minor, patch),
{
    SemVer {
        major,
        minor,
        patch,
        pre: String::new(),
        build: String::new(),
        version: semver::Version::new(major, minor, patch),
    }
}

/// `Ord::cmp` of `semver::Version`, as -1, 0 or 1. The order is derived over
/// the fields major, minor, patch, pre-release and build metadata in turn, so
/// the numbers decide where they differ; swapping the versions turns the
/// answer round, and versions with equal parts are equal.
#[verifier::external_body]
pub(crate) fn compare_semver(a: &SemVer, b: &SemVer) -> (r: i8)
    ensures
        r == semver_order(a@, b@),
        -1 <= r <= 1,
        semver_order(b@, a@) == -r,
        a@ == b@ ==> r == 0,
        (a@.0, a@.1, a@.2) != (b@.0, b@.1, b@.2) ==> (r < 0 <==> (a@.0 < b@.0 || (a@.0 == b@.0 && (a@.1 < b@.1
            || (a@.1 == b@.1 && a@.2 < b@.2))))),
{
    match a.version.cmp(&b.version) {
        std::cmp::Ordering::Less => -1,
        std::cmp::Ordering::Equal => 0,
        std::cmp::Ordering::Greater => 1,
    }
}

/// The version the text `s` writes, if `semver` reads it as one.
pub fn read_version(s: &str) -> (r: Option<SemVer>)
    ensures
        r is None <==> semver_parsed(s@) is None,
        r matches Some(v) ==> semver_parsed(s@) == Some(v@),
{
    parse_semver(s)
}

/// Whether `latest` comes after `current` in the order of versions.
pub fn is_newer(latest: &SemVer, current: &SemVer) -> (r: bool)
    ensures
        r == (semver_order(latest@, current@) > 0),
{
    compare_semver(latest, current) > 0
}

/// The version a tag names: the tag without its leading `v`s, read by
/// `semver`.
pub fn version_of_tag(tag: &str) -> (r: Option<SemVer>)
    ensures
        r is None <==> semver_parsed(strip_prefixes(tag@, "v"@)) is None,
        r matches Some(v) ==> semver_parsed(strip_prefixes(tag@, "v"@)) == Some(v@),
{
    parse_semver(strip_prefixes_str(tag, "v"))
}

/// Whether the release service's answer `body` holds `tag_name` at all.
pub fn mentions_tag_name(body: &str) -> (r: bool)
    ensures
        r == (find_text(body@, "tag_name"@, 0) >= 0),
{
    proof {
        lemma_find_text(body@, "tag_name"@, 0);
    }
    segment_of(body).is_some()
}

/// The version of the latest release that the release service's answer
/// `body` names: nothing when it does not hold `tag_name`, or names a tag
/// that `semver` does not read. An answer that holds `tag_name` without two
/// `"` after it is not read at all.
pub fn release_version(body: &str) -> (r: Option<SemVer>)
    requires
        find_text(body@, "tag_name"@, 0) >= 0 ==> names_release_tag(body@),
    ensures
        r is Some <==> names_release_tag(body@) && semver_parsed(release_tag_of(body@)) is Some,
        r matches Some(v) ==> semver_parsed(release_tag_of(body@)) == Some(v@),
{
    if has_release_tag(body) {
        let tag = release_tag(body);
        parse_semver(tag.as_str())
    } else {
        None
    }
}

/// The version of the greatest tag, comparing tags as text, that the output
/// `out` of `git ls-remote` lists, if it lists one and `semver` reads it once
/// its leading `v`s are taken off.
pub fn remote_version(out: &str) -> (r: Option<SemVer>)
    ensures
        r is None <==> !(latest_tag(lines(out@)) matches Some(t) && semver_parsed(strip_prefixes(t, "v"@)) is Some),
        r matches Some(v) ==> (latest_tag(lines(out@)) matches Some(t) && semver_parsed(strip_prefixes(t, "v"@))
            == Some(v@)),
{
    match latest_remote_tag(out) {
        Some(tag) => version_of_tag(tag.as_str()),
        None => None,
    }
}

/// `s` without the copies of `prefix` it begins with, as
/// `str::trim_start_matches` gives it.
pub open spec fn strip_prefixes(s: Seq<char>, prefix: Seq<char>) -> Seq<char>
    decreases s.len(),
{
    if prefix.len() > 0 && starts_with(s, prefix) {
        strip_prefixes(s.skip(prefix.len() as int), prefix)
    } else {
        s
    }
}

/// `s` without the copies of `prefix` it begins with.
pub fn strip_prefixes_str<'a>(s: &'a str, prefix: &str) -> (r: &'a str)
    ensures
        r@ == strip_prefixes(s@, prefix@),
{
    let n = s.unicode_len();
    let m = prefix.unicode_len();
    if m == 0 {
        return s;
    }
    let mut i: usize = 0;
    proof {
        assert(s@.skip(0) =~= s@);
    }
    while m <= n - i && str_starts_with(s.substring_char(i, n), prefix)
        invariant
            n == s@.len(),
            m == prefix@.len(),
            m > 0,
            i <= n,
            strip_prefixes(s@, prefix@) == strip_prefixes(s@.skip(i as int), prefix@),
        decreases n - i,
    {
        proof {
            assert(s@.subrange(i as int, n as int) =~= s@.skip(i as int));
            assert(s@.skip(i as int).skip(m as int) =~= s@.skip(i + m));
        }
        i = i + m;
    }
    let r = s.substring_char(i, n);
    proof {
        assert(r@ =~= s@.skip(i as int));
        if m <= n - i {
        } else {
            assert(!starts_with(s@.skip(i as int), prefix@));
        }
    }
    r
}

/// The number of tabs in `s`.
pub open spec fn tab_count(s: Seq<char>) -> nat
    decreases s.len(),
{
    if s.len() == 0 {
        0
    } else {
        tab_count(s.drop_last()) + if s.last() == '\t' { 1nat } else { 0nat }
    }
}

/// The tag a line of `git ls-remote` names: a line of two fields separated
/// by a tab, whose second field is a reference under `refs/tags/`.
pub open spec fn line_tag(l: Seq<char>) -> Option<Seq<char>> {
    if tab_count(l) != 1 {
        None
    } else {
        let r = l.skip(crate::text::find_from(l, '\t', 0) + 1);
        if starts_with(r, "refs/tags/"@) {
            Some(strip_prefixes(r, "refs/tags/"@))
        } else {
            None
        }
    }
}

/// `a` comes before `b`, or equals it, comparing characters in turn (for
/// UTF-8 text, the order of `String`).
pub open spec fn text_le(a: Seq<char>, b: Seq<char>) -> bool
    decreases a.len(),
{
    if a.len() == 0 {
        true
    } else if b.len() == 0 {
        false
    } else if a[0] != b[0] {
        (a[0] as u32) < (b[0] as u32)
    } else {
        text_le(a.drop_first(), b.drop_first())
    }
}

/// The greater of two tags as text, as `std::cmp::max` gives it: the second
/// when they are equal.
pub open spec fn max_tag(a: Seq<char>, b: Seq<char>) -> Seq<char> {
    if text_le(a, b) {
        b
    } else {
        a
    }
}

/// The greatest tag, as text, that the lines `ls` name, if they name any.
pub open spec fn latest_tag(ls: Seq<Seq<char>>) -> Option<Seq<char>>
    decreases ls.len(),
{
    if ls.len() == 0 {
        None
    } else {
        let before = latest_tag(ls.drop_last());
        match line_tag(ls.last()) {
            None => before,
            Some(t) => match before {
                None => Some(t),
                Some(b) => Some(max_tag(b, t)),
            },
        }
    }
}

/// Whether `a` comes before `b` or equals it, comparing characters in turn.
pub fn str_le(a: &str, b: &str) -> (r: bool)
    ensures
        r == text_le(a@, b@),
{
    let n = a.unicode_len();
    let m = b.unicode_len();
    let mut i: usize = 0;
    proof {
        assert(a@.skip(0) =~= a@);
        assert(b@.skip(0) =~= b@);
    }
    while i < n && i < m && a.get_char(i) == b.get_char(i)
        invariant
            n == a@.len(),
            m == b@.len(),
            i <= n,
            i <= m,
            text_le(a@, b@) == text_le(a@.skip(i as int), b@.skip(i as int)),
        decreases n - i,
    {
        proof {
            assert(a@.skip(i as int).drop_first() =~= a@.skip(i + 1));
            assert(b@.skip(i as int).drop_first() =~= b@.skip(i + 1));
        }
        i = i + 1;
    }
    if i == n {
        true
    } else if i == m {
        false
    } else {
        (a.get_char(i) as u32) < (b.get_char(i) as u32)
    }
}

fn tag_of_line(l: &str) -> (r: Option<String>)
    ensures
        r is None <==> line_tag(l@) is None,
        r matches Some(t) ==> line_tag(l@) == Some(t@),
{
    proof {
        reveal_strlit("refs/tags/");
    }
    let n = l.unicode_len();
    let mut tabs: usize = 0;
    let mut first: usize = n;
    let mut i: usize = 0;
    while i < n
        invariant
            n == l@.len(),
            i <= n,
            tabs == tab_count(l@.take(i as int)),
            tabs == 0 ==> first == n,
            tabs > 0 ==> first < i && l@[first as int] == '\t' && (forall|k: int| 0 <= k < first ==> l@[k] != '\t'),
            tabs == 0 ==> (forall|k: int| 0 <= k < i ==> l@[k] != '\t'),
        decreases n - i,
    {
        proof {
            assert(l@.take(i + 1).drop_last() =~= l@.take(i as int));
        }
        if l.get_char(i) == '\t' {
            if tabs == 0 {
                first = i;
            }
            if tabs < 2 {
                tabs = tabs + 1;
            } else {
                proof {
                    lemma_tab_count_at_least(l@, i + 1, 3);
                }
                return None;
            }
        }
        i = i + 1;
    }
    proof {
        assert(l@.take(n as int) =~= l@);
    }
    if tabs != 1 {
        return None;
    }
    proof {
        crate::text::lemma_find_from(l@, '\t', 0, first as int);
    }
    let r = l.substring_char(first + 1, n);
    proof {
        assert(r@ =~= l@.skip(first + 1));
    }
    if !str_starts_with(r, "refs/tags/") {
        return None;
    }
    Some(strip_prefixes_str(r, "refs/tags/").to_owned())
}

proof fn lemma_tab_count_at_least(l: Seq<char>, i: int, k: nat)
    requires
        0 <= i <= l.len(),
        tab_count(l.take(i)) >= k,
    ensures
        tab_count(l) >= k,
    decreases l.len() - i,
{
    if i < l.len() {
        assert(l.take(i + 1).drop_last() =~= l.take(i));
        lemma_tab_count_at_least(l, i + 1, k);
    } else {
        assert(l.take(i) =~= l);
    }
}

/// The greatest tag, as text, that the output `out` of `git ls-remote`
/// lists, with the `refs/tags/` before it taken off.
pub fn latest_remote_tag(out: &str) -> (r: Option<String>)
    ensures
        r is None <==> latest_tag(lines(out@)) is None,
        r matches Some(t) ==> latest_tag(lines(out@)) == Some(t@),
{
    let ls = split_lines(out);
    let ghost lv = lines(out@);
    let mut latest: Option<String> = None;
    let mut i: usize = 0;
    while i < ls.len()
        invariant
            i <= ls@.len(),
            ls@.len() == lv.len(),
            forall|k: int| 0 <= k < ls@.len() ==> (#[trigger] ls@[k])@ == lv[k],
            latest is None <==> latest_tag(lv.take(i as int)) is None,
            latest matches Some(t) ==> latest_tag(lv.take(i as int)) == Some(t@),
        decreases ls@.len() - i,
    {
        proof {
            assert(lv.take(i + 1).drop_last() =~= lv.take(i as int));
        }
        match tag_of_line(ls[i]) {
            None => {},
            Some(t) => {
                latest = match latest {
                    None => Some(t),
                    Some(b) => if str_le(b.as_str(), t.as_str()) {
                        Some(t)
                    } else {
                        Some(b)
                    },
                };
            },
        }
        i = i + 1;
    }
    proof {
        assert(lv.take(i as int) =~= lv);
    }
    latest
}

/// The first position at or after `from` where `pat` occurs in `s`, or -1.
pub open spec fn find_text(s: Seq<char>, pat: Seq<char>, from: int) -> int
    decreases s.len() + 1 - from,
{
    if from < 0 || from + pat.len() > s.len() {
        -1
    } else if crate::text::occurs_at(s, pat, from) {
        from
    } else {
        find_text(s, pat, from + 1)
    }
}

/// The position of the first `"` of `s` at or after `from`, or -1.
pub open spec fn find_quote(s: Seq<char>, from: int) -> int {
    find_text(s, seq!['"'], from)
}

/// The text after the first `tag_name` of `body`, up to the next one.
pub open spec fn tag_segment(body: Seq<char>) -> Seq<char> {
    let start = find_text(body, "tag_name"@, 0) + 8;
    let next = find_text(body, "tag_name"@, start);
    body.subrange(start, if next >= 0 { next } else { body.len() as int })
}

/// The answer names a tag: it holds `tag_name`, with two `"` after it.
pub open spec fn names_release_tag(body: Seq<char>) -> bool {
    &&& find_text(body, "tag_name"@, 0) >= 0
    &&& find_quote(tag_segment(body), 0) >= 0
    &&& find_quote(tag_segment(body), find_quote(tag_segment(body), 0) + 1) >= 0
}

/// The tag of the latest release in the answer `body`: the text between the
/// second and third `"` after the first `tag_name`, without its leading `v`s.
pub open spec fn release_tag_of(body: Seq<char>) -> Seq<char> {
    let seg = tag_segment(body);
    let q2 = find_quote(seg, find_quote(seg, 0) + 1);
    let q3 = find_quote(seg, q2 + 1);
    strip_prefixes(seg.subrange(q2 + 1, if q3 >= 0 { q3 } else { seg.len() as int }), "v"@)
}

proof fn lemma_find_text(s: Seq<char>, pat: Seq<char>, from: int)
    ensures
        find_text(s, pat, from) == -1 || (from <= find_text(s, pat, from) && find_text(s, pat, from) + pat.len()
            <= s.len() && crate::text::occurs_at(s, pat, find_text(s, pat, from))),
    decreases s.len() + 1 - from,
{
    if !(from < 0 || from + pat.len() > s.len()) && !crate::text::occurs_at(s, pat, from) {
        lemma_find_text(s, pat, from + 1);
    }
}

/// The first position at or after `from` where `pat` occurs in `s`.
fn find_text_str(s: &str, pat: &str, from: usize) -> (r: Option<usize>)
    requires
        from <= s@.len(),
    ensures
        r is None <==> find_text(s@, pat@, from as int) == -1,
        r matches Some(p) ==> find_text(s@, pat@, from as int) == p,
{
    let n = s.unicode_len();
    let m = pat.unicode_len();
    let mut i: usize = from;
    while i <= n && m <= n - i
        invariant
            n == s@.len(),
            m == pat@.len(),
            from <= i,
            find_text(s@, pat@, from as int) == find_text(s@, pat@, i as int),
        decreases n + 1 - i,
    {
        if crate::text::str_occurs_at(s, pat, i) {
            return Some(i);
        }
        if i == n {
            proof {
                if m == 0 {
                    assert(s@.subrange(n as int, n as int) =~= pat@);
                }
                assert(find_text(s@, pat@, n + 1) == -1);
            }
            return None;
        }
        i = i + 1;
    }
    None
}

/// Whether the answer `body` names a release tag.
pub fn has_release_tag(body: &str) -> (r: bool)
    ensures
        r == names_release_tag(body@),
{
    proof {
        reveal_strlit("\"");
        assert("\""@ =~= seq!['"']);
    }
    match segment_of(body) {
        None => false,
        Some(seg) => {
            let n = seg.unicode_len();
            proof {
                lemma_find_text(seg@, seq!['"'], 0);
                lemma_find_text(body@, "tag_name"@, 0);
            }
            match find_text_str(seg, "\"", 0) {
                None => false,
                Some(q1) => {
                    assert(q1 + 1 <= n);
                    find_text_str(seg, "\"", q1 + 1).is_some()
                },
            }
        },
    }
}

/// The text after the first `tag_name` of `body`, up to the next one, if
/// `body` holds `tag_name`.
fn segment_of(body: &str) -> (r: Option<&str>)
    ensures
        r is None <==> find_text(body@, "tag_name"@, 0) == -1,
        r matches Some(seg) ==> seg@ == tag_segment(body@),
{
    let n = body.unicode_len();
    proof {
        reveal_strlit("tag_name");
        lemma_find_text(body@, "tag_name"@, 0);
    }
    match find_text_str(body, "tag_name", 0) {
        None => None,
        Some(f) => {
            assert(f + 8 <= n);
            let start = f + 8;
            let end = match find_text_str(body, "tag_name", start) {
                Some(e) => e,
                None => body.unicode_len(),
            };
            proof {
                lemma_find_text(body@, "tag_name"@, start as int);
            }
            Some(body.substring_char(start, end))
        },
    }
}

/// The tag of the latest release named by the answer `body` of the release
/// service.
pub fn release_tag(body: &str) -> (r: String)
    requires
        names_release_tag(body@),
    ensures
        r@ == release_tag_of(body@),
{
    proof {
        reveal_strlit("\"");
        reveal_strlit("v");
        assert("\""@ =~= seq!['"']);
    }
    let seg = segment_of(body).unwrap();
    let n = seg.unicode_len();
    proof {
        lemma_find_text(seg@, seq!['"'], 0);
    }
    let q1 = find_text_str(seg, "\"", 0).unwrap();
    assert(q1 + 1 <= n);
    proof {
        lemma_find_text(seg@, seq!['"'], q1 + 1);
    }
    let q2 = find_text_str(seg, "\"", q1 + 1).unwrap();
    assert(q2 + 1 <= n);
    proof {
        lemma_find_text(seg@, seq!['"'], q2 + 1);
    }
    let q3 = match find_text_str(seg, "\"", q2 + 1) {
        Some(q) => q,
        None => seg.unicode_len(),
    };
    let part = seg.substring_char(q2 + 1, q3);
    strip_prefixes_str(part, "v").to_owned()
}


/// The seconds in seven days: how long a cached version is trusted.
pub const CACHE_LIFETIME_SECS: i64 = 604800;

/// A cached version written at `last` is stale at `now` when it was written
/// seven days before `now` or earlier.
pub open spec fn cache_stale(last: Timestamp, now: Timestamp) -> bool {
    let limit = now.secs - CACHE_LIFETIME_SECS;
    last.secs < limit || (last.secs == limit && last.nanos <= now.nanos)
}

/// Whether the version cached at `last` must be fetched again at `now`.
pub fn cache_is_stale(last: &Timestamp, now: &Timestamp) -> (r: bool)
    ensures
        r == cache_stale(*last, *now),
{
    if now.secs < i64::MIN + CACHE_LIFETIME_SECS {
        return false;
    }
    let limit = now.secs - CACHE_LIFETIME_SECS;
    last.secs < limit || (last.secs == limit && last.nanos <= now.nanos)
}

/// The latest version: the release service's, else the greatest tag's, else
/// the version `fallback` writes, else 0.0.0.
pub fn latest_version_from(release: Option<SemVer>, tagged: Option<SemVer>, fallback: &str) -> (r: SemVer)
    ensures
        release matches Some(v) ==> r == v,
        release is None ==> (tagged matches Some(v) ==> r == v),
        release is None && tagged is None ==> match semver_parsed(fallback@) {
            Some(p) => r@ == p,
            None => r@ == plain_parts(0, 0, 0),
        },
{
    match release {
        Some(v) => v,
        None => match tagged {
            Some(v) => v,
            None => match parse_semver(fallback) {
                Some(v) => v,
                None => new_semver(0, 0, 0),
            },
        },
    }
}

/// What the cache of the latest version gives.
pub enum CachedVersion {
    /// The cache is seven days old or older: the version must be fetched.
    Stale,
    /// The version the cache holds.
    Fresh(SemVer),
    /// The cache is fresh but its text is not a version.
    Unreadable,
}

/// What the cache of the latest version, holding the text `cached` written
/// at `last`, gives at `now`.
pub fn cached_version(cached: &str, last: &Timestamp, now: &Timestamp) -> (r: CachedVersion)
    ensures
        r is Stale <==> cache_stale(*last, *now),
        !cache_stale(*last, *now) ==> match semver_parsed(cached@) {
            Some(p) => r matches CachedVersion::Fresh(v) && v@ == p,
            None => r is Unreadable,
        },
{
    if cache_is_stale(last, now) {
        CachedVersion::Stale
    } else {
        match parse_semver(cached) {
            Some(v) => CachedVersion::Fresh(v),
            None => CachedVersion::Unreadable,
        }
    }
}

/// Whether a newer version than the running one, which `current` writes,
/// was released: nothing when `current` is not a version.
pub fn update_available(latest: &SemVer, current: &str) -> (r: Option<bool>)
    ensures
        r is None <==> semver_parsed(current@) is None,
        r matches Some(b) ==> (semver_parsed(current@) matches Some(c) && b == (semver_order(latest@, c) > 0)),
{
    match parse_semver(current) {
        Some(c) => Some(is_newer(latest, &c)),
        None => None,
    }
}

} // verus!
