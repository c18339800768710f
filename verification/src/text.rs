use vstd::prelude::*;

verus! {

/// `c` with an ASCII capital letter turned into its small letter.
pub open spec fn ascii_lower(c: char) -> char {
    if 'A' <= c && c <= 'Z' {
        ((c as u32) + 32) as char
    } else {
        c
    }
}

/// `a` and `b` are equal when ASCII letters are compared without case.
pub open spec fn eq_ignore_ascii_case(a: Seq<char>, b: Seq<char>) -> bool {
    &&& a.len() == b.len()
    &&& forall|i: int| 0 <= i < a.len() ==> ascii_lower(#[trigger] a[i]) == ascii_lower(b[i])
}

/// Whether two characters are equal when ASCII letters are compared without case.
pub fn char_eq_ignore_ascii_case(a: char, b: char) -> (r: bool)
    ensures
        r == (ascii_lower(a) == ascii_lower(b)),
{
    let la: u32 = if 'A' <= a && a <= 'Z' { (a as u32) + 32 } else { a as u32 };
    let lb: u32 = if 'A' <= b && b <= 'Z' { (b as u32) + 32 } else { b as u32 };
    proof {
        assert(la == ascii_lower(a) as u32);
        assert(lb == ascii_lower(b) as u32);
    }
    la == lb
}

/// Whether `a` and `b` are equal when ASCII letters are compared without case,
/// as `str::eq_ignore_ascii_case` decides.
pub fn str_eq_ignore_ascii_case(a: &str, b: &str) -> (r: bool)
    ensures
        r == eq_ignore_ascii_case(a@, b@),
{
    let n = a.unicode_len();
    if n != b.unicode_len() {
        return false;
    }
    let mut i: usize = 0;
    while i < n
        invariant
            n == a@.len(),
            n == b@.len(),
            i <= n,
            forall|j: int| 0 <= j < i ==> ascii_lower(#[trigger] a@[j]) == ascii_lower(b@[j]),
        decreases n - i,
    {
        if !char_eq_ignore_ascii_case(a.get_char(i), b.get_char(i)) {
            return false;
        }
        i = i + 1;
    }
    true
}

/// Whether two strings hold the same characters.
pub fn str_eq(a: &str, b: &str) -> (r: bool)
    ensures
        r == (a@ == b@),
{
    let n = a.unicode_len();
    if n != b.unicode_len() {
        return false;
    }
    let mut i: usize = 0;
    while i < n
        invariant
            n == a@.len(),
            n == b@.len(),
            i <= n,
            forall|j: int| 0 <= j < i ==> #[trigger] a@[j] == b@[j],
        decreases n - i,
    {
        if a.get_char(i) != b.get_char(i) {
            return false;
        }
        i = i + 1;
    }
    assert(a@ =~= b@);
    true
}

} // verus!

verus! {

/// Characters with the Unicode property White_Space, which `char::is_whitespace`
/// and `str::trim` go by.
pub open spec fn is_white_space(c: char) -> bool {
    ||| c == ' '
    ||| ('\t' <= c && c <= '\r')
    ||| c == '\u{85}'
    ||| c == '\u{a0}'
    ||| c == '\u{1680}'
    ||| ('\u{2000}' <= c && c <= '\u{200a}')
    ||| c == '\u{2028}'
    ||| c == '\u{2029}'
    ||| c == '\u{202f}'
    ||| c == '\u{205f}'
    ||| c == '\u{3000}'
}

/// Whether `c` is white space.
pub fn char_is_white_space(c: char) -> (r: bool)
    ensures
        r == is_white_space(c),
{
    c == ' ' || ('\t' <= c && c <= '\r') || c == '\u{85}' || c == '\u{a0}' || c == '\u{1680}' || (
    '\u{2000}' <= c && c <= '\u{200a}') || c == '\u{2028}' || c == '\u{2029}' || c == '\u{202f}'
        || c == '\u{205f}' || c == '\u{3000}'
}

/// `s` without its leading white space.
pub open spec fn trim_start(s: Seq<char>) -> Seq<char>
    decreases s.len(),
{
    if s.len() > 0 && is_white_space(s[0]) {
        trim_start(s.skip(1))
    } else {
        s
    }
}

/// `s` without its trailing white space.
pub open spec fn trim_end(s: Seq<char>) -> Seq<char>
    decreases s.len(),
{
    if s.len() > 0 && is_white_space(s.last()) {
        trim_end(s.drop_last())
    } else {
        s
    }
}

/// `s` without leading and trailing white space.
pub open spec fn trim(s: Seq<char>) -> Seq<char> {
    trim_end(trim_start(s))
}

/// Neither end of `s` is white space.
pub open spec fn is_trimmed(s: Seq<char>) -> bool {
    s.len() > 0 ==> !is_white_space(s[0]) && !is_white_space(s.last())
}

pub proof fn lemma_trim_start_skip(s: Seq<char>, i: int)
    requires
        0 <= i <= s.len(),
        forall|j: int| 0 <= j < i ==> is_white_space(#[trigger] s[j]),
    ensures
        trim_start(s) == trim_start(s.skip(i)),
    decreases i,
{
    if i > 0 {
        assert(is_white_space(s[0]));
        lemma_trim_start_skip(s.skip(1), i - 1);
        assert(s.skip(1).skip(i - 1) =~= s.skip(i));
    } else {
        assert(s.skip(0) =~= s);
    }
}

pub proof fn lemma_trim_end_take(s: Seq<char>, i: int)
    requires
        0 <= i <= s.len(),
        forall|j: int| i <= j < s.len() ==> is_white_space(#[trigger] s[j]),
    ensures
        trim_end(s) == trim_end(s.take(i)),
    decreases s.len() - i,
{
    if i < s.len() {
        assert(is_white_space(s.last()));
        lemma_trim_end_take(s.drop_last(), i);
        assert(s.drop_last().take(i) =~= s.take(i));
    } else {
        assert(s.take(i) =~= s);
    }
}

pub proof fn lemma_trim_end_keeps_front(s: Seq<char>)
    requires
        s.len() > 0 ==> !is_white_space(s[0]),
    ensures
        is_trimmed(trim_end(s)),
        trim_end(s).len() > 0 ==> trim_end(s)[0] == s[0],
        trim_end(s).len() <= s.len(),
        forall|j: int| 0 <= j < trim_end(s).len() ==> #[trigger] trim_end(s)[j] == s[j],
    decreases s.len(),
{
    if s.len() > 0 && is_white_space(s.last()) {
        lemma_trim_end_keeps_front(s.drop_last());
    }
}

/// Trimming the end of `s` keeps every character up to one that is not
/// white space.
pub proof fn lemma_trim_end_keeps(s: Seq<char>, k: int)
    requires
        0 <= k < s.len(),
        !is_white_space(s[k]),
    ensures
        k < trim_end(s).len() <= s.len(),
        forall|j: int| 0 <= j < trim_end(s).len() ==> #[trigger] trim_end(s)[j] == s[j],
    decreases s.len(),
{
    if s.len() > 0 && is_white_space(s.last()) {
        lemma_trim_end_keeps(s.drop_last(), k);
        assert forall|j: int| 0 <= j < trim_end(s).len() implies #[trigger] trim_end(s)[j] == s[j] by {
            assert(trim_end(s)[j] == s.drop_last()[j]);
        }
    }
}

/// A trimmed text trims to itself.
pub proof fn lemma_trim_of_trimmed(s: Seq<char>)
    requires
        is_trimmed(s),
    ensures
        trim(s) == s,
{
}

/// `s` without leading and trailing white space, as `str::trim` gives it.
pub fn trim_str(s: &str) -> (r: &str)
    ensures
        r@ == trim(s@),
{
    let n = s.unicode_len();
    let mut i: usize = 0;
    while i < n && char_is_white_space(s.get_char(i))
        invariant
            n == s@.len(),
            i <= n,
            forall|j: int| 0 <= j < i ==> is_white_space(#[trigger] s@[j]),
        decreases n - i,
    {
        i = i + 1;
    }
    proof {
        lemma_trim_start_skip(s@, i as int);
        assert(trim_start(s@.skip(i as int)) == s@.skip(i as int));
    }
    let mut j: usize = n;
    while j > i && char_is_white_space(s.get_char(j - 1))
        invariant
            n == s@.len(),
            i <= j <= n,
            forall|k: int| j <= k < n ==> is_white_space(#[trigger] s@[k]),
        decreases j,
    {
        j = j - 1;
    }
    let ghost t = s@.skip(i as int);
    proof {
        assert forall|k: int| (j - i) <= k < t.len() implies is_white_space(#[trigger] t[k]) by {
            assert(t[k] == s@[k + i]);
        }
        lemma_trim_end_take(t, j - i);
        assert(t.take(j - i) =~= s@.subrange(i as int, j as int));
        let u = s@.subrange(i as int, j as int);
        if u.len() > 0 {
            assert(u.last() == s@[j - 1]);
        }
    }
    s.substring_char(i, j)
}

/// `needle` occurs in `hay` at position `i`.
pub open spec fn occurs_at(hay: Seq<char>, needle: Seq<char>, i: int) -> bool {
    0 <= i && i + needle.len() <= hay.len() && hay.subrange(i, i + needle.len()) == needle
}

/// `needle` occurs somewhere in `hay`.
pub open spec fn contains(hay: Seq<char>, needle: Seq<char>) -> bool {
    exists|i: int| occurs_at(hay, needle, i)
}

/// `hay` begins with `prefix`.
pub open spec fn starts_with(hay: Seq<char>, prefix: Seq<char>) -> bool {
    prefix.len() <= hay.len() && hay.take(prefix.len() as int) == prefix
}

/// Whether `hay` begins with `prefix`.
pub fn str_starts_with(hay: &str, prefix: &str) -> (r: bool)
    ensures
        r == starts_with(hay@, prefix@),
{
    let n = hay.unicode_len();
    let m = prefix.unicode_len();
    if m > n {
        return false;
    }
    let mut i: usize = 0;
    while i < m
        invariant
            n == hay@.len(),
            m == prefix@.len(),
            m <= n,
            i <= m,
            forall|k: int| 0 <= k < i ==> #[trigger] hay@[k] == prefix@[k],
        decreases m - i,
    {
        if hay.get_char(i) != prefix.get_char(i) {
            return false;
        }
        i = i + 1;
    }
    assert(hay@.take(m as int) =~= prefix@);
    true
}

/// Whether `needle` occurs in `hay` at position `i`.
pub fn str_occurs_at(hay: &str, needle: &str, i: usize) -> (r: bool)
    requires
        i + needle@.len() <= hay@.len(),
    ensures
        r == occurs_at(hay@, needle@, i as int),
{
    let n = hay.unicode_len();
    let m = needle.unicode_len();
    let mut j: usize = 0;
    while j < m
        invariant
            n == hay@.len(),
            m == needle@.len(),
            i + m <= hay@.len(),
            j <= m,
            forall|k: int| 0 <= k < j ==> #[trigger] hay@[i + k] == needle@[k],
        decreases m - j,
    {
        if hay.get_char(i + j) != needle.get_char(j) {
            assert(hay@.subrange(i as int, i + m)[j as int] != needle@[j as int]);
            return false;
        }
        j = j + 1;
    }
    assert forall|k: int| 0 <= k < m implies #[trigger] hay@.subrange(i as int, i + m)[k] == needle@[k] by {
        assert(hay@[i + k] == needle@[k]);
    }
    assert(hay@.subrange(i as int, i + m) =~= needle@);
    true
}

/// Whether `needle` occurs in `hay`.
pub fn str_contains(hay: &str, needle: &str) -> (r: bool)
    ensures
        r == contains(hay@, needle@),
{
    let n = hay.unicode_len();
    let m = needle.unicode_len();
    if m > n {
        return false;
    }
    if m == 0 {
        assert(hay@.subrange(0, 0) =~= needle@);
        assert(occurs_at(hay@, needle@, 0));
        return true;
    }
    let mut i: usize = 0;
    while i <= n - m
        invariant
            n == hay@.len(),
            m == needle@.len(),
            1 <= m <= n,
            i <= n - m + 1,
            forall|k: int| 0 <= k < i ==> !occurs_at(hay@, needle@, k),
        decreases n - m + 1 - i,
    {
        let ok = str_occurs_at(hay, needle, i);
        if ok {
            return true;
        }
        i = i + 1;
    }
    proof {
        assert forall|k: int| !occurs_at(hay@, needle@, k) by {
            if 0 <= k && k + m <= n {
                assert(k < i);
            }
        }
    }
    false
}

/// Whether `c` occurs in `hay`.
pub fn str_contains_char(hay: &str, c: char) -> (r: bool)
    ensures
        r == hay@.contains(c),
{
    let n = hay.unicode_len();
    let mut i: usize = 0;
    while i < n
        invariant
            n == hay@.len(),
            i <= n,
            forall|k: int| 0 <= k < i ==> #[trigger] hay@[k] != c,
        decreases n - i,
    {
        if hay.get_char(i) == c {
            return true;
        }
        i = i + 1;
    }
    false
}

/// The position of the first `c` in `s` at or after `start`, or the length
/// of `s` when there is none.
pub open spec fn find_from(s: Seq<char>, c: char, start: int) -> int
    decreases s.len() - start,
{
    if start >= s.len() {
        s.len() as int
    } else if s[start] == c {
        start
    } else {
        find_from(s, c, start + 1)
    }
}

/// The first `c` at or after `start` is at `i` when none comes between.
pub proof fn lemma_find_from(s: Seq<char>, c: char, start: int, i: int)
    requires
        0 <= start <= i <= s.len(),
        forall|k: int| start <= k < i ==> #[trigger] s[k] != c,
        i == s.len() || s[i] == c,
    ensures
        find_from(s, c, start) == i,
    decreases i - start,
{
    if start < i {
        lemma_find_from(s, c, start + 1, i);
    }
}

/// The lines of `s` from position `start` on, as `str::lines` gives them:
/// split at each `\n`, with a `\r` right before a `\n` left out, and no
/// empty line after a final `\n`.
pub open spec fn lines_from(s: Seq<char>, start: int) -> Seq<Seq<char>>
    decreases s.len() - start,
{
    if start < 0 || start >= s.len() {
        Seq::empty()
    } else {
        let i = find_from(s, '\n', start);
        proof {
            lemma_find_from_bounds(s, '\n', start);
        }
        if i >= s.len() {
            seq![s.subrange(start, s.len() as int)]
        } else {
            let end = if i > start && s[i - 1] == '\r' {
                i - 1
            } else {
                i
            };
            seq![s.subrange(start, end)] + lines_from(s, i + 1)
        }
    }
}

pub proof fn lemma_find_from_bounds(s: Seq<char>, c: char, start: int)
    requires
        0 <= start,
    ensures
        start <= find_from(s, c, start) <= s.len() || start > s.len(),
        find_from(s, c, start) < s.len() ==> s[find_from(s, c, start)] == c,
    decreases s.len() - start,
{
    if start < s.len() && s[start] != c {
        lemma_find_from_bounds(s, c, start + 1);
    }
}

/// The lines of `s`, as `str::lines` gives them.
pub open spec fn lines(s: Seq<char>) -> Seq<Seq<char>> {
    lines_from(s, 0)
}

/// The lines of `s`, as `str::lines` gives them.
pub fn split_lines(s: &str) -> (r: Vec<&str>)
    ensures
        r@.len() == lines(s@).len(),
        forall|k: int| 0 <= k < r@.len() ==> (#[trigger] r@[k])@ == lines(s@)[k],
{
    let n = s.unicode_len();
    let mut out: Vec<&str> = Vec::new();
    let mut start: usize = 0;
    let mut i: usize = 0;
    let ghost mut done: Seq<Seq<char>> = Seq::empty();
    while i < n
        invariant
            n == s@.len(),
            start <= i <= n,
            forall|k: int| start <= k < i ==> #[trigger] s@[k] != '\n',
            out@.len() == done.len(),
            forall|k: int| 0 <= k < out@.len() ==> (#[trigger] out@[k])@ == done[k],
            done + lines_from(s@, start as int) == lines(s@),
        decreases n - i,
    {
        if s.get_char(i) == '\n' {
            proof {
                lemma_find_from(s@, '\n', start as int, i as int);
            }
            let end = if i > start && s.get_char(i - 1) == '\r' { i - 1 } else { i };
            let line = s.substring_char(start, end);
            proof {
                let d2 = done.push(line@);
                assert(lines_from(s@, start as int) == seq![line@] + lines_from(s@, i + 1));
                assert(d2 + lines_from(s@, i + 1) =~= done + (seq![line@] + lines_from(s@, i + 1)));
                done = d2;
            }
            out.push(line);
            start = i + 1;
        }
        i = i + 1;
    }
    if start < n {
        proof {
            lemma_find_from(s@, '\n', start as int, n as int);
        }
        let line = s.substring_char(start, n);
        proof {
            assert(lines_from(s@, start as int) == seq![line@]);
            done = done.push(line@);
        }
        out.push(line);
    } else {
        proof {
            assert(lines_from(s@, start as int) == Seq::<Seq<char>>::empty());
            assert(done + Seq::<Seq<char>>::empty() =~= done);
        }
    }
    proof {
        assert(done =~= lines(s@)) by {
            if start < n {
            } else {
                assert(done + Seq::<Seq<char>>::empty() =~= done);
            }
        }
    }
    out
}


/// Looking for `c` in `x + y` from a position inside `y` looks in `y`.
pub proof fn lemma_find_from_shift(x: Seq<char>, y: Seq<char>, c: char, k: int)
    requires
        0 <= k,
    ensures
        find_from(x + y, c, x.len() + k) == x.len() + find_from(y, c, k),
    decreases y.len() - k,
{
    if k < y.len() && y[k] != c {
        lemma_find_from_shift(x, y, c, k + 1);
    }
}

/// Looking for `c` in `x + y` from a position inside `x`, where `x` holds a
/// `c` at or after that position, looks in `x`.
pub proof fn lemma_find_from_prefix(x: Seq<char>, y: Seq<char>, c: char, start: int, j: int)
    requires
        0 <= start <= j < x.len(),
        x[j] == c,
    ensures
        find_from(x + y, c, start) == find_from(x, c, start),
        find_from(x, c, start) <= j,
    decreases j - start,
{
    if x[start] != c {
        lemma_find_from_prefix(x, y, c, start + 1, j);
    }
}

/// The lines of `x + y` from a position inside `y` are those of `y`.
pub proof fn lemma_lines_from_shift(x: Seq<char>, y: Seq<char>, k: int)
    requires
        0 <= k,
    ensures
        lines_from(x + y, x.len() + k) == lines_from(y, k),
    decreases y.len() - k,
{
    let s = x + y;
    let start = x.len() + k;
    if k < y.len() {
        lemma_find_from_shift(x, y, '\n', k);
        lemma_find_from_bounds(y, '\n', k);
        let i = find_from(y, '\n', k);
        if i < y.len() {
            lemma_lines_from_shift(x, y, i + 1);
            assert(s.subrange(start, x.len() + i) =~= y.subrange(k, i));
            if i > k {
                assert(s[x.len() + i - 1] == y[i - 1]);
                assert(s.subrange(start, x.len() + i - 1) =~= y.subrange(k, i - 1));
            }
            assert(x.len() + i + 1 == x.len() + (i + 1));
        } else {
            assert(s.subrange(start, s.len() as int) =~= y.subrange(k, y.len() as int));
        }
    }
}

/// When `x` is empty or ends with a line break, the lines of `x + y` from a
/// position inside `x` are those of `x` followed by those of `y`.
pub proof fn lemma_lines_from_append(x: Seq<char>, y: Seq<char>, start: int)
    requires
        0 <= start <= x.len(),
        x.len() == 0 || x.last() == '\n',
    ensures
        lines_from(x + y, start) == lines_from(x, start) + lines(y),
    decreases x.len() - start,
{
    let s = x + y;
    if start == x.len() {
        lemma_lines_from_shift(x, y, 0);
        assert(lines_from(x, start) + lines(y) =~= lines(y));
    } else {
        lemma_find_from_prefix(x, y, '\n', start, x.len() - 1);
        lemma_find_from_bounds(x, '\n', start);
        let i = find_from(x, '\n', start);
        lemma_lines_from_append(x, y, i + 1);
        assert(s.subrange(start, i) =~= x.subrange(start, i));
        if i > start {
            assert(s[i - 1] == x[i - 1]);
            assert(s.subrange(start, i - 1) =~= x.subrange(start, i - 1));
        }
        let end = if i > start && x[i - 1] == '\r' { i - 1 } else { i };
        assert(lines_from(s, start) == seq![s.subrange(start, end)] + lines_from(s, i + 1));
        assert(lines_from(x, start) == seq![x.subrange(start, end)] + lines_from(x, i + 1));
        assert(lines_from(s, start) =~= lines_from(x, start) + lines(y));
    }
}

/// When `x` is empty or ends with a line break, the lines of `x + y` are
/// those of `x` followed by those of `y`.
pub proof fn lemma_lines_append(x: Seq<char>, y: Seq<char>)
    requires
        x.len() == 0 || x.last() == '\n',
    ensures
        lines(x + y) == lines(x) + lines(y),
{
    lemma_lines_from_append(x, y, 0);
}

/// A line without line breaks, not ending with a carriage return, followed
/// by a line break, is that one line.
pub proof fn lemma_lines_single(l: Seq<char>)
    requires
        !l.contains('\n'),
        l.len() == 0 || l.last() != '\r',
    ensures
        lines(l + seq!['\n']) == seq![l],
{
    let s = l + seq!['\n'];
    assert forall|k: int| 0 <= k < l.len() implies #[trigger] s[k] != '\n' by {
        assert(s[k] == l[k]);
        if l[k] == '\n' {
            assert(l.contains('\n'));
        }
    }
    lemma_find_from(s, '\n', 0, l.len() as int);
    if l.len() > 0 {
        assert(s[l.len() - 1] == l.last());
    }
    assert(s.subrange(0, l.len() as int) =~= l);
    assert(lines_from(s, (l.len() + 1) as int) == Seq::<Seq<char>>::empty());
    assert(lines(s) =~= seq![l]);
}

/// Appends `s` to `out`.
pub(crate) fn push_str(out: &mut String, s: &str)
    ensures
        final(out)@ == old(out)@ + s@,
{
    out.append(s);
}

/// `parts` joined with `sep` between each two.
pub open spec fn join(parts: Seq<Seq<char>>, sep: Seq<char>) -> Seq<char>
    decreases parts.len(),
{
    if parts.len() == 0 {
        Seq::empty()
    } else if parts.len() == 1 {
        parts[0]
    } else {
        join(parts.drop_last(), sep) + sep + parts.last()
    }
}

/// The characters of each string.
pub open spec fn string_views(ss: Seq<String>) -> Seq<Seq<char>> {
    ss.map_values(|s: String| s@)
}

/// `parts` joined with `sep` between each two.
pub(crate) fn join_strings(parts: &Vec<String>, sep: &str) -> (r: String)
    ensures
        r@ == join(string_views(parts@), sep@),
{
    let ghost ps = string_views(parts@);
    let mut out = String::new();
    let mut i: usize = 0;
    while i < parts.len()
        invariant
            i <= parts@.len(),
            ps == string_views(parts@),
            out@ == join(ps.take(i as int), sep@),
        decreases parts@.len() - i,
    {
        proof {
            assert(ps.take(i + 1).drop_last() =~= ps.take(i as int));
        }
        if i > 0 {
            push_str(&mut out, sep);
        }
        push_str(&mut out, parts[i].as_str());
        proof {
            if i == 0 {
                assert(out@ =~= ps.take(1)[0]);
            }
        }
        i = i + 1;
    }
    proof {
        assert(ps.take(i as int) =~= ps);
    }
    out
}

/// `String::push`, which appends the character `c` to the end of `s`.
#[verifier::external_body]
pub(crate) fn push_char(s: &mut String, c: char)
    ensures
        final(s)@ == old(s)@.push(c),
{
    s.push(c);
}

/// `String::pop`, which removes the last character of `s` and returns it, or
/// returns `None` when `s` is empty.
#[verifier::external_body]
pub(crate) fn pop_char(s: &mut String) -> (r: Option<char>)
    ensures
        old(s)@.len() == 0 ==> r is None,
        old(s)@.len() == 0 ==> final(s)@ == old(s)@,
        old(s)@.len() > 0 ==> r == Some(old(s)@.last()),
        old(s)@.len() > 0 ==> final(s)@ == old(s)@.drop_last(),
{
    s.pop()
}

/// `s` without any of its white space characters, the others in order.
pub open spec fn without_white_space(s: Seq<char>) -> Seq<char>
    decreases s.len(),
{
    if s.len() == 0 {
        s
    } else if is_white_space(s.last()) {
        without_white_space(s.drop_last())
    } else {
        without_white_space(s.drop_last()).push(s.last())
    }
}

/// `s` with all its white space taken out.
pub fn remove_white_space(s: &str) -> (r: String)
    ensures
        r@ == without_white_space(s@),
{
    let n = s.unicode_len();
    let mut out = String::new();
    let mut i: usize = 0;
    proof {
        assert(s@.take(0) =~= Seq::<char>::empty());
    }
    while i < n
        invariant
            n == s@.len(),
            i <= n,
            out@ == without_white_space(s@.take(i as int)),
        decreases n - i,
    {
        let c = s.get_char(i);
        proof {
            assert(s@.take(i + 1).drop_last() =~= s@.take(i as int));
            assert(s@.take(i + 1).last() == c);
        }
        if !char_is_white_space(c) {
            push_char(&mut out, c);
        }
        i = i + 1;
    }
    proof {
        assert(s@.take(n as int) =~= s@);
    }
    out
}

/// `s` without its last character, when it has one.
pub open spec fn without_last(s: Seq<char>) -> Seq<char> {
    if s.len() == 0 {
        s
    } else {
        s.drop_last()
    }
}

/// `n` written in decimal digits.
pub fn u64_decimal_string(n: u64) -> (r: String)
    ensures
        r@ == crate::date::decimal(n as nat),
    decreases n,
{
    let mut out = if n < 10 {
        String::new()
    } else {
        u64_decimal_string(n / 10)
    };
    let d: u8 = (n % 10) as u8;
    let c: char = (d + 48) as char;
    push_char(&mut out, c);
    proof {
        assert(c == crate::date::digit_char((n % 10) as int));
        if n < 10 {
            assert(out@ =~= seq![c]);
        }
    }
    out
}

/// `n` written in decimal digits.
pub fn decimal_string(n: usize) -> (r: String)
    ensures
        r@ == crate::date::decimal(n as nat),
{
    u64_decimal_string(n as u64)
}

/// `n` in decimal digits, with a `-` in front when it is negative.
pub open spec fn signed_decimal(n: int) -> Seq<char> {
    if n < 0 {
        seq!['-'] + crate::date::decimal((-n) as nat)
    } else {
        crate::date::decimal(n as nat)
    }
}

/// `n` written in decimal digits, after a `-` when it is negative.
pub fn signed_decimal_string(n: i32) -> (r: String)
    ensures
        r@ == signed_decimal(n as int),
{
    if n < 0 {
        let m: u64 = (0 - (n as i64)) as u64;
        let digits = u64_decimal_string(m);
        let mut out = String::new();
        push_char(&mut out, '-');
        push_str(&mut out, digits.as_str());
        proof {
            assert(out@ =~= seq!['-'] + crate::date::decimal((-(n as int)) as nat));
        }
        out
    } else {
        u64_decimal_string(n as u64)
    }
}

/// The words of `s`: its longest runs of characters that are not white
/// space, in order, as `str::split_whitespace` gives them.
pub open spec fn words(s: Seq<char>) -> Seq<Seq<char>>
    decreases s.len(),
{
    if s.len() == 0 {
        Seq::empty()
    } else if is_white_space(s.last()) {
        words(s.drop_last())
    } else if s.len() > 1 && !is_white_space(s[s.len() - 2]) {
        let w = words(s.drop_last());
        w.update(w.len() - 1, w.last().push(s.last()))
    } else {
        words(s.drop_last()).push(seq![s.last()])
    }
}

/// The words of `s`.
pub fn split_words(s: &str) -> (r: Vec<String>)
    ensures
        string_views(r@) == words(s@),
{
    let n = s.unicode_len();
    let mut out: Vec<String> = Vec::new();
    let mut cur = String::new();
    let mut i: usize = 0;
    while i < n
        invariant
            n == s@.len(),
            i <= n,
            cur@.len() > 0 <==> (i > 0 && !is_white_space(s@[i - 1])),
            cur@.len() > 0 ==> words(s@.take(i as int)) == string_views(out@).push(cur@),
            cur@.len() == 0 ==> words(s@.take(i as int)) == string_views(out@),
        decreases n - i,
    {
        let c = s.get_char(i);
        proof {
            assert(s@.take(i + 1).drop_last() =~= s@.take(i as int));
            assert(s@.take(i + 1).last() == c);
            if i > 0 {
                assert(s@.take(i + 1)[i - 1] == s@[i - 1]);
            }
        }
        if char_is_white_space(c) {
            if cur.unicode_len() > 0 {
                let ghost before = out@;
                out.push(cur);
                cur = String::new();
                proof {
                    assert(string_views(out@) =~= string_views(before).push(out@.last()@));
                }
            }
        } else {
            let ghost old_cur = cur@;
            push_char(&mut cur, c);
            proof {
                if old_cur.len() > 0 {
                    let w = words(s@.take(i as int));
                    assert(w == string_views(out@).push(old_cur));
                    assert(words(s@.take(i + 1)) =~= string_views(out@).push(cur@));
                } else {
                    assert(cur@ =~= seq![c]);
                }
            }
        }
        i = i + 1;
    }
    proof {
        assert(s@.take(n as int) =~= s@);
    }
    if cur.unicode_len() > 0 {
        let ghost before = out@;
        out.push(cur);
        proof {
            assert(string_views(out@) =~= string_views(before).push(out@.last()@));
        }
    }
    out
}

/// What `str::to_uppercase` gives for `s`.
pub uninterp spec fn uppercase(s: Seq<char>) -> Seq<char>;

/// `str::to_uppercase`, which gives the uppercase equivalent of `s` by the
/// Unicode rules; the contract names the result and states nothing more of
/// it.
#[verifier::external_body]
pub(crate) fn to_uppercase(s: &str) -> (r: String)
    ensures
        r@ == uppercase(s@),
{
    s.to_uppercase()
}

/// `s` with every `from` replaced by `to`.
pub open spec fn replace_char(s: Seq<char>, from: char, to: char) -> Seq<char> {
    s.map_values(|c: char| if c == from { to } else { c })
}

/// `s` with every `from` replaced by `to`, as `str::replace` gives it for one
/// character.
pub fn str_replace_char(s: &str, from: char, to: char) -> (r: String)
    ensures
        r@ == replace_char(s@, from, to),
{
    let n = s.unicode_len();
    let mut out = String::new();
    let mut i: usize = 0;
    while i < n
        invariant
            n == s@.len(),
            i <= n,
            out@ == replace_char(s@.take(i as int), from, to),
        decreases n - i,
    {
        let c = s.get_char(i);
        push_char(&mut out, if c == from { to } else { c });
        proof {
            assert(replace_char(s@.take(i + 1), from, to) =~= replace_char(s@.take(i as int), from, to).push(
                if c == from { to } else { c },
            ));
        }
        i = i + 1;
    }
    proof {
        assert(s@.take(n as int) =~= s@);
    }
    out
}

/// `s` ends with `suffix`.
pub open spec fn ends_with(s: Seq<char>, suffix: Seq<char>) -> bool {
    suffix.len() <= s.len() && s.skip(s.len() - suffix.len()) == suffix
}

/// Whether `s` ends with `suffix`.
pub fn str_ends_with(s: &str, suffix: &str) -> (r: bool)
    ensures
        r == ends_with(s@, suffix@),
{
    let n = s.unicode_len();
    let m = suffix.unicode_len();
    if m > n {
        return false;
    }
    let tail = s.substring_char(n - m, n);
    proof {
        assert(tail@ =~= s@.skip(n - m));
    }
    str_eq(tail, suffix)
}

} // verus!
