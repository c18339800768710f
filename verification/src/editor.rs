//! The text in which a profile's variables are edited in a text editor: how
//! the variables are written out, and how the edited text is read back.

use vstd::prelude::*;

use crate::date::{decimal, format_ymd, parse_ymd, ymd_parsed, ymd_text, Date};
use crate::env::{insert, insert_all, keys_distinct, Env, EnvMap, EnvView};
use crate::error::{Error, Result};
use crate::text::{
    ascii_lower, decimal_string, eq_ignore_ascii_case, find_from, is_trimmed, is_white_space, join,
    join_strings, lemma_find_from, lemma_trim_end_keeps, lemma_trim_start_skip, lines, push_str,
    split_lines, split_words, str_starts_with, starts_with, string_views, trim, trim_end, trim_start, trim_str,
    words,
};

verus! {

// ---------------------------------------------------------------------------
// Writing the variables out.
// ---------------------------------------------------------------------------

/// Each line of `ls` followed by a line break.
pub open spec fn concat_lines(ls: Seq<Seq<char>>) -> Seq<char>
    decreases ls.len(),
{
    if ls.len() == 0 {
        Seq::empty()
    } else {
        concat_lines(ls.drop_last()) + ls.last() + seq!['\n']
    }
}

/// The lines of help that follow the profile's name at the top of the text.
pub open spec fn help_lines() -> Seq<Seq<char>> {
    seq![
        "#"@,
        "# Edit the variables below."@,
        "#"@,
        "# Variable format:"@,
        "#   KEY=VALUE"@,
        "#"@,
        "# Comments:"@,
        "#   One or more lines starting with '#'"@,
        "#   immediately before a variable."@,
        "#"@,
        "# Expiration date:"@,
        "#   # expires: YYYY-MM-DD"@,
        "#   Place it immediately before the variable."@,
        "#"@,
        "# Example:"@,
        "#   # Database credentials"@,
        "#   # Used by the production API"@,
        "#   # expires: 2027-01-01"@,
        "#   DATABASE_URL=postgres://..."@,
        "#"@,
        "# Delete a variable by removing its KEY=VALUE line."@,
        "# To remove a comment or expiration date, delete its corresponding '#' line(s)."@,
        "# ---"@,
    ]
}

/// The lines at the top of the text: the profile's name and how to edit.
pub open spec fn header_lines(name: Seq<char>) -> Seq<Seq<char>> {
    seq!["# Profile: "@ + name] + help_lines()
}

/// A comment line as written: `# ` and the line.
pub open spec fn comment_line(l: Seq<char>) -> Seq<char> {
    "# "@ + l
}

/// Each line after `# `.
pub open spec fn written_comment_lines(ls: Seq<Seq<char>>) -> Seq<Seq<char>> {
    ls.map_values(|l: Seq<char>| comment_line(l))
}

/// The comment lines written for a comment: each of its lines after `# `.
pub open spec fn comment_lines(comment: Option<Seq<char>>) -> Seq<Seq<char>> {
    match comment {
        Some(c) => written_comment_lines(lines(c)),
        None => Seq::empty(),
    }
}

/// The line written for an expiration date, if there is one.
pub open spec fn date_lines(date: Option<Date>) -> Seq<Seq<char>> {
    match date {
        Some(d) => seq!["# expires: "@ + ymd_text(d)],
        None => Seq::empty(),
    }
}

/// The lines written for a variable: its comment, its expiration date, and
/// `KEY=VALUE`, followed by an empty line.
pub open spec fn env_lines(e: EnvView) -> Seq<Seq<char>> {
    comment_lines(e.comment) + date_lines(e.expiration_date) + seq![e.key + "="@ + e.value, Seq::empty()]
}

/// The lines written for the variables, in order.
pub open spec fn envs_lines(es: Seq<EnvView>) -> Seq<Seq<char>>
    decreases es.len(),
{
    if es.len() == 0 {
        Seq::empty()
    } else {
        envs_lines(es.drop_last()) + env_lines(es.last())
    }
}

/// The whole text written for the profile `name` holding `es`.
pub open spec fn edit_text(name: Seq<char>, es: Seq<EnvView>) -> Seq<char> {
    concat_lines(header_lines(name) + envs_lines(es))
}

/// Every expiration date is a date.
pub open spec fn dates_valid(es: Seq<EnvView>) -> bool {
    forall|i: int| 0 <= i < es.len() ==> ((#[trigger] es[i]).expiration_date matches Some(d) ==> d.valid())
}

/// Appends the line `l` and a line break to the text of the lines `ls`.
fn push_line(out: &mut String, l: &str, Ghost(ls): Ghost<Seq<Seq<char>>>)
    requires
        old(out)@ == concat_lines(ls),
    ensures
        final(out)@ == concat_lines(ls.push(l@)),
{
    out.append(l);
    out.append("\n");
    proof {
        reveal_strlit("\n");
        assert(ls.push(l@).drop_last() =~= ls);
    }
}

/// The text of `a + b` is the text of `a` followed by that of `b`.
pub proof fn lemma_concat_lines_append(a: Seq<Seq<char>>, b: Seq<Seq<char>>)
    ensures
        concat_lines(a + b) == concat_lines(a) + concat_lines(b),
    decreases b.len(),
{
    if b.len() == 0 {
        assert(a + b =~= a);
        assert(concat_lines(a) + concat_lines(b) =~= concat_lines(a));
    } else {
        assert((a + b).drop_last() =~= a + b.drop_last());
        lemma_concat_lines_append(a, b.drop_last());
        assert(concat_lines(a + b) =~= concat_lines(a) + concat_lines(b));
    }
}

/// The expiration date of `e`, if it has one, is read back from the text
/// written for it.
pub open spec fn date_reads_back(e: EnvView) -> bool {
    e.expiration_date matches Some(d) ==> ymd_parsed(ymd_text(d)) == Some((d.year, d.month, d.day))
}

/// The expiration date of `e`, if it has one, has a year of four digits.
pub open spec fn four_digit_year(e: EnvView) -> bool {
    e.expiration_date matches Some(d) ==> 0 <= d.year <= 9999
}

/// Appends the lines written for the variable `env` to the text of the
/// lines `before`.
fn write_env(output: &mut String, env: &Env, Ghost(before): Ghost<Seq<Seq<char>>>)
    requires
        old(output)@ == concat_lines(before),
        env.expiration_date matches Some(d) ==> d.valid(),
    ensures
        final(output)@ == concat_lines(before + env_lines(env@)),
        four_digit_year(env@) ==> date_reads_back(env@),
{
    let ghost e = env@;
    let ghost mut done: Seq<Seq<char>> = before;
    match &env.comment {
        Some(comment) => {
            let ls = split_lines(comment.as_str());
            let ghost cl = written_comment_lines(lines(comment@));
            let mut j: usize = 0;
            while j < ls.len()
                invariant
                    j <= ls@.len(),
                    ls@.len() == lines(comment@).len(),
                    forall|k: int| 0 <= k < ls@.len() ==> (#[trigger] ls@[k])@ == lines(comment@)[k],
                    cl == written_comment_lines(lines(comment@)),
                    output@ == concat_lines(before + cl.take(j as int)),
                decreases ls@.len() - j,
            {
                let mut l = String::new();
                push_str(&mut l, "# ");
                push_str(&mut l, ls[j]);
                proof {
                    assert(l@ == cl[j as int]);
                    assert((before + cl.take(j as int)).push(l@) =~= before + cl.take(j + 1));
                }
                push_line(output, l.as_str(), Ghost(before + cl.take(j as int)));
                j = j + 1;
            }
            proof {
                assert(cl.take(j as int) =~= cl);
                done = before + cl;
                assert(cl == comment_lines(e.comment));
            }
        },
        None => {
            proof {
                assert(before + comment_lines(e.comment) =~= before);
            }
        },
    }
    proof {
        assert(done == before + comment_lines(e.comment));
    }
    match &env.expiration_date {
        Some(d) => {
            let mut l = String::new();
            push_str(&mut l, "# expires: ");
            let t = format_ymd(*d);
            push_str(&mut l, t.as_str());
            push_line(output, l.as_str(), Ghost(done));
            proof {
                assert(done.push(l@) =~= done + date_lines(e.expiration_date));
                done = done.push(l@);
            }
        },
        None => {
            proof {
                assert(done + date_lines(e.expiration_date) =~= done);
            }
        },
    }
    let mut kv = String::new();
    push_str(&mut kv, env.key.as_str());
    push_str(&mut kv, "=");
    push_str(&mut kv, env.value.as_str());
    push_line(output, kv.as_str(), Ghost(done));
    push_line(output, "", Ghost(done.push(kv@)));
    proof {
        reveal_strlit("");
        assert(kv@ == e.key + "="@ + e.value);
        assert(""@ =~= Seq::<char>::empty());
        assert(done == before + comment_lines(e.comment) + date_lines(e.expiration_date));
        assert(done.push(kv@).push(""@) =~= before + env_lines(e));
    }
}

/// The text in which the variables of the profile `profile_name` are edited.
/// It is read back as the same variables when the name has no line break,
/// there is a variable, and each variable is written so that it reads back
/// (see [`editable_text`]).
pub fn format_profile_for_editing(profile_name: &str, envs: &EnvMap) -> (r: String)
    requires
        dates_valid(envs@),
    ensures
        r@ == edit_text(profile_name@, envs@),
        (!profile_name@.contains('\n') && (profile_name@.len() == 0 || profile_name@.last() != '\r') && envs@.len() > 0
            && forall|i: int| 0 <= i < envs@.len() ==> editable_text(#[trigger] envs@[i])) ==> read_text(r@)
            == Ok::<Seq<EnvView>, Seq<char>>(envs@),
{
    proof {
        use_type_invariant(envs);
    }
    let mut output = String::new();
    let mut first = String::new();
    push_str(&mut first, "# Profile: ");
    push_str(&mut first, profile_name);
    push_line(&mut output, first.as_str(), Ghost(Seq::empty()));
    let help = vec![
        "#",
        "# Edit the variables below.",
        "#",
        "# Variable format:",
        "#   KEY=VALUE",
        "#",
        "# Comments:",
        "#   One or more lines starting with '#'",
        "#   immediately before a variable.",
        "#",
        "# Expiration date:",
        "#   # expires: YYYY-MM-DD",
        "#   Place it immediately before the variable.",
        "#",
        "# Example:",
        "#   # Database credentials",
        "#   # Used by the production API",
        "#   # expires: 2027-01-01",
        "#   DATABASE_URL=postgres://...",
        "#",
        "# Delete a variable by removing its KEY=VALUE line.",
        "# To remove a comment or expiration date, delete its corresponding '#' line(s).",
        "# ---",
    ];
    let ghost hv = help@.map_values(|s: &str| s@);
    proof {
        assert(hv =~= help_lines());
    }
    let ghost head = seq!["# Profile: "@ + profile_name@];
    proof {
        assert(seq![first@] =~= Seq::<Seq<char>>::empty().push(first@));
    }
    let mut h: usize = 0;
    while h < help.len()
        invariant
            h <= help@.len(),
            hv == help@.map_values(|s: &str| s@),
            output@ == concat_lines(head + hv.take(h as int)),
        decreases help@.len() - h,
    {
        proof {
            assert((head + hv.take(h as int)).push(hv[h as int]) =~= head + hv.take(h + 1));
        }
        push_line(&mut output, help[h], Ghost(head + hv.take(h as int)));
        h = h + 1;
    }
    proof {
        assert(hv.take(h as int) =~= hv);
        assert(head + hv == header_lines(profile_name@));
    }
    let ghost hl = header_lines(profile_name@);
    let ghost es = envs@;
    let n = envs.len();
    let mut i: usize = 0;
    proof {
        assert(hl + envs_lines(es.take(0)) =~= hl);
    }
    while i < n
        invariant
            envs.wf(),
            es == envs@,
            n == es.len(),
            dates_valid(es),
            i <= n,
            hl == header_lines(profile_name@),
            output@ == concat_lines(hl + envs_lines(es.take(i as int))),
            forall|k: int| 0 <= k < i ==> four_digit_year(#[trigger] es[k]) ==> date_reads_back(es[k]),
        decreases n - i,
    {
        let env = envs.get_index(i).unwrap();
        let ghost before = hl + envs_lines(es.take(i as int));
        proof {
            assert(dates_valid(es));
            assert(es[i as int] == env@);
        }
        write_env(&mut output, env, Ghost(before));
        proof {
            let e = es[i as int];
            assert(es.take(i + 1).drop_last() =~= es.take(i as int));
            assert(envs_lines(es.take(i + 1)) == envs_lines(es.take(i as int)) + env_lines(e));
            assert(before + env_lines(e) =~= hl + envs_lines(es.take(i + 1)));
        }
        i = i + 1;
    }
    proof {
        assert(es.take(n as int) =~= es);
        if !profile_name@.contains('\n') && (profile_name@.len() == 0 || profile_name@.last() != '\r') && es.len() > 0
            && forall|k: int| 0 <= k < es.len() ==> editable_text(#[trigger] es[k]) {
            crate::env::lemma_wf_keys_distinct(envs);
            assert forall|k: int| 0 <= k < es.len() implies editable(#[trigger] es[k]) by {
                assert(editable_text(es[k]));
                assert(four_digit_year(es[k]) ==> date_reads_back(es[k]));
            }
            law_edit_round_trip(profile_name@, es);
        }
    }
    output
}

// ---------------------------------------------------------------------------
// Reading the edited text back.
// ---------------------------------------------------------------------------

/// `s` without the `#` characters it begins with.
pub open spec fn strip_hashes(s: Seq<char>) -> Seq<char>
    decreases s.len(),
{
    if s.len() > 0 && s[0] == '#' {
        strip_hashes(s.drop_first())
    } else {
        s
    }
}

/// `s` begins with `expires:`, ASCII letters compared without case. (This is
/// the same as the Unicode lowercase of `s` beginning with `expires:`: no
/// other character lowercases to one that begins with one of these.)
pub open spec fn has_expires_prefix(s: Seq<char>) -> bool {
    s.len() >= 8 && eq_ignore_ascii_case(s.take(8), "expires:"@)
}

/// What a line of the edited text is.
pub enum LineKind {
    /// Nothing but white space.
    Blank,
    /// A line that begins with `# --`: it ends the comments gathered so far.
    Separator,
    /// An expiration date line, with the text that should be a date.
    Expires(Seq<char>),
    /// A comment line, with the comment's text.
    Comment(Seq<char>),
    /// `KEY=VALUE`, both trimmed.
    Pair(Seq<char>, Seq<char>),
    /// `=VALUE` with nothing but white space before the `=`.
    EmptyKey,
    /// Anything else.
    Invalid,
}

/// What the line `line` is.
pub open spec fn line_kind(line: Seq<char>) -> LineKind {
    let t = trim(line);
    if t.len() == 0 {
        LineKind::Blank
    } else if t[0] == '#' {
        if starts_with(t, "# --"@) {
            LineKind::Separator
        } else {
            let c = trim(strip_hashes(t));
            if has_expires_prefix(c) {
                LineKind::Expires(trim(c.skip(8)))
            } else {
                LineKind::Comment(c)
            }
        }
    } else {
        let p = find_from(t, '=', 0);
        if p < t.len() {
            let k = trim(t.take(p));
            if k.len() == 0 {
                LineKind::EmptyKey
            } else {
                LineKind::Pair(k, trim(t.skip(p + 1)))
            }
        } else {
            LineKind::Invalid
        }
    }
}

/// What reading has gathered: the variables, the comment lines and the
/// expiration date waiting for the next variable.
pub struct ReadState {
    pub envs: Seq<EnvView>,
    pub comments: Seq<Seq<char>>,
    pub expiration: Option<Date>,
}

/// The message for a fault on the line at position `idx`.
pub open spec fn line_error(idx: int, m: Seq<char>) -> Seq<char> {
    "Line "@ + decimal((idx + 1) as nat) + ": "@ + m
}

/// The message for a date that does not read.
pub open spec fn date_error(idx: int, d: Seq<char>) -> Seq<char> {
    line_error(idx, "Invalid expiration date format '"@ + d + "'. Expected YYYY-MM-DD"@)
}

/// The message for an empty key.
pub open spec fn empty_key_error(idx: int) -> Seq<char> {
    line_error(idx, "Key cannot be empty in KEY=VALUE pair"@)
}

/// The message for a line that is neither a comment nor `KEY=VALUE`.
pub open spec fn invalid_line_error(idx: int) -> Seq<char> {
    line_error(idx, "Invalid format. Expected KEY=VALUE or a comment line starting with '#'"@)
}

/// The message when no variable was read.
pub open spec fn no_envs_error() -> Seq<char> {
    "No environment variables found in the edited profile."@
}

/// The variable a `KEY=VALUE` line makes, with what was gathered for it.
pub open spec fn gathered_env(st: ReadState, k: Seq<char>, v: Seq<char>) -> EnvView {
    EnvView {
        key: k,
        value: v,
        comment: if st.comments.len() == 0 {
            None
        } else {
            Some(join(st.comments, "\n"@))
        },
        expiration_date: st.expiration,
    }
}

/// Reading the line `line` at position `idx` after `st`.
pub open spec fn read_line(st: ReadState, line: Seq<char>, idx: int) -> std::result::Result<ReadState, Seq<char>> {
    match line_kind(line) {
        LineKind::Blank => Ok(st),
        LineKind::Separator => Ok(ReadState { envs: st.envs, comments: Seq::empty(), expiration: None }),
        LineKind::Expires(d) => match ymd_parsed(d) {
            Some(ymd) => Ok(ReadState {
                envs: st.envs,
                comments: st.comments,
                expiration: Some(Date { year: ymd.0, month: ymd.1, day: ymd.2 }),
            }),
            None => Err(date_error(idx, d)),
        },
        LineKind::Comment(c) => Ok(ReadState { envs: st.envs, comments: st.comments.push(c), expiration: st.expiration }),
        LineKind::Pair(k, v) => Ok(ReadState {
            envs: insert(st.envs, gathered_env(st, k, v)),
            comments: Seq::empty(),
            expiration: None,
        }),
        LineKind::EmptyKey => Err(empty_key_error(idx)),
        LineKind::Invalid => Err(invalid_line_error(idx)),
    }
}

/// The state before any line is read.
pub open spec fn start_state() -> ReadState {
    ReadState { envs: Seq::empty(), comments: Seq::empty(), expiration: None }
}

/// Reading the lines `ls` in turn from `st`, the first at position `first`;
/// reading stops at the first fault.
pub open spec fn read_lines(st: ReadState, ls: Seq<Seq<char>>, first: int) -> std::result::Result<ReadState, Seq<char>>
    decreases ls.len(),
{
    if ls.len() == 0 {
        Ok(st)
    } else {
        match read_lines(st, ls.drop_last(), first) {
            Ok(s) => read_line(s, ls.last(), first + ls.len() - 1),
            Err(m) => Err(m),
        }
    }
}

/// Reading an edited text: the variables, or the message of the first fault.
pub open spec fn read_text(content: Seq<char>) -> std::result::Result<Seq<EnvView>, Seq<char>> {
    match read_lines(start_state(), lines(content), 0) {
        Ok(st) => if st.envs.len() == 0 {
            Err(no_envs_error())
        } else {
            Ok(st.envs)
        },
        Err(m) => Err(m),
    }
}

/// `s` without the `#` characters it begins with.
fn strip_hashes_str(s: &str) -> (r: &str)
    ensures
        r@ == strip_hashes(s@),
{
    let n = s.unicode_len();
    let mut i: usize = 0;
    proof {
        assert(s@.skip(0) =~= s@);
    }
    while i < n && s.get_char(i) == '#'
        invariant
            n == s@.len(),
            i <= n,
            strip_hashes(s@) == strip_hashes(s@.skip(i as int)),
        decreases n - i,
    {
        proof {
            assert(s@.skip(i as int).drop_first() =~= s@.skip(i + 1));
        }
        i = i + 1;
    }
    proof {
        assert(strip_hashes(s@.skip(i as int)) == s@.skip(i as int));
    }
    s.substring_char(i, n)
}

/// Whether `s` begins with `expires:`, ASCII letters compared without case.
fn str_has_expires_prefix(s: &str) -> (r: bool)
    ensures
        r == has_expires_prefix(s@),
{
    if s.unicode_len() < 8 {
        return false;
    }
    let head = s.substring_char(0, 8);
    proof {
        assert(head@ =~= s@.take(8));
    }
    crate::text::str_eq_ignore_ascii_case(head, "expires:")
}

/// The position of the first `=` in `s`, or its length when there is none.
fn find_equal(s: &str) -> (r: usize)
    ensures
        r == find_from(s@, '=', 0),
{
    let n = s.unicode_len();
    let mut i: usize = 0;
    while i < n && s.get_char(i) != '='
        invariant
            n == s@.len(),
            i <= n,
            forall|k: int| 0 <= k < i ==> #[trigger] s@[k] != '=',
        decreases n - i,
    {
        i = i + 1;
    }
    proof {
        lemma_find_from(s@, '=', 0, i as int);
    }
    i
}

/// A line of the edited text, as [`line_kind`] tells them apart.
pub enum Line<'a> {
    Blank,
    Separator,
    Expires(&'a str),
    Comment(&'a str),
    Pair(&'a str, &'a str),
    EmptyKey,
    Invalid,
}

impl<'a> View for Line<'a> {
    type V = LineKind;

    open spec fn view(&self) -> LineKind {
        match self {
            Line::Blank => LineKind::Blank,
            Line::Separator => LineKind::Separator,
            Line::Expires(d) => LineKind::Expires(d@),
            Line::Comment(c) => LineKind::Comment(c@),
            Line::Pair(k, v) => LineKind::Pair(k@, v@),
            Line::EmptyKey => LineKind::EmptyKey,
            Line::Invalid => LineKind::Invalid,
        }
    }
}

/// What the line `line` is.
pub fn classify_line<'a>(line: &'a str) -> (r: Line<'a>)
    ensures
        r@ == line_kind(line@),
{
    let t = trim_str(line);
    if t.is_empty() {
        return Line::Blank;
    }
    if t.get_char(0) == '#' {
        if str_starts_with(t, "# --") {
            return Line::Separator;
        }
        let c = trim_str(strip_hashes_str(t));
        if str_has_expires_prefix(c) {
            let rest = c.substring_char(8, c.unicode_len());
            proof {
                assert(rest@ =~= c@.skip(8));
            }
            Line::Expires(trim_str(rest))
        } else {
            Line::Comment(c)
        }
    } else {
        let p = find_equal(t);
        if p < t.unicode_len() {
            let k = trim_str(t.substring_char(0, p));
            proof {
                assert(t@.subrange(0, p as int) =~= t@.take(p as int));
            }
            if k.is_empty() {
                Line::EmptyKey
            } else {
                let v = trim_str(t.substring_char(p + 1, t.unicode_len()));
                proof {
                    assert(t@.subrange(p + 1, t@.len() as int) =~= t@.skip(p + 1));
                }
                Line::Pair(k, v)
            }
        } else {
            Line::Invalid
        }
    }
}

/// What reading has gathered, as values.
pub struct Reader {
    envs: EnvMap,
    comments: Vec<String>,
    expiration: Option<Date>,
}

impl View for Reader {
    type V = ReadState;

    closed spec fn view(&self) -> ReadState {
        ReadState { envs: self.envs@, comments: string_views(self.comments@), expiration: self.expiration }
    }
}

impl Reader {
    /// Nothing read yet.
    pub fn new() -> (r: Reader)
        ensures
            r@ == start_state(),
            r.wf(),
    {
        let r = Reader { envs: EnvMap::new(), comments: Vec::new(), expiration: None };
        proof {
            assert(r@.comments =~= Seq::<Seq<char>>::empty());
        }
        r
    }

    /// The map of variables is well formed.
    pub closed spec fn wf(&self) -> bool {
        self.envs.wf()
    }

    /// Takes in an expiration date line at position `idx` whose date text is
    /// `date_text`, given what reading that text as a date gave.
    pub fn set_expiration(&mut self, date_text: &str, parsed: Option<Date>, idx: usize) -> (r: Result<()>)
        requires
            idx < usize::MAX,
        ensures
            final(self).wf() == old(self).wf(),
            parsed is Some ==> r is Ok && final(self)@ == (ReadState {
                envs: old(self)@.envs,
                comments: old(self)@.comments,
                expiration: parsed,
            }),
            parsed is None ==> final(self)@ == old(self)@ && (r matches Err(Error::Msg(m)) && m@ == date_error(idx as int, date_text@)),
    {
        match parsed {
            Some(d) => {
                self.expiration = Some(d);
                Ok(())
            },
            None => {
                let mut m = String::new();
                push_str(&mut m, "Line ");
                let num = decimal_string(idx + 1);
                push_str(&mut m, num.as_str());
                push_str(&mut m, ": ");
                push_str(&mut m, "Invalid expiration date format '");
                push_str(&mut m, date_text);
                push_str(&mut m, "'. Expected YYYY-MM-DD");
                proof {
                    assert(m@ =~= date_error(idx as int, date_text@));
                }
                Err(Error::Msg(m))
            },
        }
    }

    /// Reads the line `line` at position `idx`.
    pub fn read_line(&mut self, line: &str, idx: usize) -> (r: Result<()>)
        requires
            idx < usize::MAX,
        ensures
            final(self).wf(),
            r is Ok ==> read_line(old(self)@, line@, idx as int) == Ok::<ReadState, Seq<char>>(final(self)@),
            r matches Err(e) ==> e matches Error::Msg(m) && read_line(old(self)@, line@, idx as int) == Err::<ReadState, Seq<char>>(m@),
    {
        proof {
            use_type_invariant(&self.envs);
        }
        let ghost st = self@;
        match classify_line(line) {
            Line::Blank => Ok(()),
            Line::Separator => {
                self.comments = Vec::new();
                self.expiration = None;
                proof {
                    assert(self@.comments =~= Seq::<Seq<char>>::empty());
                }
                Ok(())
            },
            Line::Expires(d) => {
                let parsed = parse_ymd(d);
                self.set_expiration(d, parsed, idx)
            },
            Line::Comment(c) => {
                self.comments.push(c.to_owned());
                proof {
                    assert(self@.comments =~= st.comments.push(c@));
                }
                Ok(())
            },
            Line::Pair(k, v) => {
                let comment = if self.comments.len() == 0 {
                    None
                } else {
                    Some(join_strings(&self.comments, "\n"))
                };
                let e = Env::new(k.to_owned(), v.to_owned(), comment, self.expiration);
                proof {
                    assert(e@ == gathered_env(st, k@, v@));
                }
                self.envs.insert(e);
                self.comments = Vec::new();
                self.expiration = None;
                proof {
                    assert(self@.comments =~= Seq::<Seq<char>>::empty());
                }
                Ok(())
            },
            Line::EmptyKey => {
                let mut m = String::new();
                push_str(&mut m, "Line ");
                let num = decimal_string(idx + 1);
                push_str(&mut m, num.as_str());
                push_str(&mut m, ": ");
                push_str(&mut m, "Key cannot be empty in KEY=VALUE pair");
                proof {
                    assert(m@ =~= empty_key_error(idx as int));
                }
                Err(Error::Msg(m))
            },
            Line::Invalid => {
                let mut m = String::new();
                push_str(&mut m, "Line ");
                let num = decimal_string(idx + 1);
                push_str(&mut m, num.as_str());
                push_str(&mut m, ": ");
                push_str(&mut m, "Invalid format. Expected KEY=VALUE or a comment line starting with '#'");
                proof {
                    assert(m@ =~= invalid_line_error(idx as int));
                }
                Err(Error::Msg(m))
            },
        }
    }
}

/// Reads the variables back from an edited text: each `KEY=VALUE` line makes
/// a variable, with the comment lines and the expiration date just before it;
/// a later variable with the key of an earlier one replaces it.
pub fn parse_edited_profile(content: &str) -> (r: Result<EnvMap>)
    ensures
        r matches Ok(m) ==> m.wf() && read_text(content@) == Ok::<Seq<EnvView>, Seq<char>>(m@),
        r matches Err(e) ==> e matches Error::Msg(msg) && read_text(content@) == Err::<Seq<EnvView>, Seq<char>>(msg@),
{
    let ls = split_lines(content);
    let ghost lv = lines(content@);
    let mut reader = Reader::new();
    let mut i: usize = 0;
    while i < ls.len()
        invariant
            i <= ls@.len(),
            ls@.len() == lv.len(),
            lv == lines(content@),
            forall|k: int| 0 <= k < ls@.len() ==> (#[trigger] ls@[k])@ == lv[k],
            reader.wf(),
            read_lines(start_state(), lv.take(i as int), 0) == Ok::<ReadState, Seq<char>>(reader@),
        decreases ls@.len() - i,
    {
        proof {
            assert(lv.take(i + 1).drop_last() =~= lv.take(i as int));
        }
        match reader.read_line(ls[i], i) {
            Ok(()) => {},
            Err(e) => {
                proof {
                    assert(read_lines(start_state(), lv.take(i + 1), 0) is Err);
                    lemma_read_lines_err_stays(start_state(), lv, 0, i + 1);
                    assert(lv.take(lv.len() as int) =~= lv);
                }
                return Err(e);
            },
        }
        i = i + 1;
    }
    proof {
        assert(lv.take(i as int) =~= lv);
    }
    if reader.envs.is_empty() {
        proof {
            reveal_strlit("No environment variables found in the edited profile.");
        }
        return Err(Error::Msg("No environment variables found in the edited profile.".to_owned()));
    }
    Ok(reader.envs)
}

/// Once reading has stopped at a fault, more lines keep that fault.
proof fn lemma_read_lines_err_stays(st: ReadState, ls: Seq<Seq<char>>, first: int, n: int)
    requires
        0 <= n <= ls.len(),
        read_lines(st, ls.take(n), first) is Err,
    ensures
        read_lines(st, ls, first) == read_lines(st, ls.take(n), first),
    decreases ls.len() - n,
{
    if n < ls.len() {
        assert(ls.take(n + 1).drop_last() =~= ls.take(n));
        lemma_read_lines_err_stays(st, ls, first, n + 1);
    } else {
        assert(ls.take(n) =~= ls);
    }
}

// ---------------------------------------------------------------------------
// Writing the variables out and reading them back gives them back.
// ---------------------------------------------------------------------------

/// A line that `str::lines` keeps whole: no line break in it, and no
/// carriage return at its end.
pub open spec fn plain_line(l: Seq<char>) -> bool {
    !l.contains('\n') && (l.len() == 0 || l.last() != '\r')
}

/// Written out with line breaks and split again, plain lines come back.
pub proof fn lemma_lines_of_concat(ls: Seq<Seq<char>>)
    requires
        forall|i: int| 0 <= i < ls.len() ==> plain_line(#[trigger] ls[i]),
    ensures
        lines(concat_lines(ls)) == ls,
    decreases ls.len(),
{
    if ls.len() == 0 {
        assert(lines(Seq::<char>::empty()) =~= Seq::<Seq<char>>::empty());
    } else {
        let front = ls.drop_last();
        lemma_lines_of_concat(front);
        let x = concat_lines(front);
        let l = ls.last();
        assert(plain_line(ls[ls.len() - 1]));
        if front.len() > 0 {
            assert(x.last() == '\n');
        }
        crate::text::lemma_lines_append(x, l + seq!['\n']);
        crate::text::lemma_lines_single(l);
        assert(x + (l + seq!['\n']) =~= concat_lines(ls));
        assert(front + seq![l] =~= ls);
    }
}

/// Reading `a + b` is reading `a`, then `b` from where `a` left off.
pub proof fn lemma_read_lines_append(st: ReadState, a: Seq<Seq<char>>, b: Seq<Seq<char>>, first: int)
    ensures
        read_lines(st, a + b, first) == (match read_lines(st, a, first) {
            Ok(s) => read_lines(s, b, first + a.len()),
            Err(m) => Err(m),
        }),
    decreases b.len(),
{
    if b.len() == 0 {
        assert(a + b =~= a);
    } else {
        assert((a + b).drop_last() =~= a + b.drop_last());
        lemma_read_lines_append(st, a, b.drop_last(), first);
        assert((a + b).last() == b.last());
    }
}

/// The letters of `expires:`.
pub open spec fn expires_word() -> Seq<char> {
    seq!['e', 'x', 'p', 'i', 'r', 'e', 's', ':']
}

/// A text that differs from `expires:` at position `i`, ASCII letters
/// compared without case, does not begin with it.
proof fn lemma_not_expires(c: Seq<char>, i: int)
    requires
        0 <= i < 8,
        i < c.len(),
        ascii_lower(c[i]) != ascii_lower(expires_word()[i]),
    ensures
        !has_expires_prefix(c),
{
    reveal_strlit("expires:");
    assert("expires:"@ =~= expires_word());
    if has_expires_prefix(c) {
        assert(ascii_lower(c.take(8)[i]) == ascii_lower("expires:"@[i]));
    }
}

/// What a line that begins with `#` is: `l[k]` is the first character after
/// the `#` and the spaces that follow it.
proof fn lemma_hash_line(l: Seq<char>, k: int)
    requires
        1 <= k < l.len(),
        l[0] == '#',
        l[1] != '#',
        forall|j: int| 1 <= j < k ==> l[j] == ' ',
        !is_white_space(l[k]),
    ensures
        trim(l).len() > k,
        forall|j: int| 0 <= j < trim(l).len() ==> #[trigger] trim(l)[j] == l[j],
        trim(strip_hashes(trim(l))).len() > 0,
        trim(strip_hashes(trim(l)))[0] == l[k],
        !is_white_space(l.last()) ==> trim(l) == l && trim(strip_hashes(trim(l))) == l.skip(k),
        line_kind(l) == (if starts_with(trim(l), "# --"@) {
            LineKind::Separator
        } else if has_expires_prefix(trim(strip_hashes(trim(l)))) {
            LineKind::Expires(trim(trim(strip_hashes(trim(l))).skip(8)))
        } else {
            LineKind::Comment(trim(strip_hashes(trim(l))))
        }),
{
    assert(!is_white_space('#'));
    assert(trim_start(l) == l);
    let t = trim(l);
    lemma_trim_end_keeps(l, k);
    assert(t[0] == '#');
    let d = t.drop_first();
    assert(d[0] == l[1]);
    assert(strip_hashes(t) == strip_hashes(d));
    assert(strip_hashes(d) == d);
    assert forall|j: int| 0 <= j < k - 1 implies is_white_space(#[trigger] d[j]) by {
        assert(d[j] == l[j + 1]);
    }
    lemma_trim_start_skip(d, k - 1);
    assert(d.skip(k - 1) =~= t.skip(k));
    assert(t.skip(k)[0] == l[k]);
    assert(trim_start(t.skip(k)) == t.skip(k));
    let c = trim(strip_hashes(t));
    assert(c == trim_end(t.skip(k)));
    lemma_trim_end_keeps(t.skip(k), 0);
    if !is_white_space(l.last()) {
        assert(trim_end(l) == l);
        assert(t == l);
        assert(l.skip(k).last() == l.last());
        assert(trim_end(l.skip(k)) == l.skip(k));
    }
}

/// A text that begins with `#`, a space and a character other than `-` does
/// not begin with `# --`.
proof fn lemma_not_separator(t: Seq<char>)
    requires
        t.len() >= 3,
        t[2] != '-',
    ensures
        !starts_with(t, "# --"@),
{
    reveal_strlit("# --");
    if starts_with(t, "# --"@) {
        assert(t.take(4)[2] == "# --"@[2]);
    }
}

/// A plain line that begins with `#`, spaces and then `l[k]`, ends with
/// something other than white space, and whose text differs from `expires:`
/// at `w`, is a comment.
proof fn lemma_comment_line(l: Seq<char>, k: int, w: int)
    requires
        1 <= k < l.len(),
        l.len() >= 3,
        l[0] == '#',
        l[1] != '#',
        l[2] != '-',
        forall|j: int| 1 <= j < k ==> l[j] == ' ',
        !is_white_space(l[k]),
        !is_white_space(l.last()),
        0 <= w < 8,
        k + w < l.len(),
        ascii_lower(l[k + w]) != ascii_lower(expires_word()[w]),
    ensures
        line_kind(l) is Comment,
{
    lemma_hash_line(l, k);
    lemma_not_separator(l);
    assert(l.skip(k)[w] == l[k + w]);
    lemma_not_expires(l.skip(k), w);
}

/// The line `#` alone is an empty comment.
proof fn lemma_hash_only_line()
    ensures
        line_kind("#"@) is Comment,
        plain_line("#"@),
{
    reveal_strlit("#");
    let l = "#"@;
    assert(!is_white_space('#'));
    assert(trim_start(l) == l);
    assert(trim_end(l) == l);
    assert(trim(l) == l);
    assert(!starts_with(l, "# --"@)) by {
        reveal_strlit("# --");
    }
    assert(strip_hashes(l) == strip_hashes(l.drop_first()));
    assert(l.drop_first().len() == 0);
    assert(trim(strip_hashes(l)).len() == 0);
}

/// Every line of help is a comment, except the last, which ends the
/// comments; each is a plain line.
proof fn lemma_help_lines()
    ensures
        help_lines().len() == 23,
        forall|i: int| 0 <= i < 22 ==> (#[trigger] line_kind(help_lines()[i])) is Comment,
        line_kind(help_lines()[22]) is Separator,
        forall|i: int| 0 <= i < 23 ==> plain_line(#[trigger] help_lines()[i]),
{
    let h = help_lines();
    lemma_hash_only_line();
    assert(h[0] == "#"@);
    assert(h[1] == "# Edit the variables below."@);
    reveal_strlit("# Edit the variables below.");
    lemma_comment_line("# Edit the variables below."@, 2, 1);
    assert(plain_line("# Edit the variables below."@));
    assert(h[2] == "#"@);
    assert(h[3] == "# Variable format:"@);
    reveal_strlit("# Variable format:");
    lemma_comment_line("# Variable format:"@, 2, 0);
    assert(plain_line("# Variable format:"@));
    assert(h[4] == "#   KEY=VALUE"@);
    reveal_strlit("#   KEY=VALUE");
    lemma_comment_line("#   KEY=VALUE"@, 4, 0);
    assert(plain_line("#   KEY=VALUE"@));
    assert(h[5] == "#"@);
    assert(h[6] == "# Comments:"@);
    reveal_strlit("# Comments:");
    lemma_comment_line("# Comments:"@, 2, 0);
    assert(plain_line("# Comments:"@));
    assert(h[7] == "#   One or more lines starting with '#'"@);
    reveal_strlit("#   One or more lines starting with '#'");
    lemma_comment_line("#   One or more lines starting with '#'"@, 4, 0);
    assert(plain_line("#   One or more lines starting with '#'"@));
    assert(h[8] == "#   immediately before a variable."@);
    reveal_strlit("#   immediately before a variable.");
    lemma_comment_line("#   immediately before a variable."@, 4, 0);
    assert(plain_line("#   immediately before a variable."@));
    assert(h[9] == "#"@);
    assert(h[10] == "# Expiration date:"@);
    reveal_strlit("# Expiration date:");
    lemma_comment_line("# Expiration date:"@, 2, 5);
    assert(plain_line("# Expiration date:"@));
    assert(h[11] == "#   # expires: YYYY-MM-DD"@);
    reveal_strlit("#   # expires: YYYY-MM-DD");
    lemma_comment_line("#   # expires: YYYY-MM-DD"@, 4, 0);
    assert(plain_line("#   # expires: YYYY-MM-DD"@));
    assert(h[12] == "#   Place it immediately before the variable."@);
    reveal_strlit("#   Place it immediately before the variable.");
    lemma_comment_line("#   Place it immediately before the variable."@, 4, 0);
    assert(plain_line("#   Place it immediately before the variable."@));
    assert(h[13] == "#"@);
    assert(h[14] == "# Example:"@);
    reveal_strlit("# Example:");
    lemma_comment_line("# Example:"@, 2, 2);
    assert(plain_line("# Example:"@));
    assert(h[15] == "#   # Database credentials"@);
    reveal_strlit("#   # Database credentials");
    lemma_comment_line("#   # Database credentials"@, 4, 0);
    assert(plain_line("#   # Database credentials"@));
    assert(h[16] == "#   # Used by the production API"@);
    reveal_strlit("#   # Used by the production API");
    lemma_comment_line("#   # Used by the production API"@, 4, 0);
    assert(plain_line("#   # Used by the production API"@));
    assert(h[17] == "#   # expires: 2027-01-01"@);
    reveal_strlit("#   # expires: 2027-01-01");
    lemma_comment_line("#   # expires: 2027-01-01"@, 4, 0);
    assert(plain_line("#   # expires: 2027-01-01"@));
    assert(h[18] == "#   DATABASE_URL=postgres://..."@);
    reveal_strlit("#   DATABASE_URL=postgres://...");
    lemma_comment_line("#   DATABASE_URL=postgres://..."@, 4, 0);
    assert(plain_line("#   DATABASE_URL=postgres://..."@));
    assert(h[19] == "#"@);
    assert(h[20] == "# Delete a variable by removing its KEY=VALUE line."@);
    reveal_strlit("# Delete a variable by removing its KEY=VALUE line.");
    lemma_comment_line("# Delete a variable by removing its KEY=VALUE line."@, 2, 0);
    assert(plain_line("# Delete a variable by removing its KEY=VALUE line."@));
    assert(h[21] == "# To remove a comment or expiration date, delete its corresponding '#' line(s)."@);
    reveal_strlit("# To remove a comment or expiration date, delete its corresponding '#' line(s).");
    lemma_comment_line("# To remove a comment or expiration date, delete its corresponding '#' line(s)."@, 2, 0);
    assert(plain_line("# To remove a comment or expiration date, delete its corresponding '#' line(s)."@));
    assert(h[22] == "# ---"@);
    reveal_strlit("# ---");
    reveal_strlit("# --");
    lemma_hash_line("# ---"@, 2);
    assert("# ---"@.take(4) =~= "# --"@);
    assert(plain_line("# ---"@));
    assert forall|i: int| 0 <= i < 22 implies (#[trigger] line_kind(h[i])) is Comment && plain_line(h[i]) by {
        if i == 0 { assert(line_kind(h[0]) is Comment); assert(plain_line(h[0])); }
        if i == 1 { assert(line_kind(h[1]) is Comment); assert(plain_line(h[1])); }
        if i == 2 { assert(line_kind(h[2]) is Comment); assert(plain_line(h[2])); }
        if i == 3 { assert(line_kind(h[3]) is Comment); assert(plain_line(h[3])); }
        if i == 4 { assert(line_kind(h[4]) is Comment); assert(plain_line(h[4])); }
        if i == 5 { assert(line_kind(h[5]) is Comment); assert(plain_line(h[5])); }
        if i == 6 { assert(line_kind(h[6]) is Comment); assert(plain_line(h[6])); }
        if i == 7 { assert(line_kind(h[7]) is Comment); assert(plain_line(h[7])); }
        if i == 8 { assert(line_kind(h[8]) is Comment); assert(plain_line(h[8])); }
        if i == 9 { assert(line_kind(h[9]) is Comment); assert(plain_line(h[9])); }
        if i == 10 { assert(line_kind(h[10]) is Comment); assert(plain_line(h[10])); }
        if i == 11 { assert(line_kind(h[11]) is Comment); assert(plain_line(h[11])); }
        if i == 12 { assert(line_kind(h[12]) is Comment); assert(plain_line(h[12])); }
        if i == 13 { assert(line_kind(h[13]) is Comment); assert(plain_line(h[13])); }
        if i == 14 { assert(line_kind(h[14]) is Comment); assert(plain_line(h[14])); }
        if i == 15 { assert(line_kind(h[15]) is Comment); assert(plain_line(h[15])); }
        if i == 16 { assert(line_kind(h[16]) is Comment); assert(plain_line(h[16])); }
        if i == 17 { assert(line_kind(h[17]) is Comment); assert(plain_line(h[17])); }
        if i == 18 { assert(line_kind(h[18]) is Comment); assert(plain_line(h[18])); }
        if i == 19 { assert(line_kind(h[19]) is Comment); assert(plain_line(h[19])); }
        if i == 20 { assert(line_kind(h[20]) is Comment); assert(plain_line(h[20])); }
        if i == 21 { assert(line_kind(h[21]) is Comment); assert(plain_line(h[21])); }
    }
}

/// The line that names the profile is a comment, and a plain line when the
/// name has no line break and does not end with a carriage return.
proof fn lemma_name_line(name: Seq<char>)
    requires
        !name.contains('\n'),
        name.len() == 0 || name.last() != '\r',
    ensures
        line_kind("# Profile: "@ + name) is Comment,
        plain_line("# Profile: "@ + name),
{
    reveal_strlit("# Profile: ");
    let l = "# Profile: "@ + name;
    assert(l[0] == '#' && l[1] == ' ' && l[2] == 'P');
    lemma_hash_line(l, 2);
    let t = trim(l);
    assert(t[2] == 'P');
    lemma_not_separator(t);
    let c = trim(strip_hashes(t));
    lemma_not_expires(c, 0);
    assert(!l.contains('\n')) by {
        if l.contains('\n') {
            let j = choose|j: int| 0 <= j < l.len() && l[j] == '\n';
            if j >= 11 {
                assert(name[j - 11] == '\n');
                assert(name.contains('\n'));
            }
        }
    }
    if name.len() > 0 {
        assert(l.last() == name.last());
    }
}

/// A line of a comment that reads back as itself once written after `# `:
/// trimmed, not beginning with `--`, not beginning with `expires:`, with no
/// line break or carriage return in it.
pub open spec fn editable_comment_line(l: Seq<char>) -> bool {
    &&& is_trimmed(l)
    &&& !starts_with(l, "--"@)
    &&& !has_expires_prefix(l)
    &&& !l.contains('\n')
    &&& !l.contains('\r')
}

/// A comment line reads back as the comment line it was written from.
proof fn lemma_comment_line_reads(l: Seq<char>)
    requires
        editable_comment_line(l),
    ensures
        line_kind(comment_line(l)) == LineKind::Comment(l),
        plain_line(comment_line(l)),
{
    reveal_strlit("# ");
    let w = comment_line(l);
    assert(w[0] == '#' && w[1] == ' ');
    assert(!is_white_space('#'));
    assert(!w.contains('\n')) by {
        if w.contains('\n') {
            let j = choose|j: int| 0 <= j < w.len() && w[j] == '\n';
            assert(j >= 2);
            assert(l[j - 2] == '\n');
            assert(l.contains('\n'));
        }
    }
    if l.len() == 0 {
        assert(w =~= seq!['#', ' ']);
        assert(trim_start(w) == w);
        assert(is_white_space(w.last()));
        assert(w.drop_last() =~= seq!['#']);
        assert(trim_end(w) == trim_end(w.drop_last()));
        assert(trim_end(seq!['#']) == seq!['#']);
        let t = trim(w);
        assert(t =~= seq!['#']);
        assert(!starts_with(t, "# --"@)) by {
            reveal_strlit("# --");
        }
        assert(strip_hashes(t) == strip_hashes(t.drop_first()));
        assert(t.drop_first().len() == 0);
        assert(trim(strip_hashes(t)) =~= l);
    } else {
        assert(w[2] == l[0]);
        assert(!is_white_space(l[0]));
        assert(w.last() == l.last());
        lemma_hash_line(w, 2);
        assert(w.skip(2) =~= l);
        if starts_with(w, "# --"@) {
            reveal_strlit("# --");
            reveal_strlit("--");
            assert(w.take(4)[2] == '-' && w.take(4)[3] == '-');
            assert(l.take(2) =~= "--"@);
        }
        assert(l.last() != '\r') by {
            if l.last() == '\r' {
                assert(l.contains('\r'));
            }
        }
    }
}

/// The line written for a date reads back as an expiration date line with
/// the date's text.
proof fn lemma_date_line_reads(d: Date)
    ensures
        line_kind("# expires: "@ + ymd_text(d)) == LineKind::Expires(ymd_text(d)),
        plain_line("# expires: "@ + ymd_text(d)),
{
    reveal_strlit("# expires: ");
    reveal_strlit("expires:");
    crate::date::lemma_ymd_text_chars(d);
    let y = ymd_text(d);
    let l = "# expires: "@ + y;
    assert(l[0] == '#' && l[1] == ' ' && l[2] == 'e');
    assert(!is_white_space(l[2]));
    assert(l.last() == y.last());
    assert(!is_white_space(l.last()));
    lemma_hash_line(l, 2);
    lemma_not_separator(l);
    let c = l.skip(2);
    assert(c.take(8) =~= "expires:"@);
    assert(eq_ignore_ascii_case(c.take(8), "expires:"@));
    let r = c.skip(8);
    assert(r =~= seq![' '] + y);
    assert(y[0] == r[1]);
    assert(crate::date::is_date_char(y[0]));
    assert(!is_white_space(y[0]));
    assert(trim_start(r) == trim_start(r.skip(1)));
    assert(r.skip(1) =~= y);
    assert(trim_start(y) == y);
    assert(trim_end(y) == y);
    assert(!l.contains('\n')) by {
        if l.contains('\n') {
            let j = choose|j: int| 0 <= j < l.len() && l[j] == '\n';
            assert(j >= 11);
            assert(crate::date::is_date_char(y[j - 11]));
        }
    }
}

/// A key that reads back as itself: not empty, trimmed, without `=` or a
/// line break, and not beginning with `#`.
pub open spec fn editable_key(k: Seq<char>) -> bool {
    &&& k.len() > 0
    &&& is_trimmed(k)
    &&& !k.contains('=')
    &&& !k.contains('\n')
    &&& k[0] != '#'
}

/// A value that reads back as itself: trimmed, without a line break.
pub open spec fn editable_value(v: Seq<char>) -> bool {
    is_trimmed(v) && !v.contains('\n')
}

/// The line `KEY=VALUE` reads back as that key and value.
proof fn lemma_pair_line_reads(k: Seq<char>, v: Seq<char>)
    requires
        editable_key(k),
        editable_value(v),
    ensures
        line_kind(k + "="@ + v) == LineKind::Pair(k, v),
        plain_line(k + "="@ + v),
{
    reveal_strlit("=");
    let l = k + "="@ + v;
    assert(l[0] == k[0]);
    assert(l[k.len() as int] == '=');
    assert(!is_white_space('='));
    if v.len() > 0 {
        assert(l.last() == v.last());
    } else {
        assert(l.last() == '=');
    }
    assert(is_trimmed(l));
    crate::text::lemma_trim_of_trimmed(l);
    assert forall|j: int| 0 <= j < k.len() implies #[trigger] l[j] != '=' by {
        assert(l[j] == k[j]);
        if k[j] == '=' {
            assert(k.contains('='));
        }
    }
    lemma_find_from(l, '=', 0, k.len() as int);
    assert(l.take(k.len() as int) =~= k);
    crate::text::lemma_trim_of_trimmed(k);
    assert(l.skip((k.len() + 1) as int) =~= v);
    crate::text::lemma_trim_of_trimmed(v);
    assert(!l.contains('\n')) by {
        if l.contains('\n') {
            let j = choose|j: int| 0 <= j < l.len() && l[j] == '\n';
            if j < k.len() {
                assert(k[j] == '\n');
                assert(k.contains('\n'));
            } else if j > k.len() {
                assert(v[j - k.len() - 1] == '\n');
                assert(v.contains('\n'));
            }
        }
    }
    assert(!is_white_space('\r') == false);
}

/// Joining a first part to the rest puts the separator between them.
proof fn lemma_join_front(a: Seq<char>, rest: Seq<Seq<char>>, sep: Seq<char>)
    requires
        rest.len() > 0,
    ensures
        join(seq![a] + rest, sep) == a + sep + join(rest, sep),
    decreases rest.len(),
{
    let all = seq![a] + rest;
    if rest.len() == 1 {
        assert(all.drop_last() =~= seq![a]);
        assert(join(seq![a], sep) == a);
        assert(join(rest, sep) == rest[0]);
        assert(all.last() == rest[0]);
    } else {
        assert(all.drop_last() =~= seq![a] + rest.drop_last());
        lemma_join_front(a, rest.drop_last(), sep);
        assert(all.last() == rest.last());
        assert(join(all, sep) =~= a + sep + join(rest, sep));
    }
}

/// Joining the lines of a text from `start` on with line breaks gives the
/// text back, when it has no carriage return and does not end with a line
/// break.
proof fn lemma_join_lines_from(c: Seq<char>, start: int)
    requires
        0 <= start < c.len(),
        !c.contains('\r'),
        c.last() != '\n',
    ensures
        join(crate::text::lines_from(c, start), seq!['\n']) == c.subrange(start, c.len() as int),
    decreases c.len() - start,
{
    crate::text::lemma_find_from_bounds(c, '\n', start);
    let i = find_from(c, '\n', start);
    if i >= c.len() {
    } else {
        assert(i != c.len() - 1);
        if i > start {
            assert(c[i - 1] != '\r') by {
                if c[i - 1] == '\r' {
                    assert(c.contains('\r'));
                }
            }
        }
        lemma_join_lines_from(c, i + 1);
        let rest = crate::text::lines_from(c, i + 1);
        assert(rest.len() > 0);
        assert(crate::text::lines_from(c, start) == seq![c.subrange(start, i)] + rest);
        lemma_join_front(c.subrange(start, i), rest, seq!['\n']);
        assert(c.subrange(start, i) + seq!['\n'] + c.subrange(i + 1, c.len() as int) =~= c.subrange(start, c.len() as int));
    }
}

/// A comment that reads back as itself: not empty, not ending with a line
/// break, without carriage returns, each of its lines as
/// [`editable_comment_line`] says.
pub open spec fn editable_comment(c: Seq<char>) -> bool {
    &&& c.len() > 0
    &&& c.last() != '\n'
    &&& !c.contains('\r')
    &&& forall|i: int| 0 <= i < lines(c).len() ==> editable_comment_line(#[trigger] lines(c)[i])
}

/// A variable written so that it reads back as itself: its key, value and
/// comment can be read back, and its expiration date is a date with a year
/// of four digits.
pub open spec fn editable_text(e: EnvView) -> bool {
    &&& editable_key(e.key)
    &&& editable_value(e.value)
    &&& (e.comment matches Some(c) ==> editable_comment(c))
    &&& (e.expiration_date matches Some(d) ==> d.valid() && 0 <= d.year <= 9999)
}

/// A variable that reads back as itself once written out.
pub open spec fn editable(e: EnvView) -> bool {
    &&& editable_key(e.key)
    &&& editable_value(e.value)
    &&& (e.comment matches Some(c) ==> editable_comment(c))
    &&& (e.expiration_date matches Some(d) ==> d.valid() && ymd_parsed(ymd_text(d)) == Some(
        (d.year, d.month, d.day),
    ))
}

/// Reading comment lines adds their comments to those gathered.
proof fn lemma_read_comment_lines(st: ReadState, ls: Seq<Seq<char>>, first: int)
    requires
        forall|i: int| 0 <= i < ls.len() ==> editable_comment_line(#[trigger] ls[i]),
    ensures
        read_lines(st, written_comment_lines(ls), first) == Ok::<ReadState, Seq<char>>(
            ReadState { envs: st.envs, comments: st.comments + ls, expiration: st.expiration },
        ),
        forall|i: int| 0 <= i < ls.len() ==> plain_line(#[trigger] written_comment_lines(ls)[i]),
    decreases ls.len(),
{
    let w = written_comment_lines(ls);
    if ls.len() == 0 {
        assert(st.comments + ls =~= st.comments);
    } else {
        let front = ls.drop_last();
        lemma_read_comment_lines(st, front, first);
        assert(w.drop_last() =~= written_comment_lines(front));
        assert(editable_comment_line(ls[ls.len() - 1]));
        lemma_comment_line_reads(ls.last());
        assert(w.last() == comment_line(ls.last()));
        assert(st.comments + front.push(ls.last()) =~= st.comments + ls);
        assert(front.push(ls.last()) =~= ls);
        assert(st.comments + front + seq![ls.last()] =~= st.comments + ls);
        assert forall|i: int| 0 <= i < ls.len() implies plain_line(#[trigger] w[i]) by {
            if i < ls.len() - 1 {
                assert(w[i] == written_comment_lines(front)[i]);
            }
        }
    }
}

/// The state with nothing gathered for a next variable.
pub open spec fn clean(envs: Seq<EnvView>) -> ReadState {
    ReadState { envs, comments: Seq::empty(), expiration: None }
}

/// The lines written for a variable read back as that variable, from a state
/// with nothing gathered; they are plain lines.
proof fn lemma_read_env(envs: Seq<EnvView>, e: EnvView, first: int)
    requires
        editable(e),
    ensures
        read_lines(clean(envs), env_lines(e), first) == Ok::<ReadState, Seq<char>>(clean(insert(envs, e))),
        forall|i: int| 0 <= i < env_lines(e).len() ==> plain_line(#[trigger] env_lines(e)[i]),
{
    let st = clean(envs);
    let cl = comment_lines(e.comment);
    let dl = date_lines(e.expiration_date);
    let kv = seq![e.key + "="@ + e.value, Seq::<char>::empty()];
    assert(env_lines(e) == cl + dl + kv);
    // the comment
    let st1 = ReadState {
        envs,
        comments: match e.comment {
            Some(c) => lines(c),
            None => Seq::empty(),
        },
        expiration: None,
    };
    match e.comment {
        Some(c) => {
            lemma_read_comment_lines(st, lines(c), first);
            assert(st.comments + lines(c) =~= lines(c));
        },
        None => {
            assert(cl =~= Seq::<Seq<char>>::empty());
        },
    }
    assert(read_lines(st, cl, first) == Ok::<ReadState, Seq<char>>(st1));
    // the expiration date
    let st2 = ReadState { envs, comments: st1.comments, expiration: e.expiration_date };
    match e.expiration_date {
        Some(d) => {
            lemma_date_line_reads(d);
            let l = "# expires: "@ + ymd_text(d);
            assert(dl == seq![l]);
            assert(dl.drop_last() =~= Seq::<Seq<char>>::empty());
            assert(read_lines(st1, dl.drop_last(), first + cl.len()) == Ok::<ReadState, Seq<char>>(st1));
            assert(read_lines(st1, dl, first + cl.len()) == read_line(st1, l, first + cl.len()));
        },
        None => {
            assert(dl =~= Seq::<Seq<char>>::empty());
        },
    }
    assert(read_lines(st1, dl, first + cl.len()) == Ok::<ReadState, Seq<char>>(st2));
    // the key and value, then the empty line
    lemma_pair_line_reads(e.key, e.value);
    let g = gathered_env(st2, e.key, e.value);
    match e.comment {
        Some(c) => {
            assert(lines(c).len() > 0) by {
                assert(crate::text::lines_from(c, 0).len() > 0);
            }
            lemma_join_lines_from(c, 0);
            reveal_strlit("\n");
            assert("\n"@ =~= seq!['\n']);
            assert(c.subrange(0, c.len() as int) =~= c);
        },
        None => {},
    }
    assert(g == e);
    let st3 = clean(insert(envs, e));
    assert(trim(Seq::<char>::empty()) =~= Seq::<char>::empty());
    assert(line_kind(Seq::<char>::empty()) == LineKind::Blank);
    let kvl = e.key + "="@ + e.value;
    let base = first + cl.len() + dl.len();
    assert(kv.drop_last() =~= seq![kvl]);
    assert(seq![kvl].drop_last() =~= Seq::<Seq<char>>::empty());
    assert(read_lines(st2, Seq::<Seq<char>>::empty(), base) == Ok::<ReadState, Seq<char>>(st2));
    assert(read_line(st2, kvl, base) == Ok::<ReadState, Seq<char>>(st3));
    assert(read_lines(st2, seq![kvl], base) == Ok::<ReadState, Seq<char>>(st3));
    assert(read_line(st3, Seq::<char>::empty(), base + 1) == Ok::<ReadState, Seq<char>>(st3));
    assert(read_lines(st2, kv, first + cl.len() + dl.len()) == Ok::<ReadState, Seq<char>>(st3));
    lemma_read_lines_append(st, cl, dl, first);
    lemma_read_lines_append(st, cl + dl, kv, first);
    assert forall|i: int| 0 <= i < env_lines(e).len() implies plain_line(#[trigger] env_lines(e)[i]) by {
        if i < cl.len() {
            match e.comment {
                Some(c) => {
                    assert(cl[i] == written_comment_lines(lines(c))[i]);
                },
                None => {},
            }
        } else if i < cl.len() + dl.len() {
            match e.expiration_date {
                Some(d) => {
                    lemma_date_line_reads(d);
                },
                None => {},
            }
        } else if i == cl.len() + dl.len() {
        } else {
            assert(env_lines(e)[i] == Seq::<char>::empty());
        }
    }
}

/// The lines written for variables read back as those variables set in
/// turn, from a state with nothing gathered; they are plain lines.
proof fn lemma_read_envs(envs: Seq<EnvView>, es: Seq<EnvView>, first: int)
    requires
        forall|i: int| 0 <= i < es.len() ==> editable(#[trigger] es[i]),
    ensures
        read_lines(clean(envs), envs_lines(es), first) == Ok::<ReadState, Seq<char>>(clean(insert_all(envs, es))),
        forall|i: int| 0 <= i < envs_lines(es).len() ==> plain_line(#[trigger] envs_lines(es)[i]),
    decreases es.len(),
{
    if es.len() == 0 {
        assert(envs_lines(es) =~= Seq::<Seq<char>>::empty());
    } else {
        let front = es.drop_last();
        assert forall|i: int| 0 <= i < front.len() implies editable(#[trigger] front[i]) by {
            assert(front[i] == es[i]);
        }
        lemma_read_envs(envs, front, first);
        assert(editable(es[es.len() - 1]));
        let a = envs_lines(front);
        lemma_read_env(insert_all(envs, front), es.last(), first + a.len());
        lemma_read_lines_append(clean(envs), a, env_lines(es.last()), first);
        assert forall|i: int| 0 <= i < envs_lines(es).len() implies plain_line(#[trigger] envs_lines(es)[i]) by {
            if i < a.len() {
                assert(envs_lines(es)[i] == a[i]);
            } else {
                assert(envs_lines(es)[i] == env_lines(es.last())[i - a.len()]);
            }
        }
    }
}

/// Reading comment lines keeps the variables and succeeds.
proof fn lemma_read_comments_only(st: ReadState, ls: Seq<Seq<char>>, first: int)
    requires
        forall|i: int| 0 <= i < ls.len() ==> (#[trigger] line_kind(ls[i])) is Comment,
    ensures
        read_lines(st, ls, first) is Ok,
        read_lines(st, ls, first)->Ok_0.envs == st.envs,
    decreases ls.len(),
{
    if ls.len() > 0 {
        assert forall|i: int| 0 <= i < ls.drop_last().len() implies (#[trigger] line_kind(ls.drop_last()[i])) is Comment by {
            assert(ls.drop_last()[i] == ls[i]);
        }
        lemma_read_comments_only(st, ls.drop_last(), first);
        assert(line_kind(ls[ls.len() - 1]) is Comment);
    }
}

/// The top of the text reads as nothing gathered; its lines are plain.
proof fn lemma_read_header(name: Seq<char>)
    requires
        !name.contains('\n'),
        name.len() == 0 || name.last() != '\r',
    ensures
        read_lines(start_state(), header_lines(name), 0) == Ok::<ReadState, Seq<char>>(clean(Seq::empty())),
        forall|i: int| 0 <= i < header_lines(name).len() ==> plain_line(#[trigger] header_lines(name)[i]),
{
    lemma_name_line(name);
    lemma_help_lines();
    let h = header_lines(name);
    let body = h.drop_last();
    assert(h.len() == 24);
    assert forall|i: int| 0 <= i < body.len() implies (#[trigger] line_kind(body[i])) is Comment by {
        if i > 0 {
            assert(body[i] == help_lines()[i - 1]);
            assert(line_kind(help_lines()[i - 1]) is Comment);
        }
    }
    lemma_read_comments_only(start_state(), body, 0);
    assert(h.last() == help_lines()[22]);
    assert forall|i: int| 0 <= i < h.len() implies plain_line(#[trigger] h[i]) by {
        if i > 0 {
            assert(h[i] == help_lines()[i - 1]);
        }
    }
}

/// Writing a profile's variables out for editing and reading the text back
/// unchanged gives the same variables, in the same order. The variables are
/// those the text can carry: keys without `=` that do not begin with `#`,
/// trimmed keys and values on one line, comments whose lines are trimmed and
/// do not look like an expiration date or `# --`, and dates that the date
/// reader reads back from the text the date writer gives.
pub proof fn law_edit_round_trip(name: Seq<char>, es: Seq<EnvView>)
    requires
        !name.contains('\n'),
        name.len() == 0 || name.last() != '\r',
        es.len() > 0,
        keys_distinct(es),
        forall|i: int| 0 <= i < es.len() ==> editable(#[trigger] es[i]),
    ensures
        read_text(edit_text(name, es)) == Ok::<Seq<EnvView>, Seq<char>>(es),
{
    let h = header_lines(name);
    let b = envs_lines(es);
    lemma_read_header(name);
    lemma_read_envs(Seq::empty(), es, h.len() as int);
    assert forall|i: int| 0 <= i < (h + b).len() implies plain_line(#[trigger] (h + b)[i]) by {
        if i < h.len() {
            assert((h + b)[i] == h[i]);
        } else {
            assert((h + b)[i] == b[i - h.len()]);
        }
    }
    lemma_lines_of_concat(h + b);
    lemma_read_lines_append(start_state(), h, b, 0);
    crate::env::lemma_insert_all_distinct(es);
}


// ---------------------------------------------------------------------------
// The editing session.
// ---------------------------------------------------------------------------

/// The program and arguments of the editor command in `EDITOR`, given as
/// `editor` (`None` when the variable is not set): the words of the command.
pub fn editor_command(editor: Option<String>) -> (r: Result<(String, Vec<String>)>)
    ensures
        editor is None ==> (r matches Err(Error::Msg(m)) && m@
            == "EDITOR environment variable is not set. Please set it to your preferred text editor"@),
        editor matches Some(e) ==> (r is Err <==> words(e@).len() == 0),
        editor matches Some(e) ==> (words(e@).len() == 0 ==> (r matches Err(Error::Msg(m)) && m@
            == "No text editor found"@)),
        r matches Ok((p, args)) ==> (editor matches Some(e) && p@ == words(e@)[0] && string_views(args@)
            == words(e@).skip(1)),
{
    match editor {
        None => Err(
            Error::Msg(
                "EDITOR environment variable is not set. Please set it to your preferred text editor".to_owned(),
            ),
        ),
        Some(e) => {
            let parts = split_words(e.as_str());
            if parts.len() == 0 {
                return Err(Error::Msg("No text editor found".to_owned()));
            }
            match crate::commands::split_command(&parts) {
                Ok((p, args)) => {
                    proof {
                        assert(string_views(parts@).skip(1) =~= string_views(parts@.skip(1)));
                    }
                    Ok((p, args))
                },
                Err(err) => Err(err),
            }
        },
    }
}

/// The name of the file a profile is edited in, for the identifier `id`.
pub open spec fn edit_file_name_of(id: Seq<char>) -> Seq<char> {
    "envio-edit-"@ + id + ".txt"@
}

/// `uuid::Uuid::new_v4`, written as text: a random identifier, of which
/// nothing is stated.
#[verifier::external_body]
fn random_id() -> (r: String) {
    uuid::Uuid::new_v4().to_string()
}

/// A fresh name for the file a profile is edited in, made of a random
/// identifier.
pub fn edit_file_name() -> (r: String)
    ensures
        exists|id: Seq<char>| r@ == edit_file_name_of(id),
{
    let id = random_id();
    let mut out = String::new();
    push_str(&mut out, "envio-edit-");
    push_str(&mut out, id.as_str());
    push_str(&mut out, ".txt");
    assert(out@ == edit_file_name_of(id@));
    out
}

/// What happened last in an editing session.
pub enum EditorEvent {
    /// The editor exited: whether it succeeded, and its exit code if it had one.
    Exited(bool, Option<i32>),
    /// The edited file holds this text.
    Read(String),
    /// After an error, the user chose this answer.
    Chose(String),
}

/// What an editing session does next.
pub enum EditorStep {
    /// Read the file the editor wrote.
    ReadFile,
    /// Show the error and ask whether to edit again or abort.
    Ask(Error),
    /// Open the editor on the file again.
    Launch,
    /// The edit is done: these are the new variables.
    Done(EnvMap),
    /// The edit ends with this error.
    Fail(Error),
}

/// The answers offered after an edit that could not be read.
pub open spec fn retry_options_of() -> Seq<Seq<char>> {
    seq!["Re-edit the file"@, "Abort (discard changes)"@]
}

/// The answers offered after an edit that could not be read.
pub fn retry_options() -> (r: Vec<String>)
    ensures
        string_views(r@) == retry_options_of(),
{
    let r = vec!["Re-edit the file".to_owned(), "Abort (discard changes)".to_owned()];
    assert(string_views(r@) =~= retry_options_of());
    r
}

/// The next step of an editing session after `event`: an editor that failed
/// ends it, one that succeeded has its file read; text that reads as a
/// profile ends it with its variables, other text has the user asked; the
/// answer `Abort (discard changes)` ends it, any other opens the editor
/// again.
pub fn editor_step(event: EditorEvent) -> (r: EditorStep)
    ensures
        event matches EditorEvent::Exited(ok, code) ==> (ok ==> r is ReadFile),
        event matches EditorEvent::Exited(ok, code) ==> (!ok ==> (r matches EditorStep::Fail(Error::Msg(m))
            && m@ == "Editor exited with error code: "@ + crate::text::signed_decimal(
            match code {
                Some(c) => c as int,
                None => 1,
            },
        ))),
        event matches EditorEvent::Read(t) ==> (read_text(t@) is Ok <==> r is Done),
        event matches EditorEvent::Read(t) ==> (r matches EditorStep::Done(m) ==> m.wf() && read_text(t@)
            == Ok::<Seq<EnvView>, Seq<char>>(m@)),
        event matches EditorEvent::Read(t) ==> (read_text(t@) is Err ==> (r matches EditorStep::Ask(
            Error::Msg(msg),
        ) && read_text(t@) == Err::<Seq<EnvView>, Seq<char>>(msg@))),
        event matches EditorEvent::Chose(c) ==> (c@ == "Abort (discard changes)"@ ==> (r matches EditorStep::Fail(
            Error::Msg(m),
        ) && m@ == "Edit aborted"@)),
        event matches EditorEvent::Chose(c) ==> (c@ != "Abort (discard changes)"@ ==> r is Launch),
{
    match event {
        EditorEvent::Exited(ok, code) => {
            if ok {
                EditorStep::ReadFile
            } else {
                let n: i32 = match code {
                    Some(c) => c,
                    None => 1,
                };
                let mut m = String::new();
                push_str(&mut m, "Editor exited with error code: ");
                let d = crate::text::signed_decimal_string(n);
                push_str(&mut m, d.as_str());
                EditorStep::Fail(Error::Msg(m))
            }
        },
        EditorEvent::Read(t) => match parse_edited_profile(t.as_str()) {
            Ok(m) => EditorStep::Done(m),
            Err(e) => EditorStep::Ask(e),
        },
        EditorEvent::Chose(c) => {
            if crate::text::str_eq(c.as_str(), "Abort (discard changes)") {
                EditorStep::Fail(Error::Msg("Edit aborted".to_owned()))
            } else {
                EditorStep::Launch
            }
        },
    }
}

} // verus!
