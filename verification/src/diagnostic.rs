//! The diagnostic report: sections of text, code and lists, written as
//! Markdown.

use vstd::prelude::*;

use crate::text::{join, push_str, trim_end};

verus! {

/// A block of code, with the language it is written in.
pub struct Code {
    pub language: Option<String>,
    pub code: String,
}

/// What a section of the report holds.
pub enum DiagnosticEntry {
    Text(String),
    Code(Code),
    List(Vec<DiagnosticEntry>),
}

/// A titled section of the report.
pub struct DiagnosticSection {
    pub title: String,
    pub entry: DiagnosticEntry,
}

/// The sections of the report, in order.
pub struct DiagnosticReport {
    pub sections: Vec<DiagnosticSection>,
}

/// The mathematical value of a [`DiagnosticEntry`].
pub enum EntryView {
    Text(Seq<char>),
    Code(Option<Seq<char>>, Seq<char>),
    List(Seq<EntryView>),
}

/// The mathematical value of an entry.
pub open spec fn entry_view(e: DiagnosticEntry) -> EntryView
    decreases e,
{
    match e {
        DiagnosticEntry::Text(t) => EntryView::Text(t@),
        DiagnosticEntry::Code(c) => EntryView::Code(
            match c.language {
                Some(l) => Some(l@),
                None => None,
            },
            c.code@,
        ),
        DiagnosticEntry::List(es) => EntryView::List(entries_view(es@)),
    }
}

/// The mathematical values of entries.
pub open spec fn entries_view(es: Seq<DiagnosticEntry>) -> Seq<EntryView>
    decreases es,
{
    Seq::new(es.len(), |i: int| if 0 <= i < es.len() { entry_view(es[i]) } else { EntryView::Text(Seq::empty()) })
}

/// The heading of a section.
pub open spec fn section_text(title: Seq<char>) -> Seq<char> {
    "#### "@ + title + "\n\n"@
}

/// The Markdown of an entry: text on a line, code in a fenced block, a list
/// as one `- ` item per entry.
pub open spec fn entry_text(e: EntryView) -> Seq<char>
    decreases e, 0int,
{
    match e {
        EntryView::Text(c) => c + "\n"@,
        EntryView::Code(lang, code) => "```"@ + (match lang {
            Some(l) => l,
            None => Seq::empty(),
        }) + "\n"@ + code + "\n```\n"@,
        EntryView::List(es) => join(list_items(es), "\n"@) + "\n"@,
    }
}

/// The items of a list.
pub open spec fn list_items(es: Seq<EntryView>) -> Seq<Seq<char>>
    decreases es, 1int,
{
    if es.len() == 0 {
        Seq::empty()
    } else {
        list_items(es.subrange(0, es.len() - 1)).push("- "@ + trim_end(entry_text(es[es.len() - 1])))
    }
}

/// The heading of the section `title`.
pub fn format_section(title: &str) -> (r: String)
    ensures
        r@ == section_text(title@),
{
    let mut out = String::new();
    push_str(&mut out, "#### ");
    push_str(&mut out, title);
    push_str(&mut out, "\n\n");
    out
}

/// `s` without its trailing white space, as `str::trim_end` gives it.
pub fn trim_end_str(s: &str) -> (r: &str)
    ensures
        r@ == trim_end(s@),
{
    let n = s.unicode_len();
    let mut j: usize = n;
    proof {
        assert(s@.take(n as int) =~= s@);
    }
    while j > 0 && crate::text::char_is_white_space(s.get_char(j - 1))
        invariant
            n == s@.len(),
            j <= n,
            trim_end(s@) == trim_end(s@.take(j as int)),
        decreases j,
    {
        proof {
            assert(s@.take(j as int).drop_last() =~= s@.take(j - 1));
        }
        j = j - 1;
    }
    proof {
        if j > 0 {
            assert(s@.take(j as int).last() == s@[j - 1]);
        }
    }
    let r = s.substring_char(0, j);
    proof {
        assert(r@ =~= s@.take(j as int));
    }
    r
}

/// The Markdown of `entry`.
pub fn format_entry(entry: &DiagnosticEntry) -> (r: String)
    ensures
        r@ == entry_text(entry_view(*entry)),
    decreases entry,
{
    match entry {
        DiagnosticEntry::Text(content) => {
            let mut out = String::new();
            push_str(&mut out, content.as_str());
            push_str(&mut out, "\n");
            out
        },
        DiagnosticEntry::Code(c) => {
            let mut out = String::new();
            push_str(&mut out, "```");
            match &c.language {
                Some(l) => push_str(&mut out, l.as_str()),
                None => {
                    proof {
                        assert(out@ + Seq::<char>::empty() =~= out@);
                    }
                },
            }
            push_str(&mut out, "\n");
            push_str(&mut out, c.code.as_str());
            push_str(&mut out, "\n```\n");
            out
        },
        DiagnosticEntry::List(entries) => {
            let ghost ev = entries_view(entries@);
            let mut items: Vec<String> = Vec::new();
            let mut i: usize = 0;
            while i < entries.len()
                invariant
                    i <= entries@.len(),
                    *entry == DiagnosticEntry::List(*entries),
                    ev == entries_view(entries@),
                    ev.len() == entries@.len(),
                    items@.len() == i,
                    crate::text::string_views(items@) == list_items(ev.take(i as int)),
                decreases entries@.len() - i,
            {
                proof {
                    assert(decreases_to!(*entry => (*entry)->List_0));
                    assert((*entry)->List_0 == *entries);
                    assert(decreases_to!(*entries => entries@));
                    assert(decreases_to!(entries@ => entries@[i as int]));
                }
                let text = format_entry(&entries[i]);
                let mut item = String::new();
                push_str(&mut item, "- ");
                push_str(&mut item, trim_end_str(text.as_str()));
                let ghost before = items@;
                items.push(item);
                proof {
                    assert(ev.take(i + 1).subrange(0, i as int) =~= ev.take(i as int));
                    assert(ev[i as int] == entry_view(entries@[i as int]));
                    assert(crate::text::string_views(items@) =~= crate::text::string_views(before).push(item@));
                }
                i = i + 1;
            }
            proof {
                assert(ev.take(i as int) =~= ev);
            }
            let mut out = crate::text::join_strings(&items, "\n");
            push_str(&mut out, "\n");
            out
        },
    }
}

/// The text of the report: each section's heading and entry, followed by an
/// empty line, without the white space at the end.
pub open spec fn report_text(sections: Seq<DiagnosticSection>) -> Seq<char> {
    trim_end(sections_text(sections))
}

/// Each section's heading and entry, followed by a line break.
pub open spec fn sections_text(sections: Seq<DiagnosticSection>) -> Seq<char>
    decreases sections.len(),
{
    if sections.len() == 0 {
        Seq::empty()
    } else {
        sections_text(sections.drop_last()) + section_text(sections.last().title@) + entry_text(
            entry_view(sections.last().entry),
        ) + "\n"@
    }
}

impl DiagnosticReport {
    /// The text of the report, as it is printed.
    pub fn render(&self) -> (r: String)
        ensures
            r@ == report_text(self.sections@),
    {
        let mut output = String::new();
        let mut i: usize = 0;
        while i < self.sections.len()
            invariant
                i <= self.sections@.len(),
                output@ == sections_text(self.sections@.take(i as int)),
            decreases self.sections@.len() - i,
        {
            let s = &self.sections[i];
            let head = format_section(s.title.as_str());
            let body = format_entry(&s.entry);
            push_str(&mut output, head.as_str());
            push_str(&mut output, body.as_str());
            push_str(&mut output, "\n");
            proof {
                assert(self.sections@.take(i + 1).drop_last() =~= self.sections@.take(i as int));
            }
            i = i + 1;
        }
        proof {
            assert(self.sections@.take(i as int) =~= self.sections@);
        }
        trim_end_str(output.as_str()).to_owned()
    }
}

/// What was found of the directory of profiles.
#[derive(Clone, Copy, Debug, PartialEq, Eq, Structural)]
pub enum ProfileDirState {
    Missing,
    Unreadable,
    Count(usize),
}

/// Whether a path exists, in words.
pub open spec fn existence(exists: bool) -> Seq<char> {
    if exists {
        "exists"@
    } else {
        "does not exist"@
    }
}

/// The line about the directory of profiles.
pub open spec fn profile_dir_line(dir: Seq<char>, state: ProfileDirState) -> Seq<char> {
    "Profile directory: "@ + dir + match state {
        ProfileDirState::Missing => " (does not exist)"@,
        ProfileDirState::Unreadable => " (cannot read)"@,
        ProfileDirState::Count(n) => " ("@ + crate::date::decimal(n as nat) + " profiles)"@,
    }
}

/// The lines of the configuration section: the configuration directory and
/// whether it exists, the directory of profiles and how many files it holds,
/// and, where there is one, the shell script and whether it exists.
pub open spec fn config_lines(
    config_dir: Seq<char>,
    config_exists: bool,
    profile_dir: Seq<char>,
    state: ProfileDirState,
    script: Option<(Seq<char>, bool)>,
) -> Seq<Seq<char>> {
    seq![
        "Config directory: "@ + config_dir + " ("@ + existence(config_exists) + ")"@,
        profile_dir_line(profile_dir, state),
    ] + match script {
        Some(s) => seq!["Shell script: "@ + s.0 + " ("@ + existence(s.1) + ")"@],
        None => Seq::empty(),
    }
}

fn existence_str(exists: bool) -> (r: &'static str)
    ensures
        r@ == existence(exists),
{
    if exists {
        "exists"
    } else {
        "does not exist"
    }
}

/// The entries of the configuration section.
pub fn get_config_info(
    config_dir: &str,
    config_exists: bool,
    profile_dir: &str,
    state: ProfileDirState,
    script: Option<(&str, bool)>,
) -> (r: Vec<DiagnosticEntry>)
    ensures
        r@.len() == config_lines(config_dir@, config_exists, profile_dir@, state, match script {
            Some(s) => Some((s.0@, s.1)),
            None => None,
        }).len(),
        forall|i: int| 0 <= i < r@.len() ==> ((#[trigger] r@[i]) matches DiagnosticEntry::Text(t) && t@
            == config_lines(config_dir@, config_exists, profile_dir@, state, match script {
                Some(s) => Some((s.0@, s.1)),
                None => None,
            })[i]),
{
    let mut info: Vec<DiagnosticEntry> = Vec::new();
    let mut a = String::new();
    push_str(&mut a, "Config directory: ");
    push_str(&mut a, config_dir);
    push_str(&mut a, " (");
    push_str(&mut a, existence_str(config_exists));
    push_str(&mut a, ")");
    info.push(DiagnosticEntry::Text(a));
    let mut b = String::new();
    push_str(&mut b, "Profile directory: ");
    push_str(&mut b, profile_dir);
    match state {
        ProfileDirState::Missing => push_str(&mut b, " (does not exist)"),
        ProfileDirState::Unreadable => push_str(&mut b, " (cannot read)"),
        ProfileDirState::Count(n) => {
            push_str(&mut b, " (");
            let num = crate::text::decimal_string(n);
            push_str(&mut b, num.as_str());
            push_str(&mut b, " profiles)");
        },
    }
    info.push(DiagnosticEntry::Text(b));
    match script {
        Some((path, exists)) => {
            let mut c = String::new();
            push_str(&mut c, "Shell script: ");
            push_str(&mut c, path);
            push_str(&mut c, " (");
            push_str(&mut c, existence_str(exists));
            push_str(&mut c, ")");
            info.push(DiagnosticEntry::Text(c));
        },
        None => {},
    }
    info
}


/// Whether a POSIX shell reads `c` as itself, outside quotes.
pub open spec fn shell_safe_char(c: char) -> bool {
    ||| ('a' as u32 <= c as u32 && c as u32 <= 'z' as u32)
    ||| ('A' as u32 <= c as u32 && c as u32 <= 'Z' as u32)
    ||| ('0' as u32 <= c as u32 && c as u32 <= '9' as u32)
    ||| c == '-' || c == '_' || c == '=' || c == '/' || c == ',' || c == '.' || c == '+'
}

/// The characters of `s` inside single quotes, with each `'` and `!` closed
/// out of the quotes and escaped.
pub open spec fn quoted_chars(s: Seq<char>) -> Seq<char>
    decreases s.len(),
{
    if s.len() == 0 {
        Seq::empty()
    } else {
        quoted_chars(s.drop_last()) + if s.last() == '\'' || s.last() == '!' {
            seq!['\'', '\\', s.last(), '\'']
        } else {
            seq![s.last()]
        }
    }
}

/// `s` as a POSIX shell reads it back: itself when it is not empty and
/// every character is safe, else in single quotes.
pub open spec fn shell_escaped(s: Seq<char>) -> Seq<char> {
    if s.len() > 0 && (forall|i: int| 0 <= i < s.len() ==> shell_safe_char(#[trigger] s[i])) {
        s
    } else {
        seq!['\''] + quoted_chars(s) + seq!['\'']
    }
}

/// `shell_escape::unix::escape`, the escaping `shell_escape::escape` does on
/// Unix: `s` unchanged when it is not empty and holds only letters, digits
/// and `-_=/,.+`; else `s` in single quotes, each `'` and `!` in it written
/// `'\'` and `'\!'` followed by a quote.
#[verifier::external_body]
fn escape_for_shell(s: &str) -> (r: String)
    ensures
        r@ == shell_escaped(s@),
{
    shell_escape::unix::escape(std::borrow::Cow::Borrowed(s)).into_owned()
}

/// The arguments of a command line, each escaped for the shell.
pub open spec fn escaped_args(args: Seq<String>) -> Seq<Seq<char>> {
    args.map_values(|a: String| shell_escaped(a@))
}

/// The command line `args` as a shell reads it back: each argument escaped,
/// separated by spaces.
pub fn command_line(args: &Vec<String>) -> (r: String)
    ensures
        r@ == join(escaped_args(args@), " "@),
{
    let mut parts: Vec<String> = Vec::new();
    let mut i: usize = 0;
    while i < args.len()
        invariant
            i <= args@.len(),
            crate::text::string_views(parts@) == escaped_args(args@.take(i as int)),
        decreases args@.len() - i,
    {
        let e = escape_for_shell(args[i].as_str());
        proof {
            assert(escaped_args(args@.take(i + 1)) =~= escaped_args(args@.take(i as int)).push(
                shell_escaped(args@[i as int]@),
            ));
            assert(crate::text::string_views(parts@.push(e)) =~= crate::text::string_views(parts@).push(e@));
        }
        parts.push(e);
        i = i + 1;
    }
    proof {
        assert(args@.take(i as int) =~= args@);
    }
    crate::text::join_strings(&parts, " ")
}

/// What the build of the program recorded about itself.
pub struct BuildInfo {
    pub package: String,
    pub version: String,
    pub git_version: String,
    pub build_timestamp: String,
    pub profile: String,
    pub target: String,
    pub family: String,
    pub os: String,
    pub arch: String,
    pub pointer_width: String,
    pub endian: String,
    pub cpu_features: String,
    pub host: String,
}

/// What was found of the machine the program runs on.
pub struct HostInfo {
    /// The long name of the operating system, if it could be read.
    pub os_version: Option<String>,
    /// The version of the kernel, if it could be read.
    pub kernel_version: Option<String>,
    /// The user's shell, where there is one.
    pub shell: Option<String>,
    /// The version of GnuPG.
    pub gnupg: String,
    /// The version of GPGME, where it is reported.
    pub gpgme: Option<String>,
}

/// A value read from the machine, or `Unknown`.
pub open spec fn or_unknown(o: Option<String>) -> Seq<char> {
    match o {
        Some(v) => v@,
        None => "Unknown"@,
    }
}

/// The titles and entries of sections.
pub open spec fn sections_view(s: Seq<DiagnosticSection>) -> Seq<(Seq<char>, EntryView)> {
    s.map_values(|d: DiagnosticSection| (d.title@, entry_view(d.entry)))
}

/// The sections of the report, in order: the software version, the operating
/// system, the shell where there is one, the configuration, the command
/// line, GnuPG, GPGME where it is reported, and what was known at compile
/// time.
pub open spec fn generated_sections(
    b: BuildInfo,
    h: HostInfo,
    config: Seq<EntryView>,
    command: Seq<char>,
) -> Seq<(Seq<char>, EntryView)> {
    seq![
        ("Software version"@, EntryView::List(seq![
            EntryView::Text(b.package@ + " "@ + b.version@ + " ("@ + b.git_version@ + ")"@),
            EntryView::Text("Build timestamp: "@ + b.build_timestamp@),
        ])),
        ("Operating system"@, EntryView::List(seq![
            EntryView::Text("OS: "@ + or_unknown(h.os_version)),
            EntryView::Text("Kernel: "@ + or_unknown(h.kernel_version)),
        ])),
    ] + match h.shell {
        Some(sh) => seq![("Shell"@, EntryView::Text(sh@))],
        None => Seq::empty(),
    } + seq![
        ("Configuration"@, EntryView::List(config)),
        ("Command line"@, EntryView::Code(Some("bash"@), command)),
        ("GnuPG"@, EntryView::Text(h.gnupg@)),
    ] + match h.gpgme {
        Some(g) => seq![("GPGME"@, EntryView::Text(g@))],
        None => Seq::empty(),
    } + seq![
        ("Compile time information"@, EntryView::List(seq![
            EntryView::Text("Profile: "@ + b.profile@),
            EntryView::Text("Target triple: "@ + b.target@),
            EntryView::Text("Family: "@ + b.family@),
            EntryView::Text("OS: "@ + b.os@),
            EntryView::Text("Architecture: "@ + b.arch@),
            EntryView::Text("Pointer width: "@ + b.pointer_width@),
            EntryView::Text("Endian: "@ + b.endian@),
            EntryView::Text("CPU features: "@ + b.cpu_features@),
            EntryView::Text("Host: "@ + b.host@),
        ])),
    ]
}

/// A line of text: `prefix` followed by `value`.
fn text_entry(prefix: &str, value: &str) -> (r: DiagnosticEntry)
    ensures
        entry_view(r) == EntryView::Text(prefix@ + value@),
{
    let mut t = String::new();
    push_str(&mut t, prefix);
    push_str(&mut t, value);
    DiagnosticEntry::Text(t)
}

fn unknown_or(o: &Option<String>) -> (r: &str)
    ensures
        r@ == or_unknown(*o),
{
    match o {
        Some(v) => v.as_str(),
        None => "Unknown",
    }
}

fn push_section(sections: &mut Vec<DiagnosticSection>, title: &str, entry: DiagnosticEntry)
    ensures
        sections_view(final(sections)@) == sections_view(old(sections)@).push((title@, entry_view(entry))),
{
    let ghost before = sections@;
    sections.push(DiagnosticSection { title: title.to_owned(), entry });
    proof {
        assert(sections_view(sections@) =~= sections_view(before).push((title@, entry_view(entry))));
    }
}

impl DiagnosticReport {
    /// The report on the program `build` as it runs on `host`, with the
    /// entries `config` of its configuration and the command line `args` it
    /// was started with.
    pub fn generate(build: &BuildInfo, host: &HostInfo, config: Vec<DiagnosticEntry>, args: &Vec<String>) -> (r: DiagnosticReport)
        ensures
            sections_view(r.sections@) == generated_sections(
                *build,
                *host,
                entries_view(config@),
                join(escaped_args(args@), " "@),
            ),
    {
        let mut sections: Vec<DiagnosticSection> = Vec::new();

        let mut version = String::new();
        push_str(&mut version, build.package.as_str());
        push_str(&mut version, " ");
        push_str(&mut version, build.version.as_str());
        push_str(&mut version, " (");
        push_str(&mut version, build.git_version.as_str());
        push_str(&mut version, ")");
        let e1 = DiagnosticEntry::Text(version);
        let e2 = text_entry("Build timestamp: ", build.build_timestamp.as_str());
        let software = vec![e1, e2];
        proof {
            assert(entries_view(software@) =~= seq![entry_view(e1), entry_view(e2)]);
        }
        push_section(&mut sections, "Software version", DiagnosticEntry::List(software));

        let o1 = text_entry("OS: ", unknown_or(&host.os_version));
        let o2 = text_entry("Kernel: ", unknown_or(&host.kernel_version));
        let system = vec![o1, o2];
        proof {
            assert(entries_view(system@) =~= seq![entry_view(o1), entry_view(o2)]);
        }
        push_section(&mut sections, "Operating system", DiagnosticEntry::List(system));
        let ghost first = sections_view(sections@);

        match &host.shell {
            Some(sh) => push_section(&mut sections, "Shell", DiagnosticEntry::Text(sh.clone())),
            None => {},
        }
        let ghost with_shell = sections_view(sections@);

        let ghost config_view = entries_view(config@);
        push_section(&mut sections, "Configuration", DiagnosticEntry::List(config));
        let code = command_line(args);
        push_section(
            &mut sections,
            "Command line",
            DiagnosticEntry::Code(Code { language: Some("bash".to_owned()), code }),
        );
        push_section(&mut sections, "GnuPG", DiagnosticEntry::Text(host.gnupg.clone()));
        let ghost middle = sections_view(sections@);

        match &host.gpgme {
            Some(g) => push_section(&mut sections, "GPGME", DiagnosticEntry::Text(g.clone())),
            None => {},
        }
        let ghost with_gpgme = sections_view(sections@);

        let c1 = text_entry("Profile: ", build.profile.as_str());
        let c2 = text_entry("Target triple: ", build.target.as_str());
        let c3 = text_entry("Family: ", build.family.as_str());
        let c4 = text_entry("OS: ", build.os.as_str());
        let c5 = text_entry("Architecture: ", build.arch.as_str());
        let c6 = text_entry("Pointer width: ", build.pointer_width.as_str());
        let c7 = text_entry("Endian: ", build.endian.as_str());
        let c8 = text_entry("CPU features: ", build.cpu_features.as_str());
        let c9 = text_entry("Host: ", build.host.as_str());
        let compile = vec![c1, c2, c3, c4, c5, c6, c7, c8, c9];
        proof {
            assert(entries_view(compile@) =~= seq![
                entry_view(c1),
                entry_view(c2),
                entry_view(c3),
                entry_view(c4),
                entry_view(c5),
                entry_view(c6),
                entry_view(c7),
                entry_view(c8),
                entry_view(c9),
            ]);
        }
        push_section(&mut sections, "Compile time information", DiagnosticEntry::List(compile));
        proof {
            let g = generated_sections(*build, *host, config_view, join(escaped_args(args@), " "@));
            assert(sections_view(sections@) =~= g);
        }
        DiagnosticReport { sections }
    }
}

} // verus!
