//! Decisions of the command line: reading `KEY=VALUE` arguments, naming an
//! imported profile, and the line that hooks the shell script into a shell.

use vstd::prelude::*;

use crate::dotenv::pair_of;
use crate::env::EnvView;
use crate::pattern::{pattern_matches, regex_is_match};
use crate::text::{contains, find_from, is_white_space, lemma_find_from, push_str, str_contains};

verus! {

/// A variable given on the command line: `KEY=VALUE`, or only a key whose
/// value is asked for.
pub enum EnvArg {
    Pair(String, String),
    Key(String),
}

/// Reads a variable given on the command line: with a `=`, the key is what
/// comes before the first one and the value what comes after it; without,
/// the whole argument is a key.
pub fn parse_env_arg(arg: &str) -> (r: EnvArg)
    ensures
        arg@.contains('=') ==> (r matches EnvArg::Pair(k, v) && k@ == pair_of(arg@).key && v@ == pair_of(arg@).value),
        !arg@.contains('=') ==> (r matches EnvArg::Key(k) && k@ == arg@),
{
    let n = arg.unicode_len();
    let mut i: usize = 0;
    while i < n && arg.get_char(i) != '='
        invariant
            n == arg@.len(),
            i <= n,
            forall|k: int| 0 <= k < i ==> #[trigger] arg@[k] != '=',
        decreases n - i,
    {
        i = i + 1;
    }
    proof {
        lemma_find_from(arg@, '=', 0, i as int);
    }
    if i < n {
        let k = arg.substring_char(0, i);
        let v = arg.substring_char(i + 1, n);
        proof {
            assert(k@ =~= arg@.take(i as int));
            assert(v@ =~= arg@.skip(i + 1));
            assert(arg@.contains('='));
        }
        EnvArg::Pair(k.to_owned(), v.to_owned())
    } else {
        proof {
            if arg@.contains('=') {
                let j = choose|j: int| 0 <= j < arg@.len() && arg@[j] == '=';
                assert(arg@[j] != '=');
            }
        }
        EnvArg::Key(arg.to_owned())
    }
}

/// The components of a path separated by `/`, without the empty ones and
/// the `.` ones.
pub open spec fn path_components(p: Seq<char>) -> Seq<Seq<char>>
    decreases p.len(),
{
    if p.len() == 0 {
        Seq::empty()
    } else {
        let i = last_slash_of(p);
        proof {
            lemma_last_slash_of(p);
        }
        let last = p.skip(i + 1);
        let before = if i < 0 { Seq::empty() } else { path_components(p.take(i)) };
        if last.len() == 0 || last == "."@ {
            before
        } else {
            before.push(last)
        }
    }
}

/// The position of the last `/` of `s`, or -1 when there is none.
pub open spec fn last_slash_of(s: Seq<char>) -> int
    decreases s.len(),
{
    if s.len() == 0 {
        -1
    } else if s.last() == '/' {
        s.len() - 1
    } else {
        last_slash_of(s.drop_last())
    }
}

pub proof fn lemma_last_slash_of(s: Seq<char>)
    ensures
        -1 <= last_slash_of(s) < s.len(),
        last_slash_of(s) >= 0 ==> s[last_slash_of(s)] == '/',
        forall|j: int| last_slash_of(s) < j < s.len() ==> s[j] != '/',
    decreases s.len(),
{
    if s.len() > 0 && s.last() != '/' {
        lemma_last_slash_of(s.drop_last());
        assert forall|j: int| last_slash_of(s) < j < s.len() implies s[j] != '/' by {
            if j < s.len() - 1 {
                assert(s[j] == s.drop_last()[j]);
            }
        }
    }
}

/// The position of the last `.` of `s`, or -1 when there is none.
pub open spec fn last_dot_of(s: Seq<char>) -> int
    decreases s.len(),
{
    if s.len() == 0 {
        -1
    } else if s.last() == '.' {
        s.len() - 1
    } else {
        last_dot_of(s.drop_last())
    }
}

/// The stem of a file name, as `Path::file_stem` gives it: the name before
/// its last `.`, unless that `.` begins the name; the name `..` has none.
pub open spec fn stem_of(name: Seq<char>) -> Option<Seq<char>> {
    if name == ".."@ {
        None
    } else if last_dot_of(name) <= 0 {
        Some(name)
    } else {
        Some(name.take(last_dot_of(name)))
    }
}

/// The stem of the last component of the path `p`, if it has one.
pub open spec fn file_stem_of(p: Seq<char>) -> Option<Seq<char>> {
    let cs = path_components(p);
    if cs.len() == 0 {
        None
    } else {
        stem_of(cs.last())
    }
}

/// The name an imported profile gets: the name given, else the stem of the
/// source's file name, else `imported`.
pub open spec fn import_name_of(source: Seq<char>, given: Option<Seq<char>>) -> Seq<char> {
    match given {
        Some(n) => n,
        None => match file_stem_of(source) {
            Some(s) => s,
            None => "imported"@,
        },
    }
}

fn last_component(p: &str) -> (r: Option<&str>)
    ensures
        r is None <==> path_components(p@).len() == 0,
        r matches Some(c) ==> c@ == path_components(p@).last(),
    decreases p@.len(),
{
    proof {
        reveal_strlit(".");
    }
    let n = p.unicode_len();
    if n == 0 {
        return None;
    }
    let mut i: usize = n;
    proof {
        lemma_last_slash_of(p@);
        assert(p@.take(n as int) =~= p@);
    }
    while i > 0 && p.get_char(i - 1) != '/'
        invariant
            n == p@.len(),
            i <= n,
            last_slash_of(p@) == last_slash_of(p@.take(i as int)),
        decreases i,
    {
        proof {
            assert(p@.take(i as int).drop_last() =~= p@.take(i - 1));
        }
        i = i - 1;
    }
    proof {
        if i > 0 {
            assert(p@.take(i as int).last() == '/');
        }
        assert(last_slash_of(p@) == i - 1);
    }
    let last = p.substring_char(i, n);
    proof {
        assert(last@ =~= p@.skip(i as int));
    }
    if last.unicode_len() == 0 || crate::text::str_eq(last, ".") {
        if i == 0 {
            return None;
        }
        let before = p.substring_char(0, i - 1);
        proof {
            assert(before@ =~= p@.take(i - 1));
        }
        last_component(before)
    } else {
        proof {
            let before = if i == 0 { Seq::<Seq<char>>::empty() } else { path_components(p@.take(i - 1)) };
            assert(path_components(p@) == before.push(last@));
        }
        Some(last)
    }
}

/// The stem of the file name of the path `p`, as `Path::file_stem` gives it.
pub fn file_stem(p: &str) -> (r: Option<String>)
    ensures
        r is None <==> file_stem_of(p@) is None,
        r matches Some(s) ==> file_stem_of(p@) == Some(s@),
{
    proof {
        reveal_strlit("..");
    }
    match last_component(p) {
        None => None,
        Some(name) => {
            if crate::text::str_eq(name, "..") {
                return None;
            }
            let n = name.unicode_len();
            let mut i: usize = n;
            proof {
                assert(name@.take(n as int) =~= name@);
            }
            while i > 0 && name.get_char(i - 1) != '.'
                invariant
                    n == name@.len(),
                    i <= n,
                    last_dot_of(name@) == last_dot_of(name@.take(i as int)),
                decreases i,
            {
                proof {
                    assert(name@.take(i as int).drop_last() =~= name@.take(i - 1));
                }
                i = i - 1;
            }
            proof {
                if i > 0 {
                    assert(name@.take(i as int).last() == '.');
                }
                assert(last_dot_of(name@) == i - 1);
            }
            if i <= 1 {
                Some(name.to_owned())
            } else {
                let stem = name.substring_char(0, i - 1);
                proof {
                    assert(stem@ =~= name@.take(i - 1));
                }
                Some(stem.to_owned())
            }
        },
    }
}

/// The name an imported profile gets: `given` when there is one, else the
/// stem of the file name of `source`, else `imported`.
pub fn import_profile_name(source: &str, given: Option<String>) -> (r: String)
    ensures
        r@ == import_name_of(source@, match given {
            Some(g) => Some(g@),
            None => None,
        }),
{
    proof {
        reveal_strlit("imported");
    }
    match given {
        Some(g) => g,
        None => match file_stem(source) {
            Some(s) => s,
            None => "imported".to_owned(),
        },
    }
}

/// The lines added to a shell's configuration to load the shell script:
/// through `bass` for fish, with `source` for the others.
pub open spec fn shell_hook_of(config_path: Seq<char>, script_path: Seq<char>) -> Seq<char> {
    if contains(config_path, "fish"@) {
        "\n# envio DO NOT MODIFY\nbass source "@ + script_path + "\n"@
    } else {
        "\n# envio DO NOT MODIFY\nsource "@ + script_path + "\n"@
    }
}

/// The lines added to the shell configuration at `config_path` to load the
/// shell script at `script_path`.
pub fn shell_hook(config_path: &str, script_path: &str) -> (r: String)
    ensures
        r@ == shell_hook_of(config_path@, script_path@),
{
    let mut out = String::new();
    if str_contains(config_path, "fish") {
        push_str(&mut out, "\n# envio DO NOT MODIFY\nbass source ");
    } else {
        push_str(&mut out, "\n# envio DO NOT MODIFY\nsource ");
    }
    push_str(&mut out, script_path);
    push_str(&mut out, "\n");
    out
}

/// The program of an editor command: its first word.
pub open spec fn first_word(s: Seq<char>) -> Seq<char>
    decreases s.len(),
{
    if s.len() == 0 {
        s
    } else if is_white_space(s[0]) {
        first_word(s.drop_first())
    } else {
        word_prefix(s)
    }
}

/// The characters of `s` up to its first white space.
pub open spec fn word_prefix(s: Seq<char>) -> Seq<char>
    decreases s.len(),
{
    if s.len() == 0 || is_white_space(s[0]) {
        Seq::empty()
    } else {
        seq![s[0]] + word_prefix(s.drop_first())
    }
}

/// Whether the editor `editor` is a Vim: the stem of the file name of its
/// program matches `n?vim?`. Without a program it is not.
pub open spec fn editor_is_vim(editor: Seq<char>) -> bool {
    let w = first_word(editor);
    w.len() > 0 && (match file_stem_of(w) {
        Some(stem) => pattern_matches("n?vim?"@, stem) == Ok::<bool, Seq<char>>(true),
        None => false,
    })
}

/// The first word of `s`.
fn first_word_str(s: &str) -> (r: &str)
    ensures
        r@ == first_word(s@),
{
    let n = s.unicode_len();
    let mut i: usize = 0;
    proof {
        assert(s@.skip(0) =~= s@);
    }
    while i < n && crate::text::char_is_white_space(s.get_char(i))
        invariant
            n == s@.len(),
            i <= n,
            first_word(s@) == first_word(s@.skip(i as int)),
        decreases n - i,
    {
        proof {
            assert(s@.skip(i as int).drop_first() =~= s@.skip(i + 1));
        }
        i = i + 1;
    }
    let mut j: usize = i;
    proof {
        assert(s@.skip(i as int).skip(0) =~= s@.skip(i as int));
        if i < n {
            assert(first_word(s@.skip(i as int)) == word_prefix(s@.skip(i as int)));
        } else {
            assert(s@.skip(i as int).len() == 0);
        }
    }
    while j < n && !crate::text::char_is_white_space(s.get_char(j))
        invariant
            n == s@.len(),
            i <= j <= n,
            word_prefix(s@.skip(i as int)) == s@.subrange(i as int, j as int) + word_prefix(s@.skip(j as int)),
        decreases n - j,
    {
        proof {
            assert(s@.skip(j as int).drop_first() =~= s@.skip(j + 1));
            assert(s@.subrange(i as int, j as int) + seq![s@[j as int]] =~= s@.subrange(i as int, j + 1));
        }
        j = j + 1;
    }
    proof {
        assert(word_prefix(s@.skip(j as int)) =~= Seq::<char>::empty());
        assert(s@.subrange(i as int, j as int) + Seq::<char>::empty() =~= s@.subrange(i as int, j as int));
    }
    s.substring_char(i, j)
}

/// Whether the editor command `editor` runs a Vim.
pub fn vim_mode_for(editor: &str) -> (r: bool)
    ensures
        r == editor_is_vim(editor@),
{
    let w = first_word_str(editor);
    if w.unicode_len() == 0 {
        return false;
    }
    match file_stem(w) {
        Some(stem) => match regex_is_match("n?vim?", stem.as_str()) {
            Ok(b) => b,
            Err(_) => false,
        },
        None => false,
    }
}

} // verus!
