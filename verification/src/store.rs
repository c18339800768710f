//! Where profiles are stored, which files are profiles, and the texts the
//! command line writes for a profile: the exported variables and the shell
//! script that loads them.

use vstd::prelude::*;

use crate::date::Date;
use crate::env::{EnvMap, EnvView};
use crate::error::{Error, Result};
use crate::text::{
    contains, ends_with, push_str, starts_with, str_contains, str_contains_char, str_ends_with,
    str_eq, str_starts_with,
};

verus! {

/// Whether `s` holds a path separator, `/` or `\`.
pub fn contains_path_separator(s: &str) -> (r: bool)
    ensures
        r == (s@.contains('/') || s@.contains('\\')),
{
    str_contains_char(s, '/') || str_contains_char(s, '\\')
}

/// The path `p` taken from the directory `base`, with `/` between them: an
/// absolute `p` stands alone.
pub open spec fn join_path(base: Seq<char>, p: Seq<char>) -> Seq<char> {
    if p.len() > 0 && p[0] == '/' {
        p
    } else if base.len() == 0 || base.last() == '/' {
        base + p
    } else {
        base + seq!['/'] + p
    }
}

/// The path `p` taken from the directory `base`.
pub fn join_path_str(base: &str, p: &str) -> (r: String)
    ensures
        r@ == join_path(base@, p@),
{
    let mut out = String::new();
    if p.unicode_len() > 0 && p.get_char(0) == '/' {
        push_str(&mut out, p);
        return out;
    }
    push_str(&mut out, base);
    let n = base.unicode_len();
    if !(n == 0 || base.get_char(n - 1) == '/') {
        push_str(&mut out, "/");
        proof {
            reveal_strlit("/");
            assert("/"@ =~= seq!['/']);
        }
    }
    push_str(&mut out, p);
    out
}

/// The directory of profiles under the home directory `home`.
pub open spec fn profile_dir_of(home: Seq<char>) -> Seq<char> {
    join_path(join_path(home, ".envio"@), "profiles"@)
}

/// The file of the profile `name` in the directory of profiles `dir`.
pub open spec fn profile_path_in(dir: Seq<char>, name: Seq<char>) -> Seq<char> {
    join_path(dir, name + ".env"@)
}

/// `dirs::home_dir`, which looks the home directory up in the environment;
/// it is given as text when it is valid Unicode. Nothing is stated of it.
#[verifier::external_body]
fn home_dir() -> (r: Option<String>) {
    match dirs::home_dir() {
        Some(p) => match p.to_str() {
            Some(s) => Some(s.to_owned()),
            None => None,
        },
        None => None,
    }
}

/// The directory of profiles under the home directory `home`.
pub fn profile_dir_for(home: &str) -> (r: String)
    ensures
        r@ == profile_dir_of(home@),
{
    let base = join_path_str(home, ".envio");
    join_path_str(base.as_str(), "profiles")
}

/// The directory of profiles, under the user's home directory; nothing when
/// the home directory cannot be found.
pub fn get_profile_dir() -> (r: Option<String>)
    ensures
        r matches Some(d) ==> exists|h: Seq<char>| d@ == profile_dir_of(h),
{
    match home_dir() {
        Some(h) => Some(profile_dir_for(h.as_str())),
        None => None,
    }
}

/// The file of the profile `name` in the directory of profiles `dir`.
pub fn profile_path_for(dir: &str, name: &str) -> (r: String)
    ensures
        r@ == profile_path_in(dir@, name@),
{
    let mut file = String::new();
    push_str(&mut file, name);
    push_str(&mut file, ".env");
    join_path_str(dir, file.as_str())
}

/// The file of the profile `name`, which may not exist yet; nothing when the
/// home directory cannot be found.
pub fn build_profile_path(name: &str) -> (r: Option<String>)
    ensures
        r matches Some(p) ==> exists|h: Seq<char>| p@ == profile_path_in(profile_dir_of(h), name@),
{
    match get_profile_dir() {
        Some(d) => Some(profile_path_for(d.as_str(), name)),
        None => None,
    }
}

/// The position of the last `.` in `s`, if any.
pub open spec fn last_dot(s: Seq<char>) -> int
    decreases s.len(),
{
    if s.len() == 0 {
        -1
    } else if s.last() == '.' {
        s.len() - 1
    } else {
        last_dot(s.drop_last())
    }
}

proof fn lemma_last_dot(s: Seq<char>)
    ensures
        -1 <= last_dot(s) < s.len(),
        last_dot(s) >= 0 ==> s[last_dot(s)] == '.',
        forall|j: int| last_dot(s) < j < s.len() ==> s[j] != '.',
    decreases s.len(),
{
    if s.len() > 0 && s.last() != '.' {
        lemma_last_dot(s.drop_last());
        assert forall|j: int| last_dot(s) < j < s.len() implies s[j] != '.' by {
            if j < s.len() - 1 {
                assert(s[j] == s.drop_last()[j]);
            }
        }
    }
}

/// The name of the profile stored in the file `file_name`: the file's stem
/// when its extension is `env` (as `Path::extension` finds it: after the last
/// `.`, unless that `.` begins the name) and the stem does not begin with `.`.
pub open spec fn profile_name_of(file_name: Seq<char>) -> Option<Seq<char>> {
    let i = last_dot(file_name);
    if i <= 0 {
        None
    } else if file_name.skip(i + 1) != "env"@ {
        None
    } else if file_name[0] == '.' {
        None
    } else {
        Some(file_name.take(i))
    }
}

/// The name of the profile stored in the file `file_name`, if it is a
/// profile file.
pub fn profile_name_from_file(file_name: &str) -> (r: Option<String>)
    ensures
        r matches Some(n) ==> profile_name_of(file_name@) == Some(n@),
        r is None ==> profile_name_of(file_name@) is None,
{
    let n = file_name.unicode_len();
    let mut i: usize = n;
    proof {
        lemma_last_dot(file_name@);
        assert(file_name@.take(n as int) =~= file_name@);
    }
    while i > 0 && file_name.get_char(i - 1) != '.'
        invariant
            n == file_name@.len(),
            i <= n,
            last_dot(file_name@) == last_dot(file_name@.take(i as int)),
        decreases i,
    {
        proof {
            assert(file_name@.take(i as int).drop_last() =~= file_name@.take(i - 1));
        }
        i = i - 1;
    }
    // `i` is one past the last dot, or 0 when there is none
    if i <= 1 {
        proof {
            if i == 1 {
                assert(file_name@.take(1).last() == '.');
            }
        }
        return None;
    }
    let dot = i - 1;
    proof {
        assert(file_name@.take(i as int).last() == '.');
        assert(last_dot(file_name@) == dot);
    }
    let ext = file_name.substring_char(i, n);
    proof {
        assert(ext@ =~= file_name@.skip(i as int));
    }
    if !str_eq(ext, "env") {
        return None;
    }
    if file_name.get_char(0) == '.' {
        return None;
    }
    let stem = file_name.substring_char(0, dot);
    proof {
        assert(stem@ =~= file_name@.take(dot as int));
    }
    Some(stem.to_owned())
}

/// The shell configuration file, under the home directory, of the shell at
/// `shell_path`: the last part of the path is looked for `bash`, `zsh` and
/// `fish` in that order; nothing is known of other shells.
pub open spec fn shell_config_of(shell_path: Seq<char>) -> Seq<char> {
    let shell = shell_path.skip(last_slash(shell_path) + 1);
    if contains(shell, "bash"@) {
        ".bashrc"@
    } else if contains(shell, "zsh"@) {
        ".zshrc"@
    } else if contains(shell, "fish"@) {
        ".config/fish/config.fish"@
    } else {
        ""@
    }
}

/// The position of the last `/` in `s`, or -1 when there is none.
pub open spec fn last_slash(s: Seq<char>) -> int
    decreases s.len(),
{
    if s.len() == 0 {
        -1
    } else if s.last() == '/' {
        s.len() - 1
    } else {
        last_slash(s.drop_last())
    }
}

/// The shell configuration file of the shell at `shell_path`.
pub fn shell_config_for(shell_path: &str) -> (r: &'static str)
    ensures
        r@ == shell_config_of(shell_path@),
{
    let n = shell_path.unicode_len();
    let mut i: usize = n;
    proof {
        assert(shell_path@.take(n as int) =~= shell_path@);
    }
    while i > 0 && shell_path.get_char(i - 1) != '/'
        invariant
            n == shell_path@.len(),
            i <= n,
            last_slash(shell_path@) == last_slash(shell_path@.take(i as int)),
        decreases i,
    {
        proof {
            assert(shell_path@.take(i as int).drop_last() =~= shell_path@.take(i - 1));
        }
        i = i - 1;
    }
    proof {
        if i > 0 {
            assert(shell_path@.take(i as int).last() == '/');
        }
        assert(last_slash(shell_path@) + 1 == i);
    }
    let shell = shell_path.substring_char(i, n);
    proof {
        assert(shell@ =~= shell_path@.skip(i as int));
    }
    if str_contains(shell, "bash") {
        ".bashrc"
    } else if str_contains(shell, "zsh") {
        ".zshrc"
    } else if str_contains(shell, "fish") {
        ".config/fish/config.fish"
    } else {
        ""
    }
}

/// The text of the shell script that loads the profile `p`.
pub open spec fn shellscript_of(p: Seq<char>) -> Seq<char> {
    "#!/bin/bash\n# This script was generated by envio and should not be modified!\n\nraw_output=$(envio profile show "@
        + p
        + " --no-pretty-print)\n\nif ! echo \"$raw_output\" | grep -q \"=\"; then\n    echo -e \"\\e[31mError: \\e[0mFailed to load environment variables from profile '"@
        + p
        + "'\" >&2\n    return 1 2>/dev/null || exit 1\nfi\n\nENV_VARS=$(echo \"$raw_output\" | awk -F \"=\" '/^[^=]+=.+/ {print}')\n\nwhile IFS= read -r line; do\n    var=\"${line%%=*}\"\n    val=\"${line#*=}\"\n    export \"$var\"=\"$val\"\ndone <<< \"$ENV_VARS\"\n"@
}

/// The shell script that loads the profile `profile`.
pub fn shellscript_text(profile: &str) -> (r: String)
    ensures
        r@ == shellscript_of(profile@),
{
    let mut out = String::new();
    push_str(
        &mut out,
        "#!/bin/bash\n# This script was generated by envio and should not be modified!\n\nraw_output=$(envio profile show ",
    );
    push_str(&mut out, profile);
    push_str(
        &mut out,
        " --no-pretty-print)\n\nif ! echo \"$raw_output\" | grep -q \"=\"; then\n    echo -e \"\\e[31mError: \\e[0mFailed to load environment variables from profile '",
    );
    push_str(&mut out, profile);
    push_str(
        &mut out,
        "'\" >&2\n    return 1 2>/dev/null || exit 1\nfi\n\nENV_VARS=$(echo \"$raw_output\" | awk -F \"=\" '/^[^=]+=.+/ {print}')\n\nwhile IFS= read -r line; do\n    var=\"${line%%=*}\"\n    val=\"${line#*=}\"\n    export \"$var\"=\"$val\"\ndone <<< \"$ENV_VARS\"\n",
    );
    out
}

/// The exported lines `KEY=VALUE` of the variables `es`, in order.
pub open spec fn export_lines(es: Seq<EnvView>) -> Seq<char>
    decreases es.len(),
{
    if es.len() == 0 {
        Seq::empty()
    } else {
        export_lines(es.drop_last()) + es.last().key + "="@ + es.last().value + "\n"@
    }
}

/// The variables to export: all, or those whose key is asked for.
pub open spec fn exported(es: Seq<EnvView>, selected: Option<Seq<Seq<char>>>) -> Seq<EnvView> {
    match selected {
        Some(sel) => if sel.len() > 0 {
            es.filter(|e: EnvView| sel.contains(e.key))
        } else {
            es
        },
        None => es,
    }
}

/// The characters of each of some strings, if there are some.
pub open spec fn opt_views(s: Option<Vec<String>>) -> Option<Seq<Seq<char>>> {
    match s {
        Some(v) => Some(v@.map_values(|x: String| x@)),
        None => None,
    }
}

fn has_key_among(sel: &Vec<String>, key: &str) -> (r: bool)
    ensures
        r == sel@.map_values(|x: String| x@).contains(key@),
{
    let ghost sv = sel@.map_values(|x: String| x@);
    let mut i: usize = 0;
    while i < sel.len()
        invariant
            i <= sel@.len(),
            sv == sel@.map_values(|x: String| x@),
            forall|j: int| 0 <= j < i ==> sv[j] != key@,
        decreases sel@.len() - i,
    {
        if str_eq(sel[i].as_str(), key) {
            proof {
                assert(sv[i as int] == key@);
            }
            return true;
        }
        i = i + 1;
    }
    false
}

/// The text that exports the variables of the profile `name`: `KEY=VALUE`
/// lines of all of them, or of those whose key is among `selected` when some
/// are given. A profile without variables, or a selection that keeps none,
/// is refused.
pub fn export_text(name: &str, envs: &EnvMap, selected: &Option<Vec<String>>) -> (r: Result<String>)
    ensures
        envs@.len() == 0 ==> (r matches Err(Error::EmptyProfile(n)) && n@ == name@),
        envs@.len() > 0 && selected is Some && exported(envs@, opt_views(*selected)).len() == 0 ==> (
        r matches Err(Error::Msg(m)) && m@ == "No envs to export"@),
        envs@.len() > 0 && (selected is None || exported(envs@, opt_views(*selected)).len() > 0) ==> (
        r matches Ok(t) && t@ == export_lines(exported(envs@, opt_views(*selected)))),
{
    proof {
        use_type_invariant(envs);
    }
    if envs.is_empty() {
        return Err(Error::EmptyProfile(name.to_owned()));
    }
    let ghost es = envs@;
    let ghost out = exported(es, opt_views(*selected));
    let n = envs.len();
    let mut kept: Vec<usize> = Vec::new();
    let mut i: usize = 0;
    while i < n
        invariant
            envs.wf(),
            es == envs@,
            n == es.len(),
            i <= n,
            kept@.len() <= i,
            forall|j: int| 0 <= j < kept@.len() ==> #[trigger] kept@[j] < n,
            kept@.map_values(|j: usize| es[j as int]) == exported(es.take(i as int), opt_views(*selected)),
        decreases n - i,
    {
        let e = envs.get_index(i).unwrap();
        let keep = match selected {
            Some(sel) => sel.len() == 0 || has_key_among(sel, e.key.as_str()),
            None => true,
        };
        proof {
            assert(es.take(i + 1).drop_last() =~= es.take(i as int));
            match opt_views(*selected) {
                Some(sel) => {
                    if sel.len() > 0 {
                        let p = |x: EnvView| sel.contains(x.key);
                        assert(es.take(i + 1).filter(p) == es.take(i as int).filter(p) + (if p(es[i as int]) {
                            seq![es[i as int]]
                        } else {
                            Seq::empty()
                        })) by {
                            reveal(Seq::filter);
                            assert(es.take(i + 1).drop_last() =~= es.take(i as int));
                        }
                    }
                },
                None => {},
            }
        }
        if keep {
            kept.push(i);
        }
        proof {
            assert(kept@.map_values(|j: usize| es[j as int]) =~= exported(es.take(i + 1), opt_views(*selected)));
        }
        i = i + 1;
    }
    proof {
        assert(es.take(n as int) =~= es);
    }
    if kept.len() == 0 {
        if selected.is_some() {
            proof {
                reveal_strlit("No envs to export");
            }
            return Err(Error::Msg("No envs to export".to_owned()));
        }
    }
    let mut buffer = String::new();
    let mut k: usize = 0;
    while k < kept.len()
        invariant
            envs.wf(),
            es == envs@,
            k <= kept@.len(),
            forall|j: int| 0 <= j < kept@.len() ==> #[trigger] kept@[j] < es.len(),
            buffer@ == export_lines(kept@.map_values(|j: usize| es[j as int]).take(k as int)),
        decreases kept@.len() - k,
    {
        let e = envs.get_index(kept[k]).unwrap();
        proof {
            let ks = kept@.map_values(|j: usize| es[j as int]);
            assert(ks.take(k + 1).drop_last() =~= ks.take(k as int));
        }
        push_str(&mut buffer, e.key.as_str());
        push_str(&mut buffer, "=");
        push_str(&mut buffer, e.value.as_str());
        push_str(&mut buffer, "\n");
        k = k + 1;
    }
    proof {
        let ks = kept@.map_values(|j: usize| es[j as int]);
        assert(ks.take(k as int) =~= ks);
    }
    Ok(buffer)
}

/// A variable that the `.env` text of an export holds on a line of its own:
/// its key has no `=` and neither key nor value a line break, and the line
/// does not end with a carriage return.
pub open spec fn exportable(e: EnvView) -> bool {
    &&& !e.key.contains('=')
    &&& !e.key.contains('\n')
    &&& !e.value.contains('\n')
    &&& (e.value.len() > 0 ==> e.value.last() != '\r')
}

/// The keys and values of variables, without comments or dates.
pub open spec fn plain_envs(es: Seq<EnvView>) -> Seq<EnvView> {
    es.map_values(|e: EnvView| crate::env::plain_env(e.key, e.value))
}

proof fn lemma_export_line(e: EnvView)
    requires
        exportable(e),
    ensures
        crate::text::lines(e.key + "="@ + e.value + "\n"@) == seq![e.key + "="@ + e.value],
        crate::dotenv::holds_pair(e.key + "="@ + e.value),
        crate::dotenv::pair_of(e.key + "="@ + e.value) == crate::env::plain_env(e.key, e.value),
{
    reveal_strlit("=");
    reveal_strlit("\n");
    let l = e.key + "="@ + e.value;
    assert(l[e.key.len() as int] == '=');
    assert forall|k: int| 0 <= k < e.key.len() implies #[trigger] l[k] != '=' by {
        assert(l[k] == e.key[k]);
        if e.key[k] == '=' {
            assert(e.key.contains('='));
        }
    }
    crate::text::lemma_find_from(l, '=', 0, e.key.len() as int);
    assert(l.take(e.key.len() as int) =~= e.key);
    assert(l.skip(e.key.len() as int + 1) =~= e.value);
    assert(l.contains('='));
    if l.contains('\n') {
        let k = choose|k: int| 0 <= k < l.len() && l[k] == '\n';
        if k < e.key.len() {
            assert(e.key[k] == '\n');
            assert(e.key.contains('\n'));
        } else if k > e.key.len() {
            assert(e.value[k - e.key.len() - 1] == '\n');
            assert(e.value.contains('\n'));
        }
    }
    if e.value.len() > 0 {
        assert(l.last() == e.value.last());
    }
    assert(l + "\n"@ =~= l + seq!['\n']);
    crate::text::lemma_lines_single(l);
}

/// What an export writes, reading it as `.env` text gives back: the key and
/// value of each variable, in order, when the keys are distinct and each
/// variable sits on a line of its own.
pub proof fn law_export_then_read(es: Seq<EnvView>)
    requires
        crate::env::keys_distinct(es),
        forall|i: int| 0 <= i < es.len() ==> exportable(#[trigger] es[i]),
    ensures
        crate::dotenv::dotenv_envs(crate::text::lines(export_lines(es))) == plain_envs(es),
    decreases es.len(),
{
    reveal_strlit("\n");
    if es.len() == 0 {
        assert(crate::text::lines(Seq::<char>::empty()) =~= Seq::<Seq<char>>::empty());
        assert(plain_envs(es) =~= Seq::<EnvView>::empty());
    } else {
        let front = es.drop_last();
        let e = es.last();
        assert forall|i: int| 0 <= i < front.len() implies exportable(#[trigger] front[i]) by {
            assert(front[i] == es[i]);
        }
        assert(crate::env::keys_distinct(front)) by {
            assert forall|i: int, j: int|
                0 <= i < front.len() && 0 <= j < front.len() && i != j implies #[trigger] front[i].key
                != #[trigger] front[j].key by {
                assert(front[i] == es[i] && front[j] == es[j]);
            }
        }
        law_export_then_read(front);
        assert(exportable(es[es.len() - 1]));
        lemma_export_line(e);
        let x = export_lines(front);
        let l = e.key + "="@ + e.value;
        assert(export_lines(es) =~= x + (l + "\n"@));
        if x.len() > 0 {
            assert(x.last() == '\n');
        }
        crate::text::lemma_lines_append(x, l + "\n"@);
        let ls = crate::text::lines(export_lines(es));
        assert(ls =~= crate::text::lines(x).push(l));
        assert(ls.drop_last() =~= crate::text::lines(x));
        assert(ls.last() == l);
        let p = plain_envs(front);
        assert(!crate::env::has_key(p, e.key)) by {
            if crate::env::has_key(p, e.key) {
                let i = choose|i: int| 0 <= i < p.len() && #[trigger] p[i].key == e.key;
                assert(p[i].key == front[i].key);
                assert(es[i].key != es[es.len() - 1].key);
            }
        }
        assert(plain_envs(es) =~= p.push(crate::env::plain_env(e.key, e.value)));
    }
}

/// The keys of the variables whose expiration date is `today` or earlier.
pub open spec fn expired_keys(es: Seq<EnvView>, today: Date) -> Seq<Seq<char>> {
    es.filter(|e: EnvView| e.expiration_date matches Some(d) && d.spec_on_or_before(today)).map_values(
        |e: EnvView| e.key,
    )
}

/// The keys of the variables that have expired by `today`, in order.
pub fn expired_envs(envs: &EnvMap, today: &Date) -> (r: Vec<String>)
    ensures
        r@.map_values(|s: String| s@) == expired_keys(envs@, *today),
{
    proof {
        use_type_invariant(envs);
    }
    let ghost es = envs@;
    let ghost p = |e: EnvView| e.expiration_date matches Some(d) && d.spec_on_or_before(*today);
    let n = envs.len();
    let mut out: Vec<String> = Vec::new();
    let mut i: usize = 0;
    while i < n
        invariant
            envs.wf(),
            es == envs@,
            n == es.len(),
            i <= n,
            p == (|e: EnvView| e.expiration_date matches Some(d) && d.spec_on_or_before(*today)),
            out@.map_values(|s: String| s@) == es.take(i as int).filter(p).map_values(|e: EnvView| e.key),
        decreases n - i,
    {
        let e = envs.get_index(i).unwrap();
        let expired = match e.expiration_date {
            Some(d) => d.on_or_before(today),
            None => false,
        };
        proof {
            assert(es.take(i + 1).filter(p) == es.take(i as int).filter(p) + (if p(es[i as int]) {
                seq![es[i as int]]
            } else {
                Seq::empty()
            })) by {
                reveal(Seq::filter);
                assert(es.take(i + 1).drop_last() =~= es.take(i as int));
            }
        }
        proof {
            assert(e@ == es[i as int]);
            assert(p(es[i as int]) == expired);
        }
        let ghost before = out@;
        if expired {
            out.push(e.key.clone());
            proof {
                assert(out@.map_values(|s: String| s@) =~= before.map_values(|s: String| s@).push(e.key@));
            }
        }
        proof {
            assert(out@.map_values(|s: String| s@) =~= es.take(i + 1).filter(p).map_values(|e: EnvView| e.key));
        }
        i = i + 1;
    }
    proof {
        assert(es.take(n as int) =~= es);
    }
    out
}


/// The header of the table of a profile's variables: the key and the value,
/// then the comment and the expiration date when they are shown.
pub open spec fn env_header_of(show_comments: bool, show_expiration: bool) -> Seq<Seq<char>> {
    seq!["Environment Variable"@, "Value"@] + (if show_comments {
        seq!["Comment"@]
    } else {
        Seq::empty()
    }) + (if show_expiration {
        seq!["Expiration Date"@]
    } else {
        Seq::empty()
    })
}

/// The row of a variable in that table; a missing comment or date is empty.
pub open spec fn env_row_of(e: EnvView, show_comments: bool, show_expiration: bool) -> Seq<Seq<char>> {
    seq![e.key, e.value] + (if show_comments {
        seq![
            match e.comment {
                Some(c) => c,
                None => Seq::empty(),
            },
        ]
    } else {
        Seq::empty()
    }) + (if show_expiration {
        seq![
            match e.expiration_date {
                Some(d) => crate::date::ymd_text(d),
                None => Seq::empty(),
            },
        ]
    } else {
        Seq::empty()
    })
}

/// The cells of a row.
pub open spec fn row_views(rows: Seq<Vec<String>>) -> Seq<Seq<Seq<char>>> {
    rows.map_values(|r: Vec<String>| crate::text::string_views(r@))
}

/// The header and the rows of the table of the variables `envs`.
pub fn env_table(envs: &EnvMap, show_comments: bool, show_expiration: bool) -> (r: (Vec<String>, Vec<Vec<String>>))
    requires
        crate::editor::dates_valid(envs@),
    ensures
        crate::text::string_views(r.0@) == env_header_of(show_comments, show_expiration),
        row_views(r.1@) == envs@.map_values(|e: EnvView| env_row_of(e, show_comments, show_expiration)),
{
    proof {
        use_type_invariant(envs);
    }
    let mut header: Vec<String> = vec!["Environment Variable".to_owned(), "Value".to_owned()];
    if show_comments {
        header.push("Comment".to_owned());
    }
    if show_expiration {
        header.push("Expiration Date".to_owned());
    }
    proof {
        assert(crate::text::string_views(header@) =~= env_header_of(show_comments, show_expiration));
    }
    let ghost es = envs@;
    let n = envs.len();
    let mut rows: Vec<Vec<String>> = Vec::new();
    let mut i: usize = 0;
    while i < n
        invariant
            envs.wf(),
            crate::editor::dates_valid(es),
            es == envs@,
            n == es.len(),
            i <= n,
            row_views(rows@) == es.take(i as int).map_values(
                |e: EnvView| env_row_of(e, show_comments, show_expiration),
            ),
        decreases n - i,
    {
        let e = envs.get_index(i).unwrap();
        assert(e@ == es[i as int]);
        let mut row: Vec<String> = vec![e.key.clone(), e.value.clone()];
        if show_comments {
            match &e.comment {
                Some(c) => row.push(c.clone()),
                None => row.push(String::new()),
            }
        }
        if show_expiration {
            match e.expiration_date {
                Some(d) => row.push(crate::date::format_ymd(d)),
                None => row.push(String::new()),
            }
        }
        proof {
            assert(crate::text::string_views(row@) =~= env_row_of(es[i as int], show_comments, show_expiration));
            assert(es.take(i + 1).map_values(|e: EnvView| env_row_of(e, show_comments, show_expiration))
                =~= es.take(i as int).map_values(|e: EnvView| env_row_of(e, show_comments, show_expiration)).push(
                env_row_of(es[i as int], show_comments, show_expiration),
            ));
        }
        let ghost before = rows@;
        rows.push(row);
        proof {
            assert(row_views(rows@) =~= row_views(before).push(crate::text::string_views(row@)));
        }
        i = i + 1;
    }
    proof {
        assert(es.take(n as int) =~= es);
    }
    (header, rows)
}

/// The line of a profile in the plain listing: its name, a dash, and its
/// description or nothing.
pub open spec fn profile_line_of(name: Seq<char>, description: Option<Seq<char>>) -> Seq<char> {
    name + " - "@ + match description {
        Some(d) => d,
        None => Seq::empty(),
    }
}

/// The line of the profile `name` in the plain listing.
pub fn profile_line(name: &str, description: &Option<String>) -> (r: String)
    ensures
        r@ == profile_line_of(name@, crate::env::opt_str_view(*description)),
{
    let mut out = String::new();
    push_str(&mut out, name);
    push_str(&mut out, " - ");
    match description {
        Some(d) => push_str(&mut out, d.as_str()),
        None => {
            proof {
                assert(out@ + Seq::<char>::empty() =~= out@);
            }
        },
    }
    out
}


/// Which directory holds the profiles and the shell script.
pub enum EnvioRoot {
    /// The `.envio` directory of the current directory.
    Local,
    /// The directory that `ENVIO_HOME` names.
    FromEnv(String),
    /// The `.envio` directory of the home directory.
    Home,
}

/// Which directory holds the profiles, given whether the current directory
/// holds a `.envio` directory, what `ENVIO_HOME` says (`None` when it is not
/// set), whether that is a directory, and whether the home directory holds a
/// `.envio` directory: the local one first, then `ENVIO_HOME` unless it is
/// empty, then the home directory's.
pub fn envio_root(local_is_dir: bool, envio_home: Option<String>, envio_home_is_dir: bool, home_is_dir: bool) -> (r:
    Result<EnvioRoot>)
    ensures
        local_is_dir ==> r matches Ok(EnvioRoot::Local),
        !local_is_dir && (envio_home matches Some(h) && h@.len() > 0) ==> (envio_home_is_dir ==> (r matches Ok(
            EnvioRoot::FromEnv(d),
        ) && d@ == envio_home->0@)),
        !local_is_dir && (envio_home matches Some(h) && h@.len() > 0) ==> (!envio_home_is_dir ==> (r matches Err(
            Error::Msg(m),
        ) && m@ == "ENVIO_HOME directory does not exist: "@ + envio_home->0@)),
        !local_is_dir && !(envio_home matches Some(h) && h@.len() > 0) ==> (home_is_dir ==> r matches Ok(
            EnvioRoot::Home,
        )),
        !local_is_dir && !(envio_home matches Some(h) && h@.len() > 0) ==> (!home_is_dir ==> (r matches Err(
            Error::Msg(m),
        ) && m@
            == "No .envio folder found in the current directory or home folder. Run `envio init` first, or set ENVIO_HOME to your envio root."@)),
{
    if local_is_dir {
        return Ok(EnvioRoot::Local);
    }
    match envio_home {
        Some(h) => {
            if h.as_str().unicode_len() > 0 {
                if envio_home_is_dir {
                    return Ok(EnvioRoot::FromEnv(h));
                }
                let mut m = String::new();
                push_str(&mut m, "ENVIO_HOME directory does not exist: ");
                push_str(&mut m, h.as_str());
                return Err(Error::Msg(m));
            }
        },
        None => {},
    }
    if home_is_dir {
        Ok(EnvioRoot::Home)
    } else {
        Err(
            Error::Msg(
                "No .envio folder found in the current directory or home folder. Run `envio init` first, or set ENVIO_HOME to your envio root.".to_owned(),
            ),
        )
    }
}

} // verus!
