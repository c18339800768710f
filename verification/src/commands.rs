//! The decisions the command line commands make between prompts and files:
//! which key a cipher asks for, the GPG key a label picks, how a command to
//! run is split, which variables an export takes, where an import comes from,
//! and which shell a completion script is for.

use vstd::prelude::*;

use crate::cipher::CipherKind;
use crate::error::{Error, Result};
use crate::text::{push_str, str_eq, string_views};

verus! {

/// What creating a profile asks the user for, by the kind of its cipher.
#[derive(Clone, Copy, Debug, PartialEq, Eq, Structural)]
pub enum KeyPrompt {
    /// One of the GPG keys of the keyring, chosen by its label.
    GpgKey,
    /// A password, typed twice.
    Password,
    /// Nothing: the cipher needs no key.
    NoKey,
}

/// The prompt a kind of cipher needs.
pub open spec fn key_prompt_of(kind: CipherKind) -> KeyPrompt {
    match kind {
        CipherKind::GPG => KeyPrompt::GpgKey,
        CipherKind::PASSPHRASE => KeyPrompt::Password,
        CipherKind::AGE => KeyPrompt::Password,
        CipherKind::NONE => KeyPrompt::NoKey,
    }
}

/// What creating a profile with a cipher of kind `kind` asks the user for.
pub fn key_prompt(kind: CipherKind) -> (r: KeyPrompt)
    ensures
        r == key_prompt_of(kind),
{
    match kind {
        CipherKind::GPG => KeyPrompt::GpgKey,
        CipherKind::PASSPHRASE | CipherKind::AGE => KeyPrompt::Password,
        CipherKind::NONE => KeyPrompt::NoKey,
    }
}

/// The labels of a list of (label, fingerprint) pairs.
pub open spec fn labels_of(keys: Seq<(String, String)>) -> Seq<Seq<char>> {
    keys.map_values(|p: (String, String)| p.0@)
}

/// The labels to choose a GPG key from, in the order of `keys`; an error when
/// the keyring holds no key.
pub fn gpg_key_labels(keys: &Vec<(String, String)>) -> (r: Result<Vec<String>>)
    ensures
        r is Err <==> keys@.len() == 0,
        r matches Err(e) ==> (e matches Error::Msg(m) && m@ == "No GPG keys found"@),
        r matches Ok(ls) ==> string_views(ls@) == labels_of(keys@),
{
    if keys.len() == 0 {
        return Err(Error::Msg("No GPG keys found".to_owned()));
    }
    let mut out: Vec<String> = Vec::new();
    let mut i: usize = 0;
    while i < keys.len()
        invariant
            i <= keys@.len(),
            string_views(out@) == labels_of(keys@.take(i as int)),
        decreases keys@.len() - i,
    {
        let label = keys[i].0.clone();
        proof {
            assert(labels_of(keys@.take(i + 1)) =~= labels_of(keys@.take(i as int)).push(keys@[i as int].0@));
            assert(string_views(out@.push(label)) =~= string_views(out@).push(label@));
        }
        out.push(label);
        i = i + 1;
    }
    proof {
        assert(keys@.take(i as int) =~= keys@);
    }
    Ok(out)
}

/// Whether one of `keys` has the fingerprint `fingerprint`.
pub open spec fn has_fingerprint(keys: Seq<(String, String)>, fingerprint: Seq<char>) -> bool {
    exists|i: int| 0 <= i < keys.len() && (#[trigger] keys[i]).1@ == fingerprint
}

/// The GPG key set in `ENVIO_KEY`, which must be the fingerprint of one of
/// the keys of the keyring.
pub fn fingerprint_from_env(keys: &Vec<(String, String)>, env_key: String) -> (r: Result<String>)
    ensures
        r is Ok <==> has_fingerprint(keys@, env_key@),
        r matches Ok(k) ==> k@ == env_key@,
        r matches Err(e) ==> (e matches Error::Msg(m) && m@
            == "ENVIO_KEY does not match any available GPG fingerprint"@),
{
    let mut i: usize = 0;
    while i < keys.len()
        invariant
            i <= keys@.len(),
            forall|j: int| 0 <= j < i ==> (#[trigger] keys@[j]).1@ != env_key@,
        decreases keys@.len() - i,
    {
        if str_eq(keys[i].1.as_str(), env_key.as_str()) {
            assert(keys@[i as int].1@ == env_key@);
            return Ok(env_key);
        }
        i = i + 1;
    }
    Err(Error::Msg("ENVIO_KEY does not match any available GPG fingerprint".to_owned()))
}

/// The position of the first pair of `keys` whose label is `label`, or -1.
pub open spec fn label_index(keys: Seq<(String, String)>, label: Seq<char>) -> int
    decreases keys.len(),
{
    if keys.len() == 0 {
        -1
    } else if label_index(keys.drop_last(), label) >= 0 {
        label_index(keys.drop_last(), label)
    } else if keys.last().0@ == label {
        keys.len() - 1
    } else {
        -1
    }
}

/// The fingerprint of the first key of `keys` whose label is `label`.
pub fn fingerprint_for_label(keys: &Vec<(String, String)>, label: &str) -> (r: Option<String>)
    ensures
        r is None <==> label_index(keys@, label@) < 0,
        r matches Some(f) ==> f@ == keys@[label_index(keys@, label@)].1@,
{
    let mut i: usize = 0;
    while i < keys.len()
        invariant
            i <= keys@.len(),
            label_index(keys@.take(i as int), label@) < 0,
            forall|j: int| i <= j <= keys@.len() ==> #[trigger] label_index(keys@.take(j), label@) == (if label_index(
                keys@.take(i as int),
                label@,
            ) >= 0 {
                label_index(keys@.take(i as int), label@)
            } else {
                label_index(keys@.take(j), label@)
            }),
        decreases keys@.len() - i,
    {
        proof {
            assert(keys@.take(i + 1).drop_last() =~= keys@.take(i as int));
        }
        if str_eq(keys[i].0.as_str(), label) {
            proof {
                lemma_label_index_prefix(keys@, label@, i + 1);
                assert(keys@.take(keys@.len() as int) =~= keys@);
            }
            return Some(keys[i].1.clone());
        }
        i = i + 1;
    }
    proof {
        assert(keys@.take(i as int) =~= keys@);
    }
    None
}

/// Once a prefix holds the label, every longer prefix finds it at the same
/// place.
proof fn lemma_label_index_prefix(keys: Seq<(String, String)>, label: Seq<char>, i: int)
    requires
        0 <= i <= keys.len(),
        label_index(keys.take(i), label) >= 0,
    ensures
        label_index(keys, label) == label_index(keys.take(i), label),
    decreases keys.len() - i,
{
    if i < keys.len() {
        assert(keys.take(i + 1).drop_last() =~= keys.take(i));
        lemma_label_index_prefix(keys, label, i + 1);
    } else {
        assert(keys.take(i) =~= keys);
    }
}

/// The program of a command to run and its arguments; an error when the
/// command is empty.
pub fn split_command(command: &Vec<String>) -> (r: Result<(String, Vec<String>)>)
    ensures
        r is Err <==> command@.len() == 0,
        r matches Err(e) ==> (e matches Error::Msg(m) && m@ == "Command cannot be empty"@),
        r matches Ok((p, args)) ==> p@ == command@[0]@ && string_views(args@) == string_views(
            command@.skip(1),
        ),
{
    if command.len() == 0 {
        return Err(Error::Msg("Command cannot be empty".to_owned()));
    }
    let program = command[0].clone();
    let mut args: Vec<String> = Vec::new();
    let mut i: usize = 1;
    while i < command.len()
        invariant
            1 <= i <= command@.len(),
            string_views(args@) == string_views(command@.subrange(1, i as int)),
        decreases command@.len() - i,
    {
        let a = command[i].clone();
        proof {
            assert(string_views(command@.subrange(1, i + 1)) =~= string_views(
                command@.subrange(1, i as int),
            ).push(command@[i as int]@));
            assert(string_views(args@.push(a)) =~= string_views(args@).push(a@));
        }
        args.push(a);
        i = i + 1;
    }
    proof {
        assert(command@.subrange(1, i as int) =~= command@.skip(1));
    }
    Ok((program, args))
}

/// The question asked for the value of `key`, saying "new" when the profile
/// already holds the key.
pub open spec fn value_prompt_of(key: Seq<char>, exists: bool) -> Seq<char> {
    "Enter the "@ + (if exists { "new "@ } else { ""@ }) + "value for "@ + key + ":"@
}

/// The question asked for the value of `key`.
pub fn value_prompt(key: &str, exists: bool) -> (r: String)
    ensures
        r@ == value_prompt_of(key@, exists),
{
    let mut out = String::new();
    push_str(&mut out, "Enter the ");
    if exists {
        push_str(&mut out, "new ");
    } else {
        push_str(&mut out, "");
    }
    push_str(&mut out, "value for ");
    push_str(&mut out, key);
    push_str(&mut out, ":");
    out
}

/// Which variables an export takes.
pub enum ExportKeys {
    /// Every variable of the profile.
    All,
    /// Those the user picks from the keys of the profile.
    Choose,
    /// Those named.
    Given(Vec<String>),
}

/// Whether one of `keys` is `key`.
pub open spec fn names_key(keys: Seq<String>, key: Seq<char>) -> bool {
    exists|i: int| 0 <= i < keys.len() && (#[trigger] keys[i])@ == key
}

/// Which variables an export takes: all without keys, those the user picks
/// when one of the keys is `select`, else the keys given.
pub fn export_keys(keys: Option<Vec<String>>) -> (r: ExportKeys)
    ensures
        keys is None ==> r is All,
        keys matches Some(ks) ==> (names_key(ks@, "select"@) <==> r is Choose),
        keys matches Some(ks) ==> (!names_key(ks@, "select"@) ==> (r matches ExportKeys::Given(g)
            && g@ == ks@)),
{
    match keys {
        None => ExportKeys::All,
        Some(ks) => {
            let mut i: usize = 0;
            while i < ks.len()
                invariant
                    keys == Some(ks),
                    i <= ks@.len(),
                    forall|j: int| 0 <= j < i ==> (#[trigger] ks@[j])@ != "select"@,
                decreases ks@.len() - i,
            {
                if str_eq(ks[i].as_str(), "select") {
                    assert(ks@[i as int]@ == "select"@);
                    return ExportKeys::Choose;
                }
                i = i + 1;
            }
            ExportKeys::Given(ks)
        },
    }
}

/// The file an export writes: the one given, else `.env`.
pub fn export_file(given: Option<String>) -> (r: String)
    ensures
        given matches Some(g) ==> r@ == g@,
        given is None ==> r@ == ".env"@,
{
    match given {
        Some(g) => g,
        None => ".env".to_owned(),
    }
}

/// Whether `url` reads `s` as an absolute URL.
pub uninterp spec fn url_accepts(s: Seq<char>) -> bool;

/// `url::Url::parse`: whether it reads `s` as a URL.
#[verifier::external_body]
fn parses_as_url(s: &str) -> (r: bool)
    ensures
        r == url_accepts(s@),
{
    url::Url::parse(s).is_ok()
}

/// Where a profile to import comes from.
#[derive(Clone, Copy, Debug, PartialEq, Eq, Structural)]
pub enum ImportSource {
    /// A URL to download it from.
    Url,
    /// A file on this machine.
    File,
}

/// Where a profile to import comes from, given whether its source reads as a
/// URL and whether a file of that path exists: a URL before a file, an error
/// when it is neither.
pub fn import_source_for(is_url: bool, exists: bool) -> (r: Result<ImportSource>)
    ensures
        is_url ==> r == Ok::<ImportSource, Error>(ImportSource::Url),
        !is_url && exists ==> r == Ok::<ImportSource, Error>(ImportSource::File),
        !is_url && !exists ==> (r matches Err(Error::Msg(m)) && m@
            == "Source must be a valid file path or URL"@),
{
    if is_url {
        Ok(ImportSource::Url)
    } else if exists {
        Ok(ImportSource::File)
    } else {
        Err(Error::Msg("Source must be a valid file path or URL".to_owned()))
    }
}

/// Where the profile at `source` comes from; `exists` says whether a file of
/// that path exists.
pub fn import_source(source: &str, exists: bool) -> (r: Result<ImportSource>)
    ensures
        url_accepts(source@) ==> r == Ok::<ImportSource, Error>(ImportSource::Url),
        !url_accepts(source@) && exists ==> r == Ok::<ImportSource, Error>(ImportSource::File),
        !url_accepts(source@) && !exists ==> (r matches Err(Error::Msg(m)) && m@
            == "Source must be a valid file path or URL"@),
{
    import_source_for(parses_as_url(source), exists)
}

/// The shells a completion script is written for.
#[derive(Clone, Copy, Debug, PartialEq, Eq, Structural)]
pub enum CompletionShell {
    Bash,
    Zsh,
    Fish,
    PowerShell,
}

/// The shell a name selects.
pub open spec fn completion_shell_of(name: Seq<char>) -> Option<CompletionShell> {
    if name == "bash"@ {
        Some(CompletionShell::Bash)
    } else if name == "zsh"@ {
        Some(CompletionShell::Zsh)
    } else if name == "fish"@ {
        Some(CompletionShell::Fish)
    } else if name == "powershell"@ {
        Some(CompletionShell::PowerShell)
    } else {
        None
    }
}

/// The shell whose completion script is asked for by `name`; an error naming
/// it when no script is written for it.
pub fn completion_shell(name: &str) -> (r: Result<CompletionShell>)
    ensures
        r is Err <==> completion_shell_of(name@) is None,
        r matches Ok(s) ==> completion_shell_of(name@) == Some(s),
        r matches Err(e) ==> (e matches Error::UnsupportedShell(n) && n@ == name@),
{
    if str_eq(name, "bash") {
        Ok(CompletionShell::Bash)
    } else if str_eq(name, "zsh") {
        Ok(CompletionShell::Zsh)
    } else if str_eq(name, "fish") {
        Ok(CompletionShell::Fish)
    } else if str_eq(name, "powershell") {
        Ok(CompletionShell::PowerShell)
    } else {
        Err(Error::UnsupportedShell(name.to_owned()))
    }
}

} // verus!
