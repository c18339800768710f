use vstd::prelude::*;

use crate::cipher::kind::CipherKind;
use crate::error::{Error, Result};
use crate::pattern::{pattern_group, pattern_matches, regex_group, regex_is_match};
use crate::text::{find_from, push_str, lines, remove_white_space, split_lines, starts_with, str_starts_with, to_uppercase, trim, trim_str, uppercase, without_white_space};

verus! {

/// The cipher that encrypts to a GnuPG key; it keeps the key's fingerprint.
#[allow(non_camel_case_types)]
pub struct GPG {
    key_fingerprint: String,
}

impl GPG {
    /// The fingerprint of the key.
    pub closed spec fn spec_fingerprint(&self) -> Seq<char> {
        self.key_fingerprint@
    }

    /// A cipher for the key with fingerprint `key_fingerprint`.
    pub fn new(key_fingerprint: String) -> (r: GPG)
        ensures
            r.spec_fingerprint() == key_fingerprint@,
    {
        GPG { key_fingerprint }
    }

    /// Replaces the fingerprint.
    pub fn set_key_fingerprint(&mut self, key_fingerprint: String)
        ensures
            final(self).spec_fingerprint() == key_fingerprint@,
    {
        self.key_fingerprint = key_fingerprint;
    }

    /// The fingerprint.
    pub fn get_key_fingerprint(&self) -> (r: String)
        ensures
            r@ == self.spec_fingerprint(),
    {
        self.key_fingerprint.clone()
    }

    /// The kind of the cipher.
    pub fn kind(&self) -> (r: CipherKind)
        ensures
            r == CipherKind::GPG,
    {
        CipherKind::GPG
    }
}

/// A fingerprint as shown in the key list: without its spaces, in capitals.
pub open spec fn formatted_fingerprint(s: Seq<char>) -> Seq<char> {
    uppercase(without_white_space(s))
}

/// The fingerprint `fingerprint` with its spaces removed, in capitals.
pub fn format_fingerprint(fingerprint: &str) -> (r: String)
    ensures
        r@ == formatted_fingerprint(fingerprint@),
{
    let bare = remove_white_space(fingerprint);
    to_uppercase(bare.as_str())
}

/// The pattern a fingerprint must match: sixteen or more hexadecimal digits.
pub open spec fn fingerprint_pattern() -> Seq<char> {
    "^[0-9A-F]{16,}$"@
}

/// The pattern of a user id line, whose group 1 is the user id.
pub open spec fn user_id_pattern() -> Seq<char> {
    "^uid\\s*\\[[a-z ]+\\]\\s*(.*)$"@
}

/// The name of a user id `Name (Comment) <email>`: the text before its
/// first `(` or `<`, trimmed.
pub open spec fn user_id_name(u: Seq<char>) -> Seq<char> {
    let p = find_from(u, '(', 0);
    let l = find_from(u, '<', 0);
    trim(u.take(if p < l { p } else { l }))
}

/// The email of a user id: the text between its first `<` and the next `>`,
/// empty when it has none.
pub open spec fn user_id_email(u: Seq<char>) -> Seq<char> {
    let l = find_from(u, '<', 0);
    if l < u.len() && find_from(u, '>', l + 1) < u.len() {
        u.subrange(l + 1, find_from(u, '>', l + 1))
    } else {
        Seq::empty()
    }
}

/// The label a key is listed with: `name <email>` of its user id.
pub open spec fn key_label(u: Seq<char>) -> Seq<char> {
    user_id_name(u) + " <"@ + user_id_email(u) + ">"@
}

/// The position of the first `c` in `s` at or after `start`, or the length
/// of `s` when there is none.
fn find_char_from(s: &str, c: char, start: usize) -> (r: usize)
    requires
        start <= s@.len(),
    ensures
        r == find_from(s@, c, start as int),
        start <= r <= s@.len(),
{
    let n = s.unicode_len();
    let mut i = start;
    while i < n && s.get_char(i) != c
        invariant
            n == s@.len(),
            start <= i <= n,
            forall|k: int| start <= k < i ==> #[trigger] s@[k] != c,
        decreases n - i,
    {
        i = i + 1;
    }
    proof {
        crate::text::lemma_find_from(s@, c, start as int, i as int);
    }
    i
}

/// The label a key is listed with, from its user id `u`: `name <email>`.
pub fn user_id_label(u: &str) -> (r: String)
    ensures
        r@ == key_label(u@),
{
    proof {
        reveal_strlit(" <");
        reveal_strlit(">");
    }
    let n = u.unicode_len();
    let p = find_char_from(u, '(', 0);
    let l = find_char_from(u, '<', 0);
    let cut = if p < l { p } else { l };
    let name = trim_str(u.substring_char(0, cut));
    proof {
        assert(u@.subrange(0, cut as int) =~= u@.take(cut as int));
    }
    let mut out = String::new();
    push_str(&mut out, name);
    push_str(&mut out, " <");
    let ghost mut email: Seq<char> = Seq::empty();
    if l < n {
        let g = find_char_from(u, '>', l + 1);
        if g < n {
            let part = u.substring_char(l + 1, g);
            push_str(&mut out, part);
            proof {
                email = part@;
            }
        }
    }
    push_str(&mut out, ">");
    proof {
        assert(email == user_id_email(u@));
        assert(out@ =~= key_label(u@));
    }
    out
}

/// Reading the user id lines of a key from position `i`: the user ids and
/// how many lines were taken (an empty line that ends them is taken too).
pub open spec fn read_user_ids(ls: Seq<Seq<char>>, i: int) -> std::result::Result<(Seq<Seq<char>>, nat), Seq<char>>
    decreases ls.len() - i,
{
    if i < 0 || i >= ls.len() {
        Ok((Seq::empty(), 0))
    } else if starts_with(ls[i], "uid "@) {
        match pattern_group(user_id_pattern(), ls[i], 1) {
            Err(m) => Err(m),
            Ok(None) => Err("Failed to parse user ID"@),
            Ok(Some(u)) => match read_user_ids(ls, i + 1) {
                Err(m) => Err(m),
                Ok(rest) => Ok((seq![u] + rest.0, rest.1 + 1)),
            },
        }
    } else if trim(ls[i]).len() == 0 {
        Ok((Seq::empty(), 1))
    } else {
        Ok((Seq::empty(), 0))
    }
}

/// Reading the keys of the key list from position `i`: each `pub ` or `sec `
/// line is followed by the fingerprint line and the user id lines; a key with
/// a user id is listed with the label of its first one, `name <email>`.
pub open spec fn read_keys(ls: Seq<Seq<char>>, i: int) -> std::result::Result<Seq<(Seq<char>, Seq<char>)>, Seq<char>>
    decreases ls.len() - i,
{
    if i < 0 || i >= ls.len() {
        Ok(Seq::empty())
    } else if starts_with(ls[i], "pub "@) || starts_with(ls[i], "sec "@) {
        if i + 1 >= ls.len() {
            Err("Missing fingerprint"@)
        } else {
            let fp = formatted_fingerprint(ls[i + 1]);
            match pattern_matches(fingerprint_pattern(), fp) {
                Err(m) => Err(m),
                Ok(false) => Err("Invalid fingerprint format"@),
                Ok(true) => match read_user_ids(ls, i + 2) {
                    Err(m) => Err(m),
                    Ok(u) => match (if i + 2 + u.1 < ls.len() {
                        read_keys(ls, i + 2 + u.1)
                    } else {
                        Ok(Seq::empty())
                    }) {
                        Err(m) => Err(m),
                        Ok(rest) => Ok(
                            if u.0.len() > 0 {
                                seq![(key_label(u.0[0]), fp)] + rest
                            } else {
                                rest
                            },
                        ),
                    },
                },
            }
        }
    } else {
        read_keys(ls, i + 1)
    }
}

/// The keys of the output of `gpg --list-keys --keyid-format LONG`: nothing
/// for blank output; the second line must be a rule of `-`; then the keys.
pub open spec fn gpg_key_list(out: Seq<char>) -> std::result::Result<Seq<(Seq<char>, Seq<char>)>, Seq<char>> {
    if trim(out).len() == 0 {
        Ok(Seq::empty())
    } else {
        let ls = lines(out);
        if ls.len() >= 2 && exists|j: int| 0 <= j < ls[1].len() && ls[1][j] != '-' {
            Err("Unexpected GPG output format"@)
        } else {
            read_keys(ls, 2)
        }
    }
}

/// The user id lines from `i`, as [`read_user_ids`] reads them.
fn user_ids_from(ls: &Vec<&str>, i: usize, Ghost(lv): Ghost<Seq<Seq<char>>>) -> (r: Result<(Vec<String>, usize)>)
    requires
        lv.len() == ls@.len(),
        forall|k: int| 0 <= k < ls@.len() ==> (#[trigger] ls@[k])@ == lv[k],
        i <= ls@.len(),
    ensures
        match read_user_ids(lv, i as int) {
            Ok(u) => r matches Ok(v) && v.0@.map_values(|s: String| s@) == u.0 && v.1 == u.1,
            Err(m) => r matches Err(Error::Msg(e)) && e@ == m,
        },
        r matches Ok(v) ==> v.1 <= ls@.len() - i,
    decreases ls@.len() - i,
{
    proof {
        reveal_strlit("uid ");
        reveal_strlit("Failed to parse user ID");
    }
    if i >= ls.len() {
        let v: Vec<String> = Vec::new();
        proof {
            assert(v@.map_values(|s: String| s@) =~= Seq::<Seq<char>>::empty());
        }
        return Ok((v, 0));
    }
    let line = ls[i];
    if str_starts_with(line, "uid ") {
        match regex_group("^uid\\s*\\[[a-z ]+\\]\\s*(.*)$", line, 1) {
            Err(m) => Err(Error::Msg(m)),
            Ok(None) => Err(Error::Msg("Failed to parse user ID".to_owned())),
            Ok(Some(u)) => match user_ids_from(ls, i + 1, Ghost(lv)) {
                Err(e) => Err(e),
                Ok((rest, n)) => {
                    let mut v: Vec<String> = Vec::new();
                    v.push(u);
                    let ghost rv = rest@;
                    let mut rest = rest;
                    v.append(&mut rest);
                    proof {
                        assert(v@.map_values(|s: String| s@) =~= seq![v@[0]@] + rv.map_values(|s: String| s@));
                    }
                    Ok((v, n + 1))
                },
            },
        }
    } else if trim_str(line).is_empty() {
        let v: Vec<String> = Vec::new();
        proof {
            assert(v@.map_values(|s: String| s@) =~= Seq::<Seq<char>>::empty());
        }
        Ok((v, 1))
    } else {
        let v: Vec<String> = Vec::new();
        proof {
            assert(v@.map_values(|s: String| s@) =~= Seq::<Seq<char>>::empty());
        }
        Ok((v, 0))
    }
}

/// The keys from `i`, as [`read_keys`] reads them.
fn keys_from(ls: &Vec<&str>, i: usize, Ghost(lv): Ghost<Seq<Seq<char>>>) -> (r: Result<Vec<(String, String)>>)
    requires
        lv.len() == ls@.len(),
        forall|k: int| 0 <= k < ls@.len() ==> (#[trigger] ls@[k])@ == lv[k],
        i <= ls@.len(),
    ensures
        match read_keys(lv, i as int) {
            Ok(ks) => r matches Ok(v) && crate::tui::form::pair_views(v@) == ks,
            Err(m) => r matches Err(Error::Msg(e)) && e@ == m,
        },
    decreases ls@.len() - i,
{
    proof {
        reveal_strlit("pub ");
        reveal_strlit("sec ");
        reveal_strlit("Missing fingerprint");
        reveal_strlit("Invalid fingerprint format");
    }
    if i >= ls.len() {
        let v: Vec<(String, String)> = Vec::new();
        proof {
            assert(crate::tui::form::pair_views(v@) =~= Seq::<(Seq<char>, Seq<char>)>::empty());
        }
        return Ok(v);
    }
    let line = ls[i];
    if !(str_starts_with(line, "pub ") || str_starts_with(line, "sec ")) {
        return keys_from(ls, i + 1, Ghost(lv));
    }
    if i + 1 >= ls.len() {
        return Err(Error::Msg("Missing fingerprint".to_owned()));
    }
    let fp = format_fingerprint(ls[i + 1]);
    match regex_is_match("^[0-9A-F]{16,}$", fp.as_str()) {
        Err(m) => Err(Error::Msg(m)),
        Ok(false) => Err(Error::Msg("Invalid fingerprint format".to_owned())),
        Ok(true) => match user_ids_from(ls, i + 2, Ghost(lv)) {
            Err(e) => Err(e),
            Ok((uids, n)) => {
                let rest = if i + 2 + n < ls.len() {
                    keys_from(ls, i + 2 + n, Ghost(lv))
                } else {
                    let v: Vec<(String, String)> = Vec::new();
                    proof {
                        assert(crate::tui::form::pair_views(v@) =~= Seq::<(Seq<char>, Seq<char>)>::empty());
                    }
                    Ok(v)
                };
                match rest {
                    Err(e) => Err(e),
                    Ok(rest) => {
                        if uids.len() > 0 {
                            let mut v: Vec<(String, String)> = Vec::new();
                            let first = user_id_label(uids[0].as_str());
                            v.push((first, fp));
                            let ghost rv = rest@;
                            let mut rest = rest;
                            v.append(&mut rest);
                            proof {
                                assert(crate::tui::form::pair_views(v@) =~= seq![(v@[0].0@, v@[0].1@)]
                                    + crate::tui::form::pair_views(rv));
                            }
                            Ok(v)
                        } else {
                            Ok(rest)
                        }
                    },
                }
            },
        },
    }
}

/// Whether some character of `s` is not `-`.
fn has_non_dash(s: &str) -> (r: bool)
    ensures
        r == exists|j: int| 0 <= j < s@.len() && s@[j] != '-',
{
    let n = s.unicode_len();
    let mut i: usize = 0;
    while i < n
        invariant
            n == s@.len(),
            i <= n,
            forall|j: int| 0 <= j < i ==> s@[j] == '-',
        decreases n - i,
    {
        if s.get_char(i) != '-' {
            return true;
        }
        i = i + 1;
    }
    false
}

/// The GPG keys in the output of `gpg --list-keys --keyid-format LONG`, each
/// as the label `name <email>` of its first user id and its fingerprint.
pub fn parse_gpg_key_list(stdout: &str) -> (r: Result<Vec<(String, String)>>)
    ensures
        match gpg_key_list(stdout@) {
            Ok(ks) => r matches Ok(v) && crate::tui::form::pair_views(v@) == ks,
            Err(m) => r matches Err(Error::Msg(e)) && e@ == m,
        },
{
    if trim_str(stdout).is_empty() {
        let v: Vec<(String, String)> = Vec::new();
        proof {
            assert(crate::tui::form::pair_views(v@) =~= Seq::<(Seq<char>, Seq<char>)>::empty());
        }
        return Ok(v);
    }
    let ls = split_lines(stdout);
    let ghost lv = lines(stdout@);
    proof {
        assert(lv.len() == ls@.len());
    }
    if ls.len() >= 2 && has_non_dash(ls[1]) {
        proof {
            reveal_strlit("Unexpected GPG output format");
        }
        return Err(Error::Msg("Unexpected GPG output format".to_owned()));
    }
    let start = if ls.len() < 2 { ls.len() } else { 2 };
    keys_from(&ls, start, Ghost(lv))
}

} // verus!
