use vstd::prelude::*;

use crate::error::{Error, Result};
use crate::text::{eq_ignore_ascii_case, str_eq_ignore_ascii_case};

verus! {

/// The kinds of cipher a profile can be protected with.
#[allow(non_camel_case_types)]
#[derive(Clone, Copy, Debug, PartialEq, Eq, Structural)]
pub enum CipherKind {
    NONE,
    PASSPHRASE,
    AGE,
    GPG,
}

/// The name of a kind, as it is written and read.
pub open spec fn kind_name(k: CipherKind) -> Seq<char> {
    match k {
        CipherKind::NONE => "none"@,
        CipherKind::PASSPHRASE => "passphrase"@,
        CipherKind::AGE => "age"@,
        CipherKind::GPG => "gpg"@,
    }
}

/// The kinds in the order in which they are offered.
pub open spec fn all_kinds() -> Seq<CipherKind> {
    seq![CipherKind::NONE, CipherKind::PASSPHRASE, CipherKind::AGE, CipherKind::GPG]
}

/// What reading a name gives: the kind whose name equals it when ASCII
/// letters are compared without case, the first such kind in offering order.
pub open spec fn parse_kind(s: Seq<char>) -> Option<CipherKind> {
    if eq_ignore_ascii_case(s, "none"@) {
        Some(CipherKind::NONE)
    } else if eq_ignore_ascii_case(s, "passphrase"@) {
        Some(CipherKind::PASSPHRASE)
    } else if eq_ignore_ascii_case(s, "age"@) {
        Some(CipherKind::AGE)
    } else if eq_ignore_ascii_case(s, "gpg"@) {
        Some(CipherKind::GPG)
    } else {
        None
    }
}

impl CipherKind {
    /// The name of the kind.
    pub fn as_str(&self) -> (r: &'static str)
        ensures
            r@ == kind_name(*self),
    {
        match self {
            CipherKind::NONE => "none",
            CipherKind::PASSPHRASE => "passphrase",
            CipherKind::AGE => "age",
            CipherKind::GPG => "gpg",
        }
    }

    /// The label shown beside the kind's name, if it has one.
    pub fn label(&self) -> (r: Option<&'static str>)
        ensures
            r matches Some(l) ==> *self == CipherKind::AGE && l@ == "BETA"@,
            r is None ==> *self != CipherKind::AGE,
    {
        match self {
            CipherKind::AGE => Some("BETA"),
            _ => None,
        }
    }

    /// Reads a kind from its name, ignoring the case of ASCII letters.
    pub fn parse(s: &str) -> (r: Result<CipherKind>)
        ensures
            r matches Ok(k) ==> parse_kind(s@) == Some(k),
            r is Err <==> parse_kind(s@) is None,
            r matches Err(e) ==> e matches Error::Msg(m) && m@ == "Matching variant not found"@,
    {
        if str_eq_ignore_ascii_case(s, "none") {
            Ok(CipherKind::NONE)
        } else if str_eq_ignore_ascii_case(s, "passphrase") {
            Ok(CipherKind::PASSPHRASE)
        } else if str_eq_ignore_ascii_case(s, "age") {
            Ok(CipherKind::AGE)
        } else if str_eq_ignore_ascii_case(s, "gpg") {
            Ok(CipherKind::GPG)
        } else {
            Err(Error::Msg("Matching variant not found".to_owned()))
        }
    }

    /// Every kind, in the order in which they are offered.
    pub fn all() -> (r: Vec<CipherKind>)
        ensures
            r@ == all_kinds(),
    {
        let r = vec![CipherKind::NONE, CipherKind::PASSPHRASE, CipherKind::AGE, CipherKind::GPG];
        assert(r@ =~= all_kinds());
        r
    }
}

/// Reading the name of a kind gives back that kind, whatever the case of its
/// letters.
pub proof fn law_parse_name(k: CipherKind, s: Seq<char>)
    requires
        eq_ignore_ascii_case(s, kind_name(k)),
    ensures
        parse_kind(s) == Some(k),
{
    reveal_strlit("none");
    reveal_strlit("passphrase");
    reveal_strlit("age");
    reveal_strlit("gpg");
    assert(s.len() == kind_name(k).len());
    match k {
        CipherKind::NONE => {},
        CipherKind::PASSPHRASE => {
            assert(!eq_ignore_ascii_case(s, "none"@));
        },
        CipherKind::AGE => {
            assert(!eq_ignore_ascii_case(s, "none"@));
            assert(!eq_ignore_ascii_case(s, "passphrase"@));
        },
        CipherKind::GPG => {
            assert(!eq_ignore_ascii_case(s, "none"@));
            assert(!eq_ignore_ascii_case(s, "passphrase"@));
            assert(crate::text::ascii_lower(s[0]) == crate::text::ascii_lower("gpg"@[0]));
            assert(!eq_ignore_ascii_case(s, "age"@));
        },
    }
}

} // verus!
