//! The Rust code written at build time for the versions of the passphrase
//! cipher: the enum of their metadata, the match that decrypts with the
//! version a profile names, and the function that encrypts with the latest.

use vstd::prelude::*;

use crate::pattern::{pattern_matches, regex_is_match};
use crate::version::{
    compare_semver, new_semver, parse_semver, plain_parts, semver_order, semver_parsed, SemVer, VersionParts,
};
use crate::text::{
    ends_with, join, join_strings, push_str, replace_char, str_ends_with, str_eq, str_replace_char,
    string_views, to_uppercase, uppercase,
};

verus! {

/// What a version module of the passphrase cipher is called by.
#[derive(Clone, Debug)]
pub struct VersionInfo {
    pub module_name: String,
    pub version_ident: String,
    pub metadata_struct_type: String,
    pub version_string: String,
}

/// The versions of the passphrase cipher, oldest first.
pub struct PassphraseCodegen {
    versions: Vec<VersionInfo>,
}

/// The `use` line of a version's metadata type.
pub open spec fn import_line(v: VersionInfo) -> Seq<char> {
    "use super::"@ + v.module_name@ + "::"@ + v.metadata_struct_type@ + ";"@
}

/// The enum variant of a version.
pub open spec fn variant_line(v: VersionInfo) -> Seq<char> {
    "    #[serde(rename = \""@ + v.version_string@ + "\")] "@ + v.version_ident@ + "("@
        + v.metadata_struct_type@ + "),"@
}

/// The `From` impl of a version's metadata type.
pub open spec fn from_impl(v: VersionInfo) -> Seq<char> {
    "impl From<"@ + v.metadata_struct_type@ + "> for VersionedMetadata {\n    fn from(meta: "@
        + v.metadata_struct_type@ + ") -> Self {\n        VersionedMetadata::"@ + v.version_ident@
        + "(meta)\n    }\n}"@
}

/// The match arm that decrypts with a version.
pub open spec fn decrypt_arm(v: VersionInfo) -> Seq<char> {
    "            VersionedMetadata::"@ + v.version_ident@
        + "(metadata) => crate::cipher::passphrase::"@ + v.module_name@
        + "::decrypt(&$self.key, metadata, $encrypted_data),"@
}

/// The text of one version in the code: its `use` line (0), its variant (1),
/// its `From` impl (2), or its decrypting match arm (3).
pub open spec fn piece(kind: u8, v: VersionInfo) -> Seq<char> {
    if kind == 0 {
        import_line(v)
    } else if kind == 1 {
        variant_line(v)
    } else if kind == 2 {
        from_impl(v)
    } else {
        decrypt_arm(v)
    }
}

/// The texts of the versions, of the kind `kind`, joined with `sep`.
pub open spec fn pieces(kind: u8, vs: Seq<VersionInfo>, sep: Seq<char>) -> Seq<char> {
    join(vs.map_values(|v: VersionInfo| piece(kind, v)), sep)
}

/// The code of the metadata enum, its default (the oldest version) and its
/// conversions.
pub open spec fn metadata_code(vs: Seq<VersionInfo>) -> Seq<char> {
    pieces(0, vs, "\n"@)
        + "\n\n#[derive(Serialize, Deserialize, Clone, Debug)]\n#[serde(tag = \"version\")]\npub enum VersionedMetadata {\n"@
        + pieces(1, vs, "\n"@)
        + "\n}\n\nimpl Default for VersionedMetadata {\n    fn default() -> Self {\n        VersionedMetadata::"@
        + vs[0].version_ident@ + "(Default::default())\n    }\n}\n\n"@
        + pieces(2, vs, "\n\n"@) + "\n"@
}

/// The code of the macro that decrypts with the version a profile names.
pub open spec fn decrypt_match_code(vs: Seq<VersionInfo>) -> Seq<char> {
    "macro_rules! decrypt_match {\n    ($self:ident, $encrypted_data:expr) => {\n        match &$self.metadata {\n"@
        + pieces(3, vs, "\n"@)
        + "\n        }\n    };\n}"@
}

/// The code of the function that encrypts with the latest version; nothing
/// when there is no version.
pub open spec fn encrypt_code(vs: Seq<VersionInfo>) -> Seq<char> {
    if vs.len() == 0 {
        Seq::empty()
    } else {
        "pub fn encrypt_latest(key: &str, data: &[u8]) -> crate::error::Result<(Vec<u8>, VersionedMetadata)> {\n    use "@
            + vs.last().module_name@
            + "::encrypt;\n    let (encrypted, metadata) = encrypt(key, data)?;\n    Ok((encrypted, metadata.into()))\n}"@
    }
}

/// Builds the text of each version, of the kind `kind`, then joins them with
/// `sep`.
fn pieces_joined(versions: &Vec<VersionInfo>, sep: &str, kind: u8) -> (r: String)
    ensures
        r@ == pieces(kind, versions@, sep@),
{
    let mut parts: Vec<String> = Vec::new();
    let mut i: usize = 0;
    while i < versions.len()
        invariant
            i <= versions@.len(),
            parts@.len() == i,
            forall|j: int| 0 <= j < i ==> (#[trigger] parts@[j])@ == piece(kind, versions@[j]),
        decreases versions@.len() - i,
    {
        let v = &versions[i];
        let mut p = String::new();
        if kind == 0 {
            push_str(&mut p, "use super::");
            push_str(&mut p, v.module_name.as_str());
            push_str(&mut p, "::");
            push_str(&mut p, v.metadata_struct_type.as_str());
            push_str(&mut p, ";");
        } else if kind == 1 {
            push_str(&mut p, "    #[serde(rename = \"");
            push_str(&mut p, v.version_string.as_str());
            push_str(&mut p, "\")] ");
            push_str(&mut p, v.version_ident.as_str());
            push_str(&mut p, "(");
            push_str(&mut p, v.metadata_struct_type.as_str());
            push_str(&mut p, "),");
        } else if kind == 2 {
            push_str(&mut p, "impl From<");
            push_str(&mut p, v.metadata_struct_type.as_str());
            push_str(&mut p, "> for VersionedMetadata {\n    fn from(meta: ");
            push_str(&mut p, v.metadata_struct_type.as_str());
            push_str(&mut p, ") -> Self {\n        VersionedMetadata::");
            push_str(&mut p, v.version_ident.as_str());
            push_str(&mut p, "(meta)\n    }\n}");
        } else {
            push_str(&mut p, "            VersionedMetadata::");
            push_str(&mut p, v.version_ident.as_str());
            push_str(&mut p, "(metadata) => crate::cipher::passphrase::");
            push_str(&mut p, v.module_name.as_str());
            push_str(&mut p, "::decrypt(&$self.key, metadata, $encrypted_data),");
        }
        proof {
            assert(p@ == piece(kind, versions@[i as int]));
        }
        parts.push(p);
        i = i + 1;
    }
    proof {
        assert(string_views(parts@) =~= versions@.map_values(|v: VersionInfo| piece(kind, v)));
    }
    join_strings(&parts, sep)
}

impl PassphraseCodegen {
    /// The code generator for `versions`, oldest first.
    pub fn new(versions: Vec<VersionInfo>) -> (r: PassphraseCodegen)
        ensures
            r.versions() == versions@,
    {
        PassphraseCodegen { versions }
    }

    /// The versions, oldest first.
    pub closed spec fn versions(&self) -> Seq<VersionInfo> {
        self.versions@
    }

    /// The versions, oldest first.
    pub fn get_versions(&self) -> (r: &Vec<VersionInfo>)
        ensures
            r@ == self.versions(),
    {
        &self.versions
    }

    /// The code of the metadata enum: one variant per version, the oldest as
    /// the default, and a conversion from each version's metadata.
    pub fn generate_metadata_code(&self) -> (r: String)
        requires
            self.versions().len() > 0,
        ensures
            r@ == metadata_code(self.versions()),
    {
        let imports = pieces_joined(&self.versions, "\n", 0);
        let variants = pieces_joined(&self.versions, "\n", 1);
        let from_impls = pieces_joined(&self.versions, "\n\n", 2);
        let mut out = imports;
        push_str(
            &mut out,
            "\n\n#[derive(Serialize, Deserialize, Clone, Debug)]\n#[serde(tag = \"version\")]\npub enum VersionedMetadata {\n",
        );
        push_str(&mut out, variants.as_str());
        push_str(
            &mut out,
            "\n}\n\nimpl Default for VersionedMetadata {\n    fn default() -> Self {\n        VersionedMetadata::",
        );
        push_str(&mut out, self.versions[0].version_ident.as_str());
        push_str(&mut out, "(Default::default())\n    }\n}\n\n");
        push_str(&mut out, from_impls.as_str());
        push_str(&mut out, "\n");
        out
    }

    /// The code of the macro that decrypts with the version a profile names.
    pub fn generate_decrypt_match_macro(&self) -> (r: String)
        ensures
            r@ == decrypt_match_code(self.versions()),
    {
        let arms = pieces_joined(&self.versions, "\n", 3);
        let mut out = String::new();
        push_str(
            &mut out,
            "macro_rules! decrypt_match {\n    ($self:ident, $encrypted_data:expr) => {\n        match &$self.metadata {\n",
        );
        push_str(&mut out, arms.as_str());
        push_str(&mut out, "\n        }\n    };\n}");
        out
    }

    /// The code of the function that encrypts with the latest version, or
    /// nothing when there is no version.
    pub fn generate_encrypt_function(&self) -> (r: String)
        ensures
            r@ == encrypt_code(self.versions()),
    {
        let n = self.versions.len();
        if n == 0 {
            return String::new();
        }
        let mut out = String::new();
        push_str(
            &mut out,
            "pub fn encrypt_latest(key: &str, data: &[u8]) -> crate::error::Result<(Vec<u8>, VersionedMetadata)> {\n    use ",
        );
        push_str(&mut out, self.versions[n - 1].module_name.as_str());
        push_str(
            &mut out,
            "::encrypt;\n    let (encrypted, metadata) = encrypt(key, data)?;\n    Ok((encrypted, metadata.into()))\n}",
        );
        out
    }
}

/// The file name of a version module, `v<number>.rs`, other than `mod.rs`.
pub open spec fn is_version_file(name: Seq<char>) -> bool {
    &&& name.len() > 0
    &&& name[0] == 'v'
    &&& ends_with(name, ".rs"@)
    &&& name != "mod.rs"@
}

/// Reads the version number from the file name of a version module: what
/// stands between the `v` and `.rs`.
pub fn parse_path_into_version(name: &str) -> (r: Result<String, String>)
    ensures
        is_version_file(name@) ==> (r matches Ok(n) && n@ == name@.subrange(1, name@.len() - 3)),
        !is_version_file(name@) ==> (r matches Err(m) && m@ == "not a version file"@),
{
    proof {
        reveal_strlit(".rs");
    }
    let n = name.unicode_len();
    if n == 0 || name.get_char(0) != 'v' || !str_ends_with(name, ".rs") || str_eq(name, "mod.rs") {
        return Err("not a version file".to_owned());
    }
    assert(n >= 4) by {
        if n < 4 {
            assert(name@.skip(n - 3)[0] == ".rs"@[0]);
        }
    }
    Ok(name.substring_char(1, n - 3).to_owned())
}

/// The pattern of the `metadata_struct!` call of the version `ident`.
pub open spec fn metadata_pattern(ident: Seq<char>) -> Seq<char> {
    "metadata_struct!\\(\\s*"@ + ident + "\\s*,"@
}

/// The metadata type named by the version `ident`, given whether its
/// `metadata_struct!` call was found, or why the pattern did not compile.
pub fn metadata_type_for(ident: &str, found: Result<bool, String>) -> (r: Result<String, String>)
    ensures
        found == Ok::<bool, String>(true) ==> (r matches Ok(t) && t@ == "Metadata"@ + ident@),
        found == Ok::<bool, String>(false) ==> (r matches Err(m) && m@ == "Could not find metadata_struct! for "@ + ident@),
        found matches Err(e) ==> (r matches Err(m) && m@ == e@),
{
    match found {
        Ok(true) => {
            let mut t = String::new();
            push_str(&mut t, "Metadata");
            push_str(&mut t, ident);
            Ok(t)
        },
        Ok(false) => {
            let mut m = String::new();
            push_str(&mut m, "Could not find metadata_struct! for ");
            push_str(&mut m, ident);
            Err(m)
        },
        Err(e) => Err(e),
    }
}

/// The metadata type of the version `ident`, found in the version module's
/// source `content`.
pub fn extract_metadata_type(content: &str, ident: &str) -> (r: Result<String, String>)
    ensures
        pattern_matches(metadata_pattern(ident@), content@) == Ok::<bool, Seq<char>>(true) ==> (r matches Ok(t)
            && t@ == "Metadata"@ + ident@),
        pattern_matches(metadata_pattern(ident@), content@) == Ok::<bool, Seq<char>>(false) ==> (r matches Err(m)
            && m@ == "Could not find metadata_struct! for "@ + ident@),
        pattern_matches(metadata_pattern(ident@), content@) matches Err(e) ==> (r matches Err(m) && m@ == e),
{
    let mut pattern = String::new();
    push_str(&mut pattern, "metadata_struct!\\(\\s*");
    push_str(&mut pattern, ident);
    push_str(&mut pattern, "\\s*,");
    let found = regex_is_match(pattern.as_str(), content);
    metadata_type_for(ident, found)
}

/// The names of the version `version_num`: its module `v<num>`, its
/// identifier `V<NUM>`, its version string with `_` read as `.`, and its
/// metadata type, found in the module's source `content`.
pub fn parse_version_file(version_num: &str, content: &str) -> (r: Result<VersionInfo, String>)
    ensures
        pattern_matches(metadata_pattern("V"@ + uppercase(version_num@)), content@) == Ok::<bool, Seq<char>>(true)
            ==> (r matches Ok(v) && v.module_name@ == "v"@ + version_num@ && v.version_ident@ == "V"@
            + uppercase(version_num@) && v.version_string@ == replace_char(version_num@, '_', '.')
            && v.metadata_struct_type@ == "Metadata"@ + v.version_ident@),
        pattern_matches(metadata_pattern("V"@ + uppercase(version_num@)), content@) == Ok::<bool, Seq<char>>(false)
            ==> (r matches Err(m) && m@ == "Could not find metadata_struct! for "@ + "V"@ + uppercase(version_num@)),
        pattern_matches(metadata_pattern("V"@ + uppercase(version_num@)), content@) matches Err(e) ==> (r matches Err(m)
            && m@ == e),
{
    let mut version_ident = String::new();
    push_str(&mut version_ident, "V");
    let upper = to_uppercase(version_num);
    push_str(&mut version_ident, upper.as_str());
    let mut module_name = String::new();
    push_str(&mut module_name, "v");
    push_str(&mut module_name, version_num);
    let version_string = str_replace_char(version_num, '_', '.');
    match extract_metadata_type(content, version_ident.as_str()) {
        Ok(metadata_struct_type) => {
            Ok(VersionInfo { module_name, version_ident, metadata_struct_type, version_string })
        },
        Err(e) => Err(e),
    }
}


/// Every character of `d` is an ASCII digit.
pub open spec fn all_digits(d: Seq<char>) -> bool {
    forall|i: int| 0 <= i < d.len() ==> '0' <= #[trigger] d[i] <= '9'
}

/// The number the decimal digits `d` write.
pub open spec fn digits_value(d: Seq<char>) -> int
    decreases d.len(),
{
    if d.len() == 0 {
        0
    } else {
        digits_value(d.drop_last()) * 10 + (d.last() as int - '0' as int)
    }
}

/// What `str::parse::<u64>` gives for `s`: an optional `+` followed by one
/// or more ASCII digits, whose number fits in a `u64`.
pub open spec fn u64_parsed(s: Seq<char>) -> Option<u64> {
    let d = if s.len() > 0 && s[0] == '+' { s.drop_first() } else { s };
    if d.len() > 0 && all_digits(d) && digits_value(d) <= u64::MAX {
        Some(digits_value(d) as u64)
    } else {
        None
    }
}

proof fn lemma_digits_grow(d: Seq<char>, k: int)
    requires
        all_digits(d),
        0 <= k <= d.len(),
    ensures
        digits_value(d.take(k)) <= digits_value(d),
        digits_value(d.take(k)) >= 0,
    decreases d.len() - k,
{
    if k < d.len() {
        lemma_digits_grow(d, k + 1);
        assert(d.take(k + 1).drop_last() =~= d.take(k));
        lemma_digits_nonneg(d.take(k));
    } else {
        assert(d.take(k) =~= d);
        lemma_digits_nonneg(d);
    }
}

proof fn lemma_digits_nonneg(d: Seq<char>)
    requires
        all_digits(d),
    ensures
        digits_value(d) >= 0,
    decreases d.len(),
{
    if d.len() > 0 {
        lemma_digits_nonneg(d.drop_last());
    }
}

/// The number `s` writes, as `str::parse::<u64>` reads it.
pub fn parse_u64(s: &str) -> (r: Option<u64>)
    ensures
        r == u64_parsed(s@),
{
    let n = s.unicode_len();
    let start: usize = if n > 0 && s.get_char(0) == '+' { 1 } else { 0 };
    let ghost d = if s@.len() > 0 && s@[0] == '+' { s@.drop_first() } else { s@ };
    proof {
        assert(d =~= s@.skip(start as int));
        assert(u64_parsed(s@) == (if d.len() > 0 && all_digits(d) && digits_value(d) <= u64::MAX {
            Some(digits_value(d) as u64)
        } else {
            None
        }));
    }
    if start >= n {
        return None;
    }
    let mut acc: u64 = 0;
    let mut i: usize = start;
    proof {
        assert(d.take(0) =~= Seq::<char>::empty());
    }
    while i < n
        invariant
            n == s@.len(),
            start <= i <= n,
            d == s@.skip(start as int),
            u64_parsed(s@) == (if d.len() > 0 && all_digits(d) && digits_value(d) <= u64::MAX {
                Some(digits_value(d) as u64)
            } else {
                None
            }),
            all_digits(d.take(i - start)),
            acc == digits_value(d.take(i - start)),
        decreases n - i,
    {
        let c = s.get_char(i);
        proof {
            assert(d[i - start] == c);
        }
        if !('0' <= c && c <= '9') {
            proof {
                assert(!('0' <= d[i - start] <= '9'));
                assert(!all_digits(d));
            }
            return None;
        }
        let v: u64 = (c as u32 - '0' as u32) as u64;
        proof {
            assert(d.take(i - start + 1).drop_last() =~= d.take(i - start));
            assert(d.take(i - start + 1).last() == c);
            assert(all_digits(d.take(i - start + 1)));
            assert(v == c as int - '0' as int);
            assert(digits_value(d.take(i - start + 1)) == acc * 10 + v);
        }
        match acc.checked_mul(10) {
            None => {
                proof {
                    if all_digits(d) {
                        lemma_digits_grow(d, i - start + 1);
                    }
                    }
                return None;
            },
            Some(m) => match m.checked_add(v) {
                None => {
                    proof {
                        if all_digits(d) {
                            lemma_digits_grow(d, i - start + 1);
                        }
                    }
                    return None;
                },
                Some(t) => {
                    acc = t;
                },
            },
        }
        i = i + 1;
    }
    proof {
        assert(d.take(n - start) =~= d);
    }
    Some(acc)
}

/// The version a version string stands for when versions are put in order:
/// the version `semver` reads from it, else the whole number it writes as a
/// major version, else 0.0.0.
pub open spec fn version_key(s: Seq<char>) -> VersionParts {
    match semver_parsed(s) {
        Some(p) => p,
        None => match u64_parsed(s) {
            Some(n) => plain_parts(n, 0, 0),
            None => plain_parts(0, 0, 0),
        },
    }
}

/// The version a version string stands for when versions are put in order.
pub fn parse_version(version_str: &str) -> (r: SemVer)
    ensures
        r@ == version_key(version_str@),
{
    match parse_semver(version_str) {
        Some(v) => v,
        None => match parse_u64(version_str) {
            Some(n) => new_semver(n, 0, 0),
            None => new_semver(0, 0, 0),
        },
    }
}

/// `sorted` with `x` put after the last entry whose version is not after
/// `x`'s.
pub open spec fn insert_by_version(sorted: Seq<VersionInfo>, x: VersionInfo) -> Seq<VersionInfo>
    decreases sorted.len(),
{
    if sorted.len() == 0 {
        seq![x]
    } else if semver_order(version_key(sorted.last().version_string@), version_key(x.version_string@)) <= 0 {
        sorted.push(x)
    } else {
        insert_by_version(sorted.drop_last(), x).push(sorted.last())
    }
}

/// The versions put in order of their version strings, oldest first; those
/// of equal versions keep their order.
pub open spec fn sorted_by_version(vs: Seq<VersionInfo>) -> Seq<VersionInfo>
    decreases vs.len(),
{
    if vs.len() == 0 {
        vs
    } else {
        insert_by_version(sorted_by_version(vs.drop_last()), vs.last())
    }
}

proof fn lemma_insert_by_version_multiset(s: Seq<VersionInfo>, x: VersionInfo)
    ensures
        insert_by_version(s, x).to_multiset() =~= s.to_multiset().insert(x),
    decreases s.len(),
{
    broadcast use vstd::seq_lib::group_to_multiset_ensures;

    if s.len() == 0 {
        assert(seq![x] =~= Seq::<VersionInfo>::empty().push(x));
    } else if semver_order(version_key(s.last().version_string@), version_key(x.version_string@)) > 0 {
        lemma_insert_by_version_multiset(s.drop_last(), x);
        assert(s.drop_last().push(s.last()) =~= s);
    }
}

/// Putting versions in order keeps each of them, as often as it occurs.
pub proof fn lemma_sorted_by_version_multiset(vs: Seq<VersionInfo>)
    ensures
        sorted_by_version(vs).to_multiset() =~= vs.to_multiset(),
    decreases vs.len(),
{
    broadcast use vstd::seq_lib::group_to_multiset_ensures;

    if vs.len() > 0 {
        lemma_sorted_by_version_multiset(vs.drop_last());
        lemma_insert_by_version_multiset(sorted_by_version(vs.drop_last()), vs.last());
        assert(vs.drop_last().push(vs.last()) =~= vs);
    }
}

proof fn lemma_insert_at(s: Seq<VersionInfo>, x: VersionInfo, j: int)
    requires
        0 <= j <= s.len(),
        j > 0 ==> semver_order(version_key(s[j - 1].version_string@), version_key(x.version_string@)) <= 0,
        forall|k: int| j <= k < s.len() ==> semver_order(version_key(#[trigger] s[k].version_string@), version_key(x.version_string@)) > 0,
    ensures
        insert_by_version(s, x) == s.take(j).push(x) + s.skip(j),
    decreases s.len(),
{
    if s.len() == 0 {
        assert(s.take(j).push(x) + s.skip(j) =~= seq![x]);
    } else if j == s.len() {
        assert(s.take(j).push(x) + s.skip(j) =~= s.push(x));
    } else {
        let t = s.drop_last();
        assert forall|k: int| j <= k < t.len() implies semver_order(version_key(#[trigger] t[k].version_string@), version_key(x.version_string@)) > 0 by {
            assert(t[k] == s[k]);
        }
        if j > 0 {
            assert(t[j - 1] == s[j - 1]);
        }
        lemma_insert_at(t, x, j);
        assert(s[s.len() - 1] == s.last());
        assert(s.take(j).push(x) + s.skip(j) =~= (t.take(j).push(x) + t.skip(j)).push(s.last()));
    }
}

/// Each version of `vs` is not after the next one.
pub open spec fn in_version_order(vs: Seq<VersionInfo>) -> bool {
    forall|i: int| 0 <= i < vs.len() - 1 ==> semver_order(version_key(#[trigger] vs[i].version_string@), version_key(vs[i + 1].version_string@)) <= 0
}

/// The versions put in order of their version strings (see
/// [`parse_version`]), oldest first; those of equal versions keep their
/// order.
pub fn version_order(versions: Vec<VersionInfo>) -> (r: Vec<VersionInfo>)
    ensures
        r@ == sorted_by_version(versions@),
        r@.to_multiset() == versions@.to_multiset(),
        in_version_order(r@),
{
    let mut out: Vec<VersionInfo> = Vec::new();
    let mut keys: Vec<SemVer> = Vec::new();
    let mut rest = versions;
    let ghost all = rest@;
    let mut i: usize = 0;
    let n = rest.len();
    proof {
        assert(all.take(0) =~= Seq::<VersionInfo>::empty());
    }
    while rest.len() > 0
        invariant
            n == all.len(),
            i + rest@.len() == n,
            rest@ == all.skip(i as int),
            out@ == sorted_by_version(all.take(i as int)),
            keys@.len() == out@.len(),
            forall|k: int| 0 <= k < out@.len() ==> (#[trigger] keys@[k])@ == version_key(out@[k].version_string@),
            in_version_order(out@),
        decreases rest@.len(),
    {
        let x = rest.remove(0);
        proof {
            assert(x == all[i as int]);
            assert(rest@ =~= all.skip(i + 1));
            assert(all.take(i + 1).drop_last() =~= all.take(i as int));
            assert(all.take(i + 1).last() == x);
        }
        let kx = parse_version(x.version_string.as_str());
        let mut j: usize = out.len();
        while j > 0 && compare_semver(&keys[j - 1], &kx) > 0
            invariant
                j <= out@.len(),
                keys@.len() == out@.len(),
                forall|k: int| 0 <= k < out@.len() ==> (#[trigger] keys@[k])@ == version_key(out@[k].version_string@),
                kx@ == version_key(x.version_string@),
                in_version_order(out@),
                forall|k: int| j <= k < out@.len() ==> semver_order(version_key(#[trigger] out@[k].version_string@), version_key(x.version_string@)) > 0,
                forall|k: int| j <= k < out@.len() ==> semver_order(version_key(x.version_string@), version_key(#[trigger] out@[k].version_string@)) < 0,
            decreases j,
        {
            proof {
                assert(keys@[j - 1]@ == version_key(out@[j - 1].version_string@));
            }
            j = j - 1;
        }
        proof {
            if j > 0 {
                assert(keys@[j - 1]@ == version_key(out@[j - 1].version_string@));
            }
            lemma_insert_at(out@, x, j as int);
        }
        let ghost before_out = out@;
        let ghost before_keys = keys@;
        out.insert(j, x);
        keys.insert(j, kx);
        proof {
            assert(out@ =~= before_out.take(j as int).push(x) + before_out.skip(j as int));
            assert forall|k: int| 0 <= k < out@.len() implies (#[trigger] keys@[k])@ == version_key(out@[k].version_string@) by {
                if k < j {
                    assert(keys@[k] == before_keys[k] && out@[k] == before_out[k]);
                } else if k > j {
                    assert(keys@[k] == before_keys[k - 1] && out@[k] == before_out[k - 1]);
                }
            }
        }
        i = i + 1;
    }
    proof {
        assert(all.take(n as int) =~= all);
        lemma_sorted_by_version_multiset(all);
    }
    out
}

} // verus!
