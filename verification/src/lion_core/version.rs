//! Semantic version numbers: construction, precedence, compatibility, text form.

use std::cmp::Ordering;
use vstd::prelude::*;

use crate::text::{
    lemma_concat_not_contains, lemma_decimal_text, lemma_digits_not_contains,
    lemma_parse_decimal_u32, lemma_split_char_all, lemma_split_no_sep, lemma_split_once_absent,
    lemma_split_once_concat, all_digits, is_ascii_digit,
    after_first, before_first, chars_to_string, decimal_text, split_once_char,
    first_index_of, is_ascii_alnum, is_numeric_char, numeric_char, parse_u32, parse_u32_spec, parse_u64,
    parse_u64_spec, split_char, split_chars, str_to_chars, sub_chars, u64_to_decimal,
};

verus! {

/// Error parsing a version string.
#[derive(Debug, Clone, PartialEq, Eq)]
pub struct VersionParseError {
    /// The invalid version string.
    pub version: String,
    /// The reason for the error.
    pub reason: String,
}

impl VersionParseError {
    /// The message `Invalid version '<version>': <reason>`.
    pub fn to_string(&self) -> (r: String)
        ensures
            r@ == "Invalid version '"@ + self.version@ + "': "@ + self.reason@,
    {
        let mut r = String::from_str("Invalid version '");
        r.append(self.version.as_str());
        r.append("': ");
        r.append(self.reason.as_str());
        r
    }
}

/// A semantic version.
#[derive(Debug, Clone, PartialEq, Eq)]
pub struct Version {
    /// Major version number.
    pub major: u32,
    /// Minor version number.
    pub minor: u32,
    /// Patch version number.
    pub patch: u32,
    /// Prerelease identifiers.
    pub prerelease: Option<String>,
    /// Build metadata.
    pub build: Option<String>,
}

/// The outcome of comparing two versions or parts of them.
#[derive(Debug, Clone, Copy, PartialEq, Eq, Structural)]
pub enum Precedence {
    /// The first comes before the second.
    Less,
    /// Neither comes before the other.
    Equal,
    /// The first comes after the second.
    Greater,
}

/// The standard ordering that a precedence stands for.
pub open spec fn to_ordering(p: Precedence) -> Ordering {
    match p {
        Precedence::Less => Ordering::Less,
        Precedence::Equal => Ordering::Equal,
        Precedence::Greater => Ordering::Greater,
    }
}

/// The text of an optional string.
pub open spec fn opt_text(o: Option<String>) -> Option<Seq<char>> {
    match o {
        Some(s) => Some(s@),
        None => None,
    }
}

/// The order of two integers.
pub open spec fn num_order(a: int, b: int) -> Precedence {
    if a < b {
        Precedence::Less
    } else if a == b {
        Precedence::Equal
    } else {
        Precedence::Greater
    }
}

/// The lexicographic order of two character sequences, character by character.
pub open spec fn lex_order(a: Seq<char>, b: Seq<char>) -> Precedence
    decreases a.len(),
{
    if a.len() == 0 {
        if b.len() == 0 {
            Precedence::Equal
        } else {
            Precedence::Less
        }
    } else if b.len() == 0 {
        Precedence::Greater
    } else if a[0] < b[0] {
        Precedence::Less
    } else if a[0] > b[0] {
        Precedence::Greater
    } else {
        lex_order(a.drop_first(), b.drop_first())
    }
}

/// Every character of `s` is numeric in the sense of `char::is_numeric`.
pub open spec fn all_numeric(s: Seq<char>) -> bool {
    forall|i: int| 0 <= i < s.len() ==> numeric_char(#[trigger] s[i])
}

/// The number a numeric identifier stands for: its value as a `u64`, or zero where it does
/// not read as one.
pub open spec fn numeric_value(s: Seq<char>) -> int {
    match parse_u64_spec(s) {
        Some(v) => v as int,
        None => 0,
    }
}

/// The precedence of two prerelease identifiers: numeric identifiers by value, below
/// non-numeric ones, which compare lexically.
pub open spec fn identifier_order(a: Seq<char>, b: Seq<char>) -> Precedence {
    let an = all_numeric(a);
    let bn = all_numeric(b);
    if an && bn {
        num_order(numeric_value(a), numeric_value(b))
    } else if an {
        Precedence::Less
    } else if bn {
        Precedence::Greater
    } else {
        lex_order(a, b)
    }
}

/// The precedence of two lists of identifiers: the first that differ decide, else the
/// longer list is greater.
pub open spec fn identifiers_order(a: Seq<Seq<char>>, b: Seq<Seq<char>>) -> Precedence
    decreases a.len(),
{
    if a.len() == 0 || b.len() == 0 {
        num_order(a.len() as int, b.len() as int)
    } else if identifier_order(a[0], b[0]) != Precedence::Equal {
        identifier_order(a[0], b[0])
    } else {
        identifiers_order(a.drop_first(), b.drop_first())
    }
}

/// The precedence of two optional prerelease strings: no prerelease is greater than any.
pub open spec fn prerelease_order(a: Option<Seq<char>>, b: Option<Seq<char>>) -> Precedence {
    match (a, b) {
        (None, Some(_)) => Precedence::Greater,
        (Some(_), None) => Precedence::Less,
        (None, None) => Precedence::Equal,
        (Some(x), Some(y)) => identifiers_order(split_char(x, '.'), split_char(y, '.')),
    }
}

/// Version precedence: major, minor, patch, then prerelease; build metadata is ignored.
pub open spec fn version_order(a: Version, b: Version) -> Precedence {
    if a.major != b.major {
        num_order(a.major as int, b.major as int)
    } else if a.minor != b.minor {
        num_order(a.minor as int, b.minor as int)
    } else if a.patch != b.patch {
        num_order(a.patch as int, b.patch as int)
    } else {
        prerelease_order(opt_text(a.prerelease), opt_text(b.prerelease))
    }
}

/// `self` is at most `other` in version precedence.
pub open spec fn version_le(a: Version, b: Version) -> bool {
    version_order(a, b) != Precedence::Greater
}

/// The compatibility rule of semantic versioning: same major version (and, below 1.0.0,
/// same minor version), and `a` no later than `b`.
pub open spec fn compatible(a: Version, b: Version) -> bool {
    if a.major == 0 && b.major == 0 {
        a.major == b.major && a.minor == b.minor && version_le(a, b)
    } else {
        a.major == b.major && version_le(a, b)
    }
}

/// A character allowed in a prerelease identifier or in build metadata.
pub open spec fn ident_char(c: char) -> bool {
    is_ascii_alnum(c) || c == '-'
}

/// The first fault among the dot-separated pieces: an empty piece, or one with a character
/// that is neither ASCII alphanumeric nor `-`.
pub open spec fn pieces_fault(pieces: Seq<Seq<char>>, empty: Seq<char>, invalid: Seq<char>) -> Option<
    Seq<char>,
>
    decreases pieces.len(),
{
    if pieces.len() == 0 {
        None
    } else if pieces[0].len() == 0 {
        Some(empty)
    } else if exists|i: int| 0 <= i < pieces[0].len() && !ident_char(#[trigger] pieces[0][i]) {
        Some(invalid)
    } else {
        pieces_fault(pieces.drop_first(), empty, invalid)
    }
}

/// The fault of a prerelease or build part, if any.
pub open spec fn part_fault(p: Seq<char>, empty: Seq<char>, invalid: Seq<char>) -> Option<Seq<char>> {
    if p.len() == 0 {
        Some(empty)
    } else {
        pieces_fault(split_char(p, '.'), empty, invalid)
    }
}

/// What parsing the text `s` gives: the five fields, or the reason it fails.
pub open spec fn parse_version_spec(s: Seq<char>) -> Result<
    (u32, u32, u32, Option<Seq<char>>, Option<Seq<char>>),
    Seq<char>,
> {
    let vp = before_first(s, '+');
    let build = after_first(s, '+');
    let version = before_first(vp, '-');
    let pre = after_first(vp, '-');
    let major_text = before_first(version, '.');
    let rest = after_first(version, '.');
    if parse_u32_spec(major_text) is None {
        Err("Invalid major version"@)
    } else if rest is None {
        Err("Missing minor version"@)
    } else if parse_u32_spec(before_first(rest->0, '.')) is None {
        Err("Invalid minor version"@)
    } else if after_first(rest->0, '.') is None {
        Err("Missing patch version"@)
    } else if parse_u32_spec(after_first(rest->0, '.')->0) is None {
        Err("Invalid patch version"@)
    } else if pre is Some && part_fault(
        pre->0,
        "Empty prerelease identifier"@,
        "Invalid prerelease identifier"@,
    ) is Some {
        Err(part_fault(pre->0, "Empty prerelease identifier"@, "Invalid prerelease identifier"@)->0)
    } else if build is Some && part_fault(
        build->0,
        "Empty build metadata"@,
        "Invalid build metadata"@,
    ) is Some {
        Err(part_fault(build->0, "Empty build metadata"@, "Invalid build metadata"@)->0)
    } else {
        Ok(
            (
                parse_u32_spec(major_text)->0,
                parse_u32_spec(before_first(rest->0, '.'))->0,
                parse_u32_spec(after_first(rest->0, '.')->0)->0,
                pre,
                build,
            ),
        )
    }
}

/// The text form `major.minor.patch[-prerelease][+build]`.
pub open spec fn version_text(v: Version) -> Seq<char> {
    let core = decimal_text(v.major as nat) + "."@ + decimal_text(v.minor as nat) + "."@
        + decimal_text(v.patch as nat);
    let with_pre = match opt_text(v.prerelease) {
        Some(p) => core + "-"@ + p,
        None => core,
    };
    match opt_text(v.build) {
        Some(b) => with_pre + "+"@ + b,
        None => with_pre,
    }
}

/// The fields of a version, with its strings by their text.
pub open spec fn version_fields(v: Version) -> (u32, u32, u32, Option<Seq<char>>, Option<Seq<char>>) {
    (v.major, v.minor, v.patch, opt_text(v.prerelease), opt_text(v.build))
}

impl Version {
    /// Create a new version with no prerelease or build metadata.
    pub fn new(major: u32, minor: u32, patch: u32) -> (r: Self)
        ensures
            r.major == major,
            r.minor == minor,
            r.patch == patch,
            r.prerelease is None,
            r.build is None,
    {
        Self { major, minor, patch, prerelease: None, build: None }
    }

    /// This version with the given prerelease identifiers.
    pub fn with_prerelease(self, prerelease: &str) -> (r: Self)
        ensures
            r.major == self.major,
            r.minor == self.minor,
            r.patch == self.patch,
            opt_text(r.prerelease) == Some(prerelease@),
            r.build == self.build,
    {
        let mut v = self;
        v.prerelease = Some(String::from_str(prerelease));
        v
    }

    /// This version with the given build metadata.
    pub fn with_build(self, build: &str) -> (r: Self)
        ensures
            r.major == self.major,
            r.minor == self.minor,
            r.patch == self.patch,
            r.prerelease == self.prerelease,
            opt_text(r.build) == Some(build@),
    {
        let mut v = self;
        v.build = Some(String::from_str(build));
        v
    }

    /// Whether this version has prerelease identifiers.
    pub fn is_prerelease(&self) -> (r: bool)
        ensures
            r == self.prerelease is Some,
    {
        self.prerelease.is_some()
    }

    /// The version that follows by incrementing the minor version and resetting the patch.
    pub fn increment_minor(&self) -> (r: Self)
        requires
            self.minor < u32::MAX,
        ensures
            r.major == self.major,
            r.minor == self.minor + 1,
            r.patch == 0,
            r.prerelease is None,
            r.build is None,
    {
        Self { major: self.major, minor: self.minor + 1, patch: 0, prerelease: None, build: None }
    }

    /// The version that follows by incrementing the patch version.
    pub fn increment_patch(&self) -> (r: Self)
        requires
            self.patch < u32::MAX,
        ensures
            r.major == self.major,
            r.minor == self.minor,
            r.patch == self.patch + 1,
            r.prerelease is None,
            r.build is None,
    {
        Self {
            major: self.major,
            minor: self.minor,
            patch: self.patch + 1,
            prerelease: None,
            build: None,
        }
    }

    /// The version that follows by incrementing the major version, resetting minor and patch.
    pub fn increment_major(&self) -> (r: Self)
        requires
            self.major < u32::MAX,
        ensures
            r.major == self.major + 1,
            r.minor == 0,
            r.patch == 0,
            r.prerelease is None,
            r.build is None,
    {
        Self { major: self.major + 1, minor: 0, patch: 0, prerelease: None, build: None }
    }

    /// Version precedence of `self` against `other`, as a standard ordering.
    pub fn compare(&self, other: &Version) -> (r: Ordering)
        ensures
            r == to_ordering(version_order(*self, *other)),
    {
        match self.precedence(other) {
            Precedence::Less => Ordering::Less,
            Precedence::Equal => Ordering::Equal,
            Precedence::Greater => Ordering::Greater,
        }
    }

    /// Version precedence of `self` against `other`.
    pub fn precedence(&self, other: &Version) -> (r: Precedence)
        ensures
            r == version_order(*self, *other),
    {
        if self.major != other.major {
            return order_u32(self.major, other.major);
        }
        if self.minor != other.minor {
            return order_u32(self.minor, other.minor);
        }
        if self.patch != other.patch {
            return order_u32(self.patch, other.patch);
        }
        match (&self.prerelease, &other.prerelease) {
            (None, Some(_)) => Precedence::Greater,
            (Some(_), None) => Precedence::Less,
            (None, None) => Precedence::Equal,
            (Some(a), Some(b)) => compare_prerelease(a.as_str(), b.as_str()),
        }
    }

    /// Whether this version is compatible with `other` under semantic versioning.
    pub fn is_compatible_with(&self, other: &Version) -> (r: bool)
        ensures
            r == compatible(*self, *other),
    {
        if self.major == 0 && other.major == 0 {
            self.major == other.major && self.minor == other.minor && self <= other
        } else {
            self.major == other.major && self <= other
        }
    }

    /// The text form `major.minor.patch[-prerelease][+build]`.
    pub fn to_string(&self) -> (r: String)
        ensures
            r@ == version_text(*self),
    {
        let mut r = chars_to_string(&u64_to_decimal(widen(self.major)));
        r.append(".");
        r.append(chars_to_string(&u64_to_decimal(widen(self.minor))).as_str());
        r.append(".");
        r.append(chars_to_string(&u64_to_decimal(widen(self.patch))).as_str());
        if let Some(p) = &self.prerelease {
            r.append("-");
            r.append(p.as_str());
        }
        if let Some(b) = &self.build {
            r.append("+");
            r.append(b.as_str());
        }
        r
    }

    /// Parse a version from its text form.
    pub fn from_str(s: &str) -> (r: Result<Version, VersionParseError>)
        ensures
            match r {
                Ok(v) => parse_version_spec(s@) == Ok::<_, Seq<char>>(version_fields(v)),
                Err(e) => e.version@ == s@ && parse_version_spec(s@) == Err::<
                    (u32, u32, u32, Option<Seq<char>>, Option<Seq<char>>),
                    _,
                >(e.reason@),
            },
    {
        let chars = str_to_chars(s);
        let (vp, build) = split_once_char(&chars, '+');
        let (version, pre) = split_once_char(&vp, '-');
        let (major_text, rest) = split_once_char(&version, '.');
        let major = match parse_u32(&major_text) {
            Some(m) => m,
            None => {
                return Err(parse_error(s, "Invalid major version"));
            },
        };
        let rest = match rest {
            Some(r) => r,
            None => {
                return Err(parse_error(s, "Missing minor version"));
            },
        };
        let (minor_text, patch_text) = split_once_char(&rest, '.');
        let minor = match parse_u32(&minor_text) {
            Some(m) => m,
            None => {
                return Err(parse_error(s, "Invalid minor version"));
            },
        };
        let patch_text = match patch_text {
            Some(p) => p,
            None => {
                return Err(parse_error(s, "Missing patch version"));
            },
        };
        let patch = match parse_u32(&patch_text) {
            Some(p) => p,
            None => {
                return Err(parse_error(s, "Invalid patch version"));
            },
        };
        if let Some(p) = &pre {
            if let Some(reason) = check_part(
                p,
                "Empty prerelease identifier",
                "Invalid prerelease identifier",
            ) {
                return Err(parse_error(s, reason));
            }
        }
        if let Some(b) = &build {
            if let Some(reason) = check_part(b, "Empty build metadata", "Invalid build metadata") {
                return Err(parse_error(s, reason));
            }
        }
        let prerelease = match &pre {
            Some(p) => Some(chars_to_string(p)),
            None => None,
        };
        let build = match &build {
            Some(b) => Some(chars_to_string(b)),
            None => None,
        };
        Ok(Version { major, minor, patch, prerelease, build })
    }
}

impl PartialOrd for Version {
    fn partial_cmp(&self, other: &Self) -> (r: Option<Ordering>) {
        Some(self.compare(other))
    }
}

impl vstd::std_specs::cmp::PartialOrdSpecImpl for Version {
    open spec fn obeys_partial_cmp_spec() -> bool {
        true
    }

    open spec fn partial_cmp_spec(&self, other: &Self) -> Option<Ordering> {
        Some(to_ordering(version_order(*self, *other)))
    }
}

impl core::str::FromStr for Version {
    type Err = VersionParseError;

    fn from_str(s: &str) -> (r: Result<Self, Self::Err>)
        ensures
            match r {
                Ok(v) => parse_version_spec(s@) == Ok::<_, Seq<char>>(version_fields(v)),
                Err(e) => e.version@ == s@ && parse_version_spec(s@) == Err::<
                    (u32, u32, u32, Option<Seq<char>>, Option<Seq<char>>),
                    _,
                >(e.reason@),
            },
    {
        Version::from_str(s)
    }
}

/// A `u32` as a `u64`.
fn widen(x: u32) -> (r: u64)
    ensures
        r == x,
{
    let r: u64 = x.into();
    r
}

/// The order of two `u32` values.
fn order_u32(a: u32, b: u32) -> (r: Precedence)
    ensures
        r == num_order(a as int, b as int),
{
    if a < b {
        Precedence::Less
    } else if a == b {
        Precedence::Equal
    } else {
        Precedence::Greater
    }
}

/// The error for the text `s` with the given reason.
fn parse_error(s: &str, reason: &str) -> (e: VersionParseError)
    ensures
        e.version@ == s@,
        e.reason@ == reason@,
{
    VersionParseError { version: String::from_str(s), reason: String::from_str(reason) }
}

/// The fault of a prerelease or build part, if any.
#[verifier::loop_isolation(false)]
fn check_part<'a>(p: &Vec<char>, empty: &'a str, invalid: &'a str) -> (r: Option<&'a str>)
    ensures
        match r {
            Some(t) => part_fault(p@, empty@, invalid@) == Some(t@),
            None => part_fault(p@, empty@, invalid@) is None,
        },
{
    if p.len() == 0 {
        return Some(empty);
    }
    let pieces = split_chars(p, '.');
    let ghost all = split_char(p@, '.');
    let mut i: usize = 0;
    assert(all.skip(0) =~= all);
    while i < pieces.len()
        invariant
            i <= pieces@.len(),
            p@.len() > 0,
            all == split_char(p@, '.'),
            pieces@.len() == all.len(),
            forall|k: int| 0 <= k < pieces@.len() ==> (#[trigger] pieces@[k])@ == all[k],
            pieces_fault(all, empty@, invalid@) == pieces_fault(all.skip(i as int), empty@, invalid@),
        decreases pieces@.len() - i,
    {
        let piece = &pieces[i];
        proof {
            assert(all.skip(i as int).len() > 0);
            assert(all.skip(i as int)[0] == piece@);
            assert(all.skip(i as int).drop_first() =~= all.skip(i + 1));
        }
        if piece.len() == 0 {
            return Some(empty);
        }
        let mut j: usize = 0;
        while j < piece.len()
            invariant
                j <= piece@.len(),
                i < pieces@.len(),
                i < all.len(),
                all.skip(i as int)[0] == piece@,
                forall|k: int| 0 <= k < j ==> ident_char(#[trigger] piece@[k]),
            decreases piece@.len() - j,
        {
            let c = piece[j];
            if !(('0' <= c && c <= '9') || ('a' <= c && c <= 'z') || ('A' <= c && c <= 'Z') || c
                == '-') {
                proof {
                    assert(!ident_char(piece@[j as int]));
                    assert(!ident_char(all.skip(i as int)[0][j as int]));
                }
                return Some(invalid);
            }
            j = j + 1;
        }
        i = i + 1;
    }
    proof {
        assert(all.skip(i as int).len() == 0);
    }
    None
}

/// The lexicographic order of two character vectors.
fn compare_chars(a: &Vec<char>, b: &Vec<char>) -> (r: Precedence)
    ensures
        r == lex_order(a@, b@),
{
    let mut i: usize = 0;
    assert(a@.skip(0) =~= a@);
    assert(b@.skip(0) =~= b@);
    while i < a.len() && i < b.len()
        invariant
            i <= a@.len(),
            i <= b@.len(),
            lex_order(a@, b@) == lex_order(a@.skip(i as int), b@.skip(i as int)),
        decreases a@.len() - i,
    {
        let x = a[i];
        let y = b[i];
        proof {
            assert(a@.skip(i as int)[0] == x);
            assert(b@.skip(i as int)[0] == y);
            assert(a@.skip(i as int).drop_first() =~= a@.skip(i + 1));
            assert(b@.skip(i as int).drop_first() =~= b@.skip(i + 1));
        }
        if x < y {
            return Precedence::Less;
        }
        if x > y {
            return Precedence::Greater;
        }
        i = i + 1;
    }
    if i < a.len() {
        Precedence::Greater
    } else if i < b.len() {
        Precedence::Less
    } else {
        Precedence::Equal
    }
}

/// Whether every character is numeric in the sense of `char::is_numeric`.
fn all_numeric_chars(a: &Vec<char>) -> (r: bool)
    ensures
        r == all_numeric(a@),
{
    let mut i: usize = 0;
    while i < a.len()
        invariant
            i <= a@.len(),
            forall|k: int| 0 <= k < i ==> numeric_char(#[trigger] a@[k]),
        decreases a@.len() - i,
    {
        if !is_numeric_char(a[i]) {
            return false;
        }
        i = i + 1;
    }
    true
}

/// The precedence of two prerelease identifiers.
fn compare_identifier(a: &Vec<char>, b: &Vec<char>) -> (r: Precedence)
    ensures
        r == identifier_order(a@, b@),
{
    let an = all_numeric_chars(a);
    let bn = all_numeric_chars(b);
    if an && bn {
        let x = match parse_u64(a) {
            Some(v) => v,
            None => 0,
        };
        let y = match parse_u64(b) {
            Some(v) => v,
            None => 0,
        };
        if x < y {
            Precedence::Less
        } else if x == y {
            Precedence::Equal
        } else {
            Precedence::Greater
        }
    } else if an {
        Precedence::Less
    } else if bn {
        Precedence::Greater
    } else {
        compare_chars(a, b)
    }
}

/// The precedence of two prerelease strings.
fn compare_prerelease(a: &str, b: &str) -> (r: Precedence)
    ensures
        r == identifiers_order(split_char(a@, '.'), split_char(b@, '.')),
{
    let ap = split_chars(&str_to_chars(a), '.');
    let bp = split_chars(&str_to_chars(b), '.');
    let ghost sa = split_char(a@, '.');
    let ghost sb = split_char(b@, '.');
    let mut i: usize = 0;
    assert(sa.skip(0) =~= sa);
    assert(sb.skip(0) =~= sb);
    while i < ap.len() && i < bp.len()
        invariant
            i <= ap@.len(),
            i <= bp@.len(),
            sa == split_char(a@, '.'),
            sb == split_char(b@, '.'),
            ap@.len() == sa.len(),
            bp@.len() == sb.len(),
            forall|k: int| 0 <= k < ap@.len() ==> (#[trigger] ap@[k])@ == sa[k],
            forall|k: int| 0 <= k < bp@.len() ==> (#[trigger] bp@[k])@ == sb[k],
            identifiers_order(sa, sb) == identifiers_order(sa.skip(i as int), sb.skip(i as int)),
        decreases ap@.len() - i,
    {
        let o = compare_identifier(&ap[i], &bp[i]);
        proof {
            assert(sa.skip(i as int).len() > 0);
            assert(sb.skip(i as int).len() > 0);
            assert(sa.skip(i as int)[0] == ap@[i as int]@);
            assert(sb.skip(i as int)[0] == bp@[i as int]@);
            assert(sa.skip(i as int).drop_first() =~= sa.skip(i + 1));
            assert(sb.skip(i as int).drop_first() =~= sb.skip(i + 1));
        }
        if o != Precedence::Equal {
            return o;
        }
        i = i + 1;
    }
    if i < ap.len() {
        Precedence::Greater
    } else if i < bp.len() {
        Precedence::Less
    } else {
        Precedence::Equal
    }
}

/// A dot-separated piece that the parser accepts: non-empty, of ASCII letters, digits and `-`.
pub open spec fn piece_ok(q: Seq<char>) -> bool {
    q.len() > 0 && forall|i: int| 0 <= i < q.len() ==> ident_char(#[trigger] q[i])
}

/// A prerelease or build part that the parser accepts: non-empty, and each dot-separated
/// piece accepted.
pub open spec fn well_formed_part(p: Seq<char>) -> bool {
    p.len() > 0 && forall|k: int|
        0 <= k < split_char(p, '.').len() ==> piece_ok(#[trigger] split_char(p, '.')[k])
}

/// A version whose prerelease and build parts, where present, are well formed.
pub open spec fn well_formed_version(v: Version) -> bool {
    &&& (match opt_text(v.prerelease) {
        Some(p) => well_formed_part(p),
        None => true,
    })
    &&& (match opt_text(v.build) {
        Some(b) => well_formed_part(b),
        None => true,
    })
}

/// Accepted pieces have no fault, whatever the messages.
proof fn lemma_pieces_fault_none(pieces: Seq<Seq<char>>, empty: Seq<char>, invalid: Seq<char>)
    requires
        forall|k: int| 0 <= k < pieces.len() ==> piece_ok(#[trigger] pieces[k]),
    ensures
        pieces_fault(pieces, empty, invalid) is None,
    decreases pieces.len(),
{
    if pieces.len() > 0 {
        assert(piece_ok(pieces[0]));
        assert forall|k: int| 0 <= k < pieces.drop_first().len() implies piece_ok(
            #[trigger] pieces.drop_first()[k],
        ) by {
            assert(piece_ok(pieces[k + 1]));
        }
        lemma_pieces_fault_none(pieces.drop_first(), empty, invalid);
    }
}

/// A well-formed part holds no `+`, and no character that is neither `.` nor allowed in a
/// piece.
proof fn lemma_well_formed_part_chars(p: Seq<char>)
    requires
        well_formed_part(p),
    ensures
        forall|i: int| 0 <= i < p.len() ==> #[trigger] p[i] == '.' || ident_char(p[i]),
        !p.contains('+'),
{
    let pieces = split_char(p, '.');
    assert forall|k: int, j: int| 0 <= k < pieces.len() && 0 <= j < pieces[k].len() implies (
    |c: char| ident_char(c))(#[trigger] pieces[k][j]) by {
        assert(piece_ok(pieces[k]));
    }
    lemma_split_char_all(p, '.', |c: char| ident_char(c));
    if p.contains('+') {
        let k = choose|k: int| 0 <= k < p.len() && p[k] == '+';
        assert(p[k] == '.' || ident_char(p[k]));
    }
}

/// Reading the text form of a well-formed version gives back its fields.
pub proof fn lemma_version_text_round_trip(v: Version)
    requires
        well_formed_version(v),
    ensures
        parse_version_spec(version_text(v)) == Ok::<_, Seq<char>>(version_fields(v)),
{
    reveal_strlit(".");
    reveal_strlit("-");
    reveal_strlit("+");
    let d1 = decimal_text(v.major as nat);
    let d2 = decimal_text(v.minor as nat);
    let d3 = decimal_text(v.patch as nat);
    lemma_decimal_text(v.major as nat);
    lemma_decimal_text(v.minor as nat);
    lemma_decimal_text(v.patch as nat);
    lemma_parse_decimal_u32(v.major);
    lemma_parse_decimal_u32(v.minor);
    lemma_parse_decimal_u32(v.patch);
    let dot = seq!['.'];
    assert("."@ =~= dot);
    assert("-"@ =~= seq!['-']);
    assert("+"@ =~= seq!['+']);
    lemma_digits_not_contains(d1, '.');
    lemma_digits_not_contains(d2, '.');
    lemma_digits_not_contains(d3, '.');
    lemma_digits_not_contains(d1, '-');
    lemma_digits_not_contains(d2, '-');
    lemma_digits_not_contains(d3, '-');
    lemma_digits_not_contains(d1, '+');
    lemma_digits_not_contains(d2, '+');
    lemma_digits_not_contains(d3, '+');
    assert(!dot.contains('-'));
    assert(!dot.contains('+'));
    let rest = d2 + dot + d3;
    let core = d1 + dot + rest;
    assert(core =~= d1 + "."@ + d2 + "."@ + d3);
    lemma_concat_not_contains(d2, dot, '-');
    lemma_concat_not_contains(d2 + dot, d3, '-');
    lemma_concat_not_contains(d1, dot, '-');
    lemma_concat_not_contains(d1 + dot, rest, '-');
    lemma_concat_not_contains(d2, dot, '+');
    lemma_concat_not_contains(d2 + dot, d3, '+');
    lemma_concat_not_contains(d1, dot, '+');
    lemma_concat_not_contains(d1 + dot, rest, '+');
    lemma_split_once_concat(d1, '.', rest);
    lemma_split_once_concat(d2, '.', d3);
    let with_pre = match opt_text(v.prerelease) {
        Some(p) => core + seq!['-'] + p,
        None => core,
    };
    match opt_text(v.prerelease) {
        Some(p) => {
            lemma_well_formed_part_chars(p);
            lemma_pieces_fault_none(
                split_char(p, '.'),
                "Empty prerelease identifier"@,
                "Invalid prerelease identifier"@,
            );
            assert(!seq!['-'].contains('+'));
            lemma_concat_not_contains(core, seq!['-'], '+');
            lemma_concat_not_contains(core + seq!['-'], p, '+');
            lemma_split_once_concat(core, '-', p);
        },
        None => {
            lemma_split_once_absent(core, '-');
        },
    }
    match opt_text(v.build) {
        Some(b) => {
            lemma_well_formed_part_chars(b);
            lemma_pieces_fault_none(
                split_char(b, '.'),
                "Empty build metadata"@,
                "Invalid build metadata"@,
            );
            lemma_split_once_concat(with_pre, '+', b);
            assert(version_text(v) =~= with_pre + seq!['+'] + b);
        },
        None => {
            lemma_split_once_absent(with_pre, '+');
            assert(version_text(v) =~= with_pre);
        },
    }
}

/// The opposite outcome.
pub open spec fn flip(p: Precedence) -> Precedence {
    match p {
        Precedence::Less => Precedence::Greater,
        Precedence::Equal => Precedence::Equal,
        Precedence::Greater => Precedence::Less,
    }
}

proof fn lemma_lex_order_flip(a: Seq<char>, b: Seq<char>)
    ensures
        lex_order(a, b) == flip(lex_order(b, a)),
        lex_order(a, a) == Precedence::Equal,
    decreases a.len(),
{
    if a.len() > 0 && b.len() > 0 {
        lemma_lex_order_flip(a.drop_first(), b.drop_first());
    }
    if a.len() > 0 {
        lemma_lex_order_flip(a.drop_first(), a.drop_first());
    }
}

proof fn lemma_identifiers_order_flip(a: Seq<Seq<char>>, b: Seq<Seq<char>>)
    ensures
        identifiers_order(a, b) == flip(identifiers_order(b, a)),
        identifiers_order(a, a) == Precedence::Equal,
    decreases a.len(),
{
    if a.len() > 0 && b.len() > 0 {
        lemma_lex_order_flip(a[0], b[0]);
        lemma_identifiers_order_flip(a.drop_first(), b.drop_first());
    }
    if a.len() > 0 {
        lemma_lex_order_flip(a[0], a[0]);
        lemma_identifiers_order_flip(a.drop_first(), a.drop_first());
    }
}

/// Version precedence is reflexive and antisymmetric: every version is equal in precedence
/// to itself, and `a` precedes `b` exactly when `b` follows `a`.
pub proof fn lemma_version_order_flip(a: Version, b: Version)
    ensures
        version_order(a, b) == flip(version_order(b, a)),
        version_order(a, a) == Precedence::Equal,
{
    match (opt_text(a.prerelease), opt_text(b.prerelease)) {
        (Some(x), Some(y)) => {
            lemma_identifiers_order_flip(split_char(x, '.'), split_char(y, '.'));
        },
        _ => {},
    }
    match opt_text(a.prerelease) {
        Some(x) => {
            lemma_identifiers_order_flip(split_char(x, '.'), split_char(x, '.'));
        },
        None => {},
    }
}

/// Every version is compatible with itself.
pub proof fn lemma_compatible_reflexive(v: Version)
    ensures
        compatible(v, v),
{
    lemma_version_order_flip(v, v);
}

/// The next patch version comes after `v` and is compatible with it.
pub proof fn lemma_next_patch(v: Version, w: Version)
    requires
        w.major == v.major,
        w.minor == v.minor,
        w.patch == v.patch + 1,
    ensures
        version_order(v, w) == Precedence::Less,
        compatible(v, w),
{
}

/// The next minor version comes after `v`; it is compatible with `v` exactly when the major
/// version is not zero.
pub proof fn lemma_next_minor(v: Version, w: Version)
    requires
        w.major == v.major,
        w.minor == v.minor + 1,
    ensures
        version_order(v, w) == Precedence::Less,
        compatible(v, w) <==> v.major != 0,
{
}

/// The next major version comes after `v` and is never compatible with it.
pub proof fn lemma_next_major(v: Version, w: Version)
    requires
        w.major == v.major + 1,
    ensures
        version_order(v, w) == Precedence::Less,
        !compatible(v, w),
{
}

/// A precedence that puts the first at or before the second.
pub open spec fn not_after(p: Precedence) -> bool {
    p != Precedence::Greater
}

/// What transitivity asks of three precedences: `ab` between the first and second, `bc`
/// between the second and third, `ac` between the first and third.
pub open spec fn chains(ab: Precedence, bc: Precedence, ac: Precedence) -> bool {
    &&& not_after(ab) && not_after(bc) ==> not_after(ac)
    &&& ab == Precedence::Less && not_after(bc) ==> ac == Precedence::Less
    &&& not_after(ab) && bc == Precedence::Less ==> ac == Precedence::Less
    &&& ab == Precedence::Equal && bc == Precedence::Equal ==> ac == Precedence::Equal
}

proof fn lemma_lex_order_trans(a: Seq<char>, b: Seq<char>, c: Seq<char>)
    ensures
        chains(lex_order(a, b), lex_order(b, c), lex_order(a, c)),
    decreases a.len(),
{
    if a.len() > 0 && b.len() > 0 && c.len() > 0 {
        lemma_lex_order_trans(a.drop_first(), b.drop_first(), c.drop_first());
    }
}

proof fn lemma_identifier_order_trans(a: Seq<char>, b: Seq<char>, c: Seq<char>)
    ensures
        chains(identifier_order(a, b), identifier_order(b, c), identifier_order(a, c)),
{
    lemma_lex_order_trans(a, b, c);
}

proof fn lemma_identifiers_order_trans(a: Seq<Seq<char>>, b: Seq<Seq<char>>, c: Seq<Seq<char>>)
    ensures
        chains(identifiers_order(a, b), identifiers_order(b, c), identifiers_order(a, c)),
    decreases a.len(),
{
    if a.len() > 0 && b.len() > 0 && c.len() > 0 {
        lemma_identifier_order_trans(a[0], b[0], c[0]);
        lemma_identifiers_order_trans(a.drop_first(), b.drop_first(), c.drop_first());
    }
}

/// Version precedence is transitive: a version at or before a second one, itself at or
/// before a third, is at or before the third, strictly before where either step is strict,
/// and equal in precedence where both steps are.
pub proof fn lemma_version_order_trans(a: Version, b: Version, c: Version)
    ensures
        chains(version_order(a, b), version_order(b, c), version_order(a, c)),
{
    match (opt_text(a.prerelease), opt_text(b.prerelease), opt_text(c.prerelease)) {
        (Some(x), Some(y), Some(z)) => {
            lemma_identifiers_order_trans(
                split_char(x, '.'),
                split_char(y, '.'),
                split_char(z, '.'),
            );
        },
        _ => {},
    }
}

/// An identifier of ASCII digits is numeric, with the value it reads as.
proof fn lemma_digit_identifier(x: Seq<char>)
    requires
        all_digits(x),
    ensures
        all_numeric(x),
        !x.contains('.'),
{
    assert forall|i: int| 0 <= i < x.len() implies numeric_char(#[trigger] x[i]) by {
        assert(is_ascii_digit(x[i]));
    }
    lemma_digits_not_contains(x, '.');
}

/// Two prerelease identifiers of ASCII digits that read as `u64` values are ordered by those
/// values.
pub proof fn lemma_numeric_identifier_order(x: Seq<char>, y: Seq<char>)
    requires
        all_digits(x),
        all_digits(y),
        parse_u64_spec(x) is Some,
        parse_u64_spec(y) is Some,
    ensures
        identifier_order(x, y) == num_order(
            parse_u64_spec(x)->0 as int,
            parse_u64_spec(y)->0 as int,
        ),
{
    lemma_digit_identifier(x);
    lemma_digit_identifier(y);
}

/// Two versions that differ only in a prerelease of ASCII digits reading as `u64` values are
/// ordered by those values; so `1.2.3-2` comes before `1.2.3-10`.
pub proof fn lemma_numeric_prerelease_order(a: Version, b: Version, x: Seq<char>, y: Seq<char>)
    requires
        a.major == b.major,
        a.minor == b.minor,
        a.patch == b.patch,
        opt_text(a.prerelease) == Some(x),
        opt_text(b.prerelease) == Some(y),
        all_digits(x),
        all_digits(y),
        parse_u64_spec(x) is Some,
        parse_u64_spec(y) is Some,
    ensures
        version_order(a, b) == num_order(
            parse_u64_spec(x)->0 as int,
            parse_u64_spec(y)->0 as int,
        ),
{
    lemma_numeric_identifier_order(x, y);
    lemma_digit_identifier(x);
    lemma_digit_identifier(y);
    lemma_split_no_sep(x, '.');
    lemma_split_no_sep(y, '.');
    let xs = split_char(x, '.');
    let ys = split_char(y, '.');
    assert(xs.drop_first() =~= Seq::<Seq<char>>::empty());
    assert(ys.drop_first() =~= Seq::<Seq<char>>::empty());
    assert(xs[0] == x && ys[0] == y);
    assert(identifiers_order(xs.drop_first(), ys.drop_first()) == Precedence::Equal);
    assert(identifiers_order(xs, ys) == identifier_order(x, y));
    assert(prerelease_order(opt_text(a.prerelease), opt_text(b.prerelease)) == identifier_order(
        x,
        y,
    ));
}

/// Compatibility in words: the same major version, the same minor version too where the major
/// version is 0, and the first version no later than the second in precedence. So a later
/// patch, minor version or prerelease is never compatible with an earlier one.
pub proof fn lemma_compatible_means(a: Version, b: Version)
    ensures
        compatible(a, b) <==> {
            &&& a.major == b.major
            &&& a.major == 0 ==> a.minor == b.minor
            &&& version_order(a, b) != Precedence::Greater
        },
{
}

/// Compatibility is never given to a version later than the other.
pub proof fn lemma_compatible_not_later(a: Version, b: Version)
    requires
        version_order(a, b) == Precedence::Greater,
    ensures
        !compatible(a, b),
{
}

} // verus!
