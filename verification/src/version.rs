//! Semantic versions: their parts, their order, their notation.

use vstd::prelude::*;
use vstd::string::*;

use crate::text;

verus! {

/// The parts of a semantic version.
pub ghost struct VersionModel {
    pub major: nat,
    pub minor: nat,
    pub patch: nat,
    pub pre: Seq<char>,
    pub build: Seq<char>,
}

/// A semantic version. The suffixes are kept as they are written, without the
/// hyphen or the plus sign; an empty text means that there is none.
#[derive(Debug, PartialEq, Eq)]
pub struct Version {
    pub major: u64,
    pub minor: u64,
    pub patch: u64,
    pub pre: String,
    pub build: String,
}

impl View for Version {
    type V = VersionModel;

    open spec fn view(&self) -> VersionModel {
        VersionModel {
            major: self.major as nat,
            minor: self.minor as nat,
            patch: self.patch as nat,
            pre: self.pre@,
            build: self.build@,
        }
    }
}

/// How one version stands to another.
#[derive(Clone, Copy, Debug, PartialEq, Eq, Structural)]
pub enum Order {
    Less,
    Equal,
    Greater,
}

/// The order of the three numbers, the major number first.
pub open spec fn number_order(a: VersionModel, b: VersionModel) -> Order {
    if a.major != b.major {
        if a.major < b.major {
            Order::Less
        } else {
            Order::Greater
        }
    } else if a.minor != b.minor {
        if a.minor < b.minor {
            Order::Less
        } else {
            Order::Greater
        }
    } else if a.patch != b.patch {
        if a.patch < b.patch {
            Order::Less
        } else {
            Order::Greater
        }
    } else {
        Order::Equal
    }
}

/// What `semver::Version::parse` makes of a text.
pub uninterp spec fn parsed_version(text: Seq<char>) -> Option<VersionModel>;

/// What the error of `semver::Version::parse` says of a text that is no version.
pub uninterp spec fn parse_complaint(text: Seq<char>) -> Seq<char>;

/// How `semver::Version::cmp` orders two versions with the same three numbers:
/// by pre-release, then by build metadata.
pub uninterp spec fn suffix_order(
    pre: Seq<char>,
    build: Seq<char>,
    other_pre: Seq<char>,
    other_build: Seq<char>,
) -> Order;

/// How `semver::Version::cmp_precedence` orders two versions with the same three
/// numbers: by pre-release alone.
pub uninterp spec fn pre_order(pre: Seq<char>, other_pre: Seq<char>) -> Order;

/// The total order of versions.
pub open spec fn version_order(a: VersionModel, b: VersionModel) -> Order {
    if number_order(a, b) != Order::Equal {
        number_order(a, b)
    } else {
        suffix_order(a.pre, a.build, b.pre, b.build)
    }
}

/// The precedence of versions: their order when build metadata does not count.
pub open spec fn precedence(a: VersionModel, b: VersionModel) -> Order {
    if number_order(a, b) != Order::Equal {
        number_order(a, b)
    } else {
        pre_order(a.pre, b.pre)
    }
}

/// `a` comes strictly after `b`; no version comes after itself.
pub open spec fn newer(a: VersionModel, b: VersionModel) -> bool {
    a != b && version_order(a, b) == Order::Greater
}

/// `a` has a strictly higher precedence than `b`; no version has one over a version
/// that differs from it in build metadata alone.
pub open spec fn higher(a: VersionModel, b: VersionModel) -> bool {
    (number_order(a, b) != Order::Equal || a.pre != b.pre) && precedence(a, b) == Order::Greater
}

/// The text is a pre-release of the simplest kind: small letters only.
pub open spec fn is_stage_name(s: Seq<char>) -> bool {
    s.len() > 0 && forall|i: int| 0 <= i < s.len() ==> 'a' <= #[trigger] s[i] <= 'z'
}

/// The second version is a pre-release of the first, which is a release.
pub open spec fn releases(a: VersionModel, b: VersionModel) -> bool {
    number_order(a, b) == Order::Equal && a.pre.len() == 0 && is_stage_name(b.pre)
}

/// The version without its suffixes.
pub open spec fn bare(v: VersionModel) -> VersionModel {
    VersionModel { pre: Seq::empty(), build: Seq::empty(), ..v }
}

/// The usual notation of a version.
pub open spec fn notation(v: VersionModel) -> Seq<char> {
    text::decimal_of(v.major) + seq!['.'] + text::decimal_of(v.minor) + seq!['.']
        + text::decimal_of(v.patch) + (if v.pre.len() == 0 {
        Seq::empty()
    } else {
        seq!['-'] + v.pre
    }) + (if v.build.len() == 0 {
        Seq::empty()
    } else {
        seq!['+'] + v.build
    })
}

/// `semver::Version::parse`: the parts of the version that the text denotes, or, where
/// it reports an error, the words of that error. Which texts it accepts, and how it
/// words an error, is left to the crate.
#[verifier::external_body]
fn parse_version(text: &str) -> (r: Result<Version, String>)
    ensures
        match r {
            Ok(v) => parsed_version(text@) == Some(v@),
            Err(m) => parsed_version(text@) is None && m@ == parse_complaint(text@),
        },
{
    let v = semver::Version::parse(text).map_err(|e| e.to_string())?;
    Ok(
        Version {
            major: v.major,
            minor: v.minor,
            patch: v.patch,
            pre: v.pre.to_string(),
            build: v.build.to_string(),
        },
    )
}

/// `semver::Version::cmp`: the three numbers decide, the major number first;
/// where they agree, the suffixes do, and equal suffixes leave the versions
/// equal. Where the build metadata agrees too, the pre-releases decide, as they do for
/// `semver::Version::cmp_precedence`. A release comes after its pre-releases. A suffix that the crate does not
/// accept counts as absent.
#[verifier::external_body]
fn compare_versions(a: &Version, b: &Version) -> (r: Order)
    ensures
        number_order(a@, b@) != Order::Equal ==> r == number_order(a@, b@),
        number_order(a@, b@) == Order::Equal ==> r == suffix_order(
            a@.pre,
            a@.build,
            b@.pre,
            b@.build,
        ),
        number_order(a@, b@) == Order::Equal && a@.build == b@.build ==> r == pre_order(
            a@.pre,
            b@.pre,
        ),
        a@ == b@ ==> r == Order::Equal,
        releases(a@, b@) ==> r == Order::Greater,
        releases(b@, a@) ==> r == Order::Less,
{
    let pre = |s: &String| semver::Prerelease::new(s).unwrap_or_default();
    let build = |s: &String| semver::BuildMetadata::new(s).unwrap_or_default();
    let mut x = semver::Version::new(a.major, a.minor, a.patch);
    let mut y = semver::Version::new(b.major, b.minor, b.patch);
    (x.pre, x.build) = (pre(&a.pre), build(&a.build));
    (y.pre, y.build) = (pre(&b.pre), build(&b.build));
    match x.cmp(&y) {
        std::cmp::Ordering::Less => Order::Less,
        std::cmp::Ordering::Equal => Order::Equal,
        std::cmp::Ordering::Greater => Order::Greater,
    }
}

/// `semver::Version::cmp_precedence`: the three numbers decide, the major number
/// first; where they agree, the pre-releases do, and equal pre-releases leave the
/// versions equal. A release comes after its pre-releases. Build metadata does not
/// count. A pre-release that the crate does not accept counts as absent.
#[verifier::external_body]
fn compare_precedence(a: &Version, b: &Version) -> (r: Order)
    ensures
        number_order(a@, b@) != Order::Equal ==> r == number_order(a@, b@),
        number_order(a@, b@) == Order::Equal ==> r == pre_order(a@.pre, b@.pre),
        a@.pre == b@.pre && number_order(a@, b@) == Order::Equal ==> r == Order::Equal,
        releases(a@, b@) ==> r == Order::Greater,
        releases(b@, a@) ==> r == Order::Less,
{
    let pre = |s: &String| semver::Prerelease::new(s).unwrap_or_default();
    let mut x = semver::Version::new(a.major, a.minor, a.patch);
    let mut y = semver::Version::new(b.major, b.minor, b.patch);
    x.pre = pre(&a.pre);
    y.pre = pre(&b.pre);
    match x.cmp_precedence(&y) {
        std::cmp::Ordering::Less => Order::Less,
        std::cmp::Ordering::Equal => Order::Equal,
        std::cmp::Ordering::Greater => Order::Greater,
    }
}

impl Version {
    /// The version without suffixes that has these numbers.
    pub fn new(major: u64, minor: u64, patch: u64) -> (r: Version)
        ensures
            r@ == (VersionModel {
                major: major as nat,
                minor: minor as nat,
                patch: patch as nat,
                pre: Seq::empty(),
                build: Seq::empty(),
            }),
    {
        Version { major, minor, patch, pre: String::new(), build: String::new() }
    }

    /// Reads the notation of a version.
    pub fn parse(text: &str) -> (r: Option<Version>)
        ensures
            match r {
                Some(v) => parsed_version(text@) == Some(v@),
                None => parsed_version(text@) is None,
            },
    {
        match parse_version(text) {
            Ok(v) => Some(v),
            Err(_) => None,
        }
    }

    /// Reads the notation of a version; the error says what is wrong with it.
    pub fn parse_strictly(text: &str) -> (r: Result<Version, String>)
        ensures
            match r {
                Ok(v) => parsed_version(text@) == Some(v@),
                Err(m) => parsed_version(text@) is None && m@ == parse_complaint(text@),
            },
    {
        parse_version(text)
    }

    /// Whether this version comes strictly after `other`. A release comes after its
    /// pre-releases. Where the build metadata agrees, precedence decides.
    pub fn newer_than(&self, other: &Version) -> (r: bool)
        ensures
            r == newer(self@, other@),
            self@.build == other@.build ==> r == higher(self@, other@),
            releases(self@, other@) ==> r,
            releases(other@, self@) ==> !r,
    {
        compare_versions(self, other) == Order::Greater
    }

    /// Whether this version has a strictly higher precedence than `other`. A release
    /// has one over its pre-releases.
    pub fn outranks(&self, other: &Version) -> (r: bool)
        ensures
            r == higher(self@, other@),
            releases(self@, other@) ==> r,
            releases(other@, self@) ==> !r,
    {
        compare_precedence(self, other) == Order::Greater
    }

    /// Whether two versions agree in every part.
    pub fn same_as(&self, other: &Version) -> (r: bool)
        ensures
            r == (self@ == other@),
    {
        self.major == other.major && self.minor == other.minor && self.patch == other.patch
            && text::same(&self.pre, &other.pre) && text::same(&self.build, &other.build)
    }

    pub fn duplicate(&self) -> (r: Version)
        ensures
            r@ == self@,
    {
        Version {
            major: self.major,
            minor: self.minor,
            patch: self.patch,
            pre: self.pre.clone(),
            build: self.build.clone(),
        }
    }

    /// The version without its suffixes.
    pub fn without_suffixes(&self) -> (r: Version)
        ensures
            r@ == bare(self@),
    {
        Version::new(self.major, self.minor, self.patch)
    }

    /// The usual notation.
    pub fn to_text(&self) -> (r: String)
        ensures
            r@ == notation(self@),
    {
        let mut s = text::decimal(self.major);
        text::push_char(&mut s, '.');
        s.append(text::decimal(self.minor).as_str());
        text::push_char(&mut s, '.');
        s.append(text::decimal(self.patch).as_str());
        if !self.pre.as_str().is_empty() {
            text::push_char(&mut s, '-');
            s.append(self.pre.as_str());
        }
        if !self.build.as_str().is_empty() {
            text::push_char(&mut s, '+');
            s.append(self.build.as_str());
        }
        assert(s@ =~= notation(self@));
        s
    }
}

/// Higher numbers are newer and rank higher, lower ones neither, whatever the suffixes; the
/// major number counts before the minor one, and that before the patch.
pub proof fn law_numbers_decide(a: VersionModel, b: VersionModel)
    ensures
        a.major > b.major || (a.major == b.major && (a.minor > b.minor || (a.minor == b.minor
            && a.patch > b.patch))) ==> newer(a, b) && higher(a, b) && !newer(b, a) && !higher(
            b,
            a,
        ),
        !newer(a, a),
        !higher(a, a),
        a.major == b.major && a.minor == b.minor && a.patch == b.patch && a.pre == b.pre
            ==> !higher(a, b),
{
}

/// A version without suffixes is written as its three numbers, with dots between them; a
/// pre-release follows a hyphen, and build metadata a plus sign.
pub proof fn law_notation(v: VersionModel)
    ensures
        bare(v).major == v.major && bare(v).minor == v.minor && bare(v).patch == v.patch,
        bare(v).pre.len() == 0 && bare(v).build.len() == 0,
        notation(bare(v)) == text::decimal_of(v.major) + seq!['.'] + text::decimal_of(v.minor)
            + seq!['.'] + text::decimal_of(v.patch),
        v.pre.len() > 0 && v.build.len() == 0 ==> notation(v) == notation(bare(v)) + seq!['-']
            + v.pre,
        v.pre.len() == 0 && v.build.len() > 0 ==> notation(v) == notation(bare(v)) + seq!['+']
            + v.build,
        v.pre.len() > 0 && v.build.len() > 0 ==> notation(v) == notation(bare(v)) + seq!['-']
            + v.pre + seq!['+'] + v.build,
{
    let n = text::decimal_of(v.major) + seq!['.'] + text::decimal_of(v.minor) + seq!['.']
        + text::decimal_of(v.patch);
    assert(notation(bare(v)) =~= n);
    if v.pre.len() > 0 && v.build.len() == 0 {
        assert(notation(v) =~= n + seq!['-'] + v.pre);
    }
    if v.pre.len() == 0 && v.build.len() > 0 {
        assert(notation(v) =~= n + seq!['+'] + v.build);
    }
    if v.pre.len() > 0 && v.build.len() > 0 {
        assert(notation(v) =~= n + seq!['-'] + v.pre + seq!['+'] + v.build);
    }
}

/// A version is released by the one with the same numbers and no suffix, not by others.
pub proof fn law_release_follows_its_stages(a: VersionModel, b: VersionModel)
    ensures
        releases(a, b) ==> a.major == b.major && a.minor == b.minor && a.patch == b.patch
            && a.pre.len() == 0 && b.pre.len() > 0,
        a.major == b.major && a.minor == b.minor && a.patch == b.patch && a.pre.len() == 0
            && b.pre.len() > 0 && (forall|i: int|
            0 <= i < b.pre.len() ==> 'a' <= #[trigger] b.pre[i] <= 'z') ==> releases(a, b),
{
}

} // verus!
