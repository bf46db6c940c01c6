//! Release packaging rules: the release artifact set, stable semantic
//! release versions, the macOS bundle metadata and icon container, and the
//! command line of the packaging tool.

use crate::text::{
    trim, trimmed,
    contains_name, join, joined, sorted_difference, sorted_distinct, sorted_set, split_words, views_of,
    words,
};
use vstd::prelude::*;

verus! {

pub const APP_NAME: &'static str = "Watch Bells";

pub const APP_ICON_NAME: &'static str = "WatchBells";

pub const MACOS_BINARY_NAME: &'static str = "watch-bells";

pub const MACOS_UNIVERSAL_ZIP_NAME: &'static str = "watch-bells-macos-universal.zip";

pub const MACOS_ARM64_MINIMUM_VERSION: &'static str = "11.0.0";

pub const MACOS_X86_64_MINIMUM_VERSION: &'static str = "10.13.0";

/// A file of a release: what it is, its public file name, and whether it
/// is published as executable.
#[derive(Clone, Copy, Debug, PartialEq, Eq)]
pub struct ReleaseArtifact {
    pub label: &'static str,
    pub file_name: &'static str,
    pub executable: bool,
}

/// The public file names of a release, in publication order.
pub open spec fn release_file_names() -> Seq<Seq<char>> {
    seq![
        "watch-bells-macos-universal.zip"@,
        "watch-bells-windows-x86_64.exe"@,
        "watch-bells-linux-x86_64"@,
        "watch-bells-linux-aarch64"@,
    ]
}

/// The four files of a release: the universal macOS application, the
/// Windows x86-64 executable, and the Linux x86-64 and ARM64 binaries; all
/// but the macOS archive are executable.
pub fn release_artifacts() -> (r: [ReleaseArtifact; 4])
    ensures
        r@.len() == 4,
        forall|i: int| 0 <= i < 4 ==> #[trigger] r@[i].file_name@ == release_file_names()[i],
        r@[0].label@ == "macOS universal application"@,
        r@[1].label@ == "Windows x86-64 executable"@,
        r@[2].label@ == "Linux x86-64 binary"@,
        r@[3].label@ == "Linux ARM64 binary"@,
        !r@[0].executable && r@[1].executable && r@[2].executable && r@[3].executable,
{
    [
        ReleaseArtifact {
            label: "macOS universal application",
            file_name: MACOS_UNIVERSAL_ZIP_NAME,
            executable: false,
        },
        ReleaseArtifact {
            label: "Windows x86-64 executable",
            file_name: "watch-bells-windows-x86_64.exe",
            executable: true,
        },
        ReleaseArtifact {
            label: "Linux x86-64 binary",
            file_name: "watch-bells-linux-x86_64",
            executable: true,
        },
        ReleaseArtifact {
            label: "Linux ARM64 binary",
            file_name: "watch-bells-linux-aarch64",
            executable: true,
        },
    ]
}

/// The pieces of `s` between occurrences of `sep`, as `str::split` yields
/// them: one more piece than there are separators.
pub open spec fn split_on(s: Seq<char>, sep: char) -> Seq<Seq<char>>
    decreases s.len(),
{
    if s.len() == 0 {
        seq![Seq::empty()]
    } else {
        let pieces = split_on(s.drop_last(), sep);
        if s.last() == sep {
            pieces.push(Seq::empty())
        } else {
            pieces.update(pieces.len() - 1, pieces.last().push(s.last()))
        }
    }
}

proof fn lemma_split_on_not_empty(s: Seq<char>, sep: char)
    ensures
        split_on(s, sep).len() >= 1,
    decreases s.len(),
{
    if s.len() > 0 {
        lemma_split_on_not_empty(s.drop_last(), sep);
    }
}

/// The pieces of `s` between occurrences of `sep`.
pub fn split_chars(s: &str, sep: char) -> (r: Vec<Vec<char>>)
    ensures
        r@.map_values(|piece: Vec<char>| piece@) == split_on(s@, sep),
{
    let n = s.unicode_len();
    let mut pieces: Vec<Vec<char>> = Vec::new();
    pieces.push(Vec::new());
    let mut i: usize = 0;
    assert(s@.take(0) =~= Seq::<char>::empty());
    assert(pieces@.map_values(|piece: Vec<char>| piece@) =~= split_on(s@.take(0), sep));
    while i < n
        invariant
            n == s@.len(),
            i <= n,
            pieces@.len() >= 1,
            pieces@.map_values(|piece: Vec<char>| piece@) == split_on(s@.take(i as int), sep),
        decreases n - i,
    {
        let c = s.get_char(i);
        let ghost before = pieces@.map_values(|piece: Vec<char>| piece@);
        assert(s@.take(i + 1).drop_last() =~= s@.take(i as int));
        assert(s@.take(i + 1).last() == c);
        if c == sep {
            pieces.push(Vec::new());
            assert(pieces@.map_values(|piece: Vec<char>| piece@) =~= before.push(Seq::empty()));
        } else {
            let last = pieces.len() - 1;
            let mut piece = pieces.pop().unwrap();
            piece.push(c);
            pieces.push(piece);
            assert(pieces@.map_values(|piece: Vec<char>| piece@) =~= before.update(
                last as int,
                before.last().push(c),
            ));
        }
        i += 1;
    }
    assert(s@.take(n as int) =~= s@);
    pieces
}

pub open spec fn is_ascii_digit(c: char) -> bool {
    '0' <= c && c <= '9'
}

pub open spec fn all_digits(s: Seq<char>) -> bool {
    forall|i: int| 0 <= i < s.len() ==> #[trigger] is_ascii_digit(s[i])
}

/// The number that a string of decimal digits spells.
pub open spec fn decimal_value(s: Seq<char>) -> int
    decreases s.len(),
{
    if s.len() == 0 {
        0
    } else {
        decimal_value(s.drop_last()) * 10 + (s.last() as int - '0' as int)
    }
}

/// A release version component: decimal digits, no leading zero unless it
/// is "0", and a value that fits in 64 bits.
pub open spec fn valid_version_component(s: Seq<char>) -> bool {
    &&& s.len() > 0
    &&& all_digits(s)
    &&& !(s.len() > 1 && s[0] == '0')
    &&& decimal_value(s) <= u64::MAX
}

/// A stable semantic version: exactly three valid components separated by
/// dots, such as "0.7.0".
pub open spec fn is_release_version(s: Seq<char>) -> bool {
    let pieces = split_on(s, '.');
    pieces.len() == 3 && forall|i: int| 0 <= i < 3 ==> valid_version_component(#[trigger] pieces[i])
}

/// A digit string spells at least as much as any of its prefixes, and
/// nothing negative.
proof fn lemma_decimal_value_prefix(s: Seq<char>, k: int)
    requires
        all_digits(s),
        0 <= k <= s.len(),
    ensures
        0 <= decimal_value(s.take(k)) <= decimal_value(s),
    decreases s.len(),
{
    if s.len() > 0 {
        assert(is_ascii_digit(s[s.len() - 1]));
        assert(all_digits(s.drop_last())) by {
            assert forall|i: int| 0 <= i < s.len() - 1 implies #[trigger] is_ascii_digit(
                s.drop_last()[i],
            ) by {
                assert(is_ascii_digit(s[i]));
            }
        }
    }
    if k == s.len() {
        assert(s.take(k) =~= s);
        if s.len() > 0 {
            lemma_decimal_value_prefix(s.drop_last(), k - 1);
            assert(s.drop_last().take(k - 1) =~= s.drop_last());
        }
    } else {
        lemma_decimal_value_prefix(s.drop_last(), k);
        assert(s.drop_last().take(k) =~= s.take(k));
        lemma_decimal_value_prefix(s.drop_last(), s.len() - 1);
        assert(s.drop_last().take(s.len() - 1) =~= s.drop_last());
    }
}

/// The value of a release version component, when it is valid.
pub fn parse_version_component(piece: &Vec<char>) -> (r: Option<u64>)
    ensures
        r is Some <==> valid_version_component(piece@),
        r matches Some(v) ==> v == decimal_value(piece@),
{
    let n = piece.len();
    if n == 0 {
        return None;
    }
    let mut i: usize = 0;
    while i < n
        invariant
            n == piece@.len(),
            i <= n,
            forall|j: int| 0 <= j < i ==> #[trigger] is_ascii_digit(piece@[j]),
        decreases n - i,
    {
        if !(piece[i] >= '0' && piece[i] <= '9') {
            assert(!is_ascii_digit(piece@[i as int]));
            return None;
        }
        i += 1;
    }
    if n > 1 && piece[0] == '0' {
        return None;
    }
    let mut value: u64 = 0;
    let mut i: usize = 0;
    assert(piece@.take(0) =~= Seq::<char>::empty());
    while i < n
        invariant
            n == piece@.len(),
            n > 0,
            all_digits(piece@),
            i <= n,
            value == decimal_value(piece@.take(i as int)),
        decreases n - i,
    {
        let c = piece[i];
        assert(is_ascii_digit(piece@[i as int]));
        assert('0' as u32 <= c as u32 <= '9' as u32);
        let digit = (c as u32 - '0' as u32) as u64;
        assert(piece@.take(i + 1).drop_last() =~= piece@.take(i as int));
        assert(is_ascii_digit(piece@[i as int]));
        let shifted = value.checked_mul(10);
        let next = match shifted {
            Some(t) => t.checked_add(digit),
            None => None,
        };
        match next {
            Some(v) => {
                value = v;
            },
            None => {
                proof {
                    lemma_decimal_value_prefix(piece@, i + 1);
                }
                return None;
            },
        }
        i += 1;
    }
    assert(piece@.take(n as int) =~= piece@);
    Some(value)
}

/// Why an input to the packaging tool was refused.
#[derive(Debug)]
pub enum XtaskError {
    /// The release version is not a stable semantic version.
    InvalidVersion { version: String },
    /// The release directory does not hold exactly the release files.
    ArtifactSet { missing: Vec<String>, unexpected: Vec<String> },
    /// A release file is empty.
    EmptyArtifact { label: String, path: String },
    /// The published latest release is newer than the one being published.
    NewerLatest { current: String, version: String },
    /// The arguments ended where a flag was expected.
    MissingFlag { flag: String },
    /// Another argument stood where a flag was expected.
    ExpectedFlag { flag: String, got: String },
    /// The arguments ended after a flag that takes a value.
    MissingValueAfter { flag: String },
    /// An argument that the command does not take.
    UnknownArgument { argument: String },
    /// A command that the tool does not know.
    UnknownCommand { command: String },
    /// The architecture listing of a binary names nothing.
    NoArchitectures { binary: String },
    /// A thin binary holds other architectures than the one expected.
    WrongArchitecture { binary: String, expected: String, found: Vec<String> },
    /// The universal binary does not hold exactly arm64 and x86_64.
    NotUniversal { binary: String, found: Vec<String> },
    /// A generated icon is empty.
    EmptyIcon { file_name: String },
    /// A generated icon is too large for a 32-bit size.
    IconTooLarge { file_name: String },
    /// An icon entry's size does not fit in 32 bits.
    IcnsEntrySizeOverflow,
    /// The icon container's size does not fit in 32 bits.
    IcnsFileSizeOverflow,
}

/// The three numbers of a stable semantic release version such as "0.7.0".
pub fn parse_release_version(version: &str) -> (r: Result<[u64; 3], XtaskError>)
    ensures
        r is Ok <==> is_release_version(version@),
        r matches Ok(v) ==> forall|i: int|
            0 <= i < 3 ==> v@[i] == decimal_value(#[trigger] split_on(version@, '.')[i]),
        r matches Err(e) ==> e matches XtaskError::InvalidVersion { version: v } && v@
            == version@,
{
    let pieces = split_chars(version, '.');
    let ghost views = pieces@.map_values(|piece: Vec<char>| piece@);
    let invalid = XtaskError::InvalidVersion { version: String::from_str(version) };
    if pieces.len() != 3 {
        return Err(invalid);
    }
    assert(views[0] == pieces@[0]@ && views[1] == pieces@[1]@ && views[2] == pieces@[2]@);
    let major = match parse_version_component(&pieces[0]) {
        Some(v) => v,
        None => return Err(invalid),
    };
    let minor = match parse_version_component(&pieces[1]) {
        Some(v) => v,
        None => return Err(invalid),
    };
    let patch = match parse_version_component(&pieces[2]) {
        Some(v) => v,
        None => return Err(invalid),
    };
    let r = [major, minor, patch];
    assert(forall|i: int| 0 <= i < 3 ==> valid_version_component(#[trigger] views[i]));
    Ok(r)
}

/// Accepts exactly the stable semantic release versions.
pub fn validate_release_version(version: &str) -> (r: Result<(), XtaskError>)
    ensures
        r is Ok <==> is_release_version(version@),
        r matches Err(e) ==> e matches XtaskError::InvalidVersion { version: v } && v@
            == version@,
{
    match parse_release_version(version) {
        Ok(_) => Ok(()),
        Err(e) => Err(e),
    }
}

/// The release file names, sorted.
pub fn expected_release_names() -> (r: Vec<String>)
    ensures
        sorted_distinct(views_of(r@)),
        views_of(r@).to_set() == release_file_names().to_set(),
{
    let artifacts = release_artifacts();
    let mut names: Vec<String> = Vec::new();
    let mut i: usize = 0;
    while i < 4
        invariant
            i <= 4,
            names@.len() == i,
            forall|j: int| 0 <= j < i ==> #[trigger] names@[j]@ == release_file_names()[j],
            forall|j: int| 0 <= j < 4 ==> #[trigger] artifacts@[j].file_name@ == release_file_names()[j],
        decreases 4 - i,
    {
        names.push(String::from_str(artifacts[i].file_name));
        i += 1;
    }
    assert(views_of(names@) =~= release_file_names());
    sorted_set(&names)
}

/// A directory's file names against the release set: accepted when they
/// are exactly the release files; otherwise refused with the missing and
/// the unexpected names, each sorted.
pub fn check_release_artifact_names(names: &Vec<String>) -> (r: Result<(), XtaskError>)
    ensures
        r is Ok <==> views_of(names@).to_set() == release_file_names().to_set(),
        r matches Err(e) ==> e matches XtaskError::ArtifactSet { missing, unexpected } && {
            &&& sorted_distinct(views_of(missing@))
            &&& views_of(missing@).to_set() == release_file_names().to_set().difference(
                views_of(names@).to_set(),
            )
            &&& sorted_distinct(views_of(unexpected@))
            &&& views_of(unexpected@).to_set() == views_of(names@).to_set().difference(
                release_file_names().to_set(),
            )
        },
{
    let expected = expected_release_names();
    let actual = sorted_set(names);
    let missing = sorted_difference(&expected, &actual);
    let unexpected = sorted_difference(&actual, &expected);
    proof {
        let e = release_file_names().to_set();
        let a = views_of(names@).to_set();
        assert(views_of(unexpected@).to_set() =~= a.difference(e));
        if a != e {
            if missing@.len() == 0 && unexpected@.len() == 0 {
                assert(a =~= e) by {
                    assert forall|x: Seq<char>| a.contains(x) implies e.contains(x) by {
                        if !e.contains(x) {
                            assert(a.difference(e).contains(x));
                        }
                    }
                    assert forall|x: Seq<char>| e.contains(x) implies a.contains(x) by {
                        if !a.contains(x) {
                            assert(e.difference(a).contains(x));
                        }
                    }
                }
            }
        } else {
            assert(e.difference(a) =~= Set::<Seq<char>>::empty());
            assert(a.difference(e) =~= Set::<Seq<char>>::empty());
            if missing@.len() > 0 {
                assert(views_of(missing@).to_set().contains(views_of(missing@)[0]));
            }
            if unexpected@.len() > 0 {
                assert(views_of(unexpected@).to_set().contains(views_of(unexpected@)[0]));
            }
        }
    }
    if missing.len() == 0 && unexpected.len() == 0 {
        Ok(())
    } else {
        Err(XtaskError::ArtifactSet { missing, unexpected })
    }
}

/// The descriptions of the release files, in publication order.
pub open spec fn release_labels() -> Seq<Seq<char>> {
    seq![
        "macOS universal application"@,
        "Windows x86-64 executable"@,
        "Linux x86-64 binary"@,
        "Linux ARM64 binary"@,
    ]
}

/// The sizes in bytes of the release files, each at `paths` and in
/// publication order, against the rule that no release file is empty:
/// refused at the first empty file, with its description and path.
pub fn check_release_artifact_sizes(paths: &[String; 4], sizes: &[u64; 4]) -> (r: Result<
    (),
    XtaskError,
>)
    ensures
        r is Ok <==> forall|i: int| 0 <= i < 4 ==> #[trigger] sizes@[i] > 0,
        r matches Err(e) ==> exists|i: int|
            #![trigger sizes@[i]]
            0 <= i < 4 && sizes@[i] == 0 && (forall|j: int| 0 <= j < i ==> #[trigger] sizes@[j] > 0)
                && (e matches XtaskError::EmptyArtifact { label, path } && label@
                == release_labels()[i] && path@ == paths@[i]@),
{
    let artifacts = release_artifacts();
    let mut i: usize = 0;
    while i < 4
        invariant
            i <= 4,
            forall|j: int| 0 <= j < i ==> #[trigger] sizes@[j] > 0,
            artifacts@[0].label@ == release_labels()[0],
            artifacts@[1].label@ == release_labels()[1],
            artifacts@[2].label@ == release_labels()[2],
            artifacts@[3].label@ == release_labels()[3],
        decreases 4 - i,
    {
        if sizes[i] == 0 {
            let label = String::from_str(artifacts[i].label);
            let path = paths[i].clone();
            assert(sizes@[i as int] == 0);
            return Err(XtaskError::EmptyArtifact { label, path });
        }
        i += 1;
    }
    Ok(())
}

/// The numbers of a release version string.
pub open spec fn version_numbers(s: Seq<char>) -> Seq<int> {
    split_on(s, '.').take(3).map_values(|piece: Seq<char>| decimal_value(piece))
}

/// Whether release version `a` is later than `b`: by major, then minor,
/// then patch number.
pub open spec fn version_later(a: Seq<int>, b: Seq<int>) -> bool {
    a[0] > b[0] || (a[0] == b[0] && (a[1] > b[1] || (a[1] == b[1] && a[2] > b[2])))
}

/// The order of release versions is the lexicographic order of their
/// major, minor and patch numbers: a larger major number is always later,
/// then a larger minor number under an equal major, then a larger patch
/// under equal major and minor; it is a strict total order, so of two
/// different versions exactly one is later.
pub proof fn lemma_version_order(a: Seq<int>, b: Seq<int>, c: Seq<int>)
    requires
        a.len() == 3,
        b.len() == 3,
        c.len() == 3,
    ensures
        a[0] > b[0] ==> version_later(a, b),
        a[0] == b[0] && a[1] > b[1] ==> version_later(a, b),
        a[0] == b[0] && a[1] == b[1] && a[2] > b[2] ==> version_later(a, b),
        a[0] < b[0] ==> !version_later(a, b),
        !version_later(a, a),
        version_later(a, b) ==> !version_later(b, a),
        version_later(a, b) && version_later(b, c) ==> version_later(a, c),
        a != b ==> version_later(a, b) || version_later(b, a),
{
    if a != b {
        if a[0] == b[0] && a[1] == b[1] && a[2] == b[2] {
            assert(a =~= b);
        }
    }
}

/// Whether release version `a` is later than `b`.
pub fn is_later_version(a: &[u64; 3], b: &[u64; 3]) -> (r: bool)
    ensures
        r == version_later(
            a@.map_values(|x: u64| x as int),
            b@.map_values(|x: u64| x as int),
        ),
{
    a[0] > b[0] || (a[0] == b[0] && (a[1] > b[1] || (a[1] == b[1] && a[2] > b[2])))
}

/// Checks the content of the published latest release's VERSION file
/// against the release being published: it must hold a release version
/// (white space around it aside) that is not later than `release`, the
/// numbers of `version`.
pub fn check_latest_not_newer(current_text: &str, release: &[u64; 3], version: &str) -> (r: Result<
    (),
    XtaskError,
>)
    ensures
        ({
            let current = trimmed(current_text@);
            &&& r is Ok <==> is_release_version(current) && !version_later(
                version_numbers(current),
                release@.map_values(|x: u64| x as int),
            )
            &&& r matches Err(e) ==> match e {
                XtaskError::InvalidVersion { version: v } => v@ == current && !is_release_version(
                    current,
                ),
                XtaskError::NewerLatest { current: c, version: v } => c@ == current && v@
                    == version@ && is_release_version(current),
                _ => false,
            }
        }),
{
    let current = trim(current_text);
    let numbers = match parse_release_version(current.as_str()) {
        Ok(numbers) => numbers,
        Err(e) => return Err(e),
    };
    let later = is_later_version(&numbers, release);
    proof {
        let pieces = split_on(current@, '.');
        assert(numbers@.map_values(|x: u64| x as int) =~= version_numbers(current@));
    }
    if later {
        Err(XtaskError::NewerLatest { current, version: String::from_str(version) })
    } else {
        Ok(())
    }
}

/// The architectures that a `lipo -archs` listing names, as a sorted set;
/// refused when it names none.
pub fn lipo_architectures(binary: &str, output: &str) -> (r: Result<Vec<String>, XtaskError>)
    ensures
        r is Ok <==> words(output@).len() > 0,
        r matches Ok(archs) ==> sorted_distinct(views_of(archs@)) && views_of(archs@).to_set()
            == words(output@).to_set(),
        r matches Err(e) ==> e matches XtaskError::NoArchitectures { binary: b } && b@ == binary@,
{
    let listed = split_words(output);
    let archs = sorted_set(&listed);
    if archs.len() == 0 {
        proof {
            if words(output@).len() > 0 {
                assert(views_of(listed@).to_set().contains(views_of(listed@)[0]));
            }
        }
        return Err(XtaskError::NoArchitectures { binary: String::from_str(binary) });
    }
    proof {
        assert(views_of(archs@).to_set().contains(views_of(archs@)[0]));
        if words(output@).len() == 0 {
            assert(views_of(listed@).to_set() =~= Set::<Seq<char>>::empty());
        }
    }
    Ok(archs)
}

/// Whether two name lists hold the same names.
pub fn same_names(a: &Vec<String>, b: &Vec<String>) -> (r: bool)
    requires
        sorted_distinct(views_of(a@)),
        sorted_distinct(views_of(b@)),
    ensures
        r == (views_of(a@).to_set() == views_of(b@).to_set()),
{
    let a_only = sorted_difference(a, b);
    let b_only = sorted_difference(b, a);
    proof {
        let sa = views_of(a@).to_set();
        let sb = views_of(b@).to_set();
        if a_only@.len() > 0 {
            assert(views_of(a_only@).to_set().contains(views_of(a_only@)[0]));
        }
        if b_only@.len() > 0 {
            assert(views_of(b_only@).to_set().contains(views_of(b_only@)[0]));
        }
        if a_only@.len() == 0 && b_only@.len() == 0 {
            assert(sa =~= sb) by {
                assert forall|x: Seq<char>| sa.contains(x) implies sb.contains(x) by {
                    if !sb.contains(x) {
                        assert(sa.difference(sb).contains(x));
                    }
                }
                assert forall|x: Seq<char>| sb.contains(x) implies sa.contains(x) by {
                    if !sa.contains(x) {
                        assert(sb.difference(sa).contains(x));
                    }
                }
            }
        }
        if sa == sb {
            assert(sa.difference(sb) =~= Set::<Seq<char>>::empty());
            assert(sb.difference(sa) =~= Set::<Seq<char>>::empty());
        }
    }
    a_only.len() == 0 && b_only.len() == 0
}

/// A thin macOS binary must hold exactly its expected architecture.
pub fn validate_macos_binary(binary: &str, expected_architecture: &str, actual: Vec<String>) -> (r:
    Result<(), XtaskError>)
    requires
        sorted_distinct(views_of(actual@)),
    ensures
        r is Ok <==> views_of(actual@).to_set() == set![expected_architecture@],
        r matches Err(e) ==> e matches XtaskError::WrongArchitecture { binary: b, expected: x, found }
            && b@ == binary@ && x@ == expected_architecture@ && found@ == actual@,
{
    let mut expected: Vec<String> = Vec::new();
    expected.push(String::from_str(expected_architecture));
    assert(views_of(expected@).to_set() =~= set![expected_architecture@]) by {
        assert(views_of(expected@) =~= seq![expected_architecture@]);
        seq![expected_architecture@].lemma_push_to_set_commute(expected_architecture@);
        assert(seq![expected_architecture@] =~= Seq::<Seq<char>>::empty().push(expected_architecture@));
        Seq::<Seq<char>>::empty().lemma_push_to_set_commute(expected_architecture@);
    }
    if same_names(&actual, &expected) {
        Ok(())
    } else {
        Err(
            XtaskError::WrongArchitecture {
                binary: String::from_str(binary),
                expected: String::from_str(expected_architecture),
                found: actual,
            },
        )
    }
}

/// The universal macOS binary must hold exactly arm64 and x86_64.
pub fn validate_universal_macos_binary(binary: &str, actual: Vec<String>) -> (r: Result<(), XtaskError>)
    requires
        sorted_distinct(views_of(actual@)),
    ensures
        r is Ok <==> views_of(actual@).to_set() == set!["arm64"@, "x86_64"@],
        r matches Err(e) ==> e matches XtaskError::NotUniversal { binary: b, found } && b@ == binary@
            && found@ == actual@,
{
    let mut listed: Vec<String> = Vec::new();
    listed.push(String::from_str("arm64"));
    listed.push(String::from_str("x86_64"));
    let expected = sorted_set(&listed);
    assert(views_of(listed@).to_set() =~= set!["arm64"@, "x86_64"@]) by {
        let v = views_of(listed@);
        assert(v =~= seq!["arm64"@, "x86_64"@]);
        assert forall|x: Seq<char>| v.to_set().contains(x) implies set!["arm64"@, "x86_64"@].contains(x) by {
            let k = choose|k: int| 0 <= k < v.len() && v[k] == x;
        }
        assert(v[0] == "arm64"@);
        assert(v[1] == "x86_64"@);
        assert(v.to_set().contains(v[0]));
        assert(v.to_set().contains(v[1]));
    }
    if same_names(&actual, &expected) {
        Ok(())
    } else {
        Err(XtaskError::NotUniversal { binary: String::from_str(binary), found: actual })
    }
}

/// Names listed for a message: "none" when there are none, otherwise the
/// names separated by ", ".
pub open spec fn file_names_text(names: Seq<Seq<char>>) -> Seq<char> {
    if names.len() == 0 {
        "none"@
    } else {
        joined(names, ", "@)
    }
}

/// Names listed for a message: "none" when there are none, otherwise the
/// names separated by ", ".
pub fn format_file_names(file_names: &Vec<String>) -> (r: String)
    ensures
        r@ == file_names_text(views_of(file_names@)),
{
    if file_names.len() == 0 {
        String::from_str("none")
    } else {
        join(file_names, ", ")
    }
}

/// Architectures listed for a message, separated by ", ".
pub fn format_architectures(architectures: &Vec<String>) -> (r: String)
    ensures
        r@ == joined(views_of(architectures@), ", "@),
{
    join(architectures, ", ")
}

/// A command-line mistake, over the text of the arguments.
pub enum ArgFault {
    MissingFlag(Seq<char>),
    ExpectedFlag(Seq<char>, Seq<char>),
    MissingValueAfter(Seq<char>),
    UnknownArgument(Seq<char>),
    UnknownCommand(Seq<char>),
}

/// Whether error `e` reports the command-line mistake `fault`.
pub open spec fn reports(e: XtaskError, fault: ArgFault) -> bool {
    match fault {
        ArgFault::MissingFlag(flag) => e matches XtaskError::MissingFlag { flag: f } && f@ == flag,
        ArgFault::ExpectedFlag(flag, got) => e matches XtaskError::ExpectedFlag { flag: f, got: g }
            && f@ == flag && g@ == got,
        ArgFault::MissingValueAfter(flag) => e matches XtaskError::MissingValueAfter { flag: f }
            && f@ == flag,
        ArgFault::UnknownArgument(arg) => e matches XtaskError::UnknownArgument { argument: a }
            && a@ == arg,
        ArgFault::UnknownCommand(cmd) => e matches XtaskError::UnknownCommand { command: c } && c@
            == cmd,
    }
}

/// The arguments of a command line not yet consumed.
pub struct Arguments {
    items: Vec<String>,
    next: usize,
}

impl Arguments {
    #[verifier::type_invariant]
    spec fn inv(self) -> bool {
        self.next <= self.items@.len()
    }

    /// The text of the arguments not yet consumed.
    pub closed spec fn remaining(self) -> Seq<Seq<char>> {
        views_of(self.items@).skip(self.next as int)
    }

    /// All of `items`, none consumed.
    pub fn new(items: Vec<String>) -> (r: Arguments)
        ensures
            r.remaining() == views_of(items@),
    {
        let r = Arguments { items, next: 0 };
        assert(views_of(r.items@).skip(0) =~= views_of(r.items@));
        r
    }

    /// Consumes the next argument.
    pub fn next_argument(&mut self) -> (r: Option<String>)
        ensures
            old(self).remaining().len() == 0 ==> r is None && final(self).remaining() == old(
                self,
            ).remaining(),
            old(self).remaining().len() > 0 ==> (r matches Some(a) && a@ == old(self).remaining()[0]
                && final(self).remaining() == old(self).remaining().drop_first()),
    {
        proof {
            use_type_invariant(&*self);
        }
        if self.next >= self.items.len() {
            return None;
        }
        let item = self.items[self.next].clone();
        let ghost before = self.remaining();
        self.next = self.next + 1;
        assert(self.remaining() =~= before.drop_first());
        Some(item)
    }

    /// The arguments not yet consumed.
    pub fn into_rest(self) -> (r: Vec<String>)
        ensures
            views_of(r@) == self.remaining(),
    {
        proof {
            use_type_invariant(&self);
        }
        let mut rest: Vec<String> = Vec::new();
        let mut i = self.next;
        assert(views_of(rest@) =~= views_of(self.items@).subrange(self.next as int, i as int));
        while i < self.items.len()
            invariant
                self.next <= i <= self.items@.len(),
                views_of(rest@) == views_of(self.items@).subrange(self.next as int, i as int),
            decreases self.items@.len() - i,
        {
            let ghost before = views_of(rest@);
            rest.push(self.items[i].clone());
            assert(views_of(rest@) =~= before.push(self.items@[i as int]@));
            assert(views_of(rest@) =~= views_of(self.items@).subrange(self.next as int, i + 1));
            i += 1;
        }
        assert(views_of(self.items@).subrange(self.next as int, i as int) =~= self.remaining());
        rest
    }
}

/// Taking the value of `flag` from the front of `rest`: the flag itself
/// must come first, then its value.
pub open spec fn take_value_spec(rest: Seq<Seq<char>>, flag: Seq<char>) -> Result<
    Seq<char>,
    ArgFault,
> {
    if rest.len() == 0 {
        Err(ArgFault::MissingFlag(flag))
    } else if rest[0] != flag {
        Err(ArgFault::ExpectedFlag(flag, rest[0]))
    } else if rest.len() == 1 {
        Err(ArgFault::MissingValueAfter(flag))
    } else {
        Ok(rest[1])
    }
}

/// Whether two strings are equal.
pub fn str_equal(a: &str, b: &str) -> (r: bool)
    ensures
        r == (a@ == b@),
{
    proof {
        crate::text::lemma_lex_order(a@, b@, b@);
    }
    !crate::text::str_less(a, b) && !crate::text::str_less(b, a)
}

/// Takes `flag` and the value after it from the front of `args`.
pub fn take_value(args: &mut Arguments, flag: &str) -> (r: Result<String, XtaskError>)
    ensures
        match take_value_spec(old(args).remaining(), flag@) {
            Ok(value) => r matches Ok(v) && v@ == value && final(args).remaining() == old(
                args,
            ).remaining().skip(2),
            Err(fault) => r matches Err(e) && reports(e, fault),
        },
{
    let value = match args.next_argument() {
        Some(v) => v,
        None => return Err(XtaskError::MissingFlag { flag: String::from_str(flag) }),
    };
    if !str_equal(value.as_str(), flag) {
        return Err(XtaskError::ExpectedFlag { flag: String::from_str(flag), got: value });
    }
    let ghost mid = args.remaining();
    match args.next_argument() {
        Some(v) => {
            assert(mid.drop_first() =~= old(args).remaining().skip(2));
            Ok(v)
        },
        None => Err(XtaskError::MissingValueAfter { flag: String::from_str(flag) }),
    }
}

/// Refuses any argument left over.
pub fn ensure_no_arguments(args: Arguments) -> (r: Result<(), XtaskError>)
    ensures
        args.remaining().len() == 0 <==> r is Ok,
        r matches Err(e) ==> reports(e, ArgFault::UnknownArgument(args.remaining()[0])),
{
    let mut args = args;
    match args.next_argument() {
        Some(argument) => Err(XtaskError::UnknownArgument { argument }),
        None => Ok(()),
    }
}

/// Whether `prefix` begins `s`.
pub fn has_prefix(s: &str, prefix: &str) -> (r: bool)
    ensures
        r == (prefix@.len() <= s@.len() && s@.take(prefix@.len() as int) == prefix@),
{
    let n = s.unicode_len();
    let m = prefix.unicode_len();
    if m > n {
        return false;
    }
    let mut i: usize = 0;
    while i < m
        invariant
            n == s@.len(),
            m == prefix@.len(),
            m <= n,
            i <= m,
            forall|j: int| 0 <= j < i ==> s@[j] == prefix@[j],
        decreases m - i,
    {
        if s.get_char(i) != prefix.get_char(i) {
            assert(s@.take(m as int)[i as int] != prefix@[i as int]);
            return false;
        }
        i += 1;
    }
    assert(s@.take(m as int) =~= prefix@);
    true
}

/// Reading an optional `flag` from `args`, as "flag value" or
/// "flag=value"; the last occurrence wins and any other argument is
/// refused.
pub open spec fn optional_value_spec(
    args: Seq<Seq<char>>,
    flag: Seq<char>,
    found: Option<Seq<char>>,
) -> Result<Option<Seq<char>>, ArgFault>
    decreases args.len(),
{
    if args.len() == 0 {
        Ok(found)
    } else if args[0] == flag {
        if args.len() < 2 {
            Err(ArgFault::MissingValueAfter(flag))
        } else {
            optional_value_spec(args.skip(2), flag, Some(args[1]))
        }
    } else if flag.len() + 1 <= args[0].len() && args[0].take(flag.len() + 1int) == flag + seq!['='] {
        optional_value_spec(args.skip(1), flag, Some(args[0].skip(flag.len() + 1int)))
    } else {
        Err(ArgFault::UnknownArgument(args[0]))
    }
}

/// The value of an optional `flag` among `args`, given as "flag value" or
/// "flag=value"; the last occurrence wins, and any other argument is
/// refused.
pub fn parse_optional_path(args: Vec<String>, flag: &str) -> (r: Result<Option<String>, XtaskError>)
    ensures
        match optional_value_spec(views_of(args@), flag@, None) {
            Ok(Some(value)) => r matches Ok(Some(v)) && v@ == value,
            Ok(None) => r matches Ok(None),
            Err(fault) => r matches Err(e) && reports(e, fault),
        },
{
    let ghost all = views_of(args@);
    let mut prefix = String::from_str(flag);
    prefix.append("=");
    proof {
        reveal_strlit("=");
    }
    let mut result: Option<String> = None;
    let mut i: usize = 0;
    assert(all.skip(0) =~= all);
    while i < args.len()
        invariant
            all == views_of(args@),
            i <= args@.len(),
            prefix@ == flag@ + seq!['='],
            optional_value_spec(all, flag@, None) == optional_value_spec(
                all.skip(i as int),
                flag@,
                match result {
                    Some(v) => Some(v@),
                    None => None,
                },
            ),
        decreases args@.len() - i,
    {
        let ghost rest = all.skip(i as int);
        assert(rest[0] == args@[i as int]@);
        let arg = args[i].as_str();
        if str_equal(arg, flag) {
            if i + 1 >= args.len() {
                return Err(XtaskError::MissingValueAfter { flag: String::from_str(flag) });
            }
            assert(rest.skip(2) =~= all.skip(i + 2));
            assert(rest[1] == args@[i + 1]@);
            result = Some(args[i + 1].clone());
            i += 2;
        } else if has_prefix(arg, prefix.as_str()) {
            let value = arg.substring_char(prefix.unicode_len(), arg.unicode_len());
            assert(value@ =~= rest[0].skip(flag@.len() + 1int));
            assert(rest.skip(1) =~= all.skip(i + 1));
            result = Some(String::from_str(value));
            i += 1;
        } else {
            return Err(XtaskError::UnknownArgument { argument: args[i].clone() });
        }
    }
    assert(all.skip(i as int).len() == 0);
    Ok(result)
}

/// A command of the packaging tool.
#[derive(Debug)]
pub enum XtaskCommand {
    /// Combine, bundle and archive the two macOS executables.
    PackageMacos {
        arm64_binary: String,
        x86_64_binary: String,
        out_dir: String,
        version: String,
        icon: String,
    },
    /// Check that a directory holds exactly the release files.
    ValidateRelease { source: String },
    /// Publish the release files to the website's download tree.
    PublishDownloads { source: String, website: String, version: String },
    /// Print the usage.
    Help,
}

/// A command over the text of its arguments.
pub enum CommandView {
    PackageMacos(Seq<char>, Seq<char>, Seq<char>, Seq<char>, Seq<char>),
    ValidateRelease(Seq<char>),
    PublishDownloads(Seq<char>, Seq<char>, Seq<char>),
    Help,
}

/// Whether `command` carries the text `view` describes.
pub open spec fn command_is(command: XtaskCommand, view: CommandView) -> bool {
    match view {
        CommandView::PackageMacos(arm, x86, out, version, icon) => command matches
            XtaskCommand::PackageMacos {
            arm64_binary: a,
            x86_64_binary: x,
            out_dir: o,
            version: v,
            icon: i,
        } && a@ == arm && x@ == x86 && o@ == out && v@ == version && i@ == icon,
        CommandView::ValidateRelease(source) => command matches XtaskCommand::ValidateRelease {
            source: s,
        } && s@ == source,
        CommandView::PublishDownloads(source, website, version) => command matches
            XtaskCommand::PublishDownloads { source: s, website: w, version: v } && s@ == source
            && w@ == website && v@ == version,
        CommandView::Help => command matches XtaskCommand::Help,
    }
}

/// The icon used when none is given.
pub open spec fn default_icon() -> Seq<char> {
    "assets/icon.png"@
}

/// The `package-macos` command from the arguments after its name.
pub open spec fn package_macos_spec(r: Seq<Seq<char>>) -> Result<CommandView, ArgFault> {
    match take_value_spec(r, "--arm64-binary"@) {
        Err(f) => Err(f),
        Ok(arm) => match take_value_spec(r.skip(2), "--x86_64-binary"@) {
            Err(f) => Err(f),
            Ok(x86) => match take_value_spec(r.skip(4), "--out"@) {
                Err(f) => Err(f),
                Ok(out) => match take_value_spec(r.skip(6), "--version"@) {
                    Err(f) => Err(f),
                    Ok(version) => match optional_value_spec(r.skip(8), "--icon"@, None) {
                        Err(f) => Err(f),
                        Ok(icon) => Ok(
                            CommandView::PackageMacos(
                                arm,
                                x86,
                                out,
                                version,
                                match icon {
                                    Some(i) => i,
                                    None => default_icon(),
                                },
                            ),
                        ),
                    },
                },
            },
        },
    }
}

/// The `validate-release` command from the arguments after its name.
pub open spec fn validate_release_spec(r: Seq<Seq<char>>) -> Result<CommandView, ArgFault> {
    match take_value_spec(r, "--source"@) {
        Err(f) => Err(f),
        Ok(source) => if r.len() > 2 {
            Err(ArgFault::UnknownArgument(r[2]))
        } else {
            Ok(CommandView::ValidateRelease(source))
        },
    }
}

/// The `publish-downloads` command from the arguments after its name.
pub open spec fn publish_downloads_spec(r: Seq<Seq<char>>) -> Result<CommandView, ArgFault> {
    match take_value_spec(r, "--source"@) {
        Err(f) => Err(f),
        Ok(source) => match take_value_spec(r.skip(2), "--website"@) {
            Err(f) => Err(f),
            Ok(website) => match take_value_spec(r.skip(4), "--version"@) {
                Err(f) => Err(f),
                Ok(version) => if r.len() > 6 {
                    Err(ArgFault::UnknownArgument(r[6]))
                } else {
                    Ok(CommandView::PublishDownloads(source, website, version))
                },
            },
        },
    }
}

/// The command that a command line (without the program name) asks for.
pub open spec fn command_spec(a: Seq<Seq<char>>) -> Result<CommandView, ArgFault> {
    if a.len() == 0 || a[0] == "help"@ {
        Ok(CommandView::Help)
    } else if a[0] == "package-macos"@ {
        package_macos_spec(a.drop_first())
    } else if a[0] == "validate-release"@ {
        validate_release_spec(a.drop_first())
    } else if a[0] == "publish-downloads"@ {
        publish_downloads_spec(a.drop_first())
    } else {
        Err(ArgFault::UnknownCommand(a[0]))
    }
}

/// The `package-macos` command line with its four required flags and
/// values, followed by nothing, by `--icon` and a value, or by
/// `--icon=value`.
pub open spec fn package_macos_line(
    arm: Seq<char>,
    x86: Seq<char>,
    out: Seq<char>,
    version: Seq<char>,
    tail: Seq<Seq<char>>,
) -> Seq<Seq<char>> {
    seq![
        "package-macos"@,
        "--arm64-binary"@,
        arm,
        "--x86_64-binary"@,
        x86,
        "--out"@,
        out,
        "--version"@,
        version,
    ] + tail
}

/// A `package-macos` command line carries its values through unchanged:
/// the icon is the value given after `--icon` (as a separate argument or
/// after `--icon=`), and `assets/icon.png` only when none is given.
pub proof fn lemma_package_macos_values(
    arm: Seq<char>,
    x86: Seq<char>,
    out: Seq<char>,
    version: Seq<char>,
    icon: Seq<char>,
)
    ensures
        command_spec(package_macos_line(arm, x86, out, version, seq!["--icon"@, icon])) == Ok::<
            CommandView,
            ArgFault,
        >(CommandView::PackageMacos(arm, x86, out, version, icon)),
        command_spec(package_macos_line(arm, x86, out, version, seq!["--icon="@ + icon])) == Ok::<
            CommandView,
            ArgFault,
        >(CommandView::PackageMacos(arm, x86, out, version, icon)),
        command_spec(package_macos_line(arm, x86, out, version, Seq::empty())) == Ok::<
            CommandView,
            ArgFault,
        >(CommandView::PackageMacos(arm, x86, out, version, "assets/icon.png"@)),
{
    reveal_strlit("help");
    reveal_strlit("package-macos");
    reveal_strlit("--arm64-binary");
    reveal_strlit("--x86_64-binary");
    reveal_strlit("--out");
    reveal_strlit("--version");
    reveal_strlit("--icon");
    reveal_strlit("--icon=");
    let flag = "--icon"@;
    let tails = seq![seq![flag, icon], seq!["--icon="@ + icon], Seq::<Seq<char>>::empty()];
    assert forall|t: int| 0 <= t < 3 implies {
        let a = package_macos_line(arm, x86, out, version, #[trigger] tails[t]);
        let r = a.drop_first();
        &&& a[0] == "package-macos"@ && a[0] != "help"@
        &&& r.len() >= 8 && r[0] == "--arm64-binary"@ && r[1] == arm
        &&& r.skip(2)[0] == "--x86_64-binary"@ && r.skip(2)[1] == x86 && r.skip(2).len() >= 2
        &&& r.skip(4)[0] == "--out"@ && r.skip(4)[1] == out && r.skip(4).len() >= 2
        &&& r.skip(6)[0] == "--version"@ && r.skip(6)[1] == version && r.skip(6).len() >= 2
        &&& r.skip(8) == tails[t]
    } by {
        let a = package_macos_line(arm, x86, out, version, tails[t]);
        let r = a.drop_first();
        assert(a[0] == "package-macos"@);
        assert(r.skip(8) =~= tails[t]);
        assert(r.skip(2)[0] == a[3]);
        assert(r.skip(4)[0] == a[5]);
        assert(r.skip(6)[0] == a[7]);
    }
    assert(tails[0] == seq![flag, icon]);
    assert(tails[1] == seq!["--icon="@ + icon]);
    assert(tails[2] == Seq::<Seq<char>>::empty());
    // The separate form: the flag, then its value, then nothing.
    let t0 = seq![flag, icon];
    assert(t0.skip(2) =~= Seq::<Seq<char>>::empty());
    assert(optional_value_spec(t0, flag, None) == optional_value_spec(t0.skip(2), flag, Some(icon)));
    // The joined form: longer than the flag, so not the flag itself.
    let joined_arg = "--icon="@ + icon;
    let t1 = seq![joined_arg];
    assert(joined_arg.len() != flag.len());
    assert(joined_arg.take(flag.len() + 1int) =~= flag + seq!['=']);
    assert(joined_arg.skip(flag.len() + 1int) =~= icon);
    assert(t1.skip(1) =~= Seq::<Seq<char>>::empty());
    assert(optional_value_spec(t1, flag, None) == optional_value_spec(t1.skip(1), flag, Some(icon)));
}

/// The other commands carry their values through unchanged, an argument
/// left over after them is refused, and an empty command line or `help`
/// asks for the usage.
pub proof fn lemma_other_command_values(
    source: Seq<char>,
    website: Seq<char>,
    version: Seq<char>,
    extra: Seq<char>,
)
    ensures
        command_spec(seq!["validate-release"@, "--source"@, source]) == Ok::<CommandView, ArgFault>(
            CommandView::ValidateRelease(source),
        ),
        command_spec(seq!["validate-release"@, "--source"@, source, extra]) == Err::<
            CommandView,
            ArgFault,
        >(ArgFault::UnknownArgument(extra)),
        command_spec(
            seq![
                "publish-downloads"@,
                "--source"@,
                source,
                "--website"@,
                website,
                "--version"@,
                version,
            ],
        ) == Ok::<CommandView, ArgFault>(CommandView::PublishDownloads(source, website, version)),
        command_spec(
            seq![
                "publish-downloads"@,
                "--source"@,
                source,
                "--website"@,
                website,
                "--version"@,
                version,
                extra,
            ],
        ) == Err::<CommandView, ArgFault>(ArgFault::UnknownArgument(extra)),
        command_spec(Seq::empty()) == Ok::<CommandView, ArgFault>(CommandView::Help),
        command_spec(seq!["help"@]) == Ok::<CommandView, ArgFault>(CommandView::Help),
{
    reveal_strlit("help");
    reveal_strlit("package-macos");
    reveal_strlit("validate-release");
    reveal_strlit("publish-downloads");
    reveal_strlit("--source");
    reveal_strlit("--website");
    reveal_strlit("--version");
    let v = seq!["validate-release"@, "--source"@, source];
    assert(v.drop_first() =~= seq!["--source"@, source]);
    assert("validate-release"@[0] == 'v');
    assert("help"@[0] == 'h');
    assert(v[0] != "help"@);
    assert(v[0] != "package-macos"@);
    let v2 = seq!["validate-release"@, "--source"@, source, extra];
    assert(v2.drop_first() =~= seq!["--source"@, source, extra]);
    let p = seq!["publish-downloads"@, "--source"@, source, "--website"@, website, "--version"@, version];
    assert("publish-downloads"@[0] == 'p' && "publish-downloads"@[1] == 'u');
    assert("package-macos"@[1] == 'a');
    assert(p[0] != "help"@ && p[0] != "package-macos"@ && p[0] != "validate-release"@);
    let pr = p.drop_first();
    assert(pr =~= seq!["--source"@, source, "--website"@, website, "--version"@, version]);
    assert(pr.skip(2) =~= seq!["--website"@, website, "--version"@, version]);
    assert(pr.skip(4) =~= seq!["--version"@, version]);
    let p2 = p.push(extra);
    assert(p2 =~= seq![
        "publish-downloads"@,
        "--source"@,
        source,
        "--website"@,
        website,
        "--version"@,
        version,
        extra,
    ]);
    let pr2 = p2.drop_first();
    assert(pr2 =~= seq!["--source"@, source, "--website"@, website, "--version"@, version, extra]);
    assert(pr2.skip(2) =~= seq!["--website"@, website, "--version"@, version, extra]);
    assert(pr2.skip(4) =~= seq!["--version"@, version, extra]);
}

/// The command that the arguments (without the program name) ask for.
pub fn parse_command(args: Vec<String>) -> (r: Result<XtaskCommand, XtaskError>)
    ensures
        match command_spec(views_of(args@)) {
            Ok(view) => r matches Ok(c) && command_is(c, view),
            Err(fault) => r matches Err(e) && reports(e, fault),
        },
{
    let ghost a = views_of(args@);
    let mut args = Arguments::new(args);
    let command = match args.next_argument() {
        None => return Ok(XtaskCommand::Help),
        Some(c) => c,
    };
    let ghost r = args.remaining();
    assert(r == a.drop_first());
    proof {
        reveal_strlit("help");
        reveal_strlit("package-macos");
        reveal_strlit("validate-release");
        reveal_strlit("publish-downloads");
        assert("help"@.len() == 4);
        assert("package-macos"@.len() == 13);
        assert("validate-release"@.len() == 16);
        assert("publish-downloads"@.len() == 17);
        assert("validate-release"@[0] != "publish-downloads"@[0]);
    }
    if str_equal(command.as_str(), "package-macos") {
        let arm64_binary = match take_value(&mut args, "--arm64-binary") {
            Ok(v) => v,
            Err(e) => return Err(e),
        };
        assert(args.remaining() =~= r.skip(2));
        let x86_64_binary = match take_value(&mut args, "--x86_64-binary") {
            Ok(v) => v,
            Err(e) => return Err(e),
        };
        assert(args.remaining() =~= r.skip(4));
        let out_dir = match take_value(&mut args, "--out") {
            Ok(v) => v,
            Err(e) => return Err(e),
        };
        assert(args.remaining() =~= r.skip(6));
        let version = match take_value(&mut args, "--version") {
            Ok(v) => v,
            Err(e) => return Err(e),
        };
        assert(args.remaining() =~= r.skip(8));
        let icon = match parse_optional_path(args.into_rest(), "--icon") {
            Ok(Some(icon)) => icon,
            Ok(None) => String::from_str("assets/icon.png"),
            Err(e) => return Err(e),
        };
        Ok(XtaskCommand::PackageMacos { arm64_binary, x86_64_binary, out_dir, version, icon })
    } else if str_equal(command.as_str(), "validate-release") {
        let source = match take_value(&mut args, "--source") {
            Ok(v) => v,
            Err(e) => return Err(e),
        };
        assert(args.remaining() =~= r.skip(2));
        if let Err(e) = ensure_no_arguments(args) {
            return Err(e);
        }
        Ok(XtaskCommand::ValidateRelease { source })
    } else if str_equal(command.as_str(), "publish-downloads") {
        let source = match take_value(&mut args, "--source") {
            Ok(v) => v,
            Err(e) => return Err(e),
        };
        assert(args.remaining() =~= r.skip(2));
        let website = match take_value(&mut args, "--website") {
            Ok(v) => v,
            Err(e) => return Err(e),
        };
        assert(args.remaining() =~= r.skip(4));
        let version = match take_value(&mut args, "--version") {
            Ok(v) => v,
            Err(e) => return Err(e),
        };
        assert(args.remaining() =~= r.skip(6));
        if let Err(e) = ensure_no_arguments(args) {
            return Err(e);
        }
        Ok(XtaskCommand::PublishDownloads { source, website, version })
    } else if str_equal(command.as_str(), "help") {
        Ok(XtaskCommand::Help)
    } else {
        Err(XtaskError::UnknownCommand { command })
    }
}

/// The bundle metadata (Info.plist) of the macOS application for
/// `version`: executable, icon, identifier, name, package type, version,
/// the minimum system version of each architecture, and a menu-bar-only,
/// high-resolution application.
pub open spec fn info_plist_text(version: Seq<char>) -> Seq<char> {
    "<?xml version=\"1.0\" encoding=\"UTF-8\"?>\n<!DOCTYPE plist PUBLIC \"-//Apple//DTD PLIST 1.0//EN\" \"http://www.apple.com/DTDs/PropertyList-1.0.dtd\">\n<plist version=\"1.0\">\n  <dict>\n    <key>CFBundleDevelopmentRegion</key>\n    <string>en</string>\n    <key>CFBundleExecutable</key>\n    <string>"@
        + MACOS_BINARY_NAME@
        + "</string>\n    <key>CFBundleIconFile</key>\n    <string>"@
        + APP_ICON_NAME@
        + "</string>\n    <key>CFBundleIdentifier</key>\n    <string>com.euanreid.watch-bells</string>\n    <key>CFBundleInfoDictionaryVersion</key>\n    <string>6.0</string>\n    <key>CFBundleName</key>\n    <string>"@
        + APP_NAME@
        + "</string>\n    <key>CFBundlePackageType</key>\n    <string>APPL</string>\n    <key>CFBundleShortVersionString</key>\n    <string>"@
        + version
        + "</string>\n    <key>CFBundleVersion</key>\n    <string>"@
        + version
        + "</string>\n    <key>LSMinimumSystemVersionByArchitecture</key>\n    <dict>\n      <key>arm64</key>\n      <string>"@
        + MACOS_ARM64_MINIMUM_VERSION@
        + "</string>\n      <key>x86_64</key>\n      <string>"@
        + MACOS_X86_64_MINIMUM_VERSION@
        + "</string>\n    </dict>\n    <key>LSUIElement</key>\n    <true/>\n    <key>NSHighResolutionCapable</key>\n    <true/>\n  </dict>\n</plist>\n"@
}

/// The bundle metadata of the macOS application, for a release version.
pub fn info_plist(version: &str) -> (r: Result<String, XtaskError>)
    ensures
        r is Ok <==> is_release_version(version@),
        r matches Ok(text) ==> text@ == info_plist_text(version@),
        r matches Err(e) ==> e matches XtaskError::InvalidVersion { version: v }
            && v@ == version@,
{
    if let Err(e) = validate_release_version(version) {
        return Err(e);
    }
    let mut text = String::from_str("<?xml version=\"1.0\" encoding=\"UTF-8\"?>\n<!DOCTYPE plist PUBLIC \"-//Apple//DTD PLIST 1.0//EN\" \"http://www.apple.com/DTDs/PropertyList-1.0.dtd\">\n<plist version=\"1.0\">\n  <dict>\n    <key>CFBundleDevelopmentRegion</key>\n    <string>en</string>\n    <key>CFBundleExecutable</key>\n    <string>");
    text.append(MACOS_BINARY_NAME);
    text.append("</string>\n    <key>CFBundleIconFile</key>\n    <string>");
    text.append(APP_ICON_NAME);
    text.append("</string>\n    <key>CFBundleIdentifier</key>\n    <string>com.euanreid.watch-bells</string>\n    <key>CFBundleInfoDictionaryVersion</key>\n    <string>6.0</string>\n    <key>CFBundleName</key>\n    <string>");
    text.append(APP_NAME);
    text.append("</string>\n    <key>CFBundlePackageType</key>\n    <string>APPL</string>\n    <key>CFBundleShortVersionString</key>\n    <string>");
    text.append(version);
    text.append("</string>\n    <key>CFBundleVersion</key>\n    <string>");
    text.append(version);
    text.append("</string>\n    <key>LSMinimumSystemVersionByArchitecture</key>\n    <dict>\n      <key>arm64</key>\n      <string>");
    text.append(MACOS_ARM64_MINIMUM_VERSION);
    text.append("</string>\n      <key>x86_64</key>\n      <string>");
    text.append(MACOS_X86_64_MINIMUM_VERSION);
    text.append("</string>\n    </dict>\n    <key>LSUIElement</key>\n    <true/>\n    <key>NSHighResolutionCapable</key>\n    <true/>\n  </dict>\n</plist>\n");
    Ok(text)
}

/// One image of the macOS icon container: its four-byte type code and the
/// generated file it is read from.
#[derive(Clone, Copy, Debug)]
pub struct IcnsEntry {
    pub icon_type: [u8; 4],
    pub file_name: &'static str,
}

/// The type codes and files of the icon container, in container order.
pub open spec fn icns_layout() -> Seq<(Seq<u8>, Seq<char>)> {
    seq![
        (seq![0x69u8, 0x63, 0x70, 0x34], "icon_16x16.png"@),
        (seq![0x69u8, 0x63, 0x31, 0x31], "icon_16x16@2x.png"@),
        (seq![0x69u8, 0x63, 0x70, 0x35], "icon_32x32.png"@),
        (seq![0x69u8, 0x63, 0x70, 0x36], "icon_32x32@2x.png"@),
        (seq![0x69u8, 0x63, 0x31, 0x32], "icon_32x32@2x.png"@),
        (seq![0x69u8, 0x63, 0x30, 0x37], "icon_128x128.png"@),
        (seq![0x69u8, 0x63, 0x31, 0x33], "icon_128x128@2x.png"@),
        (seq![0x69u8, 0x63, 0x30, 0x38], "icon_256x256.png"@),
        (seq![0x69u8, 0x63, 0x31, 0x34], "icon_256x256@2x.png"@),
        (seq![0x69u8, 0x63, 0x30, 0x39], "icon_512x512.png"@),
        (seq![0x69u8, 0x63, 0x31, 0x30], "icon_512x512@2x.png"@),
    ]
}

/// The images of the icon container: the type codes icp4 (16x16), ic11
/// (16x16@2x), icp5 (32x32), icp6 and ic12 (32x32@2x), ic07 (128x128), ic13
/// (128x128@2x), ic08 (256x256), ic14 (256x256@2x), ic09 (512x512) and
/// ic10 (512x512@2x), with the files they are read from.
pub fn icns_entries() -> (r: [IcnsEntry; 11])
    ensures
        forall|i: int|
            0 <= i < 11 ==> (#[trigger] r@[i]).icon_type@ == icns_layout()[i].0 && r@[i].file_name@
                == icns_layout()[i].1,
{
    let r = [
        IcnsEntry { icon_type: [0x69, 0x63, 0x70, 0x34], file_name: "icon_16x16.png" },
        IcnsEntry { icon_type: [0x69, 0x63, 0x31, 0x31], file_name: "icon_16x16@2x.png" },
        IcnsEntry { icon_type: [0x69, 0x63, 0x70, 0x35], file_name: "icon_32x32.png" },
        IcnsEntry { icon_type: [0x69, 0x63, 0x70, 0x36], file_name: "icon_32x32@2x.png" },
        IcnsEntry { icon_type: [0x69, 0x63, 0x31, 0x32], file_name: "icon_32x32@2x.png" },
        IcnsEntry { icon_type: [0x69, 0x63, 0x30, 0x37], file_name: "icon_128x128.png" },
        IcnsEntry { icon_type: [0x69, 0x63, 0x31, 0x33], file_name: "icon_128x128@2x.png" },
        IcnsEntry { icon_type: [0x69, 0x63, 0x30, 0x38], file_name: "icon_256x256.png" },
        IcnsEntry { icon_type: [0x69, 0x63, 0x31, 0x34], file_name: "icon_256x256@2x.png" },
        IcnsEntry { icon_type: [0x69, 0x63, 0x30, 0x39], file_name: "icon_512x512.png" },
        IcnsEntry { icon_type: [0x69, 0x63, 0x31, 0x30], file_name: "icon_512x512@2x.png" },
    ];
    assert(r@[0].icon_type@ =~= icns_layout()[0].0);
    assert(r@[1].icon_type@ =~= icns_layout()[1].0);
    assert(r@[2].icon_type@ =~= icns_layout()[2].0);
    assert(r@[3].icon_type@ =~= icns_layout()[3].0);
    assert(r@[4].icon_type@ =~= icns_layout()[4].0);
    assert(r@[5].icon_type@ =~= icns_layout()[5].0);
    assert(r@[6].icon_type@ =~= icns_layout()[6].0);
    assert(r@[7].icon_type@ =~= icns_layout()[7].0);
    assert(r@[8].icon_type@ =~= icns_layout()[8].0);
    assert(r@[9].icon_type@ =~= icns_layout()[9].0);
    assert(r@[10].icon_type@ =~= icns_layout()[10].0);
    r
}

/// A 32-bit number as four bytes, most significant first.
pub open spec fn be32(x: int) -> Seq<u8> {
    seq![(x / 16777216) as u8, ((x / 65536) % 256) as u8, ((x / 256) % 256) as u8, (x % 256) as u8]
}

/// The number that four bytes spell, most significant first.
pub open spec fn from_be32(b: Seq<u8>) -> int {
    b[0] * 16777216 + b[1] * 65536 + b[2] * 256 + b[3]
}

/// Four bytes, most significant first, spell back the 32-bit number they
/// encode.
pub proof fn lemma_be32_round_trip(x: int)
    requires
        0 <= x <= u32::MAX,
    ensures
        be32(x).len() == 4,
        from_be32(be32(x)) == x,
{
    let b0 = x / 16777216;
    let b1 = (x / 65536) % 256;
    let b2 = (x / 256) % 256;
    let b3 = x % 256;
    assert(0 <= b0 < 256);
    assert(b0 * 16777216 + b1 * 65536 + b2 * 256 + b3 == x);
}

/// One image in the container: type code, size of the image record
/// (eight header bytes plus the data) in four bytes, then the data.
pub open spec fn icns_image_bytes(icon_type: Seq<u8>, data: Seq<u8>) -> Seq<u8> {
    icon_type + be32(data.len() + 8int) + data
}

/// The image records of the container, in order.
pub open spec fn icns_body(images: Seq<(Seq<u8>, Seq<u8>)>) -> Seq<u8>
    decreases images.len(),
{
    if images.len() == 0 {
        Seq::empty()
    } else {
        icns_body(images.drop_last()) + icns_image_bytes(images.last().0, images.last().1)
    }
}

/// The magic number "icns".
pub open spec fn icns_magic() -> Seq<u8> {
    seq![0x69u8, 0x63, 0x6e, 0x73]
}

/// The icon container: "icns", the size of the whole file in four bytes,
/// then the image records.
pub open spec fn icns_file(images: Seq<(Seq<u8>, Seq<u8>)>) -> Seq<u8> {
    icns_magic() + be32(8int + icns_body(images).len()) + icns_body(images)
}

fn push_all(out: &mut Vec<u8>, bytes: &[u8])
    ensures
        final(out)@ == old(out)@ + bytes@,
{
    let mut i: usize = 0;
    while i < bytes.len()
        invariant
            i <= bytes@.len(),
            out@ == old(out)@ + bytes@.take(i as int),
        decreases bytes@.len() - i,
    {
        out.push(bytes[i]);
        assert(bytes@.take(i + 1) =~= bytes@.take(i as int).push(bytes@[i as int]));
        i += 1;
    }
    assert(bytes@.take(bytes@.len() as int) =~= bytes@);
}

fn be32_bytes(x: u32) -> (r: [u8; 4])
    ensures
        r@ == be32(x as int),
{
    let r = [(x / 16777216) as u8, ((x / 65536) % 256) as u8, ((x / 256) % 256) as u8, (x % 256) as u8];
    assert(r@ =~= be32(x as int));
    r
}

/// Builds the macOS icon container image by image.
pub struct IcnsWriter {
    body: Vec<u8>,
    total: u32,
    images: Ghost<Seq<(Seq<u8>, Seq<u8>)>>,
}

impl IcnsWriter {
    /// The bytes built so far are the records of the images added, and the
    /// size counts them and the header.
    pub closed spec fn wf(self) -> bool {
        self.body@ == icns_body(self.images@) && self.total == 8 + self.body@.len()
    }

    /// The images added so far: type codes and data.
    pub closed spec fn images(self) -> Seq<(Seq<u8>, Seq<u8>)> {
        self.images@
    }

    /// The size of the container so far, header included.
    pub closed spec fn size(self) -> int {
        self.total as int
    }

    /// An empty container.
    pub fn new() -> (r: IcnsWriter)
        ensures
            r.wf(),
            r.images() == Seq::<(Seq<u8>, Seq<u8>)>::empty(),
            r.size() == 8,
    {
        IcnsWriter { body: Vec::new(), total: 8, images: Ghost(Seq::empty()) }
    }

    /// Adds the image `data` of type `icon_type`, read from `file_name`. An
    /// empty image, or one that would take a size past 32 bits, is refused
    /// and nothing is added.
    pub fn add_image(&mut self, icon_type: [u8; 4], file_name: &str, data: &[u8]) -> (r: Result<
        (),
        XtaskError,
    >)
        requires
            old(self).wf(),
        ensures
            final(self).wf(),
            data@.len() == 0 ==> (r matches Err(XtaskError::EmptyIcon { file_name: f }) && f@
                == file_name@),
            data@.len() > 0 && data@.len() > u32::MAX ==> (r matches Err(
                XtaskError::IconTooLarge { file_name: f },
            ) && f@ == file_name@),
            0 < data@.len() <= u32::MAX && data@.len() + 8 > u32::MAX ==> r matches Err(
                XtaskError::IcnsEntrySizeOverflow,
            ),
            0 < data@.len() && data@.len() + 8 <= u32::MAX && old(self).size() + data@.len() + 8
                > u32::MAX ==> r matches Err(XtaskError::IcnsFileSizeOverflow),
            r is Ok <==> 0 < data@.len() && old(self).size() + data@.len() + 8 <= u32::MAX,
            r is Ok ==> final(self).images() == old(self).images().push((icon_type@, data@))
                && final(self).size() == old(self).size() + data@.len() + 8,
            r is Err ==> final(self).images() == old(self).images() && final(self).size() == old(
                self,
            ).size(),
    {
        if data.len() == 0 {
            return Err(XtaskError::EmptyIcon { file_name: String::from_str(file_name) });
        }
        if data.len() as u64 > u32::MAX as u64 {
            return Err(XtaskError::IconTooLarge { file_name: String::from_str(file_name) });
        }
        let entry_size = match (data.len() as u32).checked_add(8) {
            Some(size) => size,
            None => return Err(XtaskError::IcnsEntrySizeOverflow),
        };
        let total = match self.total.checked_add(entry_size) {
            Some(total) => total,
            None => return Err(XtaskError::IcnsFileSizeOverflow),
        };
        let ghost before = self.body@;
        let size_bytes = be32_bytes(entry_size);
        let mut body = Vec::new();
        std::mem::swap(&mut body, &mut self.body);
        push_all(&mut body, &icon_type);
        push_all(&mut body, &size_bytes);
        push_all(&mut body, data);
        let ghost images = self.images@.push((icon_type@, data@));
        assert(images.drop_last() =~= self.images@);
        assert(body@ =~= icns_body(images));
        self.body = body;
        self.total = total;
        self.images = Ghost(images);
        Ok(())
    }

    /// The complete container.
    pub fn finish(self) -> (r: Vec<u8>)
        requires
            self.wf(),
        ensures
            r@ == icns_file(self.images()),
            r@.len() == self.size(),
            from_be32(r@.subrange(4, 8)) == r@.len(),
    {
        let mut out: Vec<u8> = Vec::new();
        push_all(&mut out, &[0x69, 0x63, 0x6e, 0x73]);
        push_all(&mut out, &be32_bytes(self.total));
        push_all(&mut out, self.body.as_slice());
        proof {
            lemma_be32_round_trip(self.total as int);
            assert(out@ =~= icns_file(self.images@));
            assert(out@.subrange(4, 8) =~= be32(self.total as int));
        }
        out
    }
}

/// The message of a refusal, as the packaging tool reports it.
pub open spec fn message_text(e: XtaskError) -> Seq<char> {
    match e {
        XtaskError::InvalidVersion { version } =>
            "release version must be a stable semantic version such as 0.7.0, got "@ + version@,
        XtaskError::ArtifactSet { missing, unexpected } =>
            "release artifact set is incomplete or unexpected; missing: "@ + file_names_text(
            views_of(missing@),
        ) + "; unexpected: "@ + file_names_text(views_of(unexpected@)),
        XtaskError::EmptyArtifact { label, path } => label@ + " is empty at "@ + path@,
        XtaskError::NewerLatest { current, version } => "refusing to replace newer latest release "@
            + current@ + " with "@ + version@,
        XtaskError::MissingFlag { flag } => "missing "@ + flag@ + " value"@,
        XtaskError::ExpectedFlag { flag, got } => "expected "@ + flag@ + ", got "@ + got@,
        XtaskError::MissingValueAfter { flag } => "missing value after "@ + flag@,
        XtaskError::UnknownArgument { argument } => "unknown argument: "@ + argument@,
        XtaskError::UnknownCommand { command } => "unknown xtask command: "@ + command@,
        XtaskError::NoArchitectures { binary } => "lipo reported no architectures for "@ + binary@,
        XtaskError::WrongArchitecture { binary, expected, found } => binary@
            + " must contain only "@ + expected@ + "; found "@ + joined(views_of(found@), ", "@),
        XtaskError::NotUniversal { binary, found } => binary@
            + " must contain arm64 and x86_64; found "@ + joined(views_of(found@), ", "@),
        XtaskError::EmptyIcon { file_name } => "generated icon "@ + file_name@ + " is empty"@,
        XtaskError::IconTooLarge { .. } => "out of range integral type conversion attempted"@,
        XtaskError::IcnsEntrySizeOverflow => "ICNS entry size overflow"@,
        XtaskError::IcnsFileSizeOverflow => "ICNS file size overflow"@,
    }
}

impl XtaskError {
    /// The message of the refusal.
    pub fn message(&self) -> (r: String)
        ensures
            r@ == message_text(*self),
    {
        match self {
            XtaskError::InvalidVersion { version } => {
                let mut text = String::from_str(
                    "release version must be a stable semantic version such as 0.7.0, got ",
                );
                text.append(version.as_str());
                text
            },
            XtaskError::ArtifactSet { missing, unexpected } => {
                let mut text = String::from_str(
                    "release artifact set is incomplete or unexpected; missing: ",
                );
                text.append(format_file_names(missing).as_str());
                text.append("; unexpected: ");
                text.append(format_file_names(unexpected).as_str());
                text
            },
            XtaskError::EmptyArtifact { label, path } => {
                let mut text = String::from_str(label.as_str());
                text.append(" is empty at ");
                text.append(path.as_str());
                text
            },
            XtaskError::NewerLatest { current, version } => {
                let mut text = String::from_str("refusing to replace newer latest release ");
                text.append(current.as_str());
                text.append(" with ");
                text.append(version.as_str());
                text
            },
            XtaskError::MissingFlag { flag } => {
                let mut text = String::from_str("missing ");
                text.append(flag.as_str());
                text.append(" value");
                text
            },
            XtaskError::ExpectedFlag { flag, got } => {
                let mut text = String::from_str("expected ");
                text.append(flag.as_str());
                text.append(", got ");
                text.append(got.as_str());
                text
            },
            XtaskError::MissingValueAfter { flag } => {
                let mut text = String::from_str("missing value after ");
                text.append(flag.as_str());
                text
            },
            XtaskError::UnknownArgument { argument } => {
                let mut text = String::from_str("unknown argument: ");
                text.append(argument.as_str());
                text
            },
            XtaskError::UnknownCommand { command } => {
                let mut text = String::from_str("unknown xtask command: ");
                text.append(command.as_str());
                text
            },
            XtaskError::NoArchitectures { binary } => {
                let mut text = String::from_str("lipo reported no architectures for ");
                text.append(binary.as_str());
                text
            },
            XtaskError::WrongArchitecture { binary, expected, found } => {
                let mut text = String::from_str(binary.as_str());
                text.append(" must contain only ");
                text.append(expected.as_str());
                text.append("; found ");
                text.append(format_architectures(found).as_str());
                text
            },
            XtaskError::NotUniversal { binary, found } => {
                let mut text = String::from_str(binary.as_str());
                text.append(" must contain arm64 and x86_64; found ");
                text.append(format_architectures(found).as_str());
                text
            },
            XtaskError::EmptyIcon { file_name } => {
                let mut text = String::from_str("generated icon ");
                text.append(file_name.as_str());
                text.append(" is empty");
                text
            },
            XtaskError::IconTooLarge { .. } => String::from_str(
                "out of range integral type conversion attempted",
            ),
            XtaskError::IcnsEntrySizeOverflow => String::from_str("ICNS entry size overflow"),
            XtaskError::IcnsFileSizeOverflow => String::from_str("ICNS file size overflow"),
        }
    }
}

} // verus!
