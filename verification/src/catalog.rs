use vstd::prelude::*;
use vstd::string::*;

verus! {

/// What the catalog says of one file.
#[derive(Clone, Debug, PartialEq, Eq)]
#[allow(non_snake_case)]
pub struct FileInfo {
    pub size: u64,
    pub virtualSize: u64,
    pub timestamp: u64,
    /// The version as the catalog writes it: the number, then a note.
    pub version: String,
}

/// One record of the catalog.
#[derive(Clone, Debug, PartialEq, Eq)]
pub struct RecordData {
    pub file_info: FileInfo,
}

/// A release of the operating system: its name and the start of the
/// version numbers of its builds.
#[derive(Clone, Debug, PartialEq, Eq)]
pub struct Version {
    pub codename: String,
    pub version: String,
}

pub struct VersionModel {
    pub codename: Seq<char>,
    pub version: Seq<char>,
}

impl View for Version {
    type V = VersionModel;

    open spec fn view(&self) -> VersionModel {
        VersionModel { codename: self.codename@, version: self.version@ }
    }
}

pub open spec fn release_view(r: Option<Version>) -> Option<VersionModel> {
    match r {
        Some(v) => Some(v@),
        None => None,
    }
}

pub open spec fn word_view(r: Option<&str>) -> Option<Seq<char>> {
    match r {
        Some(w) => Some(w@),
        None => None,
    }
}

pub open spec fn upper_digits() -> Seq<char> {
    seq!['0', '1', '2', '3', '4', '5', '6', '7', '8', '9', 'A', 'B', 'C', 'D', 'E', 'F']
}

pub open spec fn lower_digits() -> Seq<char> {
    seq!['0', '1', '2', '3', '4', '5', '6', '7', '8', '9', 'a', 'b', 'c', 'd', 'e', 'f']
}

/// A number in base sixteen, written with the given digits and without
/// leading zeros.
pub open spec fn hex_digits(x: nat, digits: Seq<char>) -> Seq<char>
    decreases x,
{
    if x < 16 {
        seq![digits[x as int]]
    } else {
        hex_digits(x / 16, digits).push(digits[(x % 16) as int])
    }
}

/// A text with zeros put before it until it is `width` long.
pub open spec fn zero_padded(s: Seq<char>, width: nat) -> Seq<char> {
    if s.len() >= width {
        s
    } else {
        Seq::new((width - s.len()) as nat, |i: int| '0') + s
    }
}

/// The address from which the file with this timestamp and size is had.
pub open spec fn download_url(timestamp: u64, size: u64, pe_name: Seq<char>) -> Seq<char> {
    "https://msdl.microsoft.com/download/symbols/"@ + pe_name + "/"@ + zero_padded(
        hex_digits(timestamp as nat, upper_digits()),
        8,
    ) + hex_digits(size as nat, lower_digits()) + "/"@ + pe_name
}

/// Whether a character is white space, as `char::is_whitespace` says.
pub uninterp spec fn white_space(c: char) -> bool;

/// How many characters from `from` on are white space, where `white`
/// holds, or are none, where it does not, before the first of the other
/// sort.
pub open spec fn run_len(s: Seq<char>, from: int, white: bool) -> nat
    decreases s.len() - from,
{
    if from < 0 || from >= s.len() || white_space(s[from]) != white {
        0
    } else {
        1 + run_len(s, from + 1, white)
    }
}

/// The first word of a text: what stands between the white space at its
/// start and the next white space. A text of white space alone has none.
pub open spec fn first_word(s: Seq<char>) -> Option<Seq<char>> {
    let start = run_len(s, 0, true) as int;
    if start >= s.len() {
        None
    } else {
        Some(s.subrange(start, start + run_len(s, start, false)))
    }
}

/// The release whose version number the word starts with, the newest
/// release first.
pub open spec fn release_of(word: Seq<char>) -> Option<VersionModel> {
    if "10.0.26100"@.is_prefix_of(word) {
        Some(VersionModel { codename: "Windows 11 24H2"@, version: "10.0.26100"@ })
    } else if "10.0.22631"@.is_prefix_of(word) {
        Some(VersionModel { codename: "Windows 11 23H2"@, version: "10.0.22631"@ })
    } else if "10.0.22621"@.is_prefix_of(word) {
        Some(VersionModel { codename: "Windows 11 22H2"@, version: "10.0.22621"@ })
    } else if "10.0.22000"@.is_prefix_of(word) {
        Some(VersionModel { codename: "Windows 11 21H2"@, version: "10.0.22000"@ })
    } else if "10.0.19045"@.is_prefix_of(word) {
        Some(VersionModel { codename: "Windows 10 22H2"@, version: "10.0.19045"@ })
    } else {
        None
    }
}

/// The word by which a version text is matched: its first word, or
/// `unknown` where it has none.
pub open spec fn version_word(version: Seq<char>) -> Seq<char> {
    match first_word(version) {
        Some(w) => w,
        None => "unknown"@,
    }
}

/// `format!` with `{:08X}`: by std's documentation of `UpperHex`, of the
/// flag `0` and of a width, the number in base sixteen with capital
/// letters, zeros before it up to eight characters.
#[verifier::external_body]
fn upper_hex_padded(x: u64) -> (r: String)
    ensures
        r@ == zero_padded(hex_digits(x as nat, upper_digits()), 8),
{
    format!("{:08X}", x)
}

/// `format!` with `{:x}`: by std's documentation of `LowerHex`, the number
/// in base sixteen with small letters.
#[verifier::external_body]
pub(crate) fn lower_hex(x: u64) -> (r: String)
    ensures
        r@ == hex_digits(x as nat, lower_digits()),
{
    format!("{:x}", x)
}

/// `char::is_whitespace`: the contract only gives its answer a name.
#[verifier::external_body]
fn is_white(c: char) -> (r: bool)
    ensures
        r == white_space(c),
{
    c.is_whitespace()
}

/// `str::starts_with` with a text as the pattern: whether the text begins
/// with the pattern's characters.
#[verifier::external_body]
fn begins_with(s: &str, prefix: &str) -> (r: bool)
    ensures
        r == prefix@.is_prefix_of(s@),
{
    s.starts_with(prefix)
}

/// The version text of a catalog entry that states none: the empty text.
pub fn default_version() -> (r: String)
    ensures
        r@ == Seq::<char>::empty(),
{
    String::new()
}

/// What stands for the file of a catalog entry that describes none: all
/// numbers zero, the version empty.
pub fn default_file_info() -> (r: FileInfo)
    ensures
        r.size == 0,
        r.virtualSize == 0,
        r.timestamp == 0,
        r.version@ == Seq::<char>::empty(),
{
    FileInfo { size: 0, virtualSize: 0, timestamp: 0, version: default_version() }
}

/// The address from which the file is had: the timestamp in eight capital
/// hex digits and the size in small hex digits make the identifier that
/// stands between the file's name, written twice.
pub fn generate_download_url(timestamp: u64, size: u64, pe_name: &str) -> (url: String)
    ensures
        url@ == download_url(timestamp, size, pe_name@),
{
    let time_hex: String = upper_hex_padded(timestamp);
    let size_hex: String = lower_hex(size);
    let url: String = "https://msdl.microsoft.com/download/symbols/".to_owned();
    let url: String = url.concat(pe_name);
    let url: String = url.concat("/");
    let url: String = url.concat(time_hex.as_str());
    let url: String = url.concat(size_hex.as_str());
    let url: String = url.concat("/");
    url.concat(pe_name)
}

/// A release with this name and this start of its version numbers.
fn release(codename: &str, version: &str) -> (r: Version)
    ensures
        r@ == (VersionModel { codename: codename@, version: version@ }),
{
    Version { codename: codename.to_owned(), version: version.to_owned() }
}

/// The release whose version number `word` starts with.
pub fn match_os_version(word: &str) -> (r: Option<Version>)
    ensures
        release_view(r) == release_of(word@),
{
    if begins_with(word, "10.0.26100") {
        Some(release("Windows 11 24H2", "10.0.26100"))
    } else if begins_with(word, "10.0.22631") {
        Some(release("Windows 11 23H2", "10.0.22631"))
    } else if begins_with(word, "10.0.22621") {
        Some(release("Windows 11 22H2", "10.0.22621"))
    } else if begins_with(word, "10.0.22000") {
        Some(release("Windows 11 21H2", "10.0.22000"))
    } else if begins_with(word, "10.0.19045") {
        Some(release("Windows 10 22H2", "10.0.19045"))
    } else {
        None
    }
}

/// Where the run of white space, or of other characters, that starts at
/// `from` ends. `len` is the number of characters of the text.
pub fn run_end(s: &str, len: usize, from: usize, white: bool) -> (r: usize)
    requires
        len == s@.len(),
        from <= len,
    ensures
        r == from + run_len(s@, from as int, white),
        from <= r <= len,
{
    let mut i: usize = from;
    while i < len && is_white(s.get_char(i)) == white
        invariant
            len == s@.len(),
            from <= i <= len,
            from + run_len(s@, from as int, white) == i + run_len(s@, i as int, white),
        decreases len - i,
    {
        i += 1;
    }
    i
}

/// The first word of a text, if it has one.
pub fn leading_word(s: &str) -> (r: Option<&str>)
    ensures
        word_view(r) == first_word(s@),
{
    let len: usize = s.unicode_len();
    let start: usize = run_end(s, len, 0, true);
    if start >= len {
        None
    } else {
        let end: usize = run_end(s, len, start, false);
        Some(s.substring_char(start, end))
    }
}

/// The release that a record's file belongs to, by the first word of its
/// version text; `None` where it belongs to none of the releases known.
pub fn get_os_version(record: &RecordData) -> (r: Option<Version>)
    ensures
        release_view(r) == release_of(version_word(record.file_info.version@)),
{
    let word: &str = match leading_word(record.file_info.version.as_str()) {
        Some(w) => w,
        None => "unknown",
    };
    match_os_version(word)
}

} // verus!
