//! Platform-specific binary names, file-name cleaning and link classification.

use vstd::prelude::*;
use std::path::PathBuf;
use crate::text::{chars_of, subrange_vec, ends_with_chars, ends_with_seq, string_from_chars};

verus! {

/// `std::path::PathBuf`, carried through opaquely.
#[verifier::external_type_specification]
#[verifier::external_body]
pub struct ExPathBuf(PathBuf);

/// The operating system the binaries are chosen for.
#[derive(Debug, Clone, Copy, PartialEq, Eq, Structural)]
pub enum TargetOs {
    Windows,
    MacOs,
    Linux,
}

/// The processor architecture the binaries are chosen for.
#[derive(Debug, Clone, Copy, PartialEq, Eq, Structural)]
pub enum TargetArch {
    Aarch64,
    Other,
}

/// The file name of the yt-dlp executable on each system.
pub open spec fn ytdlp_filename(os: TargetOs) -> Seq<char> {
    match os {
        TargetOs::Windows => "yt-dlp.exe"@,
        TargetOs::MacOs => "yt-dlp_macos"@,
        TargetOs::Linux => "yt-dlp"@,
    }
}

/// The file name of the ffmpeg executable on each system.
pub open spec fn ffmpeg_filename(os: TargetOs) -> Seq<char> {
    match os {
        TargetOs::Windows => "ffmpeg.exe"@,
        TargetOs::MacOs => "ffmpeg"@,
        TargetOs::Linux => "ffmpeg"@,
    }
}

/// The name of the ffmpeg-static release asset for each platform.
pub open spec fn ffmpeg_asset_name(os: TargetOs, arch: TargetArch) -> Seq<char> {
    match (os, arch) {
        (TargetOs::Windows, _) => "ffmpeg-win32-x64"@,
        (TargetOs::MacOs, TargetArch::Aarch64) => "ffmpeg-darwin-arm64"@,
        (TargetOs::MacOs, TargetArch::Other) => "ffmpeg-darwin-x64"@,
        (TargetOs::Linux, TargetArch::Aarch64) => "ffmpeg-linux-arm64"@,
        (TargetOs::Linux, TargetArch::Other) => "ffmpeg-linux-x64"@,
    }
}

/// The yt-dlp executable's file name on the given system.
pub fn get_ytdlp_filename(os: TargetOs) -> (r: &'static str)
    ensures
        r@ == ytdlp_filename(os),
{
    match os {
        TargetOs::Windows => "yt-dlp.exe",
        TargetOs::MacOs => "yt-dlp_macos",
        TargetOs::Linux => "yt-dlp",
    }
}

/// The ffmpeg executable's file name on the given system.
pub fn get_ffmpeg_filename(os: TargetOs) -> (r: &'static str)
    ensures
        r@ == ffmpeg_filename(os),
{
    match os {
        TargetOs::Windows => "ffmpeg.exe",
        TargetOs::MacOs => "ffmpeg",
        TargetOs::Linux => "ffmpeg",
    }
}

/// The ffmpeg-static release asset name for the given platform.
pub fn get_ffmpeg_asset_name(os: TargetOs, arch: TargetArch) -> (r: &'static str)
    ensures
        r@ == ffmpeg_asset_name(os, arch),
{
    match os {
        TargetOs::Windows => "ffmpeg-win32-x64",
        TargetOs::MacOs => match arch {
            TargetArch::Aarch64 => "ffmpeg-darwin-arm64",
            TargetArch::Other => "ffmpeg-darwin-x64",
        },
        TargetOs::Linux => match arch {
            TargetArch::Aarch64 => "ffmpeg-linux-arm64",
            TargetArch::Other => "ffmpeg-linux-x64",
        },
    }
}

/// The free-space check before a download into `_path`: whether the
/// `free_bytes` that its file system has left (as read by the caller) hold
/// the `required_bytes` of the download.
pub fn check_disk_space(_path: &PathBuf, required_bytes: u64, free_bytes: u64) -> (r: Result<
    bool,
    String,
>)
    ensures
        r == Ok::<bool, String>(free_bytes >= required_bytes),
{
    Ok(free_bytes >= required_bytes)
}

/// The characters that file names may not hold: `\ / : * ? " < > |`.
pub open spec fn is_forbidden_filename_char(c: char) -> bool {
    c == '\\' || c == '/' || c == ':' || c == '*' || c == '?' || c == '"' || c == '<' || c
        == '>' || c == '|'
}

/// `name` with every forbidden character replaced by `_`.
pub open spec fn sanitized(name: Seq<char>) -> Seq<char> {
    name.map_values(|c: char| if is_forbidden_filename_char(c) { '_' } else { c })
}

/// A cleaned file name holds none of the forbidden characters, has as many
/// characters as the name it came from, and cleaning it again changes
/// nothing.
pub proof fn lemma_sanitized_is_clean(name: Seq<char>)
    ensures
        sanitized(name).len() == name.len(),
        forall|i: int| 0 <= i < name.len() ==> !is_forbidden_filename_char(#[trigger] sanitized(name)[i]),
        forall|i: int|
            0 <= i < name.len() && !is_forbidden_filename_char(name[i]) ==> #[trigger] sanitized(name)[i] == name[i],
        sanitized(sanitized(name)) == sanitized(name),
{
    assert(sanitized(sanitized(name)) =~= sanitized(name));
}

/// The regular expression `[\\/:*?"<>|]`, a class of the forbidden characters.
pub open spec fn forbidden_class_pattern() -> Seq<char> {
    seq!['[', '\\', '\\', '/', ':', '*', '?', '"', '<', '>', '|', ']']
}

/// What `regex::Regex::new(pattern)` followed by `replace_all(haystack,
/// replacement)` gives: `None` where the pattern does not compile.
pub uninterp spec fn regex_replace_all_result(
    pattern: Seq<char>,
    haystack: Seq<char>,
    replacement: Seq<char>,
) -> Option<Seq<char>>;

/// `regex::Regex::new(pattern)` and `Regex::replace_all(haystack, replacement)`.
/// The result is the named function of the three arguments. For the class
/// pattern `[\\/:*?"<>|]` with the literal replacement `_` the regex
/// documentation gives it exactly: the class compiles, each of its matches is
/// one character of the class, and every such match is replaced.
#[verifier::external_body]
fn regex_replace_all(pattern: &str, haystack: &str, replacement: &str) -> (r: Option<String>)
    ensures
        r.is_some() == regex_replace_all_result(pattern@, haystack@, replacement@).is_some(),
        r.is_some() ==> regex_replace_all_result(pattern@, haystack@, replacement@) == Some(r.unwrap()@),
        pattern@ == forbidden_class_pattern() && replacement@ == seq!['_'] ==> (r.is_some() && r.unwrap()@ == sanitized(haystack@)),
{
    match regex::Regex::new(pattern) {
        Ok(re) => Some(re.replace_all(haystack, replacement).to_string()),
        Err(_) => None,
    }
}

/// Replaces each character that file systems refuse (`\ / : * ? " < > |`)
/// by `_`.
pub fn sanitize_filename(name: &str) -> (r: String)
    ensures
        r@ == sanitized(name@),
{
    let pattern = "[\\\\/:*?\"<>|]";
    let replacement = "_";
    proof {
        reveal_strlit("[\\\\/:*?\"<>|]");
        reveal_strlit("_");
        assert(pattern@ =~= forbidden_class_pattern());
        assert(replacement@ =~= seq!['_']);
    }
    match regex_replace_all(pattern, name, replacement) {
        Some(s) => s,
        None => {
            proof {
                assert(false);
            }
            String::new()
        },
    }
}

/// The part of `s` before the first `c` (all of `s` where it holds no `c`);
/// this is `s.split(c).next()`.
pub open spec fn take_until(s: Seq<char>, c: char) -> Seq<char>
    decreases s.len(),
{
    if s.len() == 0 {
        s
    } else if s[0] == c {
        Seq::<char>::empty()
    } else {
        seq![s[0]] + take_until(s.drop_first(), c)
    }
}

/// The part of `s` after the last `c` (all of `s` where it holds no `c`);
/// this is `s.split(c).last()`.
pub open spec fn after_last(s: Seq<char>, c: char) -> Seq<char>
    decreases s.len(),
{
    if s.len() == 0 {
        s
    } else if s.last() == c {
        Seq::<char>::empty()
    } else {
        after_last(s.drop_last(), c).push(s.last())
    }
}

/// `s.split(c).next()`: the part before the first `c`.
pub fn take_until_chars(s: &[char], c: char) -> (r: Vec<char>)
    ensures
        r@ == take_until(s@, c),
{
    let mut i: usize = 0;
    assert(s@.skip(0) =~= s@);
    assert(s@.take(0) + s@.skip(0) =~= s@);
    while i < s.len() && s[i] != c
        invariant
            i <= s@.len(),
            take_until(s@, c) == s@.take(i as int) + take_until(s@.skip(i as int), c),
        decreases s@.len() - i,
    {
        assert(s@.skip(i as int).drop_first() =~= s@.skip(i + 1));
        assert(s@.take(i as int) + seq![s@[i as int]] =~= s@.take(i + 1));
        assert(s@.take(i as int) + (seq![s@[i as int]] + take_until(s@.skip(i + 1), c))
            =~= s@.take(i + 1) + take_until(s@.skip(i + 1), c));
        i = i + 1;
    }
    assert(take_until(s@.skip(i as int), c) =~= Seq::<char>::empty());
    assert(s@.take(i as int) + Seq::<char>::empty() =~= s@.take(i as int));
    subrange_vec(s, 0, i)
}

/// `s.split(c).last()`: the part after the last `c`.
pub fn after_last_chars(s: &[char], c: char) -> (r: Vec<char>)
    ensures
        r@ == after_last(s@, c),
{
    let n = s.len();
    let mut j: usize = n;
    assert(s@.take(n as int) =~= s@);
    assert(s@.subrange(n as int, n as int) =~= Seq::<char>::empty());
    while j > 0 && s[j - 1] != c
        invariant
            j <= n,
            n == s@.len(),
            after_last(s@, c) == after_last(s@.take(j as int), c) + s@.subrange(j as int, n as int),
        decreases j,
    {
        assert(s@.take(j as int).drop_last() =~= s@.take(j - 1));
        assert(after_last(s@.take(j - 1), c).push(s@[j - 1]) + s@.subrange(j as int, n as int)
            =~= after_last(s@.take(j - 1), c) + s@.subrange(j - 1, n as int));
        j = j - 1;
    }
    assert(after_last(s@.take(j as int), c) =~= Seq::<char>::empty());
    assert(Seq::<char>::empty() + s@.subrange(j as int, n as int) =~= s@.subrange(
        j as int,
        n as int,
    ));
    subrange_vec(s, j, n)
}

/// The file name that `extract_filename_from_url` derives: the last path
/// segment of the URL without its query, cleaned, or `unknown_file`.
pub open spec fn url_filename(url: Seq<char>) -> Seq<char> {
    let seg = after_last(take_until(url, '?'), '/');
    if seg.len() > 0 {
        sanitized(seg)
    } else {
        "unknown_file"@
    }
}

/// The file name taken from a URL is never empty.
pub proof fn lemma_url_filename_nonempty(url: Seq<char>)
    ensures
        url_filename(url).len() > 0,
{
    reveal_strlit("unknown_file");
}

proof fn lemma_take_until_stops_at_first(p: Seq<char>, rest: Seq<char>, c: char)
    requires
        !p.contains(c),
    ensures
        take_until(p + seq![c] + rest, c) == p,
        take_until(p, c) == p,
    decreases p.len(),
{
    let s = p + seq![c] + rest;
    if p.len() == 0 {
        assert(s[0] == c);
        assert(p =~= Seq::<char>::empty());
    } else {
        assert(p[0] != c) by {
            if p[0] == c {
                assert(p.contains(c));
            }
        }
        assert(!p.drop_first().contains(c)) by {
            if p.drop_first().contains(c) {
                let i = choose|i: int| 0 <= i < p.drop_first().len() && p.drop_first()[i] == c;
                assert(p[i + 1] == c);
            }
        }
        lemma_take_until_stops_at_first(p.drop_first(), rest, c);
        assert(s.drop_first() =~= p.drop_first() + seq![c] + rest);
        assert(seq![p[0]] + p.drop_first() =~= p);
    }
}

pub(crate) proof fn lemma_after_last_of_tail(d: Seq<char>, n: Seq<char>, c: char)
    requires
        !n.contains(c),
    ensures
        after_last(d + seq![c] + n, c) == n,
    decreases n.len(),
{
    let s = d + seq![c] + n;
    if n.len() == 0 {
        assert(s.last() == c);
        assert(n =~= Seq::<char>::empty());
    } else {
        assert(n.last() != c) by {
            if n.last() == c {
                assert(n[n.len() - 1] == c);
            }
        }
        assert(!n.drop_last().contains(c)) by {
            if n.drop_last().contains(c) {
                let i = choose|i: int| 0 <= i < n.drop_last().len() && n.drop_last()[i] == c;
                assert(n[i] == c);
            }
        }
        lemma_after_last_of_tail(d, n.drop_last(), c);
        assert(s.drop_last() =~= d + seq![c] + n.drop_last());
        assert(n.drop_last().push(n.last()) =~= n);
    }
}

/// The file name of a link is the last `/`-separated piece of its part
/// before the first `?`, cleaned; `unknown_file` where that piece is empty.
/// A query after `?` makes no difference.
pub proof fn lemma_url_filename_is_last_segment(dir: Seq<char>, name: Seq<char>, query: Seq<char>)
    requires
        !name.contains('/'),
        !name.contains('?'),
        !dir.contains('?'),
    ensures
        url_filename(dir + seq!['/'] + name + seq!['?'] + query) == url_filename(dir + seq!['/'] + name),
        url_filename(dir + seq!['/'] + name) == (if name.len() > 0 {
            sanitized(name)
        } else {
            "unknown_file"@
        }),
{
    let path = dir + seq!['/'] + name;
    assert(!path.contains('?')) by {
        if path.contains('?') {
            let i = choose|i: int| 0 <= i < path.len() && path[i] == '?';
            if i < dir.len() {
                assert(dir[i] == '?');
            } else if i > dir.len() {
                assert(name[i - dir.len() - 1] == '?');
            }
        }
    }
    lemma_take_until_stops_at_first(path, query, '?');
    lemma_after_last_of_tail(dir, name, '/');
}

/// The file name of a direct download link: its last path segment (query
/// removed) with forbidden characters replaced, or `unknown_file` when that
/// segment is empty.
pub fn extract_filename_from_url(url: &str) -> (r: String)
    ensures
        r@ == url_filename(url@),
{
    let v = chars_of(url);
    let path = take_until_chars(v.as_slice(), '?');
    let seg = after_last_chars(path.as_slice(), '/');
    if seg.len() > 0 {
        let seg_str = string_from_chars(seg.as_slice());
        sanitize_filename(seg_str.as_str())
    } else {
        String::from_str("unknown_file")
    }
}

/// What `str::to_lowercase` gives: the Unicode lower-case mapping of `s`.
pub uninterp spec fn lowercase(s: Seq<char>) -> Seq<char>;

/// An ASCII character in lower case: `A`–`Z` become `a`–`z`, others stay.
pub open spec fn ascii_lower(c: char) -> char {
    if 'A' <= c && c <= 'Z' {
        ((c as u32) + 32) as char
    } else {
        c
    }
}

/// Every character is ASCII.
pub open spec fn is_ascii_seq(s: Seq<char>) -> bool {
    forall|i: int| 0 <= i < s.len() ==> (#[trigger] s[i] as u32) < 128
}

/// `str::to_lowercase`: the result is the Unicode lower-case mapping of the
/// argument, a function of the argument alone. On ASCII text that mapping
/// is the ASCII one, character for character.
#[verifier::external_body]
fn to_lowercase(s: &str) -> (r: String)
    ensures
        r@ == lowercase(s@),
        is_ascii_seq(s@) ==> r@ == s@.map_values(|c: char| ascii_lower(c)),
{
    s.to_lowercase()
}

/// The file extensions that mark a direct download link.
pub open spec fn direct_extensions() -> Seq<Seq<char>> {
    seq![
        ".exe"@,
        ".zip"@,
        ".rar"@,
        ".7z"@,
        ".tar"@,
        ".gz"@,
        ".pkg"@,
        ".dmg"@,
        ".iso"@,
        ".bin"@,
        ".msi"@,
        ".apk"@,
        ".pdf"@,
        ".txt"@,
        ".mp4"@,
        ".mp3"@,
        ".mkv"@,
    ]
}

/// `s` ends with one of the direct download extensions.
pub open spec fn has_direct_extension_seq(s: Seq<char>) -> bool {
    exists|i: int| 0 <= i < direct_extensions().len() && ends_with_seq(s, direct_extensions()[i])
}

/// A URL is a direct link when its lower-cased part before `?` ends with one
/// of the direct extensions.
pub open spec fn is_direct_link_seq(url: Seq<char>) -> bool {
    has_direct_extension_seq(lowercase(take_until(url, '?')))
}

/// One of the literal direct download endings: `.exe .zip .rar .7z .tar
/// .gz .pkg .dmg .iso .bin .msi .apk .pdf .txt .mp4 .mp3 .mkv`.
pub open spec fn ends_with_listed_extension(s: Seq<char>) -> bool {
        ||| ends_with_seq(s, ".exe"@)
        ||| ends_with_seq(s, ".zip"@)
        ||| ends_with_seq(s, ".rar"@)
        ||| ends_with_seq(s, ".7z"@)
        ||| ends_with_seq(s, ".tar"@)
        ||| ends_with_seq(s, ".gz"@)
        ||| ends_with_seq(s, ".pkg"@)
        ||| ends_with_seq(s, ".dmg"@)
        ||| ends_with_seq(s, ".iso"@)
        ||| ends_with_seq(s, ".bin"@)
        ||| ends_with_seq(s, ".msi"@)
        ||| ends_with_seq(s, ".apk"@)
        ||| ends_with_seq(s, ".pdf"@)
        ||| ends_with_seq(s, ".txt"@)
        ||| ends_with_seq(s, ".mp4"@)
        ||| ends_with_seq(s, ".mp3"@)
        ||| ends_with_seq(s, ".mkv"@)
}

/// A link is direct exactly when its part before `?`, lower-cased, ends
/// with one of `.exe .zip .rar .7z .tar .gz .pkg .dmg .iso .bin .msi .apk
/// .pdf .txt .mp4 .mp3 .mkv`.
pub proof fn lemma_direct_link_endings(url: Seq<char>)
    ensures
        is_direct_link_seq(url) == ends_with_listed_extension(lowercase(take_until(url, '?'))),
{
    let s = lowercase(take_until(url, '?'));
    let e = direct_extensions();
    if has_direct_extension_seq(s) {
        let i = choose|i: int| 0 <= i < e.len() && ends_with_seq(s, e[i]);
        if i == 0 {
            assert(e[0] == ".exe"@);
        } else if i == 1 {
            assert(e[1] == ".zip"@);
        } else if i == 2 {
            assert(e[2] == ".rar"@);
        } else if i == 3 {
            assert(e[3] == ".7z"@);
        } else if i == 4 {
            assert(e[4] == ".tar"@);
        } else if i == 5 {
            assert(e[5] == ".gz"@);
        } else if i == 6 {
            assert(e[6] == ".pkg"@);
        } else if i == 7 {
            assert(e[7] == ".dmg"@);
        } else if i == 8 {
            assert(e[8] == ".iso"@);
        } else if i == 9 {
            assert(e[9] == ".bin"@);
        } else if i == 10 {
            assert(e[10] == ".msi"@);
        } else if i == 11 {
            assert(e[11] == ".apk"@);
        } else if i == 12 {
            assert(e[12] == ".pdf"@);
        } else if i == 13 {
            assert(e[13] == ".txt"@);
        } else if i == 14 {
            assert(e[14] == ".mp4"@);
        } else if i == 15 {
            assert(e[15] == ".mp3"@);
        } else if i == 16 {
            assert(e[16] == ".mkv"@);
        }
    }
    if ends_with_seq(s, ".exe"@) {
        assert(ends_with_seq(s, e[0]));
    }
    if ends_with_seq(s, ".zip"@) {
        assert(ends_with_seq(s, e[1]));
    }
    if ends_with_seq(s, ".rar"@) {
        assert(ends_with_seq(s, e[2]));
    }
    if ends_with_seq(s, ".7z"@) {
        assert(ends_with_seq(s, e[3]));
    }
    if ends_with_seq(s, ".tar"@) {
        assert(ends_with_seq(s, e[4]));
    }
    if ends_with_seq(s, ".gz"@) {
        assert(ends_with_seq(s, e[5]));
    }
    if ends_with_seq(s, ".pkg"@) {
        assert(ends_with_seq(s, e[6]));
    }
    if ends_with_seq(s, ".dmg"@) {
        assert(ends_with_seq(s, e[7]));
    }
    if ends_with_seq(s, ".iso"@) {
        assert(ends_with_seq(s, e[8]));
    }
    if ends_with_seq(s, ".bin"@) {
        assert(ends_with_seq(s, e[9]));
    }
    if ends_with_seq(s, ".msi"@) {
        assert(ends_with_seq(s, e[10]));
    }
    if ends_with_seq(s, ".apk"@) {
        assert(ends_with_seq(s, e[11]));
    }
    if ends_with_seq(s, ".pdf"@) {
        assert(ends_with_seq(s, e[12]));
    }
    if ends_with_seq(s, ".txt"@) {
        assert(ends_with_seq(s, e[13]));
    }
    if ends_with_seq(s, ".mp4"@) {
        assert(ends_with_seq(s, e[14]));
    }
    if ends_with_seq(s, ".mp3"@) {
        assert(ends_with_seq(s, e[15]));
    }
    if ends_with_seq(s, ".mkv"@) {
        assert(ends_with_seq(s, e[16]));
    }
}

fn ends_with_lit(s: &[char], lit: &str) -> (r: bool)
    ensures
        r == ends_with_seq(s@, lit@),
{
    let l = chars_of(lit);
    ends_with_chars(s, l.as_slice())
}

/// Whether an (already lower-cased, query-free) link ends with one of the
/// direct download extensions.
pub fn has_direct_extension(lowered: &str) -> (r: bool)
    ensures
        r == has_direct_extension_seq(lowered@),
{
    let s = chars_of(lowered);
    let v = s.as_slice();
    let ghost e = direct_extensions();
    let r = ends_with_lit(v, ".exe") || ends_with_lit(v, ".zip") || ends_with_lit(v, ".rar")
        || ends_with_lit(v, ".7z") || ends_with_lit(v, ".tar") || ends_with_lit(v, ".gz")
        || ends_with_lit(v, ".pkg") || ends_with_lit(v, ".dmg") || ends_with_lit(v, ".iso")
        || ends_with_lit(v, ".bin") || ends_with_lit(v, ".msi") || ends_with_lit(v, ".apk")
        || ends_with_lit(v, ".pdf") || ends_with_lit(v, ".txt") || ends_with_lit(v, ".mp4")
        || ends_with_lit(v, ".mp3") || ends_with_lit(v, ".mkv");
    proof {
        if r {
            if ends_with_seq(lowered@, ".exe"@) { assert(ends_with_seq(lowered@, e[0])); }
            if ends_with_seq(lowered@, ".zip"@) { assert(ends_with_seq(lowered@, e[1])); }
            if ends_with_seq(lowered@, ".rar"@) { assert(ends_with_seq(lowered@, e[2])); }
            if ends_with_seq(lowered@, ".7z"@) { assert(ends_with_seq(lowered@, e[3])); }
            if ends_with_seq(lowered@, ".tar"@) { assert(ends_with_seq(lowered@, e[4])); }
            if ends_with_seq(lowered@, ".gz"@) { assert(ends_with_seq(lowered@, e[5])); }
            if ends_with_seq(lowered@, ".pkg"@) { assert(ends_with_seq(lowered@, e[6])); }
            if ends_with_seq(lowered@, ".dmg"@) { assert(ends_with_seq(lowered@, e[7])); }
            if ends_with_seq(lowered@, ".iso"@) { assert(ends_with_seq(lowered@, e[8])); }
            if ends_with_seq(lowered@, ".bin"@) { assert(ends_with_seq(lowered@, e[9])); }
            if ends_with_seq(lowered@, ".msi"@) { assert(ends_with_seq(lowered@, e[10])); }
            if ends_with_seq(lowered@, ".apk"@) { assert(ends_with_seq(lowered@, e[11])); }
            if ends_with_seq(lowered@, ".pdf"@) { assert(ends_with_seq(lowered@, e[12])); }
            if ends_with_seq(lowered@, ".txt"@) { assert(ends_with_seq(lowered@, e[13])); }
            if ends_with_seq(lowered@, ".mp4"@) { assert(ends_with_seq(lowered@, e[14])); }
            if ends_with_seq(lowered@, ".mp3"@) { assert(ends_with_seq(lowered@, e[15])); }
            if ends_with_seq(lowered@, ".mkv"@) { assert(ends_with_seq(lowered@, e[16])); }
        }
    }
    r
}

/// Whether a URL points straight at a common static file: its part before
/// `?`, lower-cased, ends with one of the direct download extensions.
pub fn is_direct_link(url: &str) -> (r: bool)
    ensures
        r == is_direct_link_seq(url@),
{
    let v = chars_of(url);
    let clean = take_until_chars(v.as_slice(), '?');
    let clean_str = string_from_chars(clean.as_slice());
    let lowered = to_lowercase(clean_str.as_str());
    has_direct_extension(lowered.as_str())
}

} // verus!
