//! Release handling for the real GitHub CLI: choosing the asset for the
//! platform, finding and checking its SHA-256 checksum, and extracting the
//! `gh` binary from the downloaded archive under a sanitized path.
use vstd::prelude::*;
use vstd::string::*;

use sha2::Digest;

use crate::text::{
    contains, ends_with, lemma_split_concat, lemma_split_pieces, lemma_split_single, seq_contains,
    seq_ends_with, seq_starts_with, split_on, split_seq,
    split_whitespace, starts_with, str_eq, tokens,
};

verus! {

/// A downloadable file of a release.
#[derive(Debug, Clone)]
pub struct Asset {
    pub name: String,
    pub browser_download_url: String,
}

/// A release of the GitHub CLI: its tag and its assets.
#[derive(Debug, Clone)]
pub struct Release {
    pub tag_name: String,
    pub assets: Vec<Asset>,
}

/// Errors in choosing, checking and unpacking a release.
#[derive(Debug, Clone)]
pub enum DownloadError {
    /// No asset of the release is for this platform.
    NoAssetForPlatform { os: String, arch: String },
    /// The release has no checksums file.
    NoChecksumsFile,
    /// The checksums file has no line for the asset.
    ChecksumNotFound(String),
    /// The SHA-256 digest of the download differs from the published one.
    ChecksumMismatch { expected: String, actual: String },
    /// The archive is neither `.zip` nor `.tar.gz`/`.tgz`.
    UnsupportedArchive(String),
    /// The archive could not be read; the reader's message.
    ArchiveRead(String),
    /// The extracted archive holds no `gh` binary.
    GhBinaryNotFound,
}

/// A download error, as text.
pub enum DownloadErrorView {
    NoAssetForPlatform { os: Seq<char>, arch: Seq<char> },
    NoChecksumsFile,
    ChecksumNotFound(Seq<char>),
    ChecksumMismatch { expected: Seq<char>, actual: Seq<char> },
    UnsupportedArchive(Seq<char>),
    ArchiveRead(Seq<char>),
    GhBinaryNotFound,
}

impl View for DownloadError {
    type V = DownloadErrorView;

    open spec fn view(&self) -> DownloadErrorView {
        match self {
            DownloadError::NoAssetForPlatform { os, arch } => DownloadErrorView::NoAssetForPlatform {
                os: os@,
                arch: arch@,
            },
            DownloadError::NoChecksumsFile => DownloadErrorView::NoChecksumsFile,
            DownloadError::ChecksumNotFound(s) => DownloadErrorView::ChecksumNotFound(s@),
            DownloadError::ChecksumMismatch { expected, actual } => DownloadErrorView::ChecksumMismatch {
                expected: expected@,
                actual: actual@,
            },
            DownloadError::UnsupportedArchive(s) => DownloadErrorView::UnsupportedArchive(s@),
            DownloadError::ArchiveRead(m) => DownloadErrorView::ArchiveRead(m@),
            DownloadError::GhBinaryNotFound => DownloadErrorView::GhBinaryNotFound,
        }
    }
}

/// The message reported for a download error.
pub open spec fn download_error_message(e: DownloadErrorView) -> Seq<char> {
    match e {
        DownloadErrorView::NoAssetForPlatform { os, arch } => "no asset found for platform "@ + os
            + " "@ + arch,
        DownloadErrorView::NoChecksumsFile => "no checksums file found in release"@,
        DownloadErrorView::ChecksumNotFound(a) => "checksum for "@ + a
            + " not found in checksums file"@,
        DownloadErrorView::ChecksumMismatch { expected, actual } => "checksum mismatch: expected "@
            + expected + ", got "@ + actual,
        DownloadErrorView::UnsupportedArchive(s) => "unsupported archive format: "@ + s,
        DownloadErrorView::ArchiveRead(m) => m,
        DownloadErrorView::GhBinaryNotFound => "gh binary not found in extracted archive"@,
    }
}

impl DownloadError {
    /// The message reported for this error.
    pub fn message(&self) -> (r: String)
        ensures
            r@ == download_error_message(self@),
    {
        match self {
            DownloadError::NoAssetForPlatform { os, arch } => String::from_str(
                "no asset found for platform ",
            ).concat(os.as_str()).concat(" ").concat(arch.as_str()),
            DownloadError::NoChecksumsFile => String::from_str("no checksums file found in release"),
            DownloadError::ChecksumNotFound(a) => String::from_str("checksum for ").concat(
                a.as_str(),
            ).concat(" not found in checksums file"),
            DownloadError::ChecksumMismatch { expected, actual } => String::from_str(
                "checksum mismatch: expected ",
            ).concat(expected.as_str()).concat(", got ").concat(actual.as_str()),
            DownloadError::UnsupportedArchive(s) => String::from_str("unsupported archive format: ").concat(
                s.as_str(),
            ),
            DownloadError::ArchiveRead(m) => m.clone(),
            DownloadError::GhBinaryNotFound => String::from_str("gh binary not found in extracted archive"),
        }
    }
}

/// The release-asset names of an operating system and an architecture:
/// `macOS` or `linux`, and `arm64` or `amd64`.
pub fn platform_id(is_macos: bool, is_aarch64: bool) -> (r: (&'static str, &'static str))
    ensures
        r.0@ == (if is_macos {
            "macOS"@
        } else {
            "linux"@
        }),
        r.1@ == (if is_aarch64 {
            "arm64"@
        } else {
            "amd64"@
        }),
{
    let os = if is_macos {
        "macOS"
    } else {
        "linux"
    };
    let arch = if is_aarch64 {
        "arm64"
    } else {
        "amd64"
    };
    (os, arch)
}

/// An asset name is for the platform: it holds `_<os>_` and `_<arch>` and
/// is a `.tar.gz` or `.zip` archive.
pub open spec fn asset_fits(name: Seq<char>, os: Seq<char>, arch: Seq<char>) -> bool {
    &&& seq_contains(name, "_"@ + os + "_"@)
    &&& seq_contains(name, "_"@ + arch)
    &&& (seq_ends_with(name, ".tar.gz"@) || seq_ends_with(name, ".zip"@))
}

/// Index `i` is the first asset that satisfies `p`.
pub open spec fn first_index_where(assets: Seq<Asset>, p: spec_fn(Seq<char>) -> bool, i: int) -> bool {
    &&& 0 <= i < assets.len()
    &&& p(assets[i].name@)
    &&& forall|j: int| 0 <= j < i ==> !p(#[trigger] assets[j].name@)
}

/// Picks the first asset built for the platform.
pub fn select_asset<'a>(assets: &'a [Asset], os: &str, arch: &str) -> (r: Result<&'a Asset, DownloadError>)
    ensures
        r is Ok <==> exists|i: int| 0 <= i < assets@.len() && asset_fits(assets@[i].name@, os@, arch@),
        r matches Ok(a) ==> exists|i: int|
            first_index_where(assets@, |n: Seq<char>| asset_fits(n, os@, arch@), i) && *a
                == assets@[i],
        r matches Err(e) ==> e@ == (DownloadErrorView::NoAssetForPlatform { os: os@, arch: arch@ }),
{
    let pattern_os = String::from_str("_").concat(os).concat("_");
    let pattern_arch = String::from_str("_").concat(arch);
    let n = assets.len();
    let mut i: usize = 0;
    while i < n
        invariant
            n == assets@.len(),
            i <= n,
            pattern_os@ == "_"@ + os@ + "_"@,
            pattern_arch@ == "_"@ + arch@,
            forall|j: int| 0 <= j < i ==> !asset_fits(#[trigger] assets@[j].name@, os@, arch@),
        decreases n - i,
    {
        let name = assets[i].name.as_str();
        if contains(name, pattern_os.as_str()) && contains(name, pattern_arch.as_str()) && (
        ends_with(name, ".tar.gz") || ends_with(name, ".zip")) {
            return Ok(&assets[i]);
        }
        i = i + 1;
    }
    Err(DownloadError::NoAssetForPlatform { os: String::from_str(os), arch: String::from_str(arch) })
}

/// The asset chosen for a platform is an archive that extraction opens: an
/// asset fits the platform exactly when its name holds `_<os>_` and
/// `_<arch>` and ends with `.tar.gz` or `.zip`, and then its archive kind is
/// known (`.zip` a zip archive, `.tar.gz` a gzip-compressed tar archive).
pub proof fn law_chosen_asset_is_an_archive(name: Seq<char>, os: Seq<char>, arch: Seq<char>)
    ensures
        asset_fits(name, os, arch) <==> {
            &&& seq_contains(name, "_"@ + os + "_"@)
            &&& seq_contains(name, "_"@ + arch)
            &&& seq_ends_with(name, ".tar.gz"@) || seq_ends_with(name, ".zip"@)
        },
        asset_fits(name, os, arch) ==> archive_format_of(name) is Some,
        asset_fits(name, os, arch) && seq_ends_with(name, ".zip"@) ==> archive_format_of(name)
            == Some(ArchiveFormat::Zip),
        asset_fits(name, os, arch) && seq_ends_with(name, ".tar.gz"@) ==> archive_format_of(name)
            == Some(ArchiveFormat::TarGz),
{
    reveal_strlit(".zip");
    reveal_strlit(".tar.gz");
    if seq_ends_with(name, ".zip"@) && seq_ends_with(name, ".tar.gz"@) {
        assert(name.subrange(name.len() - 4, name.len() as int)[3] == name[name.len() - 1]);
        assert(name.subrange(name.len() - 7, name.len() as int)[6] == name[name.len() - 1]);
        assert(".zip"@[3] == 'p' && ".tar.gz"@[6] == 'z');
    }
}

/// The name of a release's checksums file ends with `_checksums.txt`.
pub open spec fn is_checksums_name(name: Seq<char>) -> bool {
    seq_ends_with(name, "_checksums.txt"@)
}

/// Picks the first asset of a release that is its checksums file.
pub fn find_checksums_asset<'a>(assets: &'a [Asset]) -> (r: Result<&'a Asset, DownloadError>)
    ensures
        r is Ok <==> exists|i: int| 0 <= i < assets@.len() && is_checksums_name(assets@[i].name@),
        r matches Ok(a) ==> exists|i: int|
            first_index_where(assets@, |n: Seq<char>| is_checksums_name(n), i) && *a == assets@[i],
        r matches Err(e) ==> e@ == DownloadErrorView::NoChecksumsFile,
{
    let n = assets.len();
    let mut i: usize = 0;
    while i < n
        invariant
            n == assets@.len(),
            i <= n,
            forall|j: int| 0 <= j < i ==> !is_checksums_name(#[trigger] assets@[j].name@),
        decreases n - i,
    {
        if ends_with(assets[i].name.as_str(), "_checksums.txt") {
            return Ok(&assets[i]);
        }
        i = i + 1;
    }
    Err(DownloadError::NoChecksumsFile)
}

/// A checksums line names the asset: its second word is the asset name.
pub open spec fn line_names(line: Seq<char>, asset: Seq<char>) -> bool {
    tokens(line).len() >= 2 && tokens(line)[1] == asset
}

/// The checksum that the first line naming the asset gives (its first
/// word), if any line names it.
pub open spec fn checksum_in_lines(lines: Seq<Seq<char>>, asset: Seq<char>) -> Option<Seq<char>>
    decreases lines.len(),
{
    if lines.len() == 0 {
        None
    } else if line_names(lines[0], asset) {
        Some(tokens(lines[0])[0])
    } else {
        checksum_in_lines(lines.skip(1), asset)
    }
}

/// The checksum of an asset in the text of a checksums file, whose lines
/// read `<checksum> <asset name>`.
pub open spec fn checksum_for(content: Seq<char>, asset: Seq<char>) -> Option<Seq<char>> {
    checksum_in_lines(split_seq(content, '\n'), asset)
}

proof fn lemma_checksum_skip(lines: Seq<Seq<char>>, asset: Seq<char>, k: int)
    requires
        0 <= k <= lines.len(),
        forall|j: int| 0 <= j < k ==> !line_names(#[trigger] lines[j], asset),
    ensures
        checksum_in_lines(lines, asset) == checksum_in_lines(lines.skip(k), asset),
    decreases k,
{
    if k > 0 {
        assert(lines.skip(1).skip(k - 1) =~= lines.skip(k));
        lemma_checksum_skip(lines.skip(1), asset, k - 1);
    } else {
        assert(lines.skip(0) =~= lines);
    }
}

/// Finds the checksum of `asset_name` in the text of a checksums file.
pub fn find_checksum(content: &str, asset_name: &str) -> (r: Result<String, DownloadError>)
    ensures
        match checksum_for(content@, asset_name@) {
            Some(c) => r is Ok && r->Ok_0@ == c,
            None => r is Err && r->Err_0@ == DownloadErrorView::ChecksumNotFound(asset_name@),
        },
{
    let lines = split_on(content, '\n');
    let ghost ls = lines@.map_values(|x: String| x@);
    let n = lines.len();
    let mut i: usize = 0;
    while i < n
        invariant
            n == lines@.len(),
            ls == lines@.map_values(|x: String| x@),
            ls == split_seq(content@, '\n'),
            i <= n,
            forall|j: int| 0 <= j < i ==> !line_names(#[trigger] ls[j], asset_name@),
        decreases n - i,
    {
        let parts = split_whitespace(lines[i].as_str());
        let ghost ts = parts@.map_values(|x: String| x@);
        assert(ls[i as int] == lines@[i as int]@);
        if parts.len() >= 2 && str_eq(parts[1].as_str(), asset_name) {
            proof {
                lemma_checksum_skip(ls, asset_name@, i as int);
                assert(ls.skip(i as int)[0] == ls[i as int]);
            }
            return Ok(parts[0].clone());
        }
        i = i + 1;
    }
    proof {
        lemma_checksum_skip(ls, asset_name@, n as int);
    }
    Err(DownloadError::ChecksumNotFound(String::from_str(asset_name)))
}

/// What SHA-256 gives for the bytes.
pub uninterp spec fn sha256_digest(data: Seq<u8>) -> Seq<u8>;

/// The SHA-256 digest of `data`, computed by the `sha2` crate
/// (`Sha256::digest`). The contract only names the result, a function of
/// the bytes alone.
#[verifier::external_body]
fn sha256(data: &[u8]) -> (r: Vec<u8>)
    ensures
        r@ == sha256_digest(data@),
{
    sha2::Sha256::digest(data).to_vec()
}

/// Lower-case hexadecimal: two digits from `0123456789abcdef` per byte, the
/// high half first.
pub open spec fn hex_lower(bytes: Seq<u8>) -> Seq<char>
    decreases bytes.len(),
{
    if bytes.len() == 0 {
        Seq::empty()
    } else {
        seq![
            "0123456789abcdef"@[(bytes[0] / 16) as int],
            "0123456789abcdef"@[(bytes[0] % 16) as int],
        ] + hex_lower(bytes.skip(1))
    }
}

/// Hex-encodes bytes with the `hex` crate (`hex::encode`), which writes two
/// lower-case digits per byte, high half first.
#[verifier::external_body]
fn hex_encode(bytes: &[u8]) -> (r: String)
    ensures
        r@ == hex_lower(bytes@),
{
    hex::encode(bytes)
}

/// The lower-case hex SHA-256 digest of `data`.
pub fn sha256_hex(data: &[u8]) -> (r: String)
    ensures
        r@ == hex_lower(sha256_digest(data@)),
{
    let digest = sha256(data);
    hex_encode(digest.as_slice())
}

/// Checks a computed digest against the published lower-case hex checksum.
pub fn check_digest(digest: &[u8], expected: &str) -> (r: Result<(), DownloadError>)
    ensures
        r is Ok <==> hex_lower(digest@) == expected@,
        r matches Err(e) ==> e@ == (DownloadErrorView::ChecksumMismatch {
            expected: expected@,
            actual: hex_lower(digest@),
        }),
{
    let actual = hex_encode(digest);
    if str_eq(actual.as_str(), expected) {
        Ok(())
    } else {
        Err(DownloadError::ChecksumMismatch { expected: String::from_str(expected), actual })
    }
}

/// Checks downloaded bytes against the published lower-case hex SHA-256
/// checksum.
pub fn check_sha256(data: &[u8], expected: &str) -> (r: Result<(), DownloadError>)
    ensures
        r is Ok <==> hex_lower(sha256_digest(data@)) == expected@,
        r matches Err(e) ==> e@ == (DownloadErrorView::ChecksumMismatch {
            expected: expected@,
            actual: hex_lower(sha256_digest(data@)),
        }),
{
    let digest = sha256(data);
    check_digest(digest.as_slice(), expected)
}

/// The kind of a release archive.
#[derive(Debug, Clone, Copy, PartialEq, Eq, Structural)]
pub enum ArchiveFormat {
    Zip,
    TarGz,
}

/// The archive kind that a file name shows, if it shows one.
pub open spec fn archive_format_of(name: Seq<char>) -> Option<ArchiveFormat> {
    if seq_ends_with(name, ".zip"@) {
        Some(ArchiveFormat::Zip)
    } else if seq_ends_with(name, ".tar.gz"@) || seq_ends_with(name, ".tgz"@) {
        Some(ArchiveFormat::TarGz)
    } else {
        None
    }
}

/// The kind of the archive at the path `name`: `.zip`, or `.tar.gz`/`.tgz`.
pub fn archive_format(name: &str) -> (r: Result<ArchiveFormat, DownloadError>)
    ensures
        match archive_format_of(name@) {
            Some(f) => r == Ok::<ArchiveFormat, DownloadError>(f),
            None => r is Err && r->Err_0@ == DownloadErrorView::UnsupportedArchive(name@),
        },
{
    if ends_with(name, ".zip") {
        Ok(ArchiveFormat::Zip)
    } else if ends_with(name, ".tar.gz") || ends_with(name, ".tgz") {
        Ok(ArchiveFormat::TarGz)
    } else {
        Err(DownloadError::UnsupportedArchive(String::from_str(name)))
    }
}

/// An archive entry is the `gh` binary: `*/bin/gh`, or `gh` itself.
pub open spec fn is_gh_binary_name(name: Seq<char>) -> bool {
    seq_ends_with(name, "/bin/gh"@) || name == "gh"@
}

/// Whether an archive entry path is the `gh` binary.
pub fn is_gh_binary_entry(name: &str) -> (r: bool)
    ensures
        r == is_gh_binary_name(name@),
{
    ends_with(name, "/bin/gh") || str_eq(name, "gh")
}

/// A normal path component: not empty, not `.` and not `..`.
pub open spec fn is_normal_part(p: Seq<char>) -> bool {
    p.len() > 0 && p != "."@ && p != ".."@
}

/// The normal components among `parts`, in order.
pub open spec fn normal_parts(parts: Seq<Seq<char>>) -> Seq<Seq<char>>
    decreases parts.len(),
{
    if parts.len() == 0 {
        Seq::empty()
    } else {
        let r = normal_parts(parts.drop_last());
        if is_normal_part(parts.last()) {
            r.push(parts.last())
        } else {
            r
        }
    }
}

/// The parts joined with `/` between each two.
pub open spec fn join_with_slash(parts: Seq<Seq<char>>) -> Seq<char>
    decreases parts.len(),
{
    if parts.len() == 0 {
        Seq::empty()
    } else if parts.len() == 1 {
        parts[0]
    } else {
        join_with_slash(parts.drop_last()) + "/"@ + parts.last()
    }
}

/// The sanitized form of an archive entry path: its normal components
/// joined in order; the root, `.` and `..` components are stripped.
pub open spec fn sanitized_path(name: Seq<char>) -> Seq<char> {
    join_with_slash(normal_parts(split_seq(name, '/')))
}

/// Sanitizes an archive entry path so that it stays inside the extraction
/// directory: `..`, the root and `.` are stripped, so `../x/bin/gh` becomes
/// `x/bin/gh` and `/usr/bin/gh` becomes `usr/bin/gh`.
pub fn sanitize_archive_path(name: &str) -> (r: String)
    ensures
        r@ == sanitized_path(name@),
{
    let parts = split_on(name, '/');
    let ghost ps = parts@.map_values(|x: String| x@);
    let n = parts.len();
    let mut clean = String::from_str("");
    let mut any = false;
    let mut i: usize = 0;
    proof {
        reveal_strlit("");
        assert(ps.take(0) =~= Seq::<Seq<char>>::empty());
    }
    while i < n
        invariant
            n == parts@.len(),
            ps == parts@.map_values(|x: String| x@),
            ps == split_seq(name@, '/'),
            i <= n,
            clean@ == join_with_slash(normal_parts(ps.take(i as int))),
            any == (normal_parts(ps.take(i as int)).len() > 0),
        decreases n - i,
    {
        let part = parts[i].as_str();
        assert(ps[i as int] == part@);
        assert(ps.take(i + 1).drop_last() =~= ps.take(i as int));
        assert(ps.take(i + 1).last() == part@);
        proof {
            reveal_strlit(".");
            reveal_strlit("..");
        }
        if part.unicode_len() != 0 && !str_eq(part, ".") && !str_eq(part, "..") {
            let ghost before = normal_parts(ps.take(i as int));
            assert(normal_parts(ps.take(i + 1)) == before.push(part@));
            assert(before.push(part@).drop_last() =~= before);
            if any {
                clean = clean.concat("/").concat(part);
            } else {
                clean = String::from_str(part);
            }
            any = true;
        }
        i = i + 1;
    }
    assert(ps.take(n as int) =~= ps);
    clean
}

proof fn lemma_normal_parts(parts: Seq<Seq<char>>)
    requires
        forall|k: int| 0 <= k < parts.len() ==> !(#[trigger] parts[k]).contains('/'),
    ensures
        forall|k: int|
            0 <= k < normal_parts(parts).len() ==> is_normal_part(#[trigger] normal_parts(parts)[k])
                && !normal_parts(parts)[k].contains('/'),
    decreases parts.len(),
{
    if parts.len() > 0 {
        let d = parts.drop_last();
        assert forall|k: int| 0 <= k < d.len() implies !(#[trigger] d[k]).contains('/') by {
            assert(d[k] == parts[k]);
        }
        lemma_normal_parts(d);
        assert(!parts[parts.len() - 1].contains('/'));
        let r = normal_parts(d);
        let np = normal_parts(parts);
        assert forall|k: int| 0 <= k < np.len() implies is_normal_part(#[trigger] np[k])
            && !np[k].contains('/') by {
            if k < r.len() {
                assert(np[k] == r[k]);
            }
        }
    }
}

proof fn lemma_join_split(ps: Seq<Seq<char>>)
    requires
        ps.len() > 0,
        forall|k: int| 0 <= k < ps.len() ==> (#[trigger] ps[k]).len() > 0 && !ps[k].contains('/'),
    ensures
        split_seq(join_with_slash(ps), '/') == ps,
        join_with_slash(ps).len() > 0,
        join_with_slash(ps)[0] == ps[0][0],
    decreases ps.len(),
{
    if ps.len() == 1 {
        assert(ps[0].len() > 0 && !ps[0].contains('/'));
        lemma_split_single(ps[0], '/');
        assert(seq![ps[0]] =~= ps);
    } else {
        let d = ps.drop_last();
        assert forall|k: int| 0 <= k < d.len() implies (#[trigger] d[k]).len() > 0 && !d[k].contains('/') by {
            assert(d[k] == ps[k]);
        }
        lemma_join_split(d);
        let last = ps[ps.len() - 1];
        assert(last.len() > 0 && !last.contains('/'));
        lemma_split_single(last, '/');
        assert("/"@ =~= seq!['/']) by {
            reveal_strlit("/");
        }
        lemma_split_concat(join_with_slash(d), last, '/');
        assert(d + seq![last] =~= ps);
    }
}

/// The sanitized path of an archive entry is made of exactly the normal
/// components of the entry's path, in order: splitting it at `/` gives
/// them back, and it is relative. A path without normal components
/// sanitizes to the empty path.
pub proof fn law_sanitized_path_components(name: Seq<char>)
    ensures
        normal_parts(split_seq(name, '/')).len() == 0 ==> sanitized_path(name).len() == 0,
        normal_parts(split_seq(name, '/')).len() > 0 ==> {
            &&& split_seq(sanitized_path(name), '/') == normal_parts(split_seq(name, '/'))
            &&& !seq_starts_with(sanitized_path(name), "/"@)
        },
        forall|k: int|
            0 <= k < normal_parts(split_seq(name, '/')).len() ==> is_normal_part(
                #[trigger] normal_parts(split_seq(name, '/'))[k],
            ),
{
    let parts = split_seq(name, '/');
    lemma_split_pieces(name, '/');
    lemma_normal_parts(parts);
    let np = normal_parts(parts);
    if np.len() > 0 {
        assert(is_normal_part(np[0]));
        lemma_join_split(np);
        let p = sanitized_path(name);
        assert(!np[0].contains('/'));
        assert(np[0][0] != '/') by {
            if np[0][0] == '/' {
                assert(np[0].contains('/'));
            }
        }
        assert(!seq_starts_with(p, "/"@)) by {
            reveal_strlit("/");
            if seq_starts_with(p, "/"@) {
                assert(p.subrange(0, 1)[0] == p[0]);
            }
        }
    }
}

/// Where an archive entry is extracted to, relative to the extraction
/// directory: only a `gh` binary that is not a directory is extracted,
/// under its sanitized path.
pub open spec fn entry_plan(name: Seq<char>, is_dir: bool) -> Option<Seq<char>> {
    if is_dir || !is_gh_binary_name(name) {
        None
    } else {
        Some(sanitized_path(name))
    }
}

/// Decides what happens to one archive entry: `None` to skip it, or the
/// relative path to extract it to.
pub fn plan_entry(name: &str, is_dir: bool) -> (r: Option<String>)
    ensures
        match entry_plan(name@, is_dir) {
            None => r is None,
            Some(p) => r matches Some(q) && q@ == p,
        },
{
    if is_dir || !is_gh_binary_entry(name) {
        return None;
    }
    Some(sanitize_archive_path(name))
}

} // verus!

verus! {

/// A file that extraction writes: its path relative to the extraction
/// directory, and its contents.
#[derive(Debug, Clone)]
pub struct ExtractedFile {
    pub path: String,
    pub data: Vec<u8>,
}

/// Extracted files as paths and contents.
pub open spec fn files_view(files: Seq<ExtractedFile>) -> Seq<(Seq<char>, Seq<u8>)> {
    files.map_values(|f: ExtractedFile| (f.path@, f.data@))
}

/// The outcome of an extraction, as paths and contents or the error's view.
pub open spec fn extraction_view(r: Result<Vec<ExtractedFile>, DownloadError>) -> Result<
    Seq<(Seq<char>, Seq<u8>)>,
    DownloadErrorView,
> {
    match r {
        Ok(v) => Ok(files_view(v@)),
        Err(e) => Err(e@),
    }
}

/// A list of names or a message, as text.
pub open spec fn names_result_view(r: Result<Vec<String>, String>) -> Result<Seq<Seq<char>>, Seq<char>> {
    match r {
        Ok(v) => Ok(v@.map_values(|s: String| s@)),
        Err(e) => Err(e@),
    }
}

/// Bytes or a message, as sequences.
pub open spec fn bytes_result_view(r: Result<Vec<u8>, String>) -> Result<Seq<u8>, Seq<char>> {
    match r {
        Ok(v) => Ok(v@),
        Err(e) => Err(e@),
    }
}

/// Tar entries (path, type byte, contents) or a message, as sequences.
pub open spec fn tar_entries_view(r: Result<Vec<(String, u8, Vec<u8>)>, String>) -> Result<
    Seq<(Seq<char>, u8, Seq<u8>)>,
    Seq<char>,
> {
    match r {
        Ok(v) => Ok(v@.map_values(|e: (String, u8, Vec<u8>)| (e.0@, e.1, e.2@))),
        Err(e) => Err(e@),
    }
}

/// What the `zip` crate lists as the entry names of an archive, in archive
/// order, or the message of its error.
pub uninterp spec fn zip_names_of(data: Seq<u8>) -> Result<Seq<Seq<char>>, Seq<char>>;

/// Opens a zip archive held in memory with the `zip` crate
/// (`ZipArchive::new`) and lists its entry names with `file_names`, which
/// gives them in index order; on failure, the error's message. The contract
/// names the result, a function of the bytes alone.
#[verifier::external_body]
fn zip_names(data: &[u8]) -> (r: Result<Vec<String>, String>)
    ensures
        names_result_view(r) == zip_names_of(data@),
{
    let archive = zip::ZipArchive::new(std::io::Cursor::new(data)).map_err(|e| e.to_string())?;
    Ok(archive.file_names().map(String::from).collect())
}

/// What the `zip` crate reads as the contents of entry `index` of an
/// archive, or the message of its error.
pub uninterp spec fn zip_entry_data_of(data: Seq<u8>, index: usize) -> Result<Seq<u8>, Seq<char>>;

/// Reads the contents of entry `index` of a zip archive held in memory with
/// the `zip` crate (`ZipArchive::new`, `by_index`, then reading the entry to
/// its end); on failure, the error's message. The contract names the result,
/// a function of the bytes and the index alone.
#[verifier::external_body]
fn zip_entry_data(data: &[u8], index: usize) -> (r: Result<Vec<u8>, String>)
    ensures
        bytes_result_view(r) == zip_entry_data_of(data@, index),
{
    let mut archive = zip::ZipArchive::new(std::io::Cursor::new(data)).map_err(|e| e.to_string())?;
    let mut entry = archive.by_index(index).map_err(|e| e.to_string())?;
    let mut out = Vec::new();
    std::io::Read::read_to_end(&mut entry, &mut out).map_err(|e| e.to_string())?;
    Ok(out)
}

/// A zip entry is a directory when its name ends with `/` or `\`, which is
/// how the `zip` crate decides (`ZipFile::is_dir`).
pub open spec fn zip_name_is_dir(name: Seq<char>) -> bool {
    name.len() > 0 && (name.last() == '/' || name.last() == '\\')
}

/// Whether a zip entry name is that of a directory.
pub fn zip_entry_is_dir(name: &str) -> (r: bool)
    ensures
        r == zip_name_is_dir(name@),
{
    let n = name.unicode_len();
    if n == 0 {
        return false;
    }
    let c = name.get_char(n - 1);
    c == '/' || c == '\\'
}

/// The files that extracting the zip entries `names` writes, in order: each
/// `gh` binary entry under its sanitized path with the contents that the
/// reader gives for it; the first read error stops the extraction.
pub open spec fn zip_files(data: Seq<u8>, names: Seq<Seq<char>>) -> Result<Seq<(Seq<char>, Seq<u8>)>, Seq<char>>
    decreases names.len(),
{
    if names.len() == 0 {
        Ok(Seq::empty())
    } else {
        match zip_files(data, names.drop_last()) {
            Err(m) => Err(m),
            Ok(fs) => match entry_plan(names.last(), zip_name_is_dir(names.last())) {
                None => Ok(fs),
                Some(p) => match zip_entry_data_of(data, (names.len() - 1) as usize) {
                    Ok(b) => Ok(fs.push((p, b))),
                    Err(m) => Err(m),
                },
            },
        }
    }
}

/// What extracting a zip archive gives: the planned files, or the reader's
/// error.
pub open spec fn zip_extraction(data: Seq<u8>) -> Result<Seq<(Seq<char>, Seq<u8>)>, DownloadErrorView> {
    match zip_names_of(data) {
        Err(m) => Err(DownloadErrorView::ArchiveRead(m)),
        Ok(names) => match zip_files(data, names) {
            Ok(fs) => Ok(fs),
            Err(m) => Err(DownloadErrorView::ArchiveRead(m)),
        },
    }
}

proof fn lemma_zip_files_error(data: Seq<u8>, names: Seq<Seq<char>>, k: int)
    requires
        0 <= k <= names.len(),
        zip_files(data, names.take(k)) is Err,
    ensures
        zip_files(data, names) == zip_files(data, names.take(k)),
    decreases names.len(),
{
    if k == names.len() {
        assert(names.take(k) =~= names);
    } else {
        assert(names.drop_last().take(k) =~= names.take(k));
        lemma_zip_files_error(data, names.drop_last(), k);
    }
}

/// Extracts the `gh` binary from a zip archive held in memory: lists the
/// entries, and reads each `gh` binary entry that is not a directory.
pub fn extract_zip(data: &[u8]) -> (r: Result<Vec<ExtractedFile>, DownloadError>)
    ensures
        extraction_view(r) == zip_extraction(data@),
{
    let names = match zip_names(data) {
        Ok(v) => v,
        Err(m) => {
            return Err(DownloadError::ArchiveRead(m));
        },
    };
    let ghost ns = names@.map_values(|s: String| s@);
    let n = names.len();
    let mut files: Vec<ExtractedFile> = Vec::new();
    let mut i: usize = 0;
    assert(ns.take(0) =~= Seq::<Seq<char>>::empty());
    assert(files_view(files@) =~= Seq::<(Seq<char>, Seq<u8>)>::empty());
    while i < n
        invariant
            n == names@.len(),
            ns == names@.map_values(|s: String| s@),
            zip_names_of(data@) == Ok::<Seq<Seq<char>>, Seq<char>>(ns),
            i <= n,
            zip_files(data@, ns.take(i as int)) == Ok::<Seq<(Seq<char>, Seq<u8>)>, Seq<char>>(
                files_view(files@),
            ),
        decreases n - i,
    {
        let name = names[i].as_str();
        assert(ns[i as int] == name@);
        assert(ns.take(i + 1).drop_last() =~= ns.take(i as int));
        assert(ns.take(i + 1).last() == name@);
        let is_dir = zip_entry_is_dir(name);
        match plan_entry(name, is_dir) {
            None => {},
            Some(path) => {
                match zip_entry_data(data, i) {
                    Ok(bytes) => {
                        let ghost before = files_view(files@);
                        files.push(ExtractedFile { path, data: bytes });
                        assert(files_view(files@) =~= before.push((path@, bytes@)));
                    },
                    Err(m) => {
                        proof {
                            lemma_zip_files_error(data@, ns, i + 1);
                        }
                        return Err(DownloadError::ArchiveRead(m));
                    },
                }
            },
        }
        i = i + 1;
    }
    assert(ns.take(n as int) =~= ns);
    Ok(files)
}

/// What the `tar` crate reads from a gzip-compressed tar archive that it
/// reads through `flate2`'s decompressor: each entry's path, the byte of its
/// header's type, and its contents, in archive order; or the message of the
/// error.
pub uninterp spec fn tar_gz_entries_of(data: Seq<u8>) -> Result<Seq<(Seq<char>, u8, Seq<u8>)>, Seq<char>>;

/// Reads the entries of a gzip-compressed tar archive held in memory with
/// the `tar` crate over `flate2`'s `read::GzDecoder`, as a stream that ends
/// at the archive's end marker (`Archive::entries`; for each entry its
/// `path`, shown lossily as text, the byte of its header's entry type, and
/// its contents read to the end); on failure, the error's message. The
/// contract names the result, a function of the bytes alone.
#[verifier::external_body]
fn tar_gz_entries(data: &[u8]) -> (r: Result<Vec<(String, u8, Vec<u8>)>, String>)
    ensures
        tar_entries_view(r) == tar_gz_entries_of(data@),
{
    let mut archive = tar::Archive::new(flate2::read::GzDecoder::new(data));
    let mut out = Vec::new();
    for entry in archive.entries().map_err(|e| e.to_string())? {
        let mut entry = entry.map_err(|e| e.to_string())?;
        let path = entry.path().map_err(|e| e.to_string())?.to_string_lossy().into_owned();
        let kind = entry.header().entry_type().as_byte();
        let mut bytes = Vec::new();
        std::io::Read::read_to_end(&mut entry, &mut bytes).map_err(|e| e.to_string())?;
        out.push((path, kind, bytes));
    }
    Ok(out)
}

/// A tar entry of this type is not written as a file: a hard link (`1`), a
/// symbolic link (`2`) or a directory (`5`). Unpacking makes links of the
/// first two, which the search for the installed binary passes over, and a
/// directory of the last; every other type is unpacked as a regular file.
pub open spec fn tar_kind_not_a_file(kind: u8) -> bool {
    kind == 0x31 || kind == 0x32 || kind == 0x35
}

/// Whether a tar entry of this type is not written as a file.
pub fn tar_entry_not_a_file(kind: u8) -> (r: bool)
    ensures
        r == tar_kind_not_a_file(kind),
{
    kind == 0x31 || kind == 0x32 || kind == 0x35
}

/// The files that extracting the tar entries writes, in order: each `gh`
/// binary entry that is written as a file, under its sanitized path.
pub open spec fn tar_files(entries: Seq<(Seq<char>, u8, Seq<u8>)>) -> Seq<(Seq<char>, Seq<u8>)>
    decreases entries.len(),
{
    if entries.len() == 0 {
        Seq::empty()
    } else {
        let fs = tar_files(entries.drop_last());
        let e = entries.last();
        match entry_plan(e.0, tar_kind_not_a_file(e.1)) {
            None => fs,
            Some(p) => fs.push((p, e.2)),
        }
    }
}

/// What extracting a gzip-compressed tar archive gives: the planned files,
/// or the reader's error.
pub open spec fn tar_gz_extraction(data: Seq<u8>) -> Result<Seq<(Seq<char>, Seq<u8>)>, DownloadErrorView> {
    match tar_gz_entries_of(data) {
        Err(m) => Err(DownloadErrorView::ArchiveRead(m)),
        Ok(entries) => Ok(tar_files(entries)),
    }
}

/// Extracts the `gh` binary from a gzip-compressed tar archive held in
/// memory.
pub fn extract_tar_gz(data: &[u8]) -> (r: Result<Vec<ExtractedFile>, DownloadError>)
    ensures
        extraction_view(r) == tar_gz_extraction(data@),
{
    let entries = match tar_gz_entries(data) {
        Ok(v) => v,
        Err(m) => {
            return Err(DownloadError::ArchiveRead(m));
        },
    };
    let ghost es = entries@.map_values(|e: (String, u8, Vec<u8>)| (e.0@, e.1, e.2@));
    let n = entries.len();
    let mut files: Vec<ExtractedFile> = Vec::new();
    let mut i: usize = 0;
    assert(es.take(0) =~= Seq::<(Seq<char>, u8, Seq<u8>)>::empty());
    assert(files_view(files@) =~= Seq::<(Seq<char>, Seq<u8>)>::empty());
    while i < n
        invariant
            n == entries@.len(),
            es == entries@.map_values(|e: (String, u8, Vec<u8>)| (e.0@, e.1, e.2@)),
            i <= n,
            tar_files(es.take(i as int)) == files_view(files@),
        decreases n - i,
    {
        let entry = &entries[i];
        assert(es[i as int] == (entry.0@, entry.1, entry.2@));
        assert(es.take(i + 1).drop_last() =~= es.take(i as int));
        assert(es.take(i + 1).last() == es[i as int]);
        match plan_entry(entry.0.as_str(), tar_entry_not_a_file(entry.1)) {
            None => {},
            Some(path) => {
                let ghost before = files_view(files@);
                let bytes = entry.2.clone();
                files.push(ExtractedFile { path, data: bytes });
                assert(files_view(files@) =~= before.push((path@, entry.2@)));
            },
        }
        i = i + 1;
    }
    assert(es.take(n as int) =~= es);
    Ok(files)
}

/// What extracting the archive at the path `name` gives, by the kind that
/// its name shows.
pub open spec fn archive_extraction(name: Seq<char>, data: Seq<u8>) -> Result<
    Seq<(Seq<char>, Seq<u8>)>,
    DownloadErrorView,
> {
    match archive_format_of(name) {
        None => Err(DownloadErrorView::UnsupportedArchive(name)),
        Some(ArchiveFormat::Zip) => zip_extraction(data),
        Some(ArchiveFormat::TarGz) => tar_gz_extraction(data),
    }
}

/// Extracts the `gh` binary from the downloaded archive at the path `name`,
/// whose bytes are `data`: a `.zip`, or a `.tar.gz`/`.tgz`.
pub fn extract_archive(name: &str, data: &[u8]) -> (r: Result<Vec<ExtractedFile>, DownloadError>)
    ensures
        extraction_view(r) == archive_extraction(name@, data@),
{
    match archive_format(name) {
        Ok(ArchiveFormat::Zip) => extract_zip(data),
        Ok(ArchiveFormat::TarGz) => extract_tar_gz(data),
        Err(e) => Err(e),
    }
}

/// Extraction writes only `gh` binaries: every file that extracting tar
/// entries writes comes from an entry that is a `gh` binary written as a
/// file (not a link or a directory), with that entry's contents, under the
/// entry's sanitized path.
pub proof fn law_tar_extraction_writes_only_gh(entries: Seq<(Seq<char>, u8, Seq<u8>)>)
    ensures
        forall|k: int|
            0 <= k < tar_files(entries).len() ==> exists|j: int|
                0 <= j < entries.len() && !tar_kind_not_a_file(entries[j].1) && is_gh_binary_name(entries[j].0)
                    && #[trigger] tar_files(entries)[k] == (sanitized_path(entries[j].0), entries[j].2),
    decreases entries.len(),
{
    if entries.len() > 0 {
        let d = entries.drop_last();
        law_tar_extraction_writes_only_gh(d);
        let fs = tar_files(d);
        let all = tar_files(entries);
        assert forall|k: int| 0 <= k < all.len() implies exists|j: int|
            0 <= j < entries.len() && !tar_kind_not_a_file(entries[j].1) && is_gh_binary_name(entries[j].0)
                && #[trigger] all[k] == (sanitized_path(entries[j].0), entries[j].2) by {
            if k < fs.len() {
                assert(all[k] == fs[k]);
                let j = choose|j: int|
                    0 <= j < d.len() && !tar_kind_not_a_file(d[j].1) && is_gh_binary_name(d[j].0) && fs[k] == (
                    sanitized_path(d[j].0), d[j].2);
                assert(d[j] == entries[j]);
            } else {
                assert(entries[entries.len() - 1] == entries.last());
            }
        }
    }
}

/// The file `f` comes from entry `j` of the zip archive: the entry is a
/// `gh` binary and not a directory, `f`'s contents are what the reader gives
/// for it, and `f`'s path is the entry's sanitized path.
pub open spec fn from_gh_zip_entry(data: Seq<u8>, names: Seq<Seq<char>>, j: int, f: (Seq<char>, Seq<u8>)) -> bool {
    &&& 0 <= j < names.len()
    &&& !zip_name_is_dir(names[j])
    &&& is_gh_binary_name(names[j])
    &&& zip_entry_data_of(data, j as usize) == Ok::<Seq<u8>, Seq<char>>(f.1)
    &&& f.0 == sanitized_path(names[j])
}

/// The file `f` comes from some `gh` binary entry of the zip archive.
pub open spec fn from_some_gh_zip_entry(data: Seq<u8>, names: Seq<Seq<char>>, f: (Seq<char>, Seq<u8>)) -> bool {
    exists|j: int| #[trigger] from_gh_zip_entry(data, names, j, f)
}

/// Every file in `fs` comes from a `gh` binary entry of the zip archive.
pub open spec fn all_from_gh_zip_entries(data: Seq<u8>, names: Seq<Seq<char>>, fs: Seq<(Seq<char>, Seq<u8>)>) -> bool {
    forall|k: int| 0 <= k < fs.len() ==> #[trigger] from_some_gh_zip_entry(data, names, fs[k])
}

/// Extraction writes only `gh` binaries: every file that extracting a zip
/// archive writes comes from an entry that is a `gh` binary and not a
/// directory, with the contents read for that entry, under the entry's
/// sanitized path.
pub proof fn law_zip_extraction_writes_only_gh(data: Seq<u8>, names: Seq<Seq<char>>)
    ensures
        zip_files(data, names) matches Ok(fs) ==> all_from_gh_zip_entries(data, names, fs),
    decreases names.len(),
{
    if names.len() > 0 {
        let d = names.drop_last();
        law_zip_extraction_writes_only_gh(data, d);
        if zip_files(data, names) is Ok {
            assert(zip_files(data, d) is Ok);
            let fs = zip_files(data, d)->Ok_0;
            let all = zip_files(data, names)->Ok_0;
            assert(all_from_gh_zip_entries(data, d, fs));
            let last = names.last();
            let j0 = names.len() - 1;
            assert(names[j0] == last);
            assert forall|k: int| 0 <= k < all.len() implies #[trigger] from_some_gh_zip_entry(
                data,
                names,
                all[k],
            ) by {
                if k < fs.len() {
                    assert(all[k] == fs[k]);
                    assert(from_some_gh_zip_entry(data, d, fs[k]));
                    let j = choose|j: int| #[trigger] from_gh_zip_entry(data, d, j, fs[k]);
                    assert(d[j] == names[j]);
                    assert(from_gh_zip_entry(data, names, j, all[k]));
                } else {
                    match entry_plan(last, zip_name_is_dir(last)) {
                        None => {
                            assert(all == fs);
                        },
                        Some(p) => {
                            assert(all == fs.push((p, zip_entry_data_of(data, j0 as usize)->Ok_0)));
                            assert(k == fs.len());
                            assert(from_gh_zip_entry(data, names, j0, all[k]));
                        },
                    }
                }
            }
            assert(all_from_gh_zip_entries(data, names, all));
        }
    }
}

} // verus!
