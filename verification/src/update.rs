//! The decisions of updating the real GitHub CLI, as a state machine: the
//! caller locks, loads, downloads, logs and installs, and reports what it
//! observed; [`update_step`] decides what comes next.
//!
//! An installation is only ever asked for with the files extracted from
//! downloaded bytes whose SHA-256 digest is the one that the release's
//! checksums file publishes for the asset.
use vstd::prelude::*;
use vstd::string::*;

use crate::config::Config;
use crate::download::{
    archive_extraction, check_sha256, checksum_for, download_error_message, extract_archive,
    extraction_view, find_checksum, find_checksums_asset, first_index_where, hex_lower,
    is_checksums_name, asset_fits, select_asset, sha256_digest, Asset, DownloadError,
    DownloadErrorView, ExtractedFile, Release,
};
use crate::error::{GuardError, GuardErrorView};
use crate::gh_manager::{is_current_version, out_of_order, release_query, ReleaseQuery};
use crate::state::{State, StateView};

verus! {

/// Where an update stands, with what it has gathered so far.
pub enum UpdatePhase {
    /// Nothing has been done.
    Start,
    /// The lock is being taken and the update state loaded.
    Loading,
    /// The release is being fetched.
    Fetching { state: State },
    /// The asset for the platform is being downloaded.
    DownloadingAsset { state: State, release: Release, asset: Asset },
    /// The checksums file is being downloaded.
    DownloadingChecksums { state: State, release: Release, asset: Asset, data: Vec<u8> },
    /// The download matched its published checksum; the check is being logged.
    Verified {
        state: State,
        version: String,
        asset: Asset,
        data: Vec<u8>,
        checksums: String,
        sha256: String,
    },
    /// The extracted files are being installed.
    Installing { state: State, version: String },
    /// The update is over.
    Done,
}

/// The state of an update. A verified phase always holds bytes whose
/// SHA-256 digest is the checksum that its checksums file gives for its
/// asset.
pub struct UpdateState {
    phase: UpdatePhase,
}

/// The downloaded bytes of a verified phase match the checksum published
/// for the asset.
pub open spec fn phase_checked(p: UpdatePhase) -> bool {
    p matches UpdatePhase::Verified { asset, data, checksums, sha256, .. } ==> {
        &&& checksum_for(checksums@, asset.name@) == Some(sha256@)
        &&& hex_lower(sha256_digest(data@)) == sha256@
    }
}

impl UpdateState {
    #[verifier::type_invariant]
    spec fn checked(self) -> bool {
        phase_checked(self.phase)
    }

    /// The phase of the update.
    pub closed spec fn phase(self) -> UpdatePhase {
        self.phase
    }

    /// An update that has not begun.
    pub fn new() -> (s: UpdateState)
        ensures
            s.phase() is Start,
    {
        UpdateState { phase: UpdatePhase::Start }
    }

    /// Whether the update is over.
    pub fn is_done(&self) -> (r: bool)
        ensures
            r == (self.phase() is Done),
    {
        match &self.phase {
            UpdatePhase::Done => true,
            _ => false,
        }
    }
}

/// What the caller observed.
pub enum UpdateEvent {
    /// The update begins.
    Begin,
    /// The lock is held and the update state was loaded.
    StateLoaded { state: State },
    /// The release was fetched, and the clock read (nanoseconds).
    ReleaseFetched { release: Release, now: i128 },
    /// The asset was downloaded (and kept in the download cache).
    AssetDownloaded { data: Vec<u8> },
    /// The checksums file was downloaded; its text.
    ChecksumsDownloaded { content: String },
    /// The verified download was logged.
    VerifiedLogged,
    /// The files were installed and the link switched; the clock read.
    Installed { now: i128 },
}

/// What the caller is to do next.
pub enum UpdateAction {
    /// Take the update lock and load the update state.
    LoadState,
    /// Fetch this release and read the clock.
    FetchRelease(ReleaseQuery),
    /// Log the start of the download of this version's asset, and download it.
    DownloadAsset { version: String, asset: Asset },
    /// Download this checksums file.
    DownloadChecksums { asset: Asset },
    /// Log that the download of this version's asset was verified.
    LogVerified { version: String, asset: String },
    /// Install these files of this version (their paths are relative to a
    /// empty extraction directory): place the `gh` binary among them in the
    /// version's directory, record its metadata, switch the link to it and
    /// log the installation.
    Install { version: String, asset: Asset, sha256: String, files: Vec<ExtractedFile> },
    /// Done: save this update state.
    SaveState(State),
    /// Done: fail with this error.
    Fail(GuardError),
}

/// Two assets have the same name and address.
pub open spec fn same_asset(a: Asset, b: Asset) -> bool {
    a.name@ == b.name@ && a.browser_download_url@ == b.browser_download_url@
}

/// The action fails with the message of a download error.
pub open spec fn fails_with(a: UpdateAction, e: DownloadErrorView) -> bool {
    a matches UpdateAction::Fail(g) && g@ == GuardErrorView::Other(download_error_message(e))
}

/// The files of an install action are those that extracting `data` as the
/// asset `name` gives.
pub open spec fn files_extracted(files: Vec<ExtractedFile>, name: Seq<char>, data: Seq<u8>) -> bool {
    extraction_view(Ok::<Vec<ExtractedFile>, DownloadError>(files)) == archive_extraction(name, data)
}

/// The release to fetch for a pinned version (empty when none) and a
/// release repository: the pinned tag, or the latest release.
pub open spec fn query_fits(pinned: Seq<char>, repo: Seq<char>, q: ReleaseQuery) -> bool {
    if pinned.len() == 0 {
        q matches ReleaseQuery::Latest { repo: r } && r@ == repo
    } else {
        q matches ReleaseQuery::Tag { repo: r, tag } && r@ == repo && tag@ == pinned
    }
}

/// The action saves the update state `v`.
pub open spec fn saves(a: UpdateAction, v: StateView) -> bool {
    a matches UpdateAction::SaveState(s2) && s2@ == v
}

/// The action downloads the asset of `version` that is a copy of `asset`.
pub open spec fn downloads_asset(a: UpdateAction, version: Seq<char>, asset: Asset) -> bool {
    a matches UpdateAction::DownloadAsset { version: v, asset: a2 } && v@ == version && same_asset(
        a2,
        asset,
    )
}

/// `asset` is a copy of the first asset of `release` for the platform.
pub open spec fn first_fitting(release: Release, os: Seq<char>, arch: Seq<char>, asset: Asset) -> bool {
    exists|i: int|
        first_index_where(release.assets@, |n: Seq<char>| asset_fits(n, os, arch), i) && same_asset(
            asset,
            #[trigger] release.assets@[i],
        )
}

/// `asset` is a copy of the first checksums file of `release`.
pub open spec fn first_checksums(release: Release, asset: Asset) -> bool {
    exists|i: int|
        first_index_where(release.assets@, |n: Seq<char>| is_checksums_name(n), i) && same_asset(
            asset,
            #[trigger] release.assets@[i],
        )
}

/// What one step of an update does: the next phase and action for a phase
/// and an event. `pinned` is the pinned version (empty when none), `repo`
/// the release repository, and `os` and `arch` name the platform.
pub open spec fn update_transition(
    pinned: Seq<char>,
    repo: Seq<char>,
    os: Seq<char>,
    arch: Seq<char>,
    s: UpdatePhase,
    e: UpdateEvent,
    next: UpdatePhase,
    a: UpdateAction,
) -> bool {
    match (s, e) {
        (UpdatePhase::Start, UpdateEvent::Begin) => next is Loading && a is LoadState,
        (UpdatePhase::Loading, UpdateEvent::StateLoaded { state }) => {
            &&& next == (UpdatePhase::Fetching { state })
            &&& a matches UpdateAction::FetchRelease(q) && query_fits(pinned, repo, q)
        },
        (UpdatePhase::Fetching { state }, UpdateEvent::ReleaseFetched { release, now }) => {
            if state@.current_version == Some(release.tag_name@) {
                &&& next is Done
                &&& saves(a, StateView { last_update_check: Some(now), ..state@ })
            } else if exists|i: int|
                0 <= i < release.assets@.len() && asset_fits(release.assets@[i].name@, os, arch) {
                &&& next matches UpdatePhase::DownloadingAsset { state: s2, release: r2, asset }
                    && s2 == state && r2 == release && first_fitting(release, os, arch, asset)
                    && downloads_asset(a, release.tag_name@, asset)
            } else {
                &&& next is Done
                &&& fails_with(a, DownloadErrorView::NoAssetForPlatform { os, arch })
            }
        },
        (
            UpdatePhase::DownloadingAsset { state, release, asset },
            UpdateEvent::AssetDownloaded { data },
        ) => {
            if exists|i: int|
                0 <= i < release.assets@.len() && is_checksums_name(release.assets@[i].name@) {
                &&& next == (UpdatePhase::DownloadingChecksums { state, release, asset, data })
                &&& a matches UpdateAction::DownloadChecksums { asset: c } && first_checksums(release, c)
            } else {
                &&& next is Done
                &&& fails_with(a, DownloadErrorView::NoChecksumsFile)
            }
        },
        (
            UpdatePhase::DownloadingChecksums { state, release, asset, data },
            UpdateEvent::ChecksumsDownloaded { content },
        ) => match checksum_for(content@, asset.name@) {
            None => {
                &&& next is Done
                &&& fails_with(a, DownloadErrorView::ChecksumNotFound(asset.name@))
            },
            Some(expected) => if hex_lower(sha256_digest(data@)) == expected {
                &&& next matches UpdatePhase::Verified {
                    state: s2,
                    version,
                    asset: a2,
                    data: d2,
                    checksums,
                    sha256,
                } && s2 == state && version@ == release.tag_name@ && a2 == asset && d2 == data
                    && checksums == content && sha256@ == expected
                &&& a matches UpdateAction::LogVerified { version: v, asset: n } && v@
                    == release.tag_name@ && n@ == asset.name@
            } else {
                &&& next is Done
                &&& fails_with(
                    a,
                    DownloadErrorView::ChecksumMismatch {
                        expected,
                        actual: hex_lower(sha256_digest(data@)),
                    },
                )
            },
        },
        (
            UpdatePhase::Verified { state, version, asset, data, sha256, .. },
            UpdateEvent::VerifiedLogged,
        ) => match archive_extraction(asset.name@, data@) {
            Err(err) => next is Done && fails_with(a, err),
            Ok(fs) => if fs.len() == 0 {
                &&& next is Done
                &&& fails_with(a, DownloadErrorView::GhBinaryNotFound)
            } else {
                &&& next matches UpdatePhase::Installing { state: s2, version: v2 } && s2 == state
                    && v2@ == version@
                &&& a matches UpdateAction::Install { version: v, asset: a2, sha256: h, files }
                    && v == version && a2 == asset && h == sha256 && files_extracted(
                    files,
                    asset.name@,
                    data@,
                )
            },
        },
        (UpdatePhase::Installing { state, version }, UpdateEvent::Installed { now }) => {
            &&& next is Done
            &&& saves(
                a,
                StateView {
                    last_update_check: Some(now),
                    current_version: Some(version@),
                    last_known_latest_version: if pinned.len() > 0 {
                        state@.last_known_latest_version
                    } else {
                        Some(version@)
                    },
                },
            )
        },
        _ => {
            &&& next is Done
            &&& a matches UpdateAction::Fail(g) && g@ == out_of_order()
        },
    }
}

/// An install action comes from a verified phase: the files are those
/// extracted from the phase's bytes, whose SHA-256 digest is the checksum
/// that the phase's checksums file gives for the asset.
pub open spec fn installs_checked(p: UpdatePhase, a: UpdateAction) -> bool {
    &&& p matches UpdatePhase::Verified { asset, data, checksums, sha256, .. }
        && checksum_for(checksums@, asset.name@) == Some(sha256@) && hex_lower(sha256_digest(data@))
        == sha256@ && installs_from(a, asset, data@, sha256)
}

/// The action installs the files extracted from `data` as the asset, with
/// this checksum.
pub open spec fn installs_from(a: UpdateAction, asset: Asset, data: Seq<u8>, sha256: String) -> bool {
    a matches UpdateAction::Install { sha256: h, files, .. } && h == sha256 && files_extracted(
        files,
        asset.name@,
        data,
    )
}

fn clone_asset(a: &Asset) -> (r: Asset)
    ensures
        same_asset(r, *a),
{
    Asset { name: a.name.clone(), browser_download_url: a.browser_download_url.clone() }
}

fn download_failure(e: DownloadError) -> (a: UpdateAction)
    ensures
        fails_with(a, e@),
{
    UpdateAction::Fail(GuardError::Other(e.message()))
}

/// One step of an update: what comes after the event, for a configuration
/// and a platform (`os` and `arch` as release assets name them).
///
/// An install action is only ever given from a verified phase, with the
/// files extracted from that phase's bytes, whose SHA-256 digest is the
/// checksum that the checksums file gives for the asset.
pub fn update_step(config: &Config, os: &str, arch: &str, s: UpdateState, e: UpdateEvent) -> (r: (
    UpdateState,
    UpdateAction,
))
    ensures
        update_transition(
            config.updates.pinned_version@,
            config.real_gh.release_repo@,
            os@,
            arch@,
            s.phase(),
            e,
            r.0.phase(),
            r.1,
        ),
        r.1 is Install ==> installs_checked(s.phase(), r.1),
{
    proof {
        use_type_invariant(&s);
    }
    let query = release_query(config);
    let pinned = config.updates.pinned_version.as_str().unicode_len() > 0;
    let UpdateState { phase: p } = s;
    let (next, action) = match (p, e) {
        (UpdatePhase::Start, UpdateEvent::Begin) => (UpdatePhase::Loading, UpdateAction::LoadState),
        (UpdatePhase::Loading, UpdateEvent::StateLoaded { state }) => (
            UpdatePhase::Fetching { state },
            UpdateAction::FetchRelease(query),
        ),
        (UpdatePhase::Fetching { state }, UpdateEvent::ReleaseFetched { release, now }) => {
            if is_current_version(release.tag_name.as_str(), &state) {
                (UpdatePhase::Done, UpdateAction::SaveState(state.after_check(now)))
            } else {
                match select_asset(release.assets.as_slice(), os, arch) {
                    Ok(a) => {
                        let asset = clone_asset(a);
                        let for_action = clone_asset(a);
                        let version = release.tag_name.clone();
                        (
                            UpdatePhase::DownloadingAsset { state, release, asset },
                            UpdateAction::DownloadAsset { version, asset: for_action },
                        )
                    },
                    Err(err) => (UpdatePhase::Done, download_failure(err)),
                }
            }
        },
        (
            UpdatePhase::DownloadingAsset { state, release, asset },
            UpdateEvent::AssetDownloaded { data },
        ) => {
            match find_checksums_asset(release.assets.as_slice()) {
                Ok(c) => {
                    let checksums = clone_asset(c);
                    (
                        UpdatePhase::DownloadingChecksums { state, release, asset, data },
                        UpdateAction::DownloadChecksums { asset: checksums },
                    )
                },
                Err(err) => (UpdatePhase::Done, download_failure(err)),
            }
        },
        (
            UpdatePhase::DownloadingChecksums { state, release, asset, data },
            UpdateEvent::ChecksumsDownloaded { content },
        ) => {
            match find_checksum(content.as_str(), asset.name.as_str()) {
                Err(err) => (UpdatePhase::Done, download_failure(err)),
                Ok(expected) => match check_sha256(data.as_slice(), expected.as_str()) {
                    Err(err) => (UpdatePhase::Done, download_failure(err)),
                    Ok(()) => {
                        let version = release.tag_name.clone();
                        let logged_version = release.tag_name.clone();
                        let logged_asset = asset.name.clone();
                        (
                            UpdatePhase::Verified {
                                state,
                                version,
                                asset,
                                data,
                                checksums: content,
                                sha256: expected,
                            },
                            UpdateAction::LogVerified { version: logged_version, asset: logged_asset },
                        )
                    },
                },
            }
        },
        (
            UpdatePhase::Verified { state, version, asset, data, sha256, .. },
            UpdateEvent::VerifiedLogged,
        ) => {
            match extract_archive(asset.name.as_str(), data.as_slice()) {
                Err(err) => (UpdatePhase::Done, download_failure(err)),
                Ok(files) => {
                    if files.len() == 0 {
                        (UpdatePhase::Done, download_failure(DownloadError::GhBinaryNotFound))
                    } else {
                        let installed = version.clone();
                        (
                            UpdatePhase::Installing { state, version: installed },
                            UpdateAction::Install { version, asset, sha256, files },
                        )
                    }
                },
            }
        },
        (UpdatePhase::Installing { state, version }, UpdateEvent::Installed { now }) => (
            UpdatePhase::Done,
            UpdateAction::SaveState(state.after_install(version.as_str(), now, pinned)),
        ),
        _ => (
            UpdatePhase::Done,
            UpdateAction::Fail(
                GuardError::Other(String::from_str("real gh management received an unexpected event")),
            ),
        ),
    };
    proof {
        reveal_strlit("real gh management received an unexpected event");
    }
    (UpdateState { phase: next }, action)
}

} // verus!
