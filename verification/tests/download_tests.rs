use gh_guard::download::{
    archive_format, check_sha256, find_checksum, find_checksums_asset, is_gh_binary_entry,
    extract_archive, extract_tar_gz, extract_zip, plan_entry, platform_id, sanitize_archive_path,
    select_asset, sha256_hex, ArchiveFormat, Asset, DownloadError,
};
use std::io::Write;

fn asset(name: &str) -> Asset {
    Asset {
        name: name.to_string(),
        browser_download_url: format!("https://example.com/{name}"),
    }
}

fn release_assets() -> Vec<Asset> {
    vec![
        asset("gh_2.93.0_checksums.txt"),
        asset("gh_2.93.0_linux_amd64.deb"),
        asset("gh_2.93.0_linux_amd64.tar.gz"),
        asset("gh_2.93.0_linux_arm64.tar.gz"),
        asset("gh_2.93.0_macOS_arm64.zip"),
    ]
}

#[test]
fn platform_names() {
    assert_eq!(platform_id(true, true), ("macOS", "arm64"));
    assert_eq!(platform_id(false, false), ("linux", "amd64"));
    assert_eq!(platform_id(false, true), ("linux", "arm64"));
}

#[test]
fn selects_the_archive_for_the_platform() {
    let assets = release_assets();
    let a = select_asset(&assets, "linux", "amd64").unwrap();
    assert_eq!(a.name, "gh_2.93.0_linux_amd64.tar.gz");
    let a = select_asset(&assets, "macOS", "arm64").unwrap();
    assert_eq!(a.name, "gh_2.93.0_macOS_arm64.zip");
}

#[test]
fn missing_platform_is_an_error() {
    let assets = release_assets();
    match select_asset(&assets, "macOS", "amd64") {
        Err(DownloadError::NoAssetForPlatform { os, arch }) => {
            assert_eq!(os, "macOS");
            assert_eq!(arch, "amd64");
        }
        other => panic!("unexpected {:?}", other),
    }
}

#[test]
fn finds_the_checksums_file() {
    let assets = release_assets();
    assert_eq!(find_checksums_asset(&assets).unwrap().name, "gh_2.93.0_checksums.txt");
    assert!(matches!(
        find_checksums_asset(&assets[1..]),
        Err(DownloadError::NoChecksumsFile)
    ));
}

#[test]
fn finds_the_checksum_line() {
    let content = "aaa  gh_2.93.0_linux_arm64.tar.gz\r\nbbb\tgh_2.93.0_linux_amd64.tar.gz\nccc gh_2.93.0_linux_amd64.tar.gz\n";
    assert_eq!(
        find_checksum(content, "gh_2.93.0_linux_amd64.tar.gz").unwrap(),
        "bbb"
    );
    assert_eq!(
        find_checksum(content, "gh_2.93.0_linux_arm64.tar.gz").unwrap(),
        "aaa"
    );
    match find_checksum(content, "gh_2.93.0_macOS_arm64.zip") {
        Err(DownloadError::ChecksumNotFound(n)) => assert_eq!(n, "gh_2.93.0_macOS_arm64.zip"),
        other => panic!("unexpected {:?}", other),
    }
}

#[test]
fn checksum_line_needs_two_words() {
    assert!(find_checksum("gh.zip\n  \n", "gh.zip").is_err());
    assert_eq!(find_checksum("  x   gh.zip   extra", "gh.zip").unwrap(), "x");
}

#[test]
fn sha256_hex_of_known_inputs() {
    assert_eq!(
        sha256_hex(b"abc"),
        "ba7816bf8f01cfea414140de5dae2223b00361a396177a9cb410ff61f20015ad"
    );
    assert_eq!(
        sha256_hex(b""),
        "e3b0c44298fc1c149afbf4c8996fb92427ae41e4649b934ca495991b7852b855"
    );
}

#[test]
fn checksum_match_and_mismatch() {
    assert!(check_sha256(
        b"abc",
        "ba7816bf8f01cfea414140de5dae2223b00361a396177a9cb410ff61f20015ad"
    )
    .is_ok());
    match check_sha256(b"abc", "0000") {
        Err(DownloadError::ChecksumMismatch { expected, actual }) => {
            assert_eq!(expected, "0000");
            assert_eq!(
                actual,
                "ba7816bf8f01cfea414140de5dae2223b00361a396177a9cb410ff61f20015ad"
            );
        }
        other => panic!("unexpected {:?}", other),
    }
    assert!(check_sha256(
        b"abc",
        "BA7816BF8F01CFEA414140DE5DAE2223B00361A396177A9CB410FF61F20015AD"
    )
    .is_err());
}

#[test]
fn archive_formats() {
    assert_eq!(archive_format("/c/gh_1_macOS_arm64.zip").unwrap(), ArchiveFormat::Zip);
    assert_eq!(archive_format("a.tar.gz").unwrap(), ArchiveFormat::TarGz);
    assert_eq!(archive_format("a.tgz").unwrap(), ArchiveFormat::TarGz);
    assert!(matches!(
        archive_format("a.deb"),
        Err(DownloadError::UnsupportedArchive(n)) if n == "a.deb"
    ));
}

#[test]
fn gh_binary_entries() {
    assert!(is_gh_binary_entry("gh_2.93.0_linux_amd64/bin/gh"));
    assert!(is_gh_binary_entry("gh"));
    assert!(!is_gh_binary_entry("gh_2.93.0_linux_amd64/bin/gh-helper"));
    assert!(!is_gh_binary_entry("bin/ghx"));
    assert!(!is_gh_binary_entry("share/man/gh.1"));
}

#[test]
fn sanitizes_archive_paths() {
    assert_eq!(sanitize_archive_path("a/./b//bin/gh"), "a/b/bin/gh");
    assert_eq!(sanitize_archive_path("./gh"), "gh");
    assert_eq!(sanitize_archive_path("a/bin/gh/"), "a/bin/gh");
    assert_eq!(sanitize_archive_path("a/...b/gh"), "a/...b/gh");
}

#[test]
fn sanitizing_strips_parent_and_root_components() {
    assert_eq!(sanitize_archive_path("../x/bin/gh"), "x/bin/gh");
    assert_eq!(sanitize_archive_path("/usr/bin/gh"), "usr/bin/gh");
    assert_eq!(sanitize_archive_path("./a/bin/gh"), "a/bin/gh");
    assert_eq!(sanitize_archive_path("a/../../bin/gh"), "a/bin/gh");
    assert_eq!(sanitize_archive_path("/../"), "");
}

#[test]
fn plans_archive_entries() {
    assert_eq!(plan_entry("gh_1/bin/gh", false), Some("gh_1/bin/gh".to_string()));
    assert_eq!(plan_entry("gh_1/bin/gh", true), None);
    assert_eq!(plan_entry("gh_1/LICENSE", false), None);
    assert_eq!(plan_entry("../evil/bin/gh", false), Some("evil/bin/gh".to_string()));
}

fn tar_gz(entries: &[(&str, &[u8])], dirs: &[&str]) -> Vec<u8> {
    let mut builder = tar::Builder::new(Vec::new());
    for d in dirs {
        let mut header = tar::Header::new_gnu();
        header.set_entry_type(tar::EntryType::Directory);
        header.set_size(0);
        header.set_mode(0o755);
        builder.append_data(&mut header, d, std::io::empty()).unwrap();
    }
    for (name, data) in entries {
        let mut header = tar::Header::new_gnu();
        header.set_size(data.len() as u64);
        header.set_mode(0o755);
        builder.append_data(&mut header, name, *data).unwrap();
    }
    let raw = builder.into_inner().unwrap();
    let mut gz = flate2::write::GzEncoder::new(Vec::new(), flate2::Compression::default());
    gz.write_all(&raw).unwrap();
    gz.finish().unwrap()
}

fn zip_bytes(entries: &[(&str, &[u8])]) -> Vec<u8> {
    let mut writer = zip::ZipWriter::new(std::io::Cursor::new(Vec::new()));
    for (name, data) in entries {
        if name.ends_with('/') {
            writer.add_directory(*name, zip::write::SimpleFileOptions::default()).unwrap();
        } else {
            writer.start_file(*name, zip::write::SimpleFileOptions::default()).unwrap();
            writer.write_all(data).unwrap();
        }
    }
    writer.finish().unwrap().into_inner()
}

#[test]
fn extracts_only_the_gh_binary_from_tar_gz() {
    let data = tar_gz(
        &[("gh_2.93.0_linux_amd64/LICENSE", b"license"), ("gh_2.93.0_linux_amd64/bin/gh", b"binary")],
        &["gh_2.93.0_linux_amd64/bin"],
    );
    let files = extract_tar_gz(&data).unwrap();
    assert_eq!(files.len(), 1);
    assert_eq!(files[0].path, "gh_2.93.0_linux_amd64/bin/gh");
    assert_eq!(files[0].data, b"binary".to_vec());
}

#[test]
fn extracts_only_the_gh_binary_from_zip() {
    let data = zip_bytes(&[
        ("gh_2.93.0_macOS_arm64/", b""),
        ("gh_2.93.0_macOS_arm64/LICENSE", b"license"),
        ("gh_2.93.0_macOS_arm64/bin/gh", b"mac binary"),
    ]);
    let files = extract_zip(&data).unwrap();
    assert_eq!(files.len(), 1);
    assert_eq!(files[0].path, "gh_2.93.0_macOS_arm64/bin/gh");
    assert_eq!(files[0].data, b"mac binary".to_vec());
}

#[test]
fn extraction_cleans_traversing_paths() {
    let data = zip_bytes(&[("../../outside/bin/gh", b"x")]);
    let files = extract_zip(&data).unwrap();
    assert_eq!(files.len(), 1);
    assert_eq!(files[0].path, "outside/bin/gh");
}

#[test]
fn extraction_dispatches_on_the_archive_name() {
    let tgz = tar_gz(&[("a/bin/gh", b"t")], &[]);
    assert_eq!(extract_archive("/cache/gh_1_linux_amd64.tar.gz", &tgz).unwrap()[0].data, b"t".to_vec());
    assert_eq!(extract_archive("/cache/gh_1_linux_amd64.tgz", &tgz).unwrap()[0].path, "a/bin/gh");
    let z = zip_bytes(&[("a/bin/gh", b"z")]);
    assert_eq!(extract_archive("gh_1_macOS_amd64.zip", &z).unwrap()[0].data, b"z".to_vec());
    let err = extract_archive("gh_1_linux_amd64.deb", &z).unwrap_err();
    assert_eq!(err.message(), "unsupported archive format: gh_1_linux_amd64.deb");
}

#[test]
fn unreadable_archives_are_errors() {
    assert!(matches!(extract_zip(b"not a zip"), Err(DownloadError::ArchiveRead(_))));
    assert!(matches!(extract_tar_gz(b"not gzip"), Err(DownloadError::ArchiveRead(_))));
}

#[test]
fn download_error_messages() {
    let assets = vec![asset("gh_2.93.0_checksums.txt")];
    assert_eq!(
        select_asset(&assets, "linux", "amd64").unwrap_err().message(),
        "no asset found for platform linux amd64"
    );
    assert_eq!(
        find_checksums_asset(&[]).unwrap_err().message(),
        "no checksums file found in release"
    );
    assert_eq!(
        find_checksum("abc other\n", "gh.tar.gz").unwrap_err().message(),
        "checksum for gh.tar.gz not found in checksums file"
    );
    assert_eq!(
        check_sha256(b"", "00").unwrap_err().message(),
        "checksum mismatch: expected 00, got e3b0c44298fc1c149afbf4c8996fb92427ae41e4649b934ca495991b7852b855"
    );
    assert_eq!(DownloadError::GhBinaryNotFound.message(), "gh binary not found in extracted archive");
    assert_eq!(DownloadError::ArchiveRead("boom".to_string()).message(), "boom");
}

#[test]
fn links_named_gh_are_not_extracted_from_tar_gz() {
    let mut builder = tar::Builder::new(Vec::new());
    let mut header = tar::Header::new_gnu();
    header.set_entry_type(tar::EntryType::Symlink);
    header.set_size(0);
    header.set_mode(0o777);
    builder.append_link(&mut header, "gh_1_linux_amd64/bin/gh", "/usr/bin/evil").unwrap();
    let data: &[u8] = b"real";
    let mut header = tar::Header::new_gnu();
    header.set_size(data.len() as u64);
    header.set_mode(0o755);
    builder.append_data(&mut header, "gh_1_linux_amd64/share/bin/gh", data).unwrap();
    let raw = builder.into_inner().unwrap();
    let mut gz = flate2::write::GzEncoder::new(Vec::new(), flate2::Compression::default());
    gz.write_all(&raw).unwrap();
    let files = extract_tar_gz(&gz.finish().unwrap()).unwrap();
    assert_eq!(files.len(), 1);
    assert_eq!(files[0].path, "gh_1_linux_amd64/share/bin/gh");
    assert_eq!(files[0].data, b"real".to_vec());
}

#[test]
fn tar_gz_is_read_as_a_stream_up_to_the_end_marker() {
    let mut data = tar_gz(&[("a/bin/gh", b"bin")], &[]);
    let n = data.len();
    for b in &mut data[n - 8..] {
        *b ^= 0xff;
    }
    let files = extract_tar_gz(&data).unwrap();
    assert_eq!(files.len(), 1);
    assert_eq!(files[0].data, b"bin".to_vec());
}
