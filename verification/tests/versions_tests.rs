use encodeck::config::{Config, Installed};
use encodeck::versions::{
    archive_entry, archive_progress, catalog, catalog_source, check_archive_checksum,
    check_archive_request, check_binaries_request, check_binaries_source, check_file_checksum,
    checksum_entry, checksum_listing_url, file_progress, inside_root, install_route, join_checksums,
    listed_checksum, portable_catalog, select_binaries_release, stated_checksum, valid_tag, version,
    archive_step, binaries_step, ArchiveEvent, ArchiveStage, BinariesEvent, BinariesStage,
    Arch, CatalogError, Download, GithubAsset, GithubRelease, InstallError, InstallRoute, Os,
    Release, Target, VersionError,
};

fn asset(name: &str, url: &str, size: u64, digest: Option<&str>) -> GithubAsset {
    GithubAsset {
        name: Some(name.into()),
        browser_download_url: Some(url.into()),
        size: Some(size),
        digest: digest.map(|d| d.to_string()),
    }
}

fn release(tag: &str, pre: Option<bool>, draft: Option<bool>, assets: Vec<GithubAsset>) -> GithubRelease {
    GithubRelease { prerelease: pre, draft, tag_name: Some(tag.into()), assets: Some(assets) }
}

fn windows() -> Target {
    Target { os: Os::Windows, arch: Arch::X86_64 }
}

#[test]
fn gyan_catalog_keeps_published_essentials_builds() {
    let data = vec![
        release(
            "7.1",
            Some(false),
            Some(false),
            vec![
                asset("ffmpeg-7.1-full_build.zip", "u-full", 10, None),
                asset("ffmpeg-7.1-essentials_build.zip", "u-ess", 20, Some("sha256:ab")),
            ],
        ),
        release("7.2-rc", Some(true), Some(false), vec![asset("x-essentials_build.zip", "u", 1, None)]),
        release("7.0", None, Some(false), vec![asset("x-essentials_build.zip", "u", 1, None)]),
        release("6.1", Some(false), Some(false), vec![asset("ffmpeg-6.1-essentials_build.zip", "u6", 5, None)]),
    ];
    let list = catalog(&windows(), &data).ok().unwrap();
    assert_eq!(list.len(), 2);
    assert_eq!(list[0].tag, "7.1");
    assert_eq!(list[0].name, "ffmpeg-7.1-essentials_build.zip");
    assert_eq!(list[0].url, "u-ess");
    assert_eq!(list[0].size, 20);
    assert_eq!(list[0].digest, "sha256:ab");
    assert_eq!(list[0].probe_url, "");
    assert_eq!(list[1].tag, "6.1");
    assert_eq!(list[1].digest, "");
}

#[test]
fn gyan_catalog_skips_a_release_whose_first_essentials_asset_lacks_a_size() {
    let mut a = asset("a-essentials_build.zip", "u", 1, None);
    a.size = None;
    let data = vec![release(
        "7.1",
        Some(false),
        Some(false),
        vec![a, asset("b-essentials_build.zip", "u2", 2, None)],
    )];
    assert_eq!(catalog(&windows(), &data).ok().unwrap().len(), 0);
}

#[test]
fn portable_catalog_pairs_ffmpeg_and_ffprobe() {
    let target = Target { os: Os::Linux, arch: Arch::X86_64 };
    let data = vec![
        release(
            "b6.1.1",
            None,
            Some(false),
            vec![
                asset("ffmpeg-linux-x64", "https://x/ffmpeg", 70, Some("sha256:11")),
                asset("ffprobe-linux-x64", "https://x/ffprobe", 30, None),
                asset("ffmpeg-darwin-x64", "https://x/mac", 1, None),
            ],
        ),
        release("b6.0", None, Some(false), vec![asset("ffmpeg-linux-x64", "u", 1, None)]),
        release("draft", None, Some(true), vec![]),
    ];
    let list = portable_catalog(&target, &data).ok().unwrap();
    assert_eq!(list.len(), 1);
    let r = &list[0];
    assert_eq!(r.tag, "b6.1.1");
    assert_eq!(r.name, "Descript · linux x64");
    assert_eq!(r.url, "https://x/ffmpeg");
    assert_eq!(r.size, 100);
    assert_eq!(r.digest, "sha256:11");
    assert_eq!(r.probe_url, "https://x/ffprobe");
    assert_eq!(r.probe_digest, "");
    let mac = Target { os: Os::MacOs, arch: Arch::Aarch64 };
    assert_eq!(catalog(&mac, &data).ok().unwrap().len(), 0);
}

#[test]
fn catalog_refuses_unsupported_platforms() {
    let other = Target { os: Os::Other, arch: Arch::X86_64 };
    let e = portable_catalog(&other, &[]).unwrap_err();
    assert!(matches!(e, CatalogError::UnsupportedPlatform));
    assert_eq!(e.message(), "Plateforme non prise en charge");
    let odd = Target { os: Os::Linux, arch: Arch::Other };
    let e = catalog(&odd, &[]).unwrap_err();
    assert_eq!(e.message(), "Architecture non prise en charge");
    assert!(catalog_source(&odd).is_err());
    assert_eq!(
        catalog_source(&windows()).ok().unwrap(),
        "https://api.github.com/repos/GyanD/codexffmpeg/releases?per_page=20"
    );
    assert_eq!(
        catalog_source(&Target { os: Os::MacOs, arch: Arch::Aarch64 }).ok().unwrap(),
        "https://api.github.com/repos/descriptinc/ffmpeg-ffprobe-static/releases?per_page=20"
    );
}

#[test]
fn version_reads_the_first_line() {
    let out = b"ffmpeg version 7.1-essentials_build-www.gyan.dev Copyright (c) 2000-2024\r\nbuilt with gcc\n";
    assert_eq!(version(true, out).ok().unwrap(), "7.1-essentials_build-www.gyan.dev");
    assert_eq!(version(true, b"ffmpeg version  6.0\n").ok().unwrap(), "6.0");
    assert_eq!(version(true, b"ffmpeg version \n").ok().unwrap(), "inconnue");
    let e = version(true, b"ffprobe version 6.0\n").unwrap_err();
    assert!(matches!(e, VersionError::NotFfmpeg));
    assert_eq!(e.message(), "Ce fichier n’est pas FFmpeg");
    let e = version(true, b"").unwrap_err();
    assert!(matches!(e, VersionError::NotFfmpeg));
    let e = version(false, out).unwrap_err();
    assert_eq!(e.message(), "Le binaire FFmpeg ne démarre pas");
    assert_eq!(version(true, b"ffmpeg version 6.\xff1 x\n").ok().unwrap(), "6.\u{FFFD}1");
}

#[test]
fn tags_are_restricted() {
    assert!(valid_tag("2024-10-07-git-496b8d7a13"));
    assert!(valid_tag("b6.1.1"));
    assert!(!valid_tag("../etc"));
    assert!(!valid_tag("7.1 beta"));
    assert!(valid_tag(""));
}

fn rel(tag: &str, url: &str) -> Release {
    Release {
        tag: tag.into(),
        name: "n".into(),
        url: url.into(),
        size: 1,
        digest: String::new(),
        probe_url: String::new(),
        probe_digest: String::new(),
    }
}

fn installed(id: &str) -> Config {
    Config {
        active: id.into(),
        versions: vec![Installed {
            id: id.into(),
            name: id.into(),
            path: "/p".into(),
            managed: true,
            checksum: String::new(),
        }],
        presets: vec![],
    }
}

#[test]
fn archive_requests_are_checked_in_order() {
    let ok = "https://github.com/GyanD/codexffmpeg/releases/download/7.1/x.zip";
    let list = vec![rel("7.1", ok), rel("evil/..", ok), rel("7.0", "https://elsewhere/x.zip")];
    let none = installed("6.0");
    assert_eq!(check_archive_request(&list, "7.1", &none).ok(), Some(0));
    assert!(matches!(check_archive_request(&list, "9.9", &none), Err(InstallError::NotInCatalog)));
    assert!(matches!(check_archive_request(&list, "evil/..", &none), Err(InstallError::InvalidTag)));
    assert!(matches!(
        check_archive_request(&list, "7.1", &installed("7.1")),
        Err(InstallError::AlreadyInstalled)
    ));
    let e = check_archive_request(&list, "7.0", &none).unwrap_err();
    assert_eq!(e.message(), "Source de téléchargement invalide");
}

#[test]
fn binaries_requests_are_checked() {
    assert!(check_binaries_request("b6.1", &installed("x")).is_ok());
    assert_eq!(check_binaries_request("b 6", &installed("x")).unwrap_err().message(), "Version invalide");
    assert_eq!(
        check_binaries_request("b6.1", &installed("b6.1")).unwrap_err().message(),
        "Cette version est déjà installée"
    );
    let list = vec![rel("a", "u"), rel("b", "v")];
    assert_eq!(select_binaries_release(&list, "b").ok(), Some(1));
    assert_eq!(select_binaries_release(&list, "c").unwrap_err().message(), "Version inconnue");
    assert!(check_binaries_source(
        "https://github.com/descriptinc/ffmpeg-ffprobe-static/releases/download/b6.1/ffmpeg-linux-x64"
    )
    .is_ok());
    assert_eq!(check_binaries_source("http://evil").unwrap_err().message(), "Source invalide");
}

#[test]
fn install_routes() {
    assert!(matches!(install_route(&windows()), Ok(InstallRoute::Archive)));
    assert!(matches!(
        install_route(&Target { os: Os::Linux, arch: Arch::Aarch64 }),
        Ok(InstallRoute::Binaries)
    ));
    let e = install_route(&Target { os: Os::Windows, arch: Arch::Aarch64 }).unwrap_err();
    assert_eq!(e.message(), "Importez une version locale de FFmpeg sur Windows ARM.");
}

#[test]
fn download_counts_and_hashes() {
    let mut d = Download::new();
    assert!(d.accept(b"a"));
    assert!(d.accept(b"bc"));
    assert_eq!(d.received(), 3);
    assert_eq!(
        d.checksum(),
        "ba7816bf8f01cfea414140de5dae2223b00361a396177a9cb410ff61f20015ad"
    );
    let empty = Download::new();
    assert_eq!(
        empty.checksum(),
        "e3b0c44298fc1c149afbf4c8996fb92427ae41e4649b934ca495991b7852b855"
    );
}

#[test]
fn download_refuses_past_the_limit() {
    let mut d = Download::new();
    assert!(d.accept(b"abc"));
    let too_much = vec![0u8; 600_000_000 - 2];
    assert!(!d.accept(&too_much));
    assert_eq!(d.received(), 3);
    assert!(d.accept(b""));
    assert_eq!(
        d.checksum(),
        "ba7816bf8f01cfea414140de5dae2223b00361a396177a9cb410ff61f20015ad"
    );
}

#[test]
fn progress_messages() {
    assert_eq!(archive_progress(12_345_678, 98_000_000), "Téléchargement · 12 / 98 Mo");
    assert_eq!(archive_progress(0, 999_999), "Téléchargement · 0 / 0 Mo");
    assert_eq!(file_progress("ffprobe", 1_000_000_000), "ffprobe · 1000 Mo");
}

#[test]
fn checksums() {
    assert_eq!(stated_checksum("sha256:abc"), Some("abc".to_string()));
    assert_eq!(stated_checksum("md5:abc"), None);
    assert_eq!(
        checksum_listing_url("ffmpeg-7.1-essentials_build.zip"),
        "https://www.gyan.dev/ffmpeg/builds/packages/ffmpeg-7.1-essentials_build.zip.sha256"
    );
    assert_eq!(listed_checksum("  ABCDEF01  ffmpeg.zip\n"), "abcdef01");
    assert_eq!(listed_checksum(" \n"), "");
    assert!(check_archive_checksum("ab", "ab").is_ok());
    assert_eq!(
        check_archive_checksum("ab", "cd").unwrap_err().message(),
        "La vérification SHA-256 a échoué. Installation abandonnée."
    );
    assert!(check_file_checksum("", "ab").is_ok());
    assert!(check_file_checksum("sha256:ab", "ab").is_ok());
    assert_eq!(check_file_checksum("sha256:ab", "cd").unwrap_err().message(), "SHA-256 incorrect");
    assert_eq!(checksum_entry("ffmpeg", "ab"), "ffmpeg:ab");
    assert_eq!(
        join_checksums(&["ffmpeg:ab".to_string(), "ffprobe:cd".to_string()]),
        "ffmpeg:ab;ffprobe:cd"
    );
    assert_eq!(join_checksums(&[]), "");
}

#[test]
fn archive_entries() {
    assert_eq!(archive_entry(false, false, 1).unwrap_err().message(), "Chemin d’archive dangereux");
    assert_eq!(archive_entry(true, true, u64::MAX).ok(), Some(false));
    assert_eq!(archive_entry(true, false, 600_000_001).unwrap_err().message(), "Fichier trop volumineux");
    assert_eq!(archive_entry(true, false, 600_000_000).ok(), Some(true));
}

#[test]
fn removal_stays_inside_the_versions_directory() {
    let root: Vec<String> = vec!["/".into(), "data".into(), "versions".into()];
    let mut inside = root.clone();
    inside.push("7.1".into());
    assert!(inside_root(&root, &inside));
    assert!(!inside_root(&root, &root));
    let outside: Vec<String> = vec!["/".into(), "data".into(), "other".into(), "7.1".into()];
    assert!(!inside_root(&root, &outside));
}

fn archive_advance(stage: ArchiveStage, event: ArchiveEvent) -> ArchiveStage {
    archive_step(stage, event)
}

fn failed_message_archive(stage: ArchiveStage) -> String {
    match stage {
        ArchiveStage::Failed(e) => e.message(),
        other => panic!("not failed: {other:?}"),
    }
}

#[test]
fn archive_is_registered_only_after_every_check() {
    let out = b"ffmpeg version 7.1-essentials_build Copyright\n".to_vec();
    let s = archive_advance(
        ArchiveStage::Downloading,
        ArchiveEvent::Downloaded { computed: "ab12".into(), expected: "ab12".into() },
    );
    let s = archive_advance(s, ArchiveEvent::Unpacked { binary_found: true });
    let s = archive_advance(s, ArchiveEvent::Identified { success: true, stdout: out.clone(), probe_beside: true });
    let s = archive_advance(s, ArchiveEvent::Placed { destination_exists: false });
    match s {
        ArchiveStage::Register { checksum, name } => {
            assert_eq!(checksum, "ab12");
            assert_eq!(name, "7.1-essentials_build");
        }
        other => panic!("not registered: {other:?}"),
    }
}

#[test]
fn archive_installation_stops_at_the_first_failed_check() {
    let out = b"ffmpeg version 7.1 x\n".to_vec();
    assert_eq!(
        failed_message_archive(archive_advance(ArchiveStage::Downloading, ArchiveEvent::TooLarge)),
        "Archive trop volumineuse"
    );
    assert_eq!(
        failed_message_archive(archive_advance(
            ArchiveStage::Downloading,
            ArchiveEvent::Downloaded { computed: "ab12".into(), expected: "AB12".into() }
        )),
        "La vérification SHA-256 a échoué. Installation abandonnée."
    );
    let unpacking = || ArchiveStage::Unpacking { checksum: "ab".into() };
    assert_eq!(
        failed_message_archive(archive_advance(unpacking(), ArchiveEvent::Unpacked { binary_found: false })),
        "ffmpeg.exe introuvable dans l’archive"
    );
    let identifying = || ArchiveStage::Identifying { checksum: "ab".into() };
    assert_eq!(
        failed_message_archive(archive_advance(
            identifying(),
            ArchiveEvent::Identified { success: false, stdout: out.clone(), probe_beside: true }
        )),
        "Le binaire FFmpeg ne démarre pas"
    );
    assert_eq!(
        failed_message_archive(archive_advance(
            identifying(),
            ArchiveEvent::Identified { success: true, stdout: out, probe_beside: false }
        )),
        "ffprobe absent"
    );
    assert_eq!(
        failed_message_archive(archive_advance(
            ArchiveStage::Placing { checksum: "ab".into(), name: "7.1".into() },
            ArchiveEvent::Placed { destination_exists: true }
        )),
        "Dossier de version déjà présent. Importez son binaire pour le récupérer."
    );
}

const DESCRIPT: &str = "https://github.com/descriptinc/ffmpeg-ffprobe-static/releases/download/b6.0/";

fn failed_message_binaries(stage: BinariesStage) -> String {
    match stage {
        BinariesStage::Failed(e) => e.message(),
        other => panic!("not failed: {other:?}"),
    }
}

#[test]
fn binaries_are_registered_only_after_every_check() {
    let s = BinariesStage::Fetching { file: 0, sums: vec![] };
    let s = binaries_step(s, BinariesEvent::Source { url: format!("{DESCRIPT}ffmpeg-linux-x64") });
    let s = binaries_step(s, BinariesEvent::Downloaded { digest: "sha256:aa".into(), computed: "aa".into() });
    let s = binaries_step(s, BinariesEvent::Source { url: format!("{DESCRIPT}ffprobe-linux-x64") });
    let s = binaries_step(s, BinariesEvent::Downloaded { digest: String::new(), computed: "bb".into() });
    let s = binaries_step(
        s,
        BinariesEvent::Identified { success: true, stdout: b"ffmpeg version 6.0-static x\n".to_vec() },
    );
    let s = binaries_step(s, BinariesEvent::Placed { destination_exists: false });
    match s {
        BinariesStage::Register { checksum, name } => {
            assert_eq!(checksum, "ffmpeg:aa;ffprobe:bb");
            assert_eq!(name, "6.0-static");
        }
        other => panic!("not registered: {other:?}"),
    }
}

#[test]
fn binaries_installation_stops_at_the_first_failed_check() {
    let start = || BinariesStage::Fetching { file: 0, sums: vec![] };
    assert_eq!(
        failed_message_binaries(binaries_step(start(), BinariesEvent::Source { url: "https://example.com/ffmpeg".into() })),
        "Source invalide"
    );
    let downloading = || BinariesStage::Downloading { file: 0, sums: vec![] };
    assert_eq!(
        failed_message_binaries(binaries_step(downloading(), BinariesEvent::TooLarge)),
        "Téléchargement trop volumineux"
    );
    assert_eq!(
        failed_message_binaries(binaries_step(
            downloading(),
            BinariesEvent::Downloaded { digest: "sha256:aa".into(), computed: "ab".into() }
        )),
        "SHA-256 incorrect"
    );
    assert_eq!(
        failed_message_binaries(binaries_step(
            BinariesStage::Identifying { sums: vec![] },
            BinariesEvent::Identified { success: true, stdout: b"ffprobe version 6\n".to_vec() }
        )),
        "Ce fichier n’est pas FFmpeg"
    );
    assert_eq!(
        failed_message_binaries(binaries_step(
            BinariesStage::Placing { sums: vec![], name: "6".into() },
            BinariesEvent::Placed { destination_exists: true }
        )),
        "Dossier de version déjà présent"
    );
}
