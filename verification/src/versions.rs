//! FFmpeg builds: the release catalogs, the checks around installing a build, and the
//! identification of an FFmpeg binary.
use vstd::prelude::*;
use crate::config::{imported, with_path, Config};
use crate::ids::uuid_v4_text;
use crate::digest::{hashed_input, sha256, Sha256Hasher};
use crate::text::{
    chars_of, ends_with, first_field, first_field_of, first_line, first_line_of, first_where,
    from_utf8_lossy, has_prefix, has_suffix, hex_lower, hex_string, lemma_first_where,
    nth_field, owned, push_decimal, decimal, starts_with, str_eq, strip_prefix, third_field_of,
    to_lowercase, unicode_lowercase, utf8_lossy,
};

verus! {

/// The largest download accepted, in bytes; also the largest file taken from an archive.
pub const DOWNLOAD_LIMIT: u64 = 600_000_000;

/// Where Windows builds (Gyan's) are listed.
pub const GYAN_RELEASES_API: &'static str = "https://api.github.com/repos/GyanD/codexffmpeg/releases?per_page=20";

/// Where the other builds (Descript's) are listed.
pub const PORTABLE_RELEASES_API: &'static str = "https://api.github.com/repos/descriptinc/ffmpeg-ffprobe-static/releases?per_page=20";

/// Every Windows build is downloaded from under this address.
pub const GYAN_DOWNLOAD_PREFIX: &'static str = "https://github.com/GyanD/codexffmpeg/releases/download/";

/// Every other build is downloaded from under this address.
pub const PORTABLE_DOWNLOAD_PREFIX: &'static str = "https://github.com/descriptinc/ffmpeg-ffprobe-static/releases/download/";

/// An FFmpeg build that can be installed.
#[derive(Debug, Clone)]
pub struct Release {
    pub tag: String,
    pub name: String,
    pub url: String,
    pub size: u64,
    pub digest: String,
    pub probe_url: String,
    pub probe_digest: String,
}

/// A release as plain values.
pub struct ReleaseView {
    pub tag: Seq<char>,
    pub name: Seq<char>,
    pub url: Seq<char>,
    pub size: u64,
    pub digest: Seq<char>,
    pub probe_url: Seq<char>,
    pub probe_digest: Seq<char>,
}

impl View for Release {
    type V = ReleaseView;

    open spec fn view(&self) -> ReleaseView {
        ReleaseView {
            tag: self.tag@,
            name: self.name@,
            url: self.url@,
            size: self.size,
            digest: self.digest@,
            probe_url: self.probe_url@,
            probe_digest: self.probe_digest@,
        }
    }
}

/// The views of a list of releases.
pub open spec fn release_views(s: Seq<Release>) -> Seq<ReleaseView> {
    s.map_values(|r: Release| r@)
}

/// A file attached to a GitHub release, as far as the catalog reads it: each field is
/// present only when the JSON holds a value of the expected kind (a string, or an
/// unsigned integer for the size).
#[derive(Debug)]
pub struct GithubAsset {
    pub name: Option<String>,
    pub browser_download_url: Option<String>,
    pub size: Option<u64>,
    pub digest: Option<String>,
}

/// A GitHub release, as far as the catalog reads it: `prerelease` and `draft` are
/// present when the JSON holds a boolean there, `assets` when it holds an array.
#[derive(Debug)]
pub struct GithubRelease {
    pub prerelease: Option<bool>,
    pub draft: Option<bool>,
    pub tag_name: Option<String>,
    pub assets: Option<Vec<GithubAsset>>,
}

/// The operating system the application runs on.
#[derive(Debug)]
pub enum Os {
    Windows,
    MacOs,
    Linux,
    Other,
}

/// The processor architecture the application runs on.
#[derive(Debug)]
pub enum Arch {
    X86_64,
    Aarch64,
    Other,
}

/// The platform the application runs on.
#[derive(Debug)]
pub struct Target {
    pub os: Os,
    pub arch: Arch,
}

/// Why the catalog cannot be had.
#[derive(Debug)]
pub enum CatalogError {
    UnsupportedPlatform,
    UnsupportedArch,
}

impl CatalogError {
    /// The message shown for this refusal.
    pub open spec fn text(self) -> Seq<char> {
        match self {
            CatalogError::UnsupportedPlatform => "Plateforme non prise en charge"@,
            CatalogError::UnsupportedArch => "Architecture non prise en charge"@,
        }
    }

    /// The message shown for this refusal.
    pub fn message(&self) -> (r: String)
        ensures
            r@ == self.text(),
    {
        match self {
            CatalogError::UnsupportedPlatform => owned("Plateforme non prise en charge"),
            CatalogError::UnsupportedArch => owned("Architecture non prise en charge"),
        }
    }
}

/// The text of an optional string, empty when absent.
pub open spec fn text_or_empty(o: Option<String>) -> Seq<char> {
    match o {
        Some(s) => s@,
        None => Seq::empty(),
    }
}

/// The test for the "essentials" zip of a Windows build, as a predicate.
pub open spec fn essentials_zip() -> spec_fn(GithubAsset) -> bool {
    |a: GithubAsset| a.name is Some && has_suffix(a.name->0@, "essentials_build.zip"@)
}

/// The test for an asset named `name`, as a predicate.
pub open spec fn asset_named(name: Seq<char>) -> spec_fn(GithubAsset) -> bool {
    |a: GithubAsset| a.name is Some && a.name->0@ == name
}

/// The Windows build that release `r` offers: a published, non-draft release, its first
/// asset whose name ends with `essentials_build.zip`, which must have a name, a URL and
/// a size; the release must have a tag.
pub open spec fn gyan_entry(r: GithubRelease) -> Option<ReleaseView> {
    if r.prerelease == Some(false) && r.draft == Some(false) && r.assets is Some {
        let assets = r.assets->0@;
        let i = first_where(assets, essentials_zip());
        if i < assets.len() {
            let a = assets[i as int];
            if r.tag_name is Some && a.name is Some && a.browser_download_url is Some
                && a.size is Some {
                Some(
                    ReleaseView {
                        tag: r.tag_name->0@,
                        name: a.name->0@,
                        url: a.browser_download_url->0@,
                        size: a.size->0,
                        digest: text_or_empty(a.digest),
                        probe_url: Seq::empty(),
                        probe_digest: Seq::empty(),
                    },
                )
            } else {
                None
            }
        } else {
            None
        }
    } else {
        None
    }
}

/// The Windows builds offered by `data`, in order.
pub open spec fn gyan_catalog(data: Seq<GithubRelease>) -> Seq<ReleaseView>
    decreases data.len(),
{
    if data.len() == 0 {
        Seq::empty()
    } else {
        let rest = gyan_catalog(data.drop_last());
        match gyan_entry(data.last()) {
            Some(x) => rest.push(x),
            None => rest,
        }
    }
}

/// The platform's name in Descript's asset names, if it has builds.
pub open spec fn platform_name(os: Os) -> Option<Seq<char>> {
    match os {
        Os::MacOs => Some("darwin"@),
        Os::Linux => Some("linux"@),
        _ => None,
    }
}

/// The architecture's name in Descript's asset names, if it has builds.
pub open spec fn arch_name(arch: Arch) -> Option<Seq<char>> {
    match arch {
        Arch::Aarch64 => Some("arm64"@),
        Arch::X86_64 => Some("x64"@),
        _ => None,
    }
}

/// The build that release `r` offers for `platform` and `arch`: a non-draft release,
/// its first assets named `ffmpeg-<platform>-<arch>` and `ffprobe-<platform>-<arch>`,
/// both with a URL and a size; the size is their sum (modulo 2^64, as a release build
/// adds), the digests those of the assets.
pub open spec fn portable_entry(r: GithubRelease, platform: Seq<char>, arch: Seq<char>) -> Option<ReleaseView> {
    if r.draft == Some(false) && r.assets is Some {
        let assets = r.assets->0@;
        let i = first_where(assets, asset_named("ffmpeg-"@ + platform + "-"@ + arch));
        let j = first_where(assets, asset_named("ffprobe-"@ + platform + "-"@ + arch));
        if i < assets.len() && j < assets.len() {
            let a = assets[i as int];
            let p = assets[j as int];
            if r.tag_name is Some && a.browser_download_url is Some && a.size is Some
                && p.size is Some && p.browser_download_url is Some {
                Some(
                    ReleaseView {
                        tag: r.tag_name->0@,
                        name: "Descript · "@ + platform + " "@ + arch,
                        url: a.browser_download_url->0@,
                        size: (a.size->0).wrapping_add(p.size->0),
                        digest: text_or_empty(a.digest),
                        probe_url: p.browser_download_url->0@,
                        probe_digest: text_or_empty(p.digest),
                    },
                )
            } else {
                None
            }
        } else {
            None
        }
    } else {
        None
    }
}

/// The builds offered by `data` for `platform` and `arch`, in order.
pub open spec fn portable_builds(data: Seq<GithubRelease>, platform: Seq<char>, arch: Seq<char>) -> Seq<ReleaseView>
    decreases data.len(),
{
    if data.len() == 0 {
        Seq::empty()
    } else {
        let rest = portable_builds(data.drop_last(), platform, arch);
        match portable_entry(data.last(), platform, arch) {
            Some(x) => rest.push(x),
            None => rest,
        }
    }
}

/// The catalog of builds for a platform other than Windows.
pub open spec fn portable_catalog_spec(target: Target, data: Seq<GithubRelease>) -> Result<Seq<ReleaseView>, CatalogError> {
    match platform_name(target.os) {
        None => Err(CatalogError::UnsupportedPlatform),
        Some(platform) => match arch_name(target.arch) {
            None => Err(CatalogError::UnsupportedArch),
            Some(arch) => Ok(portable_builds(data, platform, arch)),
        },
    }
}

/// The catalog of builds for the platform.
pub open spec fn catalog_spec(target: Target, data: Seq<GithubRelease>) -> Result<Seq<ReleaseView>, CatalogError> {
    if target.os is Windows {
        Ok(gyan_catalog(data))
    } else {
        portable_catalog_spec(target, data)
    }
}

fn copy_text(o: &Option<String>) -> (r: String)
    ensures
        r@ == text_or_empty(*o),
{
    match o {
        Some(s) => s.clone(),
        None => String::new(),
    }
}

fn first_essentials(assets: &Vec<GithubAsset>) -> (r: usize)
    ensures
        r == first_where(assets@, essentials_zip()),
{
    for k in 0..assets.len()
        invariant
            forall|m: int| 0 <= m < k ==> !essentials_zip()(#[trigger] assets@[m]),
    {
        let hit = match &assets[k].name {
            Some(n) => ends_with(n.as_str(), "essentials_build.zip"),
            None => false,
        };
        if hit {
            proof {
                lemma_first_where(assets@, essentials_zip(), k as int);
            }
            return k;
        }
    }
    proof {
        lemma_first_where(assets@, essentials_zip(), assets@.len() as int);
    }
    assets.len()
}

fn first_named(assets: &Vec<GithubAsset>, name: &str) -> (r: usize)
    ensures
        r == first_where(assets@, asset_named(name@)),
{
    for k in 0..assets.len()
        invariant
            forall|m: int| 0 <= m < k ==> !asset_named(name@)(#[trigger] assets@[m]),
    {
        let hit = match &assets[k].name {
            Some(n) => str_eq(n.as_str(), name),
            None => false,
        };
        if hit {
            proof {
                lemma_first_where(assets@, asset_named(name@), k as int);
            }
            return k;
        }
    }
    proof {
        lemma_first_where(assets@, asset_named(name@), assets@.len() as int);
    }
    assets.len()
}

fn is_false(b: Option<bool>) -> (r: bool)
    ensures
        r == (b == Some(false)),
{
    match b {
        Some(v) => !v,
        None => false,
    }
}

fn gyan_entry_of(r: &GithubRelease) -> (out: Option<Release>)
    ensures
        match gyan_entry(*r) {
            Some(v) => out matches Some(x) && x@ == v,
            None => out is None,
        },
{
    if !is_false(r.prerelease) || !is_false(r.draft) {
        return None;
    }
    let assets = match &r.assets {
        Some(a) => a,
        None => {
            return None;
        },
    };
    let i = first_essentials(assets);
    if i >= assets.len() {
        return None;
    }
    let a = &assets[i];
    match (&r.tag_name, &a.name, &a.browser_download_url, a.size) {
        (Some(tag), Some(name), Some(url), Some(size)) => Some(
            Release {
                tag: tag.clone(),
                name: name.clone(),
                url: url.clone(),
                size,
                digest: copy_text(&a.digest),
                probe_url: String::new(),
                probe_digest: String::new(),
            },
        ),
        _ => None,
    }
}

fn asset_name(prefix: &str, platform: &str, arch: &str) -> (r: String)
    ensures
        r@ == prefix@ + platform@ + "-"@ + arch@,
{
    let mut s = owned(prefix);
    s.append(platform);
    s.append("-");
    s.append(arch);
    s
}

fn portable_entry_of(r: &GithubRelease, platform: &str, arch: &str) -> (out: Option<Release>)
    ensures
        match portable_entry(*r, platform@, arch@) {
            Some(v) => out matches Some(x) && x@ == v,
            None => out is None,
        },
{
    if !is_false(r.draft) {
        return None;
    }
    let assets = match &r.assets {
        Some(a) => a,
        None => {
            return None;
        },
    };
    let binary_name = asset_name("ffmpeg-", platform, arch);
    let probe_name = asset_name("ffprobe-", platform, arch);
    let i = first_named(assets, binary_name.as_str());
    let j = first_named(assets, probe_name.as_str());
    if i >= assets.len() || j >= assets.len() {
        return None;
    }
    let a = &assets[i];
    let p = &assets[j];
    match (&r.tag_name, &a.browser_download_url, a.size, p.size, &p.browser_download_url) {
        (Some(tag), Some(url), Some(size), Some(probe_size), Some(probe_url)) => {
            let mut name = owned("Descript · ");
            name.append(platform);
            name.append(" ");
            name.append(arch);
            Some(
                Release {
                    tag: tag.clone(),
                    name,
                    url: url.clone(),
                    size: size.wrapping_add(probe_size),
                    digest: copy_text(&a.digest),
                    probe_url: probe_url.clone(),
                    probe_digest: copy_text(&p.digest),
                },
            )
        },
        _ => None,
    }
}

fn gyan_list(data: &[GithubRelease]) -> (r: Vec<Release>)
    ensures
        release_views(r@) == gyan_catalog(data@),
{
    let mut out: Vec<Release> = Vec::new();
    for k in 0..data.len()
        invariant
            release_views(out@) == gyan_catalog(data@.take(k as int)),
    {
        assert(data@.take(k + 1).drop_last() =~= data@.take(k as int));
        let ghost before = out@;
        if let Some(x) = gyan_entry_of(&data[k]) {
            out.push(x);
            assert(release_views(out@) =~= release_views(before).push(x@));
        }
    }
    assert(data@.take(data@.len() as int) =~= data@);
    out
}

fn portable_list(data: &[GithubRelease], platform: &str, arch: &str) -> (r: Vec<Release>)
    ensures
        release_views(r@) == portable_builds(data@, platform@, arch@),
{
    let mut out: Vec<Release> = Vec::new();
    for k in 0..data.len()
        invariant
            release_views(out@) == portable_builds(data@.take(k as int), platform@, arch@),
    {
        assert(data@.take(k + 1).drop_last() =~= data@.take(k as int));
        let ghost before = out@;
        if let Some(x) = portable_entry_of(&data[k], platform, arch) {
            out.push(x);
            assert(release_views(out@) =~= release_views(before).push(x@));
        }
    }
    assert(data@.take(data@.len() as int) =~= data@);
    out
}

/// The builds for a platform other than Windows that the Descript releases `data`
/// offer; refused on a platform or an architecture that has none.
pub fn portable_catalog(target: &Target, data: &[GithubRelease]) -> (r: Result<Vec<Release>, CatalogError>)
    ensures
        match portable_catalog_spec(*target, data@) {
            Ok(v) => r matches Ok(list) && release_views(list@) == v,
            Err(e) => r == Err::<Vec<Release>, CatalogError>(e),
        },
{
    let platform = match target.os {
        Os::MacOs => "darwin",
        Os::Linux => "linux",
        _ => {
            return Err(CatalogError::UnsupportedPlatform);
        },
    };
    let arch = match target.arch {
        Arch::Aarch64 => "arm64",
        Arch::X86_64 => "x64",
        _ => {
            return Err(CatalogError::UnsupportedArch);
        },
    };
    Ok(portable_list(data, platform, arch))
}

/// The builds for the platform that the releases `data` offer: on Windows, Gyan's
/// published "essentials" builds; elsewhere, Descript's builds for the platform.
pub fn catalog(target: &Target, data: &[GithubRelease]) -> (r: Result<Vec<Release>, CatalogError>)
    ensures
        match catalog_spec(*target, data@) {
            Ok(v) => r matches Ok(list) && release_views(list@) == v,
            Err(e) => r == Err::<Vec<Release>, CatalogError>(e),
        },
{
    match target.os {
        Os::Windows => Ok(gyan_list(data)),
        _ => portable_catalog(target, data),
    }
}

/// Every Windows build in the catalog comes from a published, non-draft release of
/// `data` whose first "essentials" zip it describes.
pub proof fn law_archive_catalog_only_published(data: Seq<GithubRelease>)
    ensures
        forall|k: int|
            0 <= k < gyan_catalog(data).len() ==> exists|i: int|
                0 <= i < data.len() && (#[trigger] data[i]).prerelease == Some(false)
                    && data[i].draft == Some(false) && gyan_entry(data[i]) == Some(
                    #[trigger] gyan_catalog(data)[k],
                ),
    decreases data.len(),
{
    if data.len() > 0 {
        let rest = data.drop_last();
        law_archive_catalog_only_published(rest);
        assert forall|k: int| 0 <= k < gyan_catalog(data).len() implies exists|i: int|
            0 <= i < data.len() && (#[trigger] data[i]).prerelease == Some(false)
                && data[i].draft == Some(false) && gyan_entry(data[i]) == Some(
                #[trigger] gyan_catalog(data)[k],
            ) by {
            if k < gyan_catalog(rest).len() {
                assert(gyan_catalog(data)[k] == gyan_catalog(rest)[k]);
                let i = choose|i: int|
                    0 <= i < rest.len() && (#[trigger] rest[i]).prerelease == Some(false)
                        && rest[i].draft == Some(false) && gyan_entry(rest[i]) == Some(
                        gyan_catalog(rest)[k],
                    );
                assert(data[i] == rest[i]);
            } else {
                assert(data[data.len() - 1] == data.last());
            }
        }
    }
}

/// Every build in the catalog for `platform` and `arch` comes from a non-draft release
/// of `data`, and both its files are those named after the platform and architecture.
pub proof fn law_binaries_catalog_matches_platform(data: Seq<GithubRelease>, platform: Seq<char>, arch: Seq<char>)
    ensures
        forall|k: int|
            0 <= k < portable_builds(data, platform, arch).len() ==> exists|i: int|
                0 <= i < data.len() && (#[trigger] data[i]).draft == Some(false)
                    && portable_entry(data[i], platform, arch) == Some(
                    #[trigger] portable_builds(data, platform, arch)[k],
                ),
    decreases data.len(),
{
    if data.len() > 0 {
        let rest = data.drop_last();
        law_binaries_catalog_matches_platform(rest, platform, arch);
        assert forall|k: int| 0 <= k < portable_builds(data, platform, arch).len() implies exists|i: int|
            0 <= i < data.len() && (#[trigger] data[i]).draft == Some(false) && portable_entry(
                data[i],
                platform,
                arch,
            ) == Some(#[trigger] portable_builds(data, platform, arch)[k]) by {
            if k < portable_builds(rest, platform, arch).len() {
                assert(portable_builds(data, platform, arch)[k] == portable_builds(
                    rest,
                    platform,
                    arch,
                )[k]);
                let i = choose|i: int|
                    0 <= i < rest.len() && (#[trigger] rest[i]).draft == Some(false)
                        && portable_entry(rest[i], platform, arch) == Some(
                        portable_builds(rest, platform, arch)[k],
                    );
                assert(data[i] == rest[i]);
            } else {
                assert(data[data.len() - 1] == data.last());
            }
        }
    }
}

/// On macOS and Linux, x86-64 and ARM64 (`aarch64`), the catalog looks for Descript's
/// assets named `ffmpeg-<platform>-<arch>` and `ffprobe-<platform>-<arch>`, the
/// platform being `darwin` or `linux` and the architecture `x64` or `arm64`: any
/// non-draft release with a tag whose first two assets are those two files, each with
/// an address and a size, gives one build named `Descript · <platform> <arch>`, with
/// that tag, the two addresses, the two digests and the sum of the sizes.
pub proof fn law_portable_builds_are_found(
    os: Os,
    arch: Arch,
    platform: Seq<char>,
    arch_text: Seq<char>,
    r: GithubRelease,
)
    requires
        (os is MacOs && platform == "darwin"@) || (os is Linux && platform == "linux"@),
        (arch is Aarch64 && arch_text == "arm64"@) || (arch is X86_64 && arch_text == "x64"@),
        r.draft == Some(false),
        r.tag_name is Some,
        r.assets is Some,
        r.assets->0@.len() >= 2,
        r.assets->0@[0].name is Some,
        r.assets->0@[0].name->0@ == "ffmpeg-"@ + platform + "-"@ + arch_text,
        r.assets->0@[0].browser_download_url is Some,
        r.assets->0@[0].size is Some,
        r.assets->0@[1].name is Some,
        r.assets->0@[1].name->0@ == "ffprobe-"@ + platform + "-"@ + arch_text,
        r.assets->0@[1].browser_download_url is Some,
        r.assets->0@[1].size is Some,
    ensures
        ({
            let a = r.assets->0@[0];
            let p = r.assets->0@[1];
            catalog_spec(Target { os, arch }, seq![r]) matches Ok(list) && list.len() == 1 && list[0]
                == ReleaseView {
                tag: r.tag_name->0@,
                name: "Descript · "@ + platform + " "@ + arch_text,
                url: a.browser_download_url->0@,
                size: (a.size->0).wrapping_add(p.size->0),
                digest: text_or_empty(a.digest),
                probe_url: p.browser_download_url->0@,
                probe_digest: text_or_empty(p.digest),
            }
        }),
{
    let assets = r.assets->0@;
    let bin = "ffmpeg-"@ + platform + "-"@ + arch_text;
    let probe = "ffprobe-"@ + platform + "-"@ + arch_text;
    reveal_strlit("ffmpeg-");
    reveal_strlit("ffprobe-");
    assert(platform_name(os) == Some(platform));
    assert(arch_name(arch) == Some(arch_text));
    assert(asset_named(bin)(assets[0]));
    lemma_first_where(assets, asset_named(bin), 0);
    assert(bin[2] == 'm');
    assert(probe[2] == 'p');
    assert(assets[0].name->0@ != probe);
    assert(!asset_named(probe)(assets[0]));
    assert(asset_named(probe)(assets[1]));
    lemma_first_where(assets, asset_named(probe), 1);
    let data = seq![r];
    assert(data.drop_last() =~= Seq::<GithubRelease>::empty());
    assert(data.last() == r);
    assert(portable_builds(data.drop_last(), platform, arch_text) =~= Seq::<ReleaseView>::empty());
    let e = portable_entry(r, platform, arch_text);
    assert(e is Some);
    assert(portable_builds(data, platform, arch_text) =~= seq![e->0]);
    assert(catalog_spec(Target { os, arch }, data) == Ok::<Seq<ReleaseView>, CatalogError>(
        portable_builds(data, platform, arch_text),
    ));
}

/// Where the release list for the platform is read from; refused, as the catalog is,
/// on a platform or an architecture without builds.
pub fn catalog_source(target: &Target) -> (r: Result<String, CatalogError>)
    ensures
        target.os is Windows ==> (r matches Ok(u) && u@ == GYAN_RELEASES_API@),
        !(target.os is Windows) && platform_name(target.os) is None ==> (r matches Err(
            CatalogError::UnsupportedPlatform,
        )),
        platform_name(target.os) is Some && arch_name(target.arch) is None ==> (r matches Err(
            CatalogError::UnsupportedArch,
        )),
        platform_name(target.os) is Some && arch_name(target.arch) is Some ==> (r matches Ok(u)
            && u@ == PORTABLE_RELEASES_API@),
{
    match target.os {
        Os::Windows => Ok(owned(GYAN_RELEASES_API)),
        Os::MacOs | Os::Linux => match target.arch {
            Arch::Aarch64 | Arch::X86_64 => Ok(owned(PORTABLE_RELEASES_API)),
            _ => Err(CatalogError::UnsupportedArch),
        },
        _ => Err(CatalogError::UnsupportedPlatform),
    }
}

/// Why a binary is not accepted as FFmpeg.
#[derive(Debug)]
pub enum VersionError {
    NotStarting,
    NotFfmpeg,
}

impl VersionError {
    /// The message shown for this refusal.
    pub open spec fn text(self) -> Seq<char> {
        match self {
            VersionError::NotStarting => "Le binaire FFmpeg ne démarre pas"@,
            VersionError::NotFfmpeg => "Ce fichier n’est pas FFmpeg"@,
        }
    }

    /// The message shown for this refusal.
    pub fn message(&self) -> (r: String)
        ensures
            r@ == self.text(),
    {
        match self {
            VersionError::NotStarting => owned("Le binaire FFmpeg ne démarre pas"),
            VersionError::NotFfmpeg => owned("Ce fichier n’est pas FFmpeg"),
        }
    }
}

/// The version that the output of `ffmpeg -version` names: its first line must begin
/// with `ffmpeg version `, and the version is that line's third field (`inconnue` when
/// it has none).
pub open spec fn version_of_output(text: Seq<char>) -> Result<Seq<char>, VersionError> {
    let line = first_line(text);
    if !has_prefix(line, "ffmpeg version "@) {
        Err(VersionError::NotFfmpeg)
    } else {
        match nth_field(line, 2) {
            Some(v) => Ok(v),
            None => Ok("inconnue"@),
        }
    }
}

/// What a run of `ffmpeg -version` tells of a binary: refused when it did not exit with
/// success; otherwise the version named by its standard output, decoded as UTF-8 with
/// invalid sequences replaced.
pub open spec fn version_result(success: bool, stdout: Seq<u8>) -> Result<Seq<char>, VersionError> {
    if !success {
        Err(VersionError::NotStarting)
    } else {
        version_of_output(utf8_lossy(stdout))
    }
}

/// Identifies an FFmpeg binary from a run of `ffmpeg -version`: whether it exited with
/// success, and what it wrote on its standard output.
pub fn version(success: bool, stdout: &[u8]) -> (r: Result<String, VersionError>)
    ensures
        match version_result(success, stdout@) {
            Ok(v) => r matches Ok(s) && s@ == v,
            Err(e) => r == Err::<String, VersionError>(e),
        },
{
    if !success {
        return Err(VersionError::NotStarting);
    }
    let text = from_utf8_lossy(stdout);
    let line = first_line_of(text.as_str());
    if !starts_with(line.as_str(), "ffmpeg version ") {
        return Err(VersionError::NotFfmpeg);
    }
    match third_field_of(line.as_str()) {
        Some(v) => Ok(v),
        None => Ok(owned("inconnue")),
    }
}

/// Why an engine is not imported.
#[derive(Debug)]
pub enum ImportError {
    /// The binary is not a working FFmpeg.
    Version(VersionError),
    /// No ffprobe lies beside the binary.
    ProbeNotBeside,
}

impl ImportError {
    /// The message shown for this refusal.
    pub open spec fn text(self) -> Seq<char> {
        match self {
            ImportError::Version(e) => e.text(),
            ImportError::ProbeNotBeside => "ffprobe doit être dans le même dossier que FFmpeg."@,
        }
    }

    /// The message shown for this refusal.
    pub fn message(&self) -> (r: String)
        ensures
            r@ == self.text(),
    {
        match self {
            ImportError::Version(e) => e.message(),
            ImportError::ProbeNotBeside => owned("ffprobe doit être dans le même dossier que FFmpeg."),
        }
    }
}

/// Imports the FFmpeg binary at `path` (already made canonical): its run of
/// `ffmpeg -version` (`success`, `stdout`) must identify it, then ffprobe must lie beside
/// it (`probe_beside`); then it becomes the active engine, recorded first, under a new
/// random id and the version it names, when no engine at that path is known. A refused
/// import leaves `config` as it was.
pub fn import(config: &mut Config, path: String, success: bool, stdout: &[u8], probe_beside: bool) -> (r: Result<(), ImportError>)
    ensures
        match version_result(success, stdout@) {
            Err(e) => r == Err::<(), ImportError>(ImportError::Version(e)) && *final(config)
                == *old(config),
            Ok(name) => if !probe_beside {
                r matches Err(ImportError::ProbeNotBeside) && *final(config) == *old(config)
            } else {
                &&& r is Ok
                &&& imported(*old(config), *final(config), name, path@)
                &&& first_where(old(config).versions@, with_path(path@))
                    == old(config).versions@.len() ==> uuid_v4_text(final(config).active@)
            },
        },
{
    let name = match version(success, stdout) {
        Ok(n) => n,
        Err(e) => {
            return Err(ImportError::Version(e));
        },
    };
    if !probe_beside {
        return Err(ImportError::ProbeNotBeside);
    }
    config.import_version(name, path);
    Ok(())
}

/// A release tag made only of ASCII letters, digits, dots and hyphens.
pub open spec fn tag_allowed(tag: Seq<char>) -> bool {
    forall|k: int| 0 <= k < tag.len() ==> tag_char(#[trigger] tag[k])
}

/// An ASCII letter or digit, a dot or a hyphen.
pub open spec fn tag_char(c: char) -> bool {
    let u = c as u32;
    ||| 0x30 <= u <= 0x39
    ||| 0x41 <= u <= 0x5a
    ||| 0x61 <= u <= 0x7a
    ||| c == '.'
    ||| c == '-'
}

/// Whether `tag` may name a version directory.
pub fn valid_tag(tag: &str) -> (r: bool)
    ensures
        r == tag_allowed(tag@),
{
    let v = chars_of(tag);
    for k in 0..v.len()
        invariant
            v@ == tag@,
            forall|m: int| 0 <= m < k ==> tag_char(#[trigger] v@[m]),
    {
        let c = v[k];
        let u = c as u32;
        let ok = (0x30 <= u && u <= 0x39) || (0x41 <= u && u <= 0x5a) || (0x61 <= u && u <= 0x7a)
            || c == '.' || c == '-';
        if !ok {
            return false;
        }
    }
    true
}

/// How a build is installed on the platform.
#[derive(Debug)]
pub enum InstallRoute {
    /// Gyan's zip archive (Windows on x86-64).
    Archive,
    /// Descript's two binaries (macOS and Linux).
    Binaries,
}

/// Why an installation is refused or abandoned.
#[derive(Debug)]
pub enum InstallError {
    WindowsArm,
    NotInCatalog,
    InvalidTag,
    AlreadyInstalled,
    BadSource,
    ArchiveTooLarge,
    ChecksumMismatch,
    UnsafeArchivePath,
    FileTooLarge,
    UnknownVersion,
    InvalidVersion,
    VersionInstalled,
    InvalidSource,
    DownloadTooLarge,
    DigestMismatch,
    NoArchiveBinary,
    NoArchiveProbe,
    ArchiveDestinationExists,
    /// The installed binary is not a working FFmpeg.
    NotFfmpeg(VersionError),
    BinariesDestinationExists,
    ArchiveBusy,
    BinariesBusy,
}

impl InstallError {
    /// The message shown for this refusal.
    pub open spec fn text(self) -> Seq<char> {
        match self {
            InstallError::WindowsArm => "Importez une version locale de FFmpeg sur Windows ARM."@,
            InstallError::NotInCatalog => "Version absente du catalogue"@,
            InstallError::InvalidTag => "Identifiant invalide"@,
            InstallError::AlreadyInstalled => "Cette version est déjà installée."@,
            InstallError::BadSource => "Source de téléchargement invalide"@,
            InstallError::ArchiveTooLarge => "Archive trop volumineuse"@,
            InstallError::ChecksumMismatch => "La vérification SHA-256 a échoué. Installation abandonnée."@,
            InstallError::UnsafeArchivePath => "Chemin d’archive dangereux"@,
            InstallError::FileTooLarge => "Fichier trop volumineux"@,
            InstallError::UnknownVersion => "Version inconnue"@,
            InstallError::InvalidVersion => "Version invalide"@,
            InstallError::VersionInstalled => "Cette version est déjà installée"@,
            InstallError::InvalidSource => "Source invalide"@,
            InstallError::DownloadTooLarge => "Téléchargement trop volumineux"@,
            InstallError::DigestMismatch => "SHA-256 incorrect"@,
            InstallError::NoArchiveBinary => "ffmpeg.exe introuvable dans l’archive"@,
            InstallError::NoArchiveProbe => "ffprobe absent"@,
            InstallError::ArchiveDestinationExists => "Dossier de version déjà présent. Importez son binaire pour le récupérer."@,
            InstallError::NotFfmpeg(e) => e.text(),
            InstallError::BinariesDestinationExists => "Dossier de version déjà présent"@,
            InstallError::ArchiveBusy => "Une opération de version est déjà en cours."@,
            InstallError::BinariesBusy => "Une installation est déjà en cours"@,
        }
    }

    /// The message shown for this refusal.
    pub fn message(&self) -> (r: String)
        ensures
            r@ == self.text(),
    {
        match self {
            InstallError::WindowsArm => owned("Importez une version locale de FFmpeg sur Windows ARM."),
            InstallError::NotInCatalog => owned("Version absente du catalogue"),
            InstallError::InvalidTag => owned("Identifiant invalide"),
            InstallError::AlreadyInstalled => owned("Cette version est déjà installée."),
            InstallError::BadSource => owned("Source de téléchargement invalide"),
            InstallError::ArchiveTooLarge => owned("Archive trop volumineuse"),
            InstallError::ChecksumMismatch => owned(
                "La vérification SHA-256 a échoué. Installation abandonnée.",
            ),
            InstallError::UnsafeArchivePath => owned("Chemin d’archive dangereux"),
            InstallError::FileTooLarge => owned("Fichier trop volumineux"),
            InstallError::UnknownVersion => owned("Version inconnue"),
            InstallError::InvalidVersion => owned("Version invalide"),
            InstallError::VersionInstalled => owned("Cette version est déjà installée"),
            InstallError::InvalidSource => owned("Source invalide"),
            InstallError::DownloadTooLarge => owned("Téléchargement trop volumineux"),
            InstallError::DigestMismatch => owned("SHA-256 incorrect"),
            InstallError::NoArchiveBinary => owned("ffmpeg.exe introuvable dans l’archive"),
            InstallError::NoArchiveProbe => owned("ffprobe absent"),
            InstallError::ArchiveDestinationExists => owned(
                "Dossier de version déjà présent. Importez son binaire pour le récupérer.",
            ),
            InstallError::NotFfmpeg(e) => e.message(),
            InstallError::BinariesDestinationExists => owned("Dossier de version déjà présent"),
            InstallError::ArchiveBusy => owned("Une opération de version est déjà en cours."),
            InstallError::BinariesBusy => owned("Une installation est déjà en cours"),
        }
    }
}

/// How builds are installed on `target`: Descript's binaries off Windows, Gyan's
/// archive on Windows x86-64; Windows on another architecture has no build.
pub fn install_route(target: &Target) -> (r: Result<InstallRoute, InstallError>)
    ensures
        !(target.os is Windows) ==> r matches Ok(InstallRoute::Binaries),
        target.os is Windows && target.arch is X86_64 ==> r matches Ok(InstallRoute::Archive),
        target.os is Windows && !(target.arch is X86_64) ==> r matches Err(
            InstallError::WindowsArm,
        ),
{
    match target.os {
        Os::Windows => match target.arch {
            Arch::X86_64 => Ok(InstallRoute::Archive),
            _ => Err(InstallError::WindowsArm),
        },
        _ => Ok(InstallRoute::Binaries),
    }
}

/// The test for the release tagged `tag`, as a predicate.
pub open spec fn tagged(tag: Seq<char>) -> spec_fn(Release) -> bool {
    |r: Release| r.tag@ == tag
}

/// The position of the first release tagged `tag`, if any.
pub fn find_release(releases: &[Release], tag: &str) -> (r: Option<usize>)
    ensures
        r is None <==> first_where(releases@, tagged(tag@)) == releases@.len(),
        r matches Some(i) ==> i == first_where(releases@, tagged(tag@)) && i < releases@.len(),
{
    for k in 0..releases.len()
        invariant
            forall|m: int| 0 <= m < k ==> !tagged(tag@)(#[trigger] releases@[m]),
    {
        if str_eq(releases[k].tag.as_str(), tag) {
            proof {
                lemma_first_where(releases@, tagged(tag@), k as int);
            }
            return Some(k);
        }
    }
    proof {
        lemma_first_where(releases@, tagged(tag@), releases@.len() as int);
    }
    None
}

/// Checks a request to install the Windows build `tag` against the catalog `releases`
/// and the known engines: the build must be listed, its tag allowed, not installed
/// yet, and its download address under Gyan's. Gives the build's position.
pub fn check_archive_request(releases: &[Release], tag: &str, config: &Config) -> (r: Result<usize, InstallError>)
    ensures
        ({
            let i = first_where(releases@, tagged(tag@));
            if i == releases@.len() {
                r matches Err(InstallError::NotInCatalog)
            } else if !tag_allowed(tag@) {
                r matches Err(InstallError::InvalidTag)
            } else if crate::config::has_id(config.versions@, tag@) {
                r matches Err(InstallError::AlreadyInstalled)
            } else if !has_prefix(releases@[i as int].url@, GYAN_DOWNLOAD_PREFIX@) {
                r matches Err(InstallError::BadSource)
            } else {
                r == Ok::<usize, InstallError>(i as usize)
            }
        }),
{
    let i = match find_release(releases, tag) {
        Some(i) => i,
        None => {
            return Err(InstallError::NotInCatalog);
        },
    };
    if !valid_tag(tag) {
        return Err(InstallError::InvalidTag);
    }
    if config.has_version(tag) {
        return Err(InstallError::AlreadyInstalled);
    }
    if !starts_with(releases[i].url.as_str(), GYAN_DOWNLOAD_PREFIX) {
        return Err(InstallError::BadSource);
    }
    Ok(i)
}

/// Checks a request to install the build `tag` off Windows, before the catalog is
/// read: the tag must be allowed and not installed yet.
pub fn check_binaries_request(tag: &str, config: &Config) -> (r: Result<(), InstallError>)
    ensures
        !tag_allowed(tag@) ==> r matches Err(InstallError::InvalidVersion),
        tag_allowed(tag@) && crate::config::has_id(config.versions@, tag@) ==> r matches Err(
            InstallError::VersionInstalled,
        ),
        tag_allowed(tag@) && !crate::config::has_id(config.versions@, tag@) ==> r is Ok,
{
    if !valid_tag(tag) {
        return Err(InstallError::InvalidVersion);
    }
    if config.has_version(tag) {
        return Err(InstallError::VersionInstalled);
    }
    Ok(())
}

/// The build `tag` in the catalog `releases`, off Windows: its position.
pub fn select_binaries_release(releases: &[Release], tag: &str) -> (r: Result<usize, InstallError>)
    ensures
        ({
            let i = first_where(releases@, tagged(tag@));
            if i == releases@.len() {
                r matches Err(InstallError::UnknownVersion)
            } else {
                r == Ok::<usize, InstallError>(i as usize)
            }
        }),
{
    match find_release(releases, tag) {
        Some(i) => Ok(i),
        None => Err(InstallError::UnknownVersion),
    }
}

/// Each of Descript's two files must be downloaded from under Descript's address.
pub fn check_binaries_source(url: &str) -> (r: Result<(), InstallError>)
    ensures
        has_prefix(url@, PORTABLE_DOWNLOAD_PREFIX@) <==> r is Ok,
        r is Err ==> r matches Err(InstallError::InvalidSource),
{
    if starts_with(url, PORTABLE_DOWNLOAD_PREFIX) {
        Ok(())
    } else {
        Err(InstallError::InvalidSource)
    }
}

/// A download in progress: how many bytes arrived, and their SHA-256 computation.
pub struct Download {
    received: u64,
    hasher: Sha256Hasher,
}

impl Download {
    /// The bytes accepted so far.
    pub closed spec fn data(self) -> Seq<u8> {
        hashed_input(self.hasher)
    }

    /// The download's invariant: the count is that of the bytes accepted, within the
    /// limit.
    pub closed spec fn wf(self) -> bool {
        self.received == hashed_input(self.hasher).len() && self.received <= DOWNLOAD_LIMIT
    }

    /// A download that has received nothing.
    pub fn new() -> (r: Download)
        ensures
            r.wf(),
            r.data() == Seq::<u8>::empty(),
    {
        Download { received: 0, hasher: Sha256Hasher::new() }
    }

    /// How many bytes arrived.
    pub fn received(&self) -> (r: u64)
        requires
            self.wf(),
        ensures
            r == self.data().len(),
    {
        self.received
    }

    /// Accepts the next chunk of the download, unless the total would then pass
    /// `DOWNLOAD_LIMIT`; gives whether it was accepted.
    pub fn accept(&mut self, chunk: &[u8]) -> (r: bool)
        requires
            old(self).wf(),
        ensures
            final(self).wf(),
            r == (old(self).data().len() + chunk@.len() <= DOWNLOAD_LIMIT),
            r ==> final(self).data() == old(self).data() + chunk@,
            !r ==> final(self).data() == old(self).data(),
    {
        if chunk.len() as u64 > DOWNLOAD_LIMIT - self.received {
            return false;
        }
        self.received = self.received + chunk.len() as u64;
        self.hasher.update(chunk);
        true
    }

    /// The lower-case hexadecimal SHA-256 digest of everything accepted.
    pub fn checksum(self) -> (r: String)
        requires
            self.wf(),
        ensures
            r@ == hex_lower(sha256(self.data())),
    {
        let digest = self.hasher.finalize();
        hex_string(digest.as_slice())
    }
}

/// The progress shown while a Windows archive downloads: megabytes received out of
/// the build's size, both rounded down.
pub open spec fn archive_progress_text(received: u64, size: u64) -> Seq<char> {
    "Téléchargement · "@ + decimal((received / 1_000_000) as nat) + " / "@ + decimal(
        (size / 1_000_000) as nat,
    ) + " Mo"@
}

/// The progress shown while a Windows archive downloads.
pub fn archive_progress(received: u64, size: u64) -> (r: String)
    ensures
        r@ == archive_progress_text(received, size),
{
    let mut s = owned("Téléchargement · ");
    push_decimal(&mut s, received / 1_000_000);
    s.append(" / ");
    push_decimal(&mut s, size / 1_000_000);
    s.append(" Mo");
    assert(s@ =~= archive_progress_text(received, size));
    s
}

/// The progress shown while one of Descript's files downloads: its name and the
/// megabytes received, rounded down.
pub open spec fn file_progress_text(name: Seq<char>, received: u64) -> Seq<char> {
    name + " · "@ + decimal((received / 1_000_000) as nat) + " Mo"@
}

/// The progress shown while one of Descript's files downloads.
pub fn file_progress(name: &str, received: u64) -> (r: String)
    ensures
        r@ == file_progress_text(name@, received),
{
    let mut s = owned(name);
    s.append(" · ");
    push_decimal(&mut s, received / 1_000_000);
    s.append(" Mo");
    assert(s@ =~= file_progress_text(name@, received));
    s
}

/// The checksum that a release's `digest` field states, when it has the form
/// `sha256:<hex>`.
pub fn stated_checksum(digest: &str) -> (r: Option<String>)
    ensures
        r is Some <==> has_prefix(digest@, "sha256:"@),
        r matches Some(t) ==> t@ == digest@.skip(7),
{
    let r = strip_prefix(digest, "sha256:");
    proof {
        reveal_strlit("sha256:");
    }
    r
}

/// Where Gyan publishes the checksum of the archive named `name`.
pub fn checksum_listing_url(name: &str) -> (r: String)
    ensures
        r@ == "https://www.gyan.dev/ffmpeg/builds/packages/"@ + name@ + ".sha256"@,
{
    let mut s = owned("https://www.gyan.dev/ffmpeg/builds/packages/");
    s.append(name);
    s.append(".sha256");
    s
}

/// The checksum in one of Gyan's checksum files: its first field, in lower case;
/// empty when the file holds none (the lower case of an empty text).
pub fn listed_checksum(text: &str) -> (r: String)
    ensures
        match first_field(text@) {
            Some(f) => r@ == unicode_lowercase(f),
            None => r@ == Seq::<char>::empty(),
        },
{
    match first_field_of(text) {
        Some(f) => {
            let r = to_lowercase(f.as_str());
            assert(first_field(text@) == Some(f@));
            r
        },
        None => String::new(),
    }
}

/// The archive is accepted only when its computed checksum is the expected one.
pub fn check_archive_checksum(computed: &str, expected: &str) -> (r: Result<(), InstallError>)
    ensures
        r is Ok <==> computed@ == expected@,
        r is Err ==> r matches Err(InstallError::ChecksumMismatch),
{
    if str_eq(computed, expected) {
        Ok(())
    } else {
        Err(InstallError::ChecksumMismatch)
    }
}

/// Where the installation of a Windows archive stands once the request was accepted.
#[derive(Debug)]
pub enum ArchiveStage {
    /// Waiting for the archive to arrive.
    Downloading,
    /// The archive's checksum, which matched; waiting for it to be unpacked.
    Unpacking { checksum: String },
    /// Unpacked with an `ffmpeg.exe` in it; waiting for the binary to be identified.
    Identifying { checksum: String },
    /// Identified as FFmpeg `name`, with ffprobe beside it; waiting to be moved in place.
    Placing { checksum: String, name: String },
    /// In place: the engine is to be registered under this name and checksum.
    Register { checksum: String, name: String },
    /// Abandoned.
    Failed(InstallError),
}

/// What happened to a Windows archive being installed since its last step.
#[derive(Debug)]
pub enum ArchiveEvent {
    /// The whole archive arrived: the checksum computed over it and the expected one.
    Downloaded { computed: String, expected: String },
    /// The archive passed `DOWNLOAD_LIMIT` bytes.
    TooLarge,
    /// The archive was unpacked: whether an `ffmpeg.exe` was found in it.
    Unpacked { binary_found: bool },
    /// The binary was run with `-version` (exit success, standard output), and whether
    /// an `ffprobe.exe` lies beside it.
    Identified { success: bool, stdout: Vec<u8>, probe_beside: bool },
    /// Whether the version's directory already exists.
    Placed { destination_exists: bool },
}

/// The events that can happen at `stage`: the download's end at the start, then one
/// event for each later step; none once the installation is over.
pub open spec fn archive_event_fits(stage: ArchiveStage, event: ArchiveEvent) -> bool {
    match stage {
        ArchiveStage::Downloading => event is Downloaded || event is TooLarge,
        ArchiveStage::Unpacking { .. } => event is Unpacked,
        ArchiveStage::Identifying { .. } => event is Identified,
        ArchiveStage::Placing { .. } => event is Placed,
        _ => false,
    }
}

/// `next` is the stage after `event` at `stage`: a download past the limit is
/// refused; the archive goes on only when its computed checksum is the expected one;
/// then only when it holds an `ffmpeg.exe`; then only when that binary is FFmpeg (its
/// version becomes the engine's name) and ffprobe lies beside it; then only when the
/// version's directory does not exist yet, after which the engine is registered.
pub open spec fn archive_next(stage: ArchiveStage, event: ArchiveEvent, next: ArchiveStage) -> bool {
    match (stage, event) {
        (ArchiveStage::Downloading, ArchiveEvent::TooLarge) => next == ArchiveStage::Failed(
            InstallError::ArchiveTooLarge,
        ),
        (ArchiveStage::Downloading, ArchiveEvent::Downloaded { computed, expected }) => if computed@
            == expected@ {
            next matches ArchiveStage::Unpacking { checksum } && checksum@ == computed@
        } else {
            next == ArchiveStage::Failed(InstallError::ChecksumMismatch)
        },
        (ArchiveStage::Unpacking { checksum: c }, ArchiveEvent::Unpacked { binary_found }) => if binary_found {
            next matches ArchiveStage::Identifying { checksum } && checksum@ == c@
        } else {
            next == ArchiveStage::Failed(InstallError::NoArchiveBinary)
        },
        (
            ArchiveStage::Identifying { checksum: c },
            ArchiveEvent::Identified { success, stdout, probe_beside },
        ) => match version_result(success, stdout@) {
            Err(e) => next == ArchiveStage::Failed(InstallError::NotFfmpeg(e)),
            Ok(v) => if probe_beside {
                next matches ArchiveStage::Placing { checksum, name } && checksum@ == c@ && name@ == v
            } else {
                next == ArchiveStage::Failed(InstallError::NoArchiveProbe)
            },
        },
        (ArchiveStage::Placing { checksum: c, name: n }, ArchiveEvent::Placed { destination_exists }) => if destination_exists {
            next == ArchiveStage::Failed(InstallError::ArchiveDestinationExists)
        } else {
            next matches ArchiveStage::Register { checksum, name } && checksum@ == c@ && name@ == n@
        },
        _ => false,
    }
}

/// Whether `event` can happen at `stage` of a Windows archive's installation.
pub fn archive_fits(stage: &ArchiveStage, event: &ArchiveEvent) -> (r: bool)
    ensures
        r == archive_event_fits(*stage, *event),
{
    match stage {
        ArchiveStage::Downloading => match event {
            ArchiveEvent::Downloaded { .. } | ArchiveEvent::TooLarge => true,
            _ => false,
        },
        ArchiveStage::Unpacking { .. } => match event {
            ArchiveEvent::Unpacked { .. } => true,
            _ => false,
        },
        ArchiveStage::Identifying { .. } => match event {
            ArchiveEvent::Identified { .. } => true,
            _ => false,
        },
        ArchiveStage::Placing { .. } => match event {
            ArchiveEvent::Placed { .. } => true,
            _ => false,
        },
        _ => false,
    }
}

/// Takes the installation of a Windows archive one step on.
pub fn archive_step(stage: ArchiveStage, event: ArchiveEvent) -> (r: ArchiveStage)
    requires
        archive_event_fits(stage, event),
    ensures
        archive_next(stage, event, r),
{
    match stage {
        ArchiveStage::Downloading => match event {
            ArchiveEvent::TooLarge => ArchiveStage::Failed(InstallError::ArchiveTooLarge),
            ArchiveEvent::Downloaded { computed, expected } => {
                if str_eq(computed.as_str(), expected.as_str()) {
                    ArchiveStage::Unpacking { checksum: computed }
                } else {
                    ArchiveStage::Failed(InstallError::ChecksumMismatch)
                }
            },
            _ => ArchiveStage::Downloading,
        },
        ArchiveStage::Unpacking { checksum } => match event {
            ArchiveEvent::Unpacked { binary_found } => {
                if binary_found {
                    ArchiveStage::Identifying { checksum }
                } else {
                    ArchiveStage::Failed(InstallError::NoArchiveBinary)
                }
            },
            _ => ArchiveStage::Unpacking { checksum },
        },
        ArchiveStage::Identifying { checksum } => match event {
            ArchiveEvent::Identified { success, stdout, probe_beside } => {
                match version(success, stdout.as_slice()) {
                    Err(e) => ArchiveStage::Failed(InstallError::NotFfmpeg(e)),
                    Ok(name) => {
                        if probe_beside {
                            ArchiveStage::Placing { checksum, name }
                        } else {
                            ArchiveStage::Failed(InstallError::NoArchiveProbe)
                        }
                    },
                }
            },
            _ => ArchiveStage::Identifying { checksum },
        },
        ArchiveStage::Placing { checksum, name } => match event {
            ArchiveEvent::Placed { destination_exists } => {
                if destination_exists {
                    ArchiveStage::Failed(InstallError::ArchiveDestinationExists)
                } else {
                    ArchiveStage::Register { checksum, name }
                }
            },
            _ => ArchiveStage::Placing { checksum, name },
        },
        other => other,
    }
}

/// A Windows archive is registered only after every check passed, in order: it reaches
/// registration from the start in exactly four steps, the archive arrived whole with
/// its computed checksum equal to the expected one (which is the checksum registered),
/// it held an `ffmpeg.exe`, that binary is FFmpeg whose version is the name registered
/// and ffprobe lies beside it, and the version's directory did not exist.
pub proof fn law_archive_registered_only_after_every_check(
    s0: ArchiveStage,
    e0: ArchiveEvent,
    s1: ArchiveStage,
    e1: ArchiveEvent,
    s2: ArchiveStage,
    e2: ArchiveEvent,
    s3: ArchiveStage,
    e3: ArchiveEvent,
    s4: ArchiveStage,
)
    requires
        s0 is Downloading,
        archive_next(s0, e0, s1),
        archive_next(s1, e1, s2),
        archive_next(s2, e2, s3),
        archive_next(s3, e3, s4),
    ensures
        !(s1 is Register) && !(s2 is Register) && !(s3 is Register),
        s4 matches ArchiveStage::Register { checksum, name } ==> {
            &&& e0 matches ArchiveEvent::Downloaded { computed, expected } && computed@ == expected@
                && computed@ == checksum@
            &&& e1 matches ArchiveEvent::Unpacked { binary_found } && binary_found
            &&& e2 matches ArchiveEvent::Identified { success, stdout, probe_beside } && probe_beside
                && version_result(success, stdout@) == Ok::<Seq<char>, VersionError>(name@)
            &&& e3 matches ArchiveEvent::Placed { destination_exists } && !destination_exists
        },
{
}

/// One of Descript's files is refused when its release states a `sha256:` checksum
/// that differs from the computed one; without a stated checksum it is accepted.
pub fn check_file_checksum(digest: &str, computed: &str) -> (r: Result<(), InstallError>)
    ensures
        r is Err <==> has_prefix(digest@, "sha256:"@) && digest@.skip(7) != computed@,
        r is Err ==> r matches Err(InstallError::DigestMismatch),
{
    match stated_checksum(digest) {
        Some(expected) => {
            if !str_eq(expected.as_str(), computed) {
                return Err(InstallError::DigestMismatch);
            }
            Ok(())
        },
        None => Ok(()),
    }
}

/// What to do with one entry of a Windows archive: refuse an entry whose path would
/// leave the extraction directory, skip a directory, refuse a file larger than
/// `DOWNLOAD_LIMIT`, extract the rest (`Ok(true)`).
pub fn archive_entry(enclosed: bool, is_dir: bool, size: u64) -> (r: Result<bool, InstallError>)
    ensures
        !enclosed ==> r matches Err(InstallError::UnsafeArchivePath),
        enclosed && is_dir ==> r == Ok::<bool, InstallError>(false),
        enclosed && !is_dir && size > DOWNLOAD_LIMIT ==> r matches Err(InstallError::FileTooLarge),
        enclosed && !is_dir && size <= DOWNLOAD_LIMIT ==> r == Ok::<bool, InstallError>(true),
{
    if !enclosed {
        return Err(InstallError::UnsafeArchivePath);
    }
    if is_dir {
        return Ok(false);
    }
    if size > DOWNLOAD_LIMIT {
        return Err(InstallError::FileTooLarge);
    }
    Ok(true)
}

/// The record of one of Descript's files in an engine's checksum: `<name>:<sum>`.
pub fn checksum_entry(name: &str, sum: &str) -> (r: String)
    ensures
        r@ == name@ + ":"@ + sum@,
{
    let mut s = owned(name);
    s.append(":");
    s.append(sum);
    s
}

/// `parts` joined with `sep` between consecutive parts.
pub open spec fn joined(parts: Seq<Seq<char>>, sep: Seq<char>) -> Seq<char>
    decreases parts.len(),
{
    if parts.len() == 0 {
        Seq::empty()
    } else if parts.len() == 1 {
        parts[0]
    } else {
        joined(parts.drop_last(), sep) + sep + parts.last()
    }
}

/// The records of several files joined with `;`.
pub fn join_checksums(entries: &[String]) -> (r: String)
    ensures
        r@ == joined(crate::engine::views(entries@), ";"@),
{
    let mut s = String::new();
    for k in 0..entries.len()
        invariant
            s@ == joined(crate::engine::views(entries@.take(k as int)), ";"@),
    {
        let ghost parts = crate::engine::views(entries@.take(k + 1));
        assert(parts.drop_last() =~= crate::engine::views(entries@.take(k as int)));
        if k > 0 {
            s.append(";");
        }
        s.append(entries[k].as_str());
        assert(parts.last() == entries@[k as int]@);
        if k == 0 {
            assert(s@ =~= parts[0]);
        }
    }
    assert(entries@.take(entries@.len() as int) =~= entries@);
    s
}

/// Whether `dir` (by path components) lies strictly inside `root`.
pub open spec fn strictly_inside(root: Seq<String>, dir: Seq<String>) -> bool {
    &&& root.len() < dir.len()
    &&& forall|k: int| 0 <= k < root.len() ==> (#[trigger] dir[k])@ == root[k]@
}

/// Whether the directory with path components `dir` lies strictly inside the one with
/// components `root` (both already made canonical), as removal demands.
pub fn inside_root(root: &[String], dir: &[String]) -> (r: bool)
    ensures
        r == strictly_inside(root@, dir@),
{
    if root.len() >= dir.len() {
        return false;
    }
    for k in 0..root.len()
        invariant
            root@.len() < dir@.len(),
            forall|m: int| 0 <= m < k ==> (#[trigger] dir@[m])@ == root@[m]@,
    {
        if !str_eq(root[k].as_str(), dir[k].as_str()) {
            return false;
        }
    }
    true
}

/// The name of Descript's file number `file`: FFmpeg first, then ffprobe.
pub open spec fn binary_file_name(file: nat) -> Seq<char> {
    if file == 0 {
        "ffmpeg"@
    } else {
        "ffprobe"@
    }
}

fn binary_file_label(file: usize) -> (r: &'static str)
    ensures
        r@ == binary_file_name(file as nat),
{
    if file == 0 {
        "ffmpeg"
    } else {
        "ffprobe"
    }
}

/// Whether a file whose release states `digest` and whose computed checksum is
/// `computed` is accepted: always, unless a `sha256:` checksum is stated and differs.
pub open spec fn file_digest_accepted(digest: Seq<char>, computed: Seq<char>) -> bool {
    !(has_prefix(digest, "sha256:"@) && digest.skip(7) != computed)
}

/// Where the installation of Descript's two binaries stands once the request was
/// accepted; `sums` are the records `<name>:<sum>` of the files already fetched.
#[derive(Debug)]
pub enum BinariesStage {
    /// About to fetch file number `file`; its address is to be checked.
    Fetching { file: usize, sums: Vec<String> },
    /// Fetching file number `file` from an accepted address.
    Downloading { file: usize, sums: Vec<String> },
    /// Both files fetched; waiting for FFmpeg to be identified.
    Identifying { sums: Vec<String> },
    /// Identified as FFmpeg `name`; waiting to be moved in place.
    Placing { sums: Vec<String>, name: String },
    /// In place: the engine is to be registered under this name and checksum record.
    Register { checksum: String, name: String },
    /// Abandoned.
    Failed(InstallError),
}

/// What happened to Descript's binaries being installed since the last step.
#[derive(Debug)]
pub enum BinariesEvent {
    /// The address of the file to fetch.
    Source { url: String },
    /// The file passed `DOWNLOAD_LIMIT` bytes.
    TooLarge,
    /// The whole file arrived: the digest its release states, and its computed checksum.
    Downloaded { digest: String, computed: String },
    /// FFmpeg was run with `-version`: exit success and standard output.
    Identified { success: bool, stdout: Vec<u8> },
    /// Whether the version's directory already exists.
    Placed { destination_exists: bool },
}

/// The events that can happen at `stage`, with the stage's own bounds: two files,
/// fetched in turn.
pub open spec fn binaries_event_fits(stage: BinariesStage, event: BinariesEvent) -> bool {
    match stage {
        BinariesStage::Fetching { file, sums } => file <= 1 && sums@.len() == file && event is Source,
        BinariesStage::Downloading { file, sums } => file <= 1 && sums@.len() == file && (
        event is Downloaded || event is TooLarge),
        BinariesStage::Identifying { .. } => event is Identified,
        BinariesStage::Placing { .. } => event is Placed,
        _ => false,
    }
}

/// `next` is the stage after `event` at `stage`: each file is fetched only from under
/// Descript's address, refused past the limit, and kept only when no stated checksum
/// differs from the computed one, its record `<name>:<sum>` then added; after both,
/// FFmpeg must be identified (its version becomes the engine's name), then the
/// version's directory must not exist yet, after which the engine is registered with
/// the records joined by `;`.
pub open spec fn binaries_next(stage: BinariesStage, event: BinariesEvent, next: BinariesStage) -> bool {
    match (stage, event) {
        (BinariesStage::Fetching { file: f, sums: s }, BinariesEvent::Source { url }) => if has_prefix(
            url@,
            PORTABLE_DOWNLOAD_PREFIX@,
        ) {
            next matches BinariesStage::Downloading { file, sums } && file == f && sums@ == s@
        } else {
            next == BinariesStage::Failed(InstallError::InvalidSource)
        },
        (BinariesStage::Downloading { .. }, BinariesEvent::TooLarge) => next == BinariesStage::Failed(
            InstallError::DownloadTooLarge,
        ),
        (BinariesStage::Downloading { file: f, sums: s }, BinariesEvent::Downloaded { digest, computed }) => {
            let record = binary_file_name(f as nat) + ":"@ + computed@;
            if !file_digest_accepted(digest@, computed@) {
                next == BinariesStage::Failed(InstallError::DigestMismatch)
            } else if f == 0 {
                next matches BinariesStage::Fetching { file, sums } && file == 1
                    && crate::engine::views(sums@) == crate::engine::views(s@).push(record)
            } else {
                next matches BinariesStage::Identifying { sums } && crate::engine::views(sums@)
                    == crate::engine::views(s@).push(record)
            }
        },
        (BinariesStage::Identifying { sums: s }, BinariesEvent::Identified { success, stdout }) => match version_result(
            success,
            stdout@,
        ) {
            Err(e) => next == BinariesStage::Failed(InstallError::NotFfmpeg(e)),
            Ok(v) => next matches BinariesStage::Placing { sums, name } && sums@ == s@ && name@ == v,
        },
        (BinariesStage::Placing { sums: s, name: n }, BinariesEvent::Placed { destination_exists }) => if destination_exists {
            next == BinariesStage::Failed(InstallError::BinariesDestinationExists)
        } else {
            next matches BinariesStage::Register { checksum, name } && checksum@ == joined(
                crate::engine::views(s@),
                ";"@,
            ) && name@ == n@
        },
        _ => false,
    }
}

/// Whether `event` can happen at `stage` of the installation of Descript's binaries.
pub fn binaries_fits(stage: &BinariesStage, event: &BinariesEvent) -> (r: bool)
    ensures
        r == binaries_event_fits(*stage, *event),
{
    match stage {
        BinariesStage::Fetching { file, sums } => *file <= 1 && sums.len() == *file && match event {
            BinariesEvent::Source { .. } => true,
            _ => false,
        },
        BinariesStage::Downloading { file, sums } => *file <= 1 && sums.len() == *file && match event {
            BinariesEvent::Downloaded { .. } | BinariesEvent::TooLarge => true,
            _ => false,
        },
        BinariesStage::Identifying { .. } => match event {
            BinariesEvent::Identified { .. } => true,
            _ => false,
        },
        BinariesStage::Placing { .. } => match event {
            BinariesEvent::Placed { .. } => true,
            _ => false,
        },
        _ => false,
    }
}

/// Takes the installation of Descript's binaries one step on.
pub fn binaries_step(stage: BinariesStage, event: BinariesEvent) -> (r: BinariesStage)
    requires
        binaries_event_fits(stage, event),
    ensures
        binaries_next(stage, event, r),
{
    match stage {
        BinariesStage::Fetching { file, sums } => match event {
            BinariesEvent::Source { url } => {
                if check_binaries_source(url.as_str()).is_ok() {
                    BinariesStage::Downloading { file, sums }
                } else {
                    BinariesStage::Failed(InstallError::InvalidSource)
                }
            },
            _ => BinariesStage::Fetching { file, sums },
        },
        BinariesStage::Downloading { file, sums } => match event {
            BinariesEvent::TooLarge => BinariesStage::Failed(InstallError::DownloadTooLarge),
            BinariesEvent::Downloaded { digest, computed } => {
                if check_file_checksum(digest.as_str(), computed.as_str()).is_err() {
                    return BinariesStage::Failed(InstallError::DigestMismatch);
                }
                let mut sums = sums;
                let ghost before = sums@;
                sums.push(checksum_entry(binary_file_label(file), computed.as_str()));
                assert(crate::engine::views(sums@) =~= crate::engine::views(before).push(
                    binary_file_name(file as nat) + ":"@ + computed@,
                ));
                if file == 0 {
                    BinariesStage::Fetching { file: 1, sums }
                } else {
                    BinariesStage::Identifying { sums }
                }
            },
            _ => BinariesStage::Downloading { file, sums },
        },
        BinariesStage::Identifying { sums } => match event {
            BinariesEvent::Identified { success, stdout } => {
                match version(success, stdout.as_slice()) {
                    Err(e) => BinariesStage::Failed(InstallError::NotFfmpeg(e)),
                    Ok(name) => BinariesStage::Placing { sums, name },
                }
            },
            _ => BinariesStage::Identifying { sums },
        },
        BinariesStage::Placing { sums, name } => match event {
            BinariesEvent::Placed { destination_exists } => {
                if destination_exists {
                    BinariesStage::Failed(InstallError::BinariesDestinationExists)
                } else {
                    BinariesStage::Register { checksum: join_checksums(sums.as_slice()), name }
                }
            },
            _ => BinariesStage::Placing { sums, name },
        },
        other => other,
    }
}

/// Descript's binaries are registered only after every check passed, in order: from
/// the start, registration comes after exactly six steps; both files came from under
/// Descript's address, in whole, each accepted by its stated checksum; FFmpeg was
/// identified, its version being the name registered; the version's directory did not
/// exist; the checksum registered is `ffmpeg:<sum>;ffprobe:<sum>` of the computed sums.
pub proof fn law_binaries_registered_only_after_every_check(
    stages: Seq<BinariesStage>,
    events: Seq<BinariesEvent>,
)
    requires
        stages.len() == 7,
        events.len() == 6,
        stages[0] matches BinariesStage::Fetching { file, sums } && file == 0 && sums@.len() == 0,
        forall|k: int| 0 <= k < 6 ==> binaries_next(#[trigger] stages[k], events[k], stages[k + 1]),
    ensures
        forall|k: int| 0 <= k < 6 ==> !(#[trigger] stages[k] is Register),
        stages[6] matches BinariesStage::Register { checksum, name } ==> {
            &&& events[0] matches BinariesEvent::Source { url } && has_prefix(url@, PORTABLE_DOWNLOAD_PREFIX@)
            &&& events[1] matches BinariesEvent::Downloaded { digest, computed }
                && file_digest_accepted(digest@, computed@)
            &&& events[2] matches BinariesEvent::Source { url } && has_prefix(url@, PORTABLE_DOWNLOAD_PREFIX@)
            &&& events[3] matches BinariesEvent::Downloaded { digest, computed }
                && file_digest_accepted(digest@, computed@)
            &&& events[4] matches BinariesEvent::Identified { success, stdout } && version_result(
                success,
                stdout@,
            ) == Ok::<Seq<char>, VersionError>(name@)
            &&& events[5] matches BinariesEvent::Placed { destination_exists } && !destination_exists
            &&& checksum@ == ("ffmpeg"@ + ":"@ + events[1]->computed@) + ";"@ + ("ffprobe"@ + ":"@
                + events[3]->computed@)
        },
{
    assert(binaries_next(stages[0], events[0], stages[1]));
    assert(binaries_next(stages[1], events[1], stages[2]));
    assert(binaries_next(stages[2], events[2], stages[3]));
    assert(binaries_next(stages[3], events[3], stages[4]));
    assert(binaries_next(stages[4], events[4], stages[5]));
    assert(binaries_next(stages[5], events[5], stages[6]));
    if stages[6] is Register {
        let v0 = crate::engine::views(stages[0]->Fetching_sums@);
        let v2 = crate::engine::views(stages[2]->Fetching_sums@);
        let v4 = crate::engine::views(stages[4]->Identifying_sums@);
        let r0 = "ffmpeg"@ + ":"@ + events[1]->computed@;
        let r1 = "ffprobe"@ + ":"@ + events[3]->computed@;
        assert(v0 =~= Seq::<Seq<char>>::empty());
        assert(v2 =~= seq![r0]);
        assert(v4 =~= seq![r0, r1]);
        assert(joined(v4, ";"@) == r0 + ";"@ + r1) by {
            reveal_with_fuel(joined, 3);
            assert(v4.drop_last() =~= seq![r0]);
        }
    }
}

} // verus!
