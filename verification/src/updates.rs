//! Whether a newer release of the application is published.
use vstd::prelude::*;
use crate::text::{owned, trim_leading, trim_leading_char};
use crate::versions::text_or_empty;

verus! {

/// The application's GitHub repository.
pub const REPOSITORY: &'static str = "azksama/Encodeck";

/// semver's `Version`.
#[verifier::external_type_specification]
#[verifier::external_body]
pub struct ExVersion(semver::Version);

/// What semver's `Version::parse` says of `text`: nothing when it accepts it, the
/// message of its error otherwise.
pub uninterp spec fn semver_refusal(text: Seq<char>) -> Option<Seq<char>>;

/// Whether semver's `Version::parse` accepts `text`.
pub open spec fn semver_accepts(text: Seq<char>) -> bool {
    semver_refusal(text) is None
}

/// Whether the version that semver parses from `a` is greater than the one it parses
/// from `b`, in semver's order.
pub uninterp spec fn semver_newer(a: Seq<char>, b: Seq<char>) -> bool;

/// A version that semver parsed, kept with the text it was parsed from. Only
/// `parse_version` builds one, so `version` is always what semver makes of `text`.
pub struct ParsedVersion {
    text: String,
    version: semver::Version,
}

impl ParsedVersion {
    /// The text this version was parsed from.
    pub closed spec fn source(self) -> Seq<char> {
        self.text@
    }
}

/// semver's `Version::parse`: accepts exactly what `semver_refusal` lets pass; a
/// refusal carries semver's error message, written by its `Display` impl.
#[verifier::external_body]
pub fn parse_version(text: &str) -> (r: Result<ParsedVersion, String>)
    ensures
        r is Ok <==> semver_accepts(text@),
        r matches Ok(v) ==> v.source() == text@,
        r matches Err(m) ==> semver_refusal(text@) == Some(m@),
{
    match semver::Version::parse(text) {
        Ok(version) => Ok(ParsedVersion { text: text.to_string(), version }),
        Err(e) => Err(e.to_string()),
    }
}

/// semver's order on versions (`>` on `Version`): whether `a` is greater than `b`.
#[verifier::external_body]
pub fn newer(a: &ParsedVersion, b: &ParsedVersion) -> (r: bool)
    ensures
        r == semver_newer(a.source(), b.source()),
{
    a.version > b.version
}

/// What the update check reports.
#[derive(Debug)]
pub struct UpdateInfo {
    pub available: bool,
    pub version: String,
    pub notes: String,
    pub url: String,
}

/// Why the update check fails.
#[derive(Debug)]
pub enum UpdateError {
    NoRelease,
    InvalidTag,
    BadVersion(String),
}

impl UpdateError {
    /// The message shown for this failure.
    pub open spec fn text(self) -> Seq<char> {
        match self {
            UpdateError::NoRelease => "Aucune version publique publiée pour le moment."@,
            UpdateError::InvalidTag => "Version GitHub invalide"@,
            UpdateError::BadVersion(m) => m@,
        }
    }

    /// The message shown for this failure.
    pub fn message(&self) -> (r: String)
        ensures
            r@ == self.text(),
    {
        match self {
            UpdateError::NoRelease => owned("Aucune version publique publiée pour le moment."),
            UpdateError::InvalidTag => owned("Version GitHub invalide"),
            UpdateError::BadVersion(m) => m.clone(),
        }
    }
}

/// The page that lists the application's releases.
pub open spec fn releases_page_text() -> Seq<char> {
    "https://github.com/"@ + REPOSITORY@ + "/releases"@
}

/// The page that lists the application's releases.
pub fn releases_page() -> (r: String)
    ensures
        r@ == releases_page_text(),
{
    let mut s = owned("https://github.com/");
    s.append(REPOSITORY);
    s.append("/releases");
    s
}

/// Where the latest published release is described.
pub fn latest_release_api() -> (r: String)
    ensures
        r@ == "https://api.github.com/repos/"@ + REPOSITORY@ + "/releases/latest"@,
{
    let mut s = owned("https://api.github.com/repos/");
    s.append(REPOSITORY);
    s.append("/releases/latest");
    s
}

/// Reads the answer about the latest release: whether it was "not found", its tag and
/// its notes. The version is the tag without its leading `v`s; it is compared with
/// `current`, the running application's version.
pub fn update_check(not_found: bool, tag: Option<String>, notes: Option<String>, current: &str) -> (r: Result<UpdateInfo, UpdateError>)
    ensures
        not_found ==> r matches Err(UpdateError::NoRelease),
        !not_found && tag is None ==> r matches Err(UpdateError::InvalidTag),
        !not_found && tag is Some ==> {
            let v = trim_leading(tag->0@, 'v');
            &&& !semver_accepts(v) ==> (r matches Err(UpdateError::BadVersion(m)) && Some(m@)
                == semver_refusal(v))
            &&& semver_accepts(v) && !semver_accepts(current@) ==> (r matches Err(
                UpdateError::BadVersion(m),
            ) && Some(m@) == semver_refusal(current@))
            &&& semver_accepts(v) && semver_accepts(current@) ==> (r matches Ok(info) && {
                &&& info.available == semver_newer(v, current@)
                &&& info.version@ == v
                &&& info.notes@ == text_or_empty(notes)
                &&& info.url@ == releases_page_text()
            })
        },
{
    if not_found {
        return Err(UpdateError::NoRelease);
    }
    let tag = match tag {
        Some(t) => t,
        None => {
            return Err(UpdateError::InvalidTag);
        },
    };
    let version = trim_leading_char(tag.as_str(), 'v');
    let latest = match parse_version(version.as_str()) {
        Ok(v) => v,
        Err(m) => {
            return Err(UpdateError::BadVersion(m));
        },
    };
    let running = match parse_version(current) {
        Ok(v) => v,
        Err(m) => {
            return Err(UpdateError::BadVersion(m));
        },
    };
    let available = newer(&latest, &running);
    let notes = match notes {
        Some(n) => n,
        None => String::new(),
    };
    Ok(UpdateInfo { available, version, notes, url: releases_page() })
}

} // verus!
