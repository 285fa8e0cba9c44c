//! What an update check finds, from the documents of the sources.

use vstd::prelude::*;

use crate::settings::{channel_text, UpdateChannel};
use crate::text::{join2, join3, opt_text, strip_leading, trim_start_char};
use crate::version::{compare_versions, newer, version_of};

verus! {

// ----- Times -----

/// A moment from the Unix epoch on, up to the last year that dates can name.
#[derive(Debug, Clone, Copy)]
pub struct Timestamp {
    secs: i64,
    nanos: u32,
}

/// The moments that can be named: seconds since the epoch, and nanoseconds.
pub open spec fn is_moment(secs: i64, nanos: u32) -> bool {
    0 <= secs <= 8_210_266_876_799 && nanos < 1_000_000_000
}

/// How `chrono` writes a moment by RFC 3339.
pub uninterp spec fn rfc3339_text(secs: i64, nanos: u32) -> Seq<char>;

/// Calls `chrono::DateTime::from_timestamp` and `chrono::DateTime::to_rfc3339`.
/// Claimed of them: a moment from the epoch to the end of the year 262142 is
/// accepted, and the text depends on it alone. The text is named and not
/// spelled out.
#[verifier::external_body]
fn to_rfc3339(secs: i64, nanos: u32) -> (r: String)
    requires
        is_moment(secs, nanos),
    ensures
        r@ == rfc3339_text(secs, nanos),
{
    chrono::DateTime::from_timestamp(secs, nanos).unwrap().to_rfc3339()
}

impl Timestamp {
    #[verifier::type_invariant]
    spec fn wf(self) -> bool {
        is_moment(self.secs, self.nanos)
    }

    /// The seconds since the epoch, and the nanoseconds.
    pub closed spec fn view(&self) -> (i64, u32) {
        (self.secs, self.nanos)
    }

    /// The moment so many seconds and nanoseconds after the epoch, if it can be named.
    pub fn new(secs: i64, nanos: u32) -> (r: Option<Timestamp>)
        ensures
            r is Some <==> is_moment(secs, nanos),
            r matches Some(t) ==> t@ == (secs, nanos),
    {
        if 0 <= secs && secs <= 8_210_266_876_799 && nanos < 1_000_000_000 {
            Some(Timestamp { secs, nanos })
        } else {
            None
        }
    }

    /// The moment by RFC 3339.
    pub fn rfc3339(&self) -> (r: String)
        ensures
            r@ == rfc3339_text(self@.0, self@.1),
    {
        proof {
            use_type_invariant(self);
        }
        to_rfc3339(self.secs, self.nanos)
    }
}

// ----- Documents -----

/// A release, as GitHub describes it.
#[derive(Debug)]
pub struct GitHubRelease {
    pub tag_name: String,
    pub html_url: String,
    pub body: Option<String>,
    pub published_at: Option<String>,
    pub prerelease: bool,
    pub assets: Vec<GitHubReleaseAsset>,
}

/// A file of a release.
#[derive(Debug)]
pub struct GitHubReleaseAsset {
    pub name: String,
    pub browser_download_url: String,
}

/// The file `updater.json` of a release.
#[derive(Debug)]
pub struct UpdaterJson {
    pub version: String,
    pub notes: Option<String>,
    pub pub_date: Option<String>,
}

/// The file `package.json` of the main branch.
#[derive(Debug)]
pub struct PackageJson {
    pub version: String,
}

// ----- Results -----

/// What an update check finds.
#[derive(Debug, Clone)]
pub struct UpdateInfo {
    pub current_version: String,
    pub latest_version: String,
    pub has_update: bool,
    pub download_url: String,
    pub release_notes: String,
    pub published_at: String,
    pub source: Option<String>,
    pub proxy_url: Option<String>,
    pub channel: Option<UpdateChannel>,
    pub updater_json_url: Option<String>,
}

/// What an [`UpdateInfo`] says.
pub struct UpdateInfoModel {
    pub current_version: Seq<char>,
    pub latest_version: Seq<char>,
    pub has_update: bool,
    pub download_url: Seq<char>,
    pub release_notes: Seq<char>,
    pub published_at: Seq<char>,
    pub source: Option<Seq<char>>,
    pub proxy_url: Option<Seq<char>>,
    pub channel: Option<UpdateChannel>,
    pub updater_json_url: Option<Seq<char>>,
}

impl View for UpdateInfo {
    type V = UpdateInfoModel;

    open spec fn view(&self) -> UpdateInfoModel {
        UpdateInfoModel {
            current_version: self.current_version@,
            latest_version: self.latest_version@,
            has_update: self.has_update,
            download_url: self.download_url@,
            release_notes: self.release_notes@,
            published_at: self.published_at@,
            source: opt_text(self.source),
            proxy_url: opt_text(self.proxy_url),
            channel: self.channel,
            updater_json_url: opt_text(self.updater_json_url),
        }
    }
}

/// Where the file `updater.json` of the latest release stands.
pub const STABLE_UPDATER_JSON_URL: &'static str =
    "https://github.com/lbjlaq/Antigravity-Manager/releases/latest/download/updater.json";

/// Where the file `updater.json` of the preview stands.
pub const PREVIEW_UPDATER_JSON_URL: &'static str =
    "https://github.com/lbjlaq/Antigravity-Manager/releases/download/preview/updater.json";

/// Where the file `updater.json` of a channel stands.
pub open spec fn updater_json_url(channel: UpdateChannel) -> Seq<char> {
    match channel {
        UpdateChannel::Stable => STABLE_UPDATER_JSON_URL@,
        UpdateChannel::Beta => PREVIEW_UPDATER_JSON_URL@,
    }
}

/// Where the file `updater.json` of a channel stands.
pub fn updater_json_address(channel: UpdateChannel) -> (r: &'static str)
    ensures
        r@ == updater_json_url(channel),
{
    match channel {
        UpdateChannel::Stable => STABLE_UPDATER_JSON_URL,
        UpdateChannel::Beta => PREVIEW_UPDATER_JSON_URL,
    }
}

/// The text, or another where there is none.
pub open spec fn text_or(text: Option<String>, other: Seq<char>) -> Seq<char> {
    match text {
        Some(t) => t@,
        None => other,
    }
}

/// A moment by RFC 3339.
pub open spec fn moment_text(now: (i64, u32)) -> Seq<char> {
    rfc3339_text(now.0, now.1)
}

/// What the file `updater.json` of a channel says to a program of version `current`.
pub open spec fn updater_info(
    channel: UpdateChannel,
    doc: UpdaterJson,
    current: Seq<char>,
    now: (i64, u32),
) -> UpdateInfoModel {
    let latest = strip_leading(doc.version@, 'v');
    UpdateInfoModel {
        current_version: current,
        latest_version: latest,
        has_update: newer(version_of(latest), version_of(current)),
        download_url: "https://github.com/lbjlaq/Antigravity-Manager/releases/tag/v"@ + latest,
        release_notes: text_or(doc.notes, "Release notes available on GitHub."@),
        published_at: text_or(doc.pub_date, moment_text(now)),
        source: Some(channel_text(channel) + " updater.json"@),
        proxy_url: None,
        channel: Some(channel),
        updater_json_url: Some(updater_json_url(channel)),
    }
}

/// What the file `updater.json` of a channel says to a program of version `current`.
pub fn info_from_updater_json(
    channel: UpdateChannel,
    doc: UpdaterJson,
    current: &str,
    now: &Timestamp,
) -> (r: UpdateInfo)
    ensures
        r@ == updater_info(channel, doc, current@, now@),
{
    let latest = trim_start_char(doc.version.as_str(), 'v');
    UpdateInfo {
        current_version: current.to_string(),
        latest_version: latest.to_string(),
        has_update: compare_versions(latest, current),
        download_url: join2(
            "https://github.com/lbjlaq/Antigravity-Manager/releases/tag/v",
            latest,
        ),
        release_notes: match doc.notes {
            Some(notes) => notes,
            None => "Release notes available on GitHub.".to_string(),
        },
        published_at: match doc.pub_date {
            Some(date) => date,
            None => now.rfc3339(),
        },
        source: Some(join2(channel.name(), " updater.json")),
        proxy_url: None,
        channel: Some(channel),
        updater_json_url: Some(updater_json_address(channel).to_string()),
    }
}

/// What a release on GitHub says to a program of version `current`.
pub open spec fn release_info(
    channel: UpdateChannel,
    release: GitHubRelease,
    current: Seq<char>,
    now: (i64, u32),
) -> UpdateInfoModel {
    let latest = strip_leading(release.tag_name@, 'v');
    UpdateInfoModel {
        current_version: current,
        latest_version: latest,
        has_update: newer(version_of(latest), version_of(current)),
        download_url: release.html_url@,
        release_notes: text_or(release.body, Seq::empty()),
        published_at: text_or(release.published_at, moment_text(now)),
        source: Some("GitHub API ("@ + channel_text(channel) + ")"@),
        proxy_url: None,
        channel: Some(channel),
        updater_json_url: None,
    }
}

/// What a release on GitHub says to a program of version `current`.
pub fn info_from_release(
    channel: UpdateChannel,
    release: GitHubRelease,
    current: &str,
    now: &Timestamp,
) -> (r: UpdateInfo)
    ensures
        r@ == release_info(channel, release, current@, now@),
{
    let latest = trim_start_char(release.tag_name.as_str(), 'v');
    UpdateInfo {
        current_version: current.to_string(),
        latest_version: latest.to_string(),
        has_update: compare_versions(latest, current),
        download_url: release.html_url,
        release_notes: match release.body {
            Some(body) => body,
            None => String::new(),
        },
        published_at: match release.published_at {
            Some(date) => date,
            None => now.rfc3339(),
        },
        source: Some(join3("GitHub API (", channel.name(), ")")),
        proxy_url: None,
        channel: Some(channel),
        updater_json_url: None,
    }
}

/// What the file `package.json` says to a program of version `current`. It tells
/// no more than a version.
pub open spec fn package_info(
    source_name: Seq<char>,
    doc: PackageJson,
    current: Seq<char>,
    now: (i64, u32),
) -> UpdateInfoModel {
    UpdateInfoModel {
        current_version: current,
        latest_version: doc.version@,
        has_update: newer(version_of(doc.version@), version_of(current)),
        download_url: "https://github.com/lbjlaq/Antigravity-Manager/releases/latest"@,
        release_notes: "New version detected via "@ + source_name
            + ". Please check release page for details."@,
        published_at: moment_text(now),
        source: Some(source_name),
        proxy_url: None,
        channel: Some(UpdateChannel::Stable),
        updater_json_url: None,
    }
}

/// What the file `package.json` says to a program of version `current`.
pub fn info_from_package_json(
    source_name: &str,
    doc: PackageJson,
    current: &str,
    now: &Timestamp,
) -> (r: UpdateInfo)
    ensures
        r@ == package_info(source_name@, doc, current@, now@),
{
    let has_update = compare_versions(doc.version.as_str(), current);
    UpdateInfo {
        current_version: current.to_string(),
        latest_version: doc.version,
        has_update,
        download_url: "https://github.com/lbjlaq/Antigravity-Manager/releases/latest".to_string(),
        release_notes: join3(
            "New version detected via ",
            source_name,
            ". Please check release page for details.",
        ),
        published_at: now.rfc3339(),
        source: Some(source_name.to_string()),
        proxy_url: None,
        channel: Some(UpdateChannel::Stable),
        updater_json_url: None,
    }
}

// ----- Laws -----

/// An update is told of exactly where the latest version is newer than the current one,
/// whatever the channel. The latest version is that of the file without leading `v`s;
/// everything else that the file says is handed on whole.
pub proof fn law_what_updater_json_tells(
    channel: UpdateChannel,
    doc: UpdaterJson,
    current: &str,
    now: &Timestamp,
    r: UpdateInfo,
)
    requires
        call_ensures(info_from_updater_json, (channel, doc, current, now), r),
    ensures
        r.has_update <==> newer(version_of(r.latest_version@), version_of(current@)),
        r.current_version@ == current@,
        r.latest_version@ == strip_leading(doc.version@, 'v'),
        r.download_url@ == "https://github.com/lbjlaq/Antigravity-Manager/releases/tag/v"@
            + r.latest_version@,
        doc.notes matches Some(notes) ==> r.release_notes@ == notes@,
        doc.notes is None ==> r.release_notes@ == "Release notes available on GitHub."@,
        doc.pub_date matches Some(date) ==> r.published_at@ == date@,
        doc.pub_date is None ==> r.published_at@ == rfc3339_text(now@.0, now@.1),
        channel == UpdateChannel::Stable ==> opt_text(r.source) == Some("Stable"@ + " updater.json"@),
        channel == UpdateChannel::Beta ==> opt_text(r.source) == Some("Beta"@ + " updater.json"@),
        r.proxy_url is None,
        r.channel == Some(channel),
        channel == UpdateChannel::Stable ==> opt_text(r.updater_json_url) == Some(
            "https://github.com/lbjlaq/Antigravity-Manager/releases/latest/download/updater.json"@,
        ),
        channel == UpdateChannel::Beta ==> opt_text(r.updater_json_url) == Some(
            "https://github.com/lbjlaq/Antigravity-Manager/releases/download/preview/updater.json"@,
        ),
{
    let m = r@;
    assert(m == updater_info(channel, doc, current@, now@));
    assert(m.has_update == r.has_update && m.latest_version == r.latest_version@);
    assert(m.current_version == r.current_version@ && m.download_url == r.download_url@);
    assert(m.release_notes == r.release_notes@ && m.published_at == r.published_at@);
}

/// An update is told of exactly where the latest version is newer than the current one,
/// whatever the channel. The latest version is the tag of the release without leading
/// `v`s; everything else that the release says is handed on whole.
pub proof fn law_what_a_release_tells(
    channel: UpdateChannel,
    release: GitHubRelease,
    current: &str,
    now: &Timestamp,
    r: UpdateInfo,
)
    requires
        call_ensures(info_from_release, (channel, release, current, now), r),
    ensures
        r.has_update <==> newer(version_of(r.latest_version@), version_of(current@)),
        r.current_version@ == current@,
        r.latest_version@ == strip_leading(release.tag_name@, 'v'),
        r.download_url@ == release.html_url@,
        release.body matches Some(body) ==> r.release_notes@ == body@,
        release.body is None ==> r.release_notes@.len() == 0,
        release.published_at matches Some(date) ==> r.published_at@ == date@,
        release.published_at is None ==> r.published_at@ == rfc3339_text(now@.0, now@.1),
        channel == UpdateChannel::Stable ==> opt_text(r.source) == Some(
            "GitHub API ("@ + "Stable"@ + ")"@,
        ),
        channel == UpdateChannel::Beta ==> opt_text(r.source) == Some(
            "GitHub API ("@ + "Beta"@ + ")"@,
        ),
        r.proxy_url is None,
        r.channel == Some(channel),
        r.updater_json_url is None,
{
    let m = r@;
    assert(m == release_info(channel, release, current@, now@));
    assert(m.has_update == r.has_update && m.latest_version == r.latest_version@);
    assert(m.current_version == r.current_version@ && m.download_url == r.download_url@);
    assert(m.release_notes == r.release_notes@ && m.published_at == r.published_at@);
}

/// An update is told of exactly where the version of the file is newer than the current
/// one. The file tells no more than that version, which belongs to the stable channel.
pub proof fn law_what_package_json_tells(
    source_name: &str,
    doc: PackageJson,
    current: &str,
    now: &Timestamp,
    r: UpdateInfo,
)
    requires
        call_ensures(info_from_package_json, (source_name, doc, current, now), r),
    ensures
        r.has_update <==> newer(version_of(r.latest_version@), version_of(current@)),
        r.current_version@ == current@,
        r.latest_version@ == doc.version@,
        r.download_url@ == "https://github.com/lbjlaq/Antigravity-Manager/releases/latest"@,
        r.release_notes@ == "New version detected via "@ + source_name@
            + ". Please check release page for details."@,
        r.published_at@ == rfc3339_text(now@.0, now@.1),
        opt_text(r.source) == Some(source_name@),
        r.proxy_url is None,
        r.channel == Some(UpdateChannel::Stable),
        r.updater_json_url is None,
{
    let m = r@;
    assert(m == package_info(source_name@, doc, current@, now@));
    assert(m.has_update == r.has_update && m.latest_version == r.latest_version@);
    assert(m.current_version == r.current_version@ && m.download_url == r.download_url@);
    assert(m.release_notes == r.release_notes@ && m.published_at == r.published_at@);
}

/// Each channel has a file `updater.json` of its own.
pub proof fn law_places_of_updater_json(channel: UpdateChannel, r: &'static str)
    requires
        call_ensures(updater_json_address, (channel,), r),
    ensures
        channel == UpdateChannel::Stable ==> r@
            == "https://github.com/lbjlaq/Antigravity-Manager/releases/latest/download/updater.json"@,
        channel == UpdateChannel::Beta ==> r@
            == "https://github.com/lbjlaq/Antigravity-Manager/releases/download/preview/updater.json"@,
{
}

/// A moment from the epoch to the last day that dates can name is kept as it is, and
/// written by RFC 3339.
pub proof fn law_moments(secs: i64, nanos: u32, r: Option<Timestamp>, t: &Timestamp, text: String)
    requires
        call_ensures(Timestamp::new, (secs, nanos), r),
        call_ensures(Timestamp::rfc3339, (t,), text),
    ensures
        r is Some <==> 0 <= secs <= 8_210_266_876_799 && nanos <= 999_999_999,
        r matches Some(m) ==> m@ == (secs, nanos),
        text@ == rfc3339_text(t@.0, t@.1),
{
}

/// What an information says is what its fields say.
pub proof fn law_fields_of_an_information(info: UpdateInfo)
    ensures
        info@.current_version == info.current_version@,
        info@.latest_version == info.latest_version@,
        info@.has_update == info.has_update,
        info@.download_url == info.download_url@,
        info@.release_notes == info.release_notes@,
        info@.published_at == info.published_at@,
        info@.source == opt_text(info.source),
        info@.proxy_url == opt_text(info.proxy_url),
        info@.channel == info.channel,
        info@.updater_json_url == opt_text(info.updater_json_url),
{
}

} // verus!
