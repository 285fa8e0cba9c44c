//! The course of an update check: the sources, one after another, until one of
//! them answers.
//!
//! The file `updater.json` of the channel comes first, then the releases on
//! GitHub, and for the stable channel the file `package.json` from two places.

use vstd::prelude::*;

use crate::settings::{channel_text, UpdateChannel, CURRENT_VERSION};
use crate::status::{status_display, HttpStatus};
use crate::text::{
    ascii_lower_all, eq_ignore_ascii_case, join2, join3, join4, opt_str_text, opt_text,
    result_text,
};
use crate::update_info::{
    info_from_package_json, info_from_release, info_from_updater_json, package_info, release_info,
    updater_info, GitHubRelease, GitHubReleaseAsset, PackageJson, Timestamp, UpdateInfo,
    UpdateInfoModel, UpdaterJson,
};
use crate::version::{newer, version_of};

verus! {

// ----- Sources -----

/// The latest release.
pub const GITHUB_API_URL: &'static str =
    "https://api.github.com/repos/lbjlaq/Antigravity-Manager/releases/latest";

/// The last releases, pre-releases among them.
pub const GITHUB_RELEASES_API_URL: &'static str =
    "https://api.github.com/repos/lbjlaq/Antigravity-Manager/releases?per_page=15";

/// The file `package.json` of the main branch.
pub const GITHUB_RAW_URL: &'static str =
    "https://raw.githubusercontent.com/lbjlaq/Antigravity-Manager/main/package.json";

/// The same file, from a mirror.
pub const JSDELIVR_URL: &'static str =
    "https://cdn.jsdelivr.net/gh/lbjlaq/Antigravity-Manager@main/package.json";

/// How update checks show themselves.
pub const CHECK_USER_AGENT: &'static str = "Antigravity-Manager";

/// How long a request of an update check may take, in seconds.
pub const CHECK_TIMEOUT_SECS: u64 = 10;

/// What came of fetching a document. Each failure carries its own words.
pub enum Fetched<T> {
    /// No HTTP client could be built.
    NoClient(String),
    /// The network failed.
    NotSent(String),
    /// The answer was not success.
    Rejected(HttpStatus),
    /// The answer was success: the document, or why it could not be parsed.
    Body(Result<T, String>),
}

/// What came of fetching a document whatever the status of the answer.
pub enum FetchedAnyway<T> {
    /// The network failed.
    NotSent(String),
    /// The document, or why it could not be parsed.
    Body(Result<T, String>),
}

/// How a client that could not be built is reported.
pub open spec fn client_failure(error: Seq<char>) -> Seq<char> {
    "Failed to create HTTP client: "@ + error
}

/// What a source said: its finding, or why it failed.
pub open spec fn finding(r: Result<UpdateInfo, String>) -> Result<UpdateInfoModel, Seq<char>> {
    match r {
        Ok(info) => Ok(info@),
        Err(e) => Err(e@),
    }
}

// ----- updater.json -----

/// What an answer to the request for `updater.json` leads to.
pub enum UpdaterOutcome {
    /// The source is done.
    Finished(Result<UpdateInfo, String>),
    /// The file was not there: look for it among the files of the pre-releases.
    /// If it is not there either, this is why the source failed.
    LookInPrereleases(String),
}

/// What an answer to the request for `updater.json` leads to.
pub enum UpdaterOutcomeModel {
    Finished(Result<UpdateInfoModel, Seq<char>>),
    LookInPrereleases(Seq<char>),
}

impl View for UpdaterOutcome {
    type V = UpdaterOutcomeModel;

    open spec fn view(&self) -> UpdaterOutcomeModel {
        match self {
            UpdaterOutcome::Finished(r) => UpdaterOutcomeModel::Finished(finding(*r)),
            UpdaterOutcome::LookInPrereleases(e) => UpdaterOutcomeModel::LookInPrereleases(e@),
        }
    }
}

/// What a parsed `updater.json` says, or why it could not be parsed.
pub open spec fn parsed_updater_json(
    channel: UpdateChannel,
    doc: Result<UpdaterJson, String>,
    now: (i64, u32),
) -> Result<UpdateInfoModel, Seq<char>> {
    match doc {
        Ok(d) => Ok(updater_info(channel, d, CURRENT_VERSION@, now)),
        Err(e) => Err("Failed to parse updater.json: "@ + e@),
    }
}

/// A file that is not there: the beta channel looks on, the stable one fails.
pub open spec fn missing_updater_json(
    channel: UpdateChannel,
    why: Seq<char>,
) -> UpdaterOutcomeModel {
    match channel {
        UpdateChannel::Beta => UpdaterOutcomeModel::LookInPrereleases(
            "updater.json returned "@ + why,
        ),
        UpdateChannel::Stable => UpdaterOutcomeModel::Finished(
            Err("updater.json returned "@ + why),
        ),
    }
}

/// What an answer to the request for `updater.json` leads to.
pub open spec fn updater_outcome(
    channel: UpdateChannel,
    fetched: Fetched<UpdaterJson>,
    now: (i64, u32),
) -> UpdaterOutcomeModel {
    match fetched {
        Fetched::NoClient(e) => UpdaterOutcomeModel::Finished(Err(client_failure(e@))),
        Fetched::NotSent(e) => missing_updater_json(channel, e@),
        Fetched::Rejected(status) => missing_updater_json(
            channel,
            "status "@ + status_display(status@),
        ),
        Fetched::Body(doc) => UpdaterOutcomeModel::Finished(
            parsed_updater_json(channel, doc, now),
        ),
    }
}

fn read_updater_json(
    channel: UpdateChannel,
    doc: Result<UpdaterJson, String>,
    now: &Timestamp,
) -> (r: Result<UpdateInfo, String>)
    ensures
        finding(r) == parsed_updater_json(channel, doc, now@),
{
    match doc {
        Ok(d) => Ok(info_from_updater_json(channel, d, CURRENT_VERSION, now)),
        Err(e) => Err(join2("Failed to parse updater.json: ", e.as_str())),
    }
}

fn no_updater_json(channel: UpdateChannel, why: &str) -> (r: UpdaterOutcome)
    ensures
        r@ == missing_updater_json(channel, why@),
{
    let message = join2("updater.json returned ", why);
    match channel {
        UpdateChannel::Beta => UpdaterOutcome::LookInPrereleases(message),
        UpdateChannel::Stable => UpdaterOutcome::Finished(Err(message)),
    }
}

/// What the answer to the request for a channel's `updater.json` leads to.
pub fn check_updater_json_channel(
    channel: UpdateChannel,
    fetched: Fetched<UpdaterJson>,
    now: &Timestamp,
) -> (r: UpdaterOutcome)
    ensures
        r@ == updater_outcome(channel, fetched, now@),
{
    match fetched {
        Fetched::NoClient(e) => UpdaterOutcome::Finished(
            Err(join2("Failed to create HTTP client: ", e.as_str())),
        ),
        Fetched::NotSent(e) => no_updater_json(channel, e.as_str()),
        Fetched::Rejected(status) => {
            let why = join2("status ", status.text().as_str());
            no_updater_json(channel, why.as_str())
        },
        Fetched::Body(doc) => UpdaterOutcome::Finished(read_updater_json(channel, doc, now)),
    }
}

/// A file called `updater.json`, in whatever case.
pub open spec fn is_updater_asset(asset: GitHubReleaseAsset) -> bool {
    ascii_lower_all(asset.name@) == ascii_lower_all("updater.json"@)
}

/// The address of the first `updater.json` among files.
pub open spec fn first_updater_asset(assets: Seq<GitHubReleaseAsset>) -> Option<Seq<char>>
    decreases assets.len(),
{
    if assets.len() == 0 {
        None
    } else if is_updater_asset(assets[0]) {
        Some(assets[0].browser_download_url@)
    } else {
        first_updater_asset(assets.drop_first())
    }
}

/// The address of the `updater.json` of the first pre-release that has one.
pub open spec fn first_prerelease_asset(releases: Seq<GitHubRelease>) -> Option<Seq<char>>
    decreases releases.len(),
{
    if releases.len() == 0 {
        None
    } else if releases[0].prerelease && first_updater_asset(releases[0].assets@) is Some {
        first_updater_asset(releases[0].assets@)
    } else {
        first_prerelease_asset(releases.drop_first())
    }
}

fn find_updater_asset<'a>(assets: &'a Vec<GitHubReleaseAsset>) -> (r: Option<&'a str>)
    ensures
        opt_str_text(r) == first_updater_asset(assets@),
{
    let mut i: usize = 0;
    assert(assets@.skip(0) =~= assets@);
    while i < assets.len()
        invariant
            i <= assets.len(),
            first_updater_asset(assets@) == first_updater_asset(assets@.skip(i as int)),
        decreases assets.len() - i,
    {
        if eq_ignore_ascii_case(assets[i].name.as_str(), "updater.json") {
            return Some(assets[i].browser_download_url.as_str());
        }
        assert(assets@.skip(i as int).drop_first() =~= assets@.skip(i + 1));
        i = i + 1;
    }
    None
}

/// The address of the `updater.json` of the newest pre-release that has one.
pub open spec fn prerelease_updater_json_url(
    fetched: Fetched<Vec<GitHubRelease>>,
) -> Result<Seq<char>, Seq<char>> {
    match fetched {
        Fetched::NoClient(e) => Err(client_failure(e@)),
        Fetched::NotSent(e) => Err("Failed to query releases: "@ + e@),
        Fetched::Rejected(status) => Err(
            "Releases API returned status "@ + status_display(status@),
        ),
        Fetched::Body(Err(e)) => Err("Failed to parse releases: "@ + e@),
        Fetched::Body(Ok(releases)) => match first_prerelease_asset(releases@) {
            Some(url) => Ok(url),
            None => Err("No updater.json found in latest pre-releases"@),
        },
    }
}

/// The address of the `updater.json` of the newest pre-release that has one.
pub fn fetch_prerelease_updater_json_url(fetched: Fetched<Vec<GitHubRelease>>) -> (r: Result<
    String,
    String,
>)
    ensures
        result_text(r) == prerelease_updater_json_url(fetched),
{
    match fetched {
        Fetched::NoClient(e) => Err(join2("Failed to create HTTP client: ", e.as_str())),
        Fetched::NotSent(e) => Err(join2("Failed to query releases: ", e.as_str())),
        Fetched::Rejected(status) => Err(
            join2("Releases API returned status ", status.text().as_str()),
        ),
        Fetched::Body(Err(e)) => Err(join2("Failed to parse releases: ", e.as_str())),
        Fetched::Body(Ok(releases)) => {
            let mut i: usize = 0;
            assert(releases@.skip(0) =~= releases@);
            while i < releases.len()
                invariant
                    i <= releases.len(),
                    first_prerelease_asset(releases@) == first_prerelease_asset(
                        releases@.skip(i as int),
                    ),
                    fetched == Fetched::Body(Ok::<Vec<GitHubRelease>, String>(releases)),
                decreases releases.len() - i,
            {
                if releases[i].prerelease {
                    if let Some(url) = find_updater_asset(&releases[i].assets) {
                        return Ok(url.to_string());
                    }
                }
                assert(releases@.skip(i as int).drop_first() =~= releases@.skip(i + 1));
                i = i + 1;
            }
            Err("No updater.json found in latest pre-releases".to_string())
        },
    }
}

/// What the `updater.json` of a pre-release says, whatever status it came with.
pub open spec fn asset_finding(
    channel: UpdateChannel,
    fetched: FetchedAnyway<UpdaterJson>,
    now: (i64, u32),
) -> Result<UpdateInfoModel, Seq<char>> {
    match fetched {
        FetchedAnyway::NotSent(e) => Err("Request failed: "@ + e@),
        FetchedAnyway::Body(doc) => parsed_updater_json(channel, doc, now),
    }
}

/// What the `updater.json` of a pre-release says.
pub fn check_prerelease_updater_json(
    channel: UpdateChannel,
    fetched: FetchedAnyway<UpdaterJson>,
    now: &Timestamp,
) -> (r: Result<UpdateInfo, String>)
    ensures
        finding(r) == asset_finding(channel, fetched, now@),
{
    match fetched {
        FetchedAnyway::NotSent(e) => Err(join2("Request failed: ", e.as_str())),
        FetchedAnyway::Body(doc) => read_updater_json(channel, doc, now),
    }
}

// ----- GitHub API -----

/// What came of asking GitHub: the stable channel asks for the latest release,
/// the beta channel for the list of releases.
pub enum ApiFetched {
    Latest(Fetched<GitHubRelease>),
    List(Fetched<Vec<GitHubRelease>>),
}

/// What a channel asks GitHub for.
pub fn api_address(channel: UpdateChannel) -> (r: &'static str)
    ensures
        r@ == match channel {
            UpdateChannel::Stable => GITHUB_API_URL@,
            UpdateChannel::Beta => GITHUB_RELEASES_API_URL@,
        },
{
    match channel {
        UpdateChannel::Stable => GITHUB_API_URL,
        UpdateChannel::Beta => GITHUB_RELEASES_API_URL,
    }
}

/// The channel that asked.
pub open spec fn api_channel(fetched: ApiFetched) -> UpdateChannel {
    match fetched {
        ApiFetched::Latest(_) => UpdateChannel::Stable,
        ApiFetched::List(_) => UpdateChannel::Beta,
    }
}

/// The first pre-release of a list.
pub open spec fn first_prerelease(releases: Seq<GitHubRelease>) -> Option<GitHubRelease>
    decreases releases.len(),
{
    if releases.len() == 0 {
        None
    } else if releases[0].prerelease {
        Some(releases[0])
    } else {
        first_prerelease(releases.drop_first())
    }
}

/// The document that was fetched, or why there is none.
pub open spec fn api_document<T>(
    fetched: Fetched<T>,
    parse_failure: Seq<char>,
) -> Result<T, Seq<char>> {
    match fetched {
        Fetched::NoClient(e) => Err(client_failure(e@)),
        Fetched::NotSent(e) => Err("Request failed: "@ + e@),
        Fetched::Rejected(status) => Err(
            "GitHub API returned status: "@ + status_display(status@),
        ),
        Fetched::Body(Err(e)) => Err(parse_failure + e@),
        Fetched::Body(Ok(doc)) => Ok(doc),
    }
}

/// What GitHub says of a channel.
pub open spec fn api_finding(fetched: ApiFetched, now: (i64, u32)) -> Result<
    UpdateInfoModel,
    Seq<char>,
> {
    match fetched {
        ApiFetched::Latest(f) => match api_document(f, "Failed to parse release info: "@) {
            Ok(release) => Ok(release_info(UpdateChannel::Stable, release, CURRENT_VERSION@, now)),
            Err(e) => Err(e),
        },
        ApiFetched::List(f) => match api_document(f, "Failed to parse releases: "@) {
            Ok(releases) => match first_prerelease(releases@) {
                Some(release) => Ok(
                    release_info(UpdateChannel::Beta, release, CURRENT_VERSION@, now),
                ),
                None => Err("No pre-release found on GitHub"@),
            },
            Err(e) => Err(e),
        },
    }
}

fn read_api<T>(fetched: Fetched<T>, parse_failure: &str) -> (r: Result<T, String>)
    ensures
        match r {
            Ok(doc) => api_document(fetched, parse_failure@) == Ok::<T, Seq<char>>(doc),
            Err(e) => api_document(fetched, parse_failure@) == Err::<T, Seq<char>>(e@),
        },
{
    match fetched {
        Fetched::NoClient(e) => Err(join2("Failed to create HTTP client: ", e.as_str())),
        Fetched::NotSent(e) => Err(join2("Request failed: ", e.as_str())),
        Fetched::Rejected(status) => Err(
            join2("GitHub API returned status: ", status.text().as_str()),
        ),
        Fetched::Body(Err(e)) => Err(join2(parse_failure, e.as_str())),
        Fetched::Body(Ok(doc)) => Ok(doc),
    }
}

fn take_prerelease(list: Vec<GitHubRelease>) -> (r: Option<GitHubRelease>)
    ensures
        r == first_prerelease(list@),
{
    let mut i: usize = 0;
    assert(list@.skip(0) =~= list@);
    while i < list.len()
        invariant
            i <= list.len(),
            first_prerelease(list@) == first_prerelease(list@.skip(i as int)),
        decreases list.len() - i,
    {
        if list[i].prerelease {
            let mut rest = list;
            return Some(rest.swap_remove(i));
        }
        assert(list@.skip(i as int).drop_first() =~= list@.skip(i + 1));
        i = i + 1;
    }
    None
}

/// What GitHub says of a channel: its latest release, or its newest pre-release.
pub fn check_github_api_channel(fetched: ApiFetched, now: &Timestamp) -> (r: Result<
    UpdateInfo,
    String,
>)
    ensures
        finding(r) == api_finding(fetched, now@),
{
    match fetched {
        ApiFetched::Latest(f) => match read_api(f, "Failed to parse release info: ") {
            Ok(release) => Ok(
                info_from_release(UpdateChannel::Stable, release, CURRENT_VERSION, now),
            ),
            Err(e) => Err(e),
        },
        ApiFetched::List(f) => match read_api(f, "Failed to parse releases: ") {
            Ok(releases) => match take_prerelease(releases) {
                Some(release) => Ok(
                    info_from_release(UpdateChannel::Beta, release, CURRENT_VERSION, now),
                ),
                None => Err("No pre-release found on GitHub".to_string()),
            },
            Err(e) => Err(e),
        },
    }
}

// ----- package.json -----

/// The two places of the file `package.json`.
#[derive(Debug, Clone, Copy, PartialEq, Eq, Structural)]
pub enum PackageSource {
    GitHubRaw,
    JsDelivr,
}

/// How a place is called.
pub open spec fn source_text(source: PackageSource) -> Seq<char> {
    match source {
        PackageSource::GitHubRaw => "GitHub Raw"@,
        PackageSource::JsDelivr => "jsDelivr"@,
    }
}

impl PackageSource {
    /// How the place is called.
    pub fn name(&self) -> (r: &'static str)
        ensures
            r@ == source_text(*self),
    {
        match self {
            PackageSource::GitHubRaw => "GitHub Raw",
            PackageSource::JsDelivr => "jsDelivr",
        }
    }

    /// The address of the file.
    pub fn url(&self) -> (r: &'static str)
        ensures
            r@ == match self {
                PackageSource::GitHubRaw => GITHUB_RAW_URL@,
                PackageSource::JsDelivr => JSDELIVR_URL@,
            },
    {
        match self {
            PackageSource::GitHubRaw => GITHUB_RAW_URL,
            PackageSource::JsDelivr => JSDELIVR_URL,
        }
    }
}

/// What the file `package.json` says.
pub open spec fn package_finding(
    source_name: Seq<char>,
    fetched: Fetched<PackageJson>,
    now: (i64, u32),
) -> Result<UpdateInfoModel, Seq<char>> {
    match fetched {
        Fetched::NoClient(e) => Err(client_failure(e@)),
        Fetched::NotSent(e) => Err("Request failed: "@ + e@),
        Fetched::Rejected(status) => Err(
            source_name + " returned status: "@ + status_display(status@),
        ),
        Fetched::Body(Err(e)) => Err("Failed to parse package.json: "@ + e@),
        Fetched::Body(Ok(doc)) => Ok(package_info(source_name, doc, CURRENT_VERSION@, now)),
    }
}

/// What the file `package.json` says.
pub fn check_static_url(source_name: &str, fetched: Fetched<PackageJson>, now: &Timestamp) -> (r:
    Result<UpdateInfo, String>)
    ensures
        finding(r) == package_finding(source_name@, fetched, now@),
{
    match fetched {
        Fetched::NoClient(e) => Err(join2("Failed to create HTTP client: ", e.as_str())),
        Fetched::NotSent(e) => Err(join2("Request failed: ", e.as_str())),
        Fetched::Rejected(status) => Err(
            join3(source_name, " returned status: ", status.text().as_str()),
        ),
        Fetched::Body(Err(e)) => Err(join2("Failed to parse package.json: ", e.as_str())),
        Fetched::Body(Ok(doc)) => Ok(info_from_package_json(source_name, doc, CURRENT_VERSION, now)),
    }
}

// ----- The course of a check -----

/// What an update check wants next.
pub enum CheckStep {
    /// Fetch the `updater.json` of the channel.
    Updater(UpdateChannel),
    /// Fetch the list of releases, to look for an `updater.json`. The text is
    /// why the source fails if there is none.
    PrereleaseAssets(String),
    /// Fetch the `updater.json` at this address, whatever its status.
    Asset(String),
    /// Fetch from GitHub what the channel asks for.
    Api(UpdateChannel),
    /// Fetch the `package.json` from this place.
    Package(PackageSource),
    /// The check is over.
    Done(Result<UpdateInfo, String>),
}

/// What an update check wants next.
pub enum CheckModel {
    Updater(UpdateChannel),
    PrereleaseAssets(Seq<char>),
    Asset(Seq<char>),
    Api(UpdateChannel),
    Package(PackageSource),
    Done(Result<UpdateInfoModel, Seq<char>>),
}

impl View for CheckStep {
    type V = CheckModel;

    open spec fn view(&self) -> CheckModel {
        match self {
            CheckStep::Updater(channel) => CheckModel::Updater(*channel),
            CheckStep::PrereleaseAssets(why) => CheckModel::PrereleaseAssets(why@),
            CheckStep::Asset(url) => CheckModel::Asset(url@),
            CheckStep::Api(channel) => CheckModel::Api(*channel),
            CheckStep::Package(source) => CheckModel::Package(*source),
            CheckStep::Done(r) => CheckModel::Done(finding(*r)),
        }
    }
}

/// What comes next, and what is to be logged of the source that failed.
pub struct CheckNext {
    pub step: CheckStep,
    pub warning: Option<String>,
}

/// What comes next, and what is to be logged.
pub struct NextModel {
    pub step: CheckModel,
    pub warning: Option<Seq<char>>,
}

impl View for CheckNext {
    type V = NextModel;

    open spec fn view(&self) -> NextModel {
        NextModel { step: self.step@, warning: opt_text(self.warning) }
    }
}

/// How many stages a check has before it at most. Every step leaves fewer, so
/// that a check comes to its end and no source is asked twice.
pub open spec fn stages_left(step: CheckModel) -> nat {
    match step {
        CheckModel::Updater(_) => 6,
        CheckModel::PrereleaseAssets(_) => 5,
        CheckModel::Asset(_) => 4,
        CheckModel::Api(_) => 3,
        CheckModel::Package(PackageSource::GitHubRaw) => 2,
        CheckModel::Package(PackageSource::JsDelivr) => 1,
        CheckModel::Done(_) => 0,
    }
}

/// How a check is reported that no source answered.
pub open spec fn all_failed(channel: UpdateChannel) -> Seq<char> {
    "Failed to fetch updates for "@ + channel_text(channel)
        + " channel. Please check network/proxy settings."@
}

/// After `updater.json`: its finding, or on to GitHub.
pub open spec fn after_updater(
    channel: UpdateChannel,
    r: Result<UpdateInfoModel, Seq<char>>,
) -> NextModel {
    match r {
        Ok(_) => NextModel { step: CheckModel::Done(r), warning: None },
        Err(e) => NextModel {
            step: CheckModel::Api(channel),
            warning: Some(
                channel_text(channel) + " updater.json check failed: "@ + e
                    + ". Trying fallbacks..."@,
            ),
        },
    }
}

/// After the request for `updater.json`: the source is done, or the list of
/// releases comes next.
pub open spec fn after_updater_json(
    channel: UpdateChannel,
    outcome: UpdaterOutcomeModel,
) -> NextModel {
    match outcome {
        UpdaterOutcomeModel::Finished(found) => after_updater(channel, found),
        UpdaterOutcomeModel::LookInPrereleases(why) => NextModel {
            step: CheckModel::PrereleaseAssets(why),
            warning: None,
        },
    }
}

/// After the list of releases: the file of a pre-release comes next; where there
/// is none, the source has failed for the reason known before.
pub open spec fn after_assets(why: Seq<char>, url: Result<Seq<char>, Seq<char>>) -> NextModel {
    match url {
        Ok(url) => NextModel { step: CheckModel::Asset(url), warning: None },
        Err(_) => after_updater(UpdateChannel::Beta, Err(why)),
    }
}

/// After GitHub: its finding, or on to `package.json`, which knows only the
/// stable channel.
pub open spec fn after_api(
    channel: UpdateChannel,
    r: Result<UpdateInfoModel, Seq<char>>,
) -> NextModel {
    match r {
        Ok(_) => NextModel { step: CheckModel::Done(r), warning: None },
        Err(e) => NextModel {
            step: match channel {
                UpdateChannel::Stable => CheckModel::Package(PackageSource::GitHubRaw),
                UpdateChannel::Beta => CheckModel::Done(Err(all_failed(channel))),
            },
            warning: Some(
                "GitHub API ("@ + channel_text(channel) + ") check failed: "@ + e
                    + ". Trying static fallbacks..."@,
            ),
        },
    }
}

/// After a `package.json`: its finding, or the other place, or the end.
pub open spec fn after_package(
    source: PackageSource,
    r: Result<UpdateInfoModel, Seq<char>>,
) -> NextModel {
    match r {
        Ok(_) => NextModel { step: CheckModel::Done(r), warning: None },
        Err(_) => NextModel {
            step: match source {
                PackageSource::GitHubRaw => CheckModel::Package(PackageSource::JsDelivr),
                PackageSource::JsDelivr => CheckModel::Done(
                    Err(all_failed(UpdateChannel::Stable)),
                ),
            },
            warning: None,
        },
    }
}

fn updater_done(channel: UpdateChannel, r: Result<UpdateInfo, String>) -> (next: CheckNext)
    ensures
        next@ == after_updater(channel, finding(r)),
{
    match r {
        Ok(info) => CheckNext { step: CheckStep::Done(Ok(info)), warning: None },
        Err(e) => {
            let warning = join4(
                channel.name(),
                " updater.json check failed: ",
                e.as_str(),
                ". Trying fallbacks...",
            );
            CheckNext { step: CheckStep::Api(channel), warning: Some(warning) }
        },
    }
}

/// Where a check starts.
pub fn check_for_updates_internal(channel: UpdateChannel) -> (r: CheckStep)
    ensures
        r@ == CheckModel::Updater(channel),
{
    CheckStep::Updater(channel)
}

/// After the `updater.json` of the channel was fetched.
pub fn on_updater_json(
    channel: UpdateChannel,
    fetched: Fetched<UpdaterJson>,
    now: &Timestamp,
) -> (r: CheckNext)
    ensures
        r@ == after_updater_json(channel, updater_outcome(channel, fetched, now@)),
        stages_left(r@.step) < stages_left(CheckModel::Updater(channel)),
{
    match check_updater_json_channel(channel, fetched, now) {
        UpdaterOutcome::Finished(found) => updater_done(channel, found),
        UpdaterOutcome::LookInPrereleases(why) => CheckNext {
            step: CheckStep::PrereleaseAssets(why),
            warning: None,
        },
    }
}

/// After the list of releases was fetched to look for an `updater.json`.
pub fn on_prerelease_assets(why: String, fetched: Fetched<Vec<GitHubRelease>>) -> (r: CheckNext)
    ensures
        r@ == after_assets(why@, prerelease_updater_json_url(fetched)),
        stages_left(r@.step) < stages_left(CheckModel::PrereleaseAssets(why@)),
{
    match fetch_prerelease_updater_json_url(fetched) {
        Ok(url) => CheckNext { step: CheckStep::Asset(url), warning: None },
        Err(_) => updater_done(UpdateChannel::Beta, Err(why)),
    }
}

/// After the `updater.json` of a pre-release was fetched.
pub fn on_asset(fetched: FetchedAnyway<UpdaterJson>, now: &Timestamp) -> (r: CheckNext)
    ensures
        r@ == after_updater(
            UpdateChannel::Beta,
            asset_finding(UpdateChannel::Beta, fetched, now@),
        ),
        stages_left(r@.step) <= stages_left(CheckModel::Api(UpdateChannel::Beta)),
{
    updater_done(
        UpdateChannel::Beta,
        check_prerelease_updater_json(UpdateChannel::Beta, fetched, now),
    )
}

/// After GitHub was asked.
pub fn on_api(fetched: ApiFetched, now: &Timestamp) -> (r: CheckNext)
    ensures
        r@ == after_api(api_channel(fetched), api_finding(fetched, now@)),
        stages_left(r@.step) < stages_left(CheckModel::Api(api_channel(fetched))),
{
    let channel = match &fetched {
        ApiFetched::Latest(_) => UpdateChannel::Stable,
        ApiFetched::List(_) => UpdateChannel::Beta,
    };
    match check_github_api_channel(fetched, now) {
        Ok(info) => CheckNext { step: CheckStep::Done(Ok(info)), warning: None },
        Err(e) => {
            let mut warning = join4(
                "GitHub API (",
                channel.name(),
                ") check failed: ",
                e.as_str(),
            );
            warning.append(". Trying static fallbacks...");
            let step = match channel {
                UpdateChannel::Stable => CheckStep::Package(PackageSource::GitHubRaw),
                UpdateChannel::Beta => CheckStep::Done(Err(no_source_answered(channel))),
            };
            CheckNext { step, warning: Some(warning) }
        },
    }
}

fn no_source_answered(channel: UpdateChannel) -> (r: String)
    ensures
        r@ == all_failed(channel),
{
    join3(
        "Failed to fetch updates for ",
        channel.name(),
        " channel. Please check network/proxy settings.",
    )
}

/// After a `package.json` was fetched.
pub fn on_package_json(source: PackageSource, fetched: Fetched<PackageJson>, now: &Timestamp) -> (r:
    CheckNext)
    ensures
        r@ == after_package(source, package_finding(source_text(source), fetched, now@)),
        stages_left(r@.step) < stages_left(CheckModel::Package(source)),
{
    let step = match check_static_url(source.name(), fetched, now) {
        Ok(info) => CheckStep::Done(Ok(info)),
        Err(_) => match source {
            PackageSource::GitHubRaw => CheckStep::Package(PackageSource::JsDelivr),
            PackageSource::JsDelivr => CheckStep::Done(
                Err(no_source_answered(UpdateChannel::Stable)),
            ),
        },
    };
    CheckNext { step, warning: None }
}

/// The result of a check, with the proxy in use and the channel of the settings
/// noted in it.
pub fn check_for_updates(
    result: Result<UpdateInfo, String>,
    channel: UpdateChannel,
    proxy_url: Option<String>,
) -> (r: Result<UpdateInfo, String>)
    ensures
        finding(r) == match finding(result) {
            Ok(info) => Ok(
                UpdateInfoModel { proxy_url: opt_text(proxy_url), channel: Some(channel), ..info },
            ),
            Err(e) => Err(e),
        },
{
    match result {
        Ok(info) => {
            let mut info = info;
            info.proxy_url = proxy_url;
            info.channel = Some(channel);
            Ok(info)
        },
        Err(e) => Err(e),
    }
}

// ----- Laws -----

/// What the places that a check may ask would say.
pub struct SourcesModel {
    /// What the answer to the request for `updater.json` leads to.
    pub updater: UpdaterOutcomeModel,
    /// The address of the `updater.json` of a pre-release.
    pub assets: Result<Seq<char>, Seq<char>>,
    /// What the file at that address says.
    pub asset: Result<UpdateInfoModel, Seq<char>>,
    /// What GitHub says.
    pub api: Result<UpdateInfoModel, Seq<char>>,
    /// What the two places of `package.json` say.
    pub raw: Result<UpdateInfoModel, Seq<char>>,
    pub mirror: Result<UpdateInfoModel, Seq<char>>,
}

/// What the source `updater.json` finds: what the file of the channel says; where it
/// is not there and a pre-release has one, what that says; where none has one, why
/// the first was not there.
pub open spec fn updater_finding(s: SourcesModel) -> Result<UpdateInfoModel, Seq<char>> {
    match s.updater {
        UpdaterOutcomeModel::Finished(found) => found,
        UpdaterOutcomeModel::LookInPrereleases(why) => match s.assets {
            Ok(_) => s.asset,
            Err(_) => Err(why),
        },
    }
}

/// What a check ends with: what the first of its sources finds, in the order
/// `updater.json`, GitHub and, for the stable channel alone, the two places of
/// `package.json`.
pub open spec fn check_result(channel: UpdateChannel, s: SourcesModel) -> Result<
    UpdateInfoModel,
    Seq<char>,
> {
    if updater_finding(s) is Ok {
        updater_finding(s)
    } else if s.api is Ok {
        s.api
    } else if channel == UpdateChannel::Stable && s.raw is Ok {
        s.raw
    } else if channel == UpdateChannel::Stable && s.mirror is Ok {
        s.mirror
    } else {
        Err(all_failed(channel))
    }
}

/// The course of a check from a step on, to its end.
pub open spec fn run_check(step: CheckModel, s: SourcesModel) -> CheckModel
    decreases stages_left(step),
{
    match step {
        CheckModel::Updater(channel) => run_check(after_updater_json(channel, s.updater).step, s),
        CheckModel::PrereleaseAssets(why) => run_check(after_assets(why, s.assets).step, s),
        CheckModel::Asset(_) => run_check(after_updater(UpdateChannel::Beta, s.asset).step, s),
        CheckModel::Api(channel) => run_check(after_api(channel, s.api).step, s),
        CheckModel::Package(PackageSource::GitHubRaw) => run_check(
            after_package(PackageSource::GitHubRaw, s.raw).step,
            s,
        ),
        CheckModel::Package(PackageSource::JsDelivr) => run_check(
            after_package(PackageSource::JsDelivr, s.mirror).step,
            s,
        ),
        CheckModel::Done(_) => step,
    }
}

/// From its start on, a check comes to an end, and the first source that finds
/// something decides; it fails only when all sources of its channel have failed.
/// Only the beta channel looks among the files of pre-releases, as
/// [`law_stable_skips_prereleases`] says.
pub proof fn law_first_finding_wins(channel: UpdateChannel, s: SourcesModel)
    requires
        s.updater is LookInPrereleases ==> channel == UpdateChannel::Beta,
    ensures
        run_check(CheckModel::Updater(channel), s) == CheckModel::Done(check_result(channel, s)),
{
    reveal_with_fuel(run_check, 7);
}

/// The stable channel does not look among the files of pre-releases.
pub proof fn law_stable_skips_prereleases(fetched: Fetched<UpdaterJson>, now: (i64, u32))
    ensures
        updater_outcome(UpdateChannel::Stable, fetched, now) is Finished,
{
}

/// The beta channel never takes the version of the main branch for its own.
pub proof fn law_beta_skips_package_json(
    found: Result<UpdateInfoModel, Seq<char>>,
    api: Result<UpdateInfoModel, Seq<char>>,
)
    ensures
        !(after_updater(UpdateChannel::Beta, found).step is Package),
        !(after_api(UpdateChannel::Beta, api).step is Package),
{
}

// ----- The steps of a check -----

/// A file `updater.json` that was fetched and read ends the check with what it says to
/// this program, on both channels.
pub proof fn law_updater_json_is_the_answer(
    channel: UpdateChannel,
    doc: UpdaterJson,
    now: &Timestamp,
    r: CheckNext,
    info: UpdateInfo,
)
    requires
        call_ensures(on_updater_json, (channel, Fetched::Body(Ok::<UpdaterJson, String>(doc)), now), r),
        call_ensures(info_from_updater_json, (channel, doc, CURRENT_VERSION, now), info),
    ensures
        r.warning is None,
        r.step matches CheckStep::Done(Ok(found)) && {
            &&& found@ == info@
            &&& found.current_version@ == CURRENT_VERSION@
            &&& found.has_update <==> newer(version_of(found.latest_version@), version_of(CURRENT_VERSION@))
        },
{
    assert(opt_text(r.warning) is None);
    if let CheckStep::Done(Ok(found)) = r.step {
        assert(found@ == updater_info(channel, doc, CURRENT_VERSION@, now@));
        assert(found@.has_update == found.has_update);
        assert(found@.latest_version == found.latest_version@);
        assert(found@.current_version == found.current_version@);
    }
}

/// Where the file `updater.json` cannot be read or no client can be built, GitHub comes
/// next, and the reason is logged.
pub proof fn law_unreadable_updater_json(
    channel: UpdateChannel,
    error: String,
    now: &Timestamp,
    unread: CheckNext,
    unbuilt: CheckNext,
)
    requires
        call_ensures(
            on_updater_json,
            (channel, Fetched::Body(Err::<UpdaterJson, String>(error)), now),
            unread,
        ),
        call_ensures(
            on_updater_json,
            (channel, Fetched::<UpdaterJson>::NoClient(error), now),
            unbuilt,
        ),
    ensures
        unread.step matches CheckStep::Api(c) && c == channel,
        opt_text(unread.warning) == Some(
            channel_text(channel) + " updater.json check failed: "@
                + ("Failed to parse updater.json: "@ + error@) + ". Trying fallbacks..."@,
        ),
        unbuilt.step matches CheckStep::Api(c) && c == channel,
        opt_text(unbuilt.warning) == Some(
            channel_text(channel) + " updater.json check failed: "@
                + ("Failed to create HTTP client: "@ + error@) + ". Trying fallbacks..."@,
        ),
{
}

/// Where the file `updater.json` is not there, because the network failed or another
/// status than success came back, the stable channel goes on to GitHub and the beta
/// channel looks among the files of the releases. What is logged, now or later, is why.
pub proof fn law_missing_updater_json(
    channel: UpdateChannel,
    error: String,
    status: HttpStatus,
    now: &Timestamp,
    unsent: CheckNext,
    rejected: CheckNext,
)
    requires
        call_ensures(
            on_updater_json,
            (channel, Fetched::<UpdaterJson>::NotSent(error), now),
            unsent,
        ),
        call_ensures(
            on_updater_json,
            (channel, Fetched::<UpdaterJson>::Rejected(status), now),
            rejected,
        ),
    ensures
        channel == UpdateChannel::Stable ==> {
            &&& unsent.step matches CheckStep::Api(c) && c == channel
            &&& opt_text(unsent.warning) == Some(
                "Stable"@ + " updater.json check failed: "@ + ("updater.json returned "@ + error@)
                    + ". Trying fallbacks..."@,
            )
            &&& rejected.step matches CheckStep::Api(c) && c == channel
            &&& opt_text(rejected.warning) == Some(
                "Stable"@ + " updater.json check failed: "@ + ("updater.json returned "@ + (
                "status "@ + status_display(status@))) + ". Trying fallbacks..."@,
            )
        },
        channel == UpdateChannel::Beta ==> {
            &&& unsent.step matches CheckStep::PrereleaseAssets(why) && why@
                == "updater.json returned "@ + error@
            &&& unsent.warning is None
            &&& rejected.step matches CheckStep::PrereleaseAssets(why) && why@
                == "updater.json returned "@ + ("status "@ + status_display(status@))
            &&& rejected.warning is None
        },
{
    if channel == UpdateChannel::Beta {
        assert(opt_text(unsent.warning) is None && opt_text(rejected.warning) is None);
    }
}

proof fn lemma_first_asset(assets: Seq<GitHubReleaseAsset>, k: int)
    requires
        0 <= k <= assets.len(),
        forall|j: int|
            0 <= j < k ==> ascii_lower_all((#[trigger] assets[j]).name@) != "updater.json"@,
        k < assets.len() ==> ascii_lower_all(assets[k].name@) == "updater.json"@,
    ensures
        k < assets.len() ==> first_updater_asset(assets) == Some(assets[k].browser_download_url@),
        k == assets.len() ==> first_updater_asset(assets) is None,
    decreases assets.len(),
{
    reveal_strlit("updater.json");
    assert(ascii_lower_all("updater.json"@) =~= "updater.json"@);
    if k > 0 {
        let rest = assets.drop_first();
        assert(ascii_lower_all(assets[0].name@) != "updater.json"@);
        assert forall|j: int| 0 <= j < k - 1 implies ascii_lower_all((#[trigger] rest[j]).name@)
            != "updater.json"@ by {
            assert(rest[j] == assets[j + 1]);
        }
        if k < assets.len() {
            assert(rest[k - 1] == assets[k]);
        }
        lemma_first_asset(rest, k - 1);
    }
}

/// A release is a pre-release and has a file `updater.json`, in whatever case.
pub open spec fn offers_updater_json(release: GitHubRelease) -> bool {
    release.prerelease && exists|k: int|
        0 <= k < release.assets.len() && ascii_lower_all((#[trigger] release.assets@[k]).name@)
            == "updater.json"@
}

proof fn lemma_has_asset(assets: Seq<GitHubReleaseAsset>)
    ensures
        first_updater_asset(assets) is Some <==> exists|k: int|
            0 <= k < assets.len() && ascii_lower_all((#[trigger] assets[k]).name@)
                == "updater.json"@,
    decreases assets.len(),
{
    reveal_strlit("updater.json");
    assert(ascii_lower_all("updater.json"@) =~= "updater.json"@);
    if assets.len() > 0 {
        let rest = assets.drop_first();
        lemma_has_asset(rest);
        if ascii_lower_all(assets[0].name@) == "updater.json"@ {
            assert(0 <= 0 < assets.len());
        } else {
            if first_updater_asset(rest) is Some {
                let k = choose|k: int|
                    0 <= k < rest.len() && ascii_lower_all((#[trigger] rest[k]).name@)
                        == "updater.json"@;
                assert(rest[k] == assets[k + 1]);
            }
            if exists|k: int|
                0 <= k < assets.len() && ascii_lower_all((#[trigger] assets[k]).name@)
                    == "updater.json"@ {
                let k = choose|k: int|
                    0 <= k < assets.len() && ascii_lower_all((#[trigger] assets[k]).name@)
                        == "updater.json"@;
                assert(rest[k - 1] == assets[k]);
            }
        }
    }
}

proof fn lemma_first_offer(releases: Seq<GitHubRelease>, i: int)
    requires
        0 <= i <= releases.len(),
        forall|j: int| 0 <= j < i ==> !offers_updater_json(#[trigger] releases[j]),
        i < releases.len() ==> offers_updater_json(releases[i]),
    ensures
        i < releases.len() ==> first_prerelease_asset(releases) == first_updater_asset(
            releases[i].assets@,
        ) && first_prerelease_asset(releases) is Some,
        i == releases.len() ==> first_prerelease_asset(releases) is None,
    decreases releases.len(),
{
    if releases.len() > 0 {
        lemma_has_asset(releases[0].assets@);
    }
    if i > 0 {
        let rest = releases.drop_first();
        assert(!offers_updater_json(releases[0]));
        assert forall|j: int| 0 <= j < i - 1 implies !offers_updater_json(
            #[trigger] rest[j],
        ) by {
            assert(rest[j] == releases[j + 1]);
        }
        if i < releases.len() {
            assert(rest[i - 1] == releases[i]);
        }
        lemma_first_offer(rest, i - 1);
    }
}

/// Among the releases, the first pre-release that has a file `updater.json` gives the
/// address, by the first such file; its place is `i`, and `k` that of the file. Where
/// there is none, `i` is the number of releases, and the check goes on to GitHub with
/// the reason known before.
pub proof fn law_first_pre_release_with_the_file(
    why: String,
    releases: Vec<GitHubRelease>,
    i: int,
    k: int,
    r: CheckNext,
)
    requires
        call_ensures(
            on_prerelease_assets,
            (why, Fetched::Body(Ok::<Vec<GitHubRelease>, String>(releases))),
            r,
        ),
        0 <= i <= releases.len(),
        forall|j: int| 0 <= j < i ==> !offers_updater_json(#[trigger] releases@[j]),
        i < releases.len() ==> {
            &&& releases@[i].prerelease
            &&& 0 <= k < releases@[i].assets.len()
            &&& ascii_lower_all(releases@[i].assets@[k].name@) == "updater.json"@
            &&& forall|j: int|
                0 <= j < k ==> ascii_lower_all((#[trigger] releases@[i].assets@[j]).name@)
                    != "updater.json"@
        },
    ensures
        i < releases.len() ==> r.warning is None && (r.step matches CheckStep::Asset(url) && url@
            == releases@[i].assets@[k].browser_download_url@),
        i == releases.len() ==> (r.step matches CheckStep::Api(c) && c == UpdateChannel::Beta)
            && opt_text(r.warning) == Some(
            "Beta"@ + " updater.json check failed: "@ + why@ + ". Trying fallbacks..."@,
        ),
{
    if i < releases.len() {
        assert(offers_updater_json(releases@[i]));
        lemma_first_asset(releases@[i].assets@, k);
    }
    lemma_first_offer(releases@, i);
    if i < releases.len() {
        assert(opt_text(r.warning) is None);
    }
}

/// Where the list of releases cannot be had, the check goes on to GitHub with the reason
/// known before.
pub proof fn law_no_list_of_releases(
    why: String,
    fetched: Fetched<Vec<GitHubRelease>>,
    r: CheckNext,
)
    requires
        call_ensures(on_prerelease_assets, (why, fetched), r),
        !(fetched matches Fetched::Body(Ok(_))),
    ensures
        r.step matches CheckStep::Api(c) && c == UpdateChannel::Beta,
        opt_text(r.warning) == Some(
            "Beta"@ + " updater.json check failed: "@ + why@ + ". Trying fallbacks..."@,
        ),
{
}

/// Why there is no list of releases, in words of its own for each reason.
pub proof fn law_reasons_for_no_list(
    error: String,
    status: HttpStatus,
    unbuilt: Result<String, String>,
    unsent: Result<String, String>,
    rejected: Result<String, String>,
    unread: Result<String, String>,
)
    requires
        call_ensures(
            fetch_prerelease_updater_json_url,
            (Fetched::<Vec<GitHubRelease>>::NoClient(error),),
            unbuilt,
        ),
        call_ensures(
            fetch_prerelease_updater_json_url,
            (Fetched::<Vec<GitHubRelease>>::NotSent(error),),
            unsent,
        ),
        call_ensures(
            fetch_prerelease_updater_json_url,
            (Fetched::<Vec<GitHubRelease>>::Rejected(status),),
            rejected,
        ),
        call_ensures(
            fetch_prerelease_updater_json_url,
            (Fetched::Body(Err::<Vec<GitHubRelease>, String>(error)),),
            unread,
        ),
    ensures
        unbuilt matches Err(e) && e@ == "Failed to create HTTP client: "@ + error@,
        unsent matches Err(e) && e@ == "Failed to query releases: "@ + error@,
        rejected matches Err(e) && e@ == "Releases API returned status "@ + status_display(
            status@,
        ),
        unread matches Err(e) && e@ == "Failed to parse releases: "@ + error@,
{
}

/// A list without such a file is told as that.
pub proof fn law_list_without_the_file(releases: Vec<GitHubRelease>, r: Result<String, String>)
    requires
        call_ensures(
            fetch_prerelease_updater_json_url,
            (Fetched::Body(Ok::<Vec<GitHubRelease>, String>(releases)),),
            r,
        ),
        forall|j: int| 0 <= j < releases.len() ==> !offers_updater_json(#[trigger] releases@[j]),
    ensures
        r matches Err(e) && e@ == "No updater.json found in latest pre-releases"@,
{
    lemma_first_offer(releases@, releases.len() as int);
}

/// The file of a pre-release ends the check with what it says to this program, whatever
/// status it came with. Where it cannot be had or read, GitHub comes next.
pub proof fn law_file_of_a_pre_release(
    doc: UpdaterJson,
    error: String,
    now: &Timestamp,
    read: CheckNext,
    unread: CheckNext,
    unsent: CheckNext,
    info: UpdateInfo,
)
    requires
        call_ensures(on_asset, (FetchedAnyway::Body(Ok::<UpdaterJson, String>(doc)), now), read),
        call_ensures(
            on_asset,
            (FetchedAnyway::Body(Err::<UpdaterJson, String>(error)), now),
            unread,
        ),
        call_ensures(on_asset, (FetchedAnyway::<UpdaterJson>::NotSent(error), now), unsent),
        call_ensures(info_from_updater_json, (UpdateChannel::Beta, doc, CURRENT_VERSION, now), info),
    ensures
        read.warning is None,
        read.step matches CheckStep::Done(Ok(found)) && {
            &&& found@ == info@
            &&& found.has_update <==> newer(version_of(found.latest_version@), version_of(CURRENT_VERSION@))
        },
        unread.step matches CheckStep::Api(c) && c == UpdateChannel::Beta,
        opt_text(unread.warning) == Some(
            "Beta"@ + " updater.json check failed: "@ + ("Failed to parse updater.json: "@
                + error@) + ". Trying fallbacks..."@,
        ),
        unsent.step matches CheckStep::Api(c) && c == UpdateChannel::Beta,
        opt_text(unsent.warning) == Some(
            "Beta"@ + " updater.json check failed: "@ + ("Request failed: "@ + error@)
                + ". Trying fallbacks..."@,
        ),
{
    assert(opt_text(read.warning) is None);
    if let CheckStep::Done(Ok(found)) = read.step {
        assert(found@ == updater_info(UpdateChannel::Beta, doc, CURRENT_VERSION@, now@));
        assert(found@.has_update == found.has_update);
        assert(found@.latest_version == found.latest_version@);
    }
}

/// The latest release on GitHub ends a check of the stable channel with what it says to
/// this program.
pub proof fn law_latest_release_is_the_answer(
    release: GitHubRelease,
    now: &Timestamp,
    r: CheckNext,
    info: UpdateInfo,
)
    requires
        call_ensures(
            on_api,
            (ApiFetched::Latest(Fetched::Body(Ok::<GitHubRelease, String>(release))), now),
            r,
        ),
        call_ensures(info_from_release, (UpdateChannel::Stable, release, CURRENT_VERSION, now), info),
    ensures
        r.warning is None,
        r.step matches CheckStep::Done(Ok(found)) && {
            &&& found@ == info@
            &&& found.has_update <==> newer(version_of(found.latest_version@), version_of(CURRENT_VERSION@))
        },
{
    assert(opt_text(r.warning) is None);
    if let CheckStep::Done(Ok(found)) = r.step {
        assert(found@ == release_info(UpdateChannel::Stable, release, CURRENT_VERSION@, now@));
        assert(found@.has_update == found.has_update);
        assert(found@.latest_version == found.latest_version@);
    }
}

proof fn lemma_first_prerelease(releases: Seq<GitHubRelease>, i: int)
    requires
        0 <= i <= releases.len(),
        forall|j: int| 0 <= j < i ==> !(#[trigger] releases[j]).prerelease,
        i < releases.len() ==> releases[i].prerelease,
    ensures
        i < releases.len() ==> first_prerelease(releases) == Some(releases[i]),
        i == releases.len() ==> first_prerelease(releases) is None,
    decreases releases.len(),
{
    if i > 0 {
        let rest = releases.drop_first();
        assert(!releases[0].prerelease);
        assert forall|j: int| 0 <= j < i - 1 implies !(#[trigger] rest[j]).prerelease by {
            assert(rest[j] == releases[j + 1]);
        }
        if i < releases.len() {
            assert(rest[i - 1] == releases[i]);
        }
        lemma_first_prerelease(rest, i - 1);
    }
}

/// The first pre-release of the list on GitHub, at place `i`, ends a check of the beta
/// channel with what it says to this program. A list without one, where `i` is its
/// length, ends the check with a failure, and the reason is logged.
pub proof fn law_first_pre_release_is_the_answer(
    releases: Vec<GitHubRelease>,
    now: &Timestamp,
    i: int,
    r: CheckNext,
    info: UpdateInfo,
)
    requires
        call_ensures(
            on_api,
            (ApiFetched::List(Fetched::Body(Ok::<Vec<GitHubRelease>, String>(releases))), now),
            r,
        ),
        0 <= i <= releases.len(),
        forall|j: int| 0 <= j < i ==> !(#[trigger] releases@[j]).prerelease,
        i < releases.len() ==> releases@[i].prerelease,
        call_ensures(info_from_release, (UpdateChannel::Beta, releases@[i], CURRENT_VERSION, now), info),
    ensures
        i < releases.len() ==> r.warning is None && (r.step matches CheckStep::Done(Ok(found)) && {
            &&& found@ == info@
            &&& found.has_update <==> newer(version_of(found.latest_version@), version_of(CURRENT_VERSION@))
        }),
        i == releases.len() ==> (r.step matches CheckStep::Done(Err(e)) && e@
            == "Failed to fetch updates for "@ + "Beta"@
            + " channel. Please check network/proxy settings."@) && opt_text(r.warning) == Some(
            "GitHub API ("@ + "Beta"@ + ") check failed: "@ + "No pre-release found on GitHub"@
                + ". Trying static fallbacks..."@,
        ),
{
    lemma_first_prerelease(releases@, i);
    if i < releases.len() {
        assert(opt_text(r.warning) is None);
        if let CheckStep::Done(Ok(found)) = r.step {
            assert(found@ == release_info(
                UpdateChannel::Beta,
                releases@[i],
                CURRENT_VERSION@,
                now@,
            ));
            assert(found@.has_update == found.has_update);
            assert(found@.latest_version == found.latest_version@);
        }
    }
}

/// Where GitHub gives no latest release, the stable channel goes on to the first place of
/// `package.json`, and the reason is logged.
pub proof fn law_no_latest_release(
    error: String,
    status: HttpStatus,
    now: &Timestamp,
    unbuilt: CheckNext,
    unsent: CheckNext,
    rejected: CheckNext,
    unread: CheckNext,
)
    requires
        call_ensures(
            on_api,
            (ApiFetched::Latest(Fetched::<GitHubRelease>::NoClient(error)), now),
            unbuilt,
        ),
        call_ensures(
            on_api,
            (ApiFetched::Latest(Fetched::<GitHubRelease>::NotSent(error)), now),
            unsent,
        ),
        call_ensures(
            on_api,
            (ApiFetched::Latest(Fetched::<GitHubRelease>::Rejected(status)), now),
            rejected,
        ),
        call_ensures(
            on_api,
            (ApiFetched::Latest(Fetched::Body(Err::<GitHubRelease, String>(error))), now),
            unread,
        ),
    ensures
        unbuilt.step matches CheckStep::Package(p) && p == PackageSource::GitHubRaw,
        unsent.step matches CheckStep::Package(p) && p == PackageSource::GitHubRaw,
        rejected.step matches CheckStep::Package(p) && p == PackageSource::GitHubRaw,
        unread.step matches CheckStep::Package(p) && p == PackageSource::GitHubRaw,
        opt_text(unbuilt.warning) == Some(
            "GitHub API ("@ + "Stable"@ + ") check failed: "@ + ("Failed to create HTTP client: "@
                + error@) + ". Trying static fallbacks..."@,
        ),
        opt_text(unsent.warning) == Some(
            "GitHub API ("@ + "Stable"@ + ") check failed: "@ + ("Request failed: "@ + error@)
                + ". Trying static fallbacks..."@,
        ),
        opt_text(rejected.warning) == Some(
            "GitHub API ("@ + "Stable"@ + ") check failed: "@ + ("GitHub API returned status: "@
                + status_display(status@)) + ". Trying static fallbacks..."@,
        ),
        opt_text(unread.warning) == Some(
            "GitHub API ("@ + "Stable"@ + ") check failed: "@ + ("Failed to parse release info: "@
                + error@) + ". Trying static fallbacks..."@,
        ),
{
}

/// Where GitHub gives no list of releases, the check of the beta channel is over, and the
/// reason is logged.
pub proof fn law_no_list_on_github(
    error: String,
    status: HttpStatus,
    now: &Timestamp,
    unbuilt: CheckNext,
    unsent: CheckNext,
    rejected: CheckNext,
    unread: CheckNext,
)
    requires
        call_ensures(
            on_api,
            (ApiFetched::List(Fetched::<Vec<GitHubRelease>>::NoClient(error)), now),
            unbuilt,
        ),
        call_ensures(
            on_api,
            (ApiFetched::List(Fetched::<Vec<GitHubRelease>>::NotSent(error)), now),
            unsent,
        ),
        call_ensures(
            on_api,
            (ApiFetched::List(Fetched::<Vec<GitHubRelease>>::Rejected(status)), now),
            rejected,
        ),
        call_ensures(
            on_api,
            (ApiFetched::List(Fetched::Body(Err::<Vec<GitHubRelease>, String>(error))), now),
            unread,
        ),
    ensures
        unbuilt.step matches CheckStep::Done(Err(_)),
        unsent.step matches CheckStep::Done(Err(_)),
        rejected.step matches CheckStep::Done(Err(_)),
        unread.step matches CheckStep::Done(Err(e)) && e@ == "Failed to fetch updates for "@
            + "Beta"@ + " channel. Please check network/proxy settings."@,
        opt_text(unbuilt.warning) == Some(
            "GitHub API ("@ + "Beta"@ + ") check failed: "@ + ("Failed to create HTTP client: "@
                + error@) + ". Trying static fallbacks..."@,
        ),
        opt_text(unsent.warning) == Some(
            "GitHub API ("@ + "Beta"@ + ") check failed: "@ + ("Request failed: "@ + error@)
                + ". Trying static fallbacks..."@,
        ),
        opt_text(rejected.warning) == Some(
            "GitHub API ("@ + "Beta"@ + ") check failed: "@ + ("GitHub API returned status: "@
                + status_display(status@)) + ". Trying static fallbacks..."@,
        ),
        opt_text(unread.warning) == Some(
            "GitHub API ("@ + "Beta"@ + ") check failed: "@ + ("Failed to parse releases: "@
                + error@) + ". Trying static fallbacks..."@,
        ),
{
}

/// A check of the beta channel that GitHub fails says so, whatever the reason.
pub proof fn law_failed_beta_checks(fetched: Fetched<Vec<GitHubRelease>>, now: &Timestamp, r: CheckNext)
    requires
        call_ensures(on_api, (ApiFetched::List(fetched), now), r),
        !(fetched matches Fetched::Body(Ok(_))),
    ensures
        r.step matches CheckStep::Done(Err(e)) && e@ == "Failed to fetch updates for "@ + "Beta"@
            + " channel. Please check network/proxy settings."@,
{
}

/// A file `package.json` that was read ends the check with what it says to this program,
/// from either place.
pub proof fn law_package_json_is_the_answer(
    source: PackageSource,
    doc: PackageJson,
    now: &Timestamp,
    r: CheckNext,
    name: &'static str,
    info: UpdateInfo,
)
    requires
        call_ensures(
            on_package_json,
            (source, Fetched::Body(Ok::<PackageJson, String>(doc)), now),
            r,
        ),
        call_ensures(PackageSource::name, (&source,), name),
        call_ensures(info_from_package_json, (name, doc, CURRENT_VERSION, now), info),
    ensures
        r.warning is None,
        source == PackageSource::GitHubRaw ==> name@ == "GitHub Raw"@,
        source == PackageSource::JsDelivr ==> name@ == "jsDelivr"@,
        r.step matches CheckStep::Done(Ok(found)) && {
            &&& found@ == info@
            &&& found.has_update <==> newer(version_of(found.latest_version@), version_of(CURRENT_VERSION@))
        },
{
    assert(opt_text(r.warning) is None);
    if let CheckStep::Done(Ok(found)) = r.step {
        assert(found@ == package_info(source_text(source), doc, CURRENT_VERSION@, now@));
        assert(found@.has_update == found.has_update);
        assert(found@.latest_version == found.latest_version@);
    }
}

/// Where the file `package.json` cannot be had or read, the mirror comes after the main
/// place, and after the mirror the check has failed.
pub proof fn law_no_package_json(
    source: PackageSource,
    fetched: Fetched<PackageJson>,
    now: &Timestamp,
    r: CheckNext,
)
    requires
        call_ensures(on_package_json, (source, fetched, now), r),
        !(fetched matches Fetched::Body(Ok(_))),
    ensures
        r.warning is None,
        source == PackageSource::GitHubRaw ==> (r.step matches CheckStep::Package(p) && p
            == PackageSource::JsDelivr),
        source == PackageSource::JsDelivr ==> (r.step matches CheckStep::Done(Err(e)) && e@
            == "Failed to fetch updates for "@ + "Stable"@
            + " channel. Please check network/proxy settings."@),
{
    assert(opt_text(r.warning) is None);
}

/// Why there is no file `package.json`, in words of its own for each reason.
pub proof fn law_reasons_for_no_package_json(
    name: &str,
    error: String,
    status: HttpStatus,
    now: &Timestamp,
    unbuilt: Result<UpdateInfo, String>,
    unsent: Result<UpdateInfo, String>,
    rejected: Result<UpdateInfo, String>,
    unread: Result<UpdateInfo, String>,
)
    requires
        call_ensures(
            check_static_url,
            (name, Fetched::<PackageJson>::NoClient(error), now),
            unbuilt,
        ),
        call_ensures(check_static_url, (name, Fetched::<PackageJson>::NotSent(error), now), unsent),
        call_ensures(
            check_static_url,
            (name, Fetched::<PackageJson>::Rejected(status), now),
            rejected,
        ),
        call_ensures(
            check_static_url,
            (name, Fetched::Body(Err::<PackageJson, String>(error)), now),
            unread,
        ),
    ensures
        unbuilt matches Err(e) && e@ == "Failed to create HTTP client: "@ + error@,
        unsent matches Err(e) && e@ == "Request failed: "@ + error@,
        rejected matches Err(e) && e@ == name@ + " returned status: "@ + status_display(status@),
        unread matches Err(e) && e@ == "Failed to parse package.json: "@ + error@,
{
    assert(finding(unbuilt) is Err && finding(unsent) is Err);
    assert(finding(rejected) is Err && finding(unread) is Err);
}

/// Whatever source gives it, a finding of a check tells of an update exactly where the
/// latest version that it names is newer than the current one that it names, and the
/// current one is that of this program.
pub proof fn law_findings_tell_of_newer_versions(
    channel: UpdateChannel,
    updater: Fetched<UpdaterJson>,
    asset: FetchedAnyway<UpdaterJson>,
    api: ApiFetched,
    source: PackageSource,
    package: Fetched<PackageJson>,
    now: &Timestamp,
    r: CheckNext,
)
    requires
        call_ensures(on_updater_json, (channel, updater, now), r) || call_ensures(
            on_asset,
            (asset, now),
            r,
        ) || call_ensures(on_api, (api, now), r) || call_ensures(
            on_package_json,
            (source, package, now),
            r,
        ),
    ensures
        r.step matches CheckStep::Done(Ok(info)) ==> info.current_version@ == CURRENT_VERSION@ && (
        info.has_update <==> newer(version_of(info.latest_version@), version_of(CURRENT_VERSION@))),
{
    if let CheckStep::Done(Ok(info)) = r.step {
        let m = info@;
        assert(r@.step == CheckModel::Done(Ok(m)));
        assert(m.has_update == info.has_update);
        assert(m.latest_version == info.latest_version@);
        assert(m.current_version == info.current_version@);
    }
}

/// What is asked, and under which names: the two addresses on GitHub, the two of
/// `package.json`, and where a check starts.
pub proof fn law_addresses_of_the_sources(
    channel: UpdateChannel,
    source: PackageSource,
    api: &'static str,
    url: &'static str,
    start: CheckStep,
)
    requires
        call_ensures(api_address, (channel,), api),
        call_ensures(PackageSource::url, (&source,), url),
        call_ensures(check_for_updates_internal, (channel,), start),
    ensures
        channel == UpdateChannel::Stable ==> api@
            == "https://api.github.com/repos/lbjlaq/Antigravity-Manager/releases/latest"@,
        channel == UpdateChannel::Beta ==> api@
            == "https://api.github.com/repos/lbjlaq/Antigravity-Manager/releases?per_page=15"@,
        source == PackageSource::GitHubRaw ==> url@
            == "https://raw.githubusercontent.com/lbjlaq/Antigravity-Manager/main/package.json"@,
        source == PackageSource::JsDelivr ==> url@
            == "https://cdn.jsdelivr.net/gh/lbjlaq/Antigravity-Manager@main/package.json"@,
        start matches CheckStep::Updater(c) && c == channel,
{
}

/// What a check ends with is handed on as it is, but for the proxy in use and the channel
/// of the settings, which are noted in a finding.
pub proof fn law_results_are_handed_on(
    result: Result<UpdateInfo, String>,
    channel: UpdateChannel,
    proxy: Option<String>,
    r: Result<UpdateInfo, String>,
)
    requires
        call_ensures(check_for_updates, (result, channel, proxy), r),
    ensures
        r is Ok <==> result is Ok,
        r matches Err(e) ==> e@ == (result->Err_0)@,
        r matches Ok(info) ==> {
            let before = result->Ok_0;
            &&& info.channel == Some(channel)
            &&& opt_text(info.proxy_url) == opt_text(proxy)
            &&& info.current_version@ == before.current_version@
            &&& info.latest_version@ == before.latest_version@
            &&& info.has_update == before.has_update
            &&& info.download_url@ == before.download_url@
            &&& info.release_notes@ == before.release_notes@
            &&& info.published_at@ == before.published_at@
            &&& opt_text(info.source) == opt_text(before.source)
            &&& opt_text(info.updater_json_url) == opt_text(before.updater_json_url)
        },
{
    match r {
        Ok(info) => {
            assert(finding(r) == Ok::<UpdateInfoModel, Seq<char>>(info@));
            if let Ok(before) = result {
                let m = info@;
                let b = before@;
                assert(m == UpdateInfoModel {
                    proxy_url: opt_text(proxy),
                    channel: Some(channel),
                    ..b
                });
                assert(m.current_version == info.current_version@);
                assert(b.current_version == before.current_version@);
                assert(m.latest_version == info.latest_version@);
                assert(b.latest_version == before.latest_version@);
                assert(m.download_url == info.download_url@ && b.download_url
                    == before.download_url@);
                assert(m.release_notes == info.release_notes@ && b.release_notes
                    == before.release_notes@);
                assert(m.published_at == info.published_at@ && b.published_at
                    == before.published_at@);
            }
        },
        Err(e) => {
            assert(finding(r) == Err::<UpdateInfoModel, Seq<char>>(e@));
        },
    }
}

/// What GitHub says of a channel decides the step after it: a finding ends the check, and
/// the reason of a failure is what is logged.
pub proof fn law_findings_on_github(
    fetched: ApiFetched,
    now: &Timestamp,
    found: Result<UpdateInfo, String>,
    next: CheckNext,
)
    requires
        call_ensures(check_github_api_channel, (fetched, now), found),
        call_ensures(on_api, (fetched, now), next),
    ensures
        found matches Ok(info) ==> (next.step matches CheckStep::Done(Ok(told)) && told@ == info@),
        found matches Err(e) ==> opt_text(next.warning) == Some(
            "GitHub API ("@ + (match fetched {
                ApiFetched::Latest(_) => "Stable"@,
                ApiFetched::List(_) => "Beta"@,
            }) + ") check failed: "@ + e@ + ". Trying static fallbacks..."@,
        ),
{
    match found {
        Ok(info) => assert(finding(found) == Ok::<UpdateInfoModel, Seq<char>>(info@)),
        Err(e) => assert(finding(found) == Err::<UpdateInfoModel, Seq<char>>(e@)),
    }
}

/// What the answer to the request for `updater.json` leads to decides the step after it: a
/// finding ends the check, a failure is logged, and the reason to look on is kept.
pub proof fn law_outcomes_of_updater_json(
    channel: UpdateChannel,
    fetched: Fetched<UpdaterJson>,
    now: &Timestamp,
    outcome: UpdaterOutcome,
    next: CheckNext,
)
    requires
        call_ensures(check_updater_json_channel, (channel, fetched, now), outcome),
        call_ensures(on_updater_json, (channel, fetched, now), next),
    ensures
        outcome matches UpdaterOutcome::Finished(Ok(info)) ==> (next.step matches CheckStep::Done(
            Ok(told),
        ) && told@ == info@),
        outcome matches UpdaterOutcome::Finished(Err(e)) ==> (next.step is Api) && opt_text(
            next.warning,
        ) == Some(
            channel_text(channel) + " updater.json check failed: "@ + e@
                + ". Trying fallbacks..."@,
        ),
        outcome matches UpdaterOutcome::LookInPrereleases(why) ==> (next.step
            matches CheckStep::PrereleaseAssets(kept) && kept@ == why@) && channel
            == UpdateChannel::Beta,
{
    match outcome {
        UpdaterOutcome::Finished(Ok(info)) => {
            assert(outcome@ == UpdaterOutcomeModel::Finished(Ok(info@)));
        },
        UpdaterOutcome::Finished(Err(e)) => {
            assert(outcome@ == UpdaterOutcomeModel::Finished(Err(e@)));
        },
        UpdaterOutcome::LookInPrereleases(why) => {
            assert(outcome@ == UpdaterOutcomeModel::LookInPrereleases(why@));
        },
    }
}

/// What the file of a pre-release says is what its channel's own file would say; a file
/// that cannot be read or had is told as that.
pub proof fn law_findings_in_pre_releases(
    channel: UpdateChannel,
    doc: UpdaterJson,
    error: String,
    now: &Timestamp,
    read: Result<UpdateInfo, String>,
    unread: Result<UpdateInfo, String>,
    unsent: Result<UpdateInfo, String>,
    info: UpdateInfo,
)
    requires
        call_ensures(
            check_prerelease_updater_json,
            (channel, FetchedAnyway::Body(Ok::<UpdaterJson, String>(doc)), now),
            read,
        ),
        call_ensures(
            check_prerelease_updater_json,
            (channel, FetchedAnyway::Body(Err::<UpdaterJson, String>(error)), now),
            unread,
        ),
        call_ensures(
            check_prerelease_updater_json,
            (channel, FetchedAnyway::<UpdaterJson>::NotSent(error), now),
            unsent,
        ),
        call_ensures(info_from_updater_json, (channel, doc, CURRENT_VERSION, now), info),
    ensures
        read matches Ok(told) && told@ == info@,
        unread matches Err(e) && e@ == "Failed to parse updater.json: "@ + error@,
        unsent matches Err(e) && e@ == "Request failed: "@ + error@,
{
    assert(finding(read) is Ok && finding(unread) is Err && finding(unsent) is Err);
}

/// How update checks show themselves, and how long a request may take.
pub proof fn law_requests_of_checks()
    ensures
        CHECK_USER_AGENT@ == "Antigravity-Manager"@,
        CHECK_TIMEOUT_SECS == 10,
{
}

} // verus!
