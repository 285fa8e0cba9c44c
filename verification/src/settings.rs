//! Settings of the update check: when to look for updates and on which channel.

use vstd::prelude::*;

use crate::text::{find_char, join2};

verus! {

/// The version of this program, as its manifest gives it.
pub const CURRENT_VERSION: &'static str = "4.8.1";

/// Hours between two checks where the settings name none.
pub const DEFAULT_CHECK_INTERVAL_HOURS: u64 = 24;

/// Seconds of one hour.
pub const SECONDS_PER_HOUR: u64 = 3600;

// ----- Channels -----

/// The line of releases that is followed.
#[derive(Debug, Clone, Copy, PartialEq, Eq, Structural)]
pub enum UpdateChannel {
    Stable,
    Beta,
}

/// A pre-release, which has a hyphen in its version, follows the beta channel.
pub open spec fn channel_of(version: Seq<char>) -> UpdateChannel {
    if version.contains('-') {
        UpdateChannel::Beta
    } else {
        UpdateChannel::Stable
    }
}

/// The channel that a program of this version follows by default.
pub fn default_channel(version: &str) -> (r: UpdateChannel)
    ensures
        r == channel_of(version@),
{
    let n: usize = version.unicode_len();
    if find_char(version, '-') < n {
        UpdateChannel::Beta
    } else {
        UpdateChannel::Stable
    }
}

impl Default for UpdateChannel {
    /// The channel of the running version.
    fn default() -> (r: Self)
        ensures
            r == channel_of(CURRENT_VERSION@),
    {
        default_channel(CURRENT_VERSION)
    }
}

/// How a channel is called in messages.
pub open spec fn channel_text(channel: UpdateChannel) -> Seq<char> {
    match channel {
        UpdateChannel::Stable => "Stable"@,
        UpdateChannel::Beta => "Beta"@,
    }
}

impl UpdateChannel {
    /// How the channel is called in messages.
    pub fn name(&self) -> (r: &'static str)
        ensures
            r@ == channel_text(*self),
    {
        match self {
            UpdateChannel::Stable => "Stable",
            UpdateChannel::Beta => "Beta",
        }
    }
}

// ----- Settings -----

/// What the user has set, and when the last check was. Times are in seconds
/// since the Unix epoch.
#[derive(Debug, Clone, PartialEq, Eq, Structural)]
pub struct UpdateSettings {
    pub auto_check: bool,
    pub last_check_time: u64,
    pub check_interval_hours: u64,
    pub update_channel: UpdateChannel,
}

/// The settings where none are stored: check by itself, never checked so far.
pub open spec fn default_settings() -> UpdateSettings {
    UpdateSettings {
        auto_check: true,
        last_check_time: 0,
        check_interval_hours: DEFAULT_CHECK_INTERVAL_HOURS,
        update_channel: channel_of(CURRENT_VERSION@),
    }
}

impl Default for UpdateSettings {
    fn default() -> (r: Self)
        ensures
            r == default_settings(),
    {
        UpdateSettings {
            auto_check: true,
            last_check_time: 0,
            check_interval_hours: DEFAULT_CHECK_INTERVAL_HOURS,
            update_channel: UpdateChannel::default(),
        }
    }
}

/// The interval of stored settings that name none.
pub fn default_check_interval() -> (r: u64)
    ensures
        r == DEFAULT_CHECK_INTERVAL_HOURS,
{
    DEFAULT_CHECK_INTERVAL_HOURS
}

/// The hours between two checks; 0 stands for the default.
pub open spec fn interval_hours(settings: UpdateSettings) -> u64 {
    if settings.check_interval_hours > 0 {
        settings.check_interval_hours
    } else {
        DEFAULT_CHECK_INTERVAL_HOURS
    }
}

/// A check is due at time `now`: checks are on, and as many whole hours have
/// passed since the last one as the interval asks for. Where the clock was set
/// back to before the last check, no time has passed.
pub open spec fn check_due(settings: UpdateSettings, now: u64) -> bool {
    &&& settings.auto_check
    &&& settings.last_check_time <= now
    &&& (now - settings.last_check_time) / (SECONDS_PER_HOUR as int) >= interval_hours(settings)
}

/// Whether enough time has passed since the last check. `now` is the time in
/// seconds since the Unix epoch.
pub fn should_check_for_updates(settings: &UpdateSettings, now: u64) -> (r: bool)
    ensures
        r == check_due(*settings, now),
{
    if !settings.auto_check || settings.last_check_time > now {
        return false;
    }
    let elapsed_hours: u64 = (now - settings.last_check_time) / SECONDS_PER_HOUR;
    let interval: u64 = if settings.check_interval_hours > 0 {
        settings.check_interval_hours
    } else {
        DEFAULT_CHECK_INTERVAL_HOURS
    };
    elapsed_hours >= interval
}

/// The settings with the last check at `now`.
pub open spec fn checked_at(settings: UpdateSettings, now: u64) -> UpdateSettings {
    UpdateSettings { last_check_time: now, ..settings }
}

/// The settings to store once a check was made at `now`, from what loading them
/// gave; a failure to load is passed on, and nothing is to be stored.
pub fn update_last_check_time(loaded: Result<UpdateSettings, String>, now: u64) -> (r: Result<
    UpdateSettings,
    String,
>)
    ensures
        match loaded {
            Ok(settings) => r == Ok::<UpdateSettings, String>(checked_at(settings, now)),
            Err(e) => r == Err::<UpdateSettings, String>(e),
        },
{
    match loaded {
        Ok(settings) => {
            let mut updated = settings;
            updated.last_check_time = now;
            Ok(updated)
        },
        Err(e) => Err(e),
    }
}

// ----- Storing -----

/// What reading the settings file gave. Each failure carries its own words.
#[derive(Debug)]
pub enum SettingsFile {
    /// The data directory could not be found.
    NoDataDir(String),
    /// There is no settings file yet.
    Missing,
    /// The file could not be read.
    Unreadable(String),
    /// The file holds no settings.
    Invalid(String),
    /// The file holds these settings.
    Read(UpdateSettings),
}

/// The stored settings, or the default ones where no file exists.
pub fn load_update_settings(file: SettingsFile) -> (r: Result<UpdateSettings, String>)
    ensures
        match file {
            SettingsFile::NoDataDir(e) => r is Err && (r->Err_0)@ == "Failed to get data dir: "@
                + e@,
            SettingsFile::Missing => r == Ok::<UpdateSettings, String>(default_settings()),
            SettingsFile::Unreadable(e) => r is Err && (r->Err_0)@
                == "Failed to read settings file: "@ + e@,
            SettingsFile::Invalid(e) => r is Err && (r->Err_0)@ == "Failed to parse settings: "@
                + e@,
            SettingsFile::Read(settings) => r == Ok::<UpdateSettings, String>(settings),
        },
{
    match file {
        SettingsFile::NoDataDir(e) => Err(join2("Failed to get data dir: ", e.as_str())),
        SettingsFile::Missing => Ok(UpdateSettings::default()),
        SettingsFile::Unreadable(e) => Err(join2("Failed to read settings file: ", e.as_str())),
        SettingsFile::Invalid(e) => Err(join2("Failed to parse settings: ", e.as_str())),
        SettingsFile::Read(settings) => Ok(settings),
    }
}

/// The settings to check with: those that were loaded, or the default ones.
pub fn settings_or_default(loaded: Result<UpdateSettings, String>) -> (r: UpdateSettings)
    ensures
        match loaded {
            Ok(settings) => r == settings,
            Err(_) => r == default_settings(),
        },
{
    match loaded {
        Ok(settings) => settings,
        Err(_) => UpdateSettings::default(),
    }
}

/// How far storing the settings came. Each failure carries its own words.
#[derive(Debug)]
pub enum SettingsWrite {
    /// The data directory could not be found.
    NoDataDir(String),
    /// The settings could not be put into the file's format.
    NotSerialized(String),
    /// The file could not be written.
    NotWritten(String),
    /// The file was written.
    Written,
}

/// Whether the settings were stored, and if not, why.
pub fn save_update_settings(outcome: SettingsWrite) -> (r: Result<(), String>)
    ensures
        match outcome {
            SettingsWrite::NoDataDir(e) => r is Err && (r->Err_0)@ == "Failed to get data dir: "@
                + e@,
            SettingsWrite::NotSerialized(e) => r is Err && (r->Err_0)@
                == "Failed to serialize settings: "@ + e@,
            SettingsWrite::NotWritten(e) => r is Err && (r->Err_0)@
                == "Failed to write settings file: "@ + e@,
            SettingsWrite::Written => r is Ok,
        },
{
    match outcome {
        SettingsWrite::NoDataDir(e) => Err(join2("Failed to get data dir: ", e.as_str())),
        SettingsWrite::NotSerialized(e) => Err(
            join2("Failed to serialize settings: ", e.as_str()),
        ),
        SettingsWrite::NotWritten(e) => Err(join2("Failed to write settings file: ", e.as_str())),
        SettingsWrite::Written => Ok(()),
    }
}

// ----- Laws -----

/// After a check at `now`, the next one is due when the interval has passed in
/// full, and not before.
pub proof fn law_next_check_after_interval(settings: UpdateSettings, now: u64, later: u64)
    requires
        settings.auto_check,
        now <= later,
    ensures
        check_due(checked_at(settings, now), later) <==> later - now >= interval_hours(settings)
            * SECONDS_PER_HOUR,
{
}

/// A check that was just made is not due again.
pub proof fn law_no_second_check_at_once(settings: UpdateSettings, now: u64)
    ensures
        !check_due(checked_at(settings, now), now),
{
}

/// Where checks are off, none is ever due.
pub proof fn law_no_check_when_off(settings: UpdateSettings, now: u64)
    requires
        !settings.auto_check,
    ensures
        !check_due(settings, now),
{
}

/// A clock that was set back makes no check due: one is due again when the time
/// of the last check and the interval have passed.
pub proof fn law_clock_set_back(settings: UpdateSettings, now: u64)
    requires
        now < settings.last_check_time + interval_hours(settings) * SECONDS_PER_HOUR,
    ensures
        !check_due(settings, now),
{
}

/// A check that is due stays due until it is made.
pub proof fn law_due_stays_due(settings: UpdateSettings, now: u64, later: u64)
    requires
        check_due(settings, now),
        now <= later,
    ensures
        check_due(settings, later),
{
}

/// Fresh settings ask for a check, from one day after the epoch on.
pub proof fn law_first_check_is_due(now: u64)
    requires
        now >= DEFAULT_CHECK_INTERVAL_HOURS * SECONDS_PER_HOUR,
    ensures
        check_due(default_settings(), now),
{
}

/// A check is due exactly where checks are on and the interval of the settings has passed
/// in full since the last one, in seconds; an interval of no hours stands for 24. Where
/// the last check lies ahead, none is due.
pub proof fn law_when_a_check_is_due(settings: &UpdateSettings, now: u64, r: bool)
    requires
        call_ensures(should_check_for_updates, (settings, now), r),
    ensures
        !settings.auto_check ==> !r,
        settings.auto_check && settings.check_interval_hours > 0 ==> (r <==> now
            >= settings.last_check_time + settings.check_interval_hours * 3600),
        settings.auto_check && settings.check_interval_hours == 0 ==> (r <==> now
            >= settings.last_check_time + 86400),
{
}

/// Noting a check changes its time and nothing else; a failure to load is passed on.
pub proof fn law_checks_are_noted(
    settings: UpdateSettings,
    error: String,
    now: u64,
    noted: Result<UpdateSettings, String>,
    failed: Result<UpdateSettings, String>,
)
    requires
        call_ensures(update_last_check_time, (Ok::<UpdateSettings, String>(settings), now), noted),
        call_ensures(update_last_check_time, (Err::<UpdateSettings, String>(error), now), failed),
    ensures
        noted matches Ok(after) && {
            &&& after.last_check_time == now
            &&& after.auto_check == settings.auto_check
            &&& after.check_interval_hours == settings.check_interval_hours
            &&& after.update_channel == settings.update_channel
        },
        failed matches Err(e) && e@ == error@,
{
}

/// After a check was noted at `now`, the next one is due when the interval has passed and
/// not a second earlier, whatever was set before.
pub proof fn law_noted_checks_hold_the_next_back(
    settings: UpdateSettings,
    now: u64,
    later: u64,
    after: UpdateSettings,
    due: bool,
)
    requires
        call_ensures(
            update_last_check_time,
            (Ok::<UpdateSettings, String>(settings), now),
            Ok::<UpdateSettings, String>(after),
        ),
        call_ensures(should_check_for_updates, (&after, later), due),
        settings.auto_check,
        settings.check_interval_hours > 0,
    ensures
        due <==> later >= now + settings.check_interval_hours * 3600,
{
}

/// A version with a hyphen anywhere follows the beta channel, any other the stable one.
pub proof fn law_channels_of_versions(version: &str, r: UpdateChannel)
    requires
        call_ensures(default_channel, (version,), r),
    ensures
        r == UpdateChannel::Beta <==> exists|i: int| 0 <= i < version@.len() && version@[i] == '-',
        r == UpdateChannel::Stable <==> forall|i: int|
            0 <= i < version@.len() ==> version@[i] != '-',
{
    if version@.contains('-') {
        let i = choose|i: int| 0 <= i < version@.len() && version@[i] == '-';
        assert(version@[i] == '-');
    } else {
        assert forall|i: int| 0 <= i < version@.len() implies version@[i] != '-' by {
            assert(version@.contains(version@[i]));
        }
    }
}

/// The names of the channels in messages.
pub proof fn law_names_of_channels(channel: &UpdateChannel, r: &'static str)
    requires
        call_ensures(UpdateChannel::name, (channel,), r),
    ensures
        *channel == UpdateChannel::Stable ==> r@ == "Stable"@,
        *channel == UpdateChannel::Beta ==> r@ == "Beta"@,
        r@ == channel_text(*channel),
{
}

/// Stored settings are loaded as they are; where there is no file, checks are on, none was
/// made, and the interval is a day on the channel of this version. Every failure is told
/// in its own words.
pub proof fn law_settings_are_loaded(
    file: SettingsFile,
    r: Result<UpdateSettings, String>,
)
    requires
        call_ensures(load_update_settings, (file,), r),
    ensures
        file matches SettingsFile::Read(settings) ==> (r matches Ok(loaded) && {
            &&& loaded.auto_check == settings.auto_check
            &&& loaded.last_check_time == settings.last_check_time
            &&& loaded.check_interval_hours == settings.check_interval_hours
            &&& loaded.update_channel == settings.update_channel
        }),
        file is Missing ==> (r matches Ok(loaded) && {
            &&& loaded.auto_check
            &&& loaded.last_check_time == 0
            &&& loaded.check_interval_hours == 24
            &&& loaded.update_channel == UpdateChannel::Beta <==> CURRENT_VERSION@.contains('-')
        }),
        file matches SettingsFile::NoDataDir(e) ==> (r matches Err(m) && m@
            == "Failed to get data dir: "@ + e@),
        file matches SettingsFile::Unreadable(e) ==> (r matches Err(m) && m@
            == "Failed to read settings file: "@ + e@),
        file matches SettingsFile::Invalid(e) ==> (r matches Err(m) && m@
            == "Failed to parse settings: "@ + e@),
{
}

/// Settings that could be loaded are used; otherwise checks are on, with a day between
/// them, and none was made.
pub proof fn law_settings_to_check_with(loaded: Result<UpdateSettings, String>, r: UpdateSettings)
    requires
        call_ensures(settings_or_default, (loaded,), r),
    ensures
        loaded matches Ok(settings) ==> {
            &&& r.auto_check == settings.auto_check
            &&& r.last_check_time == settings.last_check_time
            &&& r.check_interval_hours == settings.check_interval_hours
            &&& r.update_channel == settings.update_channel
        },
        loaded is Err ==> {
            &&& r.auto_check
            &&& r.last_check_time == 0
            &&& r.check_interval_hours == 24
            &&& r.update_channel == UpdateChannel::Beta <==> CURRENT_VERSION@.contains('-')
        },
{
}

/// Settings are stored exactly where the file was written; every failure is told in its
/// own words.
pub proof fn law_settings_are_stored(outcome: SettingsWrite, r: Result<(), String>)
    requires
        call_ensures(save_update_settings, (outcome,), r),
    ensures
        r is Ok <==> outcome is Written,
        outcome matches SettingsWrite::NoDataDir(e) ==> (r matches Err(m) && m@
            == "Failed to get data dir: "@ + e@),
        outcome matches SettingsWrite::NotSerialized(e) ==> (r matches Err(m) && m@
            == "Failed to serialize settings: "@ + e@),
        outcome matches SettingsWrite::NotWritten(e) ==> (r matches Err(m) && m@
            == "Failed to write settings file: "@ + e@),
{
}

/// The interval that settings without one get.
pub proof fn law_interval_of_old_settings(r: u64)
    requires
        call_ensures(default_check_interval, (), r),
    ensures
        r == 24,
{
}

/// Without anything stored, checks are on, none was made, and the interval is a day on the
/// channel of this version.
pub proof fn law_fresh_settings(channel: UpdateChannel, r: UpdateSettings)
    requires
        call_ensures(<UpdateChannel as Default>::default, (), channel),
        call_ensures(<UpdateSettings as Default>::default, (), r),
    ensures
        channel == UpdateChannel::Beta <==> CURRENT_VERSION@.contains('-'),
        r.auto_check,
        r.last_check_time == 0,
        r.check_interval_hours == 24,
        r.update_channel == channel,
{
}

} // verus!
