//! How the program was installed, and upgrades through Homebrew.

use vstd::prelude::*;
use vstd::utf8::{decode_utf8, valid_utf8};

use crate::text::{contains_str, has_text, result_text};

verus! {

// ----- Installation -----

/// The places where Homebrew keeps the cask.
pub open spec fn caskroom_places() -> Seq<&'static str> {
    seq!["/opt/homebrew/Caskroom/antigravity-tools", "/usr/local/Caskroom/antigravity-tools"]
}

/// The places where Homebrew keeps the cask.
pub fn caskroom_paths() -> (r: Vec<&'static str>)
    ensures
        r@ == caskroom_places(),
{
    vec!["/opt/homebrew/Caskroom/antigravity-tools", "/usr/local/Caskroom/antigravity-tools"]
}

/// Whether the program was installed as a Homebrew cask: on macOS, where one of
/// [`caskroom_paths`] exists. `present` says of each whether it does.
pub fn is_homebrew_installed(on_macos: bool, present: &Vec<bool>) -> (r: bool)
    ensures
        r == (on_macos && present@.contains(true)),
{
    if !on_macos {
        return false;
    }
    let mut i: usize = 0;
    while i < present.len()
        invariant
            i <= present.len(),
            on_macos,
            forall|j: int| 0 <= j < i ==> !present@[j],
        decreases present.len() - i,
    {
        if present[i] {
            assert(present@[i as int] == true);
            return true;
        }
        i = i + 1;
    }
    false
}

/// Whether the program runs as an AppImage: on Linux, where the runtime has set
/// `APPIMAGE`, to whatever path. `appimage_set` says whether the variable is set.
pub fn is_appimage_running(on_linux: bool, appimage_set: bool) -> (r: bool)
    ensures
        r == (on_linux && appimage_set),
{
    on_linux && appimage_set
}

// ----- Homebrew -----

/// How long an upgrade may take, in seconds.
pub const BREW_TIMEOUT_SECS: u64 = 180;

/// How a run of the upgrade ended.
#[derive(Debug)]
pub enum BrewRun {
    /// It took longer than [`BREW_TIMEOUT_SECS`].
    TimedOut,
    /// It could not be started.
    NotStarted,
    /// It came to its end.
    Finished { success: bool, stdout: Vec<u8>, stderr: Vec<u8> },
}

/// What the upgrade hears of the outside.
#[derive(Debug)]
pub enum BrewEvent {
    /// The upgrade is asked for.
    Start { on_macos: bool },
    /// Which of the two brew programs exist.
    Probed { opt_homebrew: bool, usr_local: bool },
    /// The upgrade was run.
    Ran(BrewRun),
}

/// What the upgrade wants next.
#[derive(Debug)]
pub enum BrewAction {
    /// Look which brew programs exist.
    Probe,
    /// Run this program with [`brew_args`], for [`BREW_TIMEOUT_SECS`] at most.
    Run { brew: &'static str },
    /// The upgrade is over: its output, or the key of an error message.
    Done(Result<String, String>),
}

/// The arguments of the upgrade.
pub fn brew_args() -> (r: Vec<&'static str>)
    ensures
        r@ == seq!["upgrade", "--cask", "antigravity-tools"],
{
    vec!["upgrade", "--cask", "antigravity-tools"]
}

/// What `String::from_utf8_lossy` makes of bytes.
pub uninterp spec fn utf8_lossy(bytes: Seq<u8>) -> Seq<char>;

/// Calls `String::from_utf8_lossy` of the standard library. Claimed of it: the
/// result depends on the bytes alone, and valid UTF-8 is decoded. Where the
/// replacement characters go in other bytes is named and not spelled out.
#[verifier::external_body]
fn from_utf8_lossy(bytes: &Vec<u8>) -> (r: String)
    ensures
        r@ == utf8_lossy(bytes@),
        valid_utf8(bytes@) ==> r@ == decode_utf8(bytes@),
{
    String::from_utf8_lossy(bytes).to_string()
}

/// The text of the bytes that a program printed.
pub open spec fn output_text(bytes: Seq<u8>) -> Seq<char> {
    if valid_utf8(bytes) {
        decode_utf8(bytes)
    } else {
        utf8_lossy(bytes)
    }
}

/// The output of a run that succeeded, the key of an error message otherwise.
pub open spec fn brew_result(run: BrewRun) -> Result<Seq<char>, Seq<char>> {
    match run {
        BrewRun::TimedOut => Err("brew_timeout"@),
        BrewRun::NotStarted => Err("brew_exec_failed"@),
        BrewRun::Finished { success, stdout, stderr } => if success {
            Ok(output_text(stdout@))
        } else if has_text(output_text(stderr@), "already installed"@) || has_text(
            output_text(stdout@),
            "already installed"@,
        ) {
            Err("brew_already_latest"@)
        } else {
            Err("brew_upgrade_failed"@)
        },
    }
}

/// How a run of the upgrade is reported.
pub fn report_brew_run(run: BrewRun) -> (r: Result<String, String>)
    ensures
        result_text(r) == brew_result(run),
{
    match run {
        BrewRun::TimedOut => Err("brew_timeout".to_string()),
        BrewRun::NotStarted => Err("brew_exec_failed".to_string()),
        BrewRun::Finished { success, stdout, stderr } => {
            let out = from_utf8_lossy(&stdout);
            let err = from_utf8_lossy(&stderr);
            if success {
                Ok(out)
            } else if contains_str(err.as_str(), "already installed") || contains_str(
                out.as_str(),
                "already installed",
            ) {
                Err("brew_already_latest".to_string())
            } else {
                Err("brew_upgrade_failed".to_string())
            }
        },
    }
}

/// One step of an upgrade through Homebrew: what to do on an event. The brew
/// program under `/opt/homebrew` goes before the one under `/usr/local`.
pub fn brew_upgrade_cask(event: BrewEvent) -> (r: BrewAction)
    ensures
        match event {
            BrewEvent::Start { on_macos } => if on_macos {
                r == BrewAction::Probe
            } else {
                r is Done && result_text(r->Done_0) == Err::<Seq<char>, Seq<char>>(
                    "brew_not_supported"@,
                )
            },
            BrewEvent::Probed { opt_homebrew, usr_local } => if opt_homebrew {
                r == BrewAction::Run { brew: "/opt/homebrew/bin/brew" }
            } else if usr_local {
                r == BrewAction::Run { brew: "/usr/local/bin/brew" }
            } else {
                r is Done && result_text(r->Done_0) == Err::<Seq<char>, Seq<char>>(
                    "brew_not_found"@,
                )
            },
            BrewEvent::Ran(run) => r is Done && result_text(r->Done_0) == brew_result(run),
        },
{
    match event {
        BrewEvent::Start { on_macos } => if on_macos {
            BrewAction::Probe
        } else {
            BrewAction::Done(Err("brew_not_supported".to_string()))
        },
        BrewEvent::Probed { opt_homebrew, usr_local } => if opt_homebrew {
            BrewAction::Run { brew: "/opt/homebrew/bin/brew" }
        } else if usr_local {
            BrewAction::Run { brew: "/usr/local/bin/brew" }
        } else {
            BrewAction::Done(Err("brew_not_found".to_string()))
        },
        BrewEvent::Ran(run) => BrewAction::Done(report_brew_run(run)),
    }
}

// ----- Laws -----

/// A cask counts as installed exactly on macOS, where at least one of the places exists,
/// whichever; an AppImage runs exactly on Linux, where its runtime says so.
pub proof fn law_how_it_was_installed(
    on_macos: bool,
    present: &Vec<bool>,
    on_linux: bool,
    appimage_set: bool,
    cask: bool,
    appimage: bool,
)
    requires
        call_ensures(is_homebrew_installed, (on_macos, present), cask),
        call_ensures(is_appimage_running, (on_linux, appimage_set), appimage),
    ensures
        !on_macos ==> !cask,
        on_macos ==> (cask <==> exists|i: int| 0 <= i < present.len() && #[trigger] present@[i]),
        appimage <==> on_linux && appimage_set,
{
    if present@.contains(true) {
        let i = choose|i: int| 0 <= i < present@.len() && present@[i] == true;
        assert(present@[i]);
    }
    if exists|i: int| 0 <= i < present.len() && #[trigger] present@[i] {
        let i = choose|i: int| 0 <= i < present.len() && #[trigger] present@[i];
        assert(present@[i] == true);
    }
}

/// The places of the cask, and how it is upgraded.
pub proof fn law_places_and_arguments(places: Vec<&'static str>, args: Vec<&'static str>)
    requires
        call_ensures(caskroom_paths, (), places),
        call_ensures(brew_args, (), args),
    ensures
        places.len() == 2,
        places@[0]@ == "/opt/homebrew/Caskroom/antigravity-tools"@,
        places@[1]@ == "/usr/local/Caskroom/antigravity-tools"@,
        args.len() == 3,
        args@[0]@ == "upgrade"@ && args@[1]@ == "--cask"@ && args@[2]@ == "antigravity-tools"@,
{
}

/// An upgrade starts on macOS alone, and runs the brew program of `/opt/homebrew` where it
/// exists, else that of `/usr/local`; where neither does, it is over.
pub proof fn law_upgrades_find_their_program(
    on_macos: bool,
    opt_homebrew: bool,
    usr_local: bool,
    started: BrewAction,
    probed: BrewAction,
)
    requires
        call_ensures(brew_upgrade_cask, (BrewEvent::Start { on_macos },), started),
        call_ensures(brew_upgrade_cask, (BrewEvent::Probed { opt_homebrew, usr_local },), probed),
    ensures
        on_macos ==> started is Probe,
        !on_macos ==> (started matches BrewAction::Done(Err(key)) && key@ == "brew_not_supported"@),
        opt_homebrew ==> (probed matches BrewAction::Run { brew } && brew@
            == "/opt/homebrew/bin/brew"@),
        !opt_homebrew && usr_local ==> (probed matches BrewAction::Run { brew } && brew@
            == "/usr/local/bin/brew"@),
        !opt_homebrew && !usr_local ==> (probed matches BrewAction::Done(Err(key)) && key@
            == "brew_not_found"@),
{
}

/// An upgrade that succeeds ends with all that it printed. One that fails is told as the
/// latest version where either output says that it is already installed, and else as a
/// failure; one that took too long or could not be started is told as that.
pub proof fn law_upgrades_are_reported(
    run: BrewRun,
    ran: BrewAction,
    report: Result<String, String>,
)
    requires
        call_ensures(brew_upgrade_cask, (BrewEvent::Ran(run),), ran),
        call_ensures(report_brew_run, (run,), report),
    ensures
        ran matches BrewAction::Done(r) && result_text(r) == result_text(report),
        run is TimedOut ==> (report matches Err(key) && key@ == "brew_timeout"@),
        run is NotStarted ==> (report matches Err(key) && key@ == "brew_exec_failed"@),
        run matches BrewRun::Finished { success, stdout, stderr } ==> {
            &&& success && valid_utf8(stdout@) ==> (report matches Ok(text) && text@
                == decode_utf8(stdout@))
            &&& success && !valid_utf8(stdout@) ==> (report matches Ok(text) && text@
                == utf8_lossy(stdout@))
            &&& !success && (has_text(output_text(stderr@), "already installed"@) || has_text(
                output_text(stdout@),
                "already installed"@,
            )) ==> (report matches Err(key) && key@ == "brew_already_latest"@)
            &&& !success && !has_text(output_text(stderr@), "already installed"@) && !has_text(
                output_text(stdout@),
                "already installed"@,
            ) ==> (report matches Err(key) && key@ == "brew_upgrade_failed"@)
        },
{
}

/// The text of what a program printed: valid UTF-8 as it is decoded, other bytes with the
/// replacements of the standard library.
pub proof fn law_text_of_outputs(bytes: Seq<u8>)
    ensures
        valid_utf8(bytes) ==> output_text(bytes) == decode_utf8(bytes),
        !valid_utf8(bytes) ==> output_text(bytes) == utf8_lossy(bytes),
{
}

/// An upgrade may take three minutes.
pub proof fn law_time_of_upgrades()
    ensures
        BREW_TIMEOUT_SECS == 3 * 60,
{
}

} // verus!
