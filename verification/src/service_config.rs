//! Command-line options of compd, the watchdog and lockd.
use vstd::prelude::*;
use crate::cli::{is_arg, ParsedArgs};
use crate::text::{chars_of, push_str, string_from_chars};

verus! {

fn err_with(prefix: &str, value: &String) -> (r: String)
    ensures
        r@ == prefix@ + value@,
{
    let mut m = chars_of(prefix);
    push_str(&mut m, value.as_str());
    string_from_chars(&m)
}

/// compd's options.
#[derive(Debug)]
pub struct CompdConfig {
    pub scene_path: Option<String>,
    pub commit_demo: bool,
    pub print_scene: bool,
    pub require_displayd: bool,
    pub serve_ipc: bool,
    pub serve_once: bool,
    pub fail_resume: bool,
    pub restore_from_displayd: bool,
    pub reconcile_waylandd: bool,
    pub require_waylandd: bool,
    pub handoff_selection: bool,
    pub use_vulkan: bool,
    pub session_instance_id: String,
}

/// compd's options before any argument: Vulkan preferred, the default
/// session, everything else off.
pub open spec fn compd_defaults(session: String) -> CompdConfig {
    CompdConfig {
        scene_path: None, commit_demo: false, print_scene: false, require_displayd: false, serve_ipc: false,
        serve_once: false, fail_resume: false, restore_from_displayd: false, reconcile_waylandd: false,
        require_waylandd: false, handoff_selection: false, use_vulkan: true, session_instance_id: session,
    }
}

/// The options the arguments from index `i` on set, starting from `c`:
/// `Ok(None)` asks for the usage text, `Err` names the bad argument.
pub open spec fn compd_parse_from(args: Seq<String>, i: int, c: CompdConfig) -> Result<Option<CompdConfig>, Seq<char>>
    decreases args.len() - i,
{
    if i < 0 || i >= args.len() {
        Ok(Some(c))
    } else {
        let a = args[i]@;
        let has_value = i + 1 < args.len();
        if a == "--scene"@ {
            if has_value { compd_parse_from(args, i + 2, CompdConfig { scene_path: Some(args[i + 1]), ..c }) }
            else { Err("--scene requires a path"@) }
        } else if a == "--commit-demo"@ {
            compd_parse_from(args, i + 1, CompdConfig { commit_demo: true, ..c })
        } else if a == "--print-scene"@ {
            compd_parse_from(args, i + 1, CompdConfig { print_scene: true, ..c })
        } else if a == "--require-displayd"@ {
            compd_parse_from(args, i + 1, CompdConfig { require_displayd: true, ..c })
        } else if a == "--serve-ipc"@ {
            compd_parse_from(args, i + 1, CompdConfig { serve_ipc: true, ..c })
        } else if a == "--once"@ {
            compd_parse_from(args, i + 1, CompdConfig { serve_once: true, ..c })
        } else if a == "--fail-resume"@ {
            compd_parse_from(args, i + 1, CompdConfig { fail_resume: true, ..c })
        } else if a == "--restore-from-displayd"@ {
            compd_parse_from(args, i + 1, CompdConfig { restore_from_displayd: true, ..c })
        } else if a == "--reconcile-waylandd"@ {
            compd_parse_from(args, i + 1, CompdConfig { reconcile_waylandd: true, ..c })
        } else if a == "--require-waylandd"@ {
            compd_parse_from(args, i + 1, CompdConfig { require_waylandd: true, ..c })
        } else if a == "--handoff-selection"@ {
            compd_parse_from(args, i + 1, CompdConfig { handoff_selection: true, ..c })
        } else if a == "--vulkan"@ {
            compd_parse_from(args, i + 1, CompdConfig { use_vulkan: true, ..c })
        } else if a == "--no-vulkan"@ {
            compd_parse_from(args, i + 1, CompdConfig { use_vulkan: false, ..c })
        } else if a == "--session-instance-id"@ {
            if has_value { compd_parse_from(args, i + 2, CompdConfig { session_instance_id: args[i + 1], ..c }) }
            else { Err("--session-instance-id requires an id"@) }
        } else if a == "--help"@ || a == "-h"@ {
            Ok(None)
        } else {
            Err("unknown argument: "@ + a)
        }
    }
}

/// `r` is what parsing `args` from compd's defaults gives.
pub open spec fn compd_parsed_as(r: Result<ParsedArgs<CompdConfig>, String>, args: Seq<String>, session: String) -> bool {
    match compd_parse_from(args, 0, compd_defaults(session)) {
        Err(m) => r matches Err(e) && e@ == m,
        Ok(None) => r matches Ok(ParsedArgs::Help),
        Ok(Some(c)) => r matches Ok(ParsedArgs::Run(d)) && d == c,
    }
}

impl CompdConfig {
    /// Parses compd's arguments (the program name excluded).
    #[verifier::rlimit(60)]
    pub fn from_args(args: Vec<String>) -> (r: Result<ParsedArgs<CompdConfig>, String>)
        ensures
            exists|session: String| session@ == crate::displayd::DEFAULT_SESSION_INSTANCE_ID@
                && #[trigger] compd_parsed_as(r, args@, session),
    {
        let mut c = CompdConfig {
            scene_path: None, commit_demo: false, print_scene: false, require_displayd: false, serve_ipc: false,
            serve_once: false, fail_resume: false, restore_from_displayd: false, reconcile_waylandd: false,
            require_waylandd: false, handoff_selection: false, use_vulkan: true,
            session_instance_id: crate::displayd::default_session(),
        };
        let ghost start = c;
        let ghost session = c.session_instance_id;
        assert(start == compd_defaults(session));
        let n = args.len();
        let mut i: usize = 0;
        while i < n
            invariant
                i <= n == args@.len(),
                session@ == crate::displayd::DEFAULT_SESSION_INSTANCE_ID@,
                start == compd_defaults(session),
                compd_parse_from(args@, 0, start) == compd_parse_from(args@, i as int, c),
            decreases n - i,
        {
            let a = &args[i];
            let has_value = i + 1 < n;
            if is_arg(a, "--scene") {
                if !has_value {
                    { let r = Err(String::from_str("--scene requires a path")); assert(compd_parsed_as(r, args@, session)); return r; }
                }
                c.scene_path = Some(args[i + 1].clone());
                i += 2;
            } else if is_arg(a, "--commit-demo") {
                c.commit_demo = true;
                i += 1;
            } else if is_arg(a, "--print-scene") {
                c.print_scene = true;
                i += 1;
            } else if is_arg(a, "--require-displayd") {
                c.require_displayd = true;
                i += 1;
            } else if is_arg(a, "--serve-ipc") {
                c.serve_ipc = true;
                i += 1;
            } else if is_arg(a, "--once") {
                c.serve_once = true;
                i += 1;
            } else if is_arg(a, "--fail-resume") {
                c.fail_resume = true;
                i += 1;
            } else if is_arg(a, "--restore-from-displayd") {
                c.restore_from_displayd = true;
                i += 1;
            } else if is_arg(a, "--reconcile-waylandd") {
                c.reconcile_waylandd = true;
                i += 1;
            } else if is_arg(a, "--require-waylandd") {
                c.require_waylandd = true;
                i += 1;
            } else if is_arg(a, "--handoff-selection") {
                c.handoff_selection = true;
                i += 1;
            } else if is_arg(a, "--vulkan") {
                c.use_vulkan = true;
                i += 1;
            } else if is_arg(a, "--no-vulkan") {
                c.use_vulkan = false;
                i += 1;
            } else if is_arg(a, "--session-instance-id") {
                if !has_value {
                    { let r = Err(String::from_str("--session-instance-id requires an id")); assert(compd_parsed_as(r, args@, session)); return r; }
                }
                c.session_instance_id = args[i + 1].clone();
                i += 2;
            } else if is_arg(a, "--help") || is_arg(a, "-h") {
                { let r = Ok(ParsedArgs::Help); assert(compd_parsed_as(r, args@, session)); return r; }
            } else {
                { let r = Err(err_with("unknown argument: ", a)); assert(compd_parsed_as(r, args@, session)); return r; }
            }
        }
        let r = Ok(ParsedArgs::Run(c));
        assert(compd_parsed_as(r, args@, session));
        r
    }
}

/// The watchdog's options.
#[derive(Debug, PartialEq, Eq)]
pub struct WatchdogConfig {
    pub launch_state_path: Option<String>,
    pub profile_id: Option<String>,
    pub inspect_all: bool,
    pub write_reports: bool,
    pub notify_sessiond: bool,
    pub serve_ipc: bool,
    pub serve_once: bool,
}

pub open spec fn watchdog_defaults() -> WatchdogConfig {
    WatchdogConfig {
        launch_state_path: None, profile_id: None, inspect_all: false, write_reports: false,
        notify_sessiond: false, serve_ipc: false, serve_once: false,
    }
}

/// The watchdog options the arguments from index `i` on set.
pub open spec fn watchdog_parse_from(args: Seq<String>, i: int, c: WatchdogConfig) -> Result<Option<WatchdogConfig>, Seq<char>>
    decreases args.len() - i,
{
    if i < 0 || i >= args.len() {
        Ok(Some(c))
    } else {
        let a = args[i]@;
        let has_value = i + 1 < args.len();
        if a == "--launch-state"@ {
            if has_value { watchdog_parse_from(args, i + 2, WatchdogConfig { launch_state_path: Some(args[i + 1]), ..c }) }
            else { Err("--launch-state requires a path"@) }
        } else if a == "--profile-id"@ {
            if has_value { watchdog_parse_from(args, i + 2, WatchdogConfig { profile_id: Some(args[i + 1]), ..c }) }
            else { Err("--profile-id requires an id"@) }
        } else if a == "--inspect-all"@ {
            watchdog_parse_from(args, i + 1, WatchdogConfig { inspect_all: true, ..c })
        } else if a == "--write-reports"@ {
            watchdog_parse_from(args, i + 1, WatchdogConfig { write_reports: true, ..c })
        } else if a == "--notify-sessiond"@ {
            watchdog_parse_from(args, i + 1, WatchdogConfig { notify_sessiond: true, ..c })
        } else if a == "--serve-ipc"@ {
            watchdog_parse_from(args, i + 1, WatchdogConfig { serve_ipc: true, ..c })
        } else if a == "--once"@ {
            watchdog_parse_from(args, i + 1, WatchdogConfig { serve_once: true, ..c })
        } else if a == "--help"@ || a == "-h"@ {
            Ok(None)
        } else {
            Err("unknown argument: "@ + a)
        }
    }
}

impl WatchdogConfig {
    /// Parses the watchdog's arguments (the program name excluded).
    pub fn from_args(args: Vec<String>) -> (r: Result<ParsedArgs<WatchdogConfig>, String>)
        ensures
            match watchdog_parse_from(args@, 0, watchdog_defaults()) {
                Err(m) => r matches Err(e) && e@ == m,
                Ok(None) => r matches Ok(ParsedArgs::Help),
                Ok(Some(c)) => r matches Ok(ParsedArgs::Run(d)) && d == c,
            },
    {
        let mut c = WatchdogConfig {
            launch_state_path: None, profile_id: None, inspect_all: false, write_reports: false,
            notify_sessiond: false, serve_ipc: false, serve_once: false,
        };
        let n = args.len();
        let mut i: usize = 0;
        while i < n
            invariant
                i <= n == args@.len(),
                watchdog_parse_from(args@, 0, watchdog_defaults()) == watchdog_parse_from(args@, i as int, c),
            decreases n - i,
        {
            let a = &args[i];
            let has_value = i + 1 < n;
            if is_arg(a, "--launch-state") {
                if !has_value {
                    return Err(String::from_str("--launch-state requires a path"));
                }
                c.launch_state_path = Some(args[i + 1].clone());
                i += 2;
            } else if is_arg(a, "--profile-id") {
                if !has_value {
                    return Err(String::from_str("--profile-id requires an id"));
                }
                c.profile_id = Some(args[i + 1].clone());
                i += 2;
            } else if is_arg(a, "--inspect-all") {
                c.inspect_all = true;
                i += 1;
            } else if is_arg(a, "--write-reports") {
                c.write_reports = true;
                i += 1;
            } else if is_arg(a, "--notify-sessiond") {
                c.notify_sessiond = true;
                i += 1;
            } else if is_arg(a, "--serve-ipc") {
                c.serve_ipc = true;
                i += 1;
            } else if is_arg(a, "--once") {
                c.serve_once = true;
                i += 1;
            } else if is_arg(a, "--help") || is_arg(a, "-h") {
                return Ok(ParsedArgs::Help);
            } else {
                return Err(err_with("unknown argument: ", a));
            }
        }
        Ok(ParsedArgs::Run(c))
    }

    /// The watchdog has something to inspect: a launch-state file, a profile
    /// or every profile.
    pub fn has_inspection_target(&self) -> (r: bool)
        ensures
            r == (self.launch_state_path is Some || self.profile_id is Some || self.inspect_all),
    {
        self.launch_state_path.is_some() || self.profile_id.is_some() || self.inspect_all
    }
}

/// lockd's options.
#[derive(Debug, Clone, Copy, PartialEq, Eq, Structural)]
pub struct LockdConfig {
    pub serve_ipc: bool,
    pub serve_once: bool,
    pub fail_resume: bool,
}

/// The lockd options the arguments from index `i` on set.
pub open spec fn lockd_parse_from(args: Seq<String>, i: int, c: LockdConfig) -> Result<Option<LockdConfig>, Seq<char>>
    decreases args.len() - i,
{
    if i < 0 || i >= args.len() {
        Ok(Some(c))
    } else {
        let a = args[i]@;
        if a == "--serve-ipc"@ {
            lockd_parse_from(args, i + 1, LockdConfig { serve_ipc: true, ..c })
        } else if a == "--once"@ {
            lockd_parse_from(args, i + 1, LockdConfig { serve_once: true, ..c })
        } else if a == "--fail-resume"@ {
            lockd_parse_from(args, i + 1, LockdConfig { fail_resume: true, ..c })
        } else if a == "--help"@ || a == "-h"@ {
            Ok(None)
        } else {
            Err("unknown argument: "@ + a)
        }
    }
}

impl LockdConfig {
    /// Parses lockd's arguments (the program name excluded).
    pub fn from_args(args: Vec<String>) -> (r: Result<ParsedArgs<LockdConfig>, String>)
        ensures
            match lockd_parse_from(args@, 0, LockdConfig { serve_ipc: false, serve_once: false, fail_resume: false }) {
                Err(m) => r matches Err(e) && e@ == m,
                Ok(None) => r matches Ok(ParsedArgs::Help),
                Ok(Some(c)) => r matches Ok(ParsedArgs::Run(d)) && d == c,
            },
    {
        let mut c = LockdConfig { serve_ipc: false, serve_once: false, fail_resume: false };
        let n = args.len();
        let mut i: usize = 0;
        while i < n
            invariant
                i <= n == args@.len(),
                lockd_parse_from(args@, 0, LockdConfig { serve_ipc: false, serve_once: false, fail_resume: false })
                    == lockd_parse_from(args@, i as int, c),
            decreases n - i,
        {
            let a = &args[i];
            if is_arg(a, "--serve-ipc") {
                c.serve_ipc = true;
            } else if is_arg(a, "--once") {
                c.serve_once = true;
            } else if is_arg(a, "--fail-resume") {
                c.fail_resume = true;
            } else if is_arg(a, "--help") || is_arg(a, "-h") {
                return Ok(ParsedArgs::Help);
            } else {
                return Err(err_with("unknown argument: ", a));
            }
            i += 1;
        }
        Ok(ParsedArgs::Run(c))
    }
}


/// sessiond's options.
#[derive(Debug, PartialEq, Eq)]
pub struct SessiondConfig {
    pub repo_root: Option<String>,
    pub profiles_dir: Option<String>,
    pub list_profiles: bool,
    pub selected_profile_id: Option<String>,
    pub print_launch_plan: bool,
    pub write_selection: bool,
    pub launch_profile_id: Option<String>,
    pub launch_active: bool,
    pub spawn_components: bool,
    pub supervise_seconds: u64,
    pub restart_limit: u32,
    pub apply_watchdog_active: bool,
    pub watchdog_report_path: Option<String>,
    pub serve_ipc: bool,
    pub serve_once: bool,
    pub manage_active: bool,
    pub notify_watchdog: bool,
    pub resume_demo: bool,
    pub resume_scenario: Option<crate::sessiond::ResumeScenario>,
}

/// sessiond's options before any argument: nothing selected, two restarts
/// allowed per component.
pub open spec fn sessiond_defaults() -> SessiondConfig {
    SessiondConfig {
        repo_root: None, profiles_dir: None, list_profiles: false, selected_profile_id: None,
        print_launch_plan: false, write_selection: false, launch_profile_id: None, launch_active: false,
        spawn_components: false, supervise_seconds: 0, restart_limit: 2, apply_watchdog_active: false,
        watchdog_report_path: None, serve_ipc: false, serve_once: false, manage_active: false,
        notify_watchdog: false, resume_demo: false, resume_scenario: None,
    }
}

/// The scenario a name selects.
pub open spec fn scenario_of(name: Seq<char>) -> Option<crate::sessiond::ResumeScenario> {
    if name == "normal"@ { Some(crate::sessiond::ResumeScenario::Normal) }
    else if name == "displayd-trouble"@ { Some(crate::sessiond::ResumeScenario::DisplaydTrouble) }
    else if name == "compd-trouble"@ { Some(crate::sessiond::ResumeScenario::CompdTrouble) }
    else if name == "lockd-trouble"@ { Some(crate::sessiond::ResumeScenario::LockdTrouble) }
    else { None }
}

/// The sessiond options the arguments from index `i` on set.
pub open spec fn sessiond_parse_from(args: Seq<String>, i: int, c: SessiondConfig) -> Result<Option<SessiondConfig>, Seq<char>>
    decreases args.len() - i,
{
    if i < 0 || i >= args.len() {
        Ok(Some(c))
    } else {
        let a = args[i]@;
        let has_value = i + 1 < args.len();
        if a == "--repo-root"@ {
            if has_value { sessiond_parse_from(args, i + 2, SessiondConfig { repo_root: Some(args[i + 1]), ..c }) }
            else { Err("--repo-root requires a path"@) }
        } else if a == "--profiles-dir"@ {
            if has_value { sessiond_parse_from(args, i + 2, SessiondConfig { profiles_dir: Some(args[i + 1]), ..c }) }
            else { Err("--profiles-dir requires a path"@) }
        } else if a == "--list-profiles"@ {
            sessiond_parse_from(args, i + 1, SessiondConfig { list_profiles: true, ..c })
        } else if a == "--select-profile"@ {
            if has_value { sessiond_parse_from(args, i + 2, SessiondConfig { selected_profile_id: Some(args[i + 1]), ..c }) }
            else { Err("--select-profile requires an id"@) }
        } else if a == "--print-launch-plan"@ {
            sessiond_parse_from(args, i + 1, SessiondConfig { print_launch_plan: true, ..c })
        } else if a == "--write-selection"@ {
            sessiond_parse_from(args, i + 1, SessiondConfig { write_selection: true, ..c })
        } else if a == "--launch-profile"@ {
            if has_value { sessiond_parse_from(args, i + 2, SessiondConfig { launch_profile_id: Some(args[i + 1]), ..c }) }
            else { Err("--launch-profile requires an id"@) }
        } else if a == "--launch-active"@ {
            sessiond_parse_from(args, i + 1, SessiondConfig { launch_active: true, ..c })
        } else if a == "--spawn-components"@ {
            sessiond_parse_from(args, i + 1, SessiondConfig { spawn_components: true, ..c })
        } else if a == "--apply-watchdog-active"@ {
            sessiond_parse_from(args, i + 1, SessiondConfig { apply_watchdog_active: true, ..c })
        } else if a == "--watchdog-report"@ {
            if has_value { sessiond_parse_from(args, i + 2, SessiondConfig { watchdog_report_path: Some(args[i + 1]), ..c }) }
            else { Err("--watchdog-report requires a path"@) }
        } else if a == "--serve-ipc"@ {
            sessiond_parse_from(args, i + 1, SessiondConfig { serve_ipc: true, ..c })
        } else if a == "--once"@ {
            sessiond_parse_from(args, i + 1, SessiondConfig { serve_once: true, ..c })
        } else if a == "--manage-active"@ {
            sessiond_parse_from(args, i + 1, SessiondConfig { manage_active: true, ..c })
        } else if a == "--notify-watchdog"@ {
            sessiond_parse_from(args, i + 1, SessiondConfig { notify_watchdog: true, ..c })
        } else if a == "--resume-demo"@ {
            sessiond_parse_from(args, i + 1, SessiondConfig { resume_demo: true, ..c })
        } else if a == "--resume-scenario"@ {
            if !has_value { Err("--resume-scenario requires a name"@) }
            else { match scenario_of(args[i + 1]@) {
                Some(sc) => sessiond_parse_from(args, i + 2, SessiondConfig { resume_scenario: Some(sc), ..c }),
                None => Err("unknown resume scenario: "@ + args[i + 1]@),
            } }
        } else if a == "--supervise-seconds"@ {
            if !has_value { Err("--supervise-seconds requires a number"@) }
            else { match crate::transport::spec_parse_unsigned(args[i + 1]@, u64::MAX) {
                Some(v) => sessiond_parse_from(args, i + 2, SessiondConfig { supervise_seconds: v, ..c }),
                None => Err("invalid --supervise-seconds value: "@ + args[i + 1]@),
            } }
        } else if a == "--restart-limit"@ {
            if !has_value { Err("--restart-limit requires a number"@) }
            else { match crate::transport::spec_parse_unsigned(args[i + 1]@, u32::MAX as u64) {
                Some(v) => sessiond_parse_from(args, i + 2, SessiondConfig { restart_limit: v as u32, ..c }),
                None => Err("invalid --restart-limit value: "@ + args[i + 1]@),
            } }
        } else if a == "--help"@ || a == "-h"@ {
            Ok(None)
        } else {
            Err("unknown argument: "@ + a)
        }
    }
}

/// One step of sessiond's argument parsing.
pub enum ParseStep {
    /// Go on at this index.
    Next(usize),
    /// Parsing is over with this outcome.
    Stop(Result<ParsedArgs<SessiondConfig>, String>),
}

#[verifier::rlimit(80)]
fn sessiond_step(args: &Vec<String>, i: usize, c: &mut SessiondConfig) -> (r: ParseStep)
    requires
        i < args@.len(),
    ensures
        step_matches(args@, i as int, *old(c), *final(c), r),
{
    let n = args.len();
    let a = &args[i];
    let has_value = i + 1 < n;
    if is_arg(a, "--repo-root") {
        if !has_value { return ParseStep::Stop(Err(String::from_str("--repo-root requires a path"))); }
        c.repo_root = Some(args[i + 1].clone());
        ParseStep::Next(i + 2)
    } else if is_arg(a, "--profiles-dir") {
        if !has_value { return ParseStep::Stop(Err(String::from_str("--profiles-dir requires a path"))); }
        c.profiles_dir = Some(args[i + 1].clone());
        ParseStep::Next(i + 2)
    } else if is_arg(a, "--list-profiles") {
        c.list_profiles = true;
        ParseStep::Next(i + 1)
    } else if is_arg(a, "--select-profile") {
        if !has_value { return ParseStep::Stop(Err(String::from_str("--select-profile requires an id"))); }
        c.selected_profile_id = Some(args[i + 1].clone());
        ParseStep::Next(i + 2)
    } else if is_arg(a, "--print-launch-plan") {
        c.print_launch_plan = true;
        ParseStep::Next(i + 1)
    } else if is_arg(a, "--write-selection") {
        c.write_selection = true;
        ParseStep::Next(i + 1)
    } else if is_arg(a, "--launch-profile") {
        if !has_value { return ParseStep::Stop(Err(String::from_str("--launch-profile requires an id"))); }
        c.launch_profile_id = Some(args[i + 1].clone());
        ParseStep::Next(i + 2)
    } else if is_arg(a, "--launch-active") {
        c.launch_active = true;
        ParseStep::Next(i + 1)
    } else if is_arg(a, "--spawn-components") {
        c.spawn_components = true;
        ParseStep::Next(i + 1)
    } else if is_arg(a, "--apply-watchdog-active") {
        c.apply_watchdog_active = true;
        ParseStep::Next(i + 1)
    } else if is_arg(a, "--watchdog-report") {
        if !has_value { return ParseStep::Stop(Err(String::from_str("--watchdog-report requires a path"))); }
        c.watchdog_report_path = Some(args[i + 1].clone());
        ParseStep::Next(i + 2)
    } else if is_arg(a, "--serve-ipc") {
        c.serve_ipc = true;
        ParseStep::Next(i + 1)
    } else if is_arg(a, "--once") {
        c.serve_once = true;
        ParseStep::Next(i + 1)
    } else if is_arg(a, "--manage-active") {
        c.manage_active = true;
        ParseStep::Next(i + 1)
    } else if is_arg(a, "--notify-watchdog") {
        c.notify_watchdog = true;
        ParseStep::Next(i + 1)
    } else if is_arg(a, "--resume-demo") {
        c.resume_demo = true;
        ParseStep::Next(i + 1)
    } else {
        sessiond_value_step(args, i, c)
    }
}

/// None of the options without a value, nor those with a path or id.
pub open spec fn not_simple_sessiond_option(a: Seq<char>) -> bool {
    a != "--repo-root"@ && a != "--profiles-dir"@ && a != "--list-profiles"@
        && a != "--select-profile"@ && a != "--print-launch-plan"@
        && a != "--write-selection"@ && a != "--launch-profile"@
        && a != "--launch-active"@ && a != "--spawn-components"@
        && a != "--apply-watchdog-active"@ && a != "--watchdog-report"@
        && a != "--serve-ipc"@ && a != "--once"@ && a != "--manage-active"@
        && a != "--notify-watchdog"@ && a != "--resume-demo"@
}

/// The outcome of one step matches the specification from index `i`.
pub open spec fn step_matches(args: Seq<String>, i: int, before: SessiondConfig, after: SessiondConfig, r: ParseStep) -> bool {
    match r {
        ParseStep::Next(j) => i < j <= args.len()
            && sessiond_parse_from(args, i, before) == sessiond_parse_from(args, j as int, after),
        ParseStep::Stop(res) => match sessiond_parse_from(args, i, before) {
            Err(m) => res matches Err(e) && e@ == m,
            Ok(None) => res matches Ok(ParsedArgs::Help),
            Ok(Some(_)) => false,
        },
    }
}

#[verifier::spinoff_prover]
fn sessiond_scenario_step(args: &Vec<String>, i: usize, c: &mut SessiondConfig) -> (r: ParseStep)
    requires
        i < args@.len(),
        not_simple_sessiond_option(args@[i as int]@),
        args@[i as int]@ == "--resume-scenario"@,
    ensures
        step_matches(args@, i as int, *old(c), *final(c), r),
{
    if args.len() - i < 2 { return ParseStep::Stop(Err(String::from_str("--resume-scenario requires a name"))); }
    proof {
        reveal_strlit("normal");
        reveal_strlit("displayd-trouble");
        reveal_strlit("compd-trouble");
        reveal_strlit("lockd-trouble");
    }
    match crate::sessiond::ResumeScenario::from_str(args[i + 1].as_str()) {
        Ok(sc) => {
            c.resume_scenario = Some(sc);
            ParseStep::Next(i + 2)
        },
        Err(e) => {
            proof {
                assert(crate::sessiond::scenario_name(crate::sessiond::ResumeScenario::Normal) != args@[i + 1]@);
                assert(crate::sessiond::scenario_name(crate::sessiond::ResumeScenario::DisplaydTrouble) != args@[i + 1]@);
                assert(crate::sessiond::scenario_name(crate::sessiond::ResumeScenario::CompdTrouble) != args@[i + 1]@);
                assert(crate::sessiond::scenario_name(crate::sessiond::ResumeScenario::LockdTrouble) != args@[i + 1]@);
            }
            ParseStep::Stop(Err(e))
        },
    }
}

#[verifier::spinoff_prover]
fn sessiond_number_step(args: &Vec<String>, i: usize, c: &mut SessiondConfig) -> (r: ParseStep)
    requires
        i < args@.len(),
        not_simple_sessiond_option(args@[i as int]@),
        args@[i as int]@ != "--resume-scenario"@,
    ensures
        step_matches(args@, i as int, *old(c), *final(c), r),
{
    let n = args.len();
    let a = &args[i];
    let has_value = i + 1 < n;
    if is_arg(a, "--supervise-seconds") {
        if !has_value { return ParseStep::Stop(Err(String::from_str("--supervise-seconds requires a number"))); }
        match crate::transport::parse_unsigned(args[i + 1].as_str(), u64::MAX) {
            Some(v) => {
                c.supervise_seconds = v;
                ParseStep::Next(i + 2)
            },
            None => ParseStep::Stop(Err(err_with("invalid --supervise-seconds value: ", &args[i + 1]))),
        }
    } else if is_arg(a, "--restart-limit") {
        if !has_value { return ParseStep::Stop(Err(String::from_str("--restart-limit requires a number"))); }
        match crate::transport::parse_unsigned(args[i + 1].as_str(), 4294967295) {
            Some(v) => {
                c.restart_limit = v as u32;
                ParseStep::Next(i + 2)
            },
            None => ParseStep::Stop(Err(err_with("invalid --restart-limit value: ", &args[i + 1]))),
        }
    } else if is_arg(a, "--help") || is_arg(a, "-h") {
        ParseStep::Stop(Ok(ParsedArgs::Help))
    } else {
        ParseStep::Stop(Err(err_with("unknown argument: ", a)))
    }
}

fn sessiond_value_step(args: &Vec<String>, i: usize, c: &mut SessiondConfig) -> (r: ParseStep)
    requires
        i < args@.len(),
        not_simple_sessiond_option(args@[i as int]@),
    ensures
        step_matches(args@, i as int, *old(c), *final(c), r),
{
    if is_arg(&args[i], "--resume-scenario") {
        sessiond_scenario_step(args, i, c)
    } else {
        sessiond_number_step(args, i, c)
    }
}

impl SessiondConfig {
    /// Parses sessiond's arguments (the program name excluded).
    pub fn from_args(args: Vec<String>) -> (r: Result<ParsedArgs<SessiondConfig>, String>)
        ensures
            match sessiond_parse_from(args@, 0, sessiond_defaults()) {
                Err(m) => r matches Err(e) && e@ == m,
                Ok(None) => r matches Ok(ParsedArgs::Help),
                Ok(Some(c)) => r matches Ok(ParsedArgs::Run(d)) && d == c,
            },
    {
        let mut c = SessiondConfig {
            repo_root: None, profiles_dir: None, list_profiles: false, selected_profile_id: None,
            print_launch_plan: false, write_selection: false, launch_profile_id: None, launch_active: false,
            spawn_components: false, supervise_seconds: 0, restart_limit: 2, apply_watchdog_active: false,
            watchdog_report_path: None, serve_ipc: false, serve_once: false, manage_active: false,
            notify_watchdog: false, resume_demo: false, resume_scenario: None,
        };
        let n = args.len();
        let mut i: usize = 0;
        while i < n
            invariant
                i <= n == args@.len(),
                sessiond_parse_from(args@, 0, sessiond_defaults()) == sessiond_parse_from(args@, i as int, c),
            decreases n - i,
        {
            match sessiond_step(&args, i, &mut c) {
                ParseStep::Next(j) => { i = j; },
                ParseStep::Stop(res) => { return res; },
            }
        }
        Ok(ParsedArgs::Run(c))
    }
}

} // verus!
