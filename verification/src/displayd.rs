//! displayd's configuration and its scene-commit state machine.
use vstd::prelude::*;
use crate::cli::{is_arg, ParsedArgs};
use crate::text::{chars_of, push_str, string_from_chars};

verus! {

pub const DEFAULT_SESSION_INSTANCE_ID: &'static str = "default-single-session";

#[derive(Debug, Clone, Copy, PartialEq, Eq, Structural)]
pub enum CaptureBackendType {
    Fake,
    Real,
}

#[derive(Debug, Clone, Copy, PartialEq, Eq, Structural)]
pub enum CaptureMethod {
    Stub,
    X11,
    Portal,
}

/// displayd's options.
#[derive(Debug)]
pub struct DisplaydConfig {
    pub serve_once: bool,
    pub fail_resume: bool,
    pub use_vulkan: bool,
    pub session_instance_id: String,
    pub socket_path: Option<String>,
    pub capture_backend: CaptureBackendType,
    pub allow_real_capture: bool,
    pub capture_method: CaptureMethod,
    pub x11_display: Option<String>,
    pub allow_portal_capture: bool,
    pub allow_portal_dialog: bool,
}

/// The options before any argument: Vulkan preferred, the default session,
/// fake capture through the stub method.
pub open spec fn displayd_defaults(session: String) -> DisplaydConfig {
    DisplaydConfig {
        serve_once: false,
        fail_resume: false,
        use_vulkan: true,
        session_instance_id: session,
        socket_path: None,
        capture_backend: CaptureBackendType::Fake,
        allow_real_capture: false,
        capture_method: CaptureMethod::Stub,
        x11_display: None,
        allow_portal_capture: false,
        allow_portal_dialog: false,
    }
}

/// The options the arguments from index `i` on set, starting from `c`:
/// `Ok(None)` asks for the usage text, `Err` names the bad argument.
pub open spec fn displayd_parse_from(args: Seq<String>, i: int, c: DisplaydConfig) -> Result<Option<DisplaydConfig>, Seq<char>>
    decreases args.len() - i,
{
    if i < 0 || i >= args.len() {
        Ok(Some(c))
    } else {
        let a = args[i]@;
        let has_value = i + 1 < args.len();
        if a == "--once"@ {
            displayd_parse_from(args, i + 1, DisplaydConfig { serve_once: true, ..c })
        } else if a == "--fail-resume"@ {
            displayd_parse_from(args, i + 1, DisplaydConfig { fail_resume: true, ..c })
        } else if a == "--vulkan"@ {
            displayd_parse_from(args, i + 1, DisplaydConfig { use_vulkan: true, ..c })
        } else if a == "--no-vulkan"@ {
            displayd_parse_from(args, i + 1, DisplaydConfig { use_vulkan: false, ..c })
        } else if a == "--session-instance-id"@ {
            if has_value {
                displayd_parse_from(args, i + 2, DisplaydConfig { session_instance_id: args[i + 1], ..c })
            } else {
                Err("--session-instance-id requires an id"@)
            }
        } else if a == "--socket"@ {
            if has_value {
                displayd_parse_from(args, i + 2, DisplaydConfig { socket_path: Some(args[i + 1]), ..c })
            } else {
                Err("--socket requires a path"@)
            }
        } else if a == "--capture-backend"@ {
            if !has_value {
                Err("--capture-backend requires a value"@)
            } else if args[i + 1]@ == "fake"@ {
                displayd_parse_from(args, i + 2, DisplaydConfig { capture_backend: CaptureBackendType::Fake, ..c })
            } else if args[i + 1]@ == "real"@ {
                displayd_parse_from(args, i + 2, DisplaydConfig { capture_backend: CaptureBackendType::Real, ..c })
            } else {
                Err("unknown capture backend: "@ + args[i + 1]@)
            }
        } else if a == "--capture-method"@ {
            if !has_value {
                Err("--capture-method requires a value"@)
            } else if args[i + 1]@ == "stub"@ {
                displayd_parse_from(args, i + 2, DisplaydConfig { capture_method: CaptureMethod::Stub, ..c })
            } else if args[i + 1]@ == "x11"@ {
                displayd_parse_from(args, i + 2, DisplaydConfig { capture_method: CaptureMethod::X11, ..c })
            } else if args[i + 1]@ == "portal"@ {
                displayd_parse_from(args, i + 2, DisplaydConfig { capture_method: CaptureMethod::Portal, ..c })
            } else {
                Err("unknown capture method: "@ + args[i + 1]@)
            }
        } else if a == "--x11-display"@ {
            if !has_value {
                Err("--x11-display requires a value"@)
            } else if args[i + 1]@.len() == 0 {
                Err("--x11-display cannot be empty"@)
            } else {
                displayd_parse_from(args, i + 2, DisplaydConfig { x11_display: Some(args[i + 1]), ..c })
            }
        } else if a == "--allow-real-capture"@ {
            displayd_parse_from(args, i + 1, DisplaydConfig { allow_real_capture: true, ..c })
        } else if a == "--allow-portal-capture"@ {
            displayd_parse_from(args, i + 1, DisplaydConfig { allow_portal_capture: true, ..c })
        } else if a == "--allow-portal-dialog"@ {
            displayd_parse_from(args, i + 1, DisplaydConfig { allow_portal_dialog: true, ..c })
        } else if a == "--help"@ || a == "-h"@ {
            Ok(None)
        } else {
            Err("unknown argument: "@ + a)
        }
    }
}

/// What is wrong with a combination of capture options, checked in order.
pub open spec fn displayd_config_problem(c: DisplaydConfig) -> Option<Seq<char>> {
    if c.capture_backend == CaptureBackendType::Real && !c.allow_real_capture {
        Some("--capture-backend real requires --allow-real-capture"@)
    } else if c.allow_real_capture && c.capture_backend != CaptureBackendType::Real {
        Some("--allow-real-capture requires --capture-backend real"@)
    } else if c.capture_method == CaptureMethod::X11 && c.capture_backend != CaptureBackendType::Real {
        Some("--capture-method x11 requires --capture-backend real"@)
    } else if c.capture_method == CaptureMethod::X11 && c.x11_display is None {
        Some("--capture-method x11 requires --x11-display DISPLAY (DISPLAY env is not used)"@)
    } else if c.capture_method == CaptureMethod::Portal && c.capture_backend != CaptureBackendType::Real {
        Some("--capture-method portal requires --capture-backend real"@)
    } else if c.capture_method == CaptureMethod::Portal && !c.allow_portal_capture {
        Some("--capture-method portal requires --allow-portal-capture"@)
    } else if c.capture_method == CaptureMethod::Portal && !c.allow_portal_dialog {
        Some("--capture-method portal requires --allow-portal-dialog for user interaction"@)
    } else if c.allow_portal_capture && c.capture_method != CaptureMethod::Portal {
        Some("--allow-portal-capture requires --capture-method portal"@)
    } else if c.allow_portal_dialog && c.capture_method != CaptureMethod::Portal {
        Some("--allow-portal-dialog requires --capture-method portal"@)
    } else if c.x11_display is Some && c.capture_method != CaptureMethod::X11 {
        Some("--x11-display requires --capture-method x11"@)
    } else if c.capture_backend == CaptureBackendType::Fake && c.capture_method != CaptureMethod::Stub {
        Some("--capture-backend fake only supports --capture-method stub"@)
    } else {
        None
    }
}

fn err_with(prefix: &str, value: &String) -> (r: String)
    ensures
        r@ == prefix@ + value@,
{
    let mut m = chars_of(prefix);
    push_str(&mut m, value.as_str());
    string_from_chars(&m)
}

fn config_problem(c: &DisplaydConfig) -> (r: Option<String>)
    ensures
        match displayd_config_problem(*c) {
            Some(m) => r matches Some(s) && s@ == m,
            None => r is None,
        },
{
    let is_real = c.capture_backend == CaptureBackendType::Real;
    let x11 = c.capture_method == CaptureMethod::X11;
    let portal = c.capture_method == CaptureMethod::Portal;
    if is_real && !c.allow_real_capture {
        return Some(String::from_str("--capture-backend real requires --allow-real-capture"));
    }
    if c.allow_real_capture && !is_real {
        return Some(String::from_str("--allow-real-capture requires --capture-backend real"));
    }
    if x11 && !is_real {
        return Some(String::from_str("--capture-method x11 requires --capture-backend real"));
    }
    if x11 && c.x11_display.is_none() {
        return Some(String::from_str("--capture-method x11 requires --x11-display DISPLAY (DISPLAY env is not used)"));
    }
    if portal && !is_real {
        return Some(String::from_str("--capture-method portal requires --capture-backend real"));
    }
    if portal && !c.allow_portal_capture {
        return Some(String::from_str("--capture-method portal requires --allow-portal-capture"));
    }
    if portal && !c.allow_portal_dialog {
        return Some(String::from_str("--capture-method portal requires --allow-portal-dialog for user interaction"));
    }
    if c.allow_portal_capture && !portal {
        return Some(String::from_str("--allow-portal-capture requires --capture-method portal"));
    }
    if c.allow_portal_dialog && !portal {
        return Some(String::from_str("--allow-portal-dialog requires --capture-method portal"));
    }
    if c.x11_display.is_some() && !x11 {
        return Some(String::from_str("--x11-display requires --capture-method x11"));
    }
    if !is_real && c.capture_method != CaptureMethod::Stub {
        return Some(String::from_str("--capture-backend fake only supports --capture-method stub"));
    }
    None
}

/// `r` is what parsing `args` from the defaults (with the given default
/// session string) gives.
pub open spec fn parsed_as(r: Result<ParsedArgs<DisplaydConfig>, String>, args: Seq<String>, session: String) -> bool {
    match displayd_parse_from(args, 0, displayd_defaults(session)) {
        Err(m) => r matches Err(e) && e@ == m,
        Ok(None) => r matches Ok(ParsedArgs::Help),
        Ok(Some(c)) => match displayd_config_problem(c) {
            Some(m) => r matches Err(e) && e@ == m,
            None => r matches Ok(ParsedArgs::Run(d)) && d == c,
        },
    }
}

impl DisplaydConfig {
    /// Parses displayd's arguments (the program name excluded), then checks
    /// that the capture options fit together.
    pub fn from_args(args: Vec<String>) -> (r: Result<ParsedArgs<DisplaydConfig>, String>)
        ensures
            exists|session: String| session@ == DEFAULT_SESSION_INSTANCE_ID@ && #[trigger] parsed_as(r, args@, session),
    {
        let mut c = DisplaydConfig {
            serve_once: false,
            fail_resume: false,
            use_vulkan: true,
            session_instance_id: default_session(),
            socket_path: None,
            capture_backend: CaptureBackendType::Fake,
            allow_real_capture: false,
            capture_method: CaptureMethod::Stub,
            x11_display: None,
            allow_portal_capture: false,
            allow_portal_dialog: false,
        };
        let ghost start = c;
        let ghost session = c.session_instance_id;
        assert(start == displayd_defaults(session));
        let n = args.len();
        let mut i: usize = 0;
        while i < n
            invariant
                i <= n == args@.len(),
                session@ == DEFAULT_SESSION_INSTANCE_ID@,
                start == displayd_defaults(session),
                displayd_parse_from(args@, 0, start) == displayd_parse_from(args@, i as int, c),
            decreases n - i,
        {
            let a = &args[i];
            let has_value = i + 1 < n;
            if is_arg(a, "--once") {
                c.serve_once = true;
                i += 1;
            } else if is_arg(a, "--fail-resume") {
                c.fail_resume = true;
                i += 1;
            } else if is_arg(a, "--vulkan") {
                c.use_vulkan = true;
                i += 1;
            } else if is_arg(a, "--no-vulkan") {
                c.use_vulkan = false;
                i += 1;
            } else if is_arg(a, "--session-instance-id") {
                if !has_value {
                    let r = Err(String::from_str("--session-instance-id requires an id"));
                    assert(displayd_parse_from(args@, i as int, c) == Err::<Option<DisplaydConfig>, Seq<char>>("--session-instance-id requires an id"@));
                    assert(parsed_as(r, args@, session));
                    return r;
                }
                c.session_instance_id = args[i + 1].clone();
                i += 2;
            } else if is_arg(a, "--socket") {
                if !has_value {
                    let r = Err(String::from_str("--socket requires a path"));
                    assert(displayd_parse_from(args@, i as int, c) == Err::<Option<DisplaydConfig>, Seq<char>>("--socket requires a path"@));
                    assert(parsed_as(r, args@, session));
                    return r;
                }
                c.socket_path = Some(args[i + 1].clone());
                i += 2;
            } else if is_arg(a, "--capture-backend") {
                if !has_value {
                    { let r = Err(String::from_str("--capture-backend requires a value")); assert(parsed_as(r, args@, session)); return r; }
                }
                let v = &args[i + 1];
                if is_arg(v, "fake") {
                    c.capture_backend = CaptureBackendType::Fake;
                } else if is_arg(v, "real") {
                    c.capture_backend = CaptureBackendType::Real;
                } else {
                    { let r = Err(err_with("unknown capture backend: ", v)); assert(parsed_as(r, args@, session)); return r; }
                }
                i += 2;
            } else if is_arg(a, "--capture-method") {
                if !has_value {
                    { let r = Err(String::from_str("--capture-method requires a value")); assert(parsed_as(r, args@, session)); return r; }
                }
                let v = &args[i + 1];
                if is_arg(v, "stub") {
                    c.capture_method = CaptureMethod::Stub;
                } else if is_arg(v, "x11") {
                    c.capture_method = CaptureMethod::X11;
                } else if is_arg(v, "portal") {
                    c.capture_method = CaptureMethod::Portal;
                } else {
                    { let r = Err(err_with("unknown capture method: ", v)); assert(parsed_as(r, args@, session)); return r; }
                }
                i += 2;
            } else if is_arg(a, "--x11-display") {
                if !has_value {
                    { let r = Err(String::from_str("--x11-display requires a value")); assert(parsed_as(r, args@, session)); return r; }
                }
                if args[i + 1].as_str().is_empty() {
                    { let r = Err(String::from_str("--x11-display cannot be empty")); assert(parsed_as(r, args@, session)); return r; }
                }
                c.x11_display = Some(args[i + 1].clone());
                i += 2;
            } else if is_arg(a, "--allow-real-capture") {
                c.allow_real_capture = true;
                i += 1;
            } else if is_arg(a, "--allow-portal-capture") {
                c.allow_portal_capture = true;
                i += 1;
            } else if is_arg(a, "--allow-portal-dialog") {
                c.allow_portal_dialog = true;
                i += 1;
            } else if is_arg(a, "--help") || is_arg(a, "-h") {
                { let r = Ok(ParsedArgs::Help); assert(parsed_as(r, args@, session)); return r; }
            } else {
                { let r = Err(err_with("unknown argument: ", a)); assert(parsed_as(r, args@, session)); return r; }
            }
        }
        let r = match config_problem(&c) {
            Some(m) => Err(m),
            None => Ok(ParsedArgs::Run(c)),
        };
        assert(parsed_as(r, args@, session));
        r
    }
}

/// The default session id, as a `String`.
pub fn default_session() -> (r: String)
    ensures
        r@ == DEFAULT_SESSION_INSTANCE_ID@,
{
    String::from_str(DEFAULT_SESSION_INSTANCE_ID)
}

} // verus!
