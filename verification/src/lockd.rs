//! lockd's answer to lock commands and the lock state it keeps.
use vstd::prelude::*;
use crate::ipc::{LockCommand, LockState};
use crate::service::ServiceRole;
use crate::text::{chars_of, push_str, string_from_chars};

verus! {

/// Answers a lock command sent to `destination`: a lock-state change
/// addressed to lockd is applied and echoed, an authentication prompt is
/// echoed; under fault injection both are answered with a "fault
/// injection" prompt and nothing changes; a state change addressed
/// elsewhere is answered with a prompt naming that service.
pub fn lock_command_response(command: LockCommand, destination: ServiceRole, current_state: &mut LockState,
    fail_resume: bool) -> (r: LockCommand)
    ensures
        match command {
            LockCommand::SetLockState { state } => if destination == ServiceRole::Lockd {
                if fail_resume {
                    (r matches LockCommand::AuthPrompt { reason } && reason@ == "fault injection"@)
                        && *final(current_state) == *old(current_state)
                } else {
                    r == (LockCommand::SetLockState { state }) && *final(current_state) == state
                }
            } else {
                (r matches LockCommand::AuthPrompt { reason }
                    && reason@ == "lockd received message addressed to "@ + crate::service::role_name(destination))
                    && *final(current_state) == *old(current_state)
            },
            LockCommand::AuthPrompt { reason: asked } => {
                &&& *final(current_state) == *old(current_state)
                &&& if fail_resume {
                    r matches LockCommand::AuthPrompt { reason } && reason@ == "fault injection"@
                } else {
                    r == (LockCommand::AuthPrompt { reason: asked })
                }
            },
        },
{
    match command {
        LockCommand::SetLockState { state } => {
            if destination == ServiceRole::Lockd {
                if fail_resume {
                    proof { reveal_strlit("fault injection"); }
                    LockCommand::AuthPrompt { reason: String::from_str("fault injection") }
                } else {
                    *current_state = state;
                    LockCommand::SetLockState { state }
                }
            } else {
                let mut m = chars_of("lockd received message addressed to ");
                push_str(&mut m, destination.as_str());
                LockCommand::AuthPrompt { reason: string_from_chars(&m) }
            }
        },
        LockCommand::AuthPrompt { reason } => {
            if fail_resume {
                proof { reveal_strlit("fault injection"); }
                LockCommand::AuthPrompt { reason: String::from_str("fault injection") }
            } else {
                LockCommand::AuthPrompt { reason }
            }
        },
    }
}

} // verus!
