//! Service identities of the broker and their banner line.
use vstd::prelude::*;
use crate::text::{chars_of, push_str, string_from_chars};

verus! {

/// One of the isolated services of the display stack.
#[derive(Debug, Clone, Copy, PartialEq, Eq, Structural)]
pub enum ServiceRole {
    Displayd,
    Waylandd,
    Compd,
    Lockd,
    Sessiond,
    Watchdog,
    X11Bridge,
}

/// Wire name of a service role.
pub open spec fn role_name(role: ServiceRole) -> Seq<char> {
    match role {
        ServiceRole::Displayd => "displayd"@,
        ServiceRole::Waylandd => "waylandd"@,
        ServiceRole::Compd => "compd"@,
        ServiceRole::Lockd => "lockd"@,
        ServiceRole::Sessiond => "sessiond"@,
        ServiceRole::Watchdog => "watchdog"@,
        ServiceRole::X11Bridge => "x11bridge"@,
    }
}

impl ServiceRole {
    pub fn as_str(self) -> (r: &'static str)
        ensures
            r@ == role_name(self),
    {
        match self {
            ServiceRole::Displayd => "displayd",
            ServiceRole::Waylandd => "waylandd",
            ServiceRole::Compd => "compd",
            ServiceRole::Lockd => "lockd",
            ServiceRole::Sessiond => "sessiond",
            ServiceRole::Watchdog => "watchdog",
            ServiceRole::X11Bridge => "x11bridge",
        }
    }
}

/// The start-up banner of a service: its role and what it is responsible for.
#[derive(Debug, Clone, Copy, PartialEq, Eq)]
pub struct ServiceBanner {
    pub role: ServiceRole,
    pub responsibility: &'static str,
}

/// Text of the banner line.
pub open spec fn banner_text(role: ServiceRole, responsibility: Seq<char>) -> Seq<char> {
    "waybroker service="@ + role_name(role) + " responsibility="@ + responsibility
}

impl ServiceBanner {
    pub fn new(role: ServiceRole, responsibility: &'static str) -> (r: Self)
        ensures
            r.role == role,
            r.responsibility == responsibility,
    {
        ServiceBanner { role, responsibility }
    }

    pub fn render(self) -> (r: String)
        ensures
            r@ == banner_text(self.role, self.responsibility@),
    {
        let mut out = chars_of("waybroker service=");
        push_str(&mut out, self.role.as_str());
        push_str(&mut out, " responsibility=");
        push_str(&mut out, self.responsibility);
        string_from_chars(&out)
    }
}

#[verifier::external_type_specification]
#[verifier::external_body]
pub struct ExSystemTime(std::time::SystemTime);

/// `SystemTime::now`: a reading of the system clock, of which nothing is
/// claimed.
#[verifier::external_body]
fn system_time_now() -> std::time::SystemTime {
    std::time::SystemTime::now()
}

/// `SystemTime::duration_since(UNIX_EPOCH)`: the time elapsed since the
/// epoch, or `None` for a reading earlier than the epoch. Which of the two
/// comes back depends on the reading; nothing is claimed of it.
#[verifier::external_body]
fn elapsed_since_unix_epoch(t: std::time::SystemTime) -> Option<std::time::Duration> {
    t.duration_since(std::time::UNIX_EPOCH).ok()
}

/// `Duration::as_secs`: the whole seconds of a duration, its nanoseconds
/// divided by one billion.
#[verifier::external_body]
fn duration_secs(d: std::time::Duration) -> (r: u64)
    ensures
        r == crate::vulkan::duration_nanos(d) / 1_000_000_000,
{
    d.as_secs()
}

/// The timestamp of a clock reading: its seconds since the Unix epoch, or 0
/// for a clock set before the epoch.
pub fn unix_timestamp_of(secs: Option<u64>) -> (r: u64)
    ensures
        r == (match secs {
            Some(s) => s,
            None => 0u64,
        }),
{
    match secs {
        Some(s) => s,
        None => 0,
    }
}

/// Seconds since the Unix epoch; a clock set before the epoch reads as 0.
/// What the system clock reads is not claimed: any value can come back.
pub fn now_unix_timestamp() -> (r: u64)
{
    let secs = match elapsed_since_unix_epoch(system_time_now()) {
        Some(elapsed) => Some(duration_secs(elapsed)),
        None => None,
    };
    unix_timestamp_of(secs)
}

} // verus!
