//! The watchdog's health judgement of launched components and its cache of
//! launch states kept in step with sessiond's update stream.
use vstd::prelude::*;
use crate::profile::{
    DesktopComponentState, DesktopHealthStatus, DesktopRecoveryAction, SessionLaunchComponentState,
    SessionLaunchDelta, SessionLaunchState, SessionWatchdogComponentReport, SessionWatchdogReport,
};
use crate::service::now_unix_timestamp;
use crate::text::{chars_of, decimal_chars, push_chars, push_str, string_from_chars};

verus! {

/// The recovery a failed component calls for: none when it is not
/// critical, a degraded profile after three restarts, else a restart.
pub open spec fn spec_component_action(c: SessionLaunchComponentState) -> DesktopRecoveryAction {
    if !c.critical {
        DesktopRecoveryAction::NoAction
    } else if c.restart_count >= 3 {
        DesktopRecoveryAction::DegradedProfile
    } else {
        DesktopRecoveryAction::RestartComponent
    }
}

pub fn component_action(component: &SessionLaunchComponentState) -> (r: DesktopRecoveryAction)
    ensures
        r == spec_component_action(*component),
{
    if !component.critical {
        return DesktopRecoveryAction::NoAction;
    }
    if component.restart_count >= 3 { DesktopRecoveryAction::DegradedProfile } else { DesktopRecoveryAction::RestartComponent }
}

/// Health, recovery and reason for a component, given whether its process
/// is alive: a missing command is unhealthy (a degraded profile when
/// critical); a failed component is unhealthy; a ready one is inactive; a
/// spawned one is healthy only while its process lives.
pub open spec fn spec_inspection(c: SessionLaunchComponentState, alive: bool) -> (DesktopHealthStatus, DesktopRecoveryAction, Seq<char>) {
    match c.state {
        DesktopComponentState::Missing => (DesktopHealthStatus::Unhealthy,
            if c.critical { DesktopRecoveryAction::DegradedProfile } else { DesktopRecoveryAction::NoAction },
            "component command is not installed"@),
        DesktopComponentState::Failed => (DesktopHealthStatus::Unhealthy, spec_component_action(c),
            "component spawn failed or supervisor gave up"@),
        DesktopComponentState::Ready => (DesktopHealthStatus::Inactive, DesktopRecoveryAction::NoAction,
            "component is installed but not launched"@),
        DesktopComponentState::Spawned => match c.pid {
            Some(_) => if alive {
                (DesktopHealthStatus::Healthy, DesktopRecoveryAction::NoAction, "component process is alive"@)
            } else {
                (DesktopHealthStatus::Unhealthy, spec_component_action(c), "component process is missing"@)
            },
            None => (DesktopHealthStatus::Unhealthy, spec_component_action(c), "component was marked spawned without pid"@),
        },
    }
}

/// The recovery the watchdog asks for: a critical component that fails is
/// restarted until it has been restarted three times, after which the
/// session degrades to its fallback profile; a critical component whose
/// command is missing degrades at once; a non-critical component, and any
/// healthy or inactive one, calls for nothing. A spawned component is
/// healthy exactly while its process lives; a ready one is inactive; a
/// missing or failed one is unhealthy.
pub proof fn law_recovery_escalates_after_three_restarts(c: SessionLaunchComponentState, alive: bool)
    ensures
        ({
            let (status, action, _) = spec_inspection(c, alive);
            &&& status != DesktopHealthStatus::Unhealthy ==> action == DesktopRecoveryAction::NoAction
            &&& !c.critical ==> action == DesktopRecoveryAction::NoAction
            &&& (c.state == DesktopComponentState::Missing && c.critical) ==> action == DesktopRecoveryAction::DegradedProfile
            &&& (status == DesktopHealthStatus::Unhealthy && c.state != DesktopComponentState::Missing && c.critical
                && c.restart_count < 3) ==> action == DesktopRecoveryAction::RestartComponent
            &&& (status == DesktopHealthStatus::Unhealthy && c.critical && c.restart_count >= 3)
                ==> action == DesktopRecoveryAction::DegradedProfile
            &&& c.state == DesktopComponentState::Failed ==> status == DesktopHealthStatus::Unhealthy
            &&& c.state == DesktopComponentState::Missing ==> status == DesktopHealthStatus::Unhealthy
            &&& c.state == DesktopComponentState::Ready ==> status == DesktopHealthStatus::Inactive
            &&& c.state == DesktopComponentState::Spawned ==> (status == DesktopHealthStatus::Healthy <==> (c.pid is Some && alive))
            &&& c.state == DesktopComponentState::Spawned && !(c.pid is Some && alive) ==> status == DesktopHealthStatus::Unhealthy
        }),
{
}

/// The report line of one component; `process_alive` says whether the
/// process of its pid exists.
pub fn inspect_component(component: &SessionLaunchComponentState, process_alive: bool) -> (r: SessionWatchdogComponentReport)
    ensures
        ({
            let (status, action, reason) = spec_inspection(*component, process_alive);
            &&& r.status == status && r.action == action && r.reason@ == reason
            &&& r.id == component.id && r.role == component.role && r.critical == component.critical
            &&& r.pid == component.pid && r.crash_loop_count == component.restart_count
        }),
{
    let (status, action, reason) = match component.state {
        DesktopComponentState::Missing => (
            DesktopHealthStatus::Unhealthy,
            if component.critical { DesktopRecoveryAction::DegradedProfile } else { DesktopRecoveryAction::NoAction },
            "component command is not installed",
        ),
        DesktopComponentState::Failed => (DesktopHealthStatus::Unhealthy, component_action(component),
            "component spawn failed or supervisor gave up"),
        DesktopComponentState::Ready => (DesktopHealthStatus::Inactive, DesktopRecoveryAction::NoAction,
            "component is installed but not launched"),
        DesktopComponentState::Spawned => match component.pid {
            Some(_) => if process_alive {
                (DesktopHealthStatus::Healthy, DesktopRecoveryAction::NoAction, "component process is alive")
            } else {
                (DesktopHealthStatus::Unhealthy, component_action(component), "component process is missing")
            },
            None => (DesktopHealthStatus::Unhealthy, component_action(component), "component was marked spawned without pid"),
        },
    };
    SessionWatchdogComponentReport {
        id: component.id.clone(),
        role: component.role,
        critical: component.critical,
        status,
        pid: component.pid,
        crash_loop_count: component.restart_count,
        action,
        reason: String::from_str(reason),
    }
}

/// How many of the first `k` components have the given health.
pub open spec fn count_status(cs: Seq<SessionLaunchComponentState>, alive: Seq<bool>, status: DesktopHealthStatus, k: int) -> int
    decreases k,
{
    if k <= 0 {
        0
    } else {
        count_status(cs, alive, status, k - 1) + if spec_inspection(cs[k - 1], alive[k - 1]).0 == status { 1int } else { 0int }
    }
}

proof fn lemma_count_bound(cs: Seq<SessionLaunchComponentState>, alive: Seq<bool>, status: DesktopHealthStatus, k: int)
    requires
        0 <= k,
    ensures
        0 <= count_status(cs, alive, status, k) <= k,
    decreases k,
{
    if k > 0 {
        lemma_count_bound(cs, alive, status, k - 1);
    }
}

/// Every inspected component is counted once: the healthy, unhealthy and
/// inactive counts of a report add up to its number of components.
pub proof fn law_health_counts_cover_components(cs: Seq<SessionLaunchComponentState>, alive: Seq<bool>, k: int)
    requires
        0 <= k <= cs.len(),
        alive.len() == cs.len(),
    ensures
        count_status(cs, alive, DesktopHealthStatus::Healthy, k) + count_status(cs, alive, DesktopHealthStatus::Unhealthy, k)
            + count_status(cs, alive, DesktopHealthStatus::Inactive, k) == k,
    decreases k,
{
    if k > 0 {
        law_health_counts_cover_components(cs, alive, k - 1);
    }
}

/// The health report of a launch state; `process_alive[i]` says whether the
/// process of component `i` exists.
pub fn inspect_launch_state(state: &SessionLaunchState, process_alive: &Vec<bool>) -> (r: SessionWatchdogReport)
    requires
        process_alive@.len() == state.components@.len(),
    ensures
        r.profile_id == state.profile_id && r.display_name == state.display_name && r.protocol == state.protocol,
        r.components@.len() == state.components@.len(),
        forall|i: int| 0 <= i < r.components@.len() ==> {
            let (status, action, reason) = spec_inspection(state.components@[i], process_alive@[i]);
            let c = #[trigger] r.components@[i];
            &&& c.status == status && c.action == action && c.reason@ == reason
            &&& c.id == state.components@[i].id && c.pid == state.components@[i].pid
            &&& c.crash_loop_count == state.components@[i].restart_count
        },
        r.healthy_components as int == count_status(state.components@, process_alive@, DesktopHealthStatus::Healthy, state.components@.len() as int),
        r.unhealthy_components as int == count_status(state.components@, process_alive@, DesktopHealthStatus::Unhealthy, state.components@.len() as int),
        r.inactive_components as int == count_status(state.components@, process_alive@, DesktopHealthStatus::Inactive, state.components@.len() as int),
        r.healthy_components + r.unhealthy_components + r.inactive_components == state.components@.len(),
{
    proof {
        law_health_counts_cover_components(state.components@, process_alive@, state.components@.len() as int);
    }
    let ghost cs = state.components@;
    let ghost alive = process_alive@;
    let mut components: Vec<SessionWatchdogComponentReport> = Vec::new();
    let mut healthy: usize = 0;
    let mut unhealthy: usize = 0;
    let mut inactive: usize = 0;
    let mut i: usize = 0;
    while i < state.components.len()
        invariant
            i <= cs.len() == alive.len(),
            cs == state.components@,
            alive == process_alive@,
            components@.len() == i,
            forall|k: int| 0 <= k < i ==> {
                let (status, action, reason) = spec_inspection(cs[k], alive[k]);
                let c = #[trigger] components@[k];
                &&& c.status == status && c.action == action && c.reason@ == reason
                &&& c.id == cs[k].id && c.pid == cs[k].pid
                &&& c.crash_loop_count == cs[k].restart_count
            },
            healthy as int == count_status(cs, alive, DesktopHealthStatus::Healthy, i as int),
            unhealthy as int == count_status(cs, alive, DesktopHealthStatus::Unhealthy, i as int),
            inactive as int == count_status(cs, alive, DesktopHealthStatus::Inactive, i as int),
        decreases cs.len() - i,
    {
        proof {
            lemma_count_bound(cs, alive, DesktopHealthStatus::Healthy, i as int);
            lemma_count_bound(cs, alive, DesktopHealthStatus::Unhealthy, i as int);
            lemma_count_bound(cs, alive, DesktopHealthStatus::Inactive, i as int);
        }
        let report = inspect_component(&state.components[i], process_alive[i]);
        match report.status {
            DesktopHealthStatus::Healthy => { healthy = healthy + 1; },
            DesktopHealthStatus::Unhealthy => { unhealthy = unhealthy + 1; },
            DesktopHealthStatus::Inactive => { inactive = inactive + 1; },
        }
        components.push(report);
        i += 1;
    }
    SessionWatchdogReport {
        profile_id: state.profile_id.clone(),
        display_name: state.display_name.clone(),
        protocol: state.protocol,
        healthy_components: healthy,
        unhealthy_components: unhealthy,
        inactive_components: inactive,
        components,
        unix_timestamp: now_unix_timestamp(),
    }
}

} // verus!

verus! {

pub type LaunchStateView = <SessionLaunchState as DeepView>::V;
pub type ComponentView = <SessionLaunchComponentState as DeepView>::V;

/// What the cache made of an update.
#[derive(Debug)]
pub enum StateUpdateOutcome {
    Accepted(SessionLaunchState),
    Ignored { state: SessionLaunchState, reason: String },
    Resync { profile_id: String, reason: String },
}

pub open spec fn dec(n: u64) -> Seq<char> {
    crate::text::decimal_digits(n as nat)
}

/// Index of the first component with the given id.
pub open spec fn first_id_index(cs: Seq<ComponentView>, id: Seq<char>) -> Option<int>
    decreases cs.len(),
{
    if cs.len() == 0 {
        None
    } else if cs[0].0 == id {
        Some(0)
    } else {
        match first_id_index(cs.drop_first(), id) {
            Some(j) => Some(j + 1),
            None => None,
        }
    }
}

/// A changed component replaces the first component with its id, or is
/// appended when there is none.
pub open spec fn merge_one(cs: Seq<ComponentView>, c: ComponentView) -> Seq<ComponentView> {
    match first_id_index(cs, c.0) {
        Some(j) => cs.update(j, c),
        None => cs.push(c),
    }
}

/// The components after merging the first `k` changed ones, in order.
pub open spec fn merge_components(cs: Seq<ComponentView>, changed: Seq<ComponentView>, k: int) -> Seq<ComponentView>
    decreases k,
{
    if k <= 0 { cs } else { merge_one(merge_components(cs, changed, k - 1), changed[k - 1]) }
}

proof fn lemma_first_id_index_bounds(cs: Seq<ComponentView>, id: Seq<char>)
    ensures
        first_id_index(cs, id) matches Some(j) ==> 0 <= j < cs.len() && cs[j].0 == id,
    decreases cs.len(),
{
    if cs.len() > 0 && cs[0].0 != id {
        lemma_first_id_index_bounds(cs.drop_first(), id);
    }
}

fn first_component_index(cs: &Vec<SessionLaunchComponentState>, id: &String) -> (r: Option<usize>)
    ensures
        match r {
            Some(j) => first_id_index(cs.deep_view(), id@) == Some(j as int) && j < cs@.len(),
            None => first_id_index(cs.deep_view(), id@) is None,
        },
{
    let ghost v = cs.deep_view();
    let mut i: usize = 0;
    assert(v.skip(0) =~= v);
    while i < cs.len()
        invariant
            i <= cs@.len(),
            v == cs.deep_view(),
            first_id_index(v, id@) == match first_id_index(v.skip(i as int), id@) {
                Some(j) => Some(j + i),
                None => None,
            },
        decreases cs@.len() - i,
    {
        let ghost rest = v.skip(i as int);
        assert(rest.drop_first() =~= v.skip(i + 1));
        if cs[i].id == *id {
            assert(rest[0] == v[i as int]);
            return Some(i);
        }
        i += 1;
    }
    assert(v.skip(i as int).len() == 0);
    None
}

/// The older-than test for a full state: an older generation, or an older
/// sequence of the same one.
pub open spec fn full_state_older(g: u64, s: u64, cached: LaunchStateView) -> bool {
    g < cached.4 || (g == cached.4 && s < cached.5)
}

/// The not-newer test for a delta.
pub open spec fn delta_not_newer(g: u64, s: u64, cached: LaunchStateView) -> bool {
    g < cached.4 || (g == cached.4 && s <= cached.5)
}

/// What caching a full launch state in a cache whose view is `before`
/// answers, and the view it leaves.
pub open spec fn full_state_cached(before: Map<Seq<char>, LaunchStateView>, state: SessionLaunchState, r: StateUpdateOutcome,
    after: Map<Seq<char>, LaunchStateView>) -> bool {
    let k = state.profile_id@;
    if before.contains_key(k) && full_state_older(state.generation, state.sequence, before[k]) {
        let c = before[k];
        &&& r matches StateUpdateOutcome::Ignored { state: s, reason } && s.deep_view() == c
            && reason@ == "incoming full state generation="@ + dec(state.generation) + " sequence="@ + dec(state.sequence)
                + " is older than cached generation="@ + dec(c.4) + " sequence="@ + dec(c.5)
        &&& after == before
    } else {
        &&& r matches StateUpdateOutcome::Accepted(s) && s.deep_view() == state.deep_view()
        &&& after == before.insert(k, state.deep_view())
    }
}

/// What applying a delta to a cache whose view is `before` answers, and the
/// view it leaves.
pub open spec fn delta_applied(before: Map<Seq<char>, LaunchStateView>, delta: SessionLaunchDelta, r: StateUpdateOutcome,
    after: Map<Seq<char>, LaunchStateView>) -> bool {
    let k = delta.profile_id@;
    let g = delta.generation;
    let s = delta.sequence;
    if !before.contains_key(k) {
        &&& r matches StateUpdateOutcome::Resync { profile_id, reason } && profile_id == delta.profile_id
            && reason@ == "watchdog cache miss for profile; full launch-state resend required"@
        &&& after == before
    } else {
        let c = before[k];
        if delta_not_newer(g, s, c) {
            &&& r matches StateUpdateOutcome::Ignored { state, reason } && state.deep_view() == c
                && reason@ == "incoming delta generation="@ + dec(g) + " sequence="@ + dec(s)
                    + " is not newer than cached generation="@ + dec(c.4) + " sequence="@ + dec(c.5)
            &&& after == before
        } else if g > c.4 && !delta.replace {
            &&& r matches StateUpdateOutcome::Resync { profile_id, reason } && profile_id == delta.profile_id
                && reason@ == "watchdog observed generation jump "@ + dec(c.4) + " -> "@ + dec(g) + " without full replace"@
            &&& after == before
        } else if g > c.4 && s != 1 {
            &&& r matches StateUpdateOutcome::Resync { profile_id, reason } && profile_id == delta.profile_id
                && reason@ == "watchdog expected sequence 1 for new generation "@ + dec(g) + " but got "@ + dec(s) + ""@
            &&& after == before
        } else if g == c.4 && s != crate::compd::saturating_inc(c.5) {
            &&& r matches StateUpdateOutcome::Resync { profile_id, reason } && profile_id == delta.profile_id
                && reason@ == "watchdog detected sequence gap: expected "@ + dec(crate::compd::saturating_inc(c.5)) + ", got "@ + dec(s) + ""@
            &&& after == before
        } else {
            &&& r matches StateUpdateOutcome::Accepted(st)
                && st.profile_id@ == k && st.display_name == delta.display_name && st.protocol == delta.protocol
                && st.broker_services@ == delta.broker_services@ && st.generation == g && st.sequence == s
                && st.service_component_bindings@ == delta.service_component_bindings@
                && st.service_recovery_execution_policies.deep_view() == delta.service_recovery_execution_policies.deep_view()
                && st.components.deep_view() == (if delta.replace {
                    delta.components.deep_view()
                } else {
                    merge_components(c.6, delta.components.deep_view(), delta.components@.len() as int)
                })
                && after == before.insert(k, st.deep_view())
        }
    }
}

/// The launch states the watchdog holds, one per profile.
pub struct WatchdogServer {
    states: Vec<SessionLaunchState>,
    cache: Ghost<Map<Seq<char>, LaunchStateView>>,
}

pub open spec fn cache_inv(states: Seq<SessionLaunchState>, cache: Map<Seq<char>, LaunchStateView>) -> bool {
    &&& forall|i: int, j: int| 0 <= i < j < states.len() ==> states[i].profile_id@ != states[j].profile_id@
    &&& forall|i: int| 0 <= i < states.len() ==> #[trigger] cache.contains_key(states[i].profile_id@)
        && cache[states[i].profile_id@] == states[i].deep_view()
    &&& forall|k: Seq<char>| #[trigger] cache.contains_key(k) ==> exists|i: int| 0 <= i < states.len() && states[i].profile_id@ == k
}

fn message4(a: &str, x: u64, b: &str, y: u64, c: &str, z: u64, d: &str, w: u64) -> (r: String)
    ensures
        r@ == a@ + dec(x) + b@ + dec(y) + c@ + dec(z) + d@ + dec(w),
{
    let mut m = chars_of(a);
    let v = decimal_chars(x);
    push_chars(&mut m, &v);
    push_str(&mut m, b);
    let v = decimal_chars(y);
    push_chars(&mut m, &v);
    push_str(&mut m, c);
    let v = decimal_chars(z);
    push_chars(&mut m, &v);
    push_str(&mut m, d);
    let v = decimal_chars(w);
    push_chars(&mut m, &v);
    string_from_chars(&m)
}

fn message2(a: &str, x: u64, b: &str, y: u64, c: &str) -> (r: String)
    ensures
        r@ == a@ + dec(x) + b@ + dec(y) + c@,
{
    let mut m = chars_of(a);
    let v = decimal_chars(x);
    push_chars(&mut m, &v);
    push_str(&mut m, b);
    let v = decimal_chars(y);
    push_chars(&mut m, &v);
    push_str(&mut m, c);
    string_from_chars(&m)
}

impl WatchdogServer {
    #[verifier::type_invariant]
    spec fn server_inv(self) -> bool {
        cache_inv(self.states@, self.cache@)
    }

    /// The cached launch states, by profile id.
    pub closed spec fn view(&self) -> Map<Seq<char>, LaunchStateView> {
        self.cache@
    }

    pub fn new() -> (r: Self)
        ensures
            r.view() == Map::<Seq<char>, LaunchStateView>::empty(),
    {
        WatchdogServer { states: Vec::new(), cache: Ghost(Map::empty()) }
    }

    fn position_of(&self, profile_id: &String) -> (r: Option<usize>)
        ensures
            match r {
                Some(i) => i < self.states@.len() && self.states@[i as int].profile_id@ == profile_id@
                    && self.view().contains_key(profile_id@) && self.view()[profile_id@] == self.states@[i as int].deep_view(),
                None => !self.view().contains_key(profile_id@),
            },
    {
        proof { use_type_invariant(self); }
        let mut i: usize = 0;
        while i < self.states.len()
            invariant
                i <= self.states@.len(),
                cache_inv(self.states@, self.cache@),
                forall|k: int| 0 <= k < i ==> self.states@[k].profile_id@ != profile_id@,
            decreases self.states@.len() - i,
        {
            if self.states[i].profile_id == *profile_id {
                assert(self.cache@.contains_key(self.states@[i as int].profile_id@));
                return Some(i);
            }
            i += 1;
        }
        None
    }

    /// Stores a state under its profile, replacing any cached one.
    fn store(&mut self, state: SessionLaunchState)
        ensures
            final(self).view() == old(self).view().insert(state.profile_id@, state.deep_view()),
    {
        proof { use_type_invariant(&*self); }
        let ghost before = self.cache@;
        let ghost sv = state.deep_view();
        let ghost k = state.profile_id@;
        let found = self.position_of(&state.profile_id);
        let mut taken = WatchdogServer::new();
        std::mem::swap(&mut taken, self);
        let WatchdogServer { states: mut states, cache: _ } = taken;
        let ghost old_seq = states@;
        let ghost m = before.insert(k, sv);
        match found {
            Some(i) => {
                states.set(i, state);
                proof {
                    let ns = states@;
                    assert forall|a: int, b: int| 0 <= a < b < ns.len() implies ns[a].profile_id@ != ns[b].profile_id@ by {
                        if a != i && b != i { assert(ns[a] == old_seq[a] && ns[b] == old_seq[b]); }
                        else if a == i { assert(ns[b] == old_seq[b]); }
                        else { assert(ns[a] == old_seq[a]); }
                    }
                    assert forall|a: int| 0 <= a < ns.len() implies #[trigger] m.contains_key(ns[a].profile_id@)
                        && m[ns[a].profile_id@] == ns[a].deep_view() by {
                        if a != i { assert(ns[a] == old_seq[a]); }
                    }
                    assert forall|key: Seq<char>| #[trigger] m.contains_key(key) implies exists|a: int| 0 <= a < ns.len() && ns[a].profile_id@ == key by {
                        if key == k {
                            assert(ns[i as int].profile_id@ == key);
                        } else {
                            let a = choose|a: int| 0 <= a < old_seq.len() && old_seq[a].profile_id@ == key;
                            assert(a != i);
                            assert(ns[a] == old_seq[a]);
                        }
                    }
                }
            },
            None => {
                states.push(state);
                proof {
                    let ns = states@;
                    assert forall|a: int, b: int| 0 <= a < b < ns.len() implies ns[a].profile_id@ != ns[b].profile_id@ by {
                        if b < old_seq.len() { assert(ns[a] == old_seq[a] && ns[b] == old_seq[b]); }
                        else { assert(ns[a] == old_seq[a]); assert(before.contains_key(old_seq[a].profile_id@)); }
                    }
                    assert forall|a: int| 0 <= a < ns.len() implies #[trigger] m.contains_key(ns[a].profile_id@)
                        && m[ns[a].profile_id@] == ns[a].deep_view() by {
                        if a < old_seq.len() {
                            assert(ns[a] == old_seq[a]);
                            assert(before.contains_key(old_seq[a].profile_id@));
                        }
                    }
                    assert forall|key: Seq<char>| #[trigger] m.contains_key(key) implies exists|a: int| 0 <= a < ns.len() && ns[a].profile_id@ == key by {
                        if key == k {
                            assert(ns[ns.len() - 1].profile_id@ == key);
                        } else {
                            let a = choose|a: int| 0 <= a < old_seq.len() && old_seq[a].profile_id@ == key;
                            assert(ns[a] == old_seq[a]);
                        }
                    }
                }
            },
        }
        *self = WatchdogServer { states, cache: Ghost(m) };
    }
}

} // verus!

verus! {

impl WatchdogServer {
    /// A copy of the cached state of a profile.
    fn cached(&self, profile_id: &String) -> (r: Option<SessionLaunchState>)
        ensures
            match r {
                Some(s) => self.view().contains_key(profile_id@) && s.deep_view() == self.view()[profile_id@]
                    && s.profile_id@ == profile_id@,
                None => !self.view().contains_key(profile_id@),
            },
    {
        match self.position_of(profile_id) {
            Some(i) => Some(self.states[i].clone()),
            None => None,
        }
    }

    /// Caches a full launch state unless the cached one of its profile is
    /// newer (an older generation, or an older sequence of the same
    /// generation, is ignored and the cached state reported instead).
    pub fn cache_full_state(&mut self, state: &SessionLaunchState) -> (r: StateUpdateOutcome)
        ensures
            full_state_cached(old(self).view(), *state, r, final(self).view()),
    {
        match self.cached(&state.profile_id) {
            Some(current) => {
                if state.generation < current.generation
                    || (state.generation == current.generation && state.sequence < current.sequence) {
                    let reason = message4("incoming full state generation=", state.generation, " sequence=", state.sequence,
                        " is older than cached generation=", current.generation, " sequence=", current.sequence);
                    return StateUpdateOutcome::Ignored { state: current, reason };
                }
            },
            None => {},
        }
        self.store(state.clone());
        StateUpdateOutcome::Accepted(state.clone())
    }

    /// Applies a launch-state delta from sessiond. Without a cached state a
    /// resync is asked for; a delta that is not newer is ignored; a new
    /// generation must replace fully and start at sequence 1, and within a
    /// generation the sequence must be the next one, or a resync is asked
    /// for. An accepted replacing delta becomes the state; otherwise its
    /// changed components are merged into the cached ones by id.
    pub fn apply_delta(&mut self, delta: SessionLaunchDelta) -> (r: StateUpdateOutcome)
        ensures
            delta_applied(old(self).view(), delta, r, final(self).view()),
    {
        let SessionLaunchDelta {
            profile_id, display_name, protocol, broker_services, generation, sequence, replace, components,
            unix_timestamp: _, service_component_bindings, service_recovery_execution_policies,
        } = delta;
        let current = match self.cached(&profile_id) {
            Some(c) => c,
            None => {
                return StateUpdateOutcome::Resync {
                    profile_id,
                    reason: String::from_str("watchdog cache miss for profile; full launch-state resend required"),
                };
            },
        };
        if generation < current.generation || (generation == current.generation && sequence <= current.sequence) {
            let reason = message4("incoming delta generation=", generation, " sequence=", sequence,
                " is not newer than cached generation=", current.generation, " sequence=", current.sequence);
            return StateUpdateOutcome::Ignored { state: current, reason };
        }
        if generation > current.generation {
            if !replace {
                let reason = message2("watchdog observed generation jump ", current.generation, " -> ", generation, " without full replace");
                return StateUpdateOutcome::Resync { profile_id, reason };
            }
            if sequence != 1 {
                let reason = message2("watchdog expected sequence 1 for new generation ", generation, " but got ", sequence, "");
                return StateUpdateOutcome::Resync { profile_id, reason };
            }
        } else {
            let expected = current.sequence.saturating_add(1);
            if sequence != expected {
                let reason = message2("watchdog detected sequence gap: expected ", expected, ", got ", sequence, "");
                return StateUpdateOutcome::Resync { profile_id, reason };
            }
        }
        let next_state = if replace {
            SessionLaunchState {
                profile_id: profile_id.clone(),
                display_name,
                protocol,
                broker_services,
                generation,
                sequence,
                components,
                unix_timestamp: now_unix_timestamp(),
                service_component_bindings,
                service_recovery_execution_policies,
            }
        } else {
            let mut state = current;
            let ghost base = state.components.deep_view();
            let ghost changed = components.deep_view();
            let mut changes = components;
            let n = changes.len();
            let mut i: usize = 0;
            while i < n
                invariant
                    i <= n == changed.len(),
                    changes.deep_view() == changed.subrange(i as int, n as int),
                    state.components.deep_view() == merge_components(base, changed, i as int),
                    state.profile_id@ == profile_id@,
                decreases n - i,
            {
                assert(changes@.len() == changes.deep_view().len());
                assert(changes.deep_view()[0] == changes@[0].deep_view());
                let ghost prev_seq = changes@;
                let ghost prev_deep = changes.deep_view();
                let c = changes.remove(0);
                proof {
                    assert forall|q: int| 0 <= q < changes@.len() implies #[trigger] changes.deep_view()[q] == changed[i + 1 + q] by {
                        assert(changes@[q] == prev_seq[q + 1]);
                        assert(prev_deep[q + 1] == prev_seq[q + 1].deep_view());
                    }
                }
                assert(c.deep_view() == changed[i as int]);
                let ghost before = state.components.deep_view();
                match first_component_index(&state.components, &c.id) {
                    Some(j) => {
                        state.components.set(j, c);
                        assert(state.components.deep_view() =~= before.update(j as int, changed[i as int]));
                    },
                    None => {
                        state.components.push(c);
                        assert(state.components.deep_view() =~= before.push(changed[i as int]));
                    },
                }
                i += 1;
                assert(changes.deep_view() =~= changed.subrange(i as int, n as int));
            }
            state.display_name = display_name;
            state.protocol = protocol;
            state.broker_services = broker_services;
            state.generation = generation;
            state.sequence = sequence;
            state.unix_timestamp = now_unix_timestamp();
            state.service_component_bindings = service_component_bindings;
            state.service_recovery_execution_policies = service_recovery_execution_policies;
            state
        };
        let copy = next_state.clone();
        let ghost before_view = self.view();
        self.store(copy);
        assert(next_state.profile_id@ == profile_id@);
        assert(self.view() == before_view.insert(profile_id@, next_state.deep_view()));
        assert(next_state.generation == generation && next_state.sequence == sequence);
        StateUpdateOutcome::Accepted(next_state)
    }
}


/// What the watchdog does with a command addressed to it.
pub enum WatchdogStep {
    /// Answer at once.
    Reply(crate::ipc::WatchdogCommand),
    /// Write a recovery artifact for the restart, then confirm it.
    RecordRestart { role: crate::service::ServiceRole, session_instance_id: String, reason: String },
    /// Inspect this launch state (write and forward the report as
    /// configured) and answer with the report; `ignored` says why an
    /// update was not applied to it.
    Inspect { state: SessionLaunchState, ignored: Option<String> },
}

/// The step an update outcome leads to.
pub open spec fn outcome_step_ok(o: StateUpdateOutcome, r: WatchdogStep) -> bool {
    match o {
        StateUpdateOutcome::Accepted(s) => r matches WatchdogStep::Inspect { state, ignored } && state == s && ignored is None,
        StateUpdateOutcome::Ignored { state: s, reason } => r matches WatchdogStep::Inspect { state, ignored }
            && state == s && ignored == Some(reason),
        StateUpdateOutcome::Resync { profile_id: p, reason: m } => r matches WatchdogStep::Reply(
            crate::ipc::WatchdogCommand::ResyncLaunchState { profile_id, session_instance_id, reason })
            && profile_id == p && reason == m && session_instance_id@ == crate::displayd::DEFAULT_SESSION_INSTANCE_ID@,
    }
}

fn outcome_step(o: StateUpdateOutcome) -> (r: WatchdogStep)
    ensures
        outcome_step_ok(o, r),
{
    match o {
        StateUpdateOutcome::Accepted(state) => WatchdogStep::Inspect { state, ignored: None },
        StateUpdateOutcome::Ignored { state, reason } => WatchdogStep::Inspect { state, ignored: Some(reason) },
        StateUpdateOutcome::Resync { profile_id, reason } => WatchdogStep::Reply(
            crate::ipc::WatchdogCommand::ResyncLaunchState {
                profile_id,
                session_instance_id: crate::displayd::default_session(),
                reason,
            },
        ),
    }
}

/// The watchdog restarts only compd and lockd.
pub open spec fn restartable(role: crate::service::ServiceRole) -> bool {
    role == crate::service::ServiceRole::Compd || role == crate::service::ServiceRole::Lockd
}

/// Decides what to do with a watchdog command: a restart of compd or lockd
/// is recorded and confirmed, any other restart is escalated; full launch
/// states and deltas go through the cache and lead to an inspection or a
/// resync request; any other command is escalated as not applicable.
pub fn handle_watchdog_command(command: crate::ipc::WatchdogCommand, server: &mut WatchdogServer) -> (r: WatchdogStep)
    ensures
        match command {
            crate::ipc::WatchdogCommand::Restart { role, session_instance_id, reason } => {
                &&& final(server).view() == old(server).view()
                &&& if restartable(role) {
                    r == (WatchdogStep::RecordRestart { role, session_instance_id, reason })
                } else {
                    r matches WatchdogStep::Reply(crate::ipc::WatchdogCommand::Escalate { level, reason: m })
                        && level == 1 && m@ == "watchdog does not support restarting "@ + crate::service::role_name(role)
                }
            },
            crate::ipc::WatchdogCommand::InspectLaunchState { state } => exists|o: StateUpdateOutcome|
                #[trigger] outcome_step_ok(o, r) && full_state_cached(old(server).view(), state, o, final(server).view()),
            crate::ipc::WatchdogCommand::UpdateLaunchState { delta } => exists|o: StateUpdateOutcome|
                #[trigger] outcome_step_ok(o, r) && delta_applied(old(server).view(), delta, o, final(server).view()),
            _ => {
                &&& final(server).view() == old(server).view()
                &&& r matches WatchdogStep::Reply(crate::ipc::WatchdogCommand::Escalate { level, reason: m })
                    && level == 1 && m@ == "watchdog IPC does not apply "@ + crate::ipc::watchdog_command_name(command)
            },
        },
{
    match command {
        crate::ipc::WatchdogCommand::Restart { role, session_instance_id, reason } => {
            if role == crate::service::ServiceRole::Compd || role == crate::service::ServiceRole::Lockd {
                WatchdogStep::RecordRestart { role, session_instance_id, reason }
            } else {
                let mut m = chars_of("watchdog does not support restarting ");
                push_str(&mut m, role.as_str());
                WatchdogStep::Reply(crate::ipc::WatchdogCommand::Escalate { level: 1, reason: string_from_chars(&m) })
            }
        },
        crate::ipc::WatchdogCommand::InspectLaunchState { state } => {
            let o = server.cache_full_state(&state);
            let ghost og = o;
            let r = outcome_step(o);
            assert(outcome_step_ok(og, r));
            r
        },
        crate::ipc::WatchdogCommand::UpdateLaunchState { delta } => {
            let ghost d = delta;
            let o = server.apply_delta(delta);
            let ghost og = o;
            let r = outcome_step(o);
            assert(outcome_step_ok(og, r));
            r
        },
        other => {
            let mut m = chars_of("watchdog IPC does not apply ");
            push_str(&mut m, other.variant_name());
            WatchdogStep::Reply(crate::ipc::WatchdogCommand::Escalate { level: 1, reason: string_from_chars(&m) })
        },
    }
}

/// After an inspection the report goes to sessiond when that is
/// configured and sessiond did not send the state itself.
pub fn should_notify_sessiond(notify_sessiond: bool, source: crate::service::ServiceRole) -> (r: bool)
    ensures
        r == (notify_sessiond && source != crate::service::ServiceRole::Sessiond),
{
    notify_sessiond && source != crate::service::ServiceRole::Sessiond
}

/// The answer to a watchdog command addressed to another service.
pub fn misaddressed_reply(destination: crate::service::ServiceRole) -> (r: crate::ipc::WatchdogCommand)
    ensures
        r matches crate::ipc::WatchdogCommand::Escalate { level, reason }
            && level == 1 && reason@ == "watchdog received message addressed to "@ + crate::service::role_name(destination),
{
    let mut m = chars_of("watchdog received message addressed to ");
    push_str(&mut m, destination.as_str());
    crate::ipc::WatchdogCommand::Escalate { level: 1, reason: string_from_chars(&m) }
}

} // verus!
