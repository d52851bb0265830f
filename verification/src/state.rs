//! The recorded state of the service: whether it runs, as which process, and
//! what is shown about it.
use crate::number::{
    decimal, digit_value, lemma_decimal_round_trip, parse_unsigned, parsed, push_decimal, to_decimal,
};
use crate::space::{
    blank, law_trim_takes_white_space_off, lemma_trimmed_unchanged, trim, trimmed,
};
use crate::text::{opt_text, same_text};
use vstd::prelude::*;

verus! {

/// The text for a service that was never started.
pub const NOT_STARTED: &'static str = "未启动";

/// The text for a service whose process is gone.
pub const STOPPED: &'static str = "已停止";

/// The text for a service that is being started.
pub const STARTING: &'static str = "正在启动加速服务...";

/// The text for a service that could not be started.
pub const START_FAILED: &'static str = "启动失败";

/// The text in front of the process of a service that runs.
pub const RUNNING_AS: &'static str = "加速中，PID ";

/// The recorded state of the service.
#[derive(Debug)]
pub struct ServiceState {
    pub running: bool,
    pub pid: Option<u32>,
    pub status_text: String,
    pub last_error: Option<String>,
    pub updated_at: u64,
}

/// The recorded state, with texts as sequences.
#[verifier::ext_equal]
pub struct StateModel {
    pub running: bool,
    pub pid: Option<u32>,
    pub status_text: Seq<char>,
    pub last_error: Option<Seq<char>>,
    pub updated_at: u64,
}

impl View for ServiceState {
    type V = StateModel;

    open spec fn view(&self) -> StateModel {
        StateModel {
            running: self.running,
            pid: self.pid,
            status_text: self.status_text@,
            last_error: opt_text(self.last_error),
            updated_at: self.updated_at,
        }
    }
}

impl Clone for ServiceState {
    fn clone(&self) -> (r: Self)
        ensures
            r@ == self@,
    {
        ServiceState {
            running: self.running,
            pid: self.pid,
            status_text: self.status_text.clone(),
            last_error: match &self.last_error {
                Some(e) => Some(e.clone()),
                None => None,
            },
            updated_at: self.updated_at,
        }
    }
}

/// A state in which nothing runs.
pub open spec fn idle(text: Seq<char>, error: Option<Seq<char>>, now: u64) -> StateModel {
    StateModel { running: false, pid: None, status_text: text, last_error: error, updated_at: now }
}

/// The text for a service that runs as the process `pid`.
pub open spec fn running_text(pid: u32) -> Seq<char> {
    RUNNING_AS@ + decimal(pid as nat)
}

fn running_as(pid: u32) -> (r: String)
    ensures
        r@ == running_text(pid),
{
    let mut text = RUNNING_AS.to_string();
    push_decimal(&mut text, pid as u64);
    text
}

impl ServiceState {
    /// The state where none is recorded.
    pub fn initial(now: u64) -> (r: ServiceState)
        ensures
            r@ == idle("未启动"@, None, now),
    {
        ServiceState {
            running: false,
            pid: None,
            status_text: NOT_STARTED.to_string(),
            last_error: None,
            updated_at: now,
        }
    }
}

/// The state once the service runs as the process `pid`.
pub fn mark_running(pid: u32, now: u64) -> (r: ServiceState)
    ensures
        r@ == (StateModel {
            running: true,
            pid: Some(pid),
            status_text: "加速中，PID "@ + decimal(pid as nat),
            last_error: None,
            updated_at: now,
        }),
{
    ServiceState {
        running: true,
        pid: Some(pid),
        status_text: running_as(pid),
        last_error: None,
        updated_at: now,
    }
}

/// The state while the service is being started.
pub fn mark_starting(now: u64) -> (r: ServiceState)
    ensures
        r@ == idle("正在启动加速服务..."@, None, now),
{
    ServiceState {
        running: false,
        pid: None,
        status_text: STARTING.to_string(),
        last_error: None,
        updated_at: now,
    }
}

/// The state once the service was stopped, with what to say about it.
pub fn mark_stopped(message: &str, now: u64) -> (r: ServiceState)
    ensures
        r@ == idle(message@, None, now),
{
    ServiceState {
        running: false,
        pid: None,
        status_text: message.to_string(),
        last_error: None,
        updated_at: now,
    }
}

/// The state after the service failed with an error.
pub fn mark_error(message: &str, now: u64) -> (r: ServiceState)
    ensures
        r@ == idle("启动失败"@, Some(message@), now),
{
    ServiceState {
        running: false,
        pid: None,
        status_text: START_FAILED.to_string(),
        last_error: Some(message.to_string()),
        updated_at: now,
    }
}

// ---------------------------------------------------------------------------
// Refreshing
// ---------------------------------------------------------------------------

/// A state brought in line with the process that was found, and what has to
/// be written.
#[derive(Debug)]
pub struct Refreshed {
    pub state: ServiceState,
    /// Whether the state has to be written.
    pub write: bool,
    /// Whether the recorded process has to be forgotten.
    pub clear_pid: bool,
}

/// The state in line with the process `pid` that runs, but for the time.
pub open spec fn as_running(state: StateModel, pid: u32) -> StateModel {
    StateModel {
        running: true,
        pid: Some(pid),
        status_text: if state.last_error is None {
            running_text(pid)
        } else {
            state.status_text
        },
        ..state
    }
}

/// The state in line with there being no process, but for the time.
pub open spec fn as_stopped(state: StateModel) -> StateModel {
    if state.running || state.pid is Some {
        StateModel {
            running: false,
            pid: None,
            status_text: if state.last_error is None {
                STOPPED@
            } else {
                state.status_text
            },
            ..state
        }
    } else {
        state
    }
}

/// The state in line with the process that runs, if one does, but for the
/// time.
pub open spec fn in_line(state: StateModel, live_pid: Option<u32>) -> StateModel {
    match live_pid {
        Some(pid) => as_running(state, pid),
        None => as_stopped(state),
    }
}

/// The state after a refresh: in line with the process that runs, and dated
/// anew where that changed it.
pub open spec fn refreshed(state: StateModel, live_pid: Option<u32>, now: u64) -> StateModel {
    let new = in_line(state, live_pid);
    if new == state {
        state
    } else {
        StateModel { updated_at: now, ..new }
    }
}

/// Brings a state in line with the process that runs, if one does.
pub fn refresh(state: ServiceState, live_pid: Option<u32>, now: u64) -> (r: Refreshed)
    ensures
        r.state@ == refreshed(state@, live_pid, now),
        r.write == (in_line(state@, live_pid) != state@),
        r.clear_pid == (live_pid is None && (state.running || state.pid is Some)),
{
    let ghost before = state@;
    let mut state = state;
    if let Some(pid) = live_pid {
        let mut changed = false;
        if !state.running {
            state.running = true;
            changed = true;
        }
        if state.pid != Some(pid) {
            state.pid = Some(pid);
            changed = true;
        }
        let expected = running_as(pid);
        if state.last_error.is_none() && !same_text(state.status_text.as_str(), expected.as_str()) {
            state.status_text = expected;
            changed = true;
        }
        assert(state@ =~= as_running(before, pid));
        assert(!changed ==> state@ =~= before);
        if changed {
            state.updated_at = now;
        }
        return Refreshed { state, write: changed, clear_pid: false };
    }
    if state.running || state.pid.is_some() {
        state.running = false;
        state.pid = None;
        if state.last_error.is_none() {
            state.status_text = STOPPED.to_string();
        }
        assert(state@ =~= as_stopped(before));
        state.updated_at = now;
        return Refreshed { state, write: true, clear_pid: true };
    }
    Refreshed { state, write: false, clear_pid: false }
}

/// After a refresh the state says that the service runs exactly where a
/// process was found, and which.
pub proof fn law_refresh_tells_liveness(state: StateModel, live_pid: Option<u32>, now: u64)
    ensures
        refreshed(state, live_pid, now).running == (live_pid is Some),
        refreshed(state, live_pid, now).pid == live_pid,
{
}

/// A refresh keeps the last error, and the text beside it.
pub proof fn law_refresh_keeps_error(state: StateModel, live_pid: Option<u32>, now: u64)
    ensures
        refreshed(state, live_pid, now).last_error == state.last_error,
        state.last_error is Some ==> refreshed(state, live_pid, now).status_text
            == state.status_text,
{
}

/// A second refresh that finds the same process changes nothing.
pub proof fn law_refresh_settles(state: StateModel, live_pid: Option<u32>, now: u64, later: u64)
    ensures
        refreshed(refreshed(state, live_pid, now), live_pid, later) == refreshed(
            state,
            live_pid,
            now,
        ),
        in_line(refreshed(state, live_pid, now), live_pid) == refreshed(state, live_pid, now),
{
    let once = refreshed(state, live_pid, now);
    assert(in_line(once, live_pid) =~= once);
}

/// The state of a service that was marked as running stays as it is while its
/// process runs.
pub proof fn law_running_state_is_settled(pid: u32, now: u64)
    ensures
        ({
            let state = StateModel {
                running: true,
                pid: Some(pid),
                status_text: running_text(pid),
                last_error: None,
                updated_at: now,
            };
            in_line(state, Some(pid)) == state
        }),
{
    let state = StateModel {
        running: true,
        pid: Some(pid),
        status_text: running_text(pid),
        last_error: None,
        updated_at: now,
    };
    assert(in_line(state, Some(pid)) =~= state);
}

// ---------------------------------------------------------------------------
// The recorded process
// ---------------------------------------------------------------------------

/// The process that a text records: a decimal number, with white space around
/// it at most.
pub open spec fn recorded_pid(text: Seq<char>) -> Option<nat> {
    parsed(trimmed(text), 10, u32::MAX as nat)
}

/// Reads the process that a text records.
pub fn parse_pid(text: &str) -> (r: Option<u32>)
    ensures
        match r {
            Some(pid) => recorded_pid(text@) == Some(pid as nat),
            None => recorded_pid(text@) is None,
        },
{
    match parse_unsigned(trim(text).as_str(), 10, u32::MAX as u64) {
        Some(pid) => Some(pid as u32),
        None => None,
    }
}

/// The text that records a process.
pub fn pid_text(pid: u32) -> (r: String)
    ensures
        r@ == decimal(pid as nat),
{
    to_decimal(pid as u64)
}

/// A recorded process is read back.
pub proof fn law_pid_round_trip(pid: u32)
    ensures
        recorded_pid(decimal(pid as nat)) == Some(pid as nat),
{
    let text = decimal(pid as nat);
    lemma_decimal_round_trip(pid as nat, u32::MAX as nat);
    assert(digit_value(text[0]) < 10 && digit_value(text[text.len() - 1]) < 10);
    lemma_trimmed_unchanged(text);
}

// ---------------------------------------------------------------------------
// Laws
// ---------------------------------------------------------------------------

/// Where a process is found, the state says that the service runs as that
/// process, in words too where nothing went wrong.
pub proof fn law_refresh_with_a_process(state: StateModel, pid: u32, now: u64)
    ensures
        refreshed(state, Some(pid), now).running,
        refreshed(state, Some(pid), now).pid == Some(pid),
        state.last_error is None ==> refreshed(state, Some(pid), now).status_text == "加速中，PID "@
            + decimal(pid as nat),
        state.last_error is Some ==> refreshed(state, Some(pid), now).status_text
            == state.status_text,
{
}

/// Where none is found, the state of a service that ran says that it was
/// stopped, unless something went wrong; one of a service that did not run
/// says what it said.
pub proof fn law_refresh_without_a_process(state: StateModel, now: u64)
    ensures
        !refreshed(state, None, now).running,
        refreshed(state, None, now).pid is None,
        (state.running || state.pid is Some) && state.last_error is None ==> refreshed(
            state,
            None,
            now,
        ).status_text == "已停止"@,
        state.last_error is Some ==> refreshed(state, None, now).status_text == state.status_text,
        !state.running && state.pid is None ==> refreshed(state, None, now) == state,
{
}

/// A state is dated anew exactly where a refresh changed what it says, which
/// is also where it has to be written.
pub proof fn law_refresh_dates_what_changed(state: StateModel, live_pid: Option<u32>, now: u64)
    ensures
        ({
            let new = refreshed(state, live_pid, now);
            let same = new.running == state.running && new.pid == state.pid && new.status_text
                == state.status_text;
            &&& same ==> new == state && in_line(state, live_pid) == state
            &&& !same ==> new.updated_at == now && in_line(state, live_pid) != state
        }),
{
    let new = refreshed(state, live_pid, now);
    if new.running == state.running && new.pid == state.pid && new.status_text
        == state.status_text {
        assert(in_line(state, live_pid) =~= state);
    }
}

/// A process is read from its number, with white space around it or not.
pub proof fn law_pid_is_read(left: Seq<char>, right: Seq<char>, pid: u32)
    requires
        blank(left),
        blank(right),
    ensures
        recorded_pid(left + decimal(pid as nat) + right) == Some(pid as nat),
{
    let text = decimal(pid as nat);
    lemma_decimal_round_trip(pid as nat, u32::MAX as nat);
    assert(digit_value(text[0]) < 10 && digit_value(text[text.len() - 1]) < 10);
    law_trim_takes_white_space_off(left, text, right);
}

/// A state in which nothing runs holds what it was made of.
pub proof fn law_idle_state(text: Seq<char>, error: Option<Seq<char>>, now: u64)
    ensures
        !idle(text, error, now).running,
        idle(text, error, now).pid is None,
        idle(text, error, now).status_text == text,
        idle(text, error, now).last_error == error,
        idle(text, error, now).updated_at == now,
{
}

/// What is said of a state is what it holds.
pub proof fn law_state_as_it_is(state: ServiceState)
    ensures
        state@.running == state.running,
        state@.pid == state.pid,
        state@.status_text == state.status_text@,
        state@.last_error == opt_text(state.last_error),
        state@.updated_at == state.updated_at,
{
}

} // verus!
