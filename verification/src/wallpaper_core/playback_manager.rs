//! Starting, stopping and resuming background playback: the decisions
//! that the playback commands take on the persisted state.

use vstd::prelude::*;
use crate::error::{PlaybackError, SwpError};
use crate::text::{decimal, lemma_parse_decimal, push_decimal, string_of, string_views};
use crate::wallpaper_core::playback_state::{build_state, PlaybackMode, PlaybackState, PLAYBACK_SCHEMA_VERSION};
use crate::wallpaper_core::lists_play::{
    interval_count, interval_fits, interval_ok, interval_seconds, unit_seconds,
};

verus! {

/// The shortest interval text for `secs` seconds: whole hours as `<n>h`,
/// else whole minutes as `<n>m`, else `<n>s`.
pub open spec fn format_interval_spec(secs: nat) -> Seq<char> {
    if secs % 3600 == 0 {
        decimal(secs / 3600).push('h')
    } else if secs % 60 == 0 {
        decimal(secs / 60).push('m')
    } else {
        decimal(secs).push('s')
    }
}

/// The interval text that a resumed worker is started with.
pub fn format_interval(interval_seconds: u64) -> (r: String)
    ensures
        r@ == format_interval_spec(interval_seconds as nat),
{
    let mut v: Vec<char> = Vec::new();
    if interval_seconds % 3600 == 0 {
        push_decimal(&mut v, interval_seconds / 3600);
        v.push('h');
    } else if interval_seconds % 60 == 0 {
        push_decimal(&mut v, interval_seconds / 60);
        v.push('m');
    } else {
        push_decimal(&mut v, interval_seconds);
        v.push('s');
    }
    assert(v@ =~= format_interval_spec(interval_seconds as nat));
    string_of(&v)
}

/// An interval written by `format_interval` reads back as the same number
/// of seconds, for every positive number of seconds.
pub proof fn lemma_format_interval_roundtrip(secs: u64)
    requires
        secs > 0,
    ensures
        interval_ok(format_interval_spec(secs as nat)),
        interval_fits(format_interval_spec(secs as nat)),
        interval_seconds(format_interval_spec(secs as nat)) == secs,
{
    let t = format_interval_spec(secs as nat);
    if secs % 3600 == 0 {
        let n = (secs / 3600) as u64;
        lemma_parse_decimal(n);
        assert(t.drop_last() =~= decimal(n as nat));
        assert(unit_seconds(t.last()) == 3600);
        assert((n as nat) * 3600 == secs) by (nonlinear_arith)
            requires
                n == secs / 3600,
                secs % 3600 == 0,
        ;
        assert(interval_seconds(t) == (n as nat) * 3600);
    } else if secs % 60 == 0 {
        let n = (secs / 60) as u64;
        lemma_parse_decimal(n);
        assert(t.drop_last() =~= decimal(n as nat));
        assert(unit_seconds(t.last()) == 60);
        assert((n as nat) * 60 == secs) by (nonlinear_arith)
            requires
                n == secs / 60,
                secs % 60 == 0,
        ;
        assert(interval_seconds(t) == (n as nat) * 60);
    } else {
        lemma_parse_decimal(secs);
        assert(t.drop_last() =~= decimal(secs as nat));
        assert(unit_seconds(t.last()) == 1);
        assert(interval_seconds(t) == (secs as nat) * 1);
    }
    assert(interval_count(t).is_some());
}

} // verus!

verus! {

/// The arguments with which the program is started again as the playback
/// worker: `lists play --foreground --interval <interval>`, then the list's
/// name when a list is played.
pub open spec fn worker_args_spec(mode: PlaybackMode, interval: Seq<char>) -> Seq<Seq<char>> {
    seq!["lists"@, "play"@, "--foreground"@, "--interval"@, interval] + match mode {
        PlaybackMode::List { name } => seq![name@],
        PlaybackMode::Filesystem => Seq::empty(),
    }
}

/// The worker's arguments for playing `mode` every `interval`.
pub fn worker_args(mode: &PlaybackMode, interval: &str) -> (r: Vec<String>)
    ensures
        string_views(r@) == worker_args_spec(*mode, interval@),
{
    let mut r: Vec<String> = Vec::new();
    r.push(String::from_str("lists"));
    r.push(String::from_str("play"));
    r.push(String::from_str("--foreground"));
    r.push(String::from_str("--interval"));
    r.push(String::from_str(interval));
    match mode {
        PlaybackMode::List { name } => r.push(name.clone()),
        PlaybackMode::Filesystem => {},
    }
    assert(string_views(r@) =~= worker_args_spec(*mode, interval@));
    r
}

/// The mode of a playback started with an optional list name.
pub fn playback_mode(name: Option<String>) -> (r: PlaybackMode)
    ensures
        match name {
            Some(n) => r == PlaybackMode::List { name: n },
            None => r == PlaybackMode::Filesystem,
        },
{
    match name {
        Some(name) => PlaybackMode::List { name },
        None => PlaybackMode::Filesystem,
    }
}

/// What starting playback of `name` (a list, or the whole directory) every
/// `interval` asks for, once any earlier playback is stopped: the mode and
/// the interval in seconds; a malformed interval is an error.
pub fn start_playback(name: Option<String>, interval: &str) -> (r: Result<(PlaybackMode, u64), SwpError>)
    requires
        interval_fits(interval@),
    ensures
        r matches Ok((mode, secs)) ==> interval_ok(interval@) && secs == interval_seconds(interval@)
            && match name {
            Some(n) => mode == PlaybackMode::List { name: n },
            None => mode == PlaybackMode::Filesystem,
        },
        r is Ok <==> interval_ok(interval@),
        r matches Err(e) ==> (e matches SwpError::Interval(_)),
{
    let mode = playback_mode(name);
    match crate::wallpaper_core::lists_play::parse_interval(interval) {
        Ok(secs) => Ok((mode, secs)),
        Err(e) => Err(SwpError::Interval(e)),
    }
}

/// What to do about a saved playback before starting a new one or
/// stopping: stop its worker (where alive) and clear the saved state, or
/// give up with an error.
#[derive(Debug)]
pub struct StopPlan {
    pub kill: Option<u32>,
    pub clear: bool,
    pub outcome: Result<(), SwpError>,
}

/// Whether `e` says that the saved state is unreadable.
pub open spec fn is_invalid_state(e: SwpError) -> bool {
    e matches SwpError::Playback(PlaybackError::InvalidState { .. })
}

/// How a new playback gets rid of the previous one, given what loading the
/// saved state gave and whether its worker is alive: an active state's
/// live worker is stopped; in every case but a failed load (other than an
/// unreadable state, which counts as none) the state is cleared.
pub fn stop_existing_if_any(loaded: Result<Option<PlaybackState>, SwpError>, alive: bool) -> (r: StopPlan)
    ensures
        match loaded {
            Ok(Some(s)) => r.kill == (if alive { Some(s.pid) } else { None::<u32> }) && r.clear && r.outcome is Ok,
            Ok(None) => r.kill is None && r.clear && r.outcome is Ok,
            Err(e) => if is_invalid_state(e) {
                r.kill is None && r.clear && r.outcome is Ok
            } else {
                r.kill is None && !r.clear && r.outcome == Err::<(), SwpError>(e)
            },
        },
{
    match loaded {
        Ok(Some(s)) => StopPlan { kill: if alive { Some(s.pid) } else { None }, clear: true, outcome: Ok(()) },
        Ok(None) => StopPlan { kill: None, clear: true, outcome: Ok(()) },
        Err(SwpError::Playback(PlaybackError::InvalidState { message })) => StopPlan {
            kill: None,
            clear: true,
            outcome: Ok(()),
        },
        Err(e) => StopPlan { kill: None, clear: false, outcome: Err(e) },
    }
}

/// How `swp lists stop` acts on what loading the saved state gave: an
/// active state's live worker is stopped and the state cleared; with no
/// active playback (none saved, or unreadable) the state is cleared and
/// that is reported as an error; a failed load is passed on.
pub fn stop_playback(loaded: Result<Option<PlaybackState>, SwpError>, alive: bool) -> (r: StopPlan)
    ensures
        match loaded {
            Ok(Some(s)) => r.kill == (if alive { Some(s.pid) } else { None::<u32> }) && r.clear && r.outcome is Ok,
            Ok(None) => r.kill is None && r.clear && (r.outcome matches Err(
                SwpError::Playback(PlaybackError::NoActivePlayback),
            )),
            Err(e) => if is_invalid_state(e) {
                r.kill is None && r.clear && (r.outcome matches Err(
                    SwpError::Playback(PlaybackError::NoActivePlayback),
                ))
            } else {
                r.kill is None && !r.clear && r.outcome == Err::<(), SwpError>(e)
            },
        },
{
    match loaded {
        Ok(Some(s)) => StopPlan { kill: if alive { Some(s.pid) } else { None }, clear: true, outcome: Ok(()) },
        Ok(None) => StopPlan {
            kill: None,
            clear: true,
            outcome: Err(SwpError::Playback(PlaybackError::NoActivePlayback)),
        },
        Err(SwpError::Playback(PlaybackError::InvalidState { message })) => StopPlan {
            kill: None,
            clear: true,
            outcome: Err(SwpError::Playback(PlaybackError::NoActivePlayback)),
        },
        Err(e) => StopPlan { kill: None, clear: false, outcome: Err(e) },
    }
}

/// What resuming playback after login does.
#[derive(Debug)]
pub enum ResumePlan {
    /// Nothing: no active playback, or its worker still runs.
    Nothing,
    /// Clear the unreadable saved state.
    Clear,
    /// Pass on the failure to load the state.
    Fail(SwpError),
    /// Start a worker for `mode` with the interval text `interval`, then
    /// save `resumed_state` of `previous` for it.
    Respawn { mode: PlaybackMode, interval: String, previous: PlaybackState },
}

/// How resuming acts on what loading the saved state gave and whether its
/// worker is alive: a dead worker of an active playback is started again
/// with the same mode and interval.
pub fn resume_playback(loaded: Result<Option<PlaybackState>, SwpError>, alive: bool) -> (r: ResumePlan)
    ensures
        match loaded {
            Ok(None) => r is Nothing,
            Ok(Some(s)) => if alive {
                r is Nothing
            } else {
                r matches ResumePlan::Respawn { mode, interval, previous } && mode == s.mode && interval@
                    == format_interval_spec(s.interval_seconds as nat) && previous == s
            },
            Err(e) => if is_invalid_state(e) {
                r is Clear
            } else {
                r == ResumePlan::Fail(e)
            },
        },
{
    match loaded {
        Ok(None) => ResumePlan::Nothing,
        Ok(Some(s)) => {
            if alive {
                ResumePlan::Nothing
            } else {
                let interval = format_interval(s.interval_seconds);
                ResumePlan::Respawn {
                    mode: crate::wallpaper_core::playback_state::copy_mode(&s.mode),
                    interval,
                    previous: s,
                }
            }
        },
        Err(SwpError::Playback(PlaybackError::InvalidState { .. })) => ResumePlan::Clear,
        Err(e) => ResumePlan::Fail(e),
    }
}

/// The state saved for a resumed worker `pid`: fresh, as `build_state` makes
/// it at `now`, but keeping the last rotation and wallpaper of `old`.
pub fn resumed_state(old: &PlaybackState, pid: u32, now: u64) -> (r: PlaybackState)
    ensures
        r.version == PLAYBACK_SCHEMA_VERSION,
        r.pid == pid,
        r.active,
        r.mode == old.mode,
        r.interval_seconds == old.interval_seconds,
        r.started_at == now,
        r.last_rotation == old.last_rotation,
        r.last_wallpaper == old.last_wallpaper,
{
    let mut resumed = build_state(
        pid,
        crate::wallpaper_core::playback_state::copy_mode(&old.mode),
        old.interval_seconds,
        now,
    );
    resumed.last_rotation = old.last_rotation;
    resumed.last_wallpaper = match &old.last_wallpaper {
        Some(w) => Some(w.clone()),
        None => None,
    };
    resumed
}

} // verus!

verus! {

/// How many times a worker is checked (with a pause after each) between
/// the polite and the forced stop.
pub open spec fn kill_checks() -> u32 {
    20
}

/// The signals sent to a playback worker.
#[derive(Debug, PartialEq, Eq, Structural)]
pub enum KillSignal {
    Term,
    Kill,
}

/// What stopping a worker asks for next.
#[derive(Debug)]
pub enum KillAction {
    /// Send the signal to the worker.
    Send(KillSignal),
    /// Check whether the worker is still alive.
    CheckAlive,
    /// Pause briefly (100 ms).
    Pause,
    /// Done, with this outcome.
    Finish(Result<(), SwpError>),
}

/// What came of the last action.
#[derive(Debug)]
pub enum KillEvent {
    /// The signal was sent.
    Sent,
    /// Sending failed; `not_found` where the process was gone.
    SendFailed { not_found: bool, message: String },
    /// The worker is (or is not) alive.
    Alive(bool),
    /// The pause is over.
    Paused,
}

/// Where stopping a worker stands.
#[derive(Debug, PartialEq, Eq, Structural)]
pub enum KillPhase {
    /// The polite signal is on its way.
    Terminating,
    /// `done` checks have found the worker alive so far.
    Waiting { done: u32 },
    /// The forced signal is on its way.
    Forcing,
    /// Finished.
    Finished,
}

/// Stopping the worker `pid`: a polite signal, up to twenty checks with a
/// pause after each, then a forced signal. A process already gone counts
/// as stopped.
#[derive(Debug)]
pub struct KillProcess {
    pub pid: u32,
    pub phase: KillPhase,
}

/// The outcome of a failed send to `pid`.
pub open spec fn send_failure(pid: u32, not_found: bool, message: Seq<char>, r: Result<(), SwpError>) -> bool {
    if not_found {
        r is Ok
    } else {
        r matches Err(SwpError::Playback(PlaybackError::KillError { pid: p, message: m })) && p == pid && m@ == message
    }
}

/// What one step of stopping a worker does: from `old`, on `event`, the
/// stop moves to `new` and asks for `action`. An event that does not fit
/// the phase changes nothing and asks for the action of the phase.
pub open spec fn kill_transition(old: KillProcess, event: KillEvent, new: KillProcess, action: KillAction) -> bool {
    &&& new.pid == old.pid
    &&& new.phase matches KillPhase::Waiting { done } ==> done < kill_checks()
    &&& match (old.phase, event) {
        (KillPhase::Terminating, KillEvent::Sent) => new.phase == (KillPhase::Waiting { done: 0 })
            && action is CheckAlive,
        (KillPhase::Terminating, KillEvent::SendFailed { not_found, message }) => new.phase
            == KillPhase::Finished && (action matches KillAction::Finish(o) && send_failure(
            old.pid,
            not_found,
            message@,
            o,
        )),
        (KillPhase::Waiting { done }, KillEvent::Alive(false)) => new.phase
            == KillPhase::Finished && (action matches KillAction::Finish(o) && o is Ok),
        (KillPhase::Waiting { done }, KillEvent::Alive(true)) => new.phase == old.phase
            && action is Pause,
        (KillPhase::Waiting { done }, KillEvent::Paused) => if done + 1 < kill_checks() {
            new.phase == (KillPhase::Waiting { done: (done + 1) as u32 }) && action is CheckAlive
        } else {
            new.phase == KillPhase::Forcing && action == KillAction::Send(KillSignal::Kill)
        },
        (KillPhase::Forcing, KillEvent::Sent) => new.phase == KillPhase::Finished && (action matches KillAction::Finish(o) && o is Ok),
        (KillPhase::Forcing, KillEvent::SendFailed { not_found, message }) => new.phase
            == KillPhase::Finished && (action matches KillAction::Finish(o) && send_failure(
            old.pid,
            not_found,
            message@,
            o,
        )),
        (KillPhase::Finished, _) => new.phase == KillPhase::Finished && (action matches KillAction::Finish(o) && o is Ok),
        _ => new.phase == old.phase && match old.phase {
            KillPhase::Terminating => action == KillAction::Send(KillSignal::Term),
            KillPhase::Waiting { .. } => action is CheckAlive,
            KillPhase::Forcing => action == KillAction::Send(KillSignal::Kill),
            KillPhase::Finished => action matches KillAction::Finish(o) && o is Ok,
        },
    }
}

impl KillProcess {
    /// Starts stopping `pid`: the first action is the polite signal.
    pub fn new(pid: u32) -> (r: (KillProcess, KillAction))
        ensures
            r.0.pid == pid,
            r.0.phase == KillPhase::Terminating,
            r.1 == KillAction::Send(KillSignal::Term),
    {
        (KillProcess { pid, phase: KillPhase::Terminating }, KillAction::Send(KillSignal::Term))
    }

    /// The next action, given what came of the last one (see
    /// `kill_transition`).
    pub fn step(&mut self, event: KillEvent) -> (r: KillAction)
        requires
            old(self).phase matches KillPhase::Waiting { done } ==> done < kill_checks(),
        ensures
            kill_transition(*old(self), event, *final(self), r),
    {
        let pid = self.pid;
        match (&self.phase, event) {
            (KillPhase::Terminating, KillEvent::Sent) => {
                self.phase = KillPhase::Waiting { done: 0 };
                KillAction::CheckAlive
            },
            (KillPhase::Terminating, KillEvent::SendFailed { not_found, message }) => {
                self.phase = KillPhase::Finished;
                KillAction::Finish(if not_found { Ok(()) } else { Err(SwpError::Playback(PlaybackError::KillError { pid, message })) })
            },
            (KillPhase::Waiting { .. }, KillEvent::Alive(false)) => {
                self.phase = KillPhase::Finished;
                KillAction::Finish(Ok(()))
            },
            (KillPhase::Waiting { .. }, KillEvent::Alive(true)) => KillAction::Pause,
            (KillPhase::Waiting { done }, KillEvent::Paused) => {
                let done = *done;
                if done + 1 < 20 {
                    self.phase = KillPhase::Waiting { done: done + 1 };
                    KillAction::CheckAlive
                } else {
                    self.phase = KillPhase::Forcing;
                    KillAction::Send(KillSignal::Kill)
                }
            },
            (KillPhase::Forcing, KillEvent::Sent) => {
                self.phase = KillPhase::Finished;
                KillAction::Finish(Ok(()))
            },
            (KillPhase::Forcing, KillEvent::SendFailed { not_found, message }) => {
                self.phase = KillPhase::Finished;
                KillAction::Finish(if not_found { Ok(()) } else { Err(SwpError::Playback(PlaybackError::KillError { pid, message })) })
            },
            (KillPhase::Finished, _) => KillAction::Finish(Ok(())),
            (KillPhase::Terminating, _) => KillAction::Send(KillSignal::Term),
            (KillPhase::Waiting { .. }, _) => KillAction::CheckAlive,
            (KillPhase::Forcing, _) => KillAction::Send(KillSignal::Kill),
        }
    }
}


/// How many of `events` are ends of a pause.
pub open spec fn pauses(events: Seq<KillEvent>) -> nat
    decreases events.len(),
{
    if events.len() == 0 {
        0
    } else {
        pauses(events.drop_last()) + if events.last() is Paused {
            1nat
        } else {
            0nat
        }
    }
}

/// Whether `states`, `events` and `actions` are a run of stopping a worker
/// from its start: each step goes from `states[k]`, on `events[k]`, to
/// `states[k + 1]` and asks for `actions[k]`.
pub open spec fn kill_run(states: Seq<KillProcess>, events: Seq<KillEvent>, actions: Seq<KillAction>) -> bool {
    &&& states.len() == events.len() + 1
    &&& actions.len() == events.len()
    &&& states[0].phase == KillPhase::Terminating
    &&& forall|k: int| 0 <= k < events.len() ==> kill_transition(#[trigger] states[k], events[k], states[k + 1], actions[k])
}

proof fn lemma_pauses_prefix(events: Seq<KillEvent>, k: int)
    requires
        0 <= k < events.len(),
    ensures
        pauses(events.subrange(0, k + 1)) == pauses(events.subrange(0, k)) + if events[k] is Paused {
            1nat
        } else {
            0nat
        },
{
    assert(events.subrange(0, k + 1).drop_last() =~= events.subrange(0, k));
}

proof fn lemma_kill_run_counts(states: Seq<KillProcess>, events: Seq<KillEvent>, actions: Seq<KillAction>, k: int)
    requires
        kill_run(states, events, actions),
        0 <= k <= events.len(),
    ensures
        states[k].phase matches KillPhase::Waiting { done } ==> pauses(events.subrange(0, k)) >= done,
        states[k].phase is Forcing ==> pauses(events.subrange(0, k)) >= kill_checks(),
    decreases k,
{
    if k > 0 {
        lemma_kill_run_counts(states, events, actions, k - 1);
        lemma_pauses_prefix(events, k - 1);
        assert(kill_transition(states[k - 1], events[k - 1], states[k], actions[k - 1]));
    }
}

/// The forced signal comes only after twenty checks: in any run of stopping
/// a worker from its start, an action that sends the forced signal comes
/// after at least twenty pauses, each taken after a check that found the
/// worker still alive.
pub proof fn lemma_kill_forced_only_after_checks(
    states: Seq<KillProcess>,
    events: Seq<KillEvent>,
    actions: Seq<KillAction>,
    i: int,
)
    requires
        kill_run(states, events, actions),
        0 <= i < events.len(),
        actions[i] == KillAction::Send(KillSignal::Kill),
    ensures
        pauses(events.subrange(0, i + 1)) >= kill_checks(),
{
    lemma_kill_run_counts(states, events, actions, i);
    lemma_pauses_prefix(events, i);
    assert(kill_transition(states[i], events[i], states[i + 1], actions[i]));
}

} // verus!
