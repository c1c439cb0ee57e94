//! Slideshow panel of the GUI.

use vstd::prelude::*;
use crate::error::SwpError;
use crate::gui::message::SlideshowMessage;
use crate::gui::state::SlideshowState;
use crate::text::{chars_of, concat2, decimal, parse_u64, parse_u64_spec, push_decimal, string_of, trim_chars, trim_spec};
use crate::wallpaper_core::lists::ListItem;

verus! {

/// What the slideshow panel reads from an interval field: `Ok` with the
/// seconds, or `Err` with the text shown to the user. The field is trimmed;
/// `<n>s` is `n` seconds, `<n>m` is `n` minutes, and a bare number is seconds.
pub open spec fn panel_interval_spec(s: Seq<char>) -> Result<nat, Seq<char>> {
    let t = trim_spec(s);
    if t.len() > 0 && t.last() == 's' {
        match parse_u64_spec(t.drop_last()) {
            Some(n) => Ok(n as nat),
            None => Err("Invalid seconds value"@),
        }
    } else if t.len() > 0 && t.last() == 'm' {
        match parse_u64_spec(t.drop_last()) {
            Some(n) => Ok(60 * (n as nat)),
            None => Err("Invalid minutes value"@),
        }
    } else {
        match parse_u64_spec(t) {
            Some(n) => Ok(n as nat),
            None => Err("Use format: 5s, 1m, or plain number"@),
        }
    }
}

/// Reads the interval field of the slideshow panel (`5s`, `1m` or a plain
/// number of seconds) and gives the interval in seconds.
pub fn parse_interval(s: &str) -> (r: Result<u64, String>)
    requires
        panel_interval_spec(s@) matches Ok(v) ==> v <= u64::MAX,
    ensures
        match panel_interval_spec(s@) {
            Ok(v) => r matches Ok(x) && x == v,
            Err(m) => r matches Err(e) && e@ == m,
        },
{
    let all = chars_of(s);
    let mut t = trim_chars(&all);
    let n = t.len();
    if n > 0 && t[n - 1] == 's' {
        t.pop();
        match parse_u64(&t) {
            Some(v) => Ok(v),
            None => Err(String::from_str("Invalid seconds value")),
        }
    } else if n > 0 && t[n - 1] == 'm' {
        t.pop();
        match parse_u64(&t) {
            Some(v) => Ok(v * 60),
            None => Err(String::from_str("Invalid minutes value")),
        }
    } else {
        match parse_u64(&t) {
            Some(v) => Ok(v),
            None => Err(String::from_str("Use format: 5s, 1m, or plain number")),
        }
    }
}

/// Whether the interval in `s` fits in a `u64` once read as seconds.
pub open spec fn panel_interval_fits(s: Seq<char>) -> bool {
    panel_interval_spec(s) matches Ok(v) ==> v <= u64::MAX
}

/// Tells whether the interval field `s` reads as a number of seconds that
/// fits in a `u64` (a field that does not read at all fits).
pub fn interval_fits(s: &str) -> (r: bool)
    ensures
        r == panel_interval_fits(s@),
{
    let all = chars_of(s);
    let mut t = trim_chars(&all);
    let n = t.len();
    if n > 0 && t[n - 1] == 'm' {
        t.pop();
        match parse_u64(&t) {
            Some(v) => v <= u64::MAX / 60,
            None => true,
        }
    } else {
        true
    }
}

/// The work that a slideshow message starts.
#[derive(Debug)]
pub enum SlideshowTask {
    /// Nothing to do.
    Idle,
    /// Deliver this message next.
    Done(SlideshowMessage),
    /// Read the list and deliver `SlideApplied` with the path of its first
    /// wallpaper (see `first_slide`).
    FirstOfList(String),
    /// Apply the wallpaper at `path`; once applied, wait `seconds`; then
    /// deliver `SlideApplied` with the error that ends the cycle.
    ApplyThenWait { path: String, seconds: u64 },
}

/// Whether `new` is `old` with, at most, another message.
pub open spec fn except_message(new: SlideshowState, old: SlideshowState) -> bool {
    &&& new.is_active == old.is_active
    &&& new.current_list == old.current_list
    &&& new.is_paused == old.is_paused
    &&& new.current_interval == old.current_interval
    &&& new.currently_playing == old.currently_playing
    &&& new.cycle_count == old.cycle_count
    &&& new.playlist_paths == old.playlist_paths
    &&& new.current_index == old.current_index
    &&& new.run_id == old.run_id
}

/// Whether `new` is `old` stopped: nothing playing, no list, no message,
/// and the interval and run id kept.
pub open spec fn stopped_from(new: SlideshowState, old: SlideshowState) -> bool {
    &&& !new.is_active
    &&& new.current_list is None
    &&& new.message is None
    &&& !new.is_paused
    &&& new.currently_playing is None
    &&& new.cycle_count == 0
    &&& new.playlist_paths@.len() == 0
    &&& new.current_index == 0
    &&& new.current_interval == old.current_interval
    &&& new.run_id == old.run_id
}

/// Whether the message shown is `m`.
pub open spec fn shows(state: SlideshowState, m: Seq<char>) -> bool {
    state.message matches Some(x) && x@ == m
}

/// What updating the slideshow `old` on `message` leads to: the slideshow
/// `new` and the work `r`.
pub open spec fn slideshow_update_post(
    old: SlideshowState,
    new: SlideshowState,
    message: SlideshowMessage,
    r: SlideshowTask,
) -> bool {
    match message {
        SlideshowMessage::StartWithList(l, s) => match panel_interval_spec(s@) {
            Ok(v) => {
                &&& new.is_active && !new.is_paused
                &&& new.current_list == Some(l)
                &&& new.current_interval == v
                &&& new.cycle_count == 0
                &&& shows(new, "Starting slideshow: "@ + l@ + " ("@ + decimal(v) + "s interval)"@)
                &&& new.currently_playing == old.currently_playing
                &&& new.playlist_paths == old.playlist_paths
                &&& new.current_index == old.current_index
                &&& new.run_id == old.run_id
                &&& r == SlideshowTask::FirstOfList(l)
            },
            Err(e) => except_message(new, old) && shows(new, "Invalid interval: "@ + e) && r is Idle,
        },
        SlideshowMessage::SlideApplied(Ok(p)) => if old.current_list is Some {
            &&& new.currently_playing == Some(p)
            &&& new.cycle_count == old.cycle_count.saturating_add(1)
            &&& new.is_active == old.is_active && new.is_paused == old.is_paused
            &&& new.current_list == old.current_list && new.message == old.message
            &&& new.current_interval == old.current_interval
            &&& new.playlist_paths == old.playlist_paths
            &&& new.current_index == old.current_index && new.run_id == old.run_id
            &&& r == (SlideshowTask::ApplyThenWait { path: p, seconds: old.current_interval })
        } else {
            &&& !new.is_active && shows(new, "Slideshow stopped"@)
            &&& new.current_list == old.current_list && new.is_paused == old.is_paused
            &&& new.current_interval == old.current_interval
            &&& new.currently_playing == old.currently_playing
            &&& new.cycle_count == old.cycle_count
            &&& new.playlist_paths == old.playlist_paths
            &&& new.current_index == old.current_index && new.run_id == old.run_id
            &&& r is Idle
        },
        SlideshowMessage::SlideApplied(Err(_)) => stopped_from(new, old) && r is Idle,
        SlideshowMessage::PausePressed => (if old.is_active && !old.is_paused {
            &&& new.is_paused && shows(new, "Slideshow paused"@)
            &&& new.is_active == old.is_active
            &&& new.current_list == old.current_list
            &&& new.current_interval == old.current_interval
            &&& new.currently_playing == old.currently_playing
            &&& new.cycle_count == old.cycle_count
            &&& new.playlist_paths == old.playlist_paths
            &&& new.current_index == old.current_index && new.run_id == old.run_id
        } else {
            new == old
        }) && r is Idle,
        SlideshowMessage::ResumePressed => if old.is_active && old.is_paused {
            &&& !new.is_paused && shows(new, "Slideshow resumed"@)
            &&& new.is_active == old.is_active
            &&& new.current_list == old.current_list
            &&& new.current_interval == old.current_interval
            &&& new.currently_playing == old.currently_playing
            &&& new.cycle_count == old.cycle_count
            &&& new.playlist_paths == old.playlist_paths
            &&& new.current_index == old.current_index && new.run_id == old.run_id
            &&& match old.currently_playing {
                Some(p) => r == SlideshowTask::Done(SlideshowMessage::SlideApplied(Ok(p))),
                None => r is Idle,
            }
        } else {
            new == old && r is Idle
        },
        SlideshowMessage::StopPressed => (if old.is_active {
            &&& !new.is_active
            &&& new.current_list is None
            &&& shows(new, "Slideshow stopped"@)
            &&& !new.is_paused
            &&& new.currently_playing is None
            &&& new.cycle_count == 0
            &&& new.playlist_paths@.len() == 0
            &&& new.current_index == 0
            &&& new.current_interval == old.current_interval
            &&& new.run_id == old.run_id
        } else {
            new == old
        }) && r is Idle,
        SlideshowMessage::IntervalChanged(s) => (match panel_interval_spec(s@) {
            Ok(v) => {
                &&& new.current_interval == v
                &&& shows(new, "Interval set to "@ + decimal(v) + "s"@)
                &&& new.is_active == old.is_active && new.is_paused == old.is_paused
                &&& new.current_list == old.current_list
                &&& new.currently_playing == old.currently_playing
                &&& new.cycle_count == old.cycle_count
                &&& new.playlist_paths == old.playlist_paths
                &&& new.current_index == old.current_index && new.run_id == old.run_id
            },
            Err(e) => except_message(new, old) && shows(new, "Invalid interval: "@ + e),
        }) && r is Idle,
        _ => new == old && r is Idle,
    }
}

/// Resuming undoes pausing: a running slideshow that is paused and then
/// resumed is as it was, but for its message (`Slideshow resumed`), and the
/// resume replays the wallpaper it was showing, if any.
pub proof fn lemma_pause_then_resume(
    s0: SlideshowState,
    s1: SlideshowState,
    s2: SlideshowState,
    r1: SlideshowTask,
    r2: SlideshowTask,
)
    requires
        s0.is_active,
        !s0.is_paused,
        slideshow_update_post(s0, s1, SlideshowMessage::PausePressed, r1),
        slideshow_update_post(s1, s2, SlideshowMessage::ResumePressed, r2),
    ensures
        except_message(s2, s0),
        shows(s2, "Slideshow resumed"@),
        r1 is Idle,
        match s0.currently_playing {
            Some(p) => r2 == SlideshowTask::Done(SlideshowMessage::SlideApplied(Ok(p))),
            None => r2 is Idle,
        },
{
}

/// Whether the slideshow's flags agree: only a running slideshow is
/// paused, and a running one has a list.
pub open spec fn flags_consistent(s: SlideshowState) -> bool {
    &&& s.is_paused ==> s.is_active
    &&& s.is_active ==> s.current_list is Some
}

/// Every update keeps the flags in agreement: whatever the message, a
/// slideshow whose flags agree still has agreeing flags afterwards.
pub proof fn lemma_update_keeps_flags_consistent(
    old_state: SlideshowState,
    new_state: SlideshowState,
    message: SlideshowMessage,
    r: SlideshowTask,
)
    requires
        flags_consistent(old_state),
        slideshow_update_post(old_state, new_state, message, r),
    ensures
        flags_consistent(new_state),
{
}

/// What `message` asks of its interval, if it holds one: that it fits.
pub open spec fn slideshow_message_fits(message: SlideshowMessage) -> bool {
    match message {
        SlideshowMessage::StartWithList(_, s) => panel_interval_fits(s@),
        SlideshowMessage::IntervalChanged(s) => panel_interval_fits(s@),
        _ => true,
    }
}

/// `prefix`, then `v` in decimal, then `suffix`.
fn with_number(prefix: &str, v: u64, suffix: &str) -> (r: String)
    ensures
        r@ == prefix@ + decimal(v as nat) + suffix@,
{
    let mut c = chars_of(prefix);
    push_decimal(&mut c, v);
    let mut s = string_of(&c);
    s.append(suffix);
    s
}

/// Updates the slideshow on `message` and gives the work it starts. The
/// messages of the start dialog are the window's own and change nothing
/// here.
pub fn update(state: &mut SlideshowState, message: SlideshowMessage) -> (r: SlideshowTask)
    requires
        slideshow_message_fits(message),
    ensures
        slideshow_update_post(*old(state), *final(state), message, r),
{
    match message {
        SlideshowMessage::StartWithList(list_name, interval_str) => {
            match parse_interval(interval_str.as_str()) {
                Err(e) => {
                    state.message = Some(concat2("Invalid interval: ", e.as_str()));
                    SlideshowTask::Idle
                },
                Ok(secs) => {
                    state.is_active = true;
                    state.is_paused = false;
                    state.current_list = Some(list_name.clone());
                    state.current_interval = secs;
                    state.cycle_count = 0;
                    let mut c = chars_of("Starting slideshow: ");
                    let name = chars_of(list_name.as_str());
                    crate::text::push_chars_vec(&mut c, &name);
                    let tail = with_number(" (", secs, "s interval)");
                    let tail_chars = chars_of(tail.as_str());
                    crate::text::push_chars_vec(&mut c, &tail_chars);
                    state.message = Some(string_of(&c));
                    proof {
                        assert(c@ =~= "Starting slideshow: "@ + list_name@ + " ("@ + decimal(secs as nat) + "s interval)"@);
                    }
                    SlideshowTask::FirstOfList(list_name)
                },
            }
        },
        SlideshowMessage::SlideApplied(Ok(path)) => {
            if state.current_list.is_some() {
                let seconds = state.current_interval;
                state.currently_playing = Some(path.clone());
                state.cycle_count = state.cycle_count.saturating_add(1);
                SlideshowTask::ApplyThenWait { path, seconds }
            } else {
                state.message = Some(String::from_str("Slideshow stopped"));
                state.is_active = false;
                SlideshowTask::Idle
            }
        },
        SlideshowMessage::SlideApplied(Err(_)) => {
            state.is_active = false;
            state.reset();
            SlideshowTask::Idle
        },
        SlideshowMessage::PausePressed => {
            if state.is_active && !state.is_paused {
                state.is_paused = true;
                state.message = Some(String::from_str("Slideshow paused"));
            }
            SlideshowTask::Idle
        },
        SlideshowMessage::ResumePressed => {
            if state.is_active && state.is_paused {
                state.is_paused = false;
                state.message = Some(String::from_str("Slideshow resumed"));
                match &state.currently_playing {
                    Some(p) => SlideshowTask::Done(SlideshowMessage::SlideApplied(Ok(p.clone()))),
                    None => SlideshowTask::Idle,
                }
            } else {
                SlideshowTask::Idle
            }
        },
        SlideshowMessage::StopPressed => {
            if state.is_active {
                state.reset();
                state.message = Some(String::from_str("Slideshow stopped"));
            }
            SlideshowTask::Idle
        },
        SlideshowMessage::IntervalChanged(interval_str) => {
            match parse_interval(interval_str.as_str()) {
                Ok(secs) => {
                    state.current_interval = secs;
                    state.message = Some(with_number("Interval set to ", secs, "s"));
                },
                Err(e) => {
                    state.message = Some(concat2("Invalid interval: ", e.as_str()));
                },
            }
            SlideshowTask::Idle
        },
        _ => SlideshowTask::Idle,
    }
}

/// The first slide of a list: the path of its first wallpaper, or the
/// error that stops the slideshow where the list is empty or its first
/// wallpaper has no known path.
pub fn first_slide(items: &Vec<ListItem>) -> (r: Result<String, SwpError>)
    ensures
        items@.len() > 0 && items@[0].relative_path is Some ==> r == Ok::<String, SwpError>(
            items@[0].relative_path.unwrap(),
        ),
        !(items@.len() > 0 && items@[0].relative_path is Some) ==> (r matches Err(SwpError::GuiLaunch { message })
            && message@ == "No valid wallpaper in list"@),
{
    if items.len() > 0 {
        match &items[0].relative_path {
            Some(p) => {
                return Ok(p.clone());
            },
            None => {},
        }
    }
    Err(SwpError::GuiLaunch { message: String::from_str("No valid wallpaper in list") })
}

} // verus!
