use vstd::prelude::*;
use crate::resolve::{ResolvedTarget, TargetView, opt_target_view, same_target};
use vstd::string::StringExecFns;

verus! {

/// What the caller must do to the playback process: first stop the running
/// one if `stop_current`, then launch one for `launch` if it is present.
#[derive(Debug)]
pub struct Transition {
    pub stop_current: bool,
    pub launch: Option<ResolvedTarget>,
}

pub struct TransitionView {
    pub stop_current: bool,
    pub launch: Option<TargetView>,
}

impl View for Transition {
    type V = TransitionView;

    open spec fn view(&self) -> TransitionView {
        TransitionView { stop_current: self.stop_current, launch: opt_target_view(self.launch) }
    }
}

impl Transition {
    /// The transition that touches nothing.
    pub fn none() -> (r: Transition)
        ensures
            r@ == noop(),
    {
        Transition { stop_current: false, launch: None }
    }

    pub fn is_noop(&self) -> (r: bool)
        ensures
            r == (self@ == noop()),
    {
        !self.stop_current && self.launch.is_none()
    }
}

pub open spec fn noop() -> TransitionView {
    TransitionView { stop_current: false, launch: None }
}

/// The supervisor's decision for `target` while `current` plays: nothing when
/// the two are equal, else stop what runs and launch `target`.
pub open spec fn apply_spec(current: Option<TargetView>, target: Option<TargetView>) -> (Option<TargetView>, TransitionView) {
    if current == target {
        (current, noop())
    } else {
        (target, TransitionView { stop_current: current is Some, launch: target })
    }
}

/// Processes alive while the supervisor records `current`.
pub open spec fn live_count(current: Option<TargetView>) -> int {
    if current is Some { 1 } else { 0 }
}

/// Processes alive after a transition is carried out on `live` processes.
pub open spec fn performed(live: int, t: TransitionView) -> int {
    live - (if t.stop_current { 1int } else { 0int }) + (if t.launch is Some { 1int } else { 0int })
}

/// The supervisor's record after `apply` with each of `targets` in turn.
pub open spec fn run(start: Option<TargetView>, targets: Seq<Option<TargetView>>) -> Option<TargetView>
    decreases targets.len(),
{
    if targets.len() == 0 {
        start
    } else {
        apply_spec(run(start, targets.drop_last()), targets.last()).0
    }
}

/// The processes alive after every transition of that run is carried out.
pub open spec fn run_live(start: Option<TargetView>, live: int, targets: Seq<Option<TargetView>>) -> int
    decreases targets.len(),
{
    if targets.len() == 0 {
        live
    } else {
        performed(
            run_live(start, live, targets.drop_last()),
            apply_spec(run(start, targets.drop_last()), targets.last()).1,
        )
    }
}

/// Owner of the one playback process: it records the target that the live
/// process, if any, was started for.
#[derive(Debug)]
pub struct Supervisor {
    pub current: Option<ResolvedTarget>,
}

impl View for Supervisor {
    type V = Option<TargetView>;

    open spec fn view(&self) -> Option<TargetView> {
        opt_target_view(self.current)
    }
}

impl Supervisor {
    /// A supervisor with no process.
    pub fn new() -> (r: Supervisor)
        ensures
            r@ is None,
    {
        Supervisor { current: None }
    }

    /// Decides the move to `target` and records it as current. Equal
    /// contents give the empty transition; otherwise the running process is
    /// stopped and one for `target` launched.
    pub fn apply(&mut self, target: Option<ResolvedTarget>) -> (t: Transition)
        ensures
            (final(self)@, t@) == apply_spec(old(self)@, opt_target_view(target)),
    {
        if same_target(&self.current, &target) {
            Transition::none()
        } else {
            let stop_current = self.current.is_some();
            let launch = match &target {
                Some(x) => Some(x.duplicate()),
                None => None,
            };
            self.current = target;
            Transition { stop_current, launch }
        }
    }

    /// Records that the last launch did not come up: no process is live.
    pub fn launch_failed(&mut self)
        ensures
            final(self)@ is None,
    {
        self.current = None;
    }
}

pub open spec fn strings_view(v: Seq<String>) -> Seq<Seq<char>> {
    v.map_values(|s: String| s@)
}

/// Arguments for the player: the media reference, no video, then shuffle
/// with playlist looping for a playlist, or single-item looping otherwise.
pub open spec fn player_args_spec(t: TargetView) -> Seq<Seq<char>> {
    if t.is_playlist {
        seq![t.media_reference, "-no-video"@, "--shuffle"@, "--loop-playlist"@]
    } else {
        seq![t.media_reference, "-no-video"@, "--loop"@]
    }
}

/// The command-line arguments that start the player on `target`.
pub fn player_args(target: &ResolvedTarget) -> (r: Vec<String>)
    ensures
        strings_view(r@) == player_args_spec(target@),
{
    let mut r: Vec<String> = Vec::new();
    r.push(target.media_reference.clone());
    r.push(String::from_str("-no-video"));
    if target.is_playlist {
        r.push(String::from_str("--shuffle"));
        r.push(String::from_str("--loop-playlist"));
    } else {
        r.push(String::from_str("--loop"));
    }
    assert(strings_view(r@) =~= player_args_spec(target@));
    r
}

/// Whatever sequence of targets is applied from a supervisor whose record
/// matches the live processes, once each transition is carried out the
/// record still matches them and at most one process is alive.
pub proof fn lemma_at_most_one_process(start: Option<TargetView>, targets: Seq<Option<TargetView>>)
    ensures
        run_live(start, live_count(start), targets) == live_count(run(start, targets)),
        0 <= run_live(start, live_count(start), targets) <= 1,
    decreases targets.len(),
{
    if targets.len() > 0 {
        lemma_at_most_one_process(start, targets.drop_last());
    }
}

/// Applying the same target twice launches at most once: the second call
/// returns the empty transition and keeps the record.
pub proof fn lemma_repeat_apply_is_noop(current: Option<TargetView>, target: Option<TargetView>)
    ensures
        apply_spec(apply_spec(current, target).0, target).1 == noop(),
        apply_spec(apply_spec(current, target).0, target).0 == apply_spec(current, target).0,
        apply_spec(apply_spec(current, target).0, target).0 == target,
{
}

} // verus!
