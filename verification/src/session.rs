//! The staged session orchestrator: a strictly linear state machine
//! (sleep, connectivity probe, main run, post run) that assembles each
//! stage's invocation from the configuration, applies the per-stage
//! failure policy, and reports a boolean outcome per applicable stage.
//!
//! The machine itself performs no outside work: each step answers with
//! the next state and at most one action (suspend, probe, run, report,
//! or terminate). The surrounding driver performs the action and feeds
//! the boolean result of a probe or run back in as the next event.

use vstd::prelude::*;

use crate::config::InputConfig;
use crate::text::{seq_views, trim_spec, trim_str};

verus! {

/// The reportable stages, each published as one named boolean outcome.
#[derive(Clone, Copy, Debug, PartialEq, Eq, Structural)]
pub enum StageKind {
    MainRun,
    PostRun,
}

/// One outside action that the driver must perform for the machine.
#[derive(Debug, Clone, PartialEq, Eq)]
pub enum Action {
    /// Suspend the whole process for this many seconds.
    Sleep { seconds: u32 },
    /// Retry the invocation until one attempt succeeds or the timeout
    /// elapses; the boolean result is the next event.
    Probe { program: String, args: Vec<String>, timeout_seconds: u32 },
    /// Execute the invocation exactly once, synchronously; the boolean
    /// result is the next event.
    Run { program: String, args: Vec<String> },
    /// Publish the named boolean outcome of a stage.
    Report { stage: StageKind, success: bool },
    /// Terminate the process with this exit code.
    Exit { code: u8 },
}

/// The mathematical shape of an action: program names and argument
/// lists as character sequences.
pub enum ActionV {
    Sleep { seconds: u32 },
    Probe { program: Seq<char>, args: Seq<Seq<char>>, timeout_seconds: u32 },
    Run { program: Seq<char>, args: Seq<Seq<char>> },
    Report { stage: StageKind, success: bool },
    Exit { code: u8 },
}

/// The view of an action.
pub open spec fn action_view(a: Action) -> ActionV {
    match a {
        Action::Sleep { seconds } => ActionV::Sleep { seconds },
        Action::Probe { program, args, timeout_seconds } => ActionV::Probe {
            program: program@,
            args: seq_views(args@),
            timeout_seconds,
        },
        Action::Run { program, args } => ActionV::Run { program: program@, args: seq_views(args@) },
        Action::Report { stage, success } => ActionV::Report { stage, success },
        Action::Exit { code } => ActionV::Exit { code },
    }
}

/// The view of an optional action.
pub open spec fn opt_action_view(a: Option<Action>) -> Option<ActionV> {
    match a {
        Some(x) => Some(action_view(x)),
        None => None,
    }
}

/// The positions of the linear pipeline. `Await` states expect the
/// boolean result of the action just issued; `Halted` is terminal.
#[derive(Clone, Copy, Debug, PartialEq, Eq, Structural)]
pub enum SessionState {
    SleepStage,
    ProbeStage,
    AwaitProbe,
    MainStage,
    AwaitMain,
    MainDecision { success: bool },
    PostStage,
    AwaitPost,
    PostDecision { success: bool },
    Halted { code: u8 },
}

/// The shared base of every stage invocation: the extra arguments
/// followed by the host.
pub open spec fn base_args_spec(c: InputConfig) -> Seq<Seq<char>> {
    (match c.args {
        Some(v) => seq_views(v@),
        None => Seq::empty(),
    }) + seq![c.host@]
}

/// The probe invocation's arguments: the base followed by the resolved
/// exit command tokens.
pub open spec fn probe_args_spec(c: InputConfig) -> Seq<Seq<char>> {
    base_args_spec(c) + seq_views(c.pre_exit_cmd@)
}

/// The main run's arguments: the base, with the main command appended
/// as one trailing token exactly when it does not trim to nothing.
pub open spec fn main_args_spec(c: InputConfig) -> Seq<Seq<char>> {
    if trim_spec(c.run@).len() > 0 {
        base_args_spec(c) + seq![c.run@]
    } else {
        base_args_spec(c)
    }
}

/// The post run's arguments: the base with the post-run command
/// appended as one trailing token.
pub open spec fn post_args_spec(c: InputConfig) -> Seq<Seq<char>> {
    base_args_spec(c) + seq![c.post_run->0@]
}

proof fn lemma_seq_views_push(v: Seq<String>, x: String)
    ensures
        seq_views(v.push(x)) == seq_views(v).push(x@),
{
    assert(seq_views(v.push(x)) =~= seq_views(v).push(x@));
}

fn push_all(dst: &mut Vec<String>, src: &Vec<String>)
    ensures
        seq_views(final(dst)@) == seq_views(old(dst)@) + seq_views(src@),
{
    let mut i: usize = 0;
    while i < src.len()
        invariant
            0 <= i <= src@.len(),
            seq_views(dst@) == seq_views(old(dst)@) + seq_views(src@.take(i as int)),
        decreases src@.len() - i,
    {
        let ghost prev = dst@;
        dst.push(src[i].clone());
        proof {
            lemma_seq_views_push(prev, dst@.last());
            assert(src@.take(i as int + 1) =~= src@.take(i as int).push(src@[i as int]));
            lemma_seq_views_push(src@.take(i as int), src@[i as int]);
            assert(seq_views(dst@) =~= seq_views(old(dst)@) + seq_views(
                src@.take(i as int + 1),
            ));
        }
        i = i + 1;
    }
    proof {
        assert(src@.take(src@.len() as int) =~= src@);
    }
}

/// Build a fresh copy of the shared base argument list.
pub fn base_args(c: &InputConfig) -> (r: Vec<String>)
    ensures
        seq_views(r@) == base_args_spec(*c),
{
    let mut r: Vec<String> = Vec::new();
    if let Some(a) = &c.args {
        push_all(&mut r, a);
    }
    r.push(c.host.clone());
    proof {
        assert(seq_views(r@) =~= base_args_spec(*c));
    }
    r
}

/// Build the probe invocation's argument list, from a fresh copy of the
/// base.
pub fn probe_args(c: &InputConfig) -> (r: Vec<String>)
    ensures
        seq_views(r@) == probe_args_spec(*c),
{
    let mut r = base_args(c);
    push_all(&mut r, &c.pre_exit_cmd);
    r
}

/// Build the main run's argument list, from a fresh copy of the base.
pub fn main_run_args(c: &InputConfig) -> (r: Vec<String>)
    ensures
        seq_views(r@) == main_args_spec(*c),
{
    let mut r = base_args(c);
    let tr = trim_str(c.run.as_str());
    if tr.unicode_len() > 0 {
        r.push(c.run.clone());
        proof {
            assert(seq_views(r@) =~= base_args_spec(*c) + seq![c.run@]);
        }
    }
    r
}

/// Build the post run's argument list, from a fresh copy of the base.
pub fn post_run_args(c: &InputConfig) -> (r: Vec<String>)
    requires
        c.post_run is Some,
    ensures
        seq_views(r@) == post_args_spec(*c),
{
    let mut r = base_args(c);
    match &c.post_run {
        Some(p) => {
            r.push(p.clone());
        },
        None => {},
    }
    proof {
        assert(seq_views(r@) =~= post_args_spec(*c));
    }
    r
}

/// One transition of the orchestrator: from a state and the event the
/// last action produced, to the next state and the next action.
///
/// The pipeline it encodes is `Start -> Sleep? -> Probe? -> MainRun ->
/// PostRun? -> End`: the sleep and probe run only when their settings
/// ask for them, the post run only when a post-run command is present.
/// A failed probe is unconditionally fatal; a failed run is fatal
/// exactly when its failure-tolerance flag is off, and its outcome is
/// reported before that decision. A fatal stage answers exit code 1,
/// normal completion exit code 0, and a halted machine answers nothing
/// further.
pub open spec fn step_spec(c: InputConfig, s: SessionState, ev: Option<bool>) -> (
    SessionState,
    Option<ActionV>,
) {
    match s {
        SessionState::SleepStage => {
            if c.pre_sleep > 0 {
                (SessionState::ProbeStage, Some(ActionV::Sleep { seconds: c.pre_sleep }))
            } else {
                (SessionState::ProbeStage, None)
            }
        },
        SessionState::ProbeStage => {
            if c.pre_timeout > 0 {
                (
                    SessionState::AwaitProbe,
                    Some(
                        ActionV::Probe {
                            program: c.ssh_bin@,
                            args: probe_args_spec(c),
                            timeout_seconds: c.pre_timeout,
                        },
                    ),
                )
            } else {
                (SessionState::MainStage, None)
            }
        },
        SessionState::AwaitProbe => {
            match ev {
                Some(ok) => {
                    if ok {
                        (SessionState::MainStage, None)
                    } else {
                        (SessionState::Halted { code: 1 }, Some(ActionV::Exit { code: 1 }))
                    }
                },
                None => (SessionState::AwaitProbe, None),
            }
        },
        SessionState::MainStage => {
            (
                SessionState::AwaitMain,
                Some(ActionV::Run { program: c.ssh_bin@, args: main_args_spec(c) }),
            )
        },
        SessionState::AwaitMain => {
            match ev {
                Some(ok) => {
                    (
                        SessionState::MainDecision { success: ok },
                        Some(ActionV::Report { stage: StageKind::MainRun, success: ok }),
                    )
                },
                None => (SessionState::AwaitMain, None),
            }
        },
        SessionState::MainDecision { success } => {
            if !success && !c.allow_run_failure {
                (SessionState::Halted { code: 1 }, Some(ActionV::Exit { code: 1 }))
            } else {
                (SessionState::PostStage, None)
            }
        },
        SessionState::PostStage => {
            if c.post_run is Some {
                (
                    SessionState::AwaitPost,
                    Some(ActionV::Run { program: c.ssh_bin@, args: post_args_spec(c) }),
                )
            } else {
                (SessionState::Halted { code: 0 }, Some(ActionV::Exit { code: 0 }))
            }
        },
        SessionState::AwaitPost => {
            match ev {
                Some(ok) => {
                    (
                        SessionState::PostDecision { success: ok },
                        Some(ActionV::Report { stage: StageKind::PostRun, success: ok }),
                    )
                },
                None => (SessionState::AwaitPost, None),
            }
        },
        SessionState::PostDecision { success } => {
            if !success && !c.allow_post_run_failure {
                (SessionState::Halted { code: 1 }, Some(ActionV::Exit { code: 1 }))
            } else {
                (SessionState::Halted { code: 0 }, Some(ActionV::Exit { code: 0 }))
            }
        },
        SessionState::Halted { code } => (SessionState::Halted { code }, None),
    }
}

/// Perform one transition of the orchestrator. The machine starts in
/// `SessionState::SleepStage` with no event; after a `Probe` or `Run`
/// action the driver passes the action's boolean result as the event,
/// after any other action it passes none.
pub fn step(cfg: &InputConfig, state: SessionState, event: Option<bool>) -> (r: (
    SessionState,
    Option<Action>,
))
    ensures
        r.0 == step_spec(*cfg, state, event).0,
        opt_action_view(r.1) == step_spec(*cfg, state, event).1,
{
    match state {
        SessionState::SleepStage => {
            if cfg.pre_sleep > 0 {
                (SessionState::ProbeStage, Some(Action::Sleep { seconds: cfg.pre_sleep }))
            } else {
                (SessionState::ProbeStage, None)
            }
        },
        SessionState::ProbeStage => {
            if cfg.pre_timeout > 0 {
                (
                    SessionState::AwaitProbe,
                    Some(
                        Action::Probe {
                            program: cfg.ssh_bin.clone(),
                            args: probe_args(cfg),
                            timeout_seconds: cfg.pre_timeout,
                        },
                    ),
                )
            } else {
                (SessionState::MainStage, None)
            }
        },
        SessionState::AwaitProbe => {
            match event {
                Some(ok) => {
                    if ok {
                        (SessionState::MainStage, None)
                    } else {
                        (SessionState::Halted { code: 1 }, Some(Action::Exit { code: 1 }))
                    }
                },
                None => (SessionState::AwaitProbe, None),
            }
        },
        SessionState::MainStage => {
            (
                SessionState::AwaitMain,
                Some(Action::Run { program: cfg.ssh_bin.clone(), args: main_run_args(cfg) }),
            )
        },
        SessionState::AwaitMain => {
            match event {
                Some(ok) => {
                    (
                        SessionState::MainDecision { success: ok },
                        Some(Action::Report { stage: StageKind::MainRun, success: ok }),
                    )
                },
                None => (SessionState::AwaitMain, None),
            }
        },
        SessionState::MainDecision { success } => {
            if !success && !cfg.allow_run_failure {
                (SessionState::Halted { code: 1 }, Some(Action::Exit { code: 1 }))
            } else {
                (SessionState::PostStage, None)
            }
        },
        SessionState::PostStage => {
            if cfg.post_run.is_some() {
                (
                    SessionState::AwaitPost,
                    Some(Action::Run { program: cfg.ssh_bin.clone(), args: post_run_args(cfg) }),
                )
            } else {
                (SessionState::Halted { code: 0 }, Some(Action::Exit { code: 0 }))
            }
        },
        SessionState::AwaitPost => {
            match event {
                Some(ok) => {
                    (
                        SessionState::PostDecision { success: ok },
                        Some(Action::Report { stage: StageKind::PostRun, success: ok }),
                    )
                },
                None => (SessionState::AwaitPost, None),
            }
        },
        SessionState::PostDecision { success } => {
            if !success && !cfg.allow_post_run_failure {
                (SessionState::Halted { code: 1 }, Some(Action::Exit { code: 1 }))
            } else {
                (SessionState::Halted { code: 0 }, Some(Action::Exit { code: 0 }))
            }
        },
        SessionState::Halted { code } => (SessionState::Halted { code }, None),
    }
}

/// The actions a run of the machine issues from state `s` under the
/// event sequence `evs`, one entry per step.
pub open spec fn trace_actions(c: InputConfig, s: SessionState, evs: Seq<Option<bool>>) -> Seq<
    Option<ActionV>,
>
    decreases evs.len(),
{
    if evs.len() == 0 {
        Seq::empty()
    } else {
        seq![step_spec(c, s, evs[0]).1] + trace_actions(c, step_spec(c, s, evs[0]).0, evs.drop_first())
    }
}

/// A run of the machine issues exactly one (possibly absent) action per
/// event.
pub proof fn lemma_trace_len(c: InputConfig, s: SessionState, evs: Seq<Option<bool>>)
    ensures
        trace_actions(c, s, evs).len() == evs.len(),
    decreases evs.len(),
{
    if evs.len() > 0 {
        lemma_trace_len(c, step_spec(c, s, evs[0]).0, evs.drop_first());
    }
}

/// A halted machine issues nothing further, whatever events arrive.
pub proof fn lemma_halted_quiet(c: InputConfig, code: u8, evs: Seq<Option<bool>>)
    ensures
        forall|i: int|
            0 <= i < evs.len() ==> trace_actions(c, SessionState::Halted { code }, evs)[i] is None,
    decreases evs.len(),
{
    if evs.len() > 0 {
        lemma_halted_quiet(c, code, evs.drop_first());
        lemma_trace_len(c, SessionState::Halted { code }, evs.drop_first());
        let tr = trace_actions(c, SessionState::Halted { code }, evs);
        let rest = trace_actions(c, SessionState::Halted { code }, evs.drop_first());
        assert forall|i: int| 0 <= i < evs.len() implies tr[i] is None by {
            if i > 0 {
                assert(tr[i] == rest[i - 1]);
            }
        }
    }
}

/// A connectivity probe that never succeeds within its window is
/// unconditionally fatal: with a positive timeout the probe stage
/// issues the probe invocation, the step after the failed probe answers
/// exit code 1, and from then on the machine issues no further action
/// at all, so in particular neither the main run nor the post run is
/// ever executed.
pub proof fn lemma_probe_failure_aborts(c: InputConfig, evs: Seq<Option<bool>>)
    ensures
        c.pre_timeout > 0 ==> step_spec(c, SessionState::ProbeStage, None).0
            == SessionState::AwaitProbe,
        c.pre_timeout > 0 ==> (step_spec(c, SessionState::ProbeStage, None).1 matches Some(a)
            && a is Probe && a->Probe_program == c.ssh_bin@ && a->Probe_args == probe_args_spec(c)
            && a->timeout_seconds == c.pre_timeout),
        step_spec(c, SessionState::AwaitProbe, Some(false)).0 is Halted,
        step_spec(c, SessionState::AwaitProbe, Some(false)).0->code == 1,
        step_spec(c, SessionState::AwaitProbe, Some(false)).1 matches Some(a) && a is Exit
            && a->Exit_code == 1,
        forall|i: int|
            0 <= i < evs.len() ==> trace_actions(
                c,
                step_spec(c, SessionState::AwaitProbe, Some(false)).0,
                evs,
            )[i] is None,
{
    lemma_halted_quiet(c, 1, evs);
}

/// A tolerated main-run failure is reported and does not end the
/// pipeline: the outcome is published as unsuccessful, the machine
/// continues to the post-run stage, and a configured post run is still
/// invoked.
pub proof fn lemma_main_failure_tolerated(c: InputConfig)
    requires
        c.allow_run_failure,
    ensures
        step_spec(c, SessionState::AwaitMain, Some(false)).1 matches Some(a) && a is Report
            && a->stage == StageKind::MainRun && !a->success,
        step_spec(c, SessionState::AwaitMain, Some(false)).0 == (SessionState::MainDecision {
            success: false,
        }),
        step_spec(c, SessionState::MainDecision { success: false }, None).0
            == SessionState::PostStage,
        step_spec(c, SessionState::MainDecision { success: false }, None).1 is None,
        c.post_run is Some ==> (step_spec(c, SessionState::PostStage, None).1 matches Some(a)
            && a is Run && a->Run_program == c.ssh_bin@ && a->Run_args == post_args_spec(c)),
        c.post_run is Some ==> step_spec(c, SessionState::PostStage, None).0
            == SessionState::AwaitPost,
{
}

/// A post-run failure with failure tolerance off is reported and then
/// fatal: the outcome is published as unsuccessful and the next step
/// answers exit code 1.
pub proof fn lemma_post_failure_fatal(c: InputConfig)
    requires
        !c.allow_post_run_failure,
    ensures
        step_spec(c, SessionState::AwaitPost, Some(false)).1 matches Some(a) && a is Report
            && a->stage == StageKind::PostRun && !a->success,
        step_spec(c, SessionState::AwaitPost, Some(false)).0 == (SessionState::PostDecision {
            success: false,
        }),
        step_spec(c, SessionState::PostDecision { success: false }, None).0 is Halted,
        step_spec(c, SessionState::PostDecision { success: false }, None).0->code == 1,
        step_spec(c, SessionState::PostDecision { success: false }, None).1 matches Some(a)
            && a is Exit && a->Exit_code == 1,
{
}

/// The main-run and post-run argument lists are derived independently
/// from fresh copies of the shared base: as long as the two command
/// tokens differ and neither already occurs among the base tokens, the
/// main run's list never contains the post-run token and the post run's
/// list never contains the main-run token.
pub proof fn lemma_stage_args_independent(c: InputConfig)
    requires
        c.post_run is Some,
        trim_spec(c.run@).len() > 0,
        c.run@ != c.post_run->0@,
        !base_args_spec(c).contains(c.run@),
        !base_args_spec(c).contains(c.post_run->0@),
    ensures
        !main_args_spec(c).contains(c.post_run->0@),
        !post_args_spec(c).contains(c.run@),
{
    let base = base_args_spec(c);
    let p = c.post_run->0@;
    let m = c.run@;
    if main_args_spec(c).contains(p) {
        let i = choose|i: int| 0 <= i < main_args_spec(c).len() && main_args_spec(c)[i] == p;
        if i < base.len() {
            assert(base[i] == p);
        } else {
            assert(main_args_spec(c)[i] == m);
        }
    }
    if post_args_spec(c).contains(m) {
        let i = choose|i: int| 0 <= i < post_args_spec(c).len() && post_args_spec(c)[i] == m;
        if i < base.len() {
            assert(base[i] == m);
        } else {
            assert(post_args_spec(c)[i] == p);
        }
    }
}

} // verus!
