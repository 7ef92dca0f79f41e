use vstd::prelude::*;

use crate::invocation::Platform;
use crate::lifecycle::{
    command_changed, effects_view, killed, killed_effects, log_changed, Effect,
};
use crate::events::AppEventPayload;

verus! {

/// How long a child that was asked to end by a signal is given to exit.
pub const SIGNAL_GRACE_MS: u64 = 5000;

/// How long a child whose process tree was ended by the outside tool is
/// given to exit.
pub const KILL_TREE_GRACE_MS: u64 = 3000;

/// How long the output of a killed child is waited for.
pub const OUTPUT_DRAIN_MS: u64 = 1000;

/// A step of a kill. The run has already been taken out of the registry and
/// marked as stopping when the first step is taken.
#[derive(Debug, Clone, Copy, PartialEq, Eq, Structural)]
pub enum KillStep {
    /// Signal that the command is now stopping.
    Announce,
    /// Cancel the task that waits for the run's natural end, before the
    /// child is touched: that task holds the child while it waits.
    CancelWatcher,
    /// Ask the child to end: a terminate signal on Unix, the outside
    /// kill-tree tool on Windows.
    RequestTerminate,
    /// Wait up to the given number of milliseconds for the child to exit.
    AwaitExit(u64),
    /// Kill the child outright.
    ForceKill,
    /// Wait up to the given number of milliseconds for the output readers.
    DrainOutput(u64),
    /// Log the kill and record the result.
    Record,
    /// Drop the command from the stopping set and signal both changes.
    Release,
    /// Nothing is left to do.
    Done,
}

/// The grace period that the platform gives a child asked to end.
pub open spec fn grace_ms(platform: Platform) -> u64 {
    match platform {
        Platform::Unix => SIGNAL_GRACE_MS,
        Platform::Windows => KILL_TREE_GRACE_MS,
    }
}

/// The step after `step`, where `child_alive` tells whether the child was
/// still running when `step` ended (it matters after a request to terminate
/// and after a wait only).
pub open spec fn kill_next(platform: Platform, step: KillStep, child_alive: bool) -> KillStep {
    match step {
        KillStep::Announce => KillStep::CancelWatcher,
        KillStep::CancelWatcher => KillStep::RequestTerminate,
        KillStep::RequestTerminate => if child_alive {
            KillStep::AwaitExit(grace_ms(platform))
        } else {
            KillStep::DrainOutput(OUTPUT_DRAIN_MS)
        },
        KillStep::AwaitExit(_) => if child_alive {
            KillStep::ForceKill
        } else {
            KillStep::DrainOutput(OUTPUT_DRAIN_MS)
        },
        KillStep::ForceKill => KillStep::DrainOutput(OUTPUT_DRAIN_MS),
        KillStep::DrainOutput(_) => KillStep::Record,
        KillStep::Record => KillStep::Release,
        KillStep::Release => KillStep::Done,
        KillStep::Done => KillStep::Done,
    }
}

/// What a step tells the store and the user interface.
pub open spec fn kill_step_effects(id: i32, step: KillStep) -> Seq<crate::lifecycle::EffectView> {
    match step {
        KillStep::Announce => seq![command_changed(id)],
        KillStep::Record => killed_effects(),
        KillStep::Release => seq![log_changed(id), command_changed(id)],
        _ => Seq::empty(),
    }
}

/// The step after `step` (see `kill_next`).
pub fn next_kill_step(platform: Platform, step: KillStep, child_alive: bool) -> (r: KillStep)
    ensures
        r == kill_next(platform, step, child_alive),
{
    let grace = match platform {
        Platform::Unix => SIGNAL_GRACE_MS,
        Platform::Windows => KILL_TREE_GRACE_MS,
    };
    match step {
        KillStep::Announce => KillStep::CancelWatcher,
        KillStep::CancelWatcher => KillStep::RequestTerminate,
        KillStep::RequestTerminate => if child_alive {
            KillStep::AwaitExit(grace)
        } else {
            KillStep::DrainOutput(OUTPUT_DRAIN_MS)
        },
        KillStep::AwaitExit(_) => if child_alive {
            KillStep::ForceKill
        } else {
            KillStep::DrainOutput(OUTPUT_DRAIN_MS)
        },
        KillStep::ForceKill => KillStep::DrainOutput(OUTPUT_DRAIN_MS),
        KillStep::DrainOutput(_) => KillStep::Record,
        KillStep::Record => KillStep::Release,
        KillStep::Release => KillStep::Done,
        KillStep::Done => KillStep::Done,
    }
}

/// What `step` of the kill of command `id` tells the store and the user
/// interface.
pub fn kill_step_effects_of(id: i32, step: KillStep) -> (r: Vec<Effect>)
    ensures
        effects_view(r@) == kill_step_effects(id, step),
{
    match step {
        KillStep::Announce => {
            let r = vec![Effect::Notify(AppEventPayload::CommandUpdateEvent(id))];
            assert(effects_view(r@) =~= kill_step_effects(id, step));
            r
        },
        KillStep::Record => killed(),
        KillStep::Release => {
            let r = vec![
                Effect::Notify(AppEventPayload::CommandLogUpdateEvent(id)),
                Effect::Notify(AppEventPayload::CommandUpdateEvent(id)),
            ];
            assert(effects_view(r@) =~= kill_step_effects(id, step));
            r
        },
        _ => {
            let r: Vec<Effect> = Vec::new();
            assert(effects_view(r@) =~= kill_step_effects(id, step));
            r
        },
    }
}

/// The steps taken from `step` on, when the child's liveness after each step
/// is read from `alive`.
pub open spec fn kill_trace(platform: Platform, step: KillStep, alive: Seq<bool>) -> Seq<KillStep>
    decreases alive.len(),
{
    if alive.len() == 0 {
        seq![step]
    } else {
        seq![step] + kill_trace(platform, kill_next(platform, step, alive[0]), alive.drop_first())
    }
}

/// Everything that the steps of a trace tell, in order.
pub open spec fn trace_effects(id: i32, steps: Seq<KillStep>) -> Seq<crate::lifecycle::EffectView>
    decreases steps.len(),
{
    if steps.len() == 0 {
        Seq::empty()
    } else {
        kill_step_effects(id, steps[0]) + trace_effects(id, steps.drop_first())
    }
}

/// Upper bound on the steps left before `Done`.
spec fn steps_left(step: KillStep) -> nat {
    match step {
        KillStep::Announce => 8,
        KillStep::CancelWatcher => 7,
        KillStep::RequestTerminate => 6,
        KillStep::AwaitExit(_) => 5,
        KillStep::ForceKill => 4,
        KillStep::DrainOutput(_) => 3,
        KillStep::Record => 2,
        KillStep::Release => 1,
        KillStep::Done => 0,
    }
}

/// What remains to be told from `step` on.
spec fn effects_left(id: i32, step: KillStep) -> Seq<crate::lifecycle::EffectView> {
    match step {
        KillStep::Announce => seq![command_changed(id)] + killed_effects() + seq![
            log_changed(id),
            command_changed(id),
        ],
        KillStep::Release => seq![log_changed(id), command_changed(id)],
        KillStep::Done => Seq::empty(),
        _ => killed_effects() + seq![log_changed(id), command_changed(id)],
    }
}

proof fn lemma_trace_shape(platform: Platform, step: KillStep, alive: Seq<bool>)
    ensures
        kill_trace(platform, step, alive).len() == alive.len() + 1,
        kill_trace(platform, step, alive)[0] == step,
        forall|i: int|
            0 <= i < alive.len() ==> #[trigger] kill_trace(platform, step, alive)[i + 1] == kill_next(
                platform,
                kill_trace(platform, step, alive)[i],
                alive[i],
            ),
    decreases alive.len(),
{
    if alive.len() > 0 {
        let next = kill_next(platform, step, alive[0]);
        let rest = alive.drop_first();
        lemma_trace_shape(platform, next, rest);
        let t = kill_trace(platform, step, alive);
        let tr = kill_trace(platform, next, rest);
        assert(t == seq![step] + tr);
        assert forall|i: int| 0 <= i < alive.len() implies #[trigger] t[i + 1] == kill_next(
            platform,
            t[i],
            alive[i],
        ) by {
            if i > 0 {
                assert(t[i] == tr[i - 1]);
                assert(alive[i] == rest[i - 1]);
            }
        }
    }
}

proof fn lemma_trace_effects(platform: Platform, id: i32, step: KillStep, alive: Seq<bool>)
    requires
        alive.len() >= steps_left(step),
    ensures
        trace_effects(id, kill_trace(platform, step, alive)) == effects_left(id, step),
    decreases alive.len(),
{
    let t = kill_trace(platform, step, alive);
    if alive.len() == 0 {
        assert(step == KillStep::Done);
        assert(t.drop_first() =~= Seq::<KillStep>::empty());
        assert(trace_effects(id, t.drop_first()) == Seq::<crate::lifecycle::EffectView>::empty());
        assert(trace_effects(id, t) =~= effects_left(id, step));
    } else {
        let next = kill_next(platform, step, alive[0]);
        let rest = alive.drop_first();
        lemma_trace_effects(platform, id, next, rest);
        assert(t.drop_first() =~= kill_trace(platform, next, rest));
        assert(t[0] == step);
        assert(trace_effects(id, t) == kill_step_effects(id, step) + effects_left(id, next));
        assert(kill_step_effects(id, step) + effects_left(id, next) =~= effects_left(id, step));
    }
}

/// Whatever the child does, a kill that is carried to its end signals the
/// stop, writes exactly one log line (the kill's) and one result (killed,
/// without a code), then signals both changes; the watcher is cancelled
/// before any step touches the child.
pub proof fn lemma_kill_records_once(platform: Platform, id: i32, alive: Seq<bool>)
    requires
        alive.len() >= 8,
    ensures
        kill_trace(platform, KillStep::Announce, alive).last() == KillStep::Done,
        kill_trace(platform, KillStep::Announce, alive)[0] == KillStep::Announce,
        kill_trace(platform, KillStep::Announce, alive)[1] == KillStep::CancelWatcher,
        trace_effects(id, kill_trace(platform, KillStep::Announce, alive)) == seq![
            command_changed(id),
        ] + killed_effects() + seq![log_changed(id), command_changed(id)],
{
    lemma_trace_effects(platform, id, KillStep::Announce, alive);
    lemma_trace_shape(platform, KillStep::Announce, alive);
    let t = kill_trace(platform, KillStep::Announce, alive);
    assert(t[0int + 1] == kill_next(platform, t[0], alive[0]));
    let k = alive.len() as int;
    assert(t[1int + 1] == kill_next(platform, t[1], alive[1]));
    assert(t[2int + 1] == kill_next(platform, t[2], alive[2]));
    assert(t[3int + 1] == kill_next(platform, t[3], alive[3]));
    assert(t[4int + 1] == kill_next(platform, t[4], alive[4]));
    assert(t[5int + 1] == kill_next(platform, t[5], alive[5]));
    assert(t[6int + 1] == kill_next(platform, t[6], alive[6]));
    assert(t[7int + 1] == kill_next(platform, t[7], alive[7]));
    assert(t[8] == KillStep::Done);
    assert forall|i: int| 8 <= i <= k implies t[i] == KillStep::Done by {
        lemma_done_stays(platform, alive, i);
    }
}

proof fn lemma_done_stays(platform: Platform, alive: Seq<bool>, i: int)
    requires
        alive.len() >= 8,
        8 <= i <= alive.len(),
        kill_trace(platform, KillStep::Announce, alive)[8] == KillStep::Done,
    ensures
        kill_trace(platform, KillStep::Announce, alive)[i] == KillStep::Done,
    decreases i,
{
    lemma_trace_shape(platform, KillStep::Announce, alive);
    if i > 8 {
        lemma_done_stays(platform, alive, i - 1);
        let t = kill_trace(platform, KillStep::Announce, alive);
        assert(t[(i - 1) + 1] == kill_next(platform, t[i - 1], alive[i - 1]));
    }
}

/// A child is killed outright only right after a wait that it outlived.
pub proof fn lemma_force_only_after_grace(platform: Platform, alive: Seq<bool>, i: int)
    requires
        0 < i <= alive.len(),
        kill_trace(platform, KillStep::Announce, alive)[i] == KillStep::ForceKill,
    ensures
        kill_trace(platform, KillStep::Announce, alive)[i - 1] is AwaitExit,
        alive[i - 1],
{
    lemma_trace_shape(platform, KillStep::Announce, alive);
    let t = kill_trace(platform, KillStep::Announce, alive);
    assert(t[(i - 1) + 1] == kill_next(platform, t[i - 1], alive[i - 1]));
}

} // verus!
