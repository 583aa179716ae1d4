//! The order in which the recovery host works through a task: which stages
//! it records durably and which disk operations it runs between them.
//!
//! The host executes the plan step by step; every step that touches the
//! restore target comes only after the stage that makes a repetition safe
//! has been recorded.
use vstd::prelude::*;
use crate::model::{transition_allowed, BootMode, Operation, Stage, TargetRole, Task, TaskError};

verus! {

/// Why a plan stops before its work is done.
#[derive(Debug, Clone, Copy, PartialEq, Eq, Structural)]
pub enum Refusal {
    MissingSource,
    MissingDestination,
    MissingTarget,
    MissingImage,
    /// A new Windows installation needs the add-secondary boot plan.
    SecondaryNeedsAddSecondary,
    BackupCannotResume(Stage),
    RestoreCannotResume(Stage),
}

/// One step of a recovery run.
#[derive(Debug, Clone, Copy, PartialEq, Eq, Structural)]
pub enum RecoveryStep {
    /// Persist the task, then its status record, at this stage.
    Record(Stage),
    /// Check the image file's size and hash; for a restore also its backup
    /// metadata and the target's size; then list the image with DISM.
    VerifyImage,
    /// Log that a probe needs no disk operation.
    ReportProbe,
    /// Log that an interrupted capture starts over.
    ResumeCapture,
    /// Capture (or append to) the backup image and write its metadata.
    CaptureImage,
    /// Quick-format the target and check its identity afterwards.
    FormatTarget,
    /// Apply the selected image index to the target.
    ApplyImage,
    /// Find the EFI system partition.
    LocateEfi,
    /// Run BCDBoot for the target and check the resulting entry.
    RepairBoot,
    /// Name the new Windows entry and keep the primary boot order.
    ConfigureSecondary,
    /// Stop with an error.
    Refuse(Refusal),
}

pub open spec fn is_restore(op: Operation) -> bool {
    op == Operation::RestoreExisting || op == Operation::CreateSecondary
}

/// The stage a run has recorded after `steps`, starting at `start`.
pub open spec fn stage_after(start: Stage, steps: Seq<RecoveryStep>) -> Stage
    decreases steps.len(),
{
    if steps.len() == 0 {
        start
    } else {
        match steps.last() {
            RecoveryStep::Record(s) => s,
            _ => stage_after(start, steps.drop_last()),
        }
    }
}

/// A step may run at the recorded stage `at`: a recorded stage follows the
/// state machine, and each operation on the target or image runs only once
/// the stage that makes it safe to repeat is durable.
pub open spec fn step_allowed(at: Stage, step: RecoveryStep) -> bool {
    match step {
        RecoveryStep::Record(s) => transition_allowed(at, s),
        RecoveryStep::CaptureImage => at == Stage::Capturing,
        RecoveryStep::FormatTarget => at == Stage::TargetErased,
        RecoveryStep::ApplyImage => at == Stage::TargetErased || at == Stage::ImageApplied,
        RecoveryStep::RepairBoot => at == Stage::BootRepaired,
        RecoveryStep::ConfigureSecondary => at == Stage::BootRepaired,
        _ => true,
    }
}

/// Every step of `steps` is allowed at the stage recorded before it.
pub open spec fn well_ordered(start: Stage, steps: Seq<RecoveryStep>) -> bool
    decreases steps.len(),
{
    if steps.len() == 0 {
        true
    } else {
        well_ordered(start, steps.drop_last()) && step_allowed(
            stage_after(start, steps.drop_last()),
            steps.last(),
        )
    }
}

pub open spec fn touches_target(step: RecoveryStep) -> bool {
    step == RecoveryStep::FormatTarget || step == RecoveryStep::ApplyImage || step
        == RecoveryStep::RepairBoot || step == RecoveryStep::ConfigureSecondary
}

/// The records that open a run: a task that is `prepared` or
/// `boot-requested` becomes `recovery-started`, and a started one moves
/// to `preflight`.
pub open spec fn opening(s: Stage) -> Seq<RecoveryStep> {
    if s == Stage::Prepared || s == Stage::BootRequested {
        seq![RecoveryStep::Record(Stage::RecoveryStarted), RecoveryStep::Record(Stage::Preflight)]
    } else if s == Stage::RecoveryStarted {
        seq![RecoveryStep::Record(Stage::Preflight)]
    } else {
        seq![]
    }
}

pub open spec fn opened(s: Stage) -> Stage {
    if s == Stage::Prepared || s == Stage::BootRequested || s == Stage::RecoveryStarted {
        Stage::Preflight
    } else {
        s
    }
}

pub open spec fn finish(finalize: bool) -> Seq<RecoveryStep> {
    if finalize {
        seq![RecoveryStep::Record(Stage::Success)]
    } else {
        seq![]
    }
}

pub open spec fn probe_steps(s: Stage, finalize: bool) -> Seq<RecoveryStep> {
    seq![RecoveryStep::ReportProbe] + if s == Stage::Preflight {
        finish(finalize)
    } else {
        seq![]
    }
}

pub open spec fn backup_steps(task: Task, s: Stage, finalize: bool) -> Seq<RecoveryStep> {
    if task.source is None {
        seq![RecoveryStep::Refuse(Refusal::MissingSource)]
    } else if task.destination is None {
        seq![RecoveryStep::Refuse(Refusal::MissingDestination)]
    } else if s == Stage::Preflight {
        seq![RecoveryStep::Record(Stage::Capturing), RecoveryStep::CaptureImage] + finish(finalize)
    } else if s == Stage::Capturing {
        seq![RecoveryStep::ResumeCapture, RecoveryStep::CaptureImage] + finish(finalize)
    } else {
        seq![RecoveryStep::Refuse(Refusal::BackupCannotResume(s))]
    }
}

/// Erase: a run still at `preflight` records `target-erased` before the
/// format; one interrupted there formats again.
pub open spec fn erase_steps(s: Stage) -> Seq<RecoveryStep> {
    if s == Stage::Preflight {
        seq![RecoveryStep::Record(Stage::TargetErased), RecoveryStep::FormatTarget]
    } else if s == Stage::TargetErased {
        seq![RecoveryStep::FormatTarget]
    } else {
        seq![]
    }
}

pub open spec fn erased(s: Stage) -> Stage {
    if s == Stage::Preflight { Stage::TargetErased } else { s }
}

/// Apply: the image is applied (again after an interruption at
/// `image-applied`), and `image-applied` is recorded after it.
pub open spec fn apply_steps(s: Stage) -> Seq<RecoveryStep> {
    if s == Stage::TargetErased {
        seq![RecoveryStep::ApplyImage, RecoveryStep::Record(Stage::ImageApplied)]
    } else if s == Stage::ImageApplied {
        seq![RecoveryStep::ApplyImage]
    } else {
        seq![]
    }
}

pub open spec fn applied(s: Stage) -> Stage {
    if s == Stage::TargetErased { Stage::ImageApplied } else { s }
}

pub open spec fn secondary(role: TargetRole) -> Seq<RecoveryStep> {
    if role == TargetRole::NewWindows {
        seq![RecoveryStep::ConfigureSecondary]
    } else {
        seq![]
    }
}

/// Boot repair: `boot-repaired` is recorded before BCDBoot runs, so a
/// failure there can roll the boot store back.
pub open spec fn boot_steps(s: Stage, role: TargetRole, finalize: bool) -> Seq<RecoveryStep> {
    if s == Stage::ImageApplied {
        seq![RecoveryStep::Record(Stage::BootRepaired), RecoveryStep::RepairBoot] + secondary(role)
            + finish(finalize)
    } else if s == Stage::BootRepaired {
        seq![RecoveryStep::RepairBoot] + secondary(role) + finish(finalize)
    } else {
        seq![RecoveryStep::Refuse(Refusal::RestoreCannotResume(s))]
    }
}

pub open spec fn restore_steps(task: Task, s: Stage, finalize: bool) -> Seq<RecoveryStep> {
    match task.target {
        None => seq![RecoveryStep::Refuse(Refusal::MissingTarget)],
        Some(t) => if t.role == TargetRole::NewWindows && task.boot_plan.mode
            != BootMode::AddSecondary {
            seq![RecoveryStep::Refuse(Refusal::SecondaryNeedsAddSecondary)]
        } else if task.image is None {
            seq![RecoveryStep::Refuse(Refusal::MissingImage)]
        } else {
            erase_steps(s) + apply_steps(erased(s)) + seq![RecoveryStep::LocateEfi] + boot_steps(
                applied(erased(s)),
                t.role,
                finalize,
            )
        },
    }
}

pub open spec fn operation_steps(task: Task, s: Stage, finalize: bool) -> Seq<RecoveryStep> {
    match task.operation {
        Operation::Probe => probe_steps(s, finalize),
        Operation::Backup => backup_steps(task, s, finalize),
        _ => restore_steps(task, s, finalize),
    }
}

/// The whole run for `task`; `finalize` says whether this run records
/// `success` itself (the WinRE host defers it until WinRE is restored).
pub open spec fn recovery_plan(task: Task, finalize: bool) -> Seq<RecoveryStep> {
    let s = opened(task.status);
    opening(task.status) + if task.image is Some {
        if is_restore(task.operation) && task.target is None {
            seq![RecoveryStep::Refuse(Refusal::MissingTarget)]
        } else {
            seq![RecoveryStep::VerifyImage] + operation_steps(task, s, finalize)
        }
    } else {
        operation_steps(task, s, finalize)
    }
}

fn push_finish(v: &mut Vec<RecoveryStep>, finalize: bool)
    ensures
        final(v)@ == old(v)@ + finish(finalize),
{
    if finalize {
        v.push(RecoveryStep::Record(Stage::Success));
    }
    proof {
        assert(final(v)@ =~= old(v)@ + finish(finalize));
    }
}

fn push_backup(v: &mut Vec<RecoveryStep>, task: &Task, s: Stage, finalize: bool)
    ensures
        final(v)@ == old(v)@ + backup_steps(*task, s, finalize),
{
    let ghost before = v@;
    if task.source.is_none() {
        v.push(RecoveryStep::Refuse(Refusal::MissingSource));
    } else if task.destination.is_none() {
        v.push(RecoveryStep::Refuse(Refusal::MissingDestination));
    } else if s == Stage::Preflight {
        v.push(RecoveryStep::Record(Stage::Capturing));
        v.push(RecoveryStep::CaptureImage);
        push_finish(v, finalize);
    } else if s == Stage::Capturing {
        v.push(RecoveryStep::ResumeCapture);
        v.push(RecoveryStep::CaptureImage);
        push_finish(v, finalize);
    } else {
        v.push(RecoveryStep::Refuse(Refusal::BackupCannotResume(s)));
    }
    proof {
        assert(v@ =~= before + backup_steps(*task, s, finalize));
    }
}

fn push_restore(v: &mut Vec<RecoveryStep>, task: &Task, s: Stage, finalize: bool)
    ensures
        final(v)@ == old(v)@ + restore_steps(*task, s, finalize),
{
    let ghost before = v@;
    let role = match &task.target {
        None => {
            v.push(RecoveryStep::Refuse(Refusal::MissingTarget));
            proof {
                assert(v@ =~= before + restore_steps(*task, s, finalize));
            }
            return;
        },
        Some(t) => t.role,
    };
    if role == TargetRole::NewWindows && task.boot_plan.mode != BootMode::AddSecondary {
        v.push(RecoveryStep::Refuse(Refusal::SecondaryNeedsAddSecondary));
        proof {
            assert(v@ =~= before + restore_steps(*task, s, finalize));
        }
        return;
    }
    if task.image.is_none() {
        v.push(RecoveryStep::Refuse(Refusal::MissingImage));
        proof {
            assert(v@ =~= before + restore_steps(*task, s, finalize));
        }
        return;
    }
    let at = push_erase(v, s);
    let at = push_apply(v, at);
    v.push(RecoveryStep::LocateEfi);
    push_boot(v, at, role, finalize);
    proof {
        assert(v@ =~= before + restore_steps(*task, s, finalize));
    }
}

fn push_erase(v: &mut Vec<RecoveryStep>, s: Stage) -> (at: Stage)
    ensures
        final(v)@ == old(v)@ + erase_steps(s),
        at == erased(s),
{
    if s == Stage::Preflight {
        v.push(RecoveryStep::Record(Stage::TargetErased));
        v.push(RecoveryStep::FormatTarget);
    } else if s == Stage::TargetErased {
        v.push(RecoveryStep::FormatTarget);
    }
    proof {
        assert(final(v)@ =~= old(v)@ + erase_steps(s));
    }
    if s == Stage::Preflight { Stage::TargetErased } else { s }
}

fn push_apply(v: &mut Vec<RecoveryStep>, s: Stage) -> (at: Stage)
    ensures
        final(v)@ == old(v)@ + apply_steps(s),
        at == applied(s),
{
    if s == Stage::TargetErased {
        v.push(RecoveryStep::ApplyImage);
        v.push(RecoveryStep::Record(Stage::ImageApplied));
    } else if s == Stage::ImageApplied {
        v.push(RecoveryStep::ApplyImage);
    }
    proof {
        assert(final(v)@ =~= old(v)@ + apply_steps(s));
    }
    if s == Stage::TargetErased { Stage::ImageApplied } else { s }
}

fn push_boot(v: &mut Vec<RecoveryStep>, s: Stage, role: TargetRole, finalize: bool)
    ensures
        final(v)@ == old(v)@ + boot_steps(s, role, finalize),
{
    let ghost before = v@;
    if s == Stage::ImageApplied || s == Stage::BootRepaired {
        if s == Stage::ImageApplied {
            v.push(RecoveryStep::Record(Stage::BootRepaired));
        }
        v.push(RecoveryStep::RepairBoot);
        if role == TargetRole::NewWindows {
            v.push(RecoveryStep::ConfigureSecondary);
        }
        let ghost mid = v@;
        proof {
            if s == Stage::ImageApplied {
                assert(mid =~= before + seq![RecoveryStep::Record(Stage::BootRepaired), RecoveryStep::RepairBoot] + secondary(role));
            } else {
                assert(mid =~= before + seq![RecoveryStep::RepairBoot] + secondary(role));
            }
        }
        push_finish(v, finalize);
    } else {
        v.push(RecoveryStep::Refuse(Refusal::RestoreCannotResume(s)));
    }
    proof {
        assert(v@ =~= before + boot_steps(s, role, finalize));
    }
}

/// The steps the recovery host runs for `task`, in order.
pub fn plan_recovery(task: &Task, finalize: bool) -> (r: Vec<RecoveryStep>)
    ensures
        r@ == recovery_plan(*task, finalize),
{
    let mut v: Vec<RecoveryStep> = Vec::new();
    let s0 = task.status;
    let s = if s0 == Stage::Prepared || s0 == Stage::BootRequested {
        v.push(RecoveryStep::Record(Stage::RecoveryStarted));
        v.push(RecoveryStep::Record(Stage::Preflight));
        Stage::Preflight
    } else if s0 == Stage::RecoveryStarted {
        v.push(RecoveryStep::Record(Stage::Preflight));
        Stage::Preflight
    } else {
        s0
    };
    let ghost opened_v = v@;
    proof {
        assert(opened_v =~= opening(s0));
        assert(s == opened(s0));
    }
    let restore = task.operation == Operation::RestoreExisting || task.operation
        == Operation::CreateSecondary;
    if task.image.is_some() {
        if restore && task.target.is_none() {
            v.push(RecoveryStep::Refuse(Refusal::MissingTarget));
            proof {
                assert(v@ =~= recovery_plan(*task, finalize));
            }
            return v;
        }
        v.push(RecoveryStep::VerifyImage);
    }
    let ghost before_op = v@;
    match task.operation {
        Operation::Probe => {
            v.push(RecoveryStep::ReportProbe);
            if s == Stage::Preflight {
                push_finish(&mut v, finalize);
            }
            proof {
                assert(v@ =~= before_op + probe_steps(s, finalize));
            }
        },
        Operation::Backup => {
            push_backup(&mut v, task, s, finalize);
        },
        _ => {
            push_restore(&mut v, task, s, finalize);
        },
    }
    proof {
        assert(v@ =~= before_op + operation_steps(*task, s, finalize));
        assert(v@ =~= recovery_plan(*task, finalize));
    }
    v
}

proof fn lemma_stage_after_concat(start: Stage, a: Seq<RecoveryStep>, b: Seq<RecoveryStep>)
    ensures
        stage_after(start, a + b) == stage_after(stage_after(start, a), b),
    decreases b.len(),
{
    if b.len() == 0 {
        assert(a + b =~= a);
    } else {
        assert((a + b).drop_last() =~= a + b.drop_last());
        assert((a + b).last() == b.last());
        lemma_stage_after_concat(start, a, b.drop_last());
    }
}

proof fn lemma_well_ordered_concat(start: Stage, a: Seq<RecoveryStep>, b: Seq<RecoveryStep>)
    ensures
        well_ordered(start, a + b) == (well_ordered(start, a) && well_ordered(
            stage_after(start, a),
            b,
        )),
    decreases b.len(),
{
    if b.len() == 0 {
        assert(a + b =~= a);
    } else {
        assert((a + b).drop_last() =~= a + b.drop_last());
        assert((a + b).last() == b.last());
        lemma_well_ordered_concat(start, a, b.drop_last());
        lemma_stage_after_concat(start, a, b.drop_last());
    }
}

/// `a` then `b` is well ordered from `start`, and ends where `b` ends.
proof fn lemma_chain(
    start: Stage,
    a: Seq<RecoveryStep>,
    mid: Stage,
    b: Seq<RecoveryStep>,
    end: Stage,
)
    requires
        well_ordered(start, a),
        stage_after(start, a) == mid,
        well_ordered(mid, b),
        stage_after(mid, b) == end,
    ensures
        well_ordered(start, a + b),
        stage_after(start, a + b) == end,
{
    lemma_well_ordered_concat(start, a, b);
    lemma_stage_after_concat(start, a, b);
}

proof fn lemma_finish(s: Stage, finalize: bool)
    requires
        finalize ==> transition_allowed(s, Stage::Success),
    ensures
        well_ordered(s, finish(finalize)),
        stage_after(s, finish(finalize)) == (if finalize { Stage::Success } else { s }),
{
    reveal_with_fuel(well_ordered, 2);
    reveal_with_fuel(stage_after, 2);
}

proof fn lemma_opening(s: Stage)
    ensures
        well_ordered(s, opening(s)),
        stage_after(s, opening(s)) == opened(s),
{
    reveal_with_fuel(well_ordered, 3);
    reveal_with_fuel(stage_after, 3);
    if s == Stage::Prepared || s == Stage::BootRequested {
        let o = opening(s);
        assert(o.drop_last() =~= seq![RecoveryStep::Record(Stage::RecoveryStarted)]);
        assert(o.drop_last().drop_last() =~= Seq::<RecoveryStep>::empty());
    }
}

proof fn lemma_pair(s: Stage, x: RecoveryStep, y: RecoveryStep)
    requires
        step_allowed(s, x),
        step_allowed(stage_after(s, seq![x]), y),
    ensures
        well_ordered(s, seq![x, y]),
        stage_after(s, seq![x, y]) == stage_after(stage_after(s, seq![x]), seq![y]),
{
    reveal_with_fuel(well_ordered, 3);
    reveal_with_fuel(stage_after, 3);
    assert(seq![x, y].drop_last() =~= seq![x]);
    assert(seq![x].drop_last() =~= Seq::<RecoveryStep>::empty());
    assert(seq![x, y] =~= seq![x] + seq![y]);
    lemma_stage_after_concat(s, seq![x], seq![y]);
}

proof fn lemma_single(s: Stage, x: RecoveryStep)
    requires
        step_allowed(s, x),
    ensures
        well_ordered(s, seq![x]),
        stage_after(s, seq![x]) == (match x {
            RecoveryStep::Record(t) => t,
            _ => s,
        }),
{
    reveal_with_fuel(well_ordered, 2);
    reveal_with_fuel(stage_after, 2);
    assert(seq![x].drop_last() =~= Seq::<RecoveryStep>::empty());
}

proof fn lemma_empty(s: Stage)
    ensures
        well_ordered(s, Seq::<RecoveryStep>::empty()),
        stage_after(s, Seq::<RecoveryStep>::empty()) == s,
{
}

proof fn lemma_probe(s: Stage, finalize: bool)
    ensures
        well_ordered(s, probe_steps(s, finalize)),
{
    lemma_single(s, RecoveryStep::ReportProbe);
    if s == Stage::Preflight {
        lemma_finish(s, finalize);
        lemma_chain(s, seq![RecoveryStep::ReportProbe], s, finish(finalize), stage_after(s, finish(finalize)));
    } else {
        assert(probe_steps(s, finalize) =~= seq![RecoveryStep::ReportProbe]);
    }
}

proof fn lemma_backup(task: Task, s: Stage, finalize: bool)
    ensures
        well_ordered(s, backup_steps(task, s, finalize)),
{
    if task.source is None || task.destination is None {
        lemma_single(s, backup_steps(task, s, finalize)[0]);
        assert(backup_steps(task, s, finalize) =~= seq![backup_steps(task, s, finalize)[0]]);
    } else if s == Stage::Preflight {
        let p = seq![RecoveryStep::Record(Stage::Capturing), RecoveryStep::CaptureImage];
        lemma_single(s, RecoveryStep::Record(Stage::Capturing));
        lemma_single(Stage::Capturing, RecoveryStep::CaptureImage);
        lemma_pair(s, RecoveryStep::Record(Stage::Capturing), RecoveryStep::CaptureImage);
        lemma_finish(Stage::Capturing, finalize);
        lemma_chain(s, p, Stage::Capturing, finish(finalize), stage_after(Stage::Capturing, finish(finalize)));
    } else if s == Stage::Capturing {
        let p = seq![RecoveryStep::ResumeCapture, RecoveryStep::CaptureImage];
        lemma_single(s, RecoveryStep::ResumeCapture);
        lemma_single(Stage::Capturing, RecoveryStep::CaptureImage);
        lemma_pair(s, RecoveryStep::ResumeCapture, RecoveryStep::CaptureImage);
        lemma_finish(Stage::Capturing, finalize);
        lemma_chain(s, p, Stage::Capturing, finish(finalize), stage_after(Stage::Capturing, finish(finalize)));
    } else {
        lemma_single(s, RecoveryStep::Refuse(Refusal::BackupCannotResume(s)));
    }
}

proof fn lemma_erase(s: Stage)
    ensures
        well_ordered(s, erase_steps(s)),
        stage_after(s, erase_steps(s)) == erased(s),
{
    if s == Stage::Preflight {
        lemma_single(s, RecoveryStep::Record(Stage::TargetErased));
        lemma_pair(s, RecoveryStep::Record(Stage::TargetErased), RecoveryStep::FormatTarget);
        lemma_single(Stage::TargetErased, RecoveryStep::FormatTarget);
    } else if s == Stage::TargetErased {
        lemma_single(s, RecoveryStep::FormatTarget);
    }
}

proof fn lemma_apply(s: Stage)
    ensures
        well_ordered(s, apply_steps(s)),
        stage_after(s, apply_steps(s)) == applied(s),
{
    if s == Stage::TargetErased {
        lemma_single(s, RecoveryStep::ApplyImage);
        lemma_pair(s, RecoveryStep::ApplyImage, RecoveryStep::Record(Stage::ImageApplied));
        lemma_single(s, RecoveryStep::Record(Stage::ImageApplied));
    } else if s == Stage::ImageApplied {
        lemma_single(s, RecoveryStep::ApplyImage);
    }
}

proof fn lemma_boot(s: Stage, role: TargetRole, finalize: bool)
    ensures
        well_ordered(s, boot_steps(s, role, finalize)),
        (s == Stage::ImageApplied || s == Stage::BootRepaired) ==> stage_after(
            s,
            boot_steps(s, role, finalize),
        ) == (if finalize { Stage::Success } else { Stage::BootRepaired }),
{
    let b = Stage::BootRepaired;
    lemma_finish(b, finalize);
    if role == TargetRole::NewWindows {
        lemma_single(b, RecoveryStep::ConfigureSecondary);
    }
    lemma_chain(b, secondary(role), b, finish(finalize), stage_after(b, finish(finalize)));
    let tail = secondary(role) + finish(finalize);
    if s == Stage::ImageApplied {
        let p = seq![RecoveryStep::Record(b), RecoveryStep::RepairBoot];
        lemma_single(s, RecoveryStep::Record(b));
        lemma_single(b, RecoveryStep::RepairBoot);
        lemma_pair(s, RecoveryStep::Record(b), RecoveryStep::RepairBoot);
        lemma_chain(s, p, b, tail, stage_after(b, tail));
        assert(boot_steps(s, role, finalize) =~= p + tail);
    } else if s == Stage::BootRepaired {
        let p = seq![RecoveryStep::RepairBoot];
        lemma_single(s, RecoveryStep::RepairBoot);
        lemma_chain(s, p, b, tail, stage_after(b, tail));
        assert(boot_steps(s, role, finalize) =~= p + tail);
    } else {
        lemma_single(s, RecoveryStep::Refuse(Refusal::RestoreCannotResume(s)));
    }
}

proof fn lemma_restore(task: Task, s: Stage, finalize: bool)
    ensures
        well_ordered(s, restore_steps(task, s, finalize)),
{
    match task.target {
        None => {
            lemma_single(s, RecoveryStep::Refuse(Refusal::MissingTarget));
        },
        Some(t) => {
            if t.role == TargetRole::NewWindows && task.boot_plan.mode != BootMode::AddSecondary {
                lemma_single(s, RecoveryStep::Refuse(Refusal::SecondaryNeedsAddSecondary));
            } else if task.image is None {
                lemma_single(s, RecoveryStep::Refuse(Refusal::MissingImage));
            } else {
                let e = erased(s);
                let a = applied(e);
                lemma_erase(s);
                lemma_apply(e);
                lemma_chain(s, erase_steps(s), e, apply_steps(e), a);
                lemma_single(a, RecoveryStep::LocateEfi);
                let p = erase_steps(s) + apply_steps(e);
                lemma_chain(s, p, a, seq![RecoveryStep::LocateEfi], a);
                lemma_boot(a, t.role, finalize);
                let q = p + seq![RecoveryStep::LocateEfi];
                let bs = boot_steps(a, t.role, finalize);
                lemma_chain(s, q, a, bs, stage_after(a, bs));
            }
        },
    }
}

proof fn lemma_operation(task: Task, s: Stage, finalize: bool)
    ensures
        well_ordered(s, operation_steps(task, s, finalize)),
{
    match task.operation {
        Operation::Probe => lemma_probe(s, finalize),
        Operation::Backup => lemma_backup(task, s, finalize),
        _ => lemma_restore(task, s, finalize),
    }
}

/// Every run follows the stage machine and never reaches past a durable
/// stage: each recorded stage is an allowed transition from the stage
/// before it, the capture runs only at `capturing`, the format only at
/// `target-erased`, the image is applied only at `target-erased` or
/// `image-applied`, and BCDBoot and the boot menu change only at
/// `boot-repaired`.
pub proof fn lemma_recovery_plan_well_ordered(task: Task, finalize: bool)
    ensures
        well_ordered(task.status, recovery_plan(task, finalize)),
{
    let st = task.status;
    let s = opened(st);
    lemma_opening(st);
    lemma_operation(task, s, finalize);
    let rest = if task.image is Some {
        if is_restore(task.operation) && task.target is None {
            seq![RecoveryStep::Refuse(Refusal::MissingTarget)]
        } else {
            seq![RecoveryStep::VerifyImage] + operation_steps(task, s, finalize)
        }
    } else {
        operation_steps(task, s, finalize)
    };
    if task.image is Some {
        if is_restore(task.operation) && task.target is None {
            lemma_single(s, RecoveryStep::Refuse(Refusal::MissingTarget));
        } else {
            lemma_single(s, RecoveryStep::VerifyImage);
            let os = operation_steps(task, s, finalize);
            lemma_chain(s, seq![RecoveryStep::VerifyImage], s, os, stage_after(s, os));
        }
    }
    lemma_chain(st, opening(st), s, rest, stage_after(s, rest));
    assert(recovery_plan(task, finalize) == opening(st) + rest);
}

/// Only restores format, apply an image or touch the boot store: a probe
/// or a backup plan holds none of those steps.
pub proof fn lemma_only_restores_touch_target(task: Task, finalize: bool, i: int)
    requires
        !is_restore(task.operation),
        0 <= i < recovery_plan(task, finalize).len(),
    ensures
        !touches_target(recovery_plan(task, finalize)[i]),
{
    let s = opened(task.status);
    let os = operation_steps(task, s, finalize);
    assert forall|j: int| 0 <= j < os.len() implies !touches_target(#[trigger] os[j]) by {
        if task.operation == Operation::Probe {
            assert(os == probe_steps(s, finalize));
        } else {
            assert(os == backup_steps(task, s, finalize));
        }
    }
}

/// `success` is recorded only by a run that finalizes, and only as its
/// last step.
pub proof fn lemma_success_only_when_finalizing(task: Task, finalize: bool, i: int)
    requires
        0 <= i < recovery_plan(task, finalize).len(),
        recovery_plan(task, finalize)[i] == RecoveryStep::Record(Stage::Success),
    ensures
        finalize,
        i == recovery_plan(task, finalize).len() - 1,
{
    let s = opened(task.status);
    let plan = recovery_plan(task, finalize);
    let os = operation_steps(task, s, finalize);
    let e = erased(s);
    let a = applied(e);
    assert(opening(task.status).len() <= 2);
    match task.target {
        Some(t) => {
            let sec = secondary(t.role);
            assert(forall|j: int| 0 <= j < sec.len() ==> sec[j] == RecoveryStep::ConfigureSecondary);
        },
        None => {},
    }
    assert(forall|j: int| 0 <= j < erase_steps(s).len() ==> erase_steps(s)[j] != RecoveryStep::Record(Stage::Success));
    assert(forall|j: int| 0 <= j < apply_steps(e).len() ==> apply_steps(e)[j] != RecoveryStep::Record(Stage::Success));
    assert(forall|j: int| 0 <= j < opening(task.status).len() ==> opening(task.status)[j] != RecoveryStep::Record(Stage::Success));
}

/// A run resumed after the image was applied never formats the target
/// again.
pub proof fn lemma_resume_never_reformats(task: Task, finalize: bool, i: int)
    requires
        task.status == Stage::ImageApplied || task.status == Stage::BootRepaired,
        0 <= i < recovery_plan(task, finalize).len(),
    ensures
        recovery_plan(task, finalize)[i] != RecoveryStep::FormatTarget,
{
    let s = opened(task.status);
    assert(s == task.status);
    assert(erase_steps(s).len() == 0);
    assert(opening(task.status).len() == 0);
    match task.target {
        Some(t) => {
            let sec = secondary(t.role);
            assert(forall|j: int| 0 <= j < sec.len() ==> sec[j] == RecoveryStep::ConfigureSecondary);
        },
        None => {},
    }
    assert(forall|j: int| 0 <= j < apply_steps(s).len() ==> apply_steps(s)[j] != RecoveryStep::FormatTarget);
}

/// A valid restore that has not yet erased its target runs to `success`
/// when finalizing, formatting the target, applying the image and
/// repairing the boot entry on the way.
pub proof fn lemma_restore_runs_to_success(task: Task)
    requires
        is_restore(task.operation),
        task.target is Some,
        task.image is Some,
        task.target->0.role == TargetRole::NewWindows ==> task.boot_plan.mode == BootMode::AddSecondary,
        task.status == Stage::Prepared || task.status == Stage::BootRequested || task.status
            == Stage::RecoveryStarted || task.status == Stage::Preflight,
    ensures
        stage_after(task.status, recovery_plan(task, true)) == Stage::Success,
        recovery_plan(task, true).contains(RecoveryStep::FormatTarget),
        recovery_plan(task, true).contains(RecoveryStep::ApplyImage),
        recovery_plan(task, true).contains(RecoveryStep::RepairBoot),
{
    let st = task.status;
    let s = Stage::Preflight;
    let t = task.target->0;
    let plan = recovery_plan(task, true);
    lemma_opening(st);
    lemma_erase(s);
    lemma_apply(Stage::TargetErased);
    lemma_boot(Stage::ImageApplied, t.role, true);
    let body = erase_steps(s) + apply_steps(Stage::TargetErased) + seq![RecoveryStep::LocateEfi]
        + boot_steps(Stage::ImageApplied, t.role, true);
    assert(restore_steps(task, s, true) == body);
    assert(operation_steps(task, s, true) == body);
    let rest = seq![RecoveryStep::VerifyImage] + body;
    assert(plan == opening(st) + rest);
    lemma_stage_after_concat(st, opening(st), rest);
    lemma_stage_after_concat(s, seq![RecoveryStep::VerifyImage], body);
    lemma_single(s, RecoveryStep::VerifyImage);
    let p1 = erase_steps(s);
    let p2 = apply_steps(Stage::TargetErased);
    let p3 = seq![RecoveryStep::LocateEfi];
    let p4 = boot_steps(Stage::ImageApplied, t.role, true);
    lemma_stage_after_concat(s, p1 + p2 + p3, p4);
    lemma_stage_after_concat(s, p1 + p2, p3);
    lemma_stage_after_concat(s, p1, p2);
    lemma_single(Stage::ImageApplied, RecoveryStep::LocateEfi);
    let k: int = opening(st).len() as int + 1;
    assert(plan[k + 1] == RecoveryStep::FormatTarget);
    assert(plan[k + 2] == RecoveryStep::ApplyImage);
    assert(plan[k + 6] == RecoveryStep::RepairBoot);
}

/// A restore interrupted after `target-erased` was recorded formats the
/// target again before it applies the image: the interrupted format may
/// have left the partition half written.
pub proof fn lemma_interrupted_erase_formats_again(task: Task, finalize: bool)
    requires
        is_restore(task.operation),
        task.target is Some,
        task.image is Some,
        task.target->0.role == TargetRole::NewWindows ==> task.boot_plan.mode == BootMode::AddSecondary,
        task.status == Stage::TargetErased,
    ensures
        exists|j: int| #![trigger recovery_plan(task, finalize)[j]]
            0 <= j < recovery_plan(task, finalize).len() && recovery_plan(task, finalize)[j] == RecoveryStep::FormatTarget
            && (forall|i: int| 0 <= i <= j ==> recovery_plan(task, finalize)[i] != RecoveryStep::ApplyImage),
        recovery_plan(task, finalize).contains(RecoveryStep::ApplyImage),
{
    let plan = recovery_plan(task, finalize);
    let t = task.target->0;
    let s = Stage::TargetErased;
    let body = erase_steps(s) + apply_steps(s) + seq![RecoveryStep::LocateEfi] + boot_steps(Stage::ImageApplied, t.role, finalize);
    assert(opening(s) =~= Seq::<RecoveryStep>::empty());
    assert(restore_steps(task, s, finalize) == body);
    assert(plan =~= seq![RecoveryStep::VerifyImage] + body);
    assert(plan[0] == RecoveryStep::VerifyImage);
    assert(plan[1] == RecoveryStep::FormatTarget);
    assert(plan[2] == RecoveryStep::ApplyImage);
    assert(forall|i: int| 0 <= i <= 1 ==> plan[i] != RecoveryStep::ApplyImage);
}

/// Every time a run applies the image it has formatted the target earlier
/// in the same run, unless the run resumed at `image-applied` (the target
/// then already holds the image, and only the apply is repeated).
pub proof fn lemma_apply_follows_format(task: Task, finalize: bool, i: int)
    requires
        0 <= i < recovery_plan(task, finalize).len(),
        recovery_plan(task, finalize)[i] == RecoveryStep::ApplyImage,
    ensures
        task.status == Stage::ImageApplied || exists|j: int| 0 <= j < i && #[trigger] recovery_plan(task, finalize)[j]
            == RecoveryStep::FormatTarget,
{
    let st = task.status;
    let s = opened(st);
    let plan = recovery_plan(task, finalize);
    let o = opening(st);
    assert(forall|m: int| 0 <= m < o.len() ==> (#[trigger] o[m]) is Record);
    if !is_restore(task.operation) {
        lemma_only_restores_touch_target(task, finalize, i);
    } else {
        match task.target {
            None => {
                let rest = if task.image is Some {
                    seq![RecoveryStep::Refuse(Refusal::MissingTarget)]
                } else {
                    seq![RecoveryStep::Refuse(Refusal::MissingTarget)]
                };
                assert(operation_steps(task, s, finalize) == seq![RecoveryStep::Refuse(Refusal::MissingTarget)]);
                assert(plan =~= o + rest);
                assert(plan[i] != RecoveryStep::ApplyImage);
            },
            Some(t) => {
                if t.role == TargetRole::NewWindows && task.boot_plan.mode != BootMode::AddSecondary {
                    let r = seq![RecoveryStep::Refuse(Refusal::SecondaryNeedsAddSecondary)];
                    assert(operation_steps(task, s, finalize) == r);
                    if task.image is Some {
                        assert(plan =~= o + (seq![RecoveryStep::VerifyImage] + r));
                    } else {
                        assert(plan =~= o + r);
                    }
                    assert(plan[i] != RecoveryStep::ApplyImage);
                } else if task.image is None {
                    let r = seq![RecoveryStep::Refuse(Refusal::MissingImage)];
                    assert(operation_steps(task, s, finalize) == r);
                    assert(plan =~= o + r);
                    assert(plan[i] != RecoveryStep::ApplyImage);
                } else {
                    let e = erase_steps(s);
                    let a = apply_steps(erased(s));
                    let b = boot_steps(applied(erased(s)), t.role, finalize);
                    let body = e + a + seq![RecoveryStep::LocateEfi] + b;
                    assert(operation_steps(task, s, finalize) == body);
                    assert(plan =~= o + (seq![RecoveryStep::VerifyImage] + body));
                    let sec = secondary(t.role);
                    assert(forall|m: int| 0 <= m < sec.len() ==> sec[m] == RecoveryStep::ConfigureSecondary);
                    assert(forall|m: int| 0 <= m < b.len() ==> #[trigger] b[m] != RecoveryStep::ApplyImage);
                    assert(forall|m: int| 0 <= m < e.len() ==> #[trigger] e[m] != RecoveryStep::ApplyImage);
                    let base = o.len() + 1;
                    assert(base + e.len() <= i < base + e.len() + a.len()) by {
                        if i < o.len() {
                            assert(plan[i] == o[i]);
                        } else if i < base {
                            assert(plan[i] == RecoveryStep::VerifyImage);
                        } else if i < base + e.len() {
                            assert(plan[i] == e[i - base]);
                        } else if i >= base + e.len() + a.len() {
                            if i == base + e.len() + a.len() {
                                assert(plan[i] == RecoveryStep::LocateEfi);
                            } else {
                                assert(plan[i] == b[i - base - e.len() - a.len() - 1]);
                            }
                        }
                    }
                    if erased(s) == Stage::TargetErased {
                        let j = base + e.len() - 1;
                        assert(e[e.len() - 1] == RecoveryStep::FormatTarget);
                        assert(plan[j] == RecoveryStep::FormatTarget);
                    } else {
                        assert(a.len() > 0);
                        assert(st == Stage::ImageApplied);
                    }
                }
            },
        }
    }
}

/// The message a refusal stops a run with.
pub open spec fn refusal_text(reason: Refusal) -> Seq<char> {
    match reason {
        Refusal::MissingSource => "missing source"@,
        Refusal::MissingDestination => "missing destination"@,
        Refusal::MissingTarget => "missing target"@,
        Refusal::MissingImage => "missing image"@,
        Refusal::SecondaryNeedsAddSecondary => "secondary target requires add-secondary boot plan"@,
        Refusal::BackupCannotResume(s) => "backup cannot resume from stage "@ + stage_label(s),
        Refusal::RestoreCannotResume(s) => "restore cannot resume from stage "@ + stage_label(s),
    }
}

pub fn refusal_error(reason: Refusal) -> (e: TaskError)
    ensures
        e == TaskError::Invalid(e->Invalid_0),
        e->Invalid_0@ == refusal_text(reason),
{
    match reason {
        Refusal::MissingSource => crate::paths::invalid("missing source"),
        Refusal::MissingDestination => crate::paths::invalid("missing destination"),
        Refusal::MissingTarget => crate::paths::invalid("missing target"),
        Refusal::MissingImage => crate::paths::invalid("missing image"),
        Refusal::SecondaryNeedsAddSecondary => crate::paths::invalid(
            "secondary target requires add-secondary boot plan",
        ),
        Refusal::BackupCannotResume(s) => TaskError::Invalid(
            crate::task::message("backup cannot resume from stage ", stage_name(s)),
        ),
        Refusal::RestoreCannotResume(s) => TaskError::Invalid(
            crate::task::message("restore cannot resume from stage ", stage_name(s)),
        ),
    }
}

/// The name a stage is shown by in messages.
pub open spec fn stage_label(s: Stage) -> Seq<char> {
    match s {
        Stage::Prepared => "Prepared"@,
        Stage::BootRequested => "BootRequested"@,
        Stage::RecoveryStarted => "RecoveryStarted"@,
        Stage::Preflight => "Preflight"@,
        Stage::Capturing => "Capturing"@,
        Stage::TargetErased => "TargetErased"@,
        Stage::ImageApplied => "ImageApplied"@,
        Stage::BootRepaired => "BootRepaired"@,
        Stage::Success => "Success"@,
        Stage::Failed => "Failed"@,
    }
}

pub fn stage_name(s: Stage) -> (r: &'static str)
    ensures
        r@ == stage_label(s),
{
    match s {
        Stage::Prepared => "Prepared",
        Stage::BootRequested => "BootRequested",
        Stage::RecoveryStarted => "RecoveryStarted",
        Stage::Preflight => "Preflight",
        Stage::Capturing => "Capturing",
        Stage::TargetErased => "TargetErased",
        Stage::ImageApplied => "ImageApplied",
        Stage::BootRepaired => "BootRepaired",
        Stage::Success => "Success",
        Stage::Failed => "Failed",
    }
}

} // verus!
