//! Which volumes the WinRE host mounts for a task, at which letters, and
//! what it does with a letter that is already in use.
use vstd::prelude::*;
use crate::model::{same_partition, Operation, Stage, Task, TaskError};
use crate::number::{decimal, u64_decimal};
use crate::parsing::VolumeMountQuery;
use crate::paths::invalid;
use crate::text::{eq_ic, owned, str_eq_ignore_ascii_case, string_from};

verus! {

/// A volume the recovery host needs, named after its `RecoveryTask.env`
/// key prefix.
#[derive(Debug, Clone, Copy, PartialEq, Eq, Structural)]
pub enum VolumeRole {
    Workspace,
    Recovery,
    Source,
    Image,
    Target,
    Efi,
}

pub open spec fn role_prefix(r: VolumeRole) -> Seq<char> {
    match r {
        VolumeRole::Workspace => "WORKSPACE"@,
        VolumeRole::Recovery => "RECOVERY"@,
        VolumeRole::Source => "SOURCE"@,
        VolumeRole::Image => "IMAGE"@,
        VolumeRole::Target => "TARGET"@,
        VolumeRole::Efi => "EFI"@,
    }
}

/// The letter each role asks for; EFI takes a late letter so that an
/// image or data volume WinRE put on `E:` does not collide with it.
pub open spec fn role_letter(r: VolumeRole) -> char {
    match r {
        VolumeRole::Workspace => 'T',
        VolumeRole::Recovery => 'R',
        VolumeRole::Source => 'S',
        VolumeRole::Image => 'I',
        VolumeRole::Target => 'W',
        VolumeRole::Efi => 'Z',
    }
}

pub fn env_prefix(r: VolumeRole) -> (p: &'static str)
    ensures
        p@ == role_prefix(r),
{
    match r {
        VolumeRole::Workspace => "WORKSPACE",
        VolumeRole::Recovery => "RECOVERY",
        VolumeRole::Source => "SOURCE",
        VolumeRole::Image => "IMAGE",
        VolumeRole::Target => "TARGET",
        VolumeRole::Efi => "EFI",
    }
}

pub fn preferred_letter(r: VolumeRole) -> (c: char)
    ensures
        c == role_letter(r),
{
    match r {
        VolumeRole::Workspace => 'T',
        VolumeRole::Recovery => 'R',
        VolumeRole::Source => 'S',
        VolumeRole::Image => 'I',
        VolumeRole::Target => 'W',
        VolumeRole::Efi => 'Z',
    }
}

/// The target may have been formatted by an interrupted run, so its volume
/// serial is not compared once the task is past `preflight`.
pub open spec fn serial_may_change(r: VolumeRole, s: Stage) -> bool {
    r == VolumeRole::Target && (s == Stage::TargetErased || s == Stage::ImageApplied || s
        == Stage::BootRepaired)
}

pub fn allow_reformatted_serial(r: VolumeRole, s: Stage) -> (b: bool)
    ensures
        b == serial_may_change(r, s),
{
    r == VolumeRole::Target && (s == Stage::TargetErased || s == Stage::ImageApplied || s
        == Stage::BootRepaired)
}

/// The task volumes mounted after the workspace and recovery volumes. A
/// probe reuses the workspace mount when its source is that partition.
pub open spec fn task_mounts(t: Task) -> Option<Seq<VolumeRole>> {
    if t.operation != Operation::Probe {
        Some(seq![VolumeRole::Source, VolumeRole::Image] + if t.target is Some {
            seq![VolumeRole::Target, VolumeRole::Efi]
        } else {
            seq![]
        })
    } else {
        match t.source {
            None => Some(seq![]),
            Some(s) => match t.workspace_volume {
                None => None,
                Some(w) => if same_partition(w, s) {
                    Some(seq![])
                } else {
                    Some(seq![VolumeRole::Source])
                },
            },
        }
    }
}

pub fn volumes_to_mount(task: &Task) -> (r: Result<Vec<VolumeRole>, TaskError>)
    ensures
        r matches Ok(v) ==> task_mounts(*task) == Some(v@),
        r is Err ==> task_mounts(*task) is None,
        r matches Err(e) ==> e == TaskError::Invalid(e->Invalid_0) && e->Invalid_0@
            == "probe task is missing workspace volume identity"@,
{
    let mut v: Vec<VolumeRole> = Vec::new();
    if task.operation != Operation::Probe {
        v.push(VolumeRole::Source);
        v.push(VolumeRole::Image);
        if task.target.is_some() {
            v.push(VolumeRole::Target);
            v.push(VolumeRole::Efi);
        }
        proof {
            assert(task_mounts(*task) == Some(v@));
        }
        return Ok(v);
    }
    match &task.source {
        None => Ok(v),
        Some(s) => match &task.workspace_volume {
            None => Err(invalid("probe task is missing workspace volume identity")),
            Some(w) => {
                if !w.same_partition(s) {
                    v.push(VolumeRole::Source);
                }
                proof {
                    assert(task_mounts(*task) == Some(v@));
                }
                Ok(v)
            },
        },
    }
}

/// Record the letter a role's volume was mounted at in the task: the image
/// volume holds both the image and a backup destination.
pub fn record_mount(task: &mut Task, role: VolumeRole, letter: char)
    ensures
        role == VolumeRole::Source ==> final(task).source == (match old(task).source {
            Some(s) => Some(crate::model::VolumeIdentity { drive_letter: Some(letter), ..s }),
            None => None,
        }),
        role == VolumeRole::Image ==> final(task).image == (match old(task).image {
            Some(i) => Some(crate::model::ImageSpec {
                volume: crate::model::VolumeIdentity { drive_letter: Some(letter), ..i.volume },
                ..i
            }),
            None => None,
        }) && final(task).destination == (match old(task).destination {
            Some(d) => Some(crate::model::DestinationSpec {
                volume: crate::model::VolumeIdentity { drive_letter: Some(letter), ..d.volume },
                ..d
            }),
            None => None,
        }),
        role == VolumeRole::Target ==> final(task).target == (match old(task).target {
            Some(g) => Some(crate::model::TargetSpec {
                volume: crate::model::VolumeIdentity { drive_letter: Some(letter), ..g.volume },
                ..g
            }),
            None => None,
        }),
        role != VolumeRole::Source ==> final(task).source == old(task).source,
        role != VolumeRole::Image ==> final(task).image == old(task).image
            && final(task).destination == old(task).destination,
        role != VolumeRole::Target ==> final(task).target == old(task).target,
        final(task).workspace_volume == old(task).workspace_volume,
        final(task).task_id == old(task).task_id,
        final(task).operation == old(task).operation,
        final(task).status == old(task).status,
        final(task).boot_plan == old(task).boot_plan,
        final(task).payload == old(task).payload,
{
    match role {
        VolumeRole::Source => {
            if let Some(s) = &mut task.source {
                s.drive_letter = Some(letter);
            }
        },
        VolumeRole::Image => {
            if let Some(i) = &mut task.image {
                i.volume.drive_letter = Some(letter);
            }
            if let Some(d) = &mut task.destination {
                d.volume.drive_letter = Some(letter);
            }
        },
        VolumeRole::Target => {
            if let Some(g) = &mut task.target {
                g.volume.drive_letter = Some(letter);
            }
        },
        _ => {},
    }
}

/// What to do to get a role's volume mounted at a letter.
#[derive(Debug, Clone, PartialEq, Eq)]
pub enum MountAction {
    /// The volume is already mounted at this letter; check and reuse it.
    Reuse(char),
    /// Assign the wanted letter (mountvol, then DiskPart as fallback).
    Assign,
}

/// Given where the volume is already mounted (if anywhere) and what
/// `mountvol <letter>: /L` reported for the wanted letter, reuse a mount,
/// assign the letter, or refuse to take a letter held by another volume.
pub open spec fn mount_action(found: Option<char>, letter: char, expected: Seq<char>, query: VolumeMountQuery) -> Result<MountAction, Seq<char>> {
    match found {
        Some(c) => Ok(MountAction::Reuse(c)),
        None => match query {
            VolumeMountQuery::Mounted(actual) => if eq_ic(actual@, expected) {
                Ok(MountAction::Reuse(letter))
            } else {
                Err("volume "@ + seq![letter] + ": is already mounted to "@ + actual@
                    + ", refusing to replace it"@)
            },
            _ => Ok(MountAction::Assign),
        },
    }
}

pub fn decide_mount(found: Option<char>, letter: char, expected: &str, query: &VolumeMountQuery) -> (r: Result<MountAction, TaskError>)
    ensures
        r matches Ok(a) ==> mount_action(found, letter, expected@, *query) == Ok::<MountAction, Seq<char>>(a),
        r matches Err(e) ==> e == TaskError::Invalid(e->Invalid_0) && mount_action(found, letter, expected@, *query)
            == Err::<MountAction, Seq<char>>(e->Invalid_0@),
{
    if let Some(c) = found {
        return Ok(MountAction::Reuse(c));
    }
    match query {
        VolumeMountQuery::Mounted(actual) => {
            if str_eq_ignore_ascii_case(actual.as_str(), expected) {
                Ok(MountAction::Reuse(letter))
            } else {
                let mut m = owned("volume ");
                let mut l: Vec<char> = Vec::new();
                l.push(letter);
                m.append(string_from(l.as_slice()).as_str());
                m.append(": is already mounted to ");
                m.append(actual.as_str());
                m.append(", refusing to replace it");
                proof {
                    assert(l@ =~= seq![letter]);
                }
                Err(TaskError::Invalid(m))
            }
        },
        _ => Ok(MountAction::Assign),
    }
}

/// The DiskPart script that gives a partition a drive letter.
pub open spec fn assign_script(disk: u32, partition: u32, letter: char) -> Seq<char> {
    "select disk "@ + decimal(disk as nat) + "\r\nselect partition "@ + decimal(partition as nat)
        + "\r\nassign letter="@ + seq![letter] + "\r\n"@
}

pub fn diskpart_assign_script(disk: u32, partition: u32, letter: char) -> (r: String)
    ensures
        r@ == assign_script(disk, partition, letter),
{
    let mut s = owned("select disk ");
    s.append(string_from(u64_decimal(disk as u64).as_slice()).as_str());
    s.append("\r\nselect partition ");
    s.append(string_from(u64_decimal(partition as u64).as_slice()).as_str());
    s.append("\r\nassign letter=");
    let mut l: Vec<char> = Vec::new();
    l.push(letter);
    proof {
        assert(l@ =~= seq![letter]);
    }
    s.append(string_from(l.as_slice()).as_str());
    s.append("\r\n");
    s
}

/// How a WinRE run ends, from the outcome of the recovery and of restoring
/// the original WinRE image.
#[derive(Debug, Clone, Copy, PartialEq, Eq, Structural)]
pub enum RunEnd {
    /// Both succeeded: record `success`, disarm the WinRE guard, reboot.
    Succeed,
    /// The disk work succeeded but WinRE is still modified: the task is
    /// failed, and the guard tries once more.
    FailCleanup,
    /// The recovery failed; the guard is disarmed only if WinRE was
    /// restored.
    ReportFailure { guard_disarmed: bool },
}

pub open spec fn run_end(recovered: bool, cleaned: bool) -> RunEnd {
    if recovered && cleaned {
        RunEnd::Succeed
    } else if recovered {
        RunEnd::FailCleanup
    } else {
        RunEnd::ReportFailure { guard_disarmed: cleaned }
    }
}

pub fn end_of_run(recovered: bool, cleaned: bool) -> (r: RunEnd)
    ensures
        r == run_end(recovered, cleaned),
{
    if recovered && cleaned {
        RunEnd::Succeed
    } else if recovered {
        RunEnd::FailCleanup
    } else {
        RunEnd::ReportFailure { guard_disarmed: cleaned }
    }
}

/// A run is marked successful only when the registered WinRE image was
/// restored as well; a modified WinRE is never left behind by a success.
pub proof fn lemma_success_needs_winre_restored(recovered: bool, cleaned: bool)
    ensures
        run_end(recovered, cleaned) == RunEnd::Succeed <==> (recovered && cleaned),
        !cleaned ==> run_end(recovered, cleaned) != RunEnd::Succeed,
{
}

/// A failure after `boot-repaired` was recorded (before or during this run)
/// rolls the boot store back to its snapshot.
pub open spec fn rollback_boot_store(before: Stage, now: Stage) -> bool {
    now == Stage::BootRepaired || before == Stage::BootRepaired
}

pub fn should_rollback_bcd(before: Stage, now: Stage) -> (b: bool)
    ensures
        b == rollback_boot_store(before, now),
{
    now == Stage::BootRepaired || before == Stage::BootRepaired
}

} // verus!
