//! Decisions of the recovery host: its command-line options, the paths it
//! derives, the checks between task, status and payload records, and the
//! order of the steps it runs.
use vstd::prelude::*;
use crate::model::{terminal, BackupMetadata, DestinationSpec, ImageSpec, PayloadManifest, Stage, StatusRecord, TargetSpec, Task, TaskError, VolumeIdentity};
use crate::number::{decimal, u64_decimal};
use crate::paths::{invalid, relative_path_ok, validate_relative_path};
use crate::task::{letters_cleared, message, task_valid};
use crate::text::{all_ws, chars_of, eq_ic, last_index, occurs_at, replace_char, replace_chars, rfind_seq, seq_eq, slice_from, slice_to, str_eq_ignore_ascii_case, string_from};

verus! {

/// Options of the `recover` command.
#[derive(Debug, Clone, PartialEq, Eq)]
pub struct RecoverOptions {
    pub dry_run: bool,
    pub efi_root: Option<String>,
}

/// The options that `args` set on top of `acc`, read left to right:
/// `--dry-run`, and `--efi-root <path>` with a non-blank path (the last one
/// counts); anything else is refused.
pub open spec fn recover_options(args: Seq<Seq<char>>, dry_run: bool, efi_root: Option<Seq<char>>) -> Option<(bool, Option<Seq<char>>)>
    decreases args.len(),
{
    if args.len() == 0 {
        Some((dry_run, efi_root))
    } else if args[0] == "--dry-run"@ {
        recover_options(args.drop_first(), true, efi_root)
    } else if args[0] == "--efi-root"@ {
        if args.len() < 2 || all_ws(args[1]) {
            None
        } else {
            recover_options(args.skip(2), dry_run, Some(args[1]))
        }
    } else {
        None
    }
}

pub open spec fn opt_view(o: Option<String>) -> Option<Seq<char>> {
    match o {
        Some(p) => Some(p@),
        None => None,
    }
}

pub open spec fn string_views(v: Seq<String>) -> Seq<Seq<char>> {
    v.map_values(|s: String| s@)
}

pub fn parse_recover_options(arguments: Vec<String>) -> (r: Result<RecoverOptions, TaskError>)
    ensures
        r matches Ok(o) ==> recover_options(string_views(arguments@), false, None)
            == Some((o.dry_run, opt_view(o.efi_root))),
        r is Err ==> recover_options(string_views(arguments@), false, None) is None,
        r matches Err(e) ==> e is Invalid,
{
    let ghost all = string_views(arguments@);
    let dry = chars_of("--dry-run");
    let efi = chars_of("--efi-root");
    let mut dry_run = false;
    let mut efi_root: Option<String> = None;
    let mut i: usize = 0;
    proof {
        assert(all.skip(0) =~= all);
    }
    while i < arguments.len()
        invariant
            all == string_views(arguments@),
            dry@ == "--dry-run"@,
            efi@ == "--efi-root"@,
            i <= arguments@.len(),
            recover_options(all.skip(i as int), dry_run, opt_view(efi_root))
                == recover_options(all, false, None),
        decreases arguments.len() - i,
    {
        let ghost rest = all.skip(i as int);
        let argument = chars_of(arguments[i].as_str());
        proof {
            assert(rest[0] == arguments@[i as int]@);
        }
        if seq_eq(argument.as_slice(), dry.as_slice()) {
            proof {
                assert(rest.drop_first() =~= all.skip(i + 1));
            }
            dry_run = true;
            i = i + 1;
        } else if seq_eq(argument.as_slice(), efi.as_slice()) {
            if i + 1 >= arguments.len() {
                return Err(invalid("--efi-root requires a mounted EFI root path"));
            }
            let root = arguments[i + 1].clone();
            proof {
                assert(rest[1] == arguments@[i + 1]@);
                assert(rest.skip(2) =~= all.skip(i + 2));
            }
            if crate::text::str_is_blank(root.as_str()) {
                return Err(invalid("--efi-root cannot be empty"));
            }
            efi_root = Some(root);
            i = i + 2;
        } else {
            let m = message("unknown recover option: ", arguments[i].as_str());
            return Err(TaskError::Invalid(m));
        }
    }
    proof {
        assert(all.skip(i as int).len() == 0);
    }
    Ok(RecoverOptions { dry_run, efi_root })
}

/// Stages from which an interrupted, already authorized recovery may be
/// booted into WinRE again: every non-terminal stage after `prepared`.
pub open spec fn resumable(s: Stage) -> bool {
    !terminal(s) && s != Stage::Prepared
}

pub fn stage_resumable_after_interruption(stage: Stage) -> (b: bool)
    ensures
        b == resumable(stage),
{
    match stage {
        Stage::BootRequested | Stage::RecoveryStarted | Stage::Preflight | Stage::Capturing
        | Stage::TargetErased | Stage::ImageApplied | Stage::BootRepaired => true,
        _ => false,
    }
}

/// Split `WORKSPACE_ROOT_REL` (a volume-relative task directory such as
/// `Tools\BackupRestore\tasks\<id>`) at its last `\tasks\` into the
/// workspace directory and the task id; the id must be `task_id` and the
/// workspace directory must not be empty.
pub open spec fn workspace_root_of(value: Seq<char>, task_id: Seq<char>) -> Option<Seq<char>> {
    let n = replace_char(value, '/', '\\');
    if !relative_path_ok(value) {
        None
    } else {
        match last_index(n, "\\tasks\\"@) {
            None => None,
            Some(i) => if i == 0 || n.skip(i + 7) != task_id {
                None
            } else {
                Some(n.take(i))
            },
        }
    }
}

pub fn split_workspace_root_rel(value: &str, task_id: &str) -> (r: Result<String, TaskError>)
    ensures
        r matches Ok(s) ==> workspace_root_of(value@, task_id@) == Some(s@),
        r is Err ==> workspace_root_of(value@, task_id@) is None,
        r matches Err(e) ==> e is Invalid,
{
    validate_relative_path(value)?;
    let n = replace_chars(chars_of(value).as_slice(), '/', '\\');
    let pat = chars_of("\\tasks\\");
    proof {
        reveal_strlit("\\tasks\\");
    }
    let found = match rfind_seq(n.as_slice(), pat.as_slice()) {
        Some(i) => i,
        None => return Err(invalid("WORKSPACE_ROOT_REL must contain \\tasks\\")),
    };
    proof {
        assert(occurs_at(n@, pat@, found as int));
    }
    if found == 0 {
        return Err(invalid("WORKSPACE_ROOT_REL has an empty workspace path"));
    }
    let id = slice_from(n.as_slice(), found + 7);
    if !seq_eq(id.as_slice(), chars_of(task_id).as_slice()) {
        return Err(invalid("WORKSPACE_ROOT_REL task id does not match TASK_ID"));
    }
    let store = slice_to(n.as_slice(), found);
    Ok(string_from(store.as_slice()))
}

/// The DiskPart script that quick-formats the verified target partition.
pub open spec fn format_script(disk: u32, partition: u32) -> Seq<char> {
    "select disk "@ + decimal(disk as nat) + "\r\nselect partition "@ + decimal(partition as nat)
        + "\r\nformat fs=ntfs quick\r\n"@
}

pub fn diskpart_format_script(disk_number: Option<u32>, partition_number: Option<u32>) -> (r: Result<String, TaskError>)
    ensures
        r is Ok <==> (disk_number is Some && partition_number is Some && partition_number->0 != 0),
        r matches Ok(s) ==> s@ == format_script(disk_number->0, partition_number->0),
        r matches Err(e) ==> e is Invalid,
{
    let disk = match disk_number {
        Some(d) => d,
        None => return Err(invalid("restore target has no verified disk number for DiskPart formatting")),
    };
    let partition = match partition_number {
        Some(p) => p,
        None => return Err(invalid("restore target has no verified partition number for DiskPart formatting")),
    };
    if partition == 0 {
        return Err(invalid("restore target has an invalid partition number for DiskPart"));
    }
    let mut s = crate::text::owned("select disk ");
    s.append(string_from(u64_decimal(disk as u64).as_slice()).as_str());
    s.append("\r\nselect partition ");
    s.append(string_from(u64_decimal(partition as u64).as_slice()).as_str());
    s.append("\r\nformat fs=ntfs quick\r\n");
    Ok(s)
}

/// The per-index metadata file kept beside a WIM image:
/// `<image file name>.index-<n>.metadata.json`.
pub open spec fn index_metadata_name(image_name: Seq<char>, index: u32) -> Seq<char> {
    image_name + ".index-"@ + decimal(index as nat) + ".metadata.json"@
}

pub fn index_metadata_file_name(image_name: &str, index: u32) -> (r: String)
    ensures
        r@ == index_metadata_name(image_name@, index),
{
    let mut s = crate::text::owned(image_name);
    s.append(".index-");
    s.append(string_from(u64_decimal(index as u64).as_slice()).as_str());
    s.append(".metadata.json");
    s
}

/// Backup metadata read for a WIM index must describe that index.
pub fn check_metadata_index(metadata: &BackupMetadata, index: u32) -> (r: Result<(), TaskError>)
    ensures
        r is Ok <==> metadata.wim_index == index,
        r matches Err(e) ==> e == TaskError::Invalid(e->Invalid_0) && e->Invalid_0@
            == "backup metadata is for WIM index "@ + decimal(metadata.wim_index as nat)
            + ", not selected index "@ + decimal(index as nat),
{
    if metadata.wim_index != index {
        let mut m = crate::text::owned("backup metadata is for WIM index ");
        m.append(string_from(u64_decimal(metadata.wim_index as u64).as_slice()).as_str());
        m.append(", not selected index ");
        m.append(string_from(u64_decimal(index as u64).as_slice()).as_str());
        return Err(TaskError::Invalid(m));
    }
    Ok(())
}

/// The architecture name recorded in backup metadata, from the values of
/// `PROCESSOR_ARCHITEW6432` and `PROCESSOR_ARCHITECTURE`: ARM64 wins over
/// AMD64, anything else is unknown.
pub open spec fn reported_as(o: Option<String>, name: Seq<char>) -> bool {
    match o {
        Some(v) => eq_ic(v@, name),
        None => false,
    }
}

pub open spec fn architecture_name(reported: Seq<Option<String>>) -> Seq<char> {
    if exists|i: int| 0 <= i < reported.len() && reported_as(#[trigger] reported[i], "ARM64"@) {
        "arm64"@
    } else if exists|i: int| 0 <= i < reported.len() && reported_as(#[trigger] reported[i], "AMD64"@) {
        "x64"@
    } else {
        "unknown"@
    }
}

fn any_reported(reported: &[Option<String>], name: &str) -> (b: bool)
    ensures
        b == exists|i: int| 0 <= i < reported@.len() && reported_as(#[trigger] reported@[i], name@),
{
    for i in 0..reported.len()
        invariant
            forall|j: int| 0 <= j < i ==> !reported_as(#[trigger] reported@[j], name@),
    {
        if let Some(v) = &reported[i] {
            if str_eq_ignore_ascii_case(v.as_str(), name) {
                return true;
            }
        }
    }
    false
}

pub fn native_windows_architecture(reported: &[Option<String>]) -> (r: String)
    ensures
        r@ == architecture_name(reported@),
{
    if any_reported(reported, "ARM64") {
        crate::text::owned("arm64")
    } else if any_reported(reported, "AMD64") {
        crate::text::owned("x64")
    } else {
        crate::text::owned("unknown")
    }
}

/// `status.json` agrees with `task.json`: same task id (up to ASCII case)
/// and operation, and the same stage, except that the normal host may
/// already have recorded `boot-requested` for a task still `prepared`.
pub open spec fn status_agrees(status: StatusRecord, task: Task) -> bool {
    &&& eq_ic(status.task_id@, task.task_id@)
    &&& status.operation == task.operation
    &&& (status.stage == task.status || (task.status == Stage::Prepared && status.stage == Stage::BootRequested))
}

pub fn check_persisted_status(status: &StatusRecord, task: &Task) -> (r: Result<(), TaskError>)
    ensures
        r is Ok <==> status_agrees(*status, *task),
        r matches Err(e) ==> e is Invalid,
{
    if !str_eq_ignore_ascii_case(status.task_id.as_str(), task.task_id.as_str()) {
        return Err(invalid("status.json task_id does not match task.json"));
    }
    if status.operation != task.operation {
        return Err(invalid("status.json operation does not match task.json"));
    }
    if status.stage != task.status && !(task.status == Stage::Prepared && status.stage == Stage::BootRequested) {
        return Err(invalid("status.json stage does not match task.json"));
    }
    Ok(())
}

pub fn check_manifest_task_id(manifest: &PayloadManifest, task: &Task) -> (r: Result<(), TaskError>)
    ensures
        r is Ok <==> eq_ic(manifest.task_id@, task.task_id@),
        r matches Err(e) ==> e is Invalid,
{
    if !str_eq_ignore_ascii_case(manifest.task_id.as_str(), task.task_id.as_str()) {
        return Err(invalid("payload manifest task_id does not match task.json"));
    }
    Ok(())
}

/// A task directory holds an interrupted recovery that may be resumed:
/// a resumable stage, a valid task, and a status record and directory name
/// that agree with it.
pub open spec fn resume_candidate(task: Task, status: StatusRecord, dir_name: Seq<char>) -> bool {
    &&& resumable(task.status)
    &&& task_valid(task)
    &&& eq_ic(status.task_id@, task.task_id@)
    &&& status.operation == task.operation
    &&& status.stage == task.status
    &&& eq_ic(task.task_id@, dir_name)
}

pub fn is_resume_candidate(task: &Task, status: &StatusRecord, dir_name: &str) -> (b: bool)
    ensures
        b == resume_candidate(*task, *status, dir_name@),
{
    stage_resumable_after_interruption(task.status) && task.validate().is_ok()
        && str_eq_ignore_ascii_case(status.task_id.as_str(), task.task_id.as_str())
        && status.operation == task.operation && status.stage == task.status
        && str_eq_ignore_ascii_case(task.task_id.as_str(), dir_name)
}

/// What `recover` does with a loaded task before touching any disk.
#[derive(Debug, Clone, Copy, PartialEq, Eq, Structural)]
pub enum RecoverStart {
    /// The task already succeeded; running it again is refused quietly.
    AlreadySucceeded,
    /// The task may run.
    Run,
}

pub fn recover_start(task: &Task) -> (r: Result<RecoverStart, TaskError>)
    ensures
        task.status == Stage::Success ==> r == Ok::<RecoverStart, TaskError>(RecoverStart::AlreadySucceeded),
        task.status == Stage::Failed ==> (r matches Err(e) && e is Invalid),
        !terminal(task.status) ==> r == Ok::<RecoverStart, TaskError>(RecoverStart::Run),
{
    if task.status == Stage::Success {
        return Ok(RecoverStart::AlreadySucceeded);
    }
    if task.status == Stage::Failed {
        return Err(invalid("task is failed; create a new task after reviewing recovery.log"));
    }
    Ok(RecoverStart::Run)
}

} // verus!

verus! {

fn same_text(a: &str, b: &str) -> (r: bool)
    ensures
        r == (a@ == b@),
{
    seq_eq(chars_of(a).as_slice(), chars_of(b).as_slice())
}

pub open spec fn same_opt_text(a: Option<String>, b: Option<String>) -> bool {
    match (a, b) {
        (Some(x), Some(y)) => x@ == y@,
        (None, None) => true,
        _ => false,
    }
}

fn same_opt(a: &Option<String>, b: &Option<String>) -> (r: bool)
    ensures
        r == same_opt_text(*a, *b),
{
    match a {
        Some(x) => match b {
            Some(y) => same_text(x.as_str(), y.as_str()),
            None => false,
        },
        None => b.is_none(),
    }
}

/// Two identities agree in every recorded field but the drive letter.
pub open spec fn same_identity(a: VolumeIdentity, b: VolumeIdentity) -> bool {
    &&& a.disk_guid@ == b.disk_guid@
    &&& a.partition_guid@ == b.partition_guid@
    &&& a.volume_guid@ == b.volume_guid@
    &&& a.partition_type_guid@ == b.partition_type_guid@
    &&& a.disk_number == b.disk_number
    &&& a.partition_number == b.partition_number
    &&& a.partition_offset == b.partition_offset
    &&& a.partition_size == b.partition_size
    &&& a.filesystem@ == b.filesystem@
    &&& a.volume_serial@ == b.volume_serial@
}

fn identity_agrees(a: &VolumeIdentity, b: &VolumeIdentity) -> (r: bool)
    ensures
        r == same_identity(*a, *b),
{
    same_text(a.disk_guid.as_str(), b.disk_guid.as_str()) && same_text(
        a.partition_guid.as_str(),
        b.partition_guid.as_str(),
    ) && same_text(a.volume_guid.as_str(), b.volume_guid.as_str()) && same_text(
        a.partition_type_guid.as_str(),
        b.partition_type_guid.as_str(),
    ) && a.disk_number == b.disk_number && a.partition_number == b.partition_number
        && a.partition_offset == b.partition_offset && a.partition_size == b.partition_size
        && same_text(a.filesystem.as_str(), b.filesystem.as_str()) && same_text(
        a.volume_serial.as_str(),
        b.volume_serial.as_str(),
    )
}

pub open spec fn same_opt_identity(a: Option<VolumeIdentity>, b: Option<VolumeIdentity>) -> bool {
    match (a, b) {
        (Some(x), Some(y)) => same_identity(x, y),
        (None, None) => true,
        _ => false,
    }
}

fn opt_identity_agrees(a: &Option<VolumeIdentity>, b: &Option<VolumeIdentity>) -> (r: bool)
    ensures
        r == same_opt_identity(*a, *b),
{
    match a {
        Some(x) => match b {
            Some(y) => identity_agrees(x, y),
            None => false,
        },
        None => b.is_none(),
    }
}

pub open spec fn same_image(a: Option<ImageSpec>, b: Option<ImageSpec>) -> bool {
    match (a, b) {
        (Some(x), Some(y)) => same_identity(x.volume, y.volume) && same_opt_text(x.absolute_path, y.absolute_path)
            && x.relative_path@ == y.relative_path@ && x.sha256@ == y.sha256@ && x.size_bytes
            == y.size_bytes && x.index == y.index,
        (None, None) => true,
        _ => false,
    }
}

fn image_agrees(a: &Option<ImageSpec>, b: &Option<ImageSpec>) -> (r: bool)
    ensures
        r == same_image(*a, *b),
{
    match a {
        Some(x) => match b {
            Some(y) => identity_agrees(&x.volume, &y.volume) && same_opt(&x.absolute_path, &y.absolute_path)
                && same_text(x.relative_path.as_str(), y.relative_path.as_str()) && same_text(
                x.sha256.as_str(),
                y.sha256.as_str(),
            ) && x.size_bytes == y.size_bytes && x.index == y.index,
            None => false,
        },
        None => b.is_none(),
    }
}

pub open spec fn same_destination(a: Option<DestinationSpec>, b: Option<DestinationSpec>) -> bool {
    match (a, b) {
        (Some(x), Some(y)) => same_identity(x.volume, y.volume) && same_opt_text(x.absolute_path, y.absolute_path)
            && x.relative_path@ == y.relative_path@,
        (None, None) => true,
        _ => false,
    }
}

fn destination_agrees(a: &Option<DestinationSpec>, b: &Option<DestinationSpec>) -> (r: bool)
    ensures
        r == same_destination(*a, *b),
{
    match a {
        Some(x) => match b {
            Some(y) => identity_agrees(&x.volume, &y.volume) && same_opt(&x.absolute_path, &y.absolute_path)
                && same_text(x.relative_path.as_str(), y.relative_path.as_str()),
            None => false,
        },
        None => b.is_none(),
    }
}

pub open spec fn same_target(a: Option<TargetSpec>, b: Option<TargetSpec>) -> bool {
    match (a, b) {
        (Some(x), Some(y)) => same_identity(x.volume, y.volume) && x.role == y.role && same_opt_text(
            x.boot_menu_name,
            y.boot_menu_name,
        ) && x.minimum_size_bytes == y.minimum_size_bytes,
        (None, None) => true,
        _ => false,
    }
}

fn target_agrees(a: &Option<TargetSpec>, b: &Option<TargetSpec>) -> (r: bool)
    ensures
        r == same_target(*a, *b),
{
    match a {
        Some(x) => match b {
            Some(y) => identity_agrees(&x.volume, &y.volume) && x.role == y.role && same_opt(
                &x.boot_menu_name,
                &y.boot_menu_name,
            ) && x.minimum_size_bytes == y.minimum_size_bytes,
            None => false,
        },
        None => b.is_none(),
    }
}

pub open spec fn same_manifest(a: Option<PayloadManifest>, b: Option<PayloadManifest>) -> bool {
    match (a, b) {
        (Some(x), Some(y)) => x.task_id@ == y.task_id@ && x.recovery_sha256@ == y.recovery_sha256@
            && x.task_sha256@ == y.task_sha256@ && x.original_winre_sha256@ == y.original_winre_sha256@
            && x.staged_winre_sha256@ == y.staged_winre_sha256@ && x.created_by_version@
            == y.created_by_version@ && same_opt_text(x.recovery_task_env_sha256, y.recovery_task_env_sha256),
        (None, None) => true,
        _ => false,
    }
}

fn manifest_agrees(a: &Option<PayloadManifest>, b: &Option<PayloadManifest>) -> (r: bool)
    ensures
        r == same_manifest(*a, *b),
{
    match a {
        Some(x) => match b {
            Some(y) => same_text(x.task_id.as_str(), y.task_id.as_str()) && same_text(
                x.recovery_sha256.as_str(),
                y.recovery_sha256.as_str(),
            ) && same_text(x.task_sha256.as_str(), y.task_sha256.as_str()) && same_text(
                x.original_winre_sha256.as_str(),
                y.original_winre_sha256.as_str(),
            ) && same_text(x.staged_winre_sha256.as_str(), y.staged_winre_sha256.as_str())
                && same_text(x.created_by_version.as_str(), y.created_by_version.as_str())
                && same_opt(&x.recovery_task_env_sha256, &y.recovery_task_env_sha256),
            None => false,
        },
        None => b.is_none(),
    }
}

/// The immutable payload copy of a task describes the same task as the
/// workspace record: every field agrees except the stage, which moves on
/// during a recovery, and the drive letters, which WinRE assigns anew.
pub open spec fn payload_agrees(p: Task, w: Task) -> bool {
    &&& p.task_id@ == w.task_id@
    &&& p.version == w.version
    &&& p.operation == w.operation
    &&& same_opt_identity(p.source, w.source)
    &&& same_opt_identity(p.workspace_volume, w.workspace_volume)
    &&& same_image(p.image, w.image)
    &&& same_destination(p.destination, w.destination)
    &&& same_target(p.target, w.target)
    &&& p.boot_plan.mode == w.boot_plan.mode
    &&& same_opt_text(p.boot_plan.previous_bcd_sha256, w.boot_plan.previous_bcd_sha256)
    &&& same_opt_text(p.boot_plan.menu_name, w.boot_plan.menu_name)
    &&& p.boot_plan.boot_sequence_requested == w.boot_plan.boot_sequence_requested
    &&& p.created == w.created
    &&& p.boot_once == w.boot_once
    &&& same_manifest(p.payload, w.payload)
}

pub fn check_payload_task(payload: &Task, workspace: &Task) -> (r: Result<(), TaskError>)
    ensures
        r is Ok <==> payload_agrees(*payload, *workspace),
        r matches Err(e) ==> e == TaskError::Invalid(e->Invalid_0) && e->Invalid_0@
            == "payload task does not match the workspace task prepared for this recovery"@,
{
    let agrees = same_text(payload.task_id.as_str(), workspace.task_id.as_str()) && payload.version
        == workspace.version && payload.operation == workspace.operation && opt_identity_agrees(
        &payload.source,
        &workspace.source,
    ) && opt_identity_agrees(&payload.workspace_volume, &workspace.workspace_volume)
        && image_agrees(&payload.image, &workspace.image) && destination_agrees(
        &payload.destination,
        &workspace.destination,
    ) && target_agrees(&payload.target, &workspace.target) && payload.boot_plan.mode
        == workspace.boot_plan.mode && same_opt(
        &payload.boot_plan.previous_bcd_sha256,
        &workspace.boot_plan.previous_bcd_sha256,
    ) && same_opt(&payload.boot_plan.menu_name, &workspace.boot_plan.menu_name)
        && payload.boot_plan.boot_sequence_requested == workspace.boot_plan.boot_sequence_requested
        && payload.created.unix_seconds == workspace.created.unix_seconds
        && payload.created.nanos == workspace.created.nanos && payload.boot_once
        == workspace.boot_once && manifest_agrees(&payload.payload, &workspace.payload);
    if !agrees {
        return Err(invalid("payload task does not match the workspace task prepared for this recovery"));
    }
    Ok(())
}

/// Drive letters and the stage never decide whether the payload agrees:
/// letters may be cleared on either side and the stage may differ.
pub proof fn lemma_payload_agreement_ignores_letters_and_stage(p: Task, w: Task, s: Stage)
    ensures
        payload_agrees(p, w) == payload_agrees(letters_cleared(p), letters_cleared(w)),
        payload_agrees(p, w) == payload_agrees(Task { status: s, ..p }, w),
{
}

/// Agreement is an equivalence: every task agrees with itself, and it
/// is symmetric and transitive.
pub proof fn lemma_payload_agreement_is_equivalence(a: Task, b: Task, c: Task)
    ensures
        payload_agrees(a, a),
        payload_agrees(a, b) ==> payload_agrees(b, a),
        payload_agrees(a, b) && payload_agrees(b, c) ==> payload_agrees(a, c),
{
}

/// The image file on disk has the size the task recorded (a recorded size
/// of 0 means none was recorded).
pub fn check_image_size(image: &ImageSpec, size: u64) -> (r: Result<(), TaskError>)
    ensures
        r is Ok <==> image.size_bytes == 0 || size == image.size_bytes,
        r matches Err(e) ==> e == TaskError::Invalid(e->Invalid_0) && e->Invalid_0@ == "image size mismatch: expected "@
            + decimal(image.size_bytes as nat) + ", got "@ + decimal(size as nat),
{
    if image.size_bytes != 0 && size != image.size_bytes {
        let mut text = chars_of("image size mismatch: expected ");
        let mut expected = u64_decimal(image.size_bytes);
        let mut sep = chars_of(", got ");
        let mut got = u64_decimal(size);
        text.append(&mut expected);
        text.append(&mut sep);
        text.append(&mut got);
        return Err(TaskError::Invalid(string_from(text.as_slice())));
    }
    Ok(())
}

/// A task that already reached `success` or `failed` is not run again.
pub fn check_not_terminal(stage: Stage) -> (r: Result<(), TaskError>)
    ensures
        r is Ok <==> !terminal(stage),
        r matches Err(e) ==> e == TaskError::Invalid(e->Invalid_0) && e->Invalid_0@ == "task is already terminal at stage "@
            + crate::plan::stage_label(stage) + "; refusing to run it again"@,
{
    if stage == Stage::Success || stage == Stage::Failed {
        let mut text = chars_of("task is already terminal at stage ");
        let mut name = chars_of(crate::plan::stage_name(stage));
        let mut tail = chars_of("; refusing to run it again");
        text.append(&mut name);
        text.append(&mut tail);
        return Err(TaskError::Invalid(string_from(text.as_slice())));
    }
    Ok(())
}

} // verus!
