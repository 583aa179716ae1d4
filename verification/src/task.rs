//! Validation of task records, stage transitions and the operation guards.
use vstd::prelude::*;
use crate::model::{complete, required_size, reserved, same_partition, transition_allowed, BackupMetadata, BootMode, BootPlan, DestinationSpec, ImageSpec, Operation, Stage, StatusRecord, TargetRole, TargetSpec, Task, TaskError, VolumeIdentity, TASK_VERSION};
use crate::outside::{hyphenated_uuid_text, parse_uuid, random_uuid, uuid_canonical, uuid_text_length};
use crate::paths::{absolute_path_ok, invalid, relative_path_ok, validate_absolute_path, validate_relative_path};
use crate::text::{eq_ic, all_hex, all_hexdigits, all_ws, any_control, chars_of, has_ctrl};
use crate::time::now;
use crate::number::{decimal, u64_decimal};

verus! {

/// The refusal of a record written for another task format version.
pub open spec fn version_refusal(version: u32) -> Seq<char> {
    "unsupported task version "@ + decimal(version as nat) + " (expected "@ + decimal(TASK_VERSION as nat) + ")"@
}


/// Text of a SHA-256 digest: 64 hexadecimal digits, either case.
pub open spec fn sha256_text(s: Seq<char>) -> bool {
    s.len() == 64 && all_hex(s)
}

/// A boot menu name: at most 256 characters and no control characters.
pub open spec fn menu_name_ok(s: Seq<char>) -> bool {
    s.len() <= 256 && !has_ctrl(s)
}

/// A task id: text that `uuid` accepts as a UUID.
pub open spec fn task_id_ok(s: Seq<char>) -> bool {
    uuid_canonical(s) is Some
}

/// `Option<String>::as_deref().unwrap_or("")`.
pub open spec fn text_or_empty(o: Option<String>) -> Seq<char> {
    match o {
        Some(s) => s@,
        None => Seq::<char>::empty(),
    }
}

/// The payload manifest belongs to the task and records four digests.
pub open spec fn payload_ok(t: Task) -> bool {
    t.payload matches Some(p) ==> {
        &&& p.task_id@ == t.task_id@
        &&& sha256_text(p.recovery_sha256@)
        &&& sha256_text(p.task_sha256@)
        &&& sha256_text(p.original_winre_sha256@)
        &&& sha256_text(p.staged_winre_sha256@)
    }
}

/// What a probe task must hold: a complete source and nothing to write.
pub open spec fn probe_ok(t: Task) -> bool {
    &&& t.source matches Some(s) && complete(s)
    &&& t.image is None
    &&& t.destination is None
    &&& t.target is None
}

/// What a backup task must hold: a complete source, and a destination on
/// another, non-reserved partition at valid paths; no image and no target.
pub open spec fn backup_ok(t: Task) -> bool {
    &&& t.source matches Some(s) && t.destination matches Some(d) && {
        &&& complete(s)
        &&& complete(d.volume)
        &&& !same_partition(s, d.volume)
        &&& !reserved(d.volume)
        &&& (d.absolute_path matches Some(p) ==> absolute_path_ok(p@))
        &&& relative_path_ok(d.relative_path@)
    }
    &&& t.image is None
    &&& t.target is None
}

/// What both restore operations must hold: complete source, image and
/// target; the image on its own non-reserved partition at valid paths, with
/// a digest, a non-zero index and size; a non-reserved target with a
/// minimum size that differs from the image volume.
pub open spec fn restore_common_ok(s: VolumeIdentity, i: ImageSpec, g: TargetSpec) -> bool {
    &&& complete(s)
    &&& complete(i.volume)
    &&& complete(g.volume)
    &&& !same_partition(s, i.volume)
    &&& !reserved(i.volume)
    &&& (i.absolute_path matches Some(p) ==> absolute_path_ok(p@))
    &&& sha256_text(i.sha256@)
    &&& i.index != 0
    &&& i.size_bytes != 0
    &&& g.minimum_size_bytes != 0
    &&& relative_path_ok(i.relative_path@)
    &&& !same_partition(i.volume, g.volume)
    &&& !reserved(g.volume)
}

/// Restoring the existing Windows: the target is the source partition and
/// the boot plan returns to the existing entry.
pub open spec fn restore_existing_ok(t: Task, s: VolumeIdentity, g: TargetSpec) -> bool {
    &&& same_partition(s, g.volume)
    &&& g.role == TargetRole::ExistingWindows
    &&& t.boot_plan.mode == BootMode::ReturnExisting
}

/// Creating a second Windows: another partition, named menu entries and an
/// add-secondary boot plan.
pub open spec fn create_secondary_ok(t: Task, s: VolumeIdentity, g: TargetSpec) -> bool {
    &&& !same_partition(s, g.volume)
    &&& g.role == TargetRole::NewWindows
    &&& !all_ws(text_or_empty(g.boot_menu_name))
    &&& menu_name_ok(text_or_empty(g.boot_menu_name))
    &&& t.boot_plan.mode == BootMode::AddSecondary
    &&& !all_ws(text_or_empty(t.boot_plan.menu_name))
    &&& menu_name_ok(text_or_empty(t.boot_plan.menu_name))
}

pub open spec fn restore_ok(t: Task) -> bool {
    t.source matches Some(s) && t.image matches Some(i) && t.target matches Some(g) && {
        &&& restore_common_ok(s, i, g)
        &&& (t.operation == Operation::RestoreExisting ==> restore_existing_ok(t, s, g))
        &&& (t.operation == Operation::CreateSecondary ==> create_secondary_ok(t, s, g))
    }
}

pub open spec fn operation_ok(t: Task) -> bool {
    match t.operation {
        Operation::Probe => probe_ok(t),
        Operation::Backup => backup_ok(t),
        _ => restore_ok(t),
    }
}

/// The workspace volume is recorded, complete, not reserved, and never the
/// restore target.
pub open spec fn workspace_ok(t: Task) -> bool {
    t.workspace_volume matches Some(w) && {
        &&& complete(w)
        &&& !reserved(w)
        &&& (t.target matches Some(g) ==> !same_partition(w, g.volume))
    }
}

/// A task record the recovery host may act on.
pub open spec fn task_valid(t: Task) -> bool {
    &&& t.version == TASK_VERSION
    &&& task_id_ok(t.task_id@)
    &&& t.boot_once
    &&& !(t.boot_plan.boot_sequence_requested && t.boot_plan.previous_bcd_sha256 is None)
    &&& (t.boot_plan.previous_bcd_sha256 matches Some(h) ==> sha256_text(h@))
    &&& payload_ok(t)
    &&& operation_ok(t)
    &&& workspace_ok(t)
}

/// The progress percentage a stage reports when it is entered.
pub open spec fn progress_of(s: Stage) -> u8 {
    match s {
        Stage::Prepared => 0,
        Stage::BootRequested => 2,
        Stage::RecoveryStarted => 5,
        Stage::Preflight => 10,
        Stage::Capturing => 20,
        Stage::TargetErased => 35,
        Stage::ImageApplied => 75,
        Stage::BootRepaired => 90,
        Stage::Success => 100,
        Stage::Failed => 0,
    }
}

pub fn default_progress(stage: Stage) -> (p: u8)
    ensures
        p == progress_of(stage),
{
    match stage {
        Stage::Prepared => 0,
        Stage::BootRequested => 2,
        Stage::RecoveryStarted => 5,
        Stage::Preflight => 10,
        Stage::Capturing => 20,
        Stage::TargetErased => 35,
        Stage::ImageApplied => 75,
        Stage::BootRepaired => 90,
        Stage::Success => 100,
        Stage::Failed => 0,
    }
}

pub fn valid_menu_name(value: &str) -> (b: bool)
    ensures
        b == menu_name_ok(value@),
{
    let v = chars_of(value);
    v.len() <= 256 && !any_control(v.as_slice())
}

pub fn validate_task_id(value: &str) -> (r: Result<(), TaskError>)
    ensures
        r is Ok <==> task_id_ok(value@),
        r matches Err(e) ==> e == TaskError::Invalid(e->Invalid_0) && e->Invalid_0@ == "task_id is not a UUID"@,
{
    match canonical_task_id(value) {
        Ok(_) => Ok(()),
        Err(e) => Err(e),
    }
}

/// The canonical (hyphenated, lower-case) form of a task id.
pub fn canonical_task_id(value: &str) -> (r: Result<String, TaskError>)
    ensures
        r matches Ok(c) ==> uuid_canonical(value@) == Some(c@) && hyphenated_uuid_text(c@),
        r is Err ==> uuid_canonical(value@) is None,
        !uuid_text_length(value@.len()) ==> r is Err,
        r matches Err(e) ==> e == TaskError::Invalid(e->Invalid_0) && e->Invalid_0@ == "task_id is not a UUID"@,
{
    match parse_uuid(value) {
        Some(c) => Ok(c),
        None => Err(invalid("task_id is not a UUID")),
    }
}

/// `name` followed by `suffix`.
pub fn message(name: &str, suffix: &str) -> (m: String)
    ensures
        m@ == name@ + suffix@,
{
    let mut m = crate::text::owned(name);
    m.append(suffix);
    m
}

/// The error `missing <name>`.
pub fn missing(name: &str) -> (e: TaskError)
    ensures
        e == TaskError::Invalid(e->Invalid_0),
        e->Invalid_0@ == "missing "@ + name@,
{
    TaskError::Invalid(message("missing ", name))
}

pub fn validate_sha256_text(name: &str, value: &str) -> (r: Result<(), TaskError>)
    ensures
        r is Ok <==> sha256_text(value@),
        r matches Err(e) ==> e == TaskError::Invalid(e->Invalid_0)
            && e->Invalid_0@ == name@ + " sha256 must be 64 hex characters"@,
{
    let v = chars_of(value);
    if v.len() != 64 || !all_hexdigits(v.as_slice()) {
        return Err(TaskError::Invalid(message(name, " sha256 must be 64 hex characters")));
    }
    Ok(())
}

pub fn require_complete(name: &str, identity: &VolumeIdentity) -> (r: Result<(), TaskError>)
    ensures
        r is Ok <==> complete(*identity),
        r matches Err(e) ==> e == TaskError::Invalid(e->Invalid_0)
            && e->Invalid_0@ == name@ + " identity is incomplete"@,
{
    if identity.is_complete() {
        Ok(())
    } else {
        Err(TaskError::Invalid(message(name, " identity is incomplete")))
    }
}

fn optional_text_blank(o: &Option<String>) -> (b: bool)
    ensures
        b == all_ws(text_or_empty(*o)),
{
    match o {
        Some(s) => crate::text::str_is_blank(s.as_str()),
        None => true,
    }
}

fn optional_menu_name_ok(o: &Option<String>) -> (b: bool)
    ensures
        b == menu_name_ok(text_or_empty(*o)),
{
    match o {
        Some(s) => valid_menu_name(s.as_str()),
        None => {
            proof {
                assert(!has_ctrl(Seq::<char>::empty()));
            }
            true
        },
    }
}

impl Task {
    /// A fresh task at `prepared` with a random id, created now.
    pub fn new(operation: Operation, boot_plan: BootPlan) -> (t: Task)
        ensures
            task_id_ok(t.task_id@),
            uuid_canonical(t.task_id@) == Some(t.task_id@),
            hyphenated_uuid_text(t.task_id@),
            t.version == TASK_VERSION,
            t.operation == operation,
            t.source is None,
            t.workspace_volume is None,
            t.image is None,
            t.destination is None,
            t.target is None,
            t.boot_plan == boot_plan,
            t.boot_once,
            t.status == Stage::Prepared,
            t.payload is None,
    {
        Task {
            task_id: random_uuid(),
            version: TASK_VERSION,
            operation,
            source: None,
            workspace_volume: None,
            image: None,
            destination: None,
            target: None,
            boot_plan,
            created: now(),
            boot_once: true,
            status: Stage::Prepared,
            payload: None,
        }
    }

    /// Check a task record against every rule the recovery host relies on.
    pub fn validate(&self) -> (r: Result<(), TaskError>)
        ensures
            r is Ok <==> task_valid(*self),
            r matches Err(e) ==> e is Invalid,
            self.version != TASK_VERSION ==> r == Err::<(), TaskError>(TaskError::Invalid(r->Err_0->Invalid_0))
                && r->Err_0->Invalid_0@ == version_refusal(self.version),
    {
        if self.version != TASK_VERSION {
            let mut text = chars_of("unsupported task version ");
            let mut found = u64_decimal(self.version as u64);
            let mut expected = chars_of(" (expected ");
            let mut wanted = u64_decimal(TASK_VERSION as u64);
            let mut close = chars_of(")");
            text.append(&mut found);
            text.append(&mut expected);
            text.append(&mut wanted);
            text.append(&mut close);
            return Err(TaskError::Invalid(crate::text::string_from(text.as_slice())));
        }
        validate_task_id(self.task_id.as_str())?;
        if !self.boot_once {
            return Err(invalid("recovery tasks must use one-time boot"));
        }
        if self.boot_plan.boot_sequence_requested && self.boot_plan.previous_bcd_sha256.is_none() {
            return Err(invalid("boot sequence requires a previous BCD hash for rollback"));
        }
        if let Some(hash) = &self.boot_plan.previous_bcd_sha256 {
            validate_sha256_text("previous BCD", hash.as_str())?;
        }
        if let Some(payload) = &self.payload {
            if !crate::text::seq_eq(
                chars_of(payload.task_id.as_str()).as_slice(),
                chars_of(self.task_id.as_str()).as_slice(),
            ) {
                return Err(invalid("payload task id does not match task id"));
            }
            validate_sha256_text("recovery entry point", payload.recovery_sha256.as_str())?;
            validate_sha256_text("task", payload.task_sha256.as_str())?;
            validate_sha256_text("original WinRE", payload.original_winre_sha256.as_str())?;
            validate_sha256_text("staged WinRE", payload.staged_winre_sha256.as_str())?;
        }
        match self.operation {
            Operation::Probe => {
                let source = match &self.source {
                    Some(s) => s,
                    None => return Err(missing("source")),
                };
                require_complete("probe source", source)?;
                if self.image.is_some() || self.destination.is_some() || self.target.is_some() {
                    return Err(invalid("probe task cannot contain image, destination or target"));
                }
            },
            Operation::Backup => {
                let source = match &self.source {
                    Some(s) => s,
                    None => return Err(missing("source")),
                };
                let dest = match &self.destination {
                    Some(d) => d,
                    None => return Err(missing("destination")),
                };
                require_complete("source", source)?;
                require_complete("destination volume", &dest.volume)?;
                if source.same_partition(&dest.volume) {
                    return Err(invalid("backup destination must differ from source partition"));
                }
                if dest.volume.is_reserved_partition() {
                    return Err(invalid("EFI/MSR/Recovery partitions cannot store backup images"));
                }
                if let Some(path) = &dest.absolute_path {
                    validate_absolute_path(path.as_str())?;
                }
                validate_relative_path(dest.relative_path.as_str())?;
                if self.image.is_some() || self.target.is_some() {
                    return Err(invalid("backup task cannot contain image or target"));
                }
            },
            Operation::RestoreExisting | Operation::CreateSecondary => {
                let source = match &self.source {
                    Some(s) => s,
                    None => return Err(missing("source")),
                };
                let image = match &self.image {
                    Some(i) => i,
                    None => return Err(missing("image")),
                };
                let target = match &self.target {
                    Some(g) => g,
                    None => return Err(missing("target")),
                };
                require_complete("source", source)?;
                require_complete("image volume", &image.volume)?;
                require_complete("target volume", &target.volume)?;
                if source.same_partition(&image.volume) {
                    return Err(invalid("image volume must differ from source volume"));
                }
                if image.volume.is_reserved_partition() {
                    return Err(invalid("EFI/MSR/Recovery partitions cannot store restore images"));
                }
                if let Some(path) = &image.absolute_path {
                    validate_absolute_path(path.as_str())?;
                }
                if validate_sha256_text("image", image.sha256.as_str()).is_err() {
                    return Err(invalid("image sha256 must be 64 hex characters"));
                }
                if image.index == 0 {
                    return Err(invalid("WIM index must be greater than zero"));
                }
                if image.size_bytes == 0 {
                    return Err(invalid("restore image size must be greater than zero"));
                }
                if target.minimum_size_bytes == 0 {
                    return Err(invalid("restore target minimum size must be greater than zero"));
                }
                validate_relative_path(image.relative_path.as_str())?;
                if image.volume.same_partition(&target.volume) {
                    return Err(invalid("image volume must differ from restore target"));
                }
                if target.volume.is_reserved_partition() {
                    return Err(invalid("EFI/MSR/Recovery partitions cannot be restore targets"));
                }
                if self.operation == Operation::RestoreExisting {
                    if !source.same_partition(&target.volume) {
                        return Err(invalid("restore-existing target must be the existing Windows source volume"));
                    }
                    if target.role != TargetRole::ExistingWindows {
                        return Err(invalid("restore-existing target role must be existing-windows"));
                    }
                    if self.boot_plan.mode != BootMode::ReturnExisting {
                        return Err(invalid("restore-existing must return to the existing boot entry"));
                    }
                } else {
                    if source.same_partition(&target.volume) {
                        return Err(invalid("secondary target must differ from the existing Windows source"));
                    }
                    if target.role != TargetRole::NewWindows {
                        return Err(invalid("create-secondary target role must be new-windows"));
                    }
                    if optional_text_blank(&target.boot_menu_name) {
                        return Err(invalid("create-secondary requires a boot menu name"));
                    }
                    if !optional_menu_name_ok(&target.boot_menu_name) {
                        return Err(invalid("create-secondary boot menu name contains control characters or is too long"));
                    }
                    if self.boot_plan.mode != BootMode::AddSecondary {
                        return Err(invalid("create-secondary must use add-secondary boot mode"));
                    }
                    if optional_text_blank(&self.boot_plan.menu_name) {
                        return Err(invalid("create-secondary requires a boot plan menu name"));
                    }
                    if !optional_menu_name_ok(&self.boot_plan.menu_name) {
                        return Err(invalid("create-secondary boot plan menu name contains control characters or is too long"));
                    }
                }
            },
        }
        let workspace_volume = match &self.workspace_volume {
            Some(w) => w,
            None => return Err(missing("workspace volume")),
        };
        require_complete("workspace volume", workspace_volume)?;
        if workspace_volume.is_reserved_partition() {
            return Err(invalid("EFI/MSR/Recovery partitions cannot store workspace files"));
        }
        if let Some(target) = &self.target {
            if workspace_volume.same_partition(&target.volume) {
                return Err(invalid("workspace volume must differ from restore target"));
            }
        }
        Ok(())
    }

    /// Move the task to `next` if the state machine allows it, and describe
    /// the new stage as a status record.
    pub fn transition(&mut self, next: Stage) -> (r: Result<StatusRecord, TaskError>)
        ensures
            r is Ok <==> transition_allowed(old(self).status, next),
            r matches Ok(rec) ==> {
                &&& *final(self) == (Task { status: next, ..*old(self) })
                &&& rec.task_id@ == old(self).task_id@
                &&& rec.operation == old(self).operation
                &&& rec.stage == next
                &&& rec.progress == progress_of(next)
                &&& rec.error_code is None
                &&& rec.error is None
            },
            r matches Err(e) ==> {
                &&& *final(self) == *old(self)
                &&& e == (TaskError::InvalidTransition { from: old(self).status, to: next })
            },
    {
        if !self.status.can_transition_to(next) {
            return Err(TaskError::InvalidTransition { from: self.status, to: next });
        }
        self.status = next;
        Ok(StatusRecord {
            task_id: self.task_id.clone(),
            operation: self.operation,
            stage: next,
            progress: default_progress(next),
            updated: now(),
            error_code: None,
            error: None,
        })
    }
}

/// The three volumes of a restore are complete, the image is on its own
/// partition (and, for restores, not on the target), and the target is not
/// reserved.
pub open spec fn operation_volumes_ok(
    operation: Operation,
    source: VolumeIdentity,
    image: VolumeIdentity,
    target: VolumeIdentity,
) -> bool {
    &&& complete(source)
    &&& complete(image)
    &&& complete(target)
    &&& !same_partition(source, image)
    &&& !((operation == Operation::RestoreExisting || operation == Operation::CreateSecondary)
        && same_partition(image, target))
    &&& !reserved(target)
}

pub fn validate_operation(
    operation: Operation,
    source: &VolumeIdentity,
    image: &VolumeIdentity,
    target: &VolumeIdentity,
) -> (r: Result<(), TaskError>)
    ensures
        r is Ok <==> operation_volumes_ok(operation, *source, *image, *target),
        r matches Err(e) ==> e is Invalid,
{
    require_complete("source", source)?;
    require_complete("image", image)?;
    require_complete("target", target)?;
    if source.same_partition(image) {
        return Err(invalid("image volume must differ from source volume"));
    }
    if (operation == Operation::RestoreExisting || operation == Operation::CreateSecondary)
        && image.same_partition(target) {
        return Err(invalid("image volume must differ from restore target"));
    }
    if target.is_reserved_partition() {
        return Err(invalid("reserved partition cannot be target"));
    }
    Ok(())
}

pub fn ensure_capacity(target_size: u64, metadata: &BackupMetadata) -> (r: Result<(), TaskError>)
    ensures
        r is Ok <==> target_size >= required_size(*metadata),
        r matches Err(e) ==> e is Invalid,
        r matches Err(e) ==> e->Invalid_0@ == "target disk space insufficient: "@ + decimal(target_size as nat) + " < "@
            + decimal(required_size(*metadata) as nat),
{
    let required = metadata.required_target_size();
    if target_size < required {
        let mut text = chars_of("target disk space insufficient: ");
        let mut have = u64_decimal(target_size);
        let mut sep = chars_of(" < ");
        let mut need = u64_decimal(required);
        text.append(&mut have);
        text.append(&mut sep);
        text.append(&mut need);
        return Err(TaskError::Invalid(crate::text::string_from(text.as_slice())));
    }
    Ok(())
}

#[derive(Debug, Clone, Copy, PartialEq, Eq, Structural)]
pub enum BitLockerState {
    Disabled,
    Unlocked,
    Protected,
    Unknown,
}

/// Recovery proceeds only when every volume is unencrypted or unlocked.
pub fn ensure_bitlocker_accessible(states: &[BitLockerState]) -> (r: Result<(), TaskError>)
    ensures
        r is Ok <==> forall|i: int| 0 <= i < states@.len() ==>
            (#[trigger] states@[i] == BitLockerState::Disabled || states@[i] == BitLockerState::Unlocked),
        r matches Err(e) ==> e is Invalid,
{
    for i in 0..states.len()
        invariant
            forall|j: int| 0 <= j < i ==> (#[trigger] states@[j] == BitLockerState::Disabled || states@[j] == BitLockerState::Unlocked),
    {
        if states[i] == BitLockerState::Protected || states[i] == BitLockerState::Unknown {
            return Err(invalid("BitLocker is enabled or volume accessibility is unknown; suspend/unlock manually before V1 recovery"));
        }
    }
    Ok(())
}

} // verus!

verus! {

pub open spec fn without_letter(v: VolumeIdentity) -> VolumeIdentity {
    VolumeIdentity { drive_letter: None, ..v }
}

/// The task with every recorded drive letter removed.
pub open spec fn letters_cleared(t: Task) -> Task {
    Task {
        source: match t.source {
            Some(s) => Some(without_letter(s)),
            None => None,
        },
        workspace_volume: match t.workspace_volume {
            Some(w) => Some(without_letter(w)),
            None => None,
        },
        image: match t.image {
            Some(i) => Some(ImageSpec { volume: without_letter(i.volume), ..i }),
            None => None,
        },
        destination: match t.destination {
            Some(d) => Some(DestinationSpec { volume: without_letter(d.volume), ..d }),
            None => None,
        },
        target: match t.target {
            Some(g) => Some(TargetSpec { volume: without_letter(g.volume), ..g }),
            None => None,
        },
        ..t
    }
}

/// Forget the drive letters a task recorded. Letters are hints that change
/// between Windows and WinRE; comparisons of two task records ignore them.
pub fn clear_task_drive_letters(task: &mut Task)
    ensures
        *final(task) == letters_cleared(*old(task)),
{
    if let Some(source) = &mut task.source {
        source.drive_letter = None;
    }
    if let Some(workspace) = &mut task.workspace_volume {
        workspace.drive_letter = None;
    }
    if let Some(image) = &mut task.image {
        image.volume.drive_letter = None;
    }
    if let Some(destination) = &mut task.destination {
        destination.volume.drive_letter = None;
    }
    if let Some(target) = &mut task.target {
        target.volume.drive_letter = None;
    }
}

/// Drive letters are temporary hints, never identity: whether a task is
/// valid does not depend on them.
pub proof fn lemma_validity_ignores_drive_letters(t: Task)
    ensures
        task_valid(t) == task_valid(letters_cleared(t)),
{
}

/// Two records that differ only in drive letters are both valid or both
/// invalid.
pub proof fn lemma_drive_letters_never_decide_validity(a: Task, b: Task)
    requires
        letters_cleared(a) == letters_cleared(b),
    ensures
        task_valid(a) == task_valid(b),
{
    lemma_validity_ignores_drive_letters(a);
    lemma_validity_ignores_drive_letters(b);
}

/// A valid restore never overwrites the partition holding its image or the
/// program workspace, and never targets an EFI, MSR or recovery partition.
pub proof fn lemma_valid_restore_protects_image_and_workspace(t: Task)
    requires
        task_valid(t),
        t.operation == Operation::RestoreExisting || t.operation == Operation::CreateSecondary,
    ensures
        t.image matches Some(i) && t.target matches Some(g) && t.workspace_volume matches Some(w)
            && !same_partition(i.volume, g.volume) && !same_partition(w, g.volume)
            && !reserved(g.volume),
{
}

/// A valid backup writes its image to a partition other than the one it
/// captures, and never to a reserved one.
pub proof fn lemma_valid_backup_writes_elsewhere(t: Task)
    requires
        task_valid(t),
        t.operation == Operation::Backup,
    ensures
        t.source matches Some(s) && t.destination matches Some(d)
            && !same_partition(s, d.volume) && !reserved(d.volume),
{
}

/// A valid create-secondary task puts the new Windows on another partition
/// than the running one: the target's disk GUID or partition GUID differs
/// from the source's (ASCII case ignored), and the target is a new Windows.
pub proof fn lemma_secondary_target_is_another_partition(t: Task)
    requires
        task_valid(t),
        t.operation == Operation::CreateSecondary,
    ensures
        t.source matches Some(s) && t.target matches Some(g) && (!eq_ic(s.disk_guid@, g.volume.disk_guid@)
            || !eq_ic(s.partition_guid@, g.volume.partition_guid@)) && g.role == TargetRole::NewWindows
            && t.boot_plan.mode == BootMode::AddSecondary,
{
}

/// A valid restore of the existing Windows writes back onto the very
/// partition it was taken from: the target's disk and partition GUIDs are
/// the source's (ASCII case ignored).
pub proof fn lemma_restore_existing_targets_the_source(t: Task)
    requires
        task_valid(t),
        t.operation == Operation::RestoreExisting,
    ensures
        t.source matches Some(s) && t.target matches Some(g) && eq_ic(s.disk_guid@, g.volume.disk_guid@)
            && eq_ic(s.partition_guid@, g.volume.partition_guid@) && g.role == TargetRole::ExistingWindows
            && t.boot_plan.mode == BootMode::ReturnExisting,
{
}

/// Naming the same partition is an equivalence between identities.
pub proof fn lemma_same_partition_is_equivalence(a: VolumeIdentity, b: VolumeIdentity, c: VolumeIdentity)
    ensures
        same_partition(a, a),
        same_partition(a, b) ==> same_partition(b, a),
        same_partition(a, b) && same_partition(b, c) ==> same_partition(a, c),
{
}

} // verus!
