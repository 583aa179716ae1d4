//! The task model shared by the preparing front end and the recovery host:
//! operations, stages, volume identities and the records stored per task.
use vstd::prelude::*;
use crate::text::{
    all_ws, chars_of, eq_ic, lower_seq, owned, str_eq_ignore_ascii_case, str_is_blank,
    to_ascii_lowercase,
};
use crate::time::Timestamp;

verus! {

/// Version written into and required of every task record.
pub const TASK_VERSION: u32 = 1;

/// How many terminal tasks keep their artifacts by default.
pub const DEFAULT_TERMINAL_TASK_RETENTION: usize = 3;

/// Errors the library reports. I/O and JSON failures belong to the host
/// program, which adds its own variants around these.
#[derive(Debug, Clone, PartialEq, Eq)]
pub enum TaskError {
    Invalid(String),
    InvalidTransition { from: Stage, to: Stage },
}

#[derive(Debug, Clone, Copy, PartialEq, Eq, Structural)]
pub enum Operation {
    /// Non-destructive wiring/WinRE probe used for diagnostics.
    Probe,
    Backup,
    RestoreExisting,
    CreateSecondary,
}

#[derive(Debug, Clone, Copy, PartialEq, Eq, Structural)]
pub enum Stage {
    Prepared,
    BootRequested,
    RecoveryStarted,
    Preflight,
    Capturing,
    TargetErased,
    ImageApplied,
    BootRepaired,
    Success,
    Failed,
}

/// The recovery state machine: the stage pairs a task may move between.
pub open spec fn transition_allowed(from: Stage, to: Stage) -> bool {
    match (from, to) {
        (Stage::Prepared, Stage::BootRequested) => true,
        (Stage::Prepared, Stage::RecoveryStarted) => true,
        (Stage::Prepared, Stage::Failed) => true,
        (Stage::BootRequested, Stage::RecoveryStarted) => true,
        (Stage::BootRequested, Stage::Failed) => true,
        (Stage::RecoveryStarted, Stage::Preflight) => true,
        (Stage::RecoveryStarted, Stage::Failed) => true,
        (Stage::Preflight, Stage::Capturing) => true,
        (Stage::Preflight, Stage::TargetErased) => true,
        (Stage::Preflight, Stage::Success) => true,
        (Stage::Preflight, Stage::Failed) => true,
        (Stage::Capturing, Stage::Success) => true,
        (Stage::Capturing, Stage::Failed) => true,
        (Stage::TargetErased, Stage::ImageApplied) => true,
        (Stage::TargetErased, Stage::Failed) => true,
        (Stage::ImageApplied, Stage::BootRepaired) => true,
        (Stage::ImageApplied, Stage::Failed) => true,
        (Stage::BootRepaired, Stage::Success) => true,
        (Stage::BootRepaired, Stage::Failed) => true,
        _ => false,
    }
}

/// Stages at which the restore target no longer holds its old contents.
pub open spec fn destructive(s: Stage) -> bool {
    s == Stage::TargetErased || s == Stage::ImageApplied || s == Stage::BootRepaired
}

/// Stages after which nothing more happens to a task.
pub open spec fn terminal(s: Stage) -> bool {
    s == Stage::Success || s == Stage::Failed
}

/// Position of a stage in the order a recovery runs.
pub open spec fn stage_rank(s: Stage) -> nat {
    match s {
        Stage::Prepared => 0,
        Stage::BootRequested => 1,
        Stage::RecoveryStarted => 2,
        Stage::Preflight => 3,
        Stage::Capturing => 4,
        Stage::TargetErased => 5,
        Stage::ImageApplied => 6,
        Stage::BootRepaired => 7,
        Stage::Success => 8,
        Stage::Failed => 9,
    }
}

impl Stage {
    pub fn can_transition_to(self, next: Self) -> (b: bool)
        ensures
            b == transition_allowed(self, next),
    {
        match (self, next) {
            (Stage::Prepared, Stage::BootRequested) => true,
            (Stage::Prepared, Stage::RecoveryStarted) => true,
            (Stage::Prepared, Stage::Failed) => true,
            (Stage::BootRequested, Stage::RecoveryStarted) => true,
            (Stage::BootRequested, Stage::Failed) => true,
            (Stage::RecoveryStarted, Stage::Preflight) => true,
            (Stage::RecoveryStarted, Stage::Failed) => true,
            (Stage::Preflight, Stage::Capturing) => true,
            (Stage::Preflight, Stage::TargetErased) => true,
            (Stage::Preflight, Stage::Success) => true,
            (Stage::Preflight, Stage::Failed) => true,
            (Stage::Capturing, Stage::Success) => true,
            (Stage::Capturing, Stage::Failed) => true,
            (Stage::TargetErased, Stage::ImageApplied) => true,
            (Stage::TargetErased, Stage::Failed) => true,
            (Stage::ImageApplied, Stage::BootRepaired) => true,
            (Stage::ImageApplied, Stage::Failed) => true,
            (Stage::BootRepaired, Stage::Success) => true,
            (Stage::BootRepaired, Stage::Failed) => true,
            _ => false,
        }
    }

    pub fn is_destructive_boundary(self) -> (b: bool)
        ensures
            b == destructive(self),
    {
        match self {
            Stage::TargetErased | Stage::ImageApplied | Stage::BootRepaired => true,
            _ => false,
        }
    }

    pub fn is_incomplete(self) -> (b: bool)
        ensures
            b == !terminal(self),
    {
        match self {
            Stage::Success | Stage::Failed => false,
            _ => true,
        }
    }
}

/// A finished task never moves again: `success` and `failed` have no
/// outgoing transition.
pub proof fn lemma_terminal_stages_are_final(from: Stage, to: Stage)
    requires
        terminal(from),
    ensures
        !transition_allowed(from, to),
{
}

/// Every unfinished stage can be abandoned as `failed`, and only those.
pub proof fn lemma_failure_always_reachable(s: Stage)
    ensures
        transition_allowed(s, Stage::Failed) <==> !terminal(s),
{
}

/// Transitions only move forward in the recovery order, so no sequence of
/// transitions ever returns to an earlier stage.
pub proof fn lemma_transitions_move_forward(from: Stage, to: Stage)
    requires
        transition_allowed(from, to),
    ensures
        stage_rank(from) < stage_rank(to),
{
}

/// The only way into the destructive stages is `preflight` to
/// `target-erased`; every other step into one starts inside them.
pub proof fn lemma_destructive_entered_only_after_preflight(from: Stage, to: Stage)
    requires
        transition_allowed(from, to),
        destructive(to),
    ensures
        destructive(from) || (from == Stage::Preflight && to == Stage::TargetErased),
{
}

/// A backup capture never leads into a destructive stage.
pub proof fn lemma_capture_is_not_destructive(to: Stage)
    requires
        transition_allowed(Stage::Capturing, to),
    ensures
        !destructive(to),
{
}

/// Stable identity of a GPT partition as recorded when a task is prepared.
#[derive(Debug, Clone, PartialEq, Eq)]
pub struct VolumeIdentity {
    pub disk_guid: String,
    pub partition_guid: String,
    /// `mountvol` volume GUID path; empty for imported old tasks.
    pub volume_guid: String,
    pub partition_type_guid: String,
    pub disk_number: Option<u32>,
    pub partition_number: Option<u32>,
    pub partition_offset: u64,
    pub partition_size: u64,
    pub filesystem: String,
    pub volume_serial: String,
    /// A drive letter is only a temporary recovery parameter, never identity.
    pub drive_letter: Option<char>,
}

/// Every identity field a recovery relies on is present.
pub open spec fn complete(v: VolumeIdentity) -> bool {
    &&& !all_ws(v.disk_guid@)
    &&& !all_ws(v.partition_guid@)
    &&& !all_ws(v.volume_guid@)
    &&& v.disk_number is Some
    &&& v.partition_number is Some
    &&& !all_ws(v.partition_type_guid@)
    &&& !all_ws(v.filesystem@)
    &&& v.partition_size > 0
}

/// The two identities name the same partition: equal disk and partition
/// GUIDs, ignoring ASCII case.
pub open spec fn same_partition(a: VolumeIdentity, b: VolumeIdentity) -> bool {
    eq_ic(a.disk_guid@, b.disk_guid@) && eq_ic(a.partition_guid@, b.partition_guid@)
}

/// GPT type of the EFI system partition.
pub open spec fn efi_type() -> Seq<char> {
    "{c12a7328-f81f-11d2-ba4b-00a0c93ec93b}"@
}

/// GPT type of the Microsoft reserved partition.
pub open spec fn msr_type() -> Seq<char> {
    "{e3c9e316-0b5c-4db8-817d-f92df00215ae}"@
}

/// GPT type of the Windows recovery partition.
pub open spec fn recovery_type() -> Seq<char> {
    "{de94bba4-06d1-4d40-a16a-bfd50179d6ac}"@
}

/// EFI, MSR and recovery partitions, which may hold neither images nor a
/// restored Windows.
pub open spec fn reserved(v: VolumeIdentity) -> bool {
    let t = lower_seq(v.partition_type_guid@);
    t == efi_type() || t == msr_type() || t == recovery_type()
}

impl VolumeIdentity {
    /// An identity holding only the disk and partition GUIDs.
    pub fn new(disk_guid: &str, partition_guid: &str) -> (r: Self)
        ensures
            r.disk_guid@ == disk_guid@,
            r.partition_guid@ == partition_guid@,
            r.volume_guid@.len() == 0,
            r.partition_type_guid@.len() == 0,
            r.disk_number is None,
            r.partition_number is None,
            r.partition_offset == 0,
            r.partition_size == 0,
            r.filesystem@.len() == 0,
            r.volume_serial@.len() == 0,
            r.drive_letter is None,
    {
        VolumeIdentity {
            disk_guid: owned(disk_guid),
            partition_guid: owned(partition_guid),
            volume_guid: String::new(),
            partition_type_guid: String::new(),
            disk_number: None,
            partition_number: None,
            partition_offset: 0,
            partition_size: 0,
            filesystem: String::new(),
            volume_serial: String::new(),
            drive_letter: None,
        }
    }

    pub fn is_complete(&self) -> (b: bool)
        ensures
            b == complete(*self),
    {
        !str_is_blank(self.disk_guid.as_str()) && !str_is_blank(self.partition_guid.as_str())
            && !str_is_blank(self.volume_guid.as_str()) && self.disk_number.is_some()
            && self.partition_number.is_some() && !str_is_blank(
            self.partition_type_guid.as_str(),
        ) && !str_is_blank(self.filesystem.as_str()) && self.partition_size > 0
    }

    pub fn same_partition(&self, other: &Self) -> (b: bool)
        ensures
            b == same_partition(*self, *other),
    {
        str_eq_ignore_ascii_case(self.disk_guid.as_str(), other.disk_guid.as_str())
            && str_eq_ignore_ascii_case(
            self.partition_guid.as_str(),
            other.partition_guid.as_str(),
        )
    }

    pub fn is_reserved_partition(&self) -> (b: bool)
        ensures
            b == reserved(*self),
    {
        let t = to_ascii_lowercase(chars_of(self.partition_type_guid.as_str()).as_slice());
        let efi = chars_of("{c12a7328-f81f-11d2-ba4b-00a0c93ec93b}");
        let msr = chars_of("{e3c9e316-0b5c-4db8-817d-f92df00215ae}");
        let rec = chars_of("{de94bba4-06d1-4d40-a16a-bfd50179d6ac}");
        crate::text::seq_eq(t.as_slice(), efi.as_slice()) || crate::text::seq_eq(
            t.as_slice(),
            msr.as_slice(),
        ) || crate::text::seq_eq(t.as_slice(), rec.as_slice())
    }
}

#[derive(Debug, Clone, PartialEq, Eq)]
pub struct ImageSpec {
    pub volume: VolumeIdentity,
    /// Windows absolute path captured when the task was prepared.
    pub absolute_path: Option<String>,
    pub relative_path: String,
    pub sha256: String,
    pub size_bytes: u64,
    pub index: u32,
}

#[derive(Debug, Clone, PartialEq, Eq)]
pub struct DestinationSpec {
    pub volume: VolumeIdentity,
    pub absolute_path: Option<String>,
    pub relative_path: String,
}

#[derive(Debug, Clone, Copy, PartialEq, Eq, Structural)]
pub enum TargetRole {
    ExistingWindows,
    NewWindows,
}

#[derive(Debug, Clone, PartialEq, Eq)]
pub struct TargetSpec {
    pub volume: VolumeIdentity,
    pub role: TargetRole,
    pub boot_menu_name: Option<String>,
    pub minimum_size_bytes: u64,
}

#[derive(Debug, Clone, Copy, PartialEq, Eq, Structural)]
pub enum BootMode {
    ReturnExisting,
    AddSecondary,
}

#[derive(Debug, Clone, PartialEq, Eq)]
pub struct BootPlan {
    pub mode: BootMode,
    pub previous_bcd_sha256: Option<String>,
    pub menu_name: Option<String>,
    pub boot_sequence_requested: bool,
}

#[derive(Debug, Clone, PartialEq, Eq)]
pub struct PayloadManifest {
    pub task_id: String,
    pub recovery_sha256: String,
    pub task_sha256: String,
    pub original_winre_sha256: String,
    pub staged_winre_sha256: String,
    pub created_by_version: String,
    pub recovery_task_env_sha256: Option<String>,
}

#[derive(Debug, Clone, PartialEq, Eq)]
pub struct BackupMetadata {
    pub version: u32,
    pub image_type: String,
    pub created: Timestamp,
    pub computer: String,
    pub windows_edition: String,
    pub architecture: String,
    pub windows_build: String,
    pub wim_index: u32,
    pub image_sha256: String,
    pub image_size: u64,
    pub source: VolumeIdentity,
    pub captured_used_bytes: u64,
    pub reserved_bytes: u64,
    pub minimum_target_size: u64,
    pub volume_serial: String,
    pub program_version: String,
}

/// The smallest target a backup can be restored to: its recorded minimum,
/// or the captured data plus the reserve (saturating), whichever is larger.
pub open spec fn required_size(m: BackupMetadata) -> u64 {
    let sum = m.captured_used_bytes + m.reserved_bytes;
    let needed: u64 = if sum > u64::MAX { u64::MAX } else { sum as u64 };
    if m.minimum_target_size >= needed { m.minimum_target_size } else { needed }
}

impl BackupMetadata {
    pub fn required_target_size(&self) -> (r: u64)
        ensures
            r == required_size(*self),
    {
        let needed = self.captured_used_bytes.saturating_add(self.reserved_bytes);
        if self.minimum_target_size >= needed {
            self.minimum_target_size
        } else {
            needed
        }
    }
}

#[derive(Debug, Clone, PartialEq, Eq)]
pub struct Task {
    pub task_id: String,
    pub version: u32,
    pub operation: Operation,
    pub source: Option<VolumeIdentity>,
    /// The volume holding the program directory, task records and payload.
    /// Only a restore target may not overwrite it.
    pub workspace_volume: Option<VolumeIdentity>,
    pub image: Option<ImageSpec>,
    pub destination: Option<DestinationSpec>,
    pub target: Option<TargetSpec>,
    pub boot_plan: BootPlan,
    pub created: Timestamp,
    pub boot_once: bool,
    pub status: Stage,
    pub payload: Option<PayloadManifest>,
}

#[derive(Debug, Clone, PartialEq, Eq)]
pub struct StatusRecord {
    pub task_id: String,
    pub operation: Operation,
    pub stage: Stage,
    pub progress: u8,
    pub updated: Timestamp,
    pub error_code: Option<i32>,
    pub error: Option<String>,
}

} // verus!
