use backuprestore::model::{
    BootMode, BootPlan, DestinationSpec, ImageSpec, Operation, Stage, TargetRole, TargetSpec, Task,
    VolumeIdentity,
};
use backuprestore::plan::{plan_recovery, refusal_error, RecoveryStep, Refusal};
use backuprestore::model::TaskError;

fn volume(name: &str) -> VolumeIdentity {
    let mut v = VolumeIdentity::new("disk", name);
    v.volume_guid = format!("volume-{name}");
    v.partition_type_guid = "{ebd0a0a2-b9e5-4433-87c0-68b6b72699c7}".into();
    v.disk_number = Some(0);
    v.partition_number = Some(2);
    v.partition_size = 200;
    v.filesystem = "NTFS".into();
    v
}

fn restore(role: TargetRole, mode: BootMode, status: Stage) -> Task {
    let mut t = Task::new(
        if role == TargetRole::NewWindows { Operation::CreateSecondary } else { Operation::RestoreExisting },
        BootPlan { mode, previous_bcd_sha256: None, menu_name: None, boot_sequence_requested: true },
    );
    t.image = Some(ImageSpec {
        volume: volume("image"),
        absolute_path: None,
        relative_path: "backup.wim".into(),
        sha256: "a".repeat(64),
        size_bytes: 1,
        index: 1,
    });
    t.target = Some(TargetSpec {
        volume: volume("target"),
        role,
        boot_menu_name: Some("Second".into()),
        minimum_size_bytes: 100,
    });
    t.status = status;
    t
}

use backuprestore::plan::RecoveryStep::{
    ApplyImage, CaptureImage, ConfigureSecondary, FormatTarget, LocateEfi, Record, Refuse,
    RepairBoot, ReportProbe, ResumeCapture, VerifyImage,
};

#[test]
fn fresh_restore_records_each_stage_before_its_disk_work() {
    let t = restore(TargetRole::ExistingWindows, BootMode::ReturnExisting, Stage::Prepared);
    assert_eq!(
        plan_recovery(&t, true),
        vec![
            Record(Stage::RecoveryStarted),
            Record(Stage::Preflight),
            VerifyImage,
            Record(Stage::TargetErased),
            FormatTarget,
            ApplyImage,
            Record(Stage::ImageApplied),
            LocateEfi,
            Record(Stage::BootRepaired),
            RepairBoot,
            Record(Stage::Success),
        ]
    );
}

#[test]
fn winre_run_defers_success_and_secondary_names_its_entry() {
    let t = restore(TargetRole::NewWindows, BootMode::AddSecondary, Stage::BootRequested);
    let plan = plan_recovery(&t, false);
    assert_eq!(plan.last(), Some(&ConfigureSecondary));
    assert!(!plan.contains(&Record(Stage::Success)));
}

#[test]
fn resumed_restore_does_not_format_again() {
    let t = restore(TargetRole::ExistingWindows, BootMode::ReturnExisting, Stage::ImageApplied);
    assert_eq!(
        plan_recovery(&t, true),
        vec![VerifyImage, ApplyImage, LocateEfi, Record(Stage::BootRepaired), RepairBoot, Record(Stage::Success)]
    );
    let t = restore(TargetRole::ExistingWindows, BootMode::ReturnExisting, Stage::BootRepaired);
    assert_eq!(plan_recovery(&t, true), vec![VerifyImage, LocateEfi, RepairBoot, Record(Stage::Success)]);
}

#[test]
fn secondary_without_add_secondary_plan_is_refused() {
    let t = restore(TargetRole::NewWindows, BootMode::ReturnExisting, Stage::Preflight);
    assert_eq!(
        plan_recovery(&t, true),
        vec![VerifyImage, Refuse(Refusal::SecondaryNeedsAddSecondary)]
    );
}

#[test]
fn backup_captures_after_recording_capturing_and_resumes_capture() {
    let mut t = Task::new(
        Operation::Backup,
        BootPlan { mode: BootMode::ReturnExisting, previous_bcd_sha256: None, menu_name: None, boot_sequence_requested: true },
    );
    t.source = Some(volume("source"));
    t.destination = Some(DestinationSpec { volume: volume("image"), absolute_path: None, relative_path: "b.wim".into() });
    assert_eq!(
        plan_recovery(&t, true),
        vec![Record(Stage::RecoveryStarted), Record(Stage::Preflight), Record(Stage::Capturing), CaptureImage, Record(Stage::Success)]
    );
    t.status = Stage::Capturing;
    assert_eq!(plan_recovery(&t, false), vec![ResumeCapture, CaptureImage]);
    t.status = Stage::TargetErased;
    assert_eq!(plan_recovery(&t, true), vec![Refuse(Refusal::BackupCannotResume(Stage::TargetErased))]);
}

#[test]
fn probe_finishes_only_when_finalizing() {
    let t = Task::new(
        Operation::Probe,
        BootPlan { mode: BootMode::ReturnExisting, previous_bcd_sha256: None, menu_name: None, boot_sequence_requested: false },
    );
    assert_eq!(
        plan_recovery(&t, true),
        vec![Record(Stage::RecoveryStarted), Record(Stage::Preflight), ReportProbe, Record(Stage::Success)]
    );
    assert_eq!(
        plan_recovery(&t, false),
        vec![Record(Stage::RecoveryStarted), Record(Stage::Preflight), ReportProbe]
    );
}

#[test]
fn refusals_carry_the_stage_name() {
    assert_eq!(
        refusal_error(Refusal::RestoreCannotResume(Stage::Capturing)),
        TaskError::Invalid("restore cannot resume from stage Capturing".into())
    );
    assert_eq!(
        refusal_error(Refusal::MissingTarget),
        TaskError::Invalid("missing target".into())
    );
}
