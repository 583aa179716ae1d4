use backuprestore::model::{
    BackupMetadata, BootMode, BootPlan, DestinationSpec, ImageSpec, Operation, Stage, TargetRole,
    TargetSpec, Task, VolumeIdentity,
};
use backuprestore::paths::{validate_absolute_path, validate_relative_path};
use backuprestore::task::{ensure_capacity, valid_menu_name, validate_operation};
use backuprestore::time::Timestamp;

fn identity(value: &str, size: u64) -> VolumeIdentity {
    let mut i = VolumeIdentity::new("disk", value);
    i.volume_guid = format!("volume-{value}");
    i.partition_type_guid = "{00000000-0000-0000-0000-000000000000}".into();
    i.disk_number = Some(0);
    i.partition_number = Some(1);
    i.partition_size = size;
    i.filesystem = "NTFS".into();
    i
}

fn backup_task() -> Task {
    let mut task = Task::new(
        Operation::Backup,
        BootPlan {
            mode: BootMode::ReturnExisting,
            previous_bcd_sha256: Some("a".repeat(64)),
            menu_name: None,
            boot_sequence_requested: true,
        },
    );
    task.source = Some(identity("source", 100));
    task.workspace_volume = Some(identity("task", 100));
    task.destination = Some(DestinationSpec {
        volume: identity("image", 100),
        absolute_path: None,
        relative_path: "MyBackup/Windows.wim".into(),
    });
    task
}

fn restore_plan() -> BootPlan {
    BootPlan {
        mode: BootMode::ReturnExisting,
        previous_bcd_sha256: Some("a".repeat(64)),
        menu_name: None,
        boot_sequence_requested: true,
    }
}

fn image_on(volume: VolumeIdentity) -> ImageSpec {
    ImageSpec {
        volume,
        absolute_path: None,
        relative_path: "backup.wim".into(),
        sha256: "a".repeat(64),
        size_bytes: 1,
        index: 1,
    }
}

#[test]
fn state_machine_accepts_recovery_paths() {
    assert!(Stage::Prepared.can_transition_to(Stage::BootRequested));
    assert!(Stage::Prepared.can_transition_to(Stage::Failed));
    assert!(Stage::Preflight.can_transition_to(Stage::Capturing));
    assert!(Stage::Preflight.can_transition_to(Stage::TargetErased));
    assert!(Stage::Preflight.can_transition_to(Stage::Success));
    assert!(Stage::ImageApplied.can_transition_to(Stage::BootRepaired));
    assert!(!Stage::Prepared.can_transition_to(Stage::Success));
}

#[test]
fn backup_rejects_same_partition() {
    let mut task = backup_task();
    task.destination.as_mut().unwrap().volume.partition_guid = "source".into();
    assert!(task.validate().is_err());
}

#[test]
fn arbitrary_drive_letters_are_temporary_hints() {
    let mut task = backup_task();
    task.source.as_mut().unwrap().drive_letter = Some('S');
    task.workspace_volume.as_mut().unwrap().drive_letter = Some('T');
    task.destination.as_mut().unwrap().volume.drive_letter = Some('B');
    assert!(task.validate().is_ok());

    let mut moved = task.clone();
    moved.source.as_mut().unwrap().drive_letter = Some('D');
    moved.destination.as_mut().unwrap().volume.drive_letter = Some('I');
    assert!(moved.validate().is_ok());
    assert!(task
        .source
        .as_ref()
        .unwrap()
        .same_partition(moved.source.as_ref().unwrap()));
}

#[test]
fn workspace_volume_rejects_reserved_and_target_overlap() {
    let mut task = backup_task();
    task.workspace_volume.as_mut().unwrap().partition_type_guid =
        "{c12a7328-f81f-11d2-ba4b-00a0c93ec93b}".into();
    assert!(task.validate().is_err());

    let mut task = backup_task();
    task.workspace_volume.as_mut().unwrap().partition_guid = "source".into();
    assert!(task.validate().is_ok());

    let mut task = backup_task();
    task.workspace_volume.as_mut().unwrap().partition_guid = "image".into();
    assert!(task.validate().is_ok());

    let mut task = Task::new(Operation::RestoreExisting, restore_plan());
    task.source = Some(identity("source", 200));
    task.workspace_volume = Some(identity("source", 200));
    task.image = Some(image_on(identity("image", 100)));
    task.target = Some(TargetSpec {
        volume: identity("source", 200),
        role: TargetRole::ExistingWindows,
        boot_menu_name: None,
        minimum_size_bytes: 100,
    });
    assert!(task.validate().is_err());
}

#[test]
fn task_rejects_incomplete_workspace_identity() {
    let mut task = backup_task();
    task.workspace_volume
        .as_mut()
        .unwrap()
        .partition_type_guid
        .clear();
    assert!(task.validate().is_err());
    task.workspace_volume.as_mut().unwrap().partition_type_guid =
        "{ebd0a0a2-b9e5-4433-87c0-68b6b72699c7}".into();
    task.workspace_volume.as_mut().unwrap().volume_guid.clear();
    assert!(task.validate().is_err());
}

#[test]
fn menu_name_rejects_controls_and_unbounded_input() {
    assert!(valid_menu_name("Windows Backup"));
    assert!(!valid_menu_name("Windows\nBackup"));
    assert!(!valid_menu_name(&"x".repeat(257)));
}

#[test]
fn reserved_volumes_and_dot_paths_are_rejected() {
    let mut backup = backup_task();
    backup
        .destination
        .as_mut()
        .unwrap()
        .volume
        .partition_type_guid = "{de94bba4-06d1-4d40-a16a-bfd50179d6ac}".into();
    assert!(backup.validate().is_err());
    assert!(validate_relative_path(".").is_err());
    assert!(validate_relative_path(".\\Windows.wim").is_err());

    let source = identity("source", 100);
    let mut image = identity("image", 100);
    image.partition_type_guid = "{c12a7328-f81f-11d2-ba4b-00a0c93ec93b}".into();
    let target = identity("source", 100);
    let mut task = Task::new(Operation::RestoreExisting, restore_plan());
    task.source = Some(source);
    task.workspace_volume = Some(identity("workspace", 200));
    task.image = Some(image_on(image));
    task.target = Some(TargetSpec {
        volume: target,
        role: TargetRole::ExistingWindows,
        boot_menu_name: None,
        minimum_size_bytes: 100,
    });
    assert!(task.validate().is_err());
}

#[test]
fn absolute_image_paths_require_a_drive_root() {
    assert!(validate_absolute_path(r"B:\Backups\Windows.wim").is_ok());
    assert!(validate_absolute_path(r"B:/Backups/Windows.wim").is_ok());
    assert!(validate_absolute_path(r"Backups\Windows.wim").is_err());
    assert!(validate_absolute_path(r"B:\Backups\..\Windows.wim").is_err());
    assert!(validate_absolute_path(r"B:\").is_err());

    let mut task = backup_task();
    task.destination.as_mut().unwrap().absolute_path = Some("backup.wim".into());
    assert!(task.validate().is_err());
    task.destination.as_mut().unwrap().absolute_path = Some(r"B:\Backups\Windows.wim".into());
    assert!(task.validate().is_ok());
}

#[test]
fn restore_rejects_image_on_target_and_reserved_target() {
    let source = identity("source", 100);
    let image = identity("image", 100);
    assert!(validate_operation(Operation::RestoreExisting, &source, &image, &image).is_err());
    let mut efi = identity("efi", 100);
    efi.partition_type_guid = "{c12a7328-f81f-11d2-ba4b-00a0c93ec93b}".into();
    assert!(validate_operation(Operation::RestoreExisting, &source, &image, &efi).is_err());
}

#[test]
fn secondary_requires_explicit_name_and_mode() {
    let mut task = Task::new(
        Operation::CreateSecondary,
        BootPlan {
            mode: BootMode::AddSecondary,
            previous_bcd_sha256: Some("a".repeat(64)),
            menu_name: Some("Windows 11 Backup".into()),
            boot_sequence_requested: true,
        },
    );
    task.image = Some(image_on(identity("image", 100)));
    task.target = Some(TargetSpec {
        volume: identity("target", 200),
        role: TargetRole::NewWindows,
        boot_menu_name: Some("Windows 11 Backup".into()),
        minimum_size_bytes: 100,
    });
    task.source = Some(identity("source", 200));
    task.workspace_volume = Some(identity("workspace", 200));
    assert!(task.validate().is_ok());
    task.target.as_mut().unwrap().boot_menu_name = None;
    assert!(task.validate().is_err());
}

#[test]
fn restore_requires_source_size_and_target_capacity() {
    let mut task = Task::new(Operation::RestoreExisting, restore_plan());
    task.source = Some(identity("source", 200));
    task.workspace_volume = Some(identity("workspace", 200));
    task.image = Some(image_on(identity("image", 100)));
    task.target = Some(TargetSpec {
        volume: identity("source", 200),
        role: TargetRole::ExistingWindows,
        boot_menu_name: None,
        minimum_size_bytes: 100,
    });
    assert!(task.validate().is_ok());
    task.source = None;
    assert!(task.validate().is_err());
    task.source = Some(identity("source", 200));
    task.image.as_mut().unwrap().size_bytes = 0;
    assert!(task.validate().is_err());
    task.image.as_mut().unwrap().size_bytes = 1;
    task.target.as_mut().unwrap().minimum_size_bytes = 0;
    assert!(task.validate().is_err());
}

#[test]
fn path_and_capacity_guards() {
    assert!(validate_relative_path("x\\y\\z.wim").is_ok());
    assert!(validate_relative_path("..\\evil.wim").is_err());
    let metadata = BackupMetadata {
        version: 1,
        image_type: "wim".into(),
        created: Timestamp { unix_seconds: 1_700_000_000, nanos: 0 },
        computer: "test".into(),
        windows_edition: "Pro".into(),
        architecture: "amd64".into(),
        windows_build: "1".into(),
        wim_index: 1,
        image_sha256: "a".repeat(64),
        image_size: 1,
        source: identity("source", 100),
        captured_used_bytes: 80,
        reserved_bytes: 20,
        minimum_target_size: 90,
        volume_serial: "x".into(),
        program_version: "0.0.0".into(),
    };
    assert_eq!(metadata.required_target_size(), 100);
    assert!(ensure_capacity(99, &metadata).is_err());
    assert!(ensure_capacity(100, &metadata).is_ok());
}

#[test]
fn capacity_refusal_names_both_sizes() {
    let metadata = BackupMetadata {
        version: 1,
        image_type: "wim".into(),
        created: Timestamp { unix_seconds: 1_700_000_000, nanos: 0 },
        computer: "test".into(),
        windows_edition: "Pro".into(),
        architecture: "amd64".into(),
        windows_build: "1".into(),
        wim_index: 1,
        image_sha256: "a".repeat(64),
        image_size: 1,
        source: identity("source", 100),
        captured_used_bytes: 80,
        reserved_bytes: 20,
        minimum_target_size: 90,
        volume_serial: "x".into(),
        program_version: "0.0.0".into(),
    };
    match ensure_capacity(99, &metadata) {
        Err(backuprestore::model::TaskError::Invalid(message)) => {
            assert_eq!(message, "target disk space insufficient: 99 < 100")
        }
        other => panic!("unexpected result {other:?}"),
    }
}

#[test]
fn other_task_versions_are_refused_with_both_versions_named() {
    let mut task = backup_task();
    assert!(task.validate().is_ok());
    task.version = 2;
    match task.validate() {
        Err(backuprestore::model::TaskError::Invalid(message)) => {
            assert_eq!(message, "unsupported task version 2 (expected 1)")
        }
        other => panic!("unexpected result {other:?}"),
    }
}
