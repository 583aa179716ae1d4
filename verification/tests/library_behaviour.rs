use backuprestore::pe::{deploy_guid, esp_mount_letters, exit_pe_command_line, is_esp_filesystem};
use backuprestore::backup::{
    appended_index, bcdboot_arguments, check_first_capture, check_restore_image,
    legacy_belongs_to_image, wim_index_list,
};
use backuprestore::bcd::{
    check_boot_order, menu_name_visible, parse_boot_manager_state, preserved_display_order,
    verify_bcd_target, BcdBootManagerState,
};
use backuprestore::digest::{hex_of, sha256_hex, validate_payload_files, verify_sha256, FileDigest};
use backuprestore::env::{env_optional_u64, env_required, parse_env_text};
use backuprestore::gui::{
    check_task_request, command_line, compression_value, default_pe_directory, keep_indexes,
    operation_display, pe_result_preview, prepare_arguments, route_request,
    same_partition_by_gui_identity, split_pe_dir_path, DriveInfo, Language, RequestRefusal, Route,
    pe_harddisk_target_check, PeTargetRefusal,
};
use backuprestore::display::{drive_details, drive_display, wim_display};
use backuprestore::json::WimImageInfo;
use backuprestore::labels::{drive_role_description, tooltip_text, ui_text};
use backuprestore::model::{
    BackupMetadata, BootMode, BootPlan, Operation, PayloadManifest, Stage, StatusRecord,
    TargetRole, Task, TaskError, VolumeIdentity,
};
use backuprestore::mounting::{
    decide_mount, diskpart_assign_script, end_of_run, should_rollback_bcd, volumes_to_mount,
    MountAction, RunEnd, VolumeRole,
};
use backuprestore::parsing::VolumeMountQuery;
use backuprestore::pe::{
    parse_pe_task_line, pe_default_image_drive, pe_format_guard, pe_task_text, ramdisk_bcd_steps,
    resolve_path, resolve_pe_wim_path, split_whitespace, vhd_file_name, FormatGuard, PeAction,
};
use backuprestore::recovery::{check_payload_task, check_persisted_status, recover_start, RecoverStart};
use backuprestore::store::{
    check_loaded_task, cleanup_artifact_names, classify_task_dir, cleanup_candidates, cleanup_selection, TaskDirRecords, newest_first_order, record_failure,
    TaskDirKind,
};
use backuprestore::task::clear_task_drive_letters;
use backuprestore::time::Timestamp;
use backuprestore::winre::{check_winre_shell, normalize_text, EXPECTED_WINRE_SHELL};

const ABC_SHA256: &str = "ba7816bf8f01cfea414140de5dae2223b00361a396177a9cb410ff61f20015ad";

fn digest_of(data: &[u8]) -> FileDigest {
    let mut d = FileDigest::new();
    d.update(data);
    d
}

#[test]
fn sha256_text_is_lower_case_hex_and_chunking_does_not_matter() {
    assert_eq!(sha256_hex(b"abc"), ABC_SHA256);
    let mut d = FileDigest::new();
    d.update(b"a");
    d.update(b"");
    d.update(b"bc");
    assert_eq!(d.finish(), ABC_SHA256);
    assert_eq!(hex_of(&[0x00, 0x0f, 0xa0, 0xff]), "000fa0ff");
}

#[test]
fn verify_sha256_ignores_case_and_reports_both_hashes() {
    assert!(verify_sha256(digest_of(b"abc"), &ABC_SHA256.to_uppercase()).is_ok());
    let expected = "0".repeat(64);
    assert_eq!(
        verify_sha256(digest_of(b"abc"), &expected),
        Err(TaskError::Invalid(format!("sha256 mismatch: expected {expected}, got {ABC_SHA256}")))
    );
}

fn manifest(recovery: &str) -> PayloadManifest {
    PayloadManifest {
        task_id: "11111111-1111-4111-8111-111111111111".into(),
        recovery_sha256: recovery.into(),
        task_sha256: ABC_SHA256.into(),
        original_winre_sha256: ABC_SHA256.into(),
        staged_winre_sha256: ABC_SHA256.into(),
        created_by_version: "1".into(),
        recovery_task_env_sha256: None,
    }
}

#[test]
fn payload_files_are_checked_in_order() {
    let ok = validate_payload_files(
        &manifest(ABC_SHA256),
        digest_of(b"abc"),
        digest_of(b"abc"),
        None,
        digest_of(b"abc"),
        digest_of(b"abc"),
    );
    assert!(ok.is_ok());
    let short = validate_payload_files(
        &manifest("abc"),
        digest_of(b"abc"),
        digest_of(b"abc"),
        None,
        digest_of(b"abc"),
        digest_of(b"abc"),
    );
    assert_eq!(short, Err(TaskError::Invalid("recovery payload hash is not SHA-256".into())));
    let mut m = manifest(ABC_SHA256);
    m.task_id = "  ".into();
    let blank = validate_payload_files(&m, digest_of(b"abc"), digest_of(b"abc"), None, digest_of(b"abc"), digest_of(b"abc"));
    assert_eq!(blank, Err(TaskError::Invalid("payload task id is empty".into())));
    let mut m = manifest(ABC_SHA256);
    m.recovery_task_env_sha256 = Some(ABC_SHA256.into());
    let env = validate_payload_files(&m, digest_of(b"abc"), digest_of(b"abc"), Some(digest_of(b"x")), digest_of(b"abc"), digest_of(b"abc"));
    assert!(env.is_err());
}

fn identity(name: &str, size: u64) -> VolumeIdentity {
    let mut v = VolumeIdentity::new("disk", name);
    v.volume_guid = format!("volume-{name}");
    v.partition_type_guid = "{ebd0a0a2-b9e5-4433-87c0-68b6b72699c7}".into();
    v.disk_number = Some(1);
    v.partition_number = Some(3);
    v.partition_size = size;
    v.filesystem = "NTFS".into();
    v
}

fn metadata(sha: &str, used: u64, reserve: u64, minimum: u64, source_size: u64) -> BackupMetadata {
    BackupMetadata {
        version: 2,
        image_type: "wim".into(),
        created: Timestamp { unix_seconds: 1, nanos: 0 },
        computer: "pc".into(),
        windows_edition: "Pro".into(),
        architecture: "x64".into(),
        windows_build: "1".into(),
        wim_index: 1,
        image_sha256: sha.into(),
        image_size: 10,
        source: identity("source", source_size),
        captured_used_bytes: used,
        reserved_bytes: reserve,
        minimum_target_size: minimum,
        volume_serial: "s".into(),
        program_version: "1".into(),
    }
}

#[test]
fn restore_needs_matching_metadata_and_room() {
    let m = metadata("ABC", 80, 20, 90, 150);
    assert!(check_restore_image("abc", &m, 150).is_ok());
    assert_eq!(
        check_restore_image("abc", &m, 149),
        Err(TaskError::Invalid("target partition is too small: 149 < 150".into()))
    );
    assert_eq!(
        check_restore_image("abd", &m, 500),
        Err(TaskError::Invalid("image hash does not match backup metadata".into()))
    );
    let empty = metadata("abc", 0, 0, 0, 0);
    assert!(check_restore_image("abc", &empty, 500).is_err());
}

#[test]
fn capture_results_are_checked() {
    assert!(check_first_capture(&[1]).is_ok());
    assert!(check_first_capture(&[1, 2]).is_err());
    assert_eq!(appended_index(2, &[1, 2, 3]), Ok(3));
    assert!(appended_index(2, &[1, 2]).is_err());
    assert_eq!(wim_index_list(&[3, 1, 3, 2]), Ok(vec![1, 2, 3]));
    assert_eq!(wim_index_list(&[5, 1 << 40]), Ok(vec![5]));
    assert!(wim_index_list(&[]).is_err());
    assert!(wim_index_list(&[0, 1]).is_err());
    assert!(legacy_belongs_to_image(false, &None, &None));
    assert!(!legacy_belongs_to_image(true, &None, &Some("a".into())));
    assert!(legacy_belongs_to_image(true, &Some(metadata("AA", 0, 0, 1, 1)), &Some("aa".into())));
    assert_eq!(
        bcdboot_arguments("W:\\Windows", "Z:\\", TargetRole::NewWindows),
        vec!["W:\\Windows", "/s", "Z:\\", "/f", "UEFI", "/v", "/addlast"]
    );
}

#[test]
fn boot_order_keeps_the_primary_and_appends_the_new_loader() {
    let previous = BcdBootManagerState {
        default: "{current}".into(),
        display_order: vec!["{a}".into(), "{NEW}".into(), "{b}".into()],
    };
    let order = preserved_display_order(&previous, "{new}");
    assert_eq!(order, vec!["{a}", "{b}", "{new}"]);
    let empty = BcdBootManagerState { default: "{current}".into(), display_order: vec![] };
    assert_eq!(preserved_display_order(&empty, "{new}"), vec!["{current}", "{new}"]);
    let verified = BcdBootManagerState {
        default: "{current}".into(),
        display_order: vec!["{A}".into(), "{b}".into(), "{new}".into()],
    };
    assert!(check_boot_order(&verified, &previous, &order, "{NEW}").is_ok());
    let moved = BcdBootManagerState { default: "{new}".into(), display_order: verified.display_order.clone() };
    assert!(check_boot_order(&moved, &previous, &order, "{new}").is_err());
    assert!(menu_name_visible("description  Windows 11 BACKUP", "windows 11 backup"));
}

#[test]
fn bcd_target_check_reads_device_lines_only() {
    assert!(verify_bcd_target("Windows Boot Loader\n  device   partition=W:\n", 'w').is_ok());
    assert!(verify_bcd_target("OS 设备  partition=w:", 'w').is_ok());
    assert_eq!(
        verify_bcd_target("path partition=W:", 'w'),
        Err(TaskError::Invalid("BCDBoot completed but no Windows loader points to the selected target w:".into()))
    );
    let state = parse_boot_manager_state(
        "Windows Boot Manager\r\nidentifier {9dea862c-5cdd-4e70-acc1-f32b344d4795}\r\ndisplayorder {a}\r\n             {b}\r\ntimeout 30\r\ndefault {current}",
    )
    .unwrap();
    assert_eq!(state.default, "{current}");
    assert_eq!(state.display_order, vec!["{a}", "{b}"]);
}

#[test]
fn env_file_values_and_errors() {
    let values = parse_env_text("# comment\r\nTASK_ID=abc\r\nSIZE=42\r\n\r\nEMPTY=  \r\n").unwrap();
    assert_eq!(env_required(&values, "TASK_ID").unwrap(), "abc");
    assert!(env_required(&values, "EMPTY").is_err());
    assert_eq!(env_optional_u64(&values, "SIZE"), Some(42));
    assert!(parse_env_text("A=1\nA=2\n").is_err());
    assert!(parse_env_text("1A=1\n").is_err());
    assert!(parse_env_text("no equals sign\n").is_err());
}

fn restore_task() -> Task {
    let mut t = Task::new(
        Operation::RestoreExisting,
        BootPlan { mode: BootMode::ReturnExisting, previous_bcd_sha256: None, menu_name: None, boot_sequence_requested: true },
    );
    t.source = Some(identity("source", 100));
    t.workspace_volume = Some(identity("workspace", 100));
    t.target = Some(backuprestore::model::TargetSpec {
        volume: identity("target", 100),
        role: TargetRole::ExistingWindows,
        boot_menu_name: None,
        minimum_size_bytes: 1,
    });
    t
}

#[test]
fn payload_copy_agrees_despite_letters_and_stage() {
    let workspace = restore_task();
    let mut payload = workspace.clone();
    payload.source.as_mut().unwrap().drive_letter = Some('P');
    payload.status = Stage::Prepared;
    let mut moved = workspace.clone();
    moved.status = Stage::TargetErased;
    assert!(check_payload_task(&payload, &moved).is_ok());
    payload.target.as_mut().unwrap().volume.partition_size = 7;
    assert!(check_payload_task(&payload, &moved).is_err());
    let mut cleared = moved.clone();
    clear_task_drive_letters(&mut cleared);
    assert_eq!(cleared.source.as_ref().unwrap().drive_letter, None);
}

#[test]
fn status_record_may_be_one_step_ahead_only_when_prepared() {
    let task = restore_task();
    let status = StatusRecord {
        task_id: task.task_id.to_uppercase(),
        operation: task.operation,
        stage: Stage::BootRequested,
        progress: 2,
        updated: Timestamp { unix_seconds: 1, nanos: 0 },
        error_code: None,
        error: None,
    };
    assert!(check_persisted_status(&status, &task).is_ok());
    let mut later = task.clone();
    later.status = Stage::Preflight;
    assert!(check_persisted_status(&status, &later).is_err());
    assert_eq!(recover_start(&task), Ok(RecoverStart::Run));
    let mut done = task.clone();
    done.status = Stage::Success;
    assert_eq!(recover_start(&done), Ok(RecoverStart::AlreadySucceeded));
    done.status = Stage::Failed;
    assert!(recover_start(&done).is_err());
}

#[test]
fn failure_is_recorded_only_from_unfinished_stages() {
    let mut task = restore_task();
    let record = record_failure(&mut task, 7, "boom".into()).unwrap();
    assert_eq!(task.status, Stage::Failed);
    assert_eq!(record.error_code, Some(7));
    assert_eq!(record.error.as_deref(), Some("boom"));
    assert_eq!(
        record_failure(&mut task, 8, "again".into()),
        Err(TaskError::Invalid("cannot fail task from Failed".into()))
    );
}

#[test]
fn loaded_task_must_be_the_requested_one() {
    let task = restore_task();
    assert!(check_loaded_task(&task.task_id.to_uppercase(), &task).is_err() == task.validate().is_err());
    assert_eq!(
        check_loaded_task("not-a-uuid", &task),
        Err(TaskError::Invalid("task_id is not a UUID".into()))
    );
    assert_eq!(
        check_loaded_task("22222222-2222-4222-8222-222222222222", &task),
        Err(TaskError::Invalid("task file id does not match requested task id".into()))
    );
}

#[test]
fn cleanup_keeps_the_newest_finished_tasks() {
    let t = |s: i64| Timestamp { unix_seconds: s, nanos: 0 };
    let updated = [t(5), t(9), t(5), t(1)];
    assert_eq!(newest_first_order(&updated), vec![1, 0, 2, 3]);
    assert_eq!(cleanup_candidates(&updated, 2), vec![2, 3]);
    assert_eq!(cleanup_candidates(&updated, 9), Vec::<usize>::new());
    let mut task = restore_task();
    let name = task.task_id.clone();
    assert_eq!(classify_task_dir(Some(&name), None, None), TaskDirKind::Malformed);
    let status = StatusRecord {
        task_id: task.task_id.clone(),
        operation: task.operation,
        stage: Stage::Prepared,
        progress: 0,
        updated: t(3),
        error_code: None,
        error: None,
    };
    let kind = classify_task_dir(Some(&name), Some(&task), Some(&status));
    assert!(kind == TaskDirKind::Unfinished || kind == TaskDirKind::Malformed);
    task.status = Stage::Success;
    let mut finished = status.clone();
    finished.stage = Stage::Success;
    if task.validate().is_ok() {
        assert_eq!(classify_task_dir(Some(&name), Some(&task), Some(&finished)), TaskDirKind::Finished(t(3)));
    }
}

#[test]
fn volumes_are_mounted_per_operation() {
    let task = restore_task();
    assert_eq!(
        volumes_to_mount(&task).unwrap(),
        vec![VolumeRole::Source, VolumeRole::Image, VolumeRole::Target, VolumeRole::Efi]
    );
    let mut probe = task.clone();
    probe.operation = Operation::Probe;
    probe.workspace_volume = probe.source.clone();
    assert_eq!(volumes_to_mount(&probe).unwrap(), Vec::<VolumeRole>::new());
    probe.workspace_volume = None;
    assert!(volumes_to_mount(&probe).is_err());
    assert_eq!(
        decide_mount(None, 'T', "\\\\?\\Volume{a}\\", &VolumeMountQuery::Mounted("\\\\?\\VOLUME{A}\\".into())),
        Ok(MountAction::Reuse('T'))
    );
    assert_eq!(
        decide_mount(None, 'T', "\\\\?\\Volume{a}\\", &VolumeMountQuery::Mounted("\\\\?\\Volume{b}\\".into())),
        Err(TaskError::Invalid("volume T: is already mounted to \\\\?\\Volume{b}\\, refusing to replace it".into()))
    );
    assert_eq!(decide_mount(Some('Q'), 'T', "x", &VolumeMountQuery::Unknown), Ok(MountAction::Reuse('Q')));
    assert_eq!(decide_mount(None, 'T', "x", &VolumeMountQuery::Unmounted), Ok(MountAction::Assign));
    assert_eq!(diskpart_assign_script(2, 4, 'R'), "select disk 2\r\nselect partition 4\r\nassign letter=R\r\n");
    assert_eq!(end_of_run(true, true), RunEnd::Succeed);
    assert_eq!(end_of_run(true, false), RunEnd::FailCleanup);
    assert_eq!(end_of_run(false, true), RunEnd::ReportFailure { guard_disarmed: true });
    assert!(should_rollback_bcd(Stage::BootRepaired, Stage::Failed));
    assert!(!should_rollback_bcd(Stage::ImageApplied, Stage::ImageApplied));
}

#[test]
fn winre_shell_must_launch_the_recovery_host() {
    assert_eq!(normalize_text("\u{feff}a\r\nb  \r\n"), "a\nb");
    assert!(check_winre_shell(&EXPECTED_WINRE_SHELL.replace('\n', "\r\n"), "x").is_ok());
    assert_eq!(
        check_winre_shell("[LaunchApps]\n%SYSTEMROOT%\\System32\\Recovery.exe,--pe-desktop\n", "p"),
        Err(TaskError::Invalid("WinRE shell must directly launch Recovery.exe recover-env: p".into()))
    );
}

fn drive(letter: &str, guid: &str) -> DriveInfo {
    DriveInfo {
        letter: letter.into(),
        label: String::new(),
        filesystem: "NTFS".into(),
        size_bytes: None,
        free_bytes: None,
        volume_guid: guid.into(),
        disk_number: Some(0),
        partition_number: Some(3),
        partition_type_guid: String::new(),
        has_windows_installation: false,
    }
}

#[test]
fn front_end_request_checks_and_routing() {
    let work = drive("D", "\\\\?\\Volume{x}\\");
    let target = drive("E", "\\\\?\\VOLUME{X}\\");
    assert!(same_partition_by_gui_identity(Some(&work), Some(&target)));
    assert!(!same_partition_by_gui_identity(Some(&work), None));
    assert_eq!(
        check_task_request("restore-existing", None, None, None, "E:\\a.wim", "C"),
        Err(RequestRefusal::MissingIndex)
    );
    assert_eq!(
        check_task_request("restore-existing", Some(2), Some(&work), Some(&target), "E:\\a.wim", "C"),
        Err(RequestRefusal::WorkspaceIsTarget)
    );
    assert!(matches!(
        check_task_request("backup", None, None, None, "relative.wim", "C"),
        Err(RequestRefusal::InvalidImagePath(_))
    ));
    assert_eq!(
        check_task_request("backup", None, None, None, "c:\\b.wim", "C"),
        Err(RequestRefusal::ImageOnSource)
    );
    assert_eq!(check_task_request("backup", None, None, None, "D:\\b.wim", "C"), Ok(1));
    assert_eq!(route_request("backup", "C", "D", Some("C:\\")), Route::ChooseOffline);
    assert_eq!(route_request("restore-existing", "C", "d:", None), Route::Online);
    assert_eq!(route_request("create-secondary", "C", "C", None), Route::Prepare);
    assert_eq!(keep_indexes(" 3 "), Some(3));
    assert_eq!(keep_indexes("0"), None);
    assert_eq!(compression_value(Some(0)), "max");
    assert_eq!(compression_value(None), "fast");
    assert_eq!(operation_display(Language::English, "restore-existing"), "Restore");
    let args = prepare_arguments("backup", "C", "D", "", "D:\\b.wim", 1, "fast", "n", Some(2), false);
    assert_eq!(
        args,
        vec![
            "prepare", "--operation", "backup", "--source-drive", "C", "--target-drive", "D",
            "--boot-menu-name", "", "--image-path", "D:\\b.wim", "--wim-index", "1", "--compress",
            "fast", "--image-name", "n", "--keep-indexes", "2"
        ]
    );
    assert_eq!(command_line(&vec!["a b".into(), "c".into(), String::new()]), "\"a b\" c \"\"");
}

#[test]
fn pe_directory_field_and_result_preview() {
    assert_eq!(split_pe_dir_path(" d:\\Tools\\PE\\ "), Some(('D', "\\Tools\\PE".to_string())));
    assert_eq!(split_pe_dir_path("C:\\"), None);
    assert_eq!(split_pe_dir_path("C:\\a*b"), None);
    assert_eq!(split_pe_dir_path("PE"), None);
    assert_eq!(default_pe_directory("c:"), "C:\\BackupRestorePE");
    assert_eq!(pe_result_preview("noise\n[X] ok\n  code=3  \nmore"), "[X] ok\ncode=3");
    assert_eq!(pe_result_preview("nothing here"), "nothing here");
}

#[test]
fn pe_task_lines_are_read_by_words() {
    assert_eq!(split_whitespace("  a \t b\n"), vec!["a", "b"]);
    assert_eq!(parse_pe_task_line(""), PeAction::Nothing);
    assert_eq!(parse_pe_task_line("reboot"), PeAction::Reboot);
    assert_eq!(
        parse_pe_task_line("restore \"H:\\b.wim\" C"),
        PeAction::Restore { wim: "\"H:\\b.wim\"".into(), drive: "C".into() }
    );
    assert_eq!(
        parse_pe_task_line("format D --allow-system"),
        PeAction::Format { drive: "D".into(), allow_system: true }
    );
    assert_eq!(
        parse_pe_task_line("bcdboot C Q:"),
        PeAction::Bcdboot { drive: "C".into(), esp: "Q".into() }
    );
    assert_eq!(
        parse_pe_task_line("add-secondary-entry D Windows  Two"),
        PeAction::AddSecondaryEntry { drive: "D".into(), name: "Windows Two".into() }
    );
    assert_eq!(
        parse_pe_task_line("format D now"),
        PeAction::Unknown { words: vec!["format".into(), "D".into(), "now".into()] }
    );
    assert_eq!(pe_format_guard("x:", false, true), FormatGuard::RefuseReserved);
    assert_eq!(pe_format_guard("d", true, false), FormatGuard::RefuseSystem);
    assert_eq!(pe_format_guard("d:", true, true), FormatGuard::Format);
    assert_eq!(vhd_file_name("C:\\vm/disks\\a.vhdx"), "a.vhdx");
    assert_eq!(resolve_path("AUTO:\\x.txt", "G"), "G:\\x.txt");
    assert_eq!(resolve_pe_wim_path("AUTO:PE\\b.wim", "Q"), "Q:\\b.wim");
    assert_eq!(pe_task_text("backup", "C", "", "D:\\a b.wim"), None);
    assert_eq!(
        pe_task_text("backup", "C", "", "D:\\b.wim").unwrap(),
        "backup C \"D:\\b.wim\"\nreboot\n"
    );
    assert_eq!(
        pe_default_image_drive("C:", &vec!["C:|NTFS".into(), "|x".into(), "e:|data".into()]),
        "E"
    );
    assert_eq!(pe_default_image_drive("C:", &vec![]), "H");
    let steps = ramdisk_bcd_steps('D', "\\PE", "abc", "PE");
    assert_eq!(steps.len(), 10);
    assert_eq!(steps[0], "bcdedit.exe /set {ramdiskoptions} ramdisksdidevice partition=D:");
    assert_eq!(steps[2], "bcdedit.exe /set {abc} device ramdisk=[D:]\\PE\\sources\\boot.wim,{ramdiskoptions}");
    assert_eq!(steps[9], "bcdedit.exe /displayorder {abc} /addlast");
}

#[test]
fn interface_texts_follow_language_and_key() {
    assert_eq!(ui_text(Language::English, "operation"), "Operation");
    assert_eq!(ui_text(Language::Chinese, "operation"), "操作模式");
    assert_eq!(ui_text(Language::English, "pe"), "PE recovery");
    assert_eq!(ui_text(Language::English, "no-such-key"), "");
    assert_eq!(
        tooltip_text(Language::English, "restore"),
        "Restore: format the target volume and apply the image."
    );
    assert_eq!(tooltip_text(Language::Chinese, "refresh"), "刷新 Windows、WinRE 和可用卷信息。");
    assert_eq!(tooltip_text(Language::English, "operation"), "");
    assert_eq!(
        drive_role_description("target", "backup", Language::English),
        "Purpose: backup does not write this volume; image storage comes from Image absolute path."
    );
    // Any other operation falls back to the probe description of the role.
    assert_eq!(
        drive_role_description("source", "install-pe-entry", Language::English),
        "Purpose: probe only checks the current Windows volume identity; it never writes the volume."
    );
    assert_eq!(drive_role_description("image", "backup", Language::Chinese), "");
}

#[test]
fn volume_and_image_descriptions_in_both_languages() {
    let drive = DriveInfo {
        letter: "C".to_string(),
        label: String::new(),
        filesystem: "NTFS".to_string(),
        size_bytes: Some(100 * 1024 * 1024 * 1024),
        free_bytes: Some(1536),
        volume_guid: "vg".to_string(),
        disk_number: Some(0),
        partition_number: None,
        partition_type_guid: "{t}".to_string(),
        has_windows_installation: true,
    };
    assert_eq!(
        drive_display(&drive, Language::English),
        "C: | NTFS | no label | total 100.0 GiB | free 1.5 KiB | disk 0/partition ? | Windows"
    );
    assert_eq!(
        drive_display(&drive, Language::Chinese),
        "C: | NTFS | 卷标 无卷标 | 总容量 100.0 GiB | 可用 1.5 KiB | 磁盘 0/分区 ? | Windows"
    );
    assert_eq!(
        drive_details(&drive, Language::English),
        "C: no label\nFile system: NTFS\nWindows installation: yes\nTotal: 100.0 GiB | Free: 1.5 KiB\nDisk/partition: 0/?\nPartition type: {t}\nVolume GUID: vg"
    );
    let data = DriveInfo {
        label: "Data".to_string(),
        has_windows_installation: false,
        size_bytes: None,
        ..drive
    };
    assert_eq!(
        drive_details(&data, Language::Chinese),
        "C: Data\n文件系统：NTFS\nWindows 安装：否\n总容量：? | 可用：1.5 KiB\n磁盘/分区：0/?\n分区类型：{t}\n卷 GUID：vg"
    );
    let image = WimImageInfo {
        index: 2,
        name: "Win".to_string(),
        description: String::new(),
        version: "10.0".to_string(),
        architecture: String::new(),
        edition: "Pro".to_string(),
        installation_type: "Client".to_string(),
        size_bytes: None,
    };
    assert_eq!(
        wim_display(&image, Language::English),
        "Index 2 | Win | no description | Version 10.0 | Arch ? | Edition Pro | Install Client | Size ?"
    );
    assert_eq!(
        wim_display(&image, Language::Chinese),
        "索引 2 | Win | 无描述 | 版本 10.0 | 架构 ? | 版本类型 Pro | 大小 ? | 安装类型 Client"
    );
}

#[test]
fn cleanup_run_selects_old_finished_tasks_only() {
    let t = |s: i64| Timestamp { unix_seconds: s, nanos: 0 };
    let finished_dir = |stage: Stage, updated: Timestamp| {
        let mut task = Task::new(
            Operation::Backup,
            BootPlan {
                mode: BootMode::ReturnExisting,
                previous_bcd_sha256: Some("a".repeat(64)),
                menu_name: None,
                boot_sequence_requested: true,
            },
        );
        task.source = Some(identity("source", 100));
        task.workspace_volume = Some(identity("task", 100));
        task.destination = Some(backuprestore::model::DestinationSpec {
            volume: identity("image", 100),
            absolute_path: None,
            relative_path: "MyBackup/Windows.wim".into(),
        });
        task.status = stage;
        assert!(task.validate().is_ok());
        let status = StatusRecord {
            task_id: task.task_id.clone(),
            operation: task.operation,
            stage,
            progress: 100,
            updated,
            error_code: None,
            error: None,
        };
        TaskDirRecords { name: Some(task.task_id.clone()), task: Some(task), status: Some(status) }
    };
    let dirs = vec![
        finished_dir(Stage::Success, t(5)),
        TaskDirRecords { name: None, task: None, status: None },
        finished_dir(Stage::Failed, t(9)),
        finished_dir(Stage::Prepared, t(20)),
        finished_dir(Stage::Success, t(1)),
        TaskDirRecords { name: Some("x".into()), task: None, status: None },
    ];
    let selection = cleanup_selection(&dirs, 1);
    assert_eq!(selection.skipped_malformed, 2);
    assert_eq!(selection.skipped_nonterminal, 1);
    // The newest finished task (position 2) is kept; the others go, newest first.
    assert_eq!(selection.candidates, vec![0, 4]);
    assert_eq!(cleanup_selection(&dirs, 5).candidates, Vec::<usize>::new());
    assert_eq!(cleanup_selection(&dirs, 0).candidates, vec![2, 0, 4]);
}

#[test]
fn hard_disk_pe_target_guard() {
    let gib = 1024 * 1024 * 1024u64;
    let mut roomy = drive("e", "e");
    roomy.free_bytes = Some(3 * gib);
    let mut small = drive("F", "f");
    small.free_bytes = Some(gib);
    let mut windows = drive("G", "g");
    windows.free_bytes = Some(50 * gib);
    windows.has_windows_installation = true;
    let drives = vec![roomy, small, windows];
    assert_eq!(pe_harddisk_target_check("E", 'D', &drives), Ok(()));
    assert_eq!(pe_harddisk_target_check("E:", 'E', &drives), Err(PeTargetRefusal::ReservedDrive));
    assert_eq!(pe_harddisk_target_check("C", 'D', &drives), Err(PeTargetRefusal::ReservedDrive));
    assert_eq!(pe_harddisk_target_check("", 'D', &drives), Err(PeTargetRefusal::ReservedDrive));
    assert_eq!(pe_harddisk_target_check("S", 'D', &drives), Err(PeTargetRefusal::ReservedDrive));
    assert_eq!(pe_harddisk_target_check("G", 'D', &drives), Err(PeTargetRefusal::WindowsVolume));
    assert_eq!(pe_harddisk_target_check("F", 'D', &drives), Err(PeTargetRefusal::LowSpace(gib)));
    // An unlisted letter has no known free space.
    assert_eq!(pe_harddisk_target_check("H", 'D', &drives), Err(PeTargetRefusal::LowSpace(0)));
}

#[test]
fn cleanup_removes_only_the_working_trees() {
    assert_eq!(cleanup_artifact_names(), vec!["mount", "stage", "original", "payload"]);
}

#[test]
fn task_ids_are_canonical_and_dot_paths_are_refused() {
    let task = restore_task();
    assert_eq!(task.task_id.len(), 36);
    assert_eq!(task.task_id, task.task_id.to_lowercase());
    assert_eq!(backuprestore::task::canonical_task_id(&task.task_id.to_uppercase()), Ok(task.task_id.clone()));
    assert!(backuprestore::task::canonical_task_id("..").is_err());
    let store = backuprestore::store::TaskStore::new(std::path::PathBuf::from("root"));
    assert!(store.task_dir("..").is_err());
    assert_eq!(
        store.task_dir(&task.task_id.to_uppercase()).unwrap(),
        store.task_dir(&task.task_id).unwrap()
    );
    assert_eq!(store.task_dir(&task.task_id.to_uppercase()).unwrap().parts, vec!["tasks".to_string(), task.task_id.clone()]);
    assert_eq!(
        store.status_path(&task.task_id).unwrap().parts,
        vec!["tasks".to_string(), task.task_id.clone(), "status.json".to_string()]
    );
    assert_eq!(store.task_path(&task.task_id).unwrap().parts[2], "task.json");
    assert_eq!(store.log_path(&task.task_id).unwrap().parts[2], "recovery.log");
}

#[test]
fn leaving_pe_restores_the_windows_default() {
    assert!(is_esp_filesystem("fat32"));
    assert!(is_esp_filesystem("FAT"));
    assert!(!is_esp_filesystem("NTFS"));
    assert_eq!(esp_mount_letters(), vec!['S', 'T', 'U', 'V', 'W', 'Y', 'Z']);
    assert_eq!(deploy_guid("  {abc}\r\n"), Some("{abc}".to_string()));
    assert_eq!(deploy_guid(" \n"), None);
    assert_eq!(
        exit_pe_command_line(r"S:\EFI\Microsoft\Boot\BCD", Some("{abc}"), true),
        r"cmd.exe /c bcdedit.exe /store S:\EFI\Microsoft\Boot\BCD /set {bootmgr} default {abc} & bcdedit.exe /store S:\EFI\Microsoft\Boot\BCD /deletevalue {bootmgr} bootsequence"
    );
    assert_eq!(
        exit_pe_command_line(r"T:\BCD", None, false),
        r"cmd.exe /c bcdedit.exe /store T:\BCD /enum & bcdedit.exe /store T:\BCD /deletevalue {bootmgr} bootsequence & call echo EXIT_CODE=%errorlevel% & pause"
    );
}

#[test]
fn task_ids_in_every_shape_the_parser_reads() {
    let id = "936da01f-9abd-4d9d-80c7-02af85c822a8";
    let canonical = |text: &str| backuprestore::task::canonical_task_id(text);
    assert_eq!(canonical("936DA01F9ABD4D9D80C702AF85C822A8"), Ok(id.to_string()));
    assert_eq!(canonical("{936da01f-9abd-4d9d-80c7-02af85c822a8}"), Ok(id.to_string()));
    assert_eq!(canonical("URN:uuid:936da01f-9abd-4d9d-80c7-02af85c822a8"), Ok(id.to_string()));
    assert!(canonical("936da01f-9abd-4d9d-80c7-02af85c822ag").is_err());
    assert!(canonical("936da01f9abd-4d9d-80c7-02af85c822a8-").is_err());
    assert!(canonical("(936da01f-9abd-4d9d-80c7-02af85c822a8)").is_err());
}

#[test]
fn image_size_and_terminal_stage_checks() {
    let image = backuprestore::model::ImageSpec {
        volume: identity("image", 100),
        absolute_path: None,
        relative_path: "a.wim".into(),
        sha256: "a".repeat(64),
        size_bytes: 10,
        index: 1,
    };
    assert_eq!(backuprestore::recovery::check_image_size(&image, 10), Ok(()));
    assert_eq!(
        backuprestore::recovery::check_image_size(&image, 11),
        Err(TaskError::Invalid("image size mismatch: expected 10, got 11".into()))
    );
    let unrecorded = backuprestore::model::ImageSpec { size_bytes: 0, ..image };
    assert_eq!(backuprestore::recovery::check_image_size(&unrecorded, 5), Ok(()));
    assert_eq!(backuprestore::recovery::check_not_terminal(Stage::Preflight), Ok(()));
    assert_eq!(
        backuprestore::recovery::check_not_terminal(Stage::Failed),
        Err(TaskError::Invalid("task is already terminal at stage Failed; refusing to run it again".into()))
    );
}

#[test]
fn utf16_lone_surrogates_become_replacement_characters() {
    let bytes = [0xFF, 0xFE, 0x34, 0xD8, 0x1E, 0xDD, 0x6D, 0x00, 0x00, 0xD8, 0x69, 0x00];
    assert_eq!(backuprestore::parsing::decode_bcdedit_bytes(&bytes), "\u{1D11E}m\u{FFFD}i");
}
