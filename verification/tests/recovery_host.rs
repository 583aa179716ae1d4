use backuprestore::bcd::{bcd_identifier_from_line, parse_boot_manager_state, secondary_loader_identifier};
use backuprestore::model::Stage;
use backuprestore::recovery::{
    diskpart_format_script, parse_recover_options, split_workspace_root_rel,
    stage_resumable_after_interruption,
};

#[test]
fn recover_options_accept_explicit_efi_root() {
    let options =
        parse_recover_options(vec!["--dry-run".into(), "--efi-root".into(), "E:\\".into()])
            .expect("options should parse");
    assert!(options.dry_run);
    assert_eq!(options.efi_root.unwrap(), "E:\\");
}

#[test]
fn recover_options_reject_unknown_or_incomplete_flags() {
    assert!(parse_recover_options(vec!["--unknown".into()]).is_err());
    assert!(parse_recover_options(vec!["--efi-root".into()]).is_err());
}

#[test]
fn diskpart_format_script_uses_verified_target_numbers() {
    assert_eq!(
        diskpart_format_script(Some(3), Some(2)).unwrap(),
        "select disk 3\r\nselect partition 2\r\nformat fs=ntfs quick\r\n"
    );
    assert!(diskpart_format_script(None, Some(2)).is_err());
    assert!(diskpart_format_script(Some(3), None).is_err());
    assert!(diskpart_format_script(Some(3), Some(0)).is_err());
}

#[test]
fn workspace_path_allows_directory_named_tasks() {
    let task_id = "11111111-1111-4111-8111-111111111111";
    assert_eq!(
        split_workspace_root_rel(&format!("tasks\\tasks\\{task_id}"), task_id).unwrap(),
        "tasks"
    );
    assert_eq!(
        split_workspace_root_rel(
            &format!("Tools\\tasks\\BackupRestore\\tasks\\{task_id}"),
            task_id
        )
        .unwrap(),
        "Tools\\tasks\\BackupRestore"
    );
    assert!(
        split_workspace_root_rel("..\\tasks\\11111111-1111-4111-8111-111111111111", task_id)
            .is_err()
    );
    assert!(
        split_workspace_root_rel("tasks\\tasks\\22222222-2222-4222-8222-222222222222", task_id)
            .is_err()
    );
}

#[test]
fn bcd_identifier_parser_ignores_localized_field_labels() {
    assert_eq!(
        bcd_identifier_from_line("\u{fffd}\u{fffd}\u{fffd} {3f66f61e-a1ce-11f1-9d29-f5ba5ed7cdd2}")
            .as_deref(),
        Some("{3f66f61e-a1ce-11f1-9d29-f5ba5ed7cdd2}")
    );
    assert_eq!(bcd_identifier_from_line("device partition=H:"), None);
    assert_eq!(bcd_identifier_from_line("{not-a-bcd-guid}"), None);
}

#[test]
fn secondary_loader_selection_ignores_resume_object() {
    let output = "Windows Boot Loader\nidentifier {11111111-2222-4333-8444-555555555555}\ndevice partition=Q:\nosdevice partition=Q:\npath \\Windows\\system32\\winload.efi\n\nWindows Resume Application\nidentifier {22222222-3333-4444-8555-666666666666}\ndevice partition=Q:\npath \\Windows\\system32\\winresume.efi";
    let selected = secondary_loader_identifier(output, 'q');
    assert_eq!(selected.as_deref(), Some("{11111111-2222-4333-8444-555555555555}"));
}

#[test]
fn boot_manager_state_parser_accepts_guid_and_alias_only() {
    assert_eq!(
        parse_boot_manager_state(
            "Firmware Boot Manager\nidentifier {aaaaaaaa-bbbb-4ccc-8ddd-eeeeeeeeeeee}\ndisplayorder {ffffffff-1111-4222-8333-444444444444}\n\nWindows Boot Manager\nidentifier {9dea862c-5cdd-4e70-acc1-f32b344d4795}\ndefault {11111111-2222-4333-8444-555555555555}\ndisplayorder {11111111-2222-4333-8444-555555555555}"
        )
        .unwrap()
        .default,
        "{11111111-2222-4333-8444-555555555555}"
    );
    assert_eq!(
        parse_boot_manager_state(
            "Windows Boot Manager\nidentifier {9dea862c-5cdd-4e70-acc1-f32b344d4795}\n默认 {default}\n显示顺序 {default}"
        )
        .unwrap()
        .display_order,
        vec!["{default}"]
    );
    assert!(parse_boot_manager_state("default dangerous;value").is_none());
}

#[test]
fn interruption_resume_accepts_only_staged_nonterminal_tasks() {
    assert!(!stage_resumable_after_interruption(Stage::Prepared));
    assert!(stage_resumable_after_interruption(Stage::BootRequested));
    assert!(stage_resumable_after_interruption(Stage::TargetErased));
    assert!(stage_resumable_after_interruption(Stage::ImageApplied));
    assert!(stage_resumable_after_interruption(Stage::BootRepaired));
    assert!(!stage_resumable_after_interruption(Stage::Success));
    assert!(!stage_resumable_after_interruption(Stage::Failed));
}
