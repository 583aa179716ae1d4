use backuprestore::json::{drive_infos, image_index_numbers, json_text, wim_images, JsonNumber, JsonValue, WimImageInfo};
use backuprestore::parsing::{
    classify_mountvol_output, decode_bcdedit_bytes, first_braced_guid, quote_argument,
    MountedVolumes, VolumeMountQuery,
};
use backuprestore::percent::parse_percent;
use backuprestore::progress::{classify_log_line, classify_window_line};
use backuprestore::sizes::format_bytes;

fn to_json(value: &serde_json::Value) -> JsonValue {
    match value {
        serde_json::Value::Null => JsonValue::Null,
        serde_json::Value::Bool(b) => JsonValue::Bool(*b),
        serde_json::Value::Number(n) => JsonValue::Number(if let Some(u) = n.as_u64() {
            JsonNumber::Unsigned(u)
        } else if let Some(i) = n.as_i64() {
            JsonNumber::Negative(i)
        } else {
            JsonNumber::Other
        }),
        serde_json::Value::String(s) => JsonValue::Str(s.clone()),
        serde_json::Value::Array(items) => JsonValue::Array(items.iter().map(to_json).collect()),
        serde_json::Value::Object(members) => JsonValue::Object(
            members
                .iter()
                .map(|(k, v)| (k.clone(), to_json(v)))
                .collect(),
        ),
    }
}

fn parse_wim_images(output: &str) -> Result<Vec<WimImageInfo>, String> {
    let value: serde_json::Value = serde_json::from_str(output)
        .map_err(|error| format!("WIM metadata JSON parse failed: {error}"))?;
    wim_images(&to_json(&value))
}

fn object(members: Vec<(&str, JsonValue)>) -> JsonValue {
    let mut members: Vec<(String, JsonValue)> =
        members.into_iter().map(|(k, v)| (k.to_string(), v)).collect();
    members.sort_by(|a, b| a.0.cmp(&b.0));
    JsonValue::Object(members)
}

#[test]
fn mountvol_query_keeps_timeout_distinct_from_unmounted() {
    assert_eq!(
        classify_mountvol_output(true, "\\\\?\\Volume{1234}\\\r\n"),
        VolumeMountQuery::Mounted("\\\\?\\Volume{1234}\\".to_string())
    );
    assert_eq!(classify_mountvol_output(false, ""), VolumeMountQuery::Unmounted);
    assert_eq!(classify_mountvol_output(true, ""), VolumeMountQuery::Unknown);
    assert_eq!(
        classify_mountvol_output(true, "   \r\n  \r\n"),
        VolumeMountQuery::Unknown
    );
    assert_ne!(classify_mountvol_output(true, ""), VolumeMountQuery::Unmounted);
}

#[test]
fn mountvol_query_skips_leading_blank_lines() {
    assert_eq!(
        classify_mountvol_output(true, "\r\n\r\n    \\\\?\\Volume{abcd}\\   \r\n"),
        VolumeMountQuery::Mounted("\\\\?\\Volume{abcd}\\".to_string())
    );
}

#[test]
fn json_text_reads_string_number_and_boolean_values() {
    let value = object(vec![
        ("hasWindowsInstallation", JsonValue::Bool(true)),
        ("name", JsonValue::Str("C".into())),
        ("count", JsonValue::Number(JsonNumber::Unsigned(7))),
        ("negative", JsonValue::Number(JsonNumber::Negative(-3))),
    ]);
    assert_eq!(json_text(&value, "hasWindowsInstallation"), "true");
    assert_eq!(json_text(&value, "name"), "C");
    assert_eq!(json_text(&value, "count"), "7");
    assert_eq!(json_text(&value, "negative"), "-3");
    assert_eq!(json_text(&value, "missing"), "");
    assert_eq!(
        json_text(
            &object(vec![("hasWindowsInstallation", JsonValue::Bool(false))]),
            "hasWindowsInstallation"
        ),
        "false"
    );
}

#[test]
fn wim_metadata_accepts_array_single_object_and_wrapper() {
    let array = r#"[{"ImageIndex":"1"},{"ImageIndex":"2"}]"#;
    assert_eq!(parse_wim_images(array).unwrap().len(), 2);

    let single = r#"{"ImageIndex":1,"ImageName":"Win11"}"#;
    let images = parse_wim_images(single).unwrap();
    assert_eq!(images.len(), 1);
    assert_eq!(images[0].index, 1);
    assert_eq!(images[0].name, "Win11");

    let wrapped = r#"{"images":[{"ImageIndex":3,"ImageName":"备份 2026"}]}"#;
    let images = parse_wim_images(wrapped).unwrap();
    assert_eq!(images[0].index, 3);
    assert_eq!(images[0].name, "备份 2026");
}

#[test]
fn wim_metadata_rejects_unusable_indexes_and_shapes() {
    assert!(parse_wim_images("not json").is_err());
    assert!(parse_wim_images(r#"{"ImageIndex":0}"#).is_err());
    assert!(parse_wim_images(r#"{"ImageIndex":"abc"}"#).is_err());
    assert!(parse_wim_images("[]").is_err());
    assert!(parse_wim_images(r#"{"unrelated":1}"#).is_err());
}

#[test]
fn wim_metadata_keeps_all_display_fields_and_optional_size() {
    let images = parse_wim_images(
        r#"[{"ImageIndex":2,"ImageName":"n","ImageDescription":"d","ImageVersion":"10.0.26100",
             "Architecture":"ARM64","EditionId":"Professional","InstallationType":"Client",
             "ImageSize":"1048576"}]"#,
    )
    .unwrap();
    let image = &images[0];
    assert_eq!(image.description, "d");
    assert_eq!(image.version, "10.0.26100");
    assert_eq!(image.architecture, "ARM64");
    assert_eq!(image.edition, "Professional");
    assert_eq!(image.installation_type, "Client");
    assert_eq!(image.size_bytes, Some(1_048_576));

    let no_size = parse_wim_images(r#"[{"ImageIndex":1}]"#).unwrap();
    assert_eq!(no_size[0].size_bytes, None);
}

#[test]
fn command_arguments_quote_spaces_quotes_and_empty_values() {
    assert_eq!(quote_argument("备份 2026"), "\"备份 2026\"");
    assert_eq!(quote_argument("plain"), "plain");
    assert_eq!(quote_argument(""), "\"\"");
    assert_eq!(quote_argument("a\tb"), "\"a\tb\"");
    assert_eq!(quote_argument("say \"hi\""), "\"say \\\"hi\\\"\"");
    assert_eq!(quote_argument(r"C:\dir\file.wim"), r"C:\dir\file.wim");
    assert_eq!(
        quote_argument(r"C:\my dir\file.wim"),
        "\"C:\\my dir\\file.wim\""
    );
}

fn utf16le(text: &str, bom: bool) -> Vec<u8> {
    let mut bytes = Vec::new();
    if bom {
        bytes.extend_from_slice(&[0xFF, 0xFE]);
    }
    for unit in text.encode_utf16() {
        bytes.extend_from_slice(&unit.to_le_bytes());
    }
    bytes
}

#[test]
fn bcdedit_output_decodes_utf8_and_utf16_with_or_without_bom() {
    let guid = "{d2264b2f-1111-2222-3333-444455556666}";
    let line = format!("标识符                  {guid}");

    assert_eq!(decode_bcdedit_bytes(line.as_bytes()), line);
    assert_eq!(decode_bcdedit_bytes(&utf16le(&line, true)), line);
    assert_eq!(decode_bcdedit_bytes(&utf16le(&line, false)), line);

    for bytes in [
        line.as_bytes().to_vec(),
        utf16le(&line, true),
        utf16le(&line, false),
    ] {
        let decoded = decode_bcdedit_bytes(&bytes);
        assert_eq!(
            first_braced_guid(&decoded).as_deref(),
            Some("d2264b2f-1111-2222-3333-444455556666")
        );
    }
}

#[test]
fn braced_guid_extraction_handles_missing_and_partial_braces() {
    assert_eq!(first_braced_guid("no braces here"), None);
    assert_eq!(first_braced_guid("{unterminated"), None);
    assert_eq!(first_braced_guid("{}"), Some(String::new()));
    assert_eq!(
        first_braced_guid("{first} {second}").as_deref(),
        Some("first")
    );
}

#[test]
fn shared_volumes_reuse_one_letter_across_roles() {
    let mut mounts = MountedVolumes::new();
    let guid = "\\\\?\\Volume{761230e8-107c-4396-8c37-82273720183d}\\";
    assert_eq!(mounts.existing(guid), None);

    mounts.record(guid, 'R');
    assert_eq!(mounts.existing(guid), Some('R'));

    let other = "\\\\?\\Volume{93ec4ed8-db74-4ebb-8b73-cd771c07ac72}\\";
    assert_eq!(mounts.existing(other), None);
    mounts.record(other, 'S');
    assert_eq!(mounts.existing(other), Some('S'));
    assert_eq!(mounts.existing(guid), Some('R'));
}

#[test]
fn volume_guid_matching_ignores_case() {
    let mut mounts = MountedVolumes::new();
    mounts.record("\\\\?\\Volume{ABCD-1234}\\", 'T');
    assert_eq!(mounts.existing("\\\\?\\volume{abcd-1234}\\"), Some('T'));
}

#[test]
fn dism_percent_parses_decimals_and_rejects_out_of_range() {
    assert_eq!(parse_percent("[stdout] [=  45.6% =]"), Some(45));
    assert_eq!(parse_percent("[stdout] [==100.0%==]"), Some(100));
    assert_eq!(parse_percent("[  0.0%  ]"), Some(0));
    assert_eq!(parse_percent("no percent sign"), None);
    assert_eq!(parse_percent("[999%]"), None);
    assert_eq!(parse_percent("[abc%]"), None);
}

#[test]
fn log_lines_map_to_stage_percent_and_detail() {
    let (stage, percent, detail) =
        classify_log_line("running dism.exe /Capture-Image /ImageFile:E:\\1.wim");
    assert_eq!(stage.as_deref(), Some("正在备份系统分区…"));
    assert_eq!(percent, None);
    assert!(detail.is_some());

    assert_eq!(
        classify_log_line("running dism.exe /Apply-Image").0.as_deref(),
        Some("正在还原系统分区…")
    );
    assert_eq!(
        classify_log_line("Recovery completed").0.as_deref(),
        Some("操作完成")
    );
    assert_eq!(
        classify_log_line("Backup capture finished").0.as_deref(),
        Some("备份完成，正在校验镜像…")
    );
    assert_eq!(
        classify_log_line("Recovery.exe started from env").0.as_deref(),
        Some("正在准备恢复环境…")
    );
    assert_eq!(
        classify_log_line("Scanning the system partition").0.as_deref(),
        Some("正在扫描系统分区…")
    );
}

#[test]
fn progress_only_lines_and_blanks_leave_the_detail_box_alone() {
    assert_eq!(classify_log_line("[stdout] [=  45.6% =]").2, None);
    assert_eq!(classify_log_line("   ").2, None);
    assert_eq!(classify_log_line("[= 10% =]").2, None);
    assert_eq!(
        classify_log_line("copied 10% of the payload").2.as_deref(),
        Some("copied 10% of the payload")
    );
    assert_eq!(
        classify_log_line("plain message\r\n").2.as_deref(),
        Some("plain message")
    );
}

#[test]
fn percent_labels_round_like_single_precision_near_whole_numbers() {
    // Within the rounding gap below a whole number the label counts as it.
    assert_eq!(parse_percent("[99.99999999%]"), Some(100));
    assert_eq!(parse_percent("[0.99999998%]"), Some(1));
    assert_eq!(parse_percent("[0.99999997%]"), Some(0));
    assert_eq!(parse_percent("[63.999998%]"), Some(63));
    // Just above 100 only the values that round back to 100 pass.
    assert_eq!(parse_percent("[100.000001%]"), Some(100));
    assert_eq!(parse_percent("[100.00001%]"), None);
    assert_eq!(parse_percent("[100.0000038147%]"), None);
    // A label that is not a decimal number leaves the search to the next `%`.
    assert_eq!(parse_percent("[1.2.3%] [57.%]"), Some(57));
    assert_eq!(parse_percent("[.%] [.5%]"), Some(0));
    assert_eq!(parse_percent("12%"), Some(12));
}

#[test]
fn log_lines_carry_the_progress_percentage() {
    let (stage, percent, detail) = classify_log_line("[stdout] [=  45.6% =]");
    assert_eq!(stage, None);
    assert_eq!(percent, Some(45));
    assert_eq!(detail, None);
    assert_eq!(classify_log_line("Saving image").0.as_deref(), Some("正在备份系统分区…"));
    assert_eq!(classify_log_line("Applying image").0.as_deref(), Some("正在还原系统分区…"));
}

fn parse_drive_infos(output: &str) -> Result<Vec<backuprestore::gui::DriveInfo>, String> {
    let value: serde_json::Value = serde_json::from_str(output)
        .map_err(|error| format!("volume metadata JSON parse failed: {error}"))?;
    drive_infos(&to_json(&value))
}

#[test]
fn volume_listing_keeps_one_sorted_entry_per_letter() {
    let listing = r#"[
        {"letter": "d:", "label": "Data", "filesystem": "NTFS", "sizeBytes": "2048", "freeBytes": 1024,
         "volumeGuid": "\\\\?\\Volume{1}\\", "diskNumber": 0, "partitionNumber": "3",
         "partitionTypeGuid": "{ebd0a0a2}", "hasWindowsInstallation": false},
        {"letter": " c ", "label": "System", "sizeBytes": "not a number", "hasWindowsInstallation": "TRUE"},
        {"letter": "D", "label": "Second D"},
        {"letter": "1", "label": "digit"},
        {"letter": "", "label": "none"},
        {"letter": "é", "label": "accent"}
    ]"#;
    let drives = parse_drive_infos(listing).unwrap();
    assert_eq!(drives.len(), 2);
    assert_eq!(drives[0].letter, "C");
    assert_eq!(drives[0].label, "System");
    assert_eq!(drives[0].size_bytes, None);
    assert!(drives[0].has_windows_installation);
    assert_eq!(drives[1].letter, "D");
    assert_eq!(drives[1].label, "Data");
    assert_eq!(drives[1].filesystem, "NTFS");
    assert_eq!(drives[1].size_bytes, Some(2048));
    assert_eq!(drives[1].free_bytes, Some(1024));
    assert_eq!(drives[1].disk_number, Some(0));
    assert_eq!(drives[1].partition_number, Some(3));
    assert_eq!(drives[1].partition_type_guid, "{ebd0a0a2}");
    assert!(!drives[1].has_windows_installation);

    let single = parse_drive_infos(r#"{"letter": "e", "label": "USB"}"#).unwrap();
    assert_eq!(single.len(), 1);
    assert_eq!(single[0].letter, "E");

    assert_eq!(
        parse_drive_infos(r#"{"label": "no letter"}"#).unwrap_err(),
        "volume metadata did not return a volume object or array"
    );
    assert_eq!(
        parse_drive_infos(r#"[{"letter": "12"}, {"letter": ":"}]"#).unwrap_err(),
        "no eligible mounted volumes were returned"
    );
    assert_eq!(
        parse_drive_infos("[]").unwrap_err(),
        "no eligible mounted volumes were returned"
    );
}

#[test]
fn byte_sizes_scale_and_report_unknown() {
    assert_eq!(format_bytes(None), "?");
    assert_eq!(format_bytes(Some(0)), "0 B");
    assert_eq!(format_bytes(Some(1023)), "1023 B");
    assert_eq!(format_bytes(Some(1024)), "1.0 KiB");
    assert_eq!(format_bytes(Some(1536)), "1.5 KiB");
    assert_eq!(format_bytes(Some(1024 * 1024)), "1.0 MiB");
    assert_eq!(format_bytes(Some(1024 * 1024 * 1024)), "1.0 GiB");
    // Saturates at GiB rather than inventing a TiB unit.
    assert_eq!(
        format_bytes(Some(2 * 1024 * 1024 * 1024 * 1024)),
        "2048.0 GiB"
    );
}

#[test]
fn byte_sizes_round_the_last_place_half_to_even() {
    assert_eq!(format_bytes(Some(1280)), "1.2 KiB");
    assert_eq!(format_bytes(Some(1792)), "1.8 KiB");
    assert_eq!(format_bytes(Some(1331)), "1.3 KiB");
    assert_eq!(format_bytes(Some(1126)), "1.1 KiB");
    // Just below a unit boundary the value rounds up within the smaller unit.
    assert_eq!(format_bytes(Some(1024 * 1024 - 1)), "1024.0 KiB");
    // Counts beyond 2^53 are first rounded to the nearest double.
    assert_eq!(format_bytes(Some(u64::MAX)), "17179869184.0 GiB");
    assert_eq!(format_bytes(Some((1u64 << 53) + 1)), "8388608.0 GiB");
}

#[test]
fn recovery_window_lines_use_its_own_captions() {
    let (stage, percent, detail) = classify_window_line("Recovery completed");
    assert_eq!(stage.as_deref(), Some("恢复完成，即将重启…"));
    assert_eq!(percent, None);
    assert_eq!(detail.as_deref(), Some("Recovery completed"));
    // The window does not announce scanning, and only DISM's own bars are
    // kept out of the detail line.
    assert_eq!(classify_window_line("Scanning the system partition").0, None);
    assert_eq!(classify_window_line("[stdout] [= 45.6% =]").2, None);
    assert_eq!(classify_window_line("[stdout] [= 45.6% =]").1, Some(45));
    assert_eq!(classify_window_line("[= 10% =]").2.as_deref(), Some("[= 10% =]"));
    assert_eq!(classify_window_line("  \t").2, None);
}

#[test]
fn json_text_reads_boolean_values() {
    let value = object(vec![
        ("hasWindowsInstallation", JsonValue::Bool(true)),
        ("name", JsonValue::Str("C".to_string())),
        ("count", JsonValue::Number(JsonNumber::Unsigned(7))),
    ]);
    assert_eq!(json_text(&value, "hasWindowsInstallation"), "true");
    assert_eq!(json_text(&value, "name"), "C");
    assert_eq!(json_text(&value, "count"), "7");
    assert_eq!(json_text(&value, "missing"), "");
    assert_eq!(
        json_text(
            &object(vec![("hasWindowsInstallation", JsonValue::Bool(false))]),
            "hasWindowsInstallation"
        ),
        "false"
    );
}

#[test]
fn wim_listing_index_numbers_in_order() {
    let listing = r#"[{"ImageIndex": 2}, {"ImageIndex": "3"}, {"Other": 1}, {"ImageIndex": 1}]"#;
    let value: serde_json::Value = serde_json::from_str(listing).unwrap();
    assert_eq!(image_index_numbers(&to_json(&value)), vec![2, 1]);
    let single: serde_json::Value = serde_json::from_str(r#"{"ImageIndex": 4}"#).unwrap();
    assert_eq!(image_index_numbers(&to_json(&single)), vec![4]);
}

#[test]
fn bcdedit_utf16_output_keeps_characters_beyond_the_basic_plane() {
    let line = "描述 😀 {d2264b2f-1111-2222-3333-444455556666}";
    assert_eq!(decode_bcdedit_bytes(&utf16le(line, true)), line);
    assert_eq!(decode_bcdedit_bytes(&utf16le(line, false)), line);
}
