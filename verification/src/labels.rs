//! The texts of the desktop front end: control captions, tooltips and the
//! purpose line shown under a selected volume, in both languages. A key the
//! tables do not know gives the empty text.
use vstd::prelude::*;
use crate::gui::{same_str, Language};

verus! {

/// The caption of a control or status text, by key.
pub open spec fn ui_label(language: Language, key: Seq<char>) -> Seq<char> {
    match language {
        Language::Chinese => if key == "operation"@ {
            "操作模式"@
        } else if key == "source"@ {
            "源卷"@
        } else if key == "image"@ {
            "镜像绝对路径"@
        } else if key == "target"@ {
            "目标卷"@
        } else if key == "index"@ {
            "WIM 索引"@
        } else if key == "menu"@ {
            "第二系统名称"@
        } else if key == "compress"@ {
            "压缩率"@
        } else if key == "index_name"@ {
            "索引名"@
        } else if key == "keep"@ {
            "保留最近 N 个"@
        } else if key == "language"@ {
            "语言"@
        } else if key == "refresh"@ {
            "刷新环境"@
        } else if key == "read_image"@ {
            "读取镜像"@
        } else if key == "browse"@ {
            "浏览…"@
        } else if key == "create_task"@ {
            "创建任务"@
        } else if key == "refresh_task"@ {
            "刷新任务状态"@
        } else if key == "initial_status"@ {
            "先点击“刷新环境”确认 Windows、恢复环境和卷身份。默认模式为无破坏探测。"@
        } else if key == "probe"@ {
            "探测（仅检查）"@
        } else if key == "backup"@ {
            "备份"@
        } else if key == "restore"@ {
            "单系统还原"@
        } else if key == "secondary"@ {
            "新增第二系统"@
        } else if key == "probe_hint"@ {
            "探测：只检查 Windows、恢复环境和卷身份；创建任务仅生成并校验任务文件及恢复环境载荷，不备份、不还原、不格式化、不重启。"@
        } else if key == "backup_hint"@ {
            "备份：准备完成后进入 Windows 恢复环境，使用 DISM 捕获指定源分区。"@
        } else if key == "restore_hint"@ {
            "单系统还原：覆盖目标分区，把镜像系统作为唯一 Windows 系统启动。"@
        } else if key == "secondary_hint"@ {
            "新增第二系统：保留当前 Windows，把镜像部署到另一个分区并新增启动项。"@
        } else if key == "pe"@ {
            "PE 恢复"@
        } else if key == "pe_hint"@ {
            "安装 PE 恢复环境：把 PE 镜像（boot.wim）部署为目标卷上的恢复环境，并新增 BCD 启动项「Windows PE (BackupRestore)」；不修改当前 Windows 默认启动。"@
        } else {
            ""@
        },
        Language::English => if key == "operation"@ {
            "Operation"@
        } else if key == "source"@ {
            "Windows source"@
        } else if key == "image"@ {
            "Image absolute path"@
        } else if key == "target"@ {
            "Restore target"@
        } else if key == "index"@ {
            "WIM index"@
        } else if key == "menu"@ {
            "Secondary boot name"@
        } else if key == "compress"@ {
            "Compression"@
        } else if key == "index_name"@ {
            "Image name"@
        } else if key == "keep"@ {
            "Keep latest N"@
        } else if key == "language"@ {
            "Language"@
        } else if key == "refresh"@ {
            "Refresh environment"@
        } else if key == "read_image"@ {
            "Read image"@
        } else if key == "browse"@ {
            "Browse…"@
        } else if key == "create_task"@ {
            "Create task"@
        } else if key == "refresh_task"@ {
            "Refresh task status"@
        } else if key == "initial_status"@ {
            "Click Refresh environment to inspect Windows, WinRE and volume identities. Default mode is non-destructive probe."@
        } else if key == "probe"@ {
            "Inspect"@
        } else if key == "backup"@ {
            "Backup"@
        } else if key == "restore"@ {
            "Restore"@
        } else if key == "secondary"@ {
            "Second system"@
        } else if key == "probe_hint"@ {
            "probe is a non-destructive check: refresh the volumes, keep this mode, then create a task to validate task files and WinRE payloads. No backup, restore, format or reboot."@
        } else if key == "backup_hint"@ {
            "Back up the selected source partition; WinRE performs DISM Capture after preparation."@
        } else if key == "restore_hint"@ {
            "Single-system restore: overwrite the target partition and make it the only Windows system."@
        } else if key == "secondary_hint"@ {
            "Second system: keep the current Windows, deploy the image to another partition and add a boot entry."@
        } else if key == "pe"@ {
            "PE recovery"@
        } else if key == "pe_hint"@ {
            "Install PE recovery: deploy the PE image (boot.wim) to the target volume and add a BCD entry named \"Windows PE (BackupRestore)\". The current Windows default boot is untouched."@
        } else {
            ""@
        },
    }
}

/// The caption of a control or status text in the chosen language.
pub fn ui_text(language: Language, key: &str) -> (r: &'static str)
    ensures
        r@ == ui_label(language, key@),
{
    if language == Language::Chinese {
        if same_str(key, "operation") {
            "操作模式"
        } else if same_str(key, "source") {
            "源卷"
        } else if same_str(key, "image") {
            "镜像绝对路径"
        } else if same_str(key, "target") {
            "目标卷"
        } else if same_str(key, "index") {
            "WIM 索引"
        } else if same_str(key, "menu") {
            "第二系统名称"
        } else if same_str(key, "compress") {
            "压缩率"
        } else if same_str(key, "index_name") {
            "索引名"
        } else if same_str(key, "keep") {
            "保留最近 N 个"
        } else if same_str(key, "language") {
            "语言"
        } else if same_str(key, "refresh") {
            "刷新环境"
        } else if same_str(key, "read_image") {
            "读取镜像"
        } else if same_str(key, "browse") {
            "浏览…"
        } else if same_str(key, "create_task") {
            "创建任务"
        } else if same_str(key, "refresh_task") {
            "刷新任务状态"
        } else if same_str(key, "initial_status") {
            "先点击“刷新环境”确认 Windows、恢复环境和卷身份。默认模式为无破坏探测。"
        } else if same_str(key, "probe") {
            "探测（仅检查）"
        } else if same_str(key, "backup") {
            "备份"
        } else if same_str(key, "restore") {
            "单系统还原"
        } else if same_str(key, "secondary") {
            "新增第二系统"
        } else if same_str(key, "probe_hint") {
            "探测：只检查 Windows、恢复环境和卷身份；创建任务仅生成并校验任务文件及恢复环境载荷，不备份、不还原、不格式化、不重启。"
        } else if same_str(key, "backup_hint") {
            "备份：准备完成后进入 Windows 恢复环境，使用 DISM 捕获指定源分区。"
        } else if same_str(key, "restore_hint") {
            "单系统还原：覆盖目标分区，把镜像系统作为唯一 Windows 系统启动。"
        } else if same_str(key, "secondary_hint") {
            "新增第二系统：保留当前 Windows，把镜像部署到另一个分区并新增启动项。"
        } else if same_str(key, "pe") {
            "PE 恢复"
        } else if same_str(key, "pe_hint") {
            "安装 PE 恢复环境：把 PE 镜像（boot.wim）部署为目标卷上的恢复环境，并新增 BCD 启动项「Windows PE (BackupRestore)」；不修改当前 Windows 默认启动。"
        } else {
            ""
        }
    } else {
        if same_str(key, "operation") {
            "Operation"
        } else if same_str(key, "source") {
            "Windows source"
        } else if same_str(key, "image") {
            "Image absolute path"
        } else if same_str(key, "target") {
            "Restore target"
        } else if same_str(key, "index") {
            "WIM index"
        } else if same_str(key, "menu") {
            "Secondary boot name"
        } else if same_str(key, "compress") {
            "Compression"
        } else if same_str(key, "index_name") {
            "Image name"
        } else if same_str(key, "keep") {
            "Keep latest N"
        } else if same_str(key, "language") {
            "Language"
        } else if same_str(key, "refresh") {
            "Refresh environment"
        } else if same_str(key, "read_image") {
            "Read image"
        } else if same_str(key, "browse") {
            "Browse…"
        } else if same_str(key, "create_task") {
            "Create task"
        } else if same_str(key, "refresh_task") {
            "Refresh task status"
        } else if same_str(key, "initial_status") {
            "Click Refresh environment to inspect Windows, WinRE and volume identities. Default mode is non-destructive probe."
        } else if same_str(key, "probe") {
            "Inspect"
        } else if same_str(key, "backup") {
            "Backup"
        } else if same_str(key, "restore") {
            "Restore"
        } else if same_str(key, "secondary") {
            "Second system"
        } else if same_str(key, "probe_hint") {
            "probe is a non-destructive check: refresh the volumes, keep this mode, then create a task to validate task files and WinRE payloads. No backup, restore, format or reboot."
        } else if same_str(key, "backup_hint") {
            "Back up the selected source partition; WinRE performs DISM Capture after preparation."
        } else if same_str(key, "restore_hint") {
            "Single-system restore: overwrite the target partition and make it the only Windows system."
        } else if same_str(key, "secondary_hint") {
            "Second system: keep the current Windows, deploy the image to another partition and add a boot entry."
        } else if same_str(key, "pe") {
            "PE recovery"
        } else if same_str(key, "pe_hint") {
            "Install PE recovery: deploy the PE image (boot.wim) to the target volume and add a BCD entry named \"Windows PE (BackupRestore)\". The current Windows default boot is untouched."
        } else {
            ""
        }
    }
}

/// The tooltip of a control, by key.
pub open spec fn tooltip_label(language: Language, key: Seq<char>) -> Seq<char> {
    match language {
        Language::Chinese => if key == "probe"@ {
            "探测：仅校验任务、WinRE 和卷身份，不写入磁盘、不重启。"@
        } else if key == "backup"@ {
            "备份：进入 WinRE 后用 DISM 捕获源卷到镜像路径。"@
        } else if key == "restore"@ {
            "单系统还原：格式化目标卷并写入镜像，目标必须是当前系统卷。"@
        } else if key == "secondary"@ {
            "新增第二系统：格式化另一个卷并通过 BCDBoot 添加启动项。"@
        } else if key == "source"@ {
            "选择备份来源或当前 Windows 分区；身份按 GUID 校验。"@
        } else if key == "target"@ {
            "还原时将被格式化的目标分区；备份和探测模式不使用。"@
        } else if key == "image"@ {
            "镜像文件必须是绝对路径，例如 B:\\BackupRestore\\Windows.wim。"@
        } else if key == "index"@ {
            "选择 WIM 索引；下拉项显示索引及详细元数据。"@
        } else if key == "menu"@ {
            "第二系统在 Windows 启动菜单中显示的名称。"@
        } else if key == "compress"@ {
            "备份镜像压缩率（仅首次创建 WIM 时生效）：\n• fast 快速（默认/推荐）：体积仅比 max 大约 10%，但耗时约 1/3.5，性价比最高\n• max 高压缩：WIM 最小，但备份明显更慢（压缩 CPU 开销大）\n• none 不压缩：WIM 最大（约等于源数据量），备份最快\n增量备份说明：镜像已存在时追加为新索引，压缩率沿用 WIM 首次创建时的设置；压缩率不影响能否增量备份。"@
        } else if key == "index_name"@ {
            "备份索引名（写入 WIM 的 Name 字段）。默认是程序启动时间，可修改；追加备份时用于区分历史版本。"@
        } else if key == "keep"@ {
            "保留最近 N 个索引：备份追加成功后自动删除更旧的索引（0=不清理）。删除不可恢复，请谨慎设置。"@
        } else if key == "refresh"@ {
            "刷新 Windows、WinRE 和可用卷信息。"@
        } else if key == "read_image"@ {
            "只读解析 WIM 索引、哈希和元数据。"@
        } else if key == "create_task"@ {
            "创建任务；还原操作会先显示确认对话框。"@
        } else if key == "refresh_task"@ {
            "读取程序目录中的最近任务状态。"@
        } else {
            ""@
        },
        Language::English => if key == "probe"@ {
            "Inspect: validate task, WinRE and volume identities; no disk write or reboot."@
        } else if key == "backup"@ {
            "Backup: enter WinRE and capture the selected source volume with DISM."@
        } else if key == "restore"@ {
            "Restore: format the target volume and apply the image."@
        } else if key == "secondary"@ {
            "Second system: format another volume and add a BCDBoot entry."@
        } else if key == "source"@ {
            "Select the backup source or current Windows volume; GUID identity is verified."@
        } else if key == "target"@ {
            "Restore target to be formatted; unused by backup and inspect."@
        } else if key == "image"@ {
            "The image file must be an absolute path, such as B:\\BackupRestore\\Windows.wim."@
        } else if key == "index"@ {
            "Select a WIM index; each item shows detailed metadata."@
        } else if key == "menu"@ {
            "Name shown for the second system in the Windows boot menu."@
        } else if key == "compress"@ {
            "Backup WIM compression (applies only when the WIM is first created):\n• fast (default/recommended): only ~10% larger than max, but ~1/3.5 the time — best value\n• max high compression: smallest WIM, notably slower backup (CPU cost)\n• none uncompressed: largest WIM (~source size), fastest backup\nIncremental notes: appending to an existing WIM keeps the compression set at first creation; compression does not affect whether incremental backup is available."@
        } else if key == "index_name"@ {
            "Backup image name (written to the WIM Name field). Defaults to program start time; editable. Appended backups use it to distinguish history."@
        } else if key == "keep"@ {
            "Keep latest N indexes: after a successful append, older indexes are deleted (0 = keep all). Deletion is irreversible; set with care."@
        } else if key == "refresh"@ {
            "Refresh Windows, WinRE and eligible volume information."@
        } else if key == "read_image"@ {
            "Read WIM indexes, hash and metadata without modifying the image."@
        } else if key == "create_task"@ {
            "Create the task; restore operations require confirmation."@
        } else if key == "refresh_task"@ {
            "Read the latest task status from the program directory."@
        } else {
            ""@
        },
    }
}

/// The tooltip shown for a control in the chosen language.
pub fn tooltip_text(language: Language, key: &str) -> (r: &'static str)
    ensures
        r@ == tooltip_label(language, key@),
{
    if language == Language::Chinese {
        if same_str(key, "probe") {
            "探测：仅校验任务、WinRE 和卷身份，不写入磁盘、不重启。"
        } else if same_str(key, "backup") {
            "备份：进入 WinRE 后用 DISM 捕获源卷到镜像路径。"
        } else if same_str(key, "restore") {
            "单系统还原：格式化目标卷并写入镜像，目标必须是当前系统卷。"
        } else if same_str(key, "secondary") {
            "新增第二系统：格式化另一个卷并通过 BCDBoot 添加启动项。"
        } else if same_str(key, "source") {
            "选择备份来源或当前 Windows 分区；身份按 GUID 校验。"
        } else if same_str(key, "target") {
            "还原时将被格式化的目标分区；备份和探测模式不使用。"
        } else if same_str(key, "image") {
            "镜像文件必须是绝对路径，例如 B:\\BackupRestore\\Windows.wim。"
        } else if same_str(key, "index") {
            "选择 WIM 索引；下拉项显示索引及详细元数据。"
        } else if same_str(key, "menu") {
            "第二系统在 Windows 启动菜单中显示的名称。"
        } else if same_str(key, "compress") {
            "备份镜像压缩率（仅首次创建 WIM 时生效）：\n• fast 快速（默认/推荐）：体积仅比 max 大约 10%，但耗时约 1/3.5，性价比最高\n• max 高压缩：WIM 最小，但备份明显更慢（压缩 CPU 开销大）\n• none 不压缩：WIM 最大（约等于源数据量），备份最快\n增量备份说明：镜像已存在时追加为新索引，压缩率沿用 WIM 首次创建时的设置；压缩率不影响能否增量备份。"
        } else if same_str(key, "index_name") {
            "备份索引名（写入 WIM 的 Name 字段）。默认是程序启动时间，可修改；追加备份时用于区分历史版本。"
        } else if same_str(key, "keep") {
            "保留最近 N 个索引：备份追加成功后自动删除更旧的索引（0=不清理）。删除不可恢复，请谨慎设置。"
        } else if same_str(key, "refresh") {
            "刷新 Windows、WinRE 和可用卷信息。"
        } else if same_str(key, "read_image") {
            "只读解析 WIM 索引、哈希和元数据。"
        } else if same_str(key, "create_task") {
            "创建任务；还原操作会先显示确认对话框。"
        } else if same_str(key, "refresh_task") {
            "读取程序目录中的最近任务状态。"
        } else {
            ""
        }
    } else {
        if same_str(key, "probe") {
            "Inspect: validate task, WinRE and volume identities; no disk write or reboot."
        } else if same_str(key, "backup") {
            "Backup: enter WinRE and capture the selected source volume with DISM."
        } else if same_str(key, "restore") {
            "Restore: format the target volume and apply the image."
        } else if same_str(key, "secondary") {
            "Second system: format another volume and add a BCDBoot entry."
        } else if same_str(key, "source") {
            "Select the backup source or current Windows volume; GUID identity is verified."
        } else if same_str(key, "target") {
            "Restore target to be formatted; unused by backup and inspect."
        } else if same_str(key, "image") {
            "The image file must be an absolute path, such as B:\\BackupRestore\\Windows.wim."
        } else if same_str(key, "index") {
            "Select a WIM index; each item shows detailed metadata."
        } else if same_str(key, "menu") {
            "Name shown for the second system in the Windows boot menu."
        } else if same_str(key, "compress") {
            "Backup WIM compression (applies only when the WIM is first created):\n• fast (default/recommended): only ~10% larger than max, but ~1/3.5 the time — best value\n• max high compression: smallest WIM, notably slower backup (CPU cost)\n• none uncompressed: largest WIM (~source size), fastest backup\nIncremental notes: appending to an existing WIM keeps the compression set at first creation; compression does not affect whether incremental backup is available."
        } else if same_str(key, "index_name") {
            "Backup image name (written to the WIM Name field). Defaults to program start time; editable. Appended backups use it to distinguish history."
        } else if same_str(key, "keep") {
            "Keep latest N indexes: after a successful append, older indexes are deleted (0 = keep all). Deletion is irreversible; set with care."
        } else if same_str(key, "refresh") {
            "Refresh Windows, WinRE and eligible volume information."
        } else if same_str(key, "read_image") {
            "Read WIM indexes, hash and metadata without modifying the image."
        } else if same_str(key, "create_task") {
            "Create the task; restore operations require confirmation."
        } else if same_str(key, "refresh_task") {
            "Read the latest task status from the program directory."
        } else {
            ""
        }
    }
}

/// What a volume chosen in the role `role` (`source` or `target`) is used
/// for by `operation`.
pub open spec fn role_purpose(role: Seq<char>, operation: Seq<char>, language: Language) -> Seq<char> {
    match language {
        Language::Chinese => if role == "source"@ && operation == "backup"@ {
            "源卷用途：备份时从这里捕获 Windows 分区；镜像不能保存到这个卷。"@
        } else if role == "source"@ && operation == "restore-existing"@ {
            "源卷用途：当前要替换的 Windows 分区；单系统还原会强制目标卷与它相同。"@
        } else if role == "source"@ && operation == "create-secondary"@ {
            "源卷用途：当前保留不覆盖的 Windows 分区；新增第二系统时目标卷必须与它不同。"@
        } else if role == "source"@ {
            "源卷用途：探测时只核验当前 Windows 分区身份；不会备份、还原或写入。"@
        } else if role == "target"@ && operation == "restore-existing"@ {
            "目标卷用途：将被格式化并写入镜像；单系统还原必须选择与源卷相同的分区。"@
        } else if role == "target"@ && operation == "create-secondary"@ {
            "目标卷用途：将被格式化并写入镜像作为第二个 Windows；必须不同于源卷和程序目录所在分区。"@
        } else if role == "target"@ && operation == "backup"@ {
            "目标卷用途：备份模式不会写入此卷；镜像保存位置由“镜像绝对路径”决定。"@
        } else if role == "target"@ {
            "目标卷用途：探测模式只核验身份；不会备份、还原、格式化或写入。"@
        } else {
            ""@
        },
        Language::English => if role == "source"@ && operation == "backup"@ {
            "Purpose: backup captures the Windows partition here; the image cannot be stored on this volume."@
        } else if role == "source"@ && operation == "restore-existing"@ {
            "Purpose: current Windows partition to replace; single-system restore forces target to match it."@
        } else if role == "source"@ && operation == "create-secondary"@ {
            "Purpose: current Windows to keep; a secondary-system target must differ from it."@
        } else if role == "source"@ {
            "Purpose: probe only checks the current Windows volume identity; it never writes the volume."@
        } else if role == "target"@ && operation == "restore-existing"@ {
            "Purpose: will be formatted and receive the image; single-system restore must select the source partition."@
        } else if role == "target"@ && operation == "create-secondary"@ {
            "Purpose: will be formatted and receive the second Windows; it must differ from source and the program directory volume."@
        } else if role == "target"@ && operation == "backup"@ {
            "Purpose: backup does not write this volume; image storage comes from Image absolute path."@
        } else if role == "target"@ {
            "Purpose: probe only checks identity; it never backs up, restores, formats or writes this volume."@
        } else {
            ""@
        },
    }
}

/// The purpose line shown under a selected volume.
pub fn drive_role_description(role: &str, operation: &str, language: Language) -> (r: &'static str)
    ensures
        r@ == role_purpose(role@, operation@, language),
{
    if language == Language::Chinese {
        if same_str(role, "source") && same_str(operation, "backup") {
            "源卷用途：备份时从这里捕获 Windows 分区；镜像不能保存到这个卷。"
        } else if same_str(role, "source") && same_str(operation, "restore-existing") {
            "源卷用途：当前要替换的 Windows 分区；单系统还原会强制目标卷与它相同。"
        } else if same_str(role, "source") && same_str(operation, "create-secondary") {
            "源卷用途：当前保留不覆盖的 Windows 分区；新增第二系统时目标卷必须与它不同。"
        } else if same_str(role, "source") {
            "源卷用途：探测时只核验当前 Windows 分区身份；不会备份、还原或写入。"
        } else if same_str(role, "target") && same_str(operation, "restore-existing") {
            "目标卷用途：将被格式化并写入镜像；单系统还原必须选择与源卷相同的分区。"
        } else if same_str(role, "target") && same_str(operation, "create-secondary") {
            "目标卷用途：将被格式化并写入镜像作为第二个 Windows；必须不同于源卷和程序目录所在分区。"
        } else if same_str(role, "target") && same_str(operation, "backup") {
            "目标卷用途：备份模式不会写入此卷；镜像保存位置由“镜像绝对路径”决定。"
        } else if same_str(role, "target") {
            "目标卷用途：探测模式只核验身份；不会备份、还原、格式化或写入。"
        } else {
            ""
        }
    } else {
        if same_str(role, "source") && same_str(operation, "backup") {
            "Purpose: backup captures the Windows partition here; the image cannot be stored on this volume."
        } else if same_str(role, "source") && same_str(operation, "restore-existing") {
            "Purpose: current Windows partition to replace; single-system restore forces target to match it."
        } else if same_str(role, "source") && same_str(operation, "create-secondary") {
            "Purpose: current Windows to keep; a secondary-system target must differ from it."
        } else if same_str(role, "source") {
            "Purpose: probe only checks the current Windows volume identity; it never writes the volume."
        } else if same_str(role, "target") && same_str(operation, "restore-existing") {
            "Purpose: will be formatted and receive the image; single-system restore must select the source partition."
        } else if same_str(role, "target") && same_str(operation, "create-secondary") {
            "Purpose: will be formatted and receive the second Windows; it must differ from source and the program directory volume."
        } else if same_str(role, "target") && same_str(operation, "backup") {
            "Purpose: backup does not write this volume; image storage comes from Image absolute path."
        } else if same_str(role, "target") {
            "Purpose: probe only checks identity; it never backs up, restores, formats or writes this volume."
        } else {
            ""
        }
    }
}
} // verus!
