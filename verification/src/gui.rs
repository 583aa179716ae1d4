//! The decisions behind the desktop front end: labels for operations and
//! volumes, how two listed volumes are compared, the PE directory field,
//! and what a task request may ask for before anything is prepared.
use vstd::prelude::*;
use crate::model::TaskError;
use crate::paths::{absolute_path_ok, validate_absolute_path};
use crate::text::{chars_of, contains, contains_seq, eq_ic, is_alpha, is_prefix, lines, lines_of, owned, starts_with, str_eq_ignore_ascii_case, string_from, to_upper, trim, trim_chars, upper, upper_seq, to_ascii_uppercase};

verus! {

/// The language of the user interface.
#[derive(Debug, Clone, Copy, PartialEq, Eq, Structural)]
pub enum Language {
    Chinese,
    English,
}

pub open spec fn operation_label(language: Language, operation: Seq<char>) -> Seq<char> {
    match language {
        Language::Chinese => if operation == "probe"@ {
            "探测（仅检查）"@
        } else if operation == "backup"@ {
            "备份"@
        } else if operation == "restore-existing"@ {
            "单系统还原"@
        } else if operation == "create-secondary"@ {
            "新增第二系统"@
        } else if operation == "install-pe-entry"@ {
            "安装 PE 恢复环境"@
        } else {
            ""@
        },
        Language::English => if operation == "probe"@ {
            "Inspect"@
        } else if operation == "backup"@ {
            "Backup"@
        } else if operation == "restore-existing"@ {
            "Restore"@
        } else if operation == "create-secondary"@ {
            "Second system"@
        } else if operation == "install-pe-entry"@ {
            "Install PE recovery"@
        } else {
            ""@
        },
    }
}

pub(crate) fn same_str(a: &str, b: &str) -> (r: bool)
    ensures
        r == (a@ == b@),
{
    crate::text::seq_eq(chars_of(a).as_slice(), chars_of(b).as_slice())
}

/// The name an operation is shown by.
pub fn operation_display(language: Language, operation: &str) -> (r: &'static str)
    ensures
        r@ == operation_label(language, operation@),
{
    let english = language == Language::English;
    if same_str(operation, "probe") {
        if english { "Inspect" } else { "探测（仅检查）" }
    } else if same_str(operation, "backup") {
        if english { "Backup" } else { "备份" }
    } else if same_str(operation, "restore-existing") {
        if english { "Restore" } else { "单系统还原" }
    } else if same_str(operation, "create-secondary") {
        if english { "Second system" } else { "新增第二系统" }
    } else if same_str(operation, "install-pe-entry") {
        if english { "Install PE recovery" } else { "安装 PE 恢复环境" }
    } else {
        ""
    }
}

pub open spec fn hint_key(operation: Seq<char>) -> Seq<char> {
    if operation == "backup"@ {
        "backup_hint"@
    } else if operation == "restore-existing"@ {
        "restore_hint"@
    } else if operation == "create-secondary"@ {
        "secondary_hint"@
    } else if operation == "install-pe-entry"@ {
        "pe_hint"@
    } else {
        "probe_hint"@
    }
}

/// The key of the guidance text shown for an operation.
pub fn operation_hint_key(operation: &str) -> (r: &'static str)
    ensures
        r@ == hint_key(operation@),
{
    if same_str(operation, "backup") {
        "backup_hint"
    } else if same_str(operation, "restore-existing") {
        "restore_hint"
    } else if same_str(operation, "create-secondary") {
        "secondary_hint"
    } else if same_str(operation, "install-pe-entry") {
        "pe_hint"
    } else {
        "probe_hint"
    }
}

/// The three compression choices, in the order DISM's `max`, `fast` and
/// `none` are offered.
pub fn compress_level_labels(language: Language) -> (r: [&'static str; 3])
    ensures
        language == Language::Chinese ==> r[0]@ == "LZX（文件最小，耗时特别长，CPU占用特别多）"@
            && r[1]@ == "XPRESS（推荐！文件稍大，非常快，CPU占用低）"@ && r[2]@
            == "不压缩（最快，文件最大，几乎不耗CPU）"@,
        language == Language::English ==> r[0]@ == "LZX (smallest file, very slow, highest CPU)"@
            && r[1]@ == "XPRESS (recommended! slightly larger, very fast, low CPU)"@ && r[2]@
            == "No compression (fastest, largest file, almost no CPU)"@,
{
    if language == Language::Chinese {
        [
            "LZX（文件最小，耗时特别长，CPU占用特别多）",
            "XPRESS（推荐！文件稍大，非常快，CPU占用低）",
            "不压缩（最快，文件最大，几乎不耗CPU）",
        ]
    } else {
        [
            "LZX (smallest file, very slow, highest CPU)",
            "XPRESS (recommended! slightly larger, very fast, low CPU)",
            "No compression (fastest, largest file, almost no CPU)",
        ]
    }
}

/// The DISM compression for the selected entry of the compression list:
/// the first is `max`, the third `none`, anything else `fast`.
pub open spec fn compression_for(selection: Option<usize>) -> Seq<char> {
    match selection {
        Some(0) => "max"@,
        Some(2) => "none"@,
        _ => "fast"@,
    }
}

pub fn compression_value(selection: Option<usize>) -> (r: &'static str)
    ensures
        r@ == compression_for(selection),
{
    match selection {
        Some(0) => "max",
        Some(2) => "none",
        _ => "fast",
    }
}

/// The default name of a PE boot entry.
pub open spec fn pe_entry_name(language: Language, mode_ram: bool) -> Seq<char> {
    if mode_ram {
        if language == Language::Chinese {
            "Windows PE (BackupRestore) 内存启动"@
        } else {
            "Windows PE (BackupRestore) RAM"@
        }
    } else if language == Language::Chinese {
        "Windows PE (BackupRestore) 硬盘启动"@
    } else {
        "Windows PE (BackupRestore) Disk"@
    }
}

pub fn pe_entry_description(language: Language, mode_ram: bool) -> (r: String)
    ensures
        r@ == pe_entry_name(language, mode_ram),
{
    if mode_ram {
        if language == Language::Chinese {
            owned("Windows PE (BackupRestore) 内存启动")
        } else {
            owned("Windows PE (BackupRestore) RAM")
        }
    } else if language == Language::Chinese {
        owned("Windows PE (BackupRestore) 硬盘启动")
    } else {
        owned("Windows PE (BackupRestore) Disk")
    }
}

/// A volume as the front end lists it.
#[derive(Debug, Clone, PartialEq, Eq)]
pub struct DriveInfo {
    pub letter: String,
    pub label: String,
    pub filesystem: String,
    pub size_bytes: Option<u64>,
    pub free_bytes: Option<u64>,
    pub volume_guid: String,
    pub disk_number: Option<u32>,
    pub partition_number: Option<u32>,
    pub partition_type_guid: String,
    pub has_windows_installation: bool,
}

/// Two listed volumes are the same partition: by volume GUID where both
/// have one; else by disk and partition number where both have a partition
/// type and numbers; else by drive letter (ignoring ASCII case).
pub open spec fn same_listed_partition(left: Option<DriveInfo>, right: Option<DriveInfo>) -> bool {
    match (left, right) {
        (Some(l), Some(r)) => if l.volume_guid@.len() > 0 && r.volume_guid@.len() > 0 {
            eq_ic(l.volume_guid@, r.volume_guid@)
        } else if l.partition_type_guid@.len() > 0 && r.partition_type_guid@.len() > 0
            && l.disk_number is Some && l.partition_number is Some && l.disk_number
            == r.disk_number && l.partition_number == r.partition_number {
            true
        } else {
            eq_ic(l.letter@, r.letter@)
        },
        _ => false,
    }
}

pub fn same_partition_by_gui_identity(left: Option<&DriveInfo>, right: Option<&DriveInfo>) -> (b: bool)
    ensures
        b == same_listed_partition(
            match left {
                Some(l) => Some(*l),
                None => None,
            },
            match right {
                Some(r) => Some(*r),
                None => None,
            },
        ),
{
    match left {
        Some(l) => match right {
            Some(r) => {
                if chars_of(l.volume_guid.as_str()).len() > 0 && chars_of(r.volume_guid.as_str()).len() > 0 {
                    return str_eq_ignore_ascii_case(l.volume_guid.as_str(), r.volume_guid.as_str());
                }
                if chars_of(l.partition_type_guid.as_str()).len() > 0 && chars_of(
                    r.partition_type_guid.as_str(),
                ).len() > 0 && l.disk_number.is_some() && l.partition_number.is_some()
                    && l.disk_number == r.disk_number && l.partition_number == r.partition_number {
                    return true;
                }
                str_eq_ignore_ascii_case(l.letter.as_str(), r.letter.as_str())
            },
            None => false,
        },
        None => false,
    }
}

/// `s` without trailing copies of `c`.
pub open spec fn trim_end_char(s: Seq<char>, c: char) -> Seq<char>
    decreases s.len(),
{
    if s.len() > 0 && s.last() == c {
        trim_end_char(s.drop_last(), c)
    } else {
        s
    }
}

pub(crate) fn trim_end_char_of(s: &[char], c: char) -> (r: Vec<char>)
    ensures
        r@ == trim_end_char(s@, c),
{
    let mut n = s.len();
    proof {
        assert(s@.take(n as int) =~= s@);
    }
    while n > 0 && s[n - 1] == c
        invariant
            n <= s.len(),
            trim_end_char(s@.take(n as int), c) == trim_end_char(s@, c),
        decreases n,
    {
        proof {
            assert(s@.take(n as int).drop_last() =~= s@.take(n - 1));
        }
        n = n - 1;
    }
    crate::text::slice_to(s, n)
}

pub fn trim_end_char_text(s: &str, c: char) -> (r: String)
    ensures
        r@ == trim_end_char(s@, c),
{
    string_from(trim_end_char_of(chars_of(s).as_slice(), c).as_slice())
}

pub fn trim_end_char_of_text(s: &str, c: char) -> (r: Vec<char>)
    ensures
        r@ == trim_end_char(s@, c),
{
    trim_end_char_of(chars_of(s).as_slice(), c)
}

/// Characters not allowed in a PE directory name.
pub open spec fn bad_dir_char(c: char) -> bool {
    c == '*' || c == '?' || c == '<' || c == '>' || c == '|' || c == '"'
}

/// A PE directory entered as `X:\dir[\...]`: the upper-case drive letter
/// and the path below the root, starting with `\`. Roots, paths without a
/// drive letter and names with wildcard or shell characters are refused.
pub open spec fn pe_dir(raw: Seq<char>) -> Option<(char, Seq<char>)> {
    let p = trim_end_char(trim_end_char(trim(raw), '\\'), '/');
    if p.len() < 3 || p[0] as u32 >= 128 {
        None
    } else if !is_alpha(upper(p[0])) || p[1] != ':' || p[2] != '\\' {
        None
    } else if p.len() == 3 {
        None
    } else if exists|i: int| 3 <= i < p.len() && bad_dir_char(#[trigger] p[i]) {
        None
    } else {
        Some((upper(p[0]), seq!['\\'] + p.skip(3)))
    }
}

#[verifier::loop_isolation(false)]
pub fn split_pe_dir_path(raw: &str) -> (r: Option<(char, String)>)
    ensures
        r matches Some((c, rel)) ==> pe_dir(raw@) == Some((c, rel@)),
        r is None ==> pe_dir(raw@) is None,
{
    let t = trim_chars(chars_of(raw).as_slice());
    let a = trim_end_char_of(t.as_slice(), '\\');
    let p = trim_end_char_of(a.as_slice(), '/');
    if p.len() < 3 || p[0] as u32 >= 128 {
        return None;
    }
    let drive = to_upper(p[0]);
    if !crate::text::is_ascii_alphabetic(drive) || p[1] != ':' || p[2] != '\\' {
        return None;
    }
    if p.len() == 3 {
        return None;
    }
    for i in 3..p.len()
        invariant
            p@.len() > 3,
            forall|j: int| 3 <= j < i ==> !bad_dir_char(#[trigger] p@[j]),
    {
        let c = p[i];
        if c == '*' || c == '?' || c == '<' || c == '>' || c == '|' || c == '"' {
            proof {
                assert(bad_dir_char(p@[i as int]));
            }
            return None;
        }
    }
    let mut rel: Vec<char> = Vec::new();
    rel.push('\\');
    let rest = crate::text::slice_from(p.as_slice(), 3);
    for k in 0..rest.len()
        invariant
            rel@ == seq!['\\'] + rest@.take(k as int),
    {
        rel.push(rest[k]);
        proof {
            assert(rest@.take(k + 1) =~= rest@.take(k as int).push(rest@[k as int]));
            assert(rel@ =~= seq!['\\'] + rest@.take(k + 1));
        }
    }
    proof {
        assert(rest@.take(rest@.len() as int) =~= rest@);
    }
    Some((drive, string_from(rel.as_slice())))
}

/// The PE directory used when the field is left blank: `BackupRestorePE`
/// at the root of the system drive.
pub open spec fn default_pe_dir(system_drive: Seq<char>) -> Seq<char> {
    upper_seq(trim_end_char(trim(system_drive), ':')) + ":\\BackupRestorePE"@
}

pub fn default_pe_directory(system_drive: &str) -> (r: String)
    ensures
        r@ == default_pe_dir(system_drive@),
{
    let t = trim_chars(chars_of(system_drive).as_slice());
    let d = trim_end_char_of(t.as_slice(), ':');
    let u = to_ascii_uppercase(d.as_slice());
    let mut s = string_from(u.as_slice());
    s.append(":\\BackupRestorePE");
    s
}

/// The lines of an action result worth showing in the result dialog.
pub open spec fn preview_line(l: Seq<char>) -> bool {
    l.len() > 0 && (is_prefix("["@, l) || contains(l, "code="@) || contains(l, "REFUSED"@) || contains(
        l,
        "successfully"@,
    ) || contains(l, "Error"@) || contains(l, "failed"@) || contains(l, "skipped"@) || contains(
        l,
        "system drive"@,
    ) || contains(l, "actual drive"@))
}

/// The trimmed key lines of `result`, joined by line feeds; all of
/// `result` where it has none.
pub open spec fn preview_of(result: Seq<char>) -> Seq<char> {
    let kept = lines(result).map_values(|l: Seq<char>| trim(l)).filter(|l: Seq<char>| preview_line(l));
    if kept.len() == 0 {
        result
    } else {
        joined(kept)
    }
}

/// The pieces joined with line feeds between them.
pub open spec fn joined(ps: Seq<Seq<char>>) -> Seq<char>
    decreases ps.len(),
{
    if ps.len() == 0 {
        seq![]
    } else if ps.len() == 1 {
        ps[0]
    } else {
        joined(ps.drop_last()) + seq!['\n'] + ps.last()
    }
}

fn is_preview_line(l: &[char]) -> (b: bool)
    ensures
        b == preview_line(l@),
{
    if l.len() == 0 {
        return false;
    }
    starts_with(l, chars_of("[").as_slice()) || contains_seq(l, chars_of("code=").as_slice())
        || contains_seq(l, chars_of("REFUSED").as_slice()) || contains_seq(
        l,
        chars_of("successfully").as_slice(),
    ) || contains_seq(l, chars_of("Error").as_slice()) || contains_seq(
        l,
        chars_of("failed").as_slice(),
    ) || contains_seq(l, chars_of("skipped").as_slice()) || contains_seq(
        l,
        chars_of("system drive").as_slice(),
    ) || contains_seq(l, chars_of("actual drive").as_slice())
}

pub fn pe_result_preview(result: &str) -> (r: String)
    ensures
        r@ == preview_of(result@),
{
    let ls = lines_of(chars_of(result).as_slice());
    let ghost all = lines(result@);
    let ghost trimmed = all.map_values(|l: Seq<char>| trim(l));
    let mut out: Vec<char> = Vec::new();
    let mut count: usize = 0;
    let ghost mut kept: Seq<Seq<char>> = seq![];
    for i in 0..ls.len()
        invariant
            all == lines(result@),
            trimmed == all.map_values(|l: Seq<char>| trim(l)),
            ls@.len() == all.len(),
            forall|j: int| 0 <= j < ls@.len() ==> #[trigger] ls@[j]@ == all[j],
            kept == trimmed.take(i as int).filter(|l: Seq<char>| preview_line(l)),
            count == kept.len(),
            out@ == joined(kept),
    {
        let t = trim_chars(ls[i].as_slice());
        proof {
            assert(trimmed.take(i + 1).drop_last() =~= trimmed.take(i as int));
            assert(trimmed.take(i + 1).last() == t@);
            trimmed.take(i as int).lemma_filter_push(t@, |l: Seq<char>| preview_line(l));
            assert(trimmed.take(i as int).push(t@) =~= trimmed.take(i + 1));
        }
        if is_preview_line(t.as_slice()) {
            let ghost before = out@;
            if count > 0 {
                out.push('\n');
            }
            for k in 0..t.len()
                invariant
                    out@ == (if count > 0 { before + seq!['\n'] } else { before }) + t@.take(k as int),
            {
                out.push(t[k]);
                proof {
                    assert(t@.take(k + 1) =~= t@.take(k as int).push(t@[k as int]));
                }
            }
            proof {
                assert(t@.take(t@.len() as int) =~= t@);
                let nk = kept.push(t@);
                assert(nk.drop_last() =~= kept);
                if count == 0 {
                    assert(kept.len() == 0);
                    assert(out@ =~= joined(nk));
                } else {
                    assert(out@ =~= joined(nk));
                }
                kept = nk;
            }
            count = count + 1;
        }
    }
    proof {
        assert(trimmed.take(ls@.len() as int) =~= trimmed);
    }
    if count == 0 {
        owned(result)
    } else {
        string_from(out.as_slice())
    }
}

/// The operations that overwrite a target partition.
pub open spec fn destructive_request(operation: Seq<char>) -> bool {
    operation == "restore-existing"@ || operation == "create-secondary"@
}

/// Why the front end refuses a task request before preparing anything.
#[derive(Debug, Clone, PartialEq, Eq)]
pub enum RequestRefusal {
    /// A restore needs an image index read from the WIM.
    MissingIndex,
    /// The program directory lies on the restore target.
    WorkspaceIsTarget,
    /// The image path is not a valid absolute path; the path check's error.
    InvalidImagePath(TaskError),
    /// The image would be stored on (or read from) the Windows source volume.
    ImageOnSource,
}

/// The kinds of refusal, without the path check's message.
#[derive(Debug, Clone, Copy, PartialEq, Eq, Structural)]
pub enum RefusalKind {
    MissingIndex,
    WorkspaceIsTarget,
    InvalidImagePath,
    ImageOnSource,
}

pub open spec fn kind_of(r: RequestRefusal) -> RefusalKind {
    match r {
        RequestRefusal::MissingIndex => RefusalKind::MissingIndex,
        RequestRefusal::WorkspaceIsTarget => RefusalKind::WorkspaceIsTarget,
        RequestRefusal::InvalidImagePath(_) => RefusalKind::InvalidImagePath,
        RequestRefusal::ImageOnSource => RefusalKind::ImageOnSource,
    }
}

/// The image's drive: the first character of the path, upper-cased.
pub open spec fn image_drive(image_path: Seq<char>) -> Seq<char> {
    if image_path.len() == 0 { seq![] } else { seq![upper(image_path[0])] }
}

/// What a request may not ask for, checked in this order: a restore
/// without an index; a restore onto the volume holding the program; an
/// invalid image path; an image on the source volume. A valid request uses
/// the selected index, or 1.
pub open spec fn request_check(
    operation: Seq<char>,
    index: Option<u32>,
    workspace: Option<DriveInfo>,
    target: Option<DriveInfo>,
    image_path: Seq<char>,
    source_drive: Seq<char>,
) -> Result<u32, RefusalKind> {
    if destructive_request(operation) && index is None {
        Err(RefusalKind::MissingIndex)
    } else if destructive_request(operation) && same_listed_partition(workspace, target) {
        Err(RefusalKind::WorkspaceIsTarget)
    } else if operation != "probe"@ && !absolute_path_ok(image_path) {
        Err(RefusalKind::InvalidImagePath)
    } else if operation != "probe"@ && image_drive(image_path) == source_drive {
        Err(RefusalKind::ImageOnSource)
    } else {
        Ok(match index {
            Some(i) => i,
            None => 1,
        })
    }
}

pub open spec fn opt_drive(d: Option<&DriveInfo>) -> Option<DriveInfo> {
    match d {
        Some(x) => Some(*x),
        None => None,
    }
}

pub fn check_task_request(
    operation: &str,
    index: Option<u32>,
    workspace: Option<&DriveInfo>,
    target: Option<&DriveInfo>,
    image_path: &str,
    source_drive: &str,
) -> (r: Result<u32, RequestRefusal>)
    ensures
        r matches Ok(i) ==> request_check(operation@, index, opt_drive(workspace), opt_drive(target), image_path@, source_drive@)
            == Ok::<u32, RefusalKind>(i),
        r matches Err(e) ==> request_check(operation@, index, opt_drive(workspace), opt_drive(target), image_path@, source_drive@)
            == Err::<u32, RefusalKind>(kind_of(e)),
{
    let destructive = same_str(operation, "restore-existing") || same_str(operation, "create-secondary");
    if destructive && index.is_none() {
        return Err(RequestRefusal::MissingIndex);
    }
    if destructive && same_partition_by_gui_identity(workspace, target) {
        return Err(RequestRefusal::WorkspaceIsTarget);
    }
    let probe = same_str(operation, "probe");
    if !probe {
        if let Err(e) = validate_absolute_path(image_path) {
            return Err(RequestRefusal::InvalidImagePath(e));
        }
        let c = chars_of(image_path);
        let mut d: Vec<char> = Vec::new();
        if c.len() > 0 {
            d.push(to_upper(c[0]));
        }
        proof {
            assert(d@ =~= image_drive(image_path@));
        }
        if crate::text::seq_eq(d.as_slice(), chars_of(source_drive).as_slice()) {
            return Err(RequestRefusal::ImageOnSource);
        }
    }
    Ok(match index {
        Some(i) => i,
        None => 1,
    })
}

/// Where a backup or single-system restore runs: on the running Windows it
/// must run offline (the user picks PE or Windows RE); on another volume it
/// runs online at once. Every other request is prepared for WinRE.
#[derive(Debug, Clone, Copy, PartialEq, Eq, Structural)]
pub enum Route {
    ChooseOffline,
    Online,
    Prepare,
}

/// A drive as compared for routing: no trailing `:`, upper case.
pub open spec fn drive_key(d: Seq<char>) -> Seq<char> {
    upper_seq(trim_end_char(d, ':'))
}

pub open spec fn route_for(operation: Seq<char>, source_drive: Seq<char>, target_drive: Seq<char>, system_drive: Option<Seq<char>>) -> Route {
    if operation == "backup"@ || operation == "restore-existing"@ {
        let system = match system_drive {
            Some(s) => s,
            None => "C:"@,
        };
        let affected = if operation == "backup"@ { source_drive } else { target_drive };
        if drive_key(affected) == drive_key(trim_end_char(system, '\\')) {
            Route::ChooseOffline
        } else {
            Route::Online
        }
    } else {
        Route::Prepare
    }
}

fn drive_key_of(d: &[char]) -> (r: Vec<char>)
    ensures
        r@ == drive_key(d@),
{
    let t = trim_end_char_of(d, ':');
    to_ascii_uppercase(t.as_slice())
}

pub fn route_request(operation: &str, source_drive: &str, target_drive: &str, system_drive: Option<&str>) -> (r: Route)
    ensures
        r == route_for(
            operation@,
            source_drive@,
            target_drive@,
            match system_drive {
                Some(s) => Some(s@),
                None => None,
            },
        ),
{
    let backup = same_str(operation, "backup");
    if !backup && !same_str(operation, "restore-existing") {
        return Route::Prepare;
    }
    let system = match system_drive {
        Some(s) => chars_of(s),
        None => chars_of("C:"),
    };
    let sys = trim_end_char_of(system.as_slice(), '\\');
    let affected = if backup { chars_of(source_drive) } else { chars_of(target_drive) };
    if crate::text::seq_eq(drive_key_of(affected.as_slice()).as_slice(), drive_key_of(sys.as_slice()).as_slice()) {
        Route::ChooseOffline
    } else {
        Route::Online
    }
}

/// The number of newest backup indexes to keep: a positive number typed in
/// the field, else none (keep all).
pub open spec fn keep_count(text: Seq<char>) -> Option<u32> {
    match crate::number::parse_u32_spec(trim(text)) {
        Some(n) => if n > 0 { Some(n) } else { None },
        None => None,
    }
}

pub fn keep_indexes(text: &str) -> (r: Option<u32>)
    ensures
        r == keep_count(text@),
{
    let t = trim_chars(chars_of(text).as_slice());
    match crate::number::parse_u32(t.as_slice()) {
        Some(n) => if n > 0 { Some(n) } else { None },
        None => None,
    }
}

/// The arguments of the elevated `prepare` command for a request.
pub open spec fn prepare_args(
    operation: Seq<char>,
    source_drive: Seq<char>,
    target_drive: Seq<char>,
    menu_name: Seq<char>,
    image_path: Seq<char>,
    index: u32,
    compress: Seq<char>,
    image_name: Seq<char>,
    keep: Option<u32>,
    force_restore_hash: bool,
) -> Seq<Seq<char>> {
    seq!["prepare"@, "--operation"@, operation, "--source-drive"@, source_drive, "--target-drive"@, target_drive,
        "--boot-menu-name"@, menu_name]
    + (if operation != "probe"@ { seq!["--image-path"@, image_path, "--wim-index"@, crate::number::decimal(index as nat)] } else { seq![] })
    + (if operation == "backup"@ {
        seq!["--compress"@, compress, "--image-name"@, image_name] + match keep {
            Some(k) => seq!["--keep-indexes"@, crate::number::decimal(k as nat)],
            None => seq![],
        }
    } else { seq![] })
    + (if destructive_request(operation) {
        seq!["--allow-destructive"@] + if force_restore_hash { seq!["--force-restore-hash"@] } else { seq![] }
    } else { seq![] })
    + (if operation == "probe"@ { seq!["--no-reboot"@] } else { seq![] })
}

pub open spec fn views(v: Seq<String>) -> Seq<Seq<char>> {
    v.map_values(|s: String| s@)
}

fn push_text(v: &mut Vec<String>, s: &str)
    ensures
        views(final(v)@) == views(old(v)@).push(s@),
{
    v.push(owned(s));
    proof {
        assert(views(final(v)@) =~= views(old(v)@).push(s@));
    }
}

fn push_number(v: &mut Vec<String>, n: u32)
    ensures
        views(final(v)@) == views(old(v)@).push(crate::number::decimal(n as nat)),
{
    let d = crate::number::u64_decimal(n as u64);
    v.push(string_from(d.as_slice()));
    proof {
        assert(views(final(v)@) =~= views(old(v)@).push(crate::number::decimal(n as nat)));
    }
}

pub fn prepare_arguments(
    operation: &str,
    source_drive: &str,
    target_drive: &str,
    menu_name: &str,
    image_path: &str,
    index: u32,
    compress: &str,
    image_name: &str,
    keep: Option<u32>,
    force_restore_hash: bool,
) -> (r: Vec<String>)
    ensures
        views(r@) == prepare_args(operation@, source_drive@, target_drive@, menu_name@, image_path@, index, compress@, image_name@, keep, force_restore_hash),
{
    let mut v: Vec<String> = Vec::new();
    push_text(&mut v, "prepare");
    push_text(&mut v, "--operation");
    push_text(&mut v, operation);
    push_text(&mut v, "--source-drive");
    push_text(&mut v, source_drive);
    push_text(&mut v, "--target-drive");
    push_text(&mut v, target_drive);
    push_text(&mut v, "--boot-menu-name");
    push_text(&mut v, menu_name);
    let ghost a = views(v@);
    let probe = same_str(operation, "probe");
    if !probe {
        push_text(&mut v, "--image-path");
        push_text(&mut v, image_path);
        push_text(&mut v, "--wim-index");
        push_number(&mut v, index);
    }
    let ghost b = views(v@);
    if same_str(operation, "backup") {
        push_text(&mut v, "--compress");
        push_text(&mut v, compress);
        push_text(&mut v, "--image-name");
        push_text(&mut v, image_name);
        if let Some(k) = keep {
            push_text(&mut v, "--keep-indexes");
            push_number(&mut v, k);
        }
    }
    let ghost c = views(v@);
    if same_str(operation, "restore-existing") || same_str(operation, "create-secondary") {
        push_text(&mut v, "--allow-destructive");
        if force_restore_hash {
            push_text(&mut v, "--force-restore-hash");
        }
    }
    let ghost d = views(v@);
    if probe {
        push_text(&mut v, "--no-reboot");
    }
    proof {
        assert(a =~= seq!["prepare"@, "--operation"@, operation@, "--source-drive"@, source_drive@, "--target-drive"@, target_drive@,
            "--boot-menu-name"@, menu_name@]);
        assert(views(v@) =~= prepare_args(operation@, source_drive@, target_drive@, menu_name@, image_path@, index, compress@, image_name@, keep, force_restore_hash));
    }
    v
}

/// The arguments quoted for `cmd.exe` and joined by single spaces.
pub open spec fn command_line_of(args: Seq<Seq<char>>) -> Seq<char>
    decreases args.len(),
{
    if args.len() == 0 {
        seq![]
    } else if args.len() == 1 {
        crate::parsing::quoted(args[0])
    } else {
        command_line_of(args.drop_last()) + seq![' '] + crate::parsing::quoted(args.last())
    }
}

pub fn command_line(args: &Vec<String>) -> (r: String)
    ensures
        r@ == command_line_of(views(args@)),
{
    let ghost all = views(args@);
    let mut out: Vec<char> = Vec::new();
    for i in 0..args.len()
        invariant
            all == views(args@),
            out@ == command_line_of(all.take(i as int)),
    {
        let q = chars_of(crate::parsing::quote_argument(args[i].as_str()).as_str());
        let ghost before = out@;
        if i > 0 {
            out.push(' ');
        }
        for k in 0..q.len()
            invariant
                out@ == (if i > 0 { before + seq![' '] } else { before }) + q@.take(k as int),
        {
            out.push(q[k]);
            proof {
                assert(q@.take(k + 1) =~= q@.take(k as int).push(q@[k as int]));
            }
        }
        proof {
            assert(q@.take(q@.len() as int) =~= q@);
            let t = all.take(i + 1);
            assert(t.drop_last() =~= all.take(i as int));
            assert(t.last() == args@[i as int]@);
            if i == 0 {
                assert(all.take(0).len() == 0);
                assert(out@ =~= command_line_of(t));
            } else {
                assert(out@ =~= command_line_of(t));
            }
        }
    }
    proof {
        assert(all.take(args@.len() as int) =~= all);
    }
    string_from(out.as_slice())
}

/// Why a partition cannot take the hard-disk PE installation.
#[derive(Debug, Clone, Copy, PartialEq, Eq, Structural)]
pub enum PeTargetRefusal {
    /// The system drive `C:`, the EFI letter `S:` or the program's own drive.
    ReservedDrive,
    /// The partition holds a Windows installation.
    WindowsVolume,
    /// Less than 2 GiB free; the free bytes as listed (0 when unknown).
    LowSpace(u64),
}

/// The drive letter a target field names: its first character, `C` when
/// the field is empty.
pub open spec fn target_char(t: Seq<char>) -> char {
    if t.len() > 0 { t[0] } else { 'C' }
}

/// Whether the first listed volume with letter `c` (ASCII case ignored) holds
/// Windows, and its free bytes; `(false, 0)` when none is listed.
pub open spec fn listed_facts(ds: Seq<DriveInfo>, c: char, i: int) -> (bool, u64)
    decreases ds.len() - i,
{
    if i < 0 || i >= ds.len() {
        (false, 0)
    } else if eq_ic(ds[i].letter@, seq![c]) {
        (ds[i].has_windows_installation, match ds[i].free_bytes { Some(f) => f, None => 0 })
    } else {
        listed_facts(ds, c, i + 1)
    }
}

/// The guard of the hard-disk PE installation, in the order it refuses.
pub open spec fn pe_target_verdict(target: Seq<char>, program_drive: char, ds: Seq<DriveInfo>) -> Result<(), PeTargetRefusal> {
    let c = target_char(target);
    let facts = listed_facts(ds, c, 0);
    if c == 'C' || c == 'S' || c == program_drive {
        Err(PeTargetRefusal::ReservedDrive)
    } else if facts.0 {
        Err(PeTargetRefusal::WindowsVolume)
    } else if facts.1 < 2147483648 {
        Err(PeTargetRefusal::LowSpace(facts.1))
    } else {
        Ok(())
    }
}

/// Whether `target_drive` may take the hard-disk PE installation: not `C:`,
/// `S:` or the drive the program runs from, not a volume listed as holding
/// Windows, and at least 2 GiB free as listed.
pub fn pe_harddisk_target_check(target_drive: &str, program_drive: char, drives: &[DriveInfo]) -> (r: Result<(), PeTargetRefusal>)
    ensures
        r == pe_target_verdict(target_drive@, program_drive, drives@),
{
    let t = chars_of(target_drive);
    let c = if t.len() > 0 { t[0] } else { 'C' };
    let mut letter: Vec<char> = Vec::new();
    letter.push(c);
    let mut has_windows = false;
    let mut free: u64 = 0;
    let mut found = false;
    let mut i: usize = 0;
    while i < drives.len() && !found
        invariant
            i <= drives@.len(),
            letter@ == seq![c],
            !found ==> listed_facts(drives@, c, 0) == listed_facts(drives@, c, i as int) && !has_windows && free == 0,
            found ==> listed_facts(drives@, c, 0) == (has_windows, free),
        decreases drives.len() - i + (if found { 0int } else { 1int }),
    {
        if crate::text::eq_ignore_ascii_case(chars_of(drives[i].letter.as_str()).as_slice(), letter.as_slice()) {
            has_windows = drives[i].has_windows_installation;
            free = match drives[i].free_bytes {
                Some(f) => f,
                None => 0,
            };
            found = true;
        } else {
            i = i + 1;
        }
    }
    proof {
        assert(letter@ =~= seq![c]);
    }
    if c == 'C' || c == 'S' || c == program_drive {
        return Err(PeTargetRefusal::ReservedDrive);
    }
    if has_windows {
        return Err(PeTargetRefusal::WindowsVolume);
    }
    if free < 2147483648 {
        return Err(PeTargetRefusal::LowSpace(free));
    }
    Ok(())
}

} // verus!
