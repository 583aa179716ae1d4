//! What the recovery progress window shows for a line of the recovery log:
//! the stage caption, the percentage and the detail line.
use vstd::prelude::*;
use crate::percent::{line_percent, parse_percent};
use crate::text::{chars_of, contains, is_prefix, owned, starts_with, string_from, trim, trim_end, trim_chars, trim_end_chars, str_contains};

verus! {

/// The stage caption a log line announces, if any.
pub open spec fn stage_caption(line: Seq<char>) -> Option<Seq<char>> {
    if contains(line, "running dism.exe"@) {
        if contains(line, "/Capture-Image"@) {
            Some("正在备份系统分区…"@)
        } else if contains(line, "/Apply-Image"@) {
            Some("正在还原系统分区…"@)
        } else {
            None
        }
    } else if contains(line, "Operating on the"@) || contains(line, "Scanning"@) {
        Some("正在扫描系统分区…"@)
    } else if contains(line, "Saving image"@) {
        Some("正在备份系统分区…"@)
    } else if contains(line, "Applying image"@) {
        Some("正在还原系统分区…"@)
    } else if contains(line, "Backup capture finished"@) {
        Some("备份完成，正在校验镜像…"@)
    } else if contains(line, "The operation completed successfully"@) || contains(line, "Recovery completed"@) {
        Some("操作完成"@)
    } else if contains(line, "Recovery.exe started"@) || contains(line, "started from env"@) {
        Some("正在准备恢复环境…"@)
    } else {
        None
    }
}

pub fn log_line_stage(line: &str) -> (r: Option<&'static str>)
    ensures
        r matches Some(s) ==> stage_caption(line@) == Some(s@),
        r is None ==> stage_caption(line@) is None,
{
    if str_contains(line, "running dism.exe") {
        if str_contains(line, "/Capture-Image") {
            Some("正在备份系统分区…")
        } else if str_contains(line, "/Apply-Image") {
            Some("正在还原系统分区…")
        } else {
            None
        }
    } else if str_contains(line, "Operating on the") || str_contains(line, "Scanning") {
        Some("正在扫描系统分区…")
    } else if str_contains(line, "Saving image") {
        Some("正在备份系统分区…")
    } else if str_contains(line, "Applying image") {
        Some("正在还原系统分区…")
    } else if str_contains(line, "Backup capture finished") {
        Some("备份完成，正在校验镜像…")
    } else if str_contains(line, "The operation completed successfully") || str_contains(line, "Recovery completed") {
        Some("操作完成")
    } else if str_contains(line, "Recovery.exe started") || str_contains(line, "started from env") {
        Some("正在准备恢复环境…")
    } else {
        None
    }
}

/// The detail shown for a log line: the line without trailing white space,
/// except for blank lines and bracketed progress lines, which leave the
/// detail box alone.
pub open spec fn detail_of(line: Seq<char>) -> Option<Seq<char>> {
    if trim(line).len() == 0 || ((is_prefix("[stdout] ["@, line) || is_prefix("["@, line)) && line.contains('%')) {
        None
    } else {
        Some(trim_end(line))
    }
}

pub fn log_line_detail(line: &str) -> (r: Option<String>)
    ensures
        r matches Some(s) ==> detail_of(line@) == Some(s@),
        r is None ==> detail_of(line@) is None,
{
    let c = chars_of(line);
    let blank = trim_chars(c.as_slice()).len() == 0;
    let bracketed = starts_with(c.as_slice(), chars_of("[stdout] [").as_slice()) || starts_with(c.as_slice(), chars_of("[").as_slice());
    if blank || (bracketed && crate::text::contains_char(c.as_slice(), '%')) {
        return None;
    }
    Some(string_from(trim_end_chars(c.as_slice()).as_slice()))
}

/// The stage caption, percentage and detail line of one recovery log line.
pub fn classify_log_line(line: &str) -> (r: (Option<String>, Option<u32>, Option<String>))
    ensures
        r.0 matches Some(s) ==> stage_caption(line@) == Some(s@),
        r.0 is None ==> stage_caption(line@) is None,
        r.1 == line_percent(line@),
        r.2 matches Some(s) ==> detail_of(line@) == Some(s@),
        r.2 is None ==> detail_of(line@) is None,
{
    let stage = match log_line_stage(line) {
        Some(s) => Some(owned(s)),
        None => None,
    };
    (stage, parse_percent(line), log_line_detail(line))
}

/// DISM's closing line ("The operation completed successfully", printed
/// after every capture or apply) and the host's "Recovery completed" show
/// the caption 操作完成, unless the line also carries one of the phrases
/// checked before them.
pub proof fn lemma_completion_lines_show_done(line: Seq<char>)
    requires
        contains(line, "The operation completed successfully"@) || contains(line, "Recovery completed"@),
        !contains(line, "running dism.exe"@),
        !contains(line, "Operating on the"@),
        !contains(line, "Scanning"@),
        !contains(line, "Saving image"@),
        !contains(line, "Applying image"@),
        !contains(line, "Backup capture finished"@),
    ensures
        stage_caption(line) == Some("操作完成"@),
{
}

/// A DISM command line names the work it starts: capturing shows the
/// backup caption and applying the restore caption.
pub proof fn lemma_dism_command_lines_show_their_work(line: Seq<char>)
    requires
        contains(line, "running dism.exe"@),
    ensures
        contains(line, "/Capture-Image"@) ==> stage_caption(line) == Some("正在备份系统分区…"@),
        !contains(line, "/Capture-Image"@) && contains(line, "/Apply-Image"@) ==> stage_caption(line) == Some("正在还原系统分区…"@),
        !contains(line, "/Capture-Image"@) && !contains(line, "/Apply-Image"@) ==> stage_caption(line) is None,
{
}

/// A line with none of the recognised phrases leaves the caption alone.
pub proof fn lemma_other_lines_keep_the_caption(line: Seq<char>)
    requires
        !contains(line, "running dism.exe"@),
        !contains(line, "Operating on the"@),
        !contains(line, "Scanning"@),
        !contains(line, "Saving image"@),
        !contains(line, "Applying image"@),
        !contains(line, "Backup capture finished"@),
        !contains(line, "The operation completed successfully"@),
        !contains(line, "Recovery completed"@),
        !contains(line, "Recovery.exe started"@),
        !contains(line, "started from env"@),
    ensures
        stage_caption(line) is None,
{
}

/// The stage caption the recovery progress window (the one WinRE shows)
/// takes from a log line; it knows fewer stages than the desktop log view.
pub open spec fn window_stage_caption(line: Seq<char>) -> Option<Seq<char>> {
    if contains(line, "running dism.exe"@) {
        if contains(line, "/Capture-Image"@) {
            Some("正在备份系统分区…"@)
        } else if contains(line, "/Apply-Image"@) {
            Some("正在还原系统分区…"@)
        } else {
            None
        }
    } else if contains(line, "Backup capture finished"@) {
        Some("备份完成，正在校验镜像…"@)
    } else if contains(line, "Recovery completed"@) {
        Some("恢复完成，即将重启…"@)
    } else if contains(line, "Recovery.exe started"@) || contains(line, "started from env"@) {
        Some("正在准备恢复环境…"@)
    } else {
        None
    }
}

/// In the recovery window the host's "Recovery completed" announces the
/// coming restart, unless the line also names a DISM command or the end of
/// a capture.
pub proof fn lemma_window_completion_announces_restart(line: Seq<char>)
    requires
        contains(line, "Recovery completed"@),
        !contains(line, "running dism.exe"@),
        !contains(line, "Backup capture finished"@),
    ensures
        window_stage_caption(line) == Some("恢复完成，即将重启…"@),
{
}

/// The detail line of the recovery progress window: blank lines and DISM's
/// `[stdout] [` progress bars leave it alone.
pub open spec fn window_detail(line: Seq<char>) -> Option<Seq<char>> {
    if trim(line).len() == 0 || (is_prefix("[stdout] ["@, line) && line.contains('%')) {
        None
    } else {
        Some(trim_end(line))
    }
}

/// The stage caption, percentage and detail line the recovery progress
/// window shows for one log line.
pub fn classify_window_line(line: &str) -> (r: (Option<String>, Option<u32>, Option<String>))
    ensures
        r.0 matches Some(s) ==> window_stage_caption(line@) == Some(s@),
        r.0 is None ==> window_stage_caption(line@) is None,
        r.1 == line_percent(line@),
        r.2 matches Some(s) ==> window_detail(line@) == Some(s@),
        r.2 is None ==> window_detail(line@) is None,
{
    let stage = if str_contains(line, "running dism.exe") {
        if str_contains(line, "/Capture-Image") {
            Some(owned("正在备份系统分区…"))
        } else if str_contains(line, "/Apply-Image") {
            Some(owned("正在还原系统分区…"))
        } else {
            None
        }
    } else if str_contains(line, "Backup capture finished") {
        Some(owned("备份完成，正在校验镜像…"))
    } else if str_contains(line, "Recovery completed") {
        Some(owned("恢复完成，即将重启…"))
    } else if str_contains(line, "Recovery.exe started") || str_contains(line, "started from env") {
        Some(owned("正在准备恢复环境…"))
    } else {
        None
    };
    let c = chars_of(line);
    let blank = trim_chars(c.as_slice()).len() == 0;
    let bar = starts_with(c.as_slice(), chars_of("[stdout] [").as_slice()) && crate::text::contains_char(c.as_slice(), '%');
    let detail = if blank || bar {
        None
    } else {
        Some(string_from(trim_end_chars(c.as_slice()).as_slice()))
    };
    (stage, parse_percent(line), detail)
}

} // verus!
