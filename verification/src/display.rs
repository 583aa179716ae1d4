//! One-line and multi-line descriptions of volumes and WIM images, as the
//! desktop front end lists them, in both languages.
use vstd::prelude::*;
use crate::gui::{DriveInfo, Language};
use crate::json::WimImageInfo;
use crate::number::{decimal, u64_decimal};
use crate::sizes::{bytes_text, format_bytes};
use crate::text::{chars_of, string_from};

verus! {

/// `s`, or `fallback` when `s` is empty.
pub open spec fn or_text(s: Seq<char>, fallback: Seq<char>) -> Seq<char> {
    if s.len() == 0 {
        fallback
    } else {
        s
    }
}

/// A disk or partition number, or `?` when unknown.
pub open spec fn number_text(n: Option<u32>) -> Seq<char> {
    match n {
        Some(v) => decimal(v as nat),
        None => "?"@,
    }
}

/// The one-line description of a volume in the volume lists.
pub open spec fn drive_line(d: DriveInfo, language: Language) -> Seq<char> {
    let marker = if d.has_windows_installation { " | Windows"@ } else { ""@ };
    match language {
        Language::English => d.letter@ + ": | "@ + d.filesystem@ + " | "@ + or_text(d.label@, "no label"@)
            + " | total "@ + bytes_text(d.size_bytes) + " | free "@ + bytes_text(d.free_bytes) + " | disk "@
            + number_text(d.disk_number) + "/partition "@ + number_text(d.partition_number) + marker,
        Language::Chinese => d.letter@ + ": | "@ + d.filesystem@ + " | 卷标 "@ + or_text(d.label@, "无卷标"@)
            + " | 总容量 "@ + bytes_text(d.size_bytes) + " | 可用 "@ + bytes_text(d.free_bytes) + " | 磁盘 "@
            + number_text(d.disk_number) + "/分区 "@ + number_text(d.partition_number) + marker,
    }
}

/// The detailed description of a selected volume.
pub open spec fn drive_detail_text(d: DriveInfo, language: Language) -> Seq<char> {
    match language {
        Language::English => d.letter@ + ": "@ + or_text(d.label@, "no label"@) + "\nFile system: "@ + d.filesystem@
            + "\nWindows installation: "@ + (if d.has_windows_installation { "yes"@ } else { "no"@ })
            + "\nTotal: "@ + bytes_text(d.size_bytes) + " | Free: "@ + bytes_text(d.free_bytes)
            + "\nDisk/partition: "@ + number_text(d.disk_number) + "/"@ + number_text(d.partition_number)
            + "\nPartition type: "@ + d.partition_type_guid@ + "\nVolume GUID: "@ + d.volume_guid@,
        Language::Chinese => d.letter@ + ": "@ + or_text(d.label@, "无卷标"@) + "\n文件系统："@ + d.filesystem@
            + "\nWindows 安装："@ + (if d.has_windows_installation { "是"@ } else { "否"@ })
            + "\n总容量："@ + bytes_text(d.size_bytes) + " | 可用："@ + bytes_text(d.free_bytes)
            + "\n磁盘/分区："@ + number_text(d.disk_number) + "/"@ + number_text(d.partition_number)
            + "\n分区类型："@ + d.partition_type_guid@ + "\n卷 GUID："@ + d.volume_guid@,
    }
}

/// The one-line description of a WIM image in the index list.
pub open spec fn image_line(i: WimImageInfo, language: Language) -> Seq<char> {
    match language {
        Language::English => "Index "@ + decimal(i.index as nat) + " | "@ + or_text(i.name@, "(unnamed)"@) + " | "@
            + or_text(i.description@, "no description"@) + " | Version "@ + or_text(i.version@, "?"@) + " | Arch "@
            + or_text(i.architecture@, "?"@) + " | Edition "@ + or_text(i.edition@, "?"@) + " | Install "@
            + or_text(i.installation_type@, "?"@) + " | Size "@ + bytes_text(i.size_bytes),
        Language::Chinese => "索引 "@ + decimal(i.index as nat) + " | "@ + or_text(i.name@, "（未命名）"@) + " | "@
            + or_text(i.description@, "无描述"@) + " | 版本 "@ + or_text(i.version@, "?"@) + " | 架构 "@
            + or_text(i.architecture@, "?"@) + " | 版本类型 "@ + or_text(i.edition@, "?"@) + " | 大小 "@
            + bytes_text(i.size_bytes) + " | 安装类型 "@ + or_text(i.installation_type@, "?"@),
    }
}

fn append_str(v: &mut Vec<char>, s: &str)
    ensures
        final(v)@ == old(v)@ + s@,
{
    let mut t = chars_of(s);
    v.append(&mut t);
}

fn add_chars(v: &mut Vec<char>, mut t: Vec<char>)
    ensures
        final(v)@ == old(v)@ + t@,
{
    v.append(&mut t);
}

fn or_text_of<'a>(s: &'a str, fallback: &'a str) -> (r: &'a str)
    ensures
        r@ == or_text(s@, fallback@),
{
    if chars_of(s).len() == 0 {
        fallback
    } else {
        s
    }
}

fn number_text_of(n: Option<u32>) -> (r: Vec<char>)
    ensures
        r@ == number_text(n),
{
    match n {
        Some(v) => u64_decimal(v as u64),
        None => chars_of("?"),
    }
}

fn bytes_chars(size: Option<u64>) -> (r: Vec<char>)
    ensures
        r@ == bytes_text(size),
{
    chars_of(format_bytes(size).as_str())
}

/// The one-line description of a volume.
pub fn drive_display(drive: &DriveInfo, language: Language) -> (r: String)
    ensures
        r@ == drive_line(*drive, language),
{
    let english = language == Language::English;
    let mut v = chars_of(drive.letter.as_str());
    append_str(&mut v, ": | ");
    append_str(&mut v, drive.filesystem.as_str());
    if english {
        append_str(&mut v, " | ");
        append_str(&mut v, or_text_of(drive.label.as_str(), "no label"));
        append_str(&mut v, " | total ");
        add_chars(&mut v, bytes_chars(drive.size_bytes));
        append_str(&mut v, " | free ");
        add_chars(&mut v, bytes_chars(drive.free_bytes));
        append_str(&mut v, " | disk ");
        add_chars(&mut v, number_text_of(drive.disk_number));
        append_str(&mut v, "/partition ");
    } else {
        append_str(&mut v, " | 卷标 ");
        append_str(&mut v, or_text_of(drive.label.as_str(), "无卷标"));
        append_str(&mut v, " | 总容量 ");
        add_chars(&mut v, bytes_chars(drive.size_bytes));
        append_str(&mut v, " | 可用 ");
        add_chars(&mut v, bytes_chars(drive.free_bytes));
        append_str(&mut v, " | 磁盘 ");
        add_chars(&mut v, number_text_of(drive.disk_number));
        append_str(&mut v, "/分区 ");
    }
    add_chars(&mut v, number_text_of(drive.partition_number));
    append_str(&mut v, if drive.has_windows_installation { " | Windows" } else { "" });
    string_from(v.as_slice())
}

/// The detailed description of a volume.
pub fn drive_details(drive: &DriveInfo, language: Language) -> (r: String)
    ensures
        r@ == drive_detail_text(*drive, language),
{
    let english = language == Language::English;
    let mut v = chars_of(drive.letter.as_str());
    append_str(&mut v, ": ");
    if english {
        append_str(&mut v, or_text_of(drive.label.as_str(), "no label"));
        append_str(&mut v, "\nFile system: ");
        append_str(&mut v, drive.filesystem.as_str());
        append_str(&mut v, "\nWindows installation: ");
        append_str(&mut v, if drive.has_windows_installation { "yes" } else { "no" });
        append_str(&mut v, "\nTotal: ");
        add_chars(&mut v, bytes_chars(drive.size_bytes));
        append_str(&mut v, " | Free: ");
        add_chars(&mut v, bytes_chars(drive.free_bytes));
        append_str(&mut v, "\nDisk/partition: ");
        add_chars(&mut v, number_text_of(drive.disk_number));
        append_str(&mut v, "/");
        add_chars(&mut v, number_text_of(drive.partition_number));
        append_str(&mut v, "\nPartition type: ");
        append_str(&mut v, drive.partition_type_guid.as_str());
        append_str(&mut v, "\nVolume GUID: ");
    } else {
        append_str(&mut v, or_text_of(drive.label.as_str(), "无卷标"));
        append_str(&mut v, "\n文件系统：");
        append_str(&mut v, drive.filesystem.as_str());
        append_str(&mut v, "\nWindows 安装：");
        append_str(&mut v, if drive.has_windows_installation { "是" } else { "否" });
        append_str(&mut v, "\n总容量：");
        add_chars(&mut v, bytes_chars(drive.size_bytes));
        append_str(&mut v, " | 可用：");
        add_chars(&mut v, bytes_chars(drive.free_bytes));
        append_str(&mut v, "\n磁盘/分区：");
        add_chars(&mut v, number_text_of(drive.disk_number));
        append_str(&mut v, "/");
        add_chars(&mut v, number_text_of(drive.partition_number));
        append_str(&mut v, "\n分区类型：");
        append_str(&mut v, drive.partition_type_guid.as_str());
        append_str(&mut v, "\n卷 GUID：");
    }
    append_str(&mut v, drive.volume_guid.as_str());
    string_from(v.as_slice())
}

/// The one-line description of a WIM image.
pub fn wim_display(image: &WimImageInfo, language: Language) -> (r: String)
    ensures
        r@ == image_line(*image, language),
{
    let english = language == Language::English;
    let mut v = if english { chars_of("Index ") } else { chars_of("索引 ") };
    add_chars(&mut v, u64_decimal(image.index as u64));
    append_str(&mut v, " | ");
    append_str(&mut v, or_text_of(image.name.as_str(), if english { "(unnamed)" } else { "（未命名）" }));
    append_str(&mut v, " | ");
    append_str(&mut v, or_text_of(image.description.as_str(), if english { "no description" } else { "无描述" }));
    append_str(&mut v, if english { " | Version " } else { " | 版本 " });
    append_str(&mut v, or_text_of(image.version.as_str(), "?"));
    append_str(&mut v, if english { " | Arch " } else { " | 架构 " });
    append_str(&mut v, or_text_of(image.architecture.as_str(), "?"));
    append_str(&mut v, if english { " | Edition " } else { " | 版本类型 " });
    append_str(&mut v, or_text_of(image.edition.as_str(), "?"));
    if english {
        append_str(&mut v, " | Install ");
        append_str(&mut v, or_text_of(image.installation_type.as_str(), "?"));
        append_str(&mut v, " | Size ");
        add_chars(&mut v, bytes_chars(image.size_bytes));
    } else {
        append_str(&mut v, " | 大小 ");
        add_chars(&mut v, bytes_chars(image.size_bytes));
        append_str(&mut v, " | 安装类型 ");
        append_str(&mut v, or_text_of(image.installation_type.as_str(), "?"));
    }
    string_from(v.as_slice())
}

} // verus!
