//! The Windows PE recovery environment: the task lines the PE desktop
//! executes, the guard on its format action, the task written for it, and
//! the boot entry that starts it from a RAM disk.
use vstd::prelude::*;
use crate::gui::{trim_end_char, views};
use crate::text::{
    chars_of, is_prefix, is_ws, is_whitespace, owned, starts_with, string_from, to_ascii_uppercase,
    upper_seq, contains_char, slice_from,
};

verus! {

/// `s` split at each white-space character (`str::split(char::is_whitespace)`).
pub open spec fn split_ws(s: Seq<char>) -> Seq<Seq<char>>
    decreases s.len(),
{
    if s.len() == 0 {
        seq![seq![]]
    } else {
        let p = split_ws(s.drop_last());
        if is_ws(s.last()) {
            p.push(seq![])
        } else {
            p.update(p.len() - 1, p.last().push(s.last()))
        }
    }
}

proof fn lemma_split_ws_nonempty(s: Seq<char>)
    ensures
        split_ws(s).len() >= 1,
    decreases s.len(),
{
    if s.len() > 0 {
        lemma_split_ws_nonempty(s.drop_last());
    }
}

/// `str::split_whitespace`: the non-empty pieces between white space.
pub open spec fn words(s: Seq<char>) -> Seq<Seq<char>> {
    split_ws(s).filter(|w: Seq<char>| w.len() > 0)
}

pub fn split_whitespace(s: &str) -> (r: Vec<String>)
    ensures
        views(r@) == words(s@),
{
    let c = chars_of(s);
    let mut out: Vec<String> = Vec::new();
    let mut cur: Vec<char> = Vec::new();
    let ghost mut done: Seq<Seq<char>> = seq![];
    proof {
        assert(c@.take(0) =~= Seq::<char>::empty());
        assert(split_ws(c@.take(0)) =~= done.push(cur@));
        assert(done.filter(|w: Seq<char>| w.len() > 0) =~= Seq::<Seq<char>>::empty());
        assert(views(out@) =~= Seq::<Seq<char>>::empty());
    }
    for i in 0..c.len()
        invariant
            split_ws(c@.take(i as int)) == done.push(cur@),
            views(out@) == done.filter(|w: Seq<char>| w.len() > 0),
    {
        proof {
            assert(c@.take(i + 1).drop_last() =~= c@.take(i as int));
            assert(c@.take(i + 1).last() == c@[i as int]);
        }
        if is_whitespace(c[i]) {
            proof {
                done.lemma_filter_push(cur@, |w: Seq<char>| w.len() > 0);
            }
            if cur.len() > 0 {
                let ghost before = out@;
                out.push(string_from(cur.as_slice()));
                proof {
                    assert(views(out@) =~= views(before).push(cur@));
                }
            }
            proof {
                done = done.push(cur@);
            }
            cur = Vec::new();
            proof {
                assert(split_ws(c@.take(i + 1)) =~= done.push(cur@));
            }
        } else {
            let ghost old_cur = cur@;
            cur.push(c[i]);
            proof {
                assert(split_ws(c@.take(i + 1)) =~= done.push(cur@));
            }
        }
    }
    proof {
        assert(c@.take(c@.len() as int) =~= c@);
        done.lemma_filter_push(cur@, |w: Seq<char>| w.len() > 0);
    }
    if cur.len() > 0 {
        let ghost before = out@;
        out.push(string_from(cur.as_slice()));
        proof {
            assert(views(out@) =~= views(before).push(cur@));
        }
    }
    out
}

/// One line of the PE task file, read as an action and its arguments.
#[derive(Debug, Clone, PartialEq, Eq)]
pub enum PeAction {
    Nothing,
    Reboot,
    CleanBootSequence,
    Verify,
    AttachVhd { vhd: String },
    Backup { drive: String, wim: String },
    DeleteFile { path: String },
    FindDrive { marker: String },
    DismDiag,
    Restore { wim: String, drive: String },
    VerifyFile { path: String },
    FindSystemDrive,
    Format { drive: String, allow_system: bool },
    /// Rebuild the boot files of `drive`; the EFI partition's letter comes
    /// from the third word (without `:`) or is `S`.
    Bcdboot { drive: String, esp: String },
    AddSecondaryEntry { drive: String, name: String },
    Unknown { words: Vec<String> },
}

/// The words joined by single spaces.
pub open spec fn spaced(ws: Seq<Seq<char>>) -> Seq<char>
    decreases ws.len(),
{
    if ws.len() == 0 {
        seq![]
    } else if ws.len() == 1 {
        ws[0]
    } else {
        spaced(ws.drop_last()) + seq![' '] + ws.last()
    }
}

/// What a task line asks for, by its words.
pub open spec fn action_of(w: Seq<Seq<char>>) -> PeActionView {
    let n = w.len();
    if n == 0 {
        PeActionView::Nothing
    } else if n == 1 && w[0] == "reboot"@ {
        PeActionView::Reboot
    } else if n == 1 && w[0] == "clean_bootsequence"@ {
        PeActionView::CleanBootSequence
    } else if n == 1 && w[0] == "verify"@ {
        PeActionView::Verify
    } else if n == 3 && w[0] == "attach-vhd"@ {
        PeActionView::AttachVhd(w[1])
    } else if n == 3 && w[0] == "backup"@ {
        PeActionView::Backup(w[1], w[2])
    } else if n == 2 && w[0] == "delete-file"@ {
        PeActionView::DeleteFile(w[1])
    } else if n == 2 && w[0] == "find-drive"@ {
        PeActionView::FindDrive(w[1])
    } else if n == 1 && w[0] == "dism-diag"@ {
        PeActionView::DismDiag
    } else if n == 3 && w[0] == "restore"@ {
        PeActionView::Restore(w[1], w[2])
    } else if n == 2 && w[0] == "verify-file"@ {
        PeActionView::VerifyFile(w[1])
    } else if n == 1 && w[0] == "find-system-drive"@ {
        PeActionView::FindSystemDrive
    } else if w[0] == "format"@ && (n == 2 || (n == 3 && w[2] == "--allow-system"@)) {
        PeActionView::Format(w[1], n == 3)
    } else if n >= 2 && w[0] == "bcdboot"@ {
        PeActionView::Bcdboot(w[1], if n >= 3 { trim_end_char(w[2], ':') } else { "S"@ })
    } else if n >= 2 && w[0] == "add-secondary-entry"@ {
        PeActionView::AddSecondaryEntry(w[1], spaced(w.skip(2)))
    } else {
        PeActionView::Unknown(w)
    }
}

/// A task action as plain text values.
pub enum PeActionView {
    Nothing,
    Reboot,
    CleanBootSequence,
    Verify,
    AttachVhd(Seq<char>),
    Backup(Seq<char>, Seq<char>),
    DeleteFile(Seq<char>),
    FindDrive(Seq<char>),
    DismDiag,
    Restore(Seq<char>, Seq<char>),
    VerifyFile(Seq<char>),
    FindSystemDrive,
    Format(Seq<char>, bool),
    Bcdboot(Seq<char>, Seq<char>),
    AddSecondaryEntry(Seq<char>, Seq<char>),
    Unknown(Seq<Seq<char>>),
}

pub open spec fn action_view(a: PeAction) -> PeActionView {
    match a {
        PeAction::Nothing => PeActionView::Nothing,
        PeAction::Reboot => PeActionView::Reboot,
        PeAction::CleanBootSequence => PeActionView::CleanBootSequence,
        PeAction::Verify => PeActionView::Verify,
        PeAction::AttachVhd { vhd } => PeActionView::AttachVhd(vhd@),
        PeAction::Backup { drive, wim } => PeActionView::Backup(drive@, wim@),
        PeAction::DeleteFile { path } => PeActionView::DeleteFile(path@),
        PeAction::FindDrive { marker } => PeActionView::FindDrive(marker@),
        PeAction::DismDiag => PeActionView::DismDiag,
        PeAction::Restore { wim, drive } => PeActionView::Restore(wim@, drive@),
        PeAction::VerifyFile { path } => PeActionView::VerifyFile(path@),
        PeAction::FindSystemDrive => PeActionView::FindSystemDrive,
        PeAction::Format { drive, allow_system } => PeActionView::Format(drive@, allow_system),
        PeAction::Bcdboot { drive, esp } => PeActionView::Bcdboot(drive@, esp@),
        PeAction::AddSecondaryEntry { drive, name } => PeActionView::AddSecondaryEntry(drive@, name@),
        PeAction::Unknown { words } => PeActionView::Unknown(views(words@)),
    }
}

fn word_is(w: &Vec<String>, k: usize, text: &str) -> (b: bool)
    requires
        k < w@.len(),
    ensures
        b == (views(w@)[k as int] == text@),
{
    crate::text::seq_eq(chars_of(w[k].as_str()).as_slice(), chars_of(text).as_slice())
}

fn join_spaced(w: &Vec<String>, from: usize) -> (r: String)
    requires
        from <= w@.len(),
    ensures
        r@ == spaced(views(w@).skip(from as int)),
{
    let ghost all = views(w@).skip(from as int);
    let mut out: Vec<char> = Vec::new();
    let mut k = from;
    proof {
        assert(all.take(0) =~= Seq::<Seq<char>>::empty());
    }
    while k < w.len()
        invariant
            from <= k <= w@.len(),
            all == views(w@).skip(from as int),
            out@ == spaced(all.take(k - from)),
        decreases w.len() - k,
    {
        let q = chars_of(w[k].as_str());
        let ghost before = out@;
        if k > from {
            out.push(' ');
        }
        let mut j: usize = 0;
        while j < q.len()
            invariant
                j <= q@.len(),
                out@ == (if k > from { before + seq![' '] } else { before }) + q@.take(j as int),
            decreases q.len() - j,
        {
            out.push(q[j]);
            proof {
                assert(q@.take(j + 1) =~= q@.take(j as int).push(q@[j as int]));
            }
            j = j + 1;
        }
        proof {
            assert(q@.take(q@.len() as int) =~= q@);
            let t = all.take(k + 1 - from);
            assert(t.drop_last() =~= all.take(k - from));
            assert(t.last() == w@[k as int]@);
            assert(out@ =~= spaced(t));
        }
        k = k + 1;
    }
    proof {
        assert(all.take(w@.len() - from) =~= all);
    }
    string_from(out.as_slice())
}

/// Read one (trimmed) task line.
pub fn parse_pe_task_line(action: &str) -> (r: PeAction)
    ensures
        action_view(r) == action_of(words(action@)),
{
    let w = split_whitespace(action);
    let ghost v = views(w@);
    let n = w.len();
    if n == 0 {
        return PeAction::Nothing;
    }
    if n == 1 && word_is(&w, 0, "reboot") {
        return PeAction::Reboot;
    }
    if n == 1 && word_is(&w, 0, "clean_bootsequence") {
        return PeAction::CleanBootSequence;
    }
    if n == 1 && word_is(&w, 0, "verify") {
        return PeAction::Verify;
    }
    if n == 3 && word_is(&w, 0, "attach-vhd") {
        return PeAction::AttachVhd { vhd: owned(w[1].as_str()) };
    }
    if n == 3 && word_is(&w, 0, "backup") {
        return PeAction::Backup { drive: owned(w[1].as_str()), wim: owned(w[2].as_str()) };
    }
    if n == 2 && word_is(&w, 0, "delete-file") {
        return PeAction::DeleteFile { path: owned(w[1].as_str()) };
    }
    if n == 2 && word_is(&w, 0, "find-drive") {
        return PeAction::FindDrive { marker: owned(w[1].as_str()) };
    }
    if n == 1 && word_is(&w, 0, "dism-diag") {
        return PeAction::DismDiag;
    }
    if n == 3 && word_is(&w, 0, "restore") {
        return PeAction::Restore { wim: owned(w[1].as_str()), drive: owned(w[2].as_str()) };
    }
    if n == 2 && word_is(&w, 0, "verify-file") {
        return PeAction::VerifyFile { path: owned(w[1].as_str()) };
    }
    if n == 1 && word_is(&w, 0, "find-system-drive") {
        return PeAction::FindSystemDrive;
    }
    if word_is(&w, 0, "format") && (n == 2 || (n == 3 && word_is(&w, 2, "--allow-system"))) {
        return PeAction::Format { drive: owned(w[1].as_str()), allow_system: n == 3 };
    }
    if n >= 2 && word_is(&w, 0, "bcdboot") {
        let esp = if n >= 3 {
            let t = crate::gui::trim_end_char_text(w[2].as_str(), ':');
            t
        } else {
            owned("S")
        };
        return PeAction::Bcdboot { drive: owned(w[1].as_str()), esp };
    }
    if n >= 2 && word_is(&w, 0, "add-secondary-entry") {
        return PeAction::AddSecondaryEntry { drive: owned(w[1].as_str()), name: join_spaced(&w, 2) };
    }
    PeAction::Unknown { words: w }
}

/// What the PE format action does with a drive.
#[derive(Debug, Clone, Copy, PartialEq, Eq, Structural)]
pub enum FormatGuard {
    /// The PE RAM disk (`X:`), the EFI partition (`S:`) or no drive.
    RefuseReserved,
    /// A volume holding Windows, without `--allow-system`.
    RefuseSystem,
    Format,
}

/// The drive as the format action compares it: no trailing `:`, upper case.
pub open spec fn format_key(drive: Seq<char>) -> Seq<char> {
    upper_seq(trim_end_char(drive, ':'))
}

pub open spec fn format_guard(drive: Seq<char>, is_system: bool, allow_system: bool) -> FormatGuard {
    let d = format_key(drive);
    if d == "X"@ || d == "S"@ || d.len() == 0 {
        FormatGuard::RefuseReserved
    } else if is_system && !allow_system {
        FormatGuard::RefuseSystem
    } else {
        FormatGuard::Format
    }
}

pub fn pe_format_guard(drive: &str, is_system: bool, allow_system: bool) -> (r: FormatGuard)
    ensures
        r == format_guard(drive@, is_system, allow_system),
{
    let d = to_ascii_uppercase(crate::gui::trim_end_char_of_text(drive, ':').as_slice());
    let x = chars_of("X");
    let s = chars_of("S");
    if crate::text::seq_eq(d.as_slice(), x.as_slice()) || crate::text::seq_eq(d.as_slice(), s.as_slice()) || d.len() == 0 {
        return FormatGuard::RefuseReserved;
    }
    if is_system && !allow_system {
        return FormatGuard::RefuseSystem;
    }
    FormatGuard::Format
}

/// The PE format action never formats its own RAM disk or the EFI
/// partition, and formats a Windows volume only when told so explicitly.
pub proof fn lemma_pe_format_is_guarded(drive: Seq<char>, is_system: bool, allow_system: bool)
    ensures
        format_guard(drive, is_system, allow_system) == FormatGuard::Format ==> format_key(drive)
            != "X"@ && format_key(drive) != "S"@ && format_key(drive).len() > 0 && (is_system
            ==> allow_system),
{
}

/// The file name of a path: what follows its last `\`, then its last `/`.
pub open spec fn after_last(s: Seq<char>, c: char) -> Seq<char>
    decreases s.len(),
{
    if s.len() == 0 {
        s
    } else if s.last() == c {
        seq![]
    } else {
        after_last(s.drop_last(), c).push(s.last())
    }
}

fn after_last_of(s: &[char], c: char) -> (r: Vec<char>)
    ensures
        r@ == after_last(s@, c),
{
    let mut r: Vec<char> = Vec::new();
    for i in 0..s.len()
        invariant
            r@ == after_last(s@.take(i as int), c),
    {
        proof {
            assert(s@.take(i + 1).drop_last() =~= s@.take(i as int));
            assert(s@.take(i + 1).last() == s@[i as int]);
        }
        if s[i] == c {
            r = Vec::new();
        } else {
            r.push(s[i]);
        }
    }
    proof {
        assert(s@.take(s@.len() as int) =~= s@);
    }
    r
}

pub open spec fn vhd_file(vhd: Seq<char>) -> Seq<char> {
    after_last(after_last(vhd, '\\'), '/')
}

pub fn vhd_file_name(vhd: &str) -> (r: String)
    ensures
        r@ == vhd_file(vhd@),
{
    let a = after_last_of(chars_of(vhd).as_slice(), '\\');
    let b = after_last_of(a.as_slice(), '/');
    string_from(b.as_slice())
}

/// A path argument with its `AUTO:` prefix replaced by the drive found in
/// PE (`drive` followed by `:`).
pub open spec fn resolved_path(path: Seq<char>, drive: Seq<char>) -> Seq<char> {
    if is_prefix("AUTO:"@, path) {
        drive + ":"@ + path.skip(5)
    } else {
        path
    }
}

pub fn resolve_path(path: &str, drive: &str) -> (r: String)
    ensures
        r@ == resolved_path(path@, drive@),
{
    let p = chars_of(path);
    let prefix = chars_of("AUTO:");
    proof {
        reveal_strlit("AUTO:");
    }
    if starts_with(p.as_slice(), prefix.as_slice()) {
        let mut s = owned(drive);
        s.append(":");
        s.append(string_from(slice_from(p.as_slice(), 5).as_slice()).as_str());
        s
    } else {
        owned(path)
    }
}

/// A WIM path with its `AUTO:PE` prefix replaced by the PE source drive.
pub open spec fn resolved_pe_wim(wim: Seq<char>, drive: Seq<char>) -> Seq<char> {
    if is_prefix("AUTO:PE"@, wim) {
        drive + ":"@ + wim.skip(7)
    } else {
        wim
    }
}

pub fn resolve_pe_wim_path(wim: &str, drive: &str) -> (r: String)
    ensures
        r@ == resolved_pe_wim(wim@, drive@),
{
    let p = chars_of(wim);
    let prefix = chars_of("AUTO:PE");
    proof {
        reveal_strlit("AUTO:PE");
    }
    if starts_with(p.as_slice(), prefix.as_slice()) {
        let mut s = owned(drive);
        s.append(":");
        s.append(string_from(slice_from(p.as_slice(), 7).as_slice()).as_str());
        s
    } else {
        owned(wim)
    }
}

/// The PE task file for an offline backup or restore of the running
/// Windows: the action, then `reboot`. Refused for an image path with a
/// space, which the word-split task line cannot carry.
pub open spec fn pe_task(operation: Seq<char>, source: Seq<char>, target: Seq<char>, image: Seq<char>) -> Option<Seq<char>> {
    if image.contains(' ') {
        None
    } else if operation == "backup"@ {
        Some("backup "@ + source + " \""@ + image + "\"\nreboot\n"@)
    } else {
        Some("restore \""@ + image + "\" "@ + target + "\nreboot\n"@)
    }
}

pub fn pe_task_text(operation: &str, source: &str, target: &str, image: &str) -> (r: Option<String>)
    ensures
        r matches Some(t) ==> pe_task(operation@, source@, target@, image@) == Some(t@),
        r is None ==> pe_task(operation@, source@, target@, image@) is None,
{
    if contains_char(chars_of(image).as_slice(), ' ') {
        return None;
    }
    if crate::text::seq_eq(chars_of(operation).as_slice(), chars_of("backup").as_slice()) {
        let mut s = owned("backup ");
        s.append(source);
        s.append(" \"");
        s.append(image);
        s.append("\"\nreboot\n");
        Some(s)
    } else {
        let mut s = owned("restore \"");
        s.append(image);
        s.append("\" ");
        s.append(target);
        s.append("\nreboot\n");
        Some(s)
    }
}

/// The `bcdedit` commands that make the created loader `{guid}` start PE
/// from `<letter>:<dir>\sources\boot.wim` in a RAM disk, using the
/// system's `{ramdiskoptions}` for `boot.sdi`, and add it last to the menu.
pub open spec fn ramdisk_steps(letter: char, dir: Seq<char>, guid: Seq<char>, name: Seq<char>) -> Seq<Seq<char>> {
    let g = "{"@ + guid + "}"@;
    let device = "ramdisk=["@ + seq![letter] + ":]"@ + dir + "\\sources\\boot.wim,{ramdiskoptions}"@;
    seq![
        "bcdedit.exe /set {ramdiskoptions} ramdisksdidevice partition="@ + seq![letter] + ":"@,
        "bcdedit.exe /set {ramdiskoptions} ramdisksdipath "@ + dir + "\\boot\\boot.sdi"@,
        "bcdedit.exe /set "@ + g + " device "@ + device,
        "bcdedit.exe /set "@ + g + " osdevice "@ + device,
        "bcdedit.exe /set "@ + g + " winpe yes"@,
        "bcdedit.exe /set "@ + g + " detecthal yes"@,
        "bcdedit.exe /set "@ + g + " systemroot \\windows"@,
        "bcdedit.exe /set "@ + g + " nx OptIn"@,
        "bcdedit.exe /set "@ + g + " description \""@ + name + "\""@,
        "bcdedit.exe /displayorder "@ + g + " /addlast"@,
    ]
}

fn letter_text(c: char) -> (r: String)
    ensures
        r@ == seq![c],
{
    let mut v: Vec<char> = Vec::new();
    v.push(c);
    proof {
        assert(v@ =~= seq![c]);
    }
    string_from(v.as_slice())
}

pub fn ramdisk_bcd_steps(letter: char, dir: &str, guid: &str, name: &str) -> (r: Vec<String>)
    ensures
        views(r@) == ramdisk_steps(letter, dir@, guid@, name@),
{
    let l = letter_text(letter);
    let mut g = owned("{");
    g.append(guid);
    g.append("}");
    let mut device = owned("ramdisk=[");
    device.append(l.as_str());
    device.append(":]");
    device.append(dir);
    device.append("\\sources\\boot.wim,{ramdiskoptions}");
    let mut v: Vec<String> = Vec::new();
    let mut a = owned("bcdedit.exe /set {ramdiskoptions} ramdisksdidevice partition=");
    a.append(l.as_str());
    a.append(":");
    v.push(a);
    let mut b = owned("bcdedit.exe /set {ramdiskoptions} ramdisksdipath ");
    b.append(dir);
    b.append("\\boot\\boot.sdi");
    v.push(b);
    let mut c = owned("bcdedit.exe /set ");
    c.append(g.as_str());
    c.append(" device ");
    c.append(device.as_str());
    v.push(c);
    let mut d = owned("bcdedit.exe /set ");
    d.append(g.as_str());
    d.append(" osdevice ");
    d.append(device.as_str());
    v.push(d);
    let mut e = owned("bcdedit.exe /set ");
    e.append(g.as_str());
    e.append(" winpe yes");
    v.push(e);
    let mut f = owned("bcdedit.exe /set ");
    f.append(g.as_str());
    f.append(" detecthal yes");
    v.push(f);
    let mut h = owned("bcdedit.exe /set ");
    h.append(g.as_str());
    h.append(" systemroot \\windows");
    v.push(h);
    let mut k = owned("bcdedit.exe /set ");
    k.append(g.as_str());
    k.append(" nx OptIn");
    v.push(k);
    let mut m = owned("bcdedit.exe /set ");
    m.append(g.as_str());
    m.append(" description \"");
    m.append(name);
    m.append("\"");
    v.push(m);
    let mut o = owned("bcdedit.exe /displayorder ");
    o.append(g.as_str());
    o.append(" /addlast");
    v.push(o);
    proof {
        assert(views(v@) =~= ramdisk_steps(letter, dir@, guid@, name@));
    }
    v
}

/// The volume offered for a PE backup image: the first listed volume
/// (`X:|...` entries) other than the system drive, else `H`.
pub open spec fn volume_key(entry: Seq<char>) -> Seq<char> {
    upper_seq(trim_end_char(crate::text::split_on(entry, '|')[0], ':'))
}

pub open spec fn first_other_volume(volumes: Seq<Seq<char>>, system: Seq<char>) -> Seq<char>
    decreases volumes.len(),
{
    if volumes.len() == 0 {
        "H"@
    } else {
        let d = volume_key(volumes[0]);
        if d.len() == 0 || d == upper_seq(trim_end_char(system, ':')) {
            first_other_volume(volumes.drop_first(), system)
        } else {
            d
        }
    }
}

pub fn pe_default_image_drive(system: &str, volumes: &Vec<String>) -> (r: String)
    ensures
        r@ == first_other_volume(views(volumes@), system@),
{
    let ghost all = views(volumes@);
    let sys = to_ascii_uppercase(crate::gui::trim_end_char_of_text(system, ':').as_slice());
    let mut i: usize = 0;
    proof {
        assert(all.skip(0) =~= all);
    }
    while i < volumes.len()
        invariant
            all == views(volumes@),
            i <= volumes@.len(),
            sys@ == upper_seq(trim_end_char(system@, ':')),
            first_other_volume(all.skip(i as int), system@) == first_other_volume(all, system@),
        decreases volumes.len() - i,
    {
        proof {
            assert(all.skip(i as int)[0] == volumes@[i as int]@);
            assert(all.skip(i as int).drop_first() =~= all.skip(i + 1));
            crate::text::lemma_split_on_nonempty(volumes@[i as int]@, '|');
        }
        let pieces = crate::text::split_chars(chars_of(volumes[i].as_str()).as_slice(), '|');
        let first = crate::gui::trim_end_char_text(string_from(pieces[0].as_slice()).as_str(), ':');
        let d = to_ascii_uppercase(chars_of(first.as_str()).as_slice());
        if d.len() > 0 && !crate::text::seq_eq(d.as_slice(), sys.as_slice()) {
            return string_from(d.as_slice());
        }
        i = i + 1;
    }
    owned("H")
}

/// The EFI system partition is found among the volumes by its file
/// system: `FAT` or `FAT32`, ASCII case ignored.
pub open spec fn esp_filesystem(fs: Seq<char>) -> bool {
    crate::text::upper_seq(fs) == "FAT"@ || crate::text::upper_seq(fs) == "FAT32"@
}

pub fn is_esp_filesystem(fs: &str) -> (r: bool)
    ensures
        r == esp_filesystem(fs@),
{
    let u = crate::text::to_ascii_uppercase(crate::text::chars_of(fs).as_slice());
    crate::text::seq_eq(u.as_slice(), crate::text::chars_of("FAT").as_slice())
        || crate::text::seq_eq(u.as_slice(), crate::text::chars_of("FAT32").as_slice())
}

/// The letters tried, in order, to mount the EFI system partition when
/// leaving PE: `S:` first, then `T:` to `Z:` without `X:` (the PE RAM disk).
pub fn esp_mount_letters() -> (r: Vec<char>)
    ensures
        r@ == seq!['S', 'T', 'U', 'V', 'W', 'Y', 'Z'],
{
    let mut r: Vec<char> = Vec::new();
    r.push('S');
    r.push('T');
    r.push('U');
    r.push('V');
    r.push('W');
    r.push('Y');
    r.push('Z');
    proof {
        assert(r@ =~= seq!['S', 'T', 'U', 'V', 'W', 'Y', 'Z']);
    }
    r
}

/// The Windows boot entry recorded on the ESP at deploy time: the file's
/// text without surrounding white space, unless nothing is left.
pub open spec fn deploy_guid_of(text: Seq<char>) -> Option<Seq<char>> {
    if crate::text::trim(text).len() > 0 {
        Some(crate::text::trim(text))
    } else {
        None
    }
}

pub fn deploy_guid(text: &str) -> (r: Option<String>)
    ensures
        r matches Some(g) ==> deploy_guid_of(text@) == Some(g@),
        r is None ==> deploy_guid_of(text@) is None,
{
    let t = crate::text::trim_chars(crate::text::chars_of(text).as_slice());
    if t.len() > 0 {
        Some(crate::text::string_from(t.as_slice()))
    } else {
        None
    }
}

/// The command that returns a machine from PE to Windows: in the boot store
/// on the ESP, make the recorded Windows entry the default (or only list
/// the store when none was recorded), then delete the one-time boot
/// sequence so the next start does not enter PE again; outside automatic
/// runs the console shows the exit code and waits for a key.
pub open spec fn exit_pe_command(store: Seq<char>, windows_guid: Option<Seq<char>>, auto_click: bool) -> Seq<char> {
    "cmd.exe /c bcdedit.exe /store "@ + store + match windows_guid {
        Some(g) => " /set {bootmgr} default "@ + g,
        None => " /enum"@,
    } + " & bcdedit.exe /store "@ + store + " /deletevalue {bootmgr} bootsequence"@ + if auto_click {
        ""@
    } else {
        " & call echo EXIT_CODE=%errorlevel% & pause"@
    }
}

pub fn exit_pe_command_line(store: &str, windows_guid: Option<&str>, auto_click: bool) -> (r: String)
    ensures
        r@ == exit_pe_command(store@, match windows_guid {
            Some(g) => Some(g@),
            None => None,
        }, auto_click),
{
    let mut v = crate::text::chars_of("cmd.exe /c bcdedit.exe /store ");
    let mut a = crate::text::chars_of(store);
    v.append(&mut a);
    match windows_guid {
        Some(g) => {
            let mut b = crate::text::chars_of(" /set {bootmgr} default ");
            v.append(&mut b);
            let mut c = crate::text::chars_of(g);
            v.append(&mut c);
        },
        None => {
            let mut b = crate::text::chars_of(" /enum");
            v.append(&mut b);
        },
    }
    let mut d = crate::text::chars_of(" & bcdedit.exe /store ");
    v.append(&mut d);
    let mut e = crate::text::chars_of(store);
    v.append(&mut e);
    let mut f = crate::text::chars_of(" /deletevalue {bootmgr} bootsequence");
    v.append(&mut f);
    let mut g2 = if auto_click {
        crate::text::chars_of("")
    } else {
        crate::text::chars_of(" & call echo EXIT_CODE=%errorlevel% & pause")
    };
    v.append(&mut g2);
    proof {
        let gs = match windows_guid {
            Some(g) => Some(g@),
            None => None,
        };
        assert(v@ =~= exit_pe_command(store@, gs, auto_click));
    }
    crate::text::string_from(v.as_slice())
}

} // verus!
