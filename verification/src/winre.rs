//! The WinRE shell template and the files a WinRE task payload must hold.
use vstd::prelude::*;
use crate::model::TaskError;
use crate::text::{chars_of, crlf_to_lf, crlf_to_lf_chars, seq_eq, slice_from, string_from, trim_end, trim_end_chars};

verus! {

/// File name of the WinRE shell configuration in a payload.
pub const WINRE_SHELL_PAYLOAD_NAME: &'static str = "winpeshl.ini";

/// The WinRE shell configuration: WinRE starts the recovery host directly
/// on the task's environment file.
pub const EXPECTED_WINRE_SHELL: &'static str = "[LaunchApps]\n%SYSTEMROOT%\\System32\\Recovery.exe,recover-env %SYSTEMROOT%\\System32\\RecoveryTask.env\n";

/// `text` without its leading byte-order marks.
pub open spec fn strip_boms(s: Seq<char>) -> Seq<char>
    decreases s.len(),
{
    if s.len() > 0 && s[0] == '\u{feff}' {
        strip_boms(s.drop_first())
    } else {
        s
    }
}

/// The form in which two shell configurations are compared: no leading
/// byte-order mark, LF line ends, no trailing white space.
pub open spec fn normalized(s: Seq<char>) -> Seq<char> {
    trim_end(crlf_to_lf(strip_boms(s)))
}

pub fn normalize_text(text: &str) -> (r: String)
    ensures
        r@ == normalized(text@),
{
    let s = chars_of(text);
    let mut start: usize = 0;
    proof {
        assert(s@.skip(0) =~= s@);
    }
    while start < s.len() && s[start] == '\u{feff}'
        invariant
            start <= s@.len(),
            strip_boms(s@.skip(start as int)) == strip_boms(s@),
        decreases s.len() - start,
    {
        proof {
            assert(s@.skip(start as int).drop_first() =~= s@.skip(start + 1));
        }
        start = start + 1;
    }
    let ghost body = s@.skip(start as int);
    proof {
        assert(strip_boms(body) == body);
    }
    let body_chars = slice_from(s.as_slice(), start);
    let out = crlf_to_lf_chars(body_chars.as_slice());
    let t = trim_end_chars(out.as_slice());
    string_from(t.as_slice())
}

/// The shell configuration read from `path_text` must be the expected one
/// (after normalizing both).
pub fn check_winre_shell(contents: &str, path_text: &str) -> (r: Result<(), TaskError>)
    ensures
        r is Ok <==> normalized(contents@) == normalized(EXPECTED_WINRE_SHELL@),
        r matches Err(e) ==> e == TaskError::Invalid(e->Invalid_0) && e->Invalid_0@
            == "WinRE shell must directly launch Recovery.exe recover-env: "@ + path_text@,
{
    let a = normalize_text(contents);
    let b = normalize_text(EXPECTED_WINRE_SHELL);
    if !seq_eq(chars_of(a.as_str()).as_slice(), chars_of(b.as_str()).as_slice()) {
        return Err(TaskError::Invalid(crate::task::message(
            "WinRE shell must directly launch Recovery.exe recover-env: ",
            path_text,
        )));
    }
    Ok(())
}

pub open spec fn required_names() -> Seq<Seq<char>> {
    seq!["winpeshl.ini"@, "Recovery.exe"@, "RecoveryTask.env"@, "task.json"@]
}

/// The files every WinRE task payload holds: the shell configuration, the
/// recovery host, its environment file and the task record.
pub fn required_payload_names() -> (r: Vec<&'static str>)
    ensures
        r@.map_values(|s: &'static str| s@) == required_names(),
{
    let r = vec!["winpeshl.ini", "Recovery.exe", "RecoveryTask.env", "task.json"];
    proof {
        assert(r@.map_values(|s: &'static str| s@) =~= required_names());
    }
    r
}

/// Runtime libraries copied along when the package ships them.
pub fn optional_runtime_files() -> (r: Vec<&'static str>)
    ensures
        r@.map_values(|s: &'static str| s@) == seq!["VCRUNTIME140.dll"@, "VCRUNTIME140_1.dll"@],
{
    let r = vec!["VCRUNTIME140.dll", "VCRUNTIME140_1.dll"];
    proof {
        assert(r@.map_values(|s: &'static str| s@) =~= seq!["VCRUNTIME140.dll"@, "VCRUNTIME140_1.dll"@]);
    }
    r
}

/// Files of older releases removed from a WinRE image.
pub fn obsolete_winre_files() -> (r: Vec<&'static str>)
    ensures
        r@.map_values(|s: &'static str| s@) == seq![
            "BackupRestore.exe"@,
            "RecoveryLauncher.cmd"@,
            "winpeshl-boot.cmd"@,
        ],
{
    let r = vec!["BackupRestore.exe", "RecoveryLauncher.cmd", "winpeshl-boot.cmd"];
    proof {
        assert(r@.map_values(|s: &'static str| s@) =~= seq![
            "BackupRestore.exe"@,
            "RecoveryLauncher.cmd"@,
            "winpeshl-boot.cmd"@,
        ]);
    }
    r
}

/// A payload honours the WinRE contract: its shell configuration is the
/// expected one and each required file is present (`present[i]` for the
/// i-th of the required names, whose shown paths are `shown`).
pub fn verify_payload_contract(shell: &str, shell_path: &str, present: &[bool], shown: &[String]) -> (r: Result<(), TaskError>)
    requires
        present@.len() == shown@.len(),
    ensures
        r is Ok <==> normalized(shell@) == normalized(EXPECTED_WINRE_SHELL@) && forall|i: int|
            0 <= i < present@.len() ==> present@[i],
        normalized(shell@) == normalized(EXPECTED_WINRE_SHELL@) ==> (r matches Err(e) ==> (e == TaskError::Invalid(
            e->Invalid_0,
        ) && exists|i: int| 0 <= i < present@.len() && !present@[i] && (forall|j: int| 0 <= j < i ==> present@[j])
            && e->Invalid_0@ == "required WinRE task payload is missing: "@ + shown@[i]@)),
{
    check_winre_shell(shell, shell_path)?;
    for i in 0..present.len()
        invariant
            present@.len() == shown@.len(),
            normalized(shell@) == normalized(EXPECTED_WINRE_SHELL@),
            forall|j: int| 0 <= j < i ==> present@[j],
    {
        if !present[i] {
            return Err(TaskError::Invalid(crate::task::message(
                "required WinRE task payload is missing: ",
                shown[i].as_str(),
            )));
        }
    }
    Ok(())
}

} // verus!
