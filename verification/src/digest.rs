//! SHA-256 digests of files and payloads, written as lower-case hex text,
//! and the checks of a WinRE payload against its manifest.
use vstd::prelude::*;
use crate::model::{PayloadManifest, TaskError};
use crate::outside::{absorbed, hasher_finish, hasher_new, hasher_update, sha256, sha256_digest, Sha256Hasher};
use crate::task::{message, sha256_text};
use crate::text::{all_ws, chars_of, eq_ic, owned, str_eq_ignore_ascii_case, str_is_blank, string_from, all_hexdigits};

verus! {

/// The lower-case hexadecimal digit for `d` (below 16).
pub open spec fn hex_digit(d: u8) -> char {
    if d < 10 { ((d + 48) as u8) as char } else { ((d + 87) as u8) as char }
}

/// Bytes as lower-case hex text, two digits per byte.
pub open spec fn hex_text(bytes: Seq<u8>) -> Seq<char>
    decreases bytes.len(),
{
    if bytes.len() == 0 {
        seq![]
    } else {
        hex_text(bytes.drop_last()) + seq![hex_digit(bytes.last() / 16), hex_digit(bytes.last() % 16)]
    }
}

/// The SHA-256 text of `data`: its digest in lower-case hex.
pub open spec fn sha256_hex_text(data: Seq<u8>) -> Seq<char> {
    hex_text(sha256(data))
}

fn hex_char(d: u8) -> (c: char)
    requires
        d < 16,
    ensures
        c == hex_digit(d),
{
    if d < 10 {
        (d + 48) as char
    } else {
        (d + 87) as char
    }
}

pub fn hex_of(bytes: &[u8]) -> (r: String)
    ensures
        r@ == hex_text(bytes@),
{
    let mut out: Vec<char> = Vec::new();
    for i in 0..bytes.len()
        invariant
            out@ == hex_text(bytes@.take(i as int)),
    {
        let b = bytes[i];
        out.push(hex_char(b / 16));
        out.push(hex_char(b % 16));
        proof {
            let t = bytes@.take(i + 1);
            assert(t.drop_last() =~= bytes@.take(i as int));
            assert(t.last() == b);
        }
    }
    proof {
        assert(bytes@.take(bytes@.len() as int) =~= bytes@);
    }
    string_from(out.as_slice())
}

/// The SHA-256 text of a byte string held in memory.
pub fn sha256_hex(data: &[u8]) -> (r: String)
    ensures
        r@ == sha256_hex_text(data@),
{
    let d = sha256_digest(data);
    hex_of(d.as_slice())
}

/// A SHA-256 digest computed over a file read in chunks.
pub struct FileDigest {
    hasher: Sha256Hasher,
}

impl FileDigest {
    /// The bytes fed in so far.
    pub closed spec fn data(self) -> Seq<u8> {
        absorbed(self.hasher)
    }

    pub fn new() -> (d: Self)
        ensures
            d.data() == Seq::<u8>::empty(),
    {
        FileDigest { hasher: hasher_new() }
    }

    pub fn update(&mut self, chunk: &[u8])
        ensures
            final(self).data() == old(self).data() + chunk@,
    {
        hasher_update(&mut self.hasher, chunk);
    }

    /// The SHA-256 text of everything fed in.
    pub fn finish(self) -> (r: String)
        ensures
            r@ == sha256_hex_text(self.data()),
    {
        let d = hasher_finish(self.hasher);
        hex_of(d.as_slice())
    }
}

/// The digest and the expected text agree, ignoring ASCII case.
pub open spec fn sha256_matches(data: Seq<u8>, expected: Seq<char>) -> bool {
    eq_ic(sha256_hex_text(data), expected)
}

pub open spec fn mismatch_text(expected: Seq<char>, actual: Seq<char>) -> Seq<char> {
    "sha256 mismatch: expected "@ + expected + ", got "@ + actual
}

/// Check that the file whose contents were fed to `digest` has the
/// expected SHA-256 (compared ignoring ASCII case).
pub fn verify_sha256(digest: FileDigest, expected: &str) -> (r: Result<(), TaskError>)
    ensures
        r is Ok <==> sha256_matches(digest.data(), expected@),
        r matches Err(e) ==> e == TaskError::Invalid(e->Invalid_0) && e->Invalid_0@ == mismatch_text(
            expected@,
            sha256_hex_text(digest.data()),
        ),
{
    let ghost data = digest.data();
    let actual = digest.finish();
    if str_eq_ignore_ascii_case(actual.as_str(), expected) {
        return Ok(());
    }
    let mut m = owned("sha256 mismatch: expected ");
    m.append(expected);
    m.append(", got ");
    m.append(actual.as_str());
    Err(TaskError::Invalid(m))
}

/// One payload file: its expected hash must be SHA-256 text, and the file
/// must hash to it.
pub open spec fn payload_file_check(name: Seq<char>, expected: Seq<char>, data: Seq<u8>) -> Result<(), Seq<char>> {
    if !sha256_text(expected) {
        Err(name + " payload hash is not SHA-256"@)
    } else if !sha256_matches(data, expected) {
        Err(mismatch_text(expected, sha256_hex_text(data)))
    } else {
        Ok(())
    }
}

/// The checks a WinRE payload passes, in order: a task id, then the
/// recovery program, the task record, the original and the staged WinRE
/// image, and the recovery environment file where the manifest names its
/// hash.
pub open spec fn payload_check(
    m: PayloadManifest,
    recovery: Seq<u8>,
    task: Seq<u8>,
    env: Option<Seq<u8>>,
    original: Seq<u8>,
    staged: Seq<u8>,
) -> Result<(), Seq<char>> {
    if all_ws(m.task_id@) {
        Err("payload task id is empty"@)
    } else if payload_file_check("recovery"@, m.recovery_sha256@, recovery) is Err {
        payload_file_check("recovery"@, m.recovery_sha256@, recovery)
    } else if payload_file_check("task"@, m.task_sha256@, task) is Err {
        payload_file_check("task"@, m.task_sha256@, task)
    } else if payload_file_check("original WinRE"@, m.original_winre_sha256@, original) is Err {
        payload_file_check("original WinRE"@, m.original_winre_sha256@, original)
    } else if payload_file_check("staged WinRE"@, m.staged_winre_sha256@, staged) is Err {
        payload_file_check("staged WinRE"@, m.staged_winre_sha256@, staged)
    } else {
        match m.recovery_task_env_sha256 {
            Some(e) => match env {
                Some(d) => if sha256_matches(d, e@) {
                    Ok(())
                } else {
                    Err(mismatch_text(e@, sha256_hex_text(d)))
                },
                None => Ok(()),
            },
            None => Ok(()),
        }
    }
}

fn check_payload_file(name: &str, expected: &str, digest: FileDigest) -> (r: Result<(), TaskError>)
    ensures
        r is Ok <==> payload_file_check(name@, expected@, digest.data()) is Ok,
        r matches Err(e) ==> e == TaskError::Invalid(e->Invalid_0) && payload_file_check(
            name@,
            expected@,
            digest.data(),
        ) == Err::<(), Seq<char>>(e->Invalid_0@),
{
    let e = chars_of(expected);
    if e.len() != 64 || !all_hexdigits(e.as_slice()) {
        return Err(TaskError::Invalid(message(name, " payload hash is not SHA-256")));
    }
    verify_sha256(digest, expected)
}

/// Check the payload files of a WinRE task against its manifest. The
/// digests are those of the recovery program, the payload task record, the
/// recovery environment file (needed only where the manifest names its
/// hash), the original and the staged WinRE image.
pub fn validate_payload_files(
    manifest: &PayloadManifest,
    recovery: FileDigest,
    task_json: FileDigest,
    recovery_task_env: Option<FileDigest>,
    original_winre: FileDigest,
    staged_winre: FileDigest,
) -> (r: Result<(), TaskError>)
    requires
        manifest.recovery_task_env_sha256 is Some ==> recovery_task_env is Some,
    ensures
        r is Ok <==> payload_check(
            *manifest,
            recovery.data(),
            task_json.data(),
            match recovery_task_env {
                Some(d) => Some(d.data()),
                None => None,
            },
            original_winre.data(),
            staged_winre.data(),
        ) is Ok,
        r matches Err(e) ==> e == TaskError::Invalid(e->Invalid_0) && payload_check(
            *manifest,
            recovery.data(),
            task_json.data(),
            match recovery_task_env {
                Some(d) => Some(d.data()),
                None => None,
            },
            original_winre.data(),
            staged_winre.data(),
        ) == Err::<(), Seq<char>>(e->Invalid_0@),
{
    if str_is_blank(manifest.task_id.as_str()) {
        return Err(crate::paths::invalid("payload task id is empty"));
    }
    check_payload_file("recovery", manifest.recovery_sha256.as_str(), recovery)?;
    check_payload_file("task", manifest.task_sha256.as_str(), task_json)?;
    check_payload_file("original WinRE", manifest.original_winre_sha256.as_str(), original_winre)?;
    check_payload_file("staged WinRE", manifest.staged_winre_sha256.as_str(), staged_winre)?;
    match &manifest.recovery_task_env_sha256 {
        Some(expected) => match recovery_task_env {
            Some(d) => verify_sha256(d, expected.as_str()),
            None => Ok(()),
        },
        None => Ok(()),
    }
}

} // verus!
