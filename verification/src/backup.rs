//! Decisions around the backup image: the metadata written beside it, the
//! checks a restore makes against that metadata, what a capture must have
//! produced, and the BCDBoot call that makes a restored Windows bootable.
use vstd::prelude::*;
use crate::env::{env_optional, env_optional_u64, env_text, env_u64, EnvValues};
use crate::model::{required_size, BackupMetadata, TargetRole, TaskError, VolumeIdentity};
use crate::number::{decimal, u64_decimal};
use crate::paths::invalid;
use crate::text::{eq_ic, owned, str_eq_ignore_ascii_case, string_from};
use crate::time::Timestamp;

verus! {

/// Version recorded as `program_version` in new backup metadata.
pub const PROGRAM_VERSION: &'static str = "1.7.5";

/// Version of the backup metadata format written by this program.
pub const METADATA_VERSION: u32 = 2;

/// The size a restore target needs for this backup: the metadata's own
/// requirement, but never less than the partition it was captured from.
pub open spec fn restore_required(m: BackupMetadata) -> u64 {
    if required_size(m) >= m.source.partition_size {
        required_size(m)
    } else {
        m.source.partition_size
    }
}

/// The backup metadata belongs to the image (same hash up to ASCII case),
/// and the target partition can hold the restored system.
pub open spec fn restore_fits(image_sha256: Seq<char>, m: BackupMetadata, target_size: u64) -> bool {
    &&& eq_ic(m.image_sha256@, image_sha256)
    &&& restore_required(m) != 0
    &&& target_size >= restore_required(m)
}

pub fn check_restore_image(image_sha256: &str, metadata: &BackupMetadata, target_size: u64) -> (r: Result<(), TaskError>)
    ensures
        r is Ok <==> restore_fits(image_sha256@, *metadata, target_size),
        r matches Err(e) ==> e == TaskError::Invalid(e->Invalid_0),
        r matches Err(e) ==> (if !eq_ic(metadata.image_sha256@, image_sha256@) {
            e->Invalid_0@ == "image hash does not match backup metadata"@
        } else {
            e->Invalid_0@ == "target partition is too small: "@ + decimal(target_size as nat) + " < "@
                + decimal(restore_required(*metadata) as nat)
        }),
{
    if !str_eq_ignore_ascii_case(metadata.image_sha256.as_str(), image_sha256) {
        return Err(invalid("image hash does not match backup metadata"));
    }
    let needed = metadata.required_target_size();
    let required = if needed >= metadata.source.partition_size {
        needed
    } else {
        metadata.source.partition_size
    };
    if required == 0 || target_size < required {
        let mut m = owned("target partition is too small: ");
        m.append(string_from(u64_decimal(target_size).as_slice()).as_str());
        m.append(" < ");
        m.append(string_from(u64_decimal(required).as_slice()).as_str());
        return Err(TaskError::Invalid(m));
    }
    Ok(())
}

/// The value the capture context (`RecoveryTask.env`) gives for `key`, or
/// `fallback` where there is no context or the value is absent or blank.
pub open spec fn context_text(context: Option<EnvValues>, key: Seq<char>, fallback: Seq<char>) -> Seq<char> {
    match context {
        Some(v) => match env_text(v, key) {
            Some(t) => t,
            None => fallback,
        },
        None => fallback,
    }
}

pub open spec fn context_number(context: Option<EnvValues>, key: Seq<char>, fallback: u64) -> u64 {
    match context {
        Some(v) => match env_u64(v, key) {
            Some(n) => n,
            None => fallback,
        },
        None => fallback,
    }
}

fn context_value(context: Option<&EnvValues>, key: &str, fallback: &str) -> (r: String)
    requires
        context matches Some(v) ==> v.wf(),
    ensures
        r@ == context_text(
            match context {
                Some(v) => Some(*v),
                None => None,
            },
            key@,
            fallback@,
        ),
{
    match context {
        Some(values) => match env_optional(values, key) {
            Some(v) => v,
            None => owned(fallback),
        },
        None => owned(fallback),
    }
}

fn context_u64(context: Option<&EnvValues>, key: &str, fallback: u64) -> (r: u64)
    requires
        context matches Some(v) ==> v.wf(),
    ensures
        r == context_number(
            match context {
                Some(v) => Some(*v),
                None => None,
            },
            key@,
            fallback,
        ),
{
    match context {
        Some(values) => match env_optional_u64(values, key) {
            Some(n) => n,
            None => fallback,
        },
        None => fallback,
    }
}

pub open spec fn context_of(context: Option<&EnvValues>) -> Option<EnvValues> {
    match context {
        Some(v) => Some(*v),
        None => None,
    }
}

/// The metadata written for a newly captured WIM index. The capture
/// context recorded by the preparing host (computer name, edition, build,
/// sizes) wins over what WinRE can see itself.
pub fn backup_metadata(
    context: Option<&EnvValues>,
    created: Timestamp,
    wim_index: u32,
    image_sha256: String,
    image_size: u64,
    source: VolumeIdentity,
    native_architecture: &str,
) -> (m: BackupMetadata)
    requires
        context matches Some(v) ==> v.wf(),
    ensures
        m.version == METADATA_VERSION,
        m.image_type@ == "wim"@,
        m.created == created,
        m.computer@ == context_text(context_of(context), "COMPUTERNAME"@, "WinRE"@),
        m.windows_edition@ == context_text(context_of(context), "WINDOWS_EDITION"@, "unknown"@),
        m.architecture@ == context_text(
            context_of(context),
            "WINDOWS_ARCHITECTURE"@,
            native_architecture@,
        ),
        m.windows_build@ == context_text(context_of(context), "WINDOWS_BUILD"@, "unknown"@),
        m.wim_index == wim_index,
        m.image_sha256 == image_sha256,
        m.image_size == image_size,
        m.source == source,
        m.captured_used_bytes == context_number(context_of(context), "SOURCE_USED_BYTES"@, 0),
        m.reserved_bytes == context_number(context_of(context), "RESERVED_BYTES"@, 0),
        m.minimum_target_size == context_number(
            context_of(context),
            "MINIMUM_TARGET_SIZE"@,
            source.partition_size,
        ),
        m.volume_serial@ == source.volume_serial@,
        m.program_version@ == PROGRAM_VERSION@,
{
    let computer = context_value(context, "COMPUTERNAME", "WinRE");
    let windows_edition = context_value(context, "WINDOWS_EDITION", "unknown");
    let architecture = context_value(context, "WINDOWS_ARCHITECTURE", native_architecture);
    let windows_build = context_value(context, "WINDOWS_BUILD", "unknown");
    let captured_used_bytes = context_u64(context, "SOURCE_USED_BYTES", 0);
    let reserved_bytes = context_u64(context, "RESERVED_BYTES", 0);
    let minimum_target_size = context_u64(context, "MINIMUM_TARGET_SIZE", source.partition_size);
    let volume_serial = owned(source.volume_serial.as_str());
    BackupMetadata {
        version: METADATA_VERSION,
        image_type: owned("wim"),
        created,
        computer,
        windows_edition,
        architecture,
        windows_build,
        wim_index,
        image_sha256,
        image_size,
        source,
        captured_used_bytes,
        reserved_bytes,
        minimum_target_size,
        volume_serial,
        program_version: owned(PROGRAM_VERSION),
    }
}

/// After a new index is appended, the metadata of an earlier index keeps
/// its source and sizes but names the new image file contents.
pub fn refresh_index_metadata(metadata: &mut BackupMetadata, index: u32, image_sha256: &str, image_size: u64)
    ensures
        final(metadata).wim_index == index,
        final(metadata).image_sha256@ == image_sha256@,
        final(metadata).image_size == image_size,
        final(metadata).source == old(metadata).source,
        final(metadata).created == old(metadata).created,
        final(metadata).captured_used_bytes == old(metadata).captured_used_bytes,
        final(metadata).reserved_bytes == old(metadata).reserved_bytes,
        final(metadata).minimum_target_size == old(metadata).minimum_target_size,
        final(metadata).version == old(metadata).version,
{
    metadata.wim_index = index;
    metadata.image_sha256 = owned(image_sha256);
    metadata.image_size = image_size;
}

/// The directory-level `metadata.json` may be rewritten only when it is
/// absent or describes the image as it was before this capture.
pub open spec fn legacy_belongs(exists: bool, legacy: Option<BackupMetadata>, previous_hash: Option<Seq<char>>) -> bool {
    if !exists {
        true
    } else {
        match (legacy, previous_hash) {
            (Some(m), Some(h)) => eq_ic(m.image_sha256@, h),
            _ => false,
        }
    }
}

pub fn legacy_belongs_to_image(
    legacy_exists: bool,
    legacy: &Option<BackupMetadata>,
    previous_hash: &Option<String>,
) -> (b: bool)
    ensures
        b == legacy_belongs(
            legacy_exists,
            *legacy,
            match previous_hash {
                Some(h) => Some(h@),
                None => None,
            },
        ),
{
    if !legacy_exists {
        return true;
    }
    match legacy {
        Some(m) => match previous_hash {
            Some(h) => str_eq_ignore_ascii_case(m.image_sha256.as_str(), h.as_str()),
            None => false,
        },
        None => false,
    }
}

/// A first capture must produce exactly the index 1.
pub fn check_first_capture(indexes: &[u32]) -> (r: Result<(), TaskError>)
    ensures
        r is Ok <==> indexes@ == seq![1u32],
        r matches Err(e) ==> e == TaskError::Invalid(e->Invalid_0)
            && e->Invalid_0@ == "first backup capture did not produce WIM index 1"@,
{
    if indexes.len() == 1 && indexes[0] == 1 {
        proof {
            assert(indexes@ =~= seq![1u32]);
        }
        return Ok(());
    }
    Err(invalid("first backup capture did not produce WIM index 1"))
}

/// Appending to an image with `previous` indexes must add exactly one; the
/// new index is the last one listed.
pub fn appended_index(previous: usize, indexes: &[u32]) -> (r: Result<u32, TaskError>)
    ensures
        r is Ok <==> (indexes@.len() == previous + 1),
        r matches Ok(i) ==> i == indexes@.last(),
        r matches Err(e) ==> e == TaskError::Invalid(e->Invalid_0)
            && e->Invalid_0@ == "WIM append did not create exactly one new index"@,
{
    let expected = previous.saturating_add(1);
    if indexes.len() != expected || previous == usize::MAX {
        return Err(invalid("WIM append did not create exactly one new index"));
    }
    Ok(indexes[indexes.len() - 1])
}

/// Strictly increasing.
pub open spec fn increasing(s: Seq<u32>) -> bool {
    forall|i: int, j: int| 0 <= i < j < s.len() ==> s[i] < s[j]
}

/// The indexes DISM listed that fit a `u32`.
pub open spec fn listed(raw: Seq<u64>, x: u32) -> bool {
    exists|i: int| 0 <= i < raw.len() && raw[i] == x as u64
}

fn insert_sorted(v: &mut Vec<u32>, x: u32)
    requires
        increasing(old(v)@),
    ensures
        increasing(final(v)@),
        forall|y: u32| final(v)@.contains(y) <==> (old(v)@.contains(y) || y == x),
{
    let mut k: usize = 0;
    while k < v.len() && v[k] < x
        invariant
            v@ == old(v)@,
            increasing(v@),
            k <= v@.len(),
            forall|j: int| 0 <= j < k ==> v@[j] < x,
        decreases v.len() - k,
    {
        k = k + 1;
    }
    if k < v.len() && v[k] == x {
        proof {
            assert(v@[k as int] == x);
        }
        return;
    }
    let ghost before = v@;
    v.insert(k, x);
    proof {
        assert(v@ =~= before.take(k as int).push(x) + before.skip(k as int));
        assert forall|i: int, j: int| 0 <= i < j < v@.len() implies v@[i] < v@[j] by {
            if j < k as int {
            } else if j == k as int {
            } else if i < k as int {
                assert(before[j - 1] > x || before[j - 1] >= x);
            } else if i == k as int {
                assert(before[k as int] > x);
                assert(before[k as int] <= before[j - 1]);
            } else {
            }
        }
        assert forall|y: u32| v@.contains(y) <==> (before.contains(y) || y == x) by {
            if v@.contains(y) {
                let i = choose|i: int| 0 <= i < v@.len() && v@[i] == y;
                if i < k as int {
                    assert(before[i] == y);
                } else if i > k as int {
                    assert(before[i - 1] == y);
                }
            }
            if before.contains(y) {
                let i = choose|i: int| 0 <= i < before.len() && before[i] == y;
                if i < k as int {
                    assert(v@[i] == y);
                } else {
                    assert(v@[i + 1] == y);
                }
            }
            if y == x {
                assert(v@[k as int] == x);
            }
        }
    }
}

/// The image indexes DISM reported, in order and without repetition; any
/// number too large for an index is dropped. None may be 0, and there must
/// be at least one.
pub fn wim_index_list(raw: &[u64]) -> (r: Result<Vec<u32>, TaskError>)
    ensures
        r matches Ok(v) ==> increasing(v@) && v@.len() > 0 && (forall|x: u32| v@.contains(x) <==> listed(raw@, x))
            && !v@.contains(0u32),
        r is Err <==> (forall|x: u32| !listed(raw@, x)) || listed(raw@, 0u32),
        r matches Err(e) ==> e == TaskError::Invalid(e->Invalid_0)
            && e->Invalid_0@ == "DISM returned invalid WIM indexes"@,
{
    let mut v: Vec<u32> = Vec::new();
    for i in 0..raw.len()
        invariant
            increasing(v@),
            forall|x: u32| v@.contains(x) <==> (exists|j: int| 0 <= j < i && raw@[j] == x as u64),
    {
        if raw[i] <= 0xffff_ffffu64 {
            let x = raw[i] as u32;
            insert_sorted(&mut v, x);
            proof {
                assert forall|y: u32| v@.contains(y) <==> (exists|j: int| 0 <= j < i + 1 && raw@[j] == y as u64) by {
                    if y == x {
                        assert(raw@[i as int] == y as u64);
                    }
                    if exists|j: int| 0 <= j < i + 1 && raw@[j] == y as u64 {
                        let j = choose|j: int| 0 <= j < i + 1 && raw@[j] == y as u64;
                        if j < i {
                        } else {
                            assert(y == x);
                        }
                    }
                }
            }
        } else {
            proof {
                assert forall|y: u32| v@.contains(y) <==> (exists|j: int| 0 <= j < i + 1 && raw@[j] == y as u64) by {
                    if exists|j: int| 0 <= j < i + 1 && raw@[j] == y as u64 {
                        let j = choose|j: int| 0 <= j < i + 1 && raw@[j] == y as u64;
                        assert(j < i);
                    }
                }
            }
        }
    }
    proof {
        assert forall|x: u32| v@.contains(x) <==> listed(raw@, x) by {}
    }
    if v.len() == 0 || v[0] == 0 {
        proof {
            if v.len() > 0 {
                assert(v@.contains(0u32));
            } else {
                assert forall|x: u32| !listed(raw@, x) by {
                    if listed(raw@, x) {
                        assert(v@.contains(x));
                    }
                }
            }
        }
        return Err(invalid("DISM returned invalid WIM indexes"));
    }
    proof {
        if v@.contains(0u32) {
            let i = choose|i: int| 0 <= i < v@.len() && v@[i] == 0u32;
            if i > 0 {
                assert(v@[0] < v@[i]);
            }
        }
        assert(v@.contains(v@[0]));
    }
    Ok(v)
}

/// The BCDBoot arguments that write the boot files for `windows_root` to
/// the EFI partition at `efi_root`; a new Windows is added last to the menu.
pub open spec fn bcdboot_args(windows_root: Seq<char>, efi_root: Seq<char>, role: TargetRole) -> Seq<Seq<char>> {
    seq![windows_root, "/s"@, efi_root, "/f"@, "UEFI"@, "/v"@] + if role == TargetRole::NewWindows {
        seq!["/addlast"@]
    } else {
        seq![]
    }
}

pub fn bcdboot_arguments(windows_root: &str, efi_root: &str, role: TargetRole) -> (r: Vec<String>)
    ensures
        r@.map_values(|s: String| s@) == bcdboot_args(windows_root@, efi_root@, role),
{
    let mut r: Vec<String> = Vec::new();
    r.push(owned(windows_root));
    r.push(owned("/s"));
    r.push(owned(efi_root));
    r.push(owned("/f"));
    r.push(owned("UEFI"));
    r.push(owned("/v"));
    if role == TargetRole::NewWindows {
        r.push(owned("/addlast"));
    }
    proof {
        assert(r@.map_values(|s: String| s@) =~= bcdboot_args(windows_root@, efi_root@, role));
    }
    r
}

} // verus!
