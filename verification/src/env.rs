//! `RecoveryTask.env`: the `KEY=value` file that hands volume identities to
//! the recovery host, and the identity checks made against it.
use vstd::prelude::*;
use crate::model::{destructive, Operation, Task, TaskError, VolumeIdentity};
use crate::number::{parse_u32, parse_u32_spec, parse_u64, parse_u64_spec};
use crate::paths::{absolute_path_ok, invalid, validate_absolute_path};
use crate::task::message;
use crate::text::{all_ws, chars_of, eq_ic, first_index, is_alnum, is_alpha, is_ascii_alphabetic, is_ascii_alphanumeric, lines, lines_of, seq_eq, str_eq_ignore_ascii_case, string_from};

verus! {

/// `str::trim_end_matches('\r')`.
pub open spec fn trim_end_cr(s: Seq<char>) -> Seq<char>
    decreases s.len(),
{
    if s.len() > 0 && s.last() == '\r' {
        trim_end_cr(s.drop_last())
    } else {
        s
    }
}

/// A key: letters, digits and `_`, not starting with a digit.
pub open spec fn env_key_ok(k: Seq<char>) -> bool {
    k.len() > 0 && forall|i: int| 0 <= i < k.len() ==>
        (#[trigger] k[i] == '_' || (is_alnum(k[i]) && (i > 0 || is_alpha(k[i]))))
}

/// What one line of the file is.
pub enum EnvLine {
    /// Empty or a `#` comment.
    Skip,
    Pair(Seq<char>, Seq<char>),
    /// No `=` at all.
    Malformed,
    /// The text before the first `=` is not a key.
    BadKey,
}

pub open spec fn env_line(line: Seq<char>) -> EnvLine {
    let l = trim_end_cr(line);
    if l.len() == 0 || l[0] == '#' {
        EnvLine::Skip
    } else {
        match first_index(l, '=') {
            None => EnvLine::Malformed,
            Some(i) => if env_key_ok(l.take(i)) {
                EnvLine::Pair(l.take(i), l.skip(i + 1))
            } else {
                EnvLine::BadKey
            },
        }
    }
}

pub open spec fn has_key(es: Seq<(Seq<char>, Seq<char>)>, k: Seq<char>) -> bool {
    exists|j: int| 0 <= j < es.len() && (#[trigger] es[j]).0 == k
}

/// The entries of the file's lines in order, or `None` where a line is
/// malformed, has an invalid key, or repeats a key.
pub open spec fn env_entries(ls: Seq<Seq<char>>) -> Option<Seq<(Seq<char>, Seq<char>)>>
    decreases ls.len(),
{
    if ls.len() == 0 {
        Some(Seq::empty())
    } else {
        match env_entries(ls.drop_last()) {
            None => None,
            Some(acc) => match env_line(ls.last()) {
                EnvLine::Skip => Some(acc),
                EnvLine::Pair(k, v) => if has_key(acc, k) {
                    None
                } else {
                    Some(acc.push((k, v)))
                },
                _ => None,
            },
        }
    }
}

/// Once a prefix of the lines is refused, so is the whole file.
pub proof fn lemma_env_entries_refusal_persists(ls: Seq<Seq<char>>, k: int)
    requires
        0 <= k <= ls.len(),
        env_entries(ls.take(k)) is None,
    ensures
        env_entries(ls) is None,
    decreases ls.len() - k,
{
    if k < ls.len() {
        assert(ls.take(k + 1).drop_last() =~= ls.take(k));
        lemma_env_entries_refusal_persists(ls, k + 1);
    } else {
        assert(ls.take(k) =~= ls);
    }
}

/// The values read from a `RecoveryTask.env` file; every key occurs once.
#[derive(Debug, Clone)]
pub struct EnvValues {
    entries: Vec<(String, String)>,
}

pub open spec fn entry_views(es: Seq<(String, String)>) -> Seq<(Seq<char>, Seq<char>)> {
    es.map_values(|e: (String, String)| (e.0@, e.1@))
}

/// The value recorded under `key`.
pub open spec fn lookup(es: Seq<(Seq<char>, Seq<char>)>, key: Seq<char>) -> Option<Seq<char>> {
    if has_key(es, key) {
        Some(es[choose|j: int| 0 <= j < es.len() && (#[trigger] es[j]).0 == key].1)
    } else {
        None
    }
}

pub open spec fn keys_distinct(es: Seq<(Seq<char>, Seq<char>)>) -> bool {
    forall|i: int, j: int| 0 <= i < j < es.len() ==> (#[trigger] es[i]).0 != (#[trigger] es[j]).0
}

impl EnvValues {
    pub closed spec fn view_entries(&self) -> Seq<(Seq<char>, Seq<char>)> {
        entry_views(self.entries@)
    }

    /// The value recorded under `key`.
    pub open spec fn get(&self, key: Seq<char>) -> Option<Seq<char>> {
        lookup(self.view_entries(), key)
    }

    pub closed spec fn wf(&self) -> bool {
        keys_distinct(self.view_entries())
    }

    /// `BTreeMap::get`.
    pub fn value(&self, key: &str) -> (r: Option<String>)
        requires
            self.wf(),
        ensures
            r matches Some(v) ==> self.get(key@) == Some(v@),
            r is None ==> self.get(key@) is None,
    {
        let k = chars_of(key);
        let ghost es = self.view_entries();
        for i in 0..self.entries.len()
            invariant
                k@ == key@,
                es == self.view_entries(),
                keys_distinct(es),
                es.len() == self.entries@.len(),
                forall|j: int| 0 <= j < i ==> (#[trigger] es[j]).0 != key@,
        {
            let entry = &self.entries[i];
            proof {
                assert(es[i as int] == (entry.0@, entry.1@));
            }
            if seq_eq(chars_of(entry.0.as_str()).as_slice(), k.as_slice()) {
                proof {
                    let j = choose|j: int| 0 <= j < es.len() && (#[trigger] es[j]).0 == key@;
                    if j != i {
                        if j < i {
                            assert(es[j].0 != key@);
                        } else {
                            assert(es[i as int].0 != es[j].0);
                        }
                    }
                }
                return Some(entry.1.clone());
            }
        }
        None
    }
}

/// Where a line's key ends: the position of its first `=`.
fn env_line_of(line: &[char]) -> (r: (u8, Vec<char>, Vec<char>))
    ensures
        r.0 == 0 ==> env_line(line@) is Skip,
        r.0 == 1 ==> env_line(line@) == EnvLine::Pair(r.1@, r.2@),
        r.0 == 2 ==> env_line(line@) is Malformed,
        r.0 == 3 ==> env_line(line@) is BadKey,
        r.0 <= 3,
{
    let mut n = line.len();
    proof {
        assert(line@.take(n as int) =~= line@);
    }
    while n > 0 && line[n - 1] == '\r'
        invariant
            n <= line.len(),
            trim_end_cr(line@.take(n as int)) == trim_end_cr(line@),
        decreases n,
    {
        proof {
            assert(line@.take(n as int).drop_last() =~= line@.take(n - 1));
        }
        n = n - 1;
    }
    let ghost l = line@.take(n as int);
    proof {
        assert(trim_end_cr(l) == l);
    }
    if n == 0 || line[0] == '#' {
        return (0, Vec::new(), Vec::new());
    }
    let mut eq: usize = 0;
    while eq < n && line[eq] != '='
        invariant
            eq <= n,
            n <= line.len(),
            l == line@.take(n as int),
            forall|j: int| 0 <= j < eq ==> l[j] != '=',
        decreases n - eq,
    {
        eq = eq + 1;
    }
    if eq == n {
        proof {
            assert(!l.contains('='));
            assert(first_index(l, '=') is None);
        }
        return (2, Vec::new(), Vec::new());
    }
    proof {
        let c = choose|i: int| 0 <= i < l.len() && l[i] == '=' && forall|j: int| 0 <= j < i ==> l[j] != '=';
        assert(c == eq) by {
            if c < eq {
                assert(l[c] != '=');
            } else if c > eq {
                assert(l[eq as int] == '=');
            }
        }
    }
    let mut key: Vec<char> = Vec::new();
    let mut ok = eq > 0;
    for i in 0..eq
        invariant
            eq < n,
            n <= line.len(),
            l == line@.take(n as int),
            key@ == l.take(i as int),
            ok == (eq > 0 && forall|j: int| 0 <= j < i ==> (#[trigger] l[j] == '_' || (is_alnum(l[j]) && (j > 0 || is_alpha(l[j]))))),
    {
        let ch = line[i];
        proof {
            assert(l[i as int] == ch);
        }
        let good = ch == '_' || (is_ascii_alphanumeric(ch) && (i > 0 || is_ascii_alphabetic(ch)));
        ok = ok && good;
        key.push(ch);
        proof {
            assert(l.take(i + 1) =~= l.take(i as int).push(ch));
        }
    }
    proof {
        assert(ok == env_key_ok(l.take(eq as int))) by {
            if ok {
                assert forall|j: int| 0 <= j < l.take(eq as int).len() implies
                    (#[trigger] l.take(eq as int)[j] == '_' || (is_alnum(l.take(eq as int)[j]) && (j > 0 || is_alpha(l.take(eq as int)[j])))) by {
                    assert(l.take(eq as int)[j] == l[j]);
                }
            } else if eq > 0 {
                let j = choose|j: int| 0 <= j < eq && !(#[trigger] l[j] == '_' || (is_alnum(l[j]) && (j > 0 || is_alpha(l[j]))));
                assert(l.take(eq as int)[j] == l[j]);
            }
        }
    }
    if !ok {
        return (3, Vec::new(), Vec::new());
    }
    let mut value: Vec<char> = Vec::new();
    let mut i = eq + 1;
    while i < n
        invariant
            eq < i <= n,
            n <= line.len(),
            l == line@.take(n as int),
            value@ == l.subrange(eq + 1, i as int),
        decreases n - i,
    {
        value.push(line[i]);
        proof {
            assert(l.subrange(eq + 1, i + 1) =~= l.subrange(eq + 1, i as int).push(l[i as int]));
        }
        i = i + 1;
    }
    proof {
        assert(value@ =~= l.skip(eq + 1));
    }
    (1, key, value)
}

/// Parse the text of a `RecoveryTask.env` file.
pub fn parse_env_text(text: &str) -> (r: Result<EnvValues, TaskError>)
    ensures
        r matches Ok(v) ==> v.wf() && env_entries(lines(text@)) == Some(v.view_entries()),
        r is Err ==> env_entries(lines(text@)) is None,
        r matches Err(e) ==> e is Invalid,
{
    let t = chars_of(text);
    let ls = lines_of(t.as_slice());
    let ghost all = lines(text@);
    let mut entries: Vec<(String, String)> = Vec::new();
    for i in 0..ls.len()
        invariant
            all == lines(text@),
            ls@.len() == all.len(),
            forall|j: int| 0 <= j < ls@.len() ==> #[trigger] ls@[j]@ == all[j],
            env_entries(all.take(i as int)) == Some(entry_views(entries@)),
            keys_distinct(entry_views(entries@)),
    {
        proof {
            assert(all.take(i + 1).drop_last() =~= all.take(i as int));
            assert(all.take(i + 1).last() == ls@[i as int]@);
        }
        let (kind, key, value) = env_line_of(ls[i].as_slice());
        if kind == 2 || kind == 3 {
            proof {
                lemma_env_entries_refusal_persists(all, i + 1);
            }
        }
        if kind == 2 {
            return Err(invalid("RecoveryTask.env contains a malformed line"));
        }
        if kind == 3 {
            return Err(invalid("RecoveryTask.env contains an invalid key"));
        }
        if kind == 1 {
            let ghost acc = entry_views(entries@);
            let mut dup = false;
            for j in 0..entries.len()
                invariant
                    acc == entry_views(entries@),
                    acc.len() == entries@.len(),
                    dup == exists|m: int| 0 <= m < j && (#[trigger] acc[m]).0 == key@,
            {
                proof {
                    assert(acc[j as int] == (entries@[j as int].0@, entries@[j as int].1@));
                }
                if seq_eq(chars_of(entries[j].0.as_str()).as_slice(), key.as_slice()) {
                    dup = true;
                }
            }
            if dup {
                proof {
                    assert(has_key(acc, key@));
                    lemma_env_entries_refusal_persists(all, i + 1);
                }
                return Err(invalid("RecoveryTask.env contains a duplicate or empty key"));
            }
            entries.push((string_from(key.as_slice()), string_from(value.as_slice())));
            proof {
                assert(entry_views(entries@) =~= acc.push((key@, value@)));
                assert forall|a: int, b: int| 0 <= a < b < entry_views(entries@).len() implies
                    (#[trigger] entry_views(entries@)[a]).0 != (#[trigger] entry_views(entries@)[b]).0 by {
                    if b == acc.len() {
                        assert(entry_views(entries@)[a] == acc[a]);
                    } else {
                        assert(entry_views(entries@)[a] == acc[a]);
                        assert(entry_views(entries@)[b] == acc[b]);
                    }
                }
            }
        }
    }
    proof {
        assert(all.take(ls@.len() as int) =~= all);
    }
    Ok(EnvValues { entries })
}

/// The value under `key` when it is present and not blank.
pub open spec fn env_text(v: EnvValues, key: Seq<char>) -> Option<Seq<char>> {
    match v.get(key) {
        Some(s) => if all_ws(s) { None } else { Some(s) },
        None => None,
    }
}

pub open spec fn env_u32(v: EnvValues, key: Seq<char>) -> Option<u32> {
    match env_text(v, key) {
        Some(s) => parse_u32_spec(s),
        None => None,
    }
}

pub open spec fn env_u64(v: EnvValues, key: Seq<char>) -> Option<u64> {
    match env_text(v, key) {
        Some(s) => parse_u64_spec(s),
        None => None,
    }
}

/// A value the file must hold: present and not blank.
pub fn env_required(values: &EnvValues, key: &str) -> (r: Result<String, TaskError>)
    requires
        values.wf(),
    ensures
        r matches Ok(s) ==> env_text(*values, key@) == Some(s@),
        r is Err ==> env_text(*values, key@) is None,
        r matches Err(e) ==> e == TaskError::Invalid(e->Invalid_0)
            && e->Invalid_0@ == "RecoveryTask.env is missing "@ + key@,
{
    match values.value(key) {
        Some(v) => {
            if crate::text::str_is_blank(v.as_str()) {
                Err(TaskError::Invalid(message("RecoveryTask.env is missing ", key)))
            } else {
                Ok(v)
            }
        },
        None => Err(TaskError::Invalid(message("RecoveryTask.env is missing ", key))),
    }
}

pub fn env_u32_value(values: &EnvValues, key: &str) -> (r: Result<u32, TaskError>)
    requires
        values.wf(),
    ensures
        r matches Ok(n) ==> env_u32(*values, key@) == Some(n),
        r is Err ==> env_u32(*values, key@) is None,
        r matches Err(e) ==> e is Invalid,
{
    let text = env_required(values, key)?;
    match parse_u32(chars_of(text.as_str()).as_slice()) {
        Some(n) => Ok(n),
        None => {
            let m = message("RecoveryTask.env ", key);
            Err(TaskError::Invalid(message(m.as_str(), " is not a number")))
        },
    }
}

pub fn env_u64_value(values: &EnvValues, key: &str) -> (r: Result<u64, TaskError>)
    requires
        values.wf(),
    ensures
        r matches Ok(n) ==> env_u64(*values, key@) == Some(n),
        r is Err ==> env_u64(*values, key@) is None,
        r matches Err(e) ==> e is Invalid,
{
    let text = env_required(values, key)?;
    match parse_u64(chars_of(text.as_str()).as_slice()) {
        Some(n) => Ok(n),
        None => {
            let m = message("RecoveryTask.env ", key);
            Err(TaskError::Invalid(message(m.as_str(), " is not a number")))
        },
    }
}

/// A value the file may hold: present and not blank, else `None`.
pub fn env_optional(values: &EnvValues, key: &str) -> (r: Option<String>)
    requires
        values.wf(),
    ensures
        r matches Some(s) ==> env_text(*values, key@) == Some(s@),
        r is None ==> env_text(*values, key@) is None,
{
    match env_required(values, key) {
        Ok(v) => Some(v),
        Err(_) => None,
    }
}

/// An optional number: present, not blank and a `u64`, else `None`.
pub fn env_optional_u64(values: &EnvValues, key: &str) -> (r: Option<u64>)
    requires
        values.wf(),
    ensures
        r == env_u64(*values, key@),
{
    match env_u64_value(values, key) {
        Ok(n) => Some(n),
        Err(_) => None,
    }
}

} // verus!

verus! {

/// The key `<prefix><suffix>`, for instance `SOURCE` and `_VOLUME_GUID`.
pub open spec fn env_key(prefix: Seq<char>, suffix: Seq<char>) -> Seq<char> {
    prefix + suffix
}

/// The file records, under `key`, a value equal to `expected` up to ASCII
/// case.
pub open spec fn text_recorded(v: EnvValues, key: Seq<char>, expected: Seq<char>) -> bool {
    env_text(v, key) matches Some(a) && eq_ic(expected, a)
}

/// The identity recorded in the task matches the one handed to WinRE
/// under `prefix`: the five GUID/filesystem texts, disk and partition
/// numbers, offset and size; and the volume serial unless the volume may
/// have been reformatted or the task records none.
pub open spec fn identity_recorded(v: EnvValues, prefix: Seq<char>, id: VolumeIdentity, allow_reformatted_serial: bool) -> bool {
    &&& text_recorded(v, env_key(prefix, "_VOLUME_GUID"@), id.volume_guid@)
    &&& text_recorded(v, env_key(prefix, "_DISK_GUID"@), id.disk_guid@)
    &&& text_recorded(v, env_key(prefix, "_PARTITION_GUID"@), id.partition_guid@)
    &&& text_recorded(v, env_key(prefix, "_PARTITION_TYPE_GUID"@), id.partition_type_guid@)
    &&& text_recorded(v, env_key(prefix, "_FILESYSTEM"@), id.filesystem@)
    &&& env_u32(v, env_key(prefix, "_DISK_NUMBER"@)) matches Some(n) && id.disk_number == Some(n)
    &&& env_u32(v, env_key(prefix, "_PARTITION_NUMBER"@)) matches Some(n) && id.partition_number == Some(n)
    &&& env_u64(v, env_key(prefix, "_PARTITION_OFFSET"@)) == Some(id.partition_offset)
    &&& env_u64(v, env_key(prefix, "_PARTITION_SIZE"@)) == Some(id.partition_size)
    &&& (!allow_reformatted_serial && !all_ws(id.volume_serial@) ==>
            text_recorded(v, env_key(prefix, "_VOLUME_SERIAL"@), id.volume_serial@))
}

fn mismatch(prefix: &str, label: &str, suffix: &str) -> (e: TaskError)
    ensures
        e matches TaskError::Invalid(m) && m@ == prefix@ + " "@ + label@ + suffix@,
{
    let a = message(prefix, " ");
    let b = message(a.as_str(), label);
    TaskError::Invalid(message(b.as_str(), suffix))
}

fn check_text(values: &EnvValues, prefix: &str, suffix: &str, expected: &str, label: &str) -> (r: Result<(), TaskError>)
    requires
        values.wf(),
    ensures
        r is Ok <==> text_recorded(*values, env_key(prefix@, suffix@), expected@),
        r matches Err(e) ==> e is Invalid,
{
    let key = message(prefix, suffix);
    let actual = env_required(values, key.as_str())?;
    if !str_eq_ignore_ascii_case(expected, actual.as_str()) {
        return Err(mismatch(prefix, label, " differs between task.json and RecoveryTask.env"));
    }
    Ok(())
}

/// Compare one recorded volume identity with the values handed to WinRE.
pub fn verify_identity_env(
    values: &EnvValues,
    prefix: &str,
    identity: &VolumeIdentity,
    allow_reformatted_serial: bool,
) -> (r: Result<(), TaskError>)
    requires
        values.wf(),
    ensures
        r is Ok <==> identity_recorded(*values, prefix@, *identity, allow_reformatted_serial),
        r matches Err(e) ==> e is Invalid,
{
    check_text(values, prefix, "_VOLUME_GUID", identity.volume_guid.as_str(), "volume")?;
    check_text(values, prefix, "_DISK_GUID", identity.disk_guid.as_str(), "disk")?;
    check_text(values, prefix, "_PARTITION_GUID", identity.partition_guid.as_str(), "partition")?;
    check_text(values, prefix, "_PARTITION_TYPE_GUID", identity.partition_type_guid.as_str(), "partition type")?;
    check_text(values, prefix, "_FILESYSTEM", identity.filesystem.as_str(), "filesystem")?;
    let disk = env_u32_value(values, message(prefix, "_DISK_NUMBER").as_str())?;
    if identity.disk_number != Some(disk) {
        return Err(mismatch(prefix, "disk number", " differs between task.json and RecoveryTask.env"));
    }
    let partition = env_u32_value(values, message(prefix, "_PARTITION_NUMBER").as_str())?;
    if identity.partition_number != Some(partition) {
        return Err(mismatch(prefix, "partition number", " differs between task.json and RecoveryTask.env"));
    }
    let offset = env_u64_value(values, message(prefix, "_PARTITION_OFFSET").as_str())?;
    if identity.partition_offset != offset {
        return Err(mismatch(prefix, "partition offset", " differs between task.json and RecoveryTask.env"));
    }
    let size = env_u64_value(values, message(prefix, "_PARTITION_SIZE").as_str())?;
    if identity.partition_size != size {
        return Err(mismatch(prefix, "partition size", " differs between task.json and RecoveryTask.env"));
    }
    if !allow_reformatted_serial && !crate::text::str_is_blank(identity.volume_serial.as_str()) {
        check_text(values, prefix, "_VOLUME_SERIAL", identity.volume_serial.as_str(), "volume serial")?;
    }
    Ok(())
}

/// The task's image path is a valid absolute path and the file hands WinRE
/// the same path, up to ASCII case.
pub open spec fn image_path_recorded(v: EnvValues, expected: Option<String>) -> bool {
    match (expected, env_text(v, "IMAGE_ABSOLUTE_PATH"@)) {
        (Some(e), Some(a)) => absolute_path_ok(e@) && absolute_path_ok(a) && eq_ic(e@, a),
        _ => false,
    }
}

pub fn verify_image_absolute_path(values: &EnvValues, expected: &Option<String>) -> (r: Result<(), TaskError>)
    requires
        values.wf(),
    ensures
        r is Ok <==> image_path_recorded(*values, *expected),
        r matches Err(e) ==> e is Invalid,
{
    let expected = match expected {
        Some(e) => e,
        None => return Err(invalid("task is missing image absolute path")),
    };
    validate_absolute_path(expected.as_str())?;
    let actual = env_required(values, "IMAGE_ABSOLUTE_PATH")?;
    validate_absolute_path(actual.as_str())?;
    if !str_eq_ignore_ascii_case(expected.as_str(), actual.as_str()) {
        return Err(invalid("image absolute path differs between task.json and RecoveryTask.env"));
    }
    Ok(())
}

/// Every volume the task names matches the identity handed to WinRE; the
/// target's serial may differ once the target has been reformatted.
pub open spec fn task_recorded(v: EnvValues, t: Task) -> bool {
    &&& (t.source matches Some(s) ==> identity_recorded(v, "SOURCE"@, s, false))
    &&& t.workspace_volume matches Some(w) && identity_recorded(v, "WORKSPACE"@, w, false)
    &&& match t.operation {
        Operation::Backup => t.destination matches Some(d) && identity_recorded(v, "IMAGE"@, d.volume, false)
            && image_path_recorded(v, d.absolute_path),
        Operation::Probe => true,
        _ => match (t.image, t.target) {
            (Some(i), Some(g)) => identity_recorded(v, "IMAGE"@, i.volume, false)
                && image_path_recorded(v, i.absolute_path)
                && identity_recorded(v, "TARGET"@, g.volume, destructive(t.status)),
            _ => false,
        },
    }
}

pub fn verify_task_identity_env(values: &EnvValues, task: &Task) -> (r: Result<(), TaskError>)
    requires
        values.wf(),
    ensures
        r is Ok <==> task_recorded(*values, *task),
        r matches Err(e) ==> e is Invalid,
{
    if let Some(source) = &task.source {
        verify_identity_env(values, "SOURCE", source, false)?;
    }
    let workspace = match &task.workspace_volume {
        Some(w) => w,
        None => return Err(invalid("task.json is missing workspace_volume identity")),
    };
    verify_identity_env(values, "WORKSPACE", workspace, false)?;
    match task.operation {
        Operation::Backup => {
            let destination = match &task.destination {
                Some(d) => d,
                None => return Err(invalid("backup task is missing destination")),
            };
            verify_identity_env(values, "IMAGE", &destination.volume, false)?;
            verify_image_absolute_path(values, &destination.absolute_path)?;
        },
        Operation::RestoreExisting | Operation::CreateSecondary => {
            let image = match &task.image {
                Some(i) => i,
                None => return Err(invalid("restore task is missing image")),
            };
            verify_identity_env(values, "IMAGE", &image.volume, false)?;
            verify_image_absolute_path(values, &image.absolute_path)?;
            let target = match &task.target {
                Some(g) => g,
                None => return Err(invalid("restore task is missing target")),
            };
            verify_identity_env(values, "TARGET", &target.volume, task.status.is_destructive_boundary())?;
        },
        Operation::Probe => {},
    }
    Ok(())
}

/// The identity read from a mounted volume equals the one handed to WinRE
/// under `prefix`; a differing non-empty live serial is refused unless the
/// volume may have been reformatted.
pub open spec fn live_identity_matches(v: EnvValues, prefix: Seq<char>, live: VolumeIdentity, allow_reformatted_serial: bool) -> bool {
    &&& text_recorded(v, env_key(prefix, "_VOLUME_GUID"@), live.volume_guid@)
    &&& text_recorded(v, env_key(prefix, "_DISK_GUID"@), live.disk_guid@)
    &&& text_recorded(v, env_key(prefix, "_PARTITION_GUID"@), live.partition_guid@)
    &&& text_recorded(v, env_key(prefix, "_PARTITION_TYPE_GUID"@), live.partition_type_guid@)
    &&& text_recorded(v, env_key(prefix, "_FILESYSTEM"@), live.filesystem@)
    &&& env_u32(v, env_key(prefix, "_DISK_NUMBER"@)) matches Some(n) && live.disk_number == Some(n)
    &&& env_u32(v, env_key(prefix, "_PARTITION_NUMBER"@)) matches Some(n) && live.partition_number == Some(n)
    &&& env_u64(v, env_key(prefix, "_PARTITION_OFFSET"@)) == Some(live.partition_offset)
    &&& env_u64(v, env_key(prefix, "_PARTITION_SIZE"@)) == Some(live.partition_size)
    &&& (!allow_reformatted_serial ==> !(env_text(v, env_key(prefix, "_VOLUME_SERIAL"@)) matches Some(e)
            && live.volume_serial@.len() > 0 && !eq_ic(live.volume_serial@, e)))
}

/// Compare the identity read back from a mounted volume with the values
/// handed to WinRE.
pub fn verify_live_volume_identity(
    live: &VolumeIdentity,
    values: &EnvValues,
    prefix: &str,
    allow_reformatted_serial: bool,
) -> (r: Result<(), TaskError>)
    requires
        values.wf(),
    ensures
        r is Ok <==> live_identity_matches(*values, prefix@, *live, allow_reformatted_serial),
        r matches Err(e) ==> e is Invalid,
{
    verify_identity_env(values, prefix, live, true)?;
    if !allow_reformatted_serial {
        if let Some(expected) = env_optional(values, message(prefix, "_VOLUME_SERIAL").as_str()) {
            if !live.volume_serial.as_str().is_empty() && !str_eq_ignore_ascii_case(live.volume_serial.as_str(), expected.as_str()) {
                return Err(mismatch(prefix, "volume serial", " differs after mounting"));
            }
        }
    }
    Ok(())
}

/// After formatting, the target still has the identity it was chosen by:
/// the same disk, partition and type GUIDs (up to ASCII case), numbers,
/// offset and size.
pub open spec fn same_geometry(expected: VolumeIdentity, actual: VolumeIdentity) -> bool {
    &&& eq_ic(expected.disk_guid@, actual.disk_guid@)
    &&& eq_ic(expected.partition_guid@, actual.partition_guid@)
    &&& eq_ic(expected.partition_type_guid@, actual.partition_type_guid@)
    &&& expected.disk_number == actual.disk_number
    &&& expected.partition_number == actual.partition_number
    &&& expected.partition_offset == actual.partition_offset
    &&& expected.partition_size == actual.partition_size
}

pub fn verify_partition_identity_after_format(expected: &VolumeIdentity, actual: &VolumeIdentity) -> (r: Result<(), TaskError>)
    ensures
        r is Ok <==> same_geometry(*expected, *actual),
        r matches Err(e) ==> e is Invalid,
{
    if !str_eq_ignore_ascii_case(expected.disk_guid.as_str(), actual.disk_guid.as_str()) {
        return Err(invalid("formatted restore target disk GUID changed unexpectedly"));
    }
    if !str_eq_ignore_ascii_case(expected.partition_guid.as_str(), actual.partition_guid.as_str()) {
        return Err(invalid("formatted restore target partition GUID changed unexpectedly"));
    }
    if !str_eq_ignore_ascii_case(expected.partition_type_guid.as_str(), actual.partition_type_guid.as_str()) {
        return Err(invalid("formatted restore target partition type changed unexpectedly"));
    }
    if expected.disk_number != actual.disk_number || expected.partition_number != actual.partition_number
        || expected.partition_offset != actual.partition_offset
        || expected.partition_size != actual.partition_size {
        return Err(invalid("formatted restore target disk/partition geometry changed unexpectedly"));
    }
    Ok(())
}

} // verus!
