//! The task store: where each task's records live, the status records the
//! store writes, the check of a loaded task, and which finished tasks give
//! up their large working files.
use vstd::prelude::*;
use std::path::PathBuf;
use crate::model::{terminal, transition_allowed, Stage, StatusRecord, Task, TaskError};
use crate::outside::{hyphenated_uuid_text, uuid_canonical, uuid_text_length};
use crate::paths::invalid;
use crate::task::{canonical_task_id, message, task_valid};
use crate::text::{owned, seq_eq, chars_of};
use crate::time::{earlier, now, Timestamp};

verus! {

/// `std::path::PathBuf`, carried as an opaque value.
#[verifier::external_type_specification]
#[verifier::external_body]
pub struct ExPathBuf(std::path::PathBuf);

/// `PathBuf::clone`, used by the derived `Clone` of the store. Nothing is
/// stated of the copy.
pub assume_specification[<std::path::PathBuf as std::clone::Clone>::clone](p: &std::path::PathBuf) -> std::path::PathBuf;

/// The directory holding all task directories, under `tasks`.
#[derive(Debug, Clone)]
pub struct TaskStore {
    pub root: PathBuf,
}

impl TaskStore {
    pub fn new(root: PathBuf) -> (s: Self)
        ensures
            s.root == root,
    {
        TaskStore { root }
    }

    /// `<root>/tasks/<canonical task id>`, as the components below the
    /// root; refused for a task id that is not a UUID. The last component is
    /// the canonical text of the id (36 hexadecimal digits and hyphens), so
    /// the directory never leaves `<root>/tasks`, and ids that name the same
    /// UUID name the same directory.
    pub fn task_dir(&self, task_id: &str) -> (r: Result<StorePath, TaskError>)
        ensures
            r is Ok <==> uuid_canonical(task_id@) is Some,
            !uuid_text_length(task_id@.len()) ==> r is Err,
            r matches Ok(p) ==> uuid_canonical(task_id@) matches Some(c) && p.view() == seq!["tasks"@, c]
                && hyphenated_uuid_text(c),
            r matches Err(e) ==> e == TaskError::Invalid(e->Invalid_0) && e->Invalid_0@
                == "task_id is not a UUID"@,
    {
        let canonical = canonical_task_id(task_id)?;
        let mut parts: Vec<String> = Vec::new();
        parts.push(owned("tasks"));
        parts.push(canonical);
        let p = StorePath { parts };
        proof {
            assert(p.view() =~= seq!["tasks"@, p.parts@[1]@]);
        }
        Ok(p)
    }

    /// `task.json` in the task directory.
    pub fn task_path(&self, task_id: &str) -> (r: Result<StorePath, TaskError>)
        ensures
            r is Ok <==> uuid_canonical(task_id@) is Some,
            r matches Ok(p) ==> uuid_canonical(task_id@) matches Some(c) && p.view() == seq!["tasks"@, c, "task.json"@],
            r matches Err(e) ==> e == TaskError::Invalid(e->Invalid_0) && e->Invalid_0@
                == "task_id is not a UUID"@,
    {
        let dir = self.task_dir(task_id)?;
        Ok(dir.child("task.json"))
    }

    /// `status.json` in the task directory.
    pub fn status_path(&self, task_id: &str) -> (r: Result<StorePath, TaskError>)
        ensures
            r is Ok <==> uuid_canonical(task_id@) is Some,
            r matches Ok(p) ==> uuid_canonical(task_id@) matches Some(c) && p.view() == seq!["tasks"@, c, "status.json"@],
            r matches Err(e) ==> e == TaskError::Invalid(e->Invalid_0) && e->Invalid_0@
                == "task_id is not a UUID"@,
    {
        let dir = self.task_dir(task_id)?;
        Ok(dir.child("status.json"))
    }

    /// `recovery.log` in the task directory.
    pub fn log_path(&self, task_id: &str) -> (r: Result<StorePath, TaskError>)
        ensures
            r is Ok <==> uuid_canonical(task_id@) is Some,
            r matches Ok(p) ==> uuid_canonical(task_id@) matches Some(c) && p.view() == seq!["tasks"@, c, "recovery.log"@],
            r matches Err(e) ==> e == TaskError::Invalid(e->Invalid_0) && e->Invalid_0@
                == "task_id is not a UUID"@,
    {
        let dir = self.task_dir(task_id)?;
        Ok(dir.child("recovery.log"))
    }
}

/// A path below the store's root, as its components in order; the host
/// joins them onto the root.
#[derive(Debug, Clone, PartialEq, Eq)]
pub struct StorePath {
    pub parts: Vec<String>,
}

impl StorePath {
    /// The components as text.
    pub open spec fn view(&self) -> Seq<Seq<char>> {
        self.parts@.map_values(|s: String| s@)
    }

    /// The path one component further down.
    pub fn child(self, name: &str) -> (r: StorePath)
        ensures
            r.view() == self.view().push(name@),
    {
        let mut parts = self.parts;
        parts.push(owned(name));
        let r = StorePath { parts };
        proof {
            assert(r.view() =~= self.view().push(name@));
        }
        r
    }
}

/// The status record written beside a newly created task.
pub fn initial_status(task: &Task) -> (r: StatusRecord)
    ensures
        r.task_id@ == task.task_id@,
        r.operation == task.operation,
        r.stage == task.status,
        r.progress == 0,
        r.error_code is None,
        r.error is None,
{
    StatusRecord {
        task_id: owned(task.task_id.as_str()),
        operation: task.operation,
        stage: task.status,
        progress: 0,
        updated: now(),
        error_code: None,
        error: None,
    }
}

/// Mark the task failed with an error code and message, if the state
/// machine lets it fail from where it is; the returned status record is
/// what the store writes next to it.
pub fn record_failure(task: &mut Task, code: i32, error: String) -> (r: Result<StatusRecord, TaskError>)
    ensures
        r is Ok <==> transition_allowed(old(task).status, Stage::Failed),
        r matches Ok(rec) ==> {
            &&& *final(task) == (Task { status: Stage::Failed, ..*old(task) })
            &&& rec.task_id@ == old(task).task_id@
            &&& rec.operation == old(task).operation
            &&& rec.stage == Stage::Failed
            &&& rec.progress == 0
            &&& rec.error_code == Some(code)
            &&& rec.error matches Some(m) && m@ == error@
        },
        r matches Err(e) ==> *final(task) == *old(task) && e == TaskError::Invalid(e->Invalid_0)
            && e->Invalid_0@ == "cannot fail task from "@ + crate::plan::stage_label(old(task).status),
{
    if !task.status.can_transition_to(Stage::Failed) {
        return Err(TaskError::Invalid(message("cannot fail task from ", crate::plan::stage_name(task.status))));
    }
    task.status = Stage::Failed;
    Ok(StatusRecord {
        task_id: owned(task.task_id.as_str()),
        operation: task.operation,
        stage: Stage::Failed,
        progress: 0,
        updated: now(),
        error_code: Some(code),
        error: Some(error),
    })
}

/// A task read from the store is the one asked for (the two ids name the
/// same UUID, whatever their spelling) and is valid.
pub open spec fn loaded_task_ok(requested: Seq<char>, task: Task) -> bool {
    &&& uuid_canonical(requested) is Some
    &&& uuid_canonical(task.task_id@) is Some
    &&& uuid_canonical(requested) == uuid_canonical(task.task_id@)
    &&& task_valid(task)
}

pub fn check_loaded_task(requested: &str, task: &Task) -> (r: Result<(), TaskError>)
    ensures
        r is Ok <==> loaded_task_ok(requested@, *task),
        r matches Err(e) ==> e is Invalid,
        uuid_canonical(requested@) is None ==> (r matches Err(e) && e == TaskError::Invalid(
            e->Invalid_0,
        ) && e->Invalid_0@ == "task_id is not a UUID"@),
        uuid_canonical(requested@) is Some && uuid_canonical(task.task_id@) is None ==> (r matches Err(
            e,
        ) && e == TaskError::Invalid(e->Invalid_0) && e->Invalid_0@
            == "task file task_id is not a UUID"@),
        uuid_canonical(requested@) is Some && uuid_canonical(task.task_id@) is Some && uuid_canonical(
            requested@,
        ) != uuid_canonical(task.task_id@) ==> (r matches Err(e) && e == TaskError::Invalid(
            e->Invalid_0,
        ) && e->Invalid_0@ == "task file id does not match requested task id"@),
{
    let wanted = canonical_task_id(requested)?;
    let actual = match crate::outside::parse_uuid(task.task_id.as_str()) {
        Some(c) => c,
        None => return Err(invalid("task file task_id is not a UUID")),
    };
    if !seq_eq(chars_of(wanted.as_str()).as_slice(), chars_of(actual.as_str()).as_slice()) {
        return Err(invalid("task file id does not match requested task id"));
    }
    match task.validate() {
        Ok(()) => Ok(()),
        Err(e) => Err(e),
    }
}

/// What cleanup makes of one task directory.
#[derive(Debug, Clone, Copy, PartialEq, Eq, Structural)]
pub enum TaskDirKind {
    /// The name is not text, a record is unreadable or invalid, or the two
    /// records disagree on the operation.
    Malformed,
    /// Not a finished task whose records agree: left for recovery.
    Unfinished,
    /// A finished task, with the time its status was last written.
    Finished(Timestamp),
}

pub open spec fn dir_kind(name: Option<Seq<char>>, task: Option<Task>, status: Option<StatusRecord>) -> TaskDirKind {
    match (name, task, status) {
        (Some(n), Some(t), Some(s)) => if !task_valid(t) || s.operation != t.operation {
            TaskDirKind::Malformed
        } else if t.task_id@ != n || s.task_id@ != t.task_id@ || t.status != s.stage || !terminal(
            t.status,
        ) || !terminal(s.stage) {
            TaskDirKind::Unfinished
        } else {
            TaskDirKind::Finished(s.updated)
        },
        _ => TaskDirKind::Malformed,
    }
}

pub fn classify_task_dir(name: Option<&str>, task: Option<&Task>, status: Option<&StatusRecord>) -> (r: TaskDirKind)
    ensures
        r == dir_kind(
            match name {
                Some(n) => Some(n@),
                None => None,
            },
            match task {
                Some(t) => Some(*t),
                None => None,
            },
            match status {
                Some(s) => Some(*s),
                None => None,
            },
        ),
{
    let n = match name {
        Some(n) => n,
        None => return TaskDirKind::Malformed,
    };
    let t = match task {
        Some(t) => t,
        None => return TaskDirKind::Malformed,
    };
    let s = match status {
        Some(s) => s,
        None => return TaskDirKind::Malformed,
    };
    if t.validate().is_err() || s.operation != t.operation {
        return TaskDirKind::Malformed;
    }
    let same_name = seq_eq(chars_of(t.task_id.as_str()).as_slice(), chars_of(n).as_slice());
    let same_id = seq_eq(chars_of(s.task_id.as_str()).as_slice(), chars_of(t.task_id.as_str()).as_slice());
    if !same_name || !same_id || t.status != s.stage || t.status.is_incomplete() || s.stage.is_incomplete() {
        return TaskDirKind::Unfinished;
    }
    TaskDirKind::Finished(s.updated)
}

/// In newest-first order entry `a` comes before entry `b`: its status was
/// written later, or at the same time and it was found first.
pub open spec fn newer(ts: Seq<Timestamp>, a: int, b: int) -> bool {
    earlier(ts[b], ts[a]) || (ts[a] == ts[b] && a < b)
}

/// `p` lists every entry of `ts` once, newest first.
pub open spec fn newest_first(ts: Seq<Timestamp>, p: Seq<usize>) -> bool {
    &&& p.len() == ts.len()
    &&& forall|k: int| 0 <= k < p.len() ==> p[k] < ts.len()
    &&& forall|i: usize| i < ts.len() ==> #[trigger] p.contains(i)
    &&& forall|a: int, b: int| 0 <= a < b < p.len() ==> newer(ts, p[a] as int, p[b] as int)
}

fn is_earlier(a: Timestamp, b: Timestamp) -> (r: bool)
    ensures
        r == earlier(a, b),
{
    a.unix_seconds < b.unix_seconds || (a.unix_seconds == b.unix_seconds && a.nanos < b.nanos)
}

/// The entries of `updated` newest first (a stable sort on the update
/// time, latest first).
pub fn newest_first_order(updated: &[Timestamp]) -> (p: Vec<usize>)
    ensures
        newest_first(updated@, p@),
{
    let ghost ts = updated@;
    let mut p: Vec<usize> = Vec::new();
    for i in 0..updated.len()
        invariant
            ts == updated@,
            p@.len() == i,
            forall|k: int| 0 <= k < p@.len() ==> p@[k] < i,
            forall|j: usize| j < i ==> #[trigger] p@.contains(j),
            forall|a: int, b: int| 0 <= a < b < p@.len() ==> newer(ts, p@[a] as int, p@[b] as int),
    {
        let mut k: usize = 0;
        while k < p.len() && !is_earlier(updated[p[k]], updated[i])
            invariant
                ts == updated@,
                p@.len() == i,
                i < ts.len(),
                k <= p@.len(),
                forall|q: int| 0 <= q < p@.len() ==> p@[q] < i,
                forall|a: int| 0 <= a < k ==> !earlier(ts[p@[a] as int], ts[i as int]),
            decreases p.len() - k,
        {
            k = k + 1;
        }
        let ghost before = p@;
        p.insert(k, i);
        proof {
            assert(p@ =~= before.take(k as int).push(i) + before.skip(k as int));
            assert forall|a: int, b: int| 0 <= a < b < p@.len() implies newer(ts, p@[a] as int, p@[b] as int) by {
                if b < k {
                } else if b == k {
                    assert(!earlier(ts[before[a] as int], ts[i as int]));
                    assert(before[a] < i);
                } else if a < k {
                    assert(newer(ts, before[a] as int, before[b - 1] as int));
                } else if a == k {
                    let c = before[b - 1] as int;
                    assert(earlier(ts[before[k as int] as int], ts[i as int]));
                    if b - 1 > k {
                        assert(newer(ts, before[k as int] as int, c));
                    }
                } else {
                    assert(newer(ts, before[a - 1] as int, before[b - 1] as int));
                }
            }
            assert forall|j: usize| j < i + 1 implies #[trigger] p@.contains(j) by {
                if j == i {
                    assert(p@[k as int] == i);
                } else {
                    assert(before.contains(j));
                    let q = choose|q: int| 0 <= q < before.len() && before[q] == j;
                    if q < k {
                        assert(p@[q] == j);
                    } else {
                        assert(p@[q + 1] == j);
                    }
                }
            }
            assert forall|q: int| 0 <= q < p@.len() implies p@[q] < i + 1 by {
                if q < k {
                } else if q > k {
                    assert(before[q - 1] < i);
                }
            }
        }
    }
    p
}

proof fn lemma_newer_asymmetric(ts: Seq<Timestamp>, a: int, b: int)
    ensures
        !(newer(ts, a, b) && newer(ts, b, a)),
        !newer(ts, a, a),
{
}

proof fn lemma_prefix_equal(ts: Seq<Timestamp>, p: Seq<usize>, q: Seq<usize>, k: int)
    requires
        newest_first(ts, p),
        newest_first(ts, q),
        0 <= k <= p.len(),
    ensures
        forall|j: int| 0 <= j < k ==> p[j] == q[j],
    decreases k,
{
    if k > 0 {
        let m = k - 1;
        lemma_prefix_equal(ts, p, q, m);
        let x = p[m];
        let y = q[m];
        if x != y {
            assert(p.contains(y));
            let k1 = choose|i: int| 0 <= i < p.len() && p[i] == y;
            assert(q.contains(x));
            let k2 = choose|i: int| 0 <= i < q.len() && q[i] == x;
            if k1 < m {
                assert(q[k1] == y);
                lemma_newer_asymmetric(ts, y as int, y as int);
                assert(newer(ts, q[k1] as int, q[m] as int));
            }
            if k2 < m {
                assert(p[k2] == x);
                lemma_newer_asymmetric(ts, x as int, x as int);
                assert(newer(ts, p[k2] as int, p[m] as int));
            }
            assert(k1 > m && k2 > m);
            assert(newer(ts, x as int, y as int));
            assert(newer(ts, y as int, x as int));
            lemma_newer_asymmetric(ts, x as int, y as int);
        }
    }
}

/// There is only one newest-first order of a list of update times.
pub proof fn lemma_newest_first_unique(ts: Seq<Timestamp>, p: Seq<usize>, q: Seq<usize>)
    requires
        newest_first(ts, p),
        newest_first(ts, q),
    ensures
        p == q,
{
    lemma_prefix_equal(ts, p, q, p.len() as int);
    assert(p =~= q);
}

/// The finished tasks whose working files cleanup removes: all but the
/// `keep_latest` newest, in newest-first order.
pub fn cleanup_candidates(updated: &[Timestamp], keep_latest: usize) -> (r: Vec<usize>)
    ensures
        exists|p: Seq<usize>| newest_first(updated@, p) && r@ == p.skip(
            if keep_latest <= p.len() { keep_latest as int } else { p.len() as int },
        ),
{
    let order = newest_first_order(updated);
    let mut r: Vec<usize> = Vec::new();
    let start = if keep_latest <= order.len() { keep_latest } else { order.len() };
    let mut k = start;
    while k < order.len()
        invariant
            start <= k <= order@.len(),
            r@ == order@.subrange(start as int, k as int),
        decreases order.len() - k,
    {
        r.push(order[k]);
        proof {
            assert(order@.subrange(start as int, k + 1) =~= order@.subrange(start as int, k as int).push(order@[k as int]));
        }
        k = k + 1;
    }
    proof {
        assert(r@ =~= order@.skip(start as int));
    }
    r
}

/// Cleanup keeps the newest: every finished task it removes is older (or,
/// written at the same time, found later) than each of the `keep_latest`
/// it keeps, and it keeps no more than that many.
pub proof fn lemma_cleanup_keeps_the_newest(ts: Seq<Timestamp>, p: Seq<usize>, keep: int, kept: int, removed: int)
    requires
        newest_first(ts, p),
        0 <= keep,
        0 <= kept < keep,
        kept < p.len(),
        0 <= removed < p.skip(if keep <= p.len() { keep } else { p.len() as int }).len(),
    ensures
        newer(ts, p[kept] as int, p.skip(if keep <= p.len() { keep } else { p.len() as int })[removed] as int),
{
}

/// The records found in one task directory: its name where it is text,
/// and the task and status records where they could be read.
pub struct TaskDirRecords {
    pub name: Option<String>,
    pub task: Option<Task>,
    pub status: Option<StatusRecord>,
}

pub open spec fn records_kind(d: TaskDirRecords) -> TaskDirKind {
    dir_kind(
        match d.name {
            Some(n) => Some(n@),
            None => None,
        },
        d.task,
        d.status,
    )
}

/// How many of the directories are of kind `kind` (`Malformed` or
/// `Unfinished`).
pub open spec fn kind_count(ds: Seq<TaskDirRecords>, kind: TaskDirKind) -> nat
    decreases ds.len(),
{
    if ds.len() == 0 {
        0
    } else {
        kind_count(ds.drop_last(), kind) + (if records_kind(ds.last()) == kind { 1nat } else { 0nat })
    }
}

/// The positions of the finished directories, in listing order.
pub open spec fn finished_dirs(ds: Seq<TaskDirRecords>) -> Seq<usize>
    decreases ds.len(),
{
    if ds.len() == 0 {
        Seq::empty()
    } else if records_kind(ds.last()) is Finished {
        finished_dirs(ds.drop_last()).push((ds.len() - 1) as usize)
    } else {
        finished_dirs(ds.drop_last())
    }
}

/// The status times of the finished directories, in listing order.
pub open spec fn finished_times(ds: Seq<TaskDirRecords>) -> Seq<Timestamp>
    decreases ds.len(),
{
    if ds.len() == 0 {
        Seq::empty()
    } else {
        match records_kind(ds.last()) {
            TaskDirKind::Finished(t) => finished_times(ds.drop_last()).push(t),
            _ => finished_times(ds.drop_last()),
        }
    }
}

/// What a cleanup run decides before it touches a directory.
pub struct CleanupSelection {
    /// Directories left alone because a name or record is unusable.
    pub skipped_malformed: usize,
    /// Directories left alone because their task is not finished.
    pub skipped_nonterminal: usize,
    /// Positions of the finished directories whose working files go, newest
    /// first.
    pub candidates: Vec<usize>,
}

proof fn lemma_finished_lengths(ds: Seq<TaskDirRecords>)
    requires
        ds.len() <= usize::MAX,
    ensures
        finished_dirs(ds).len() == finished_times(ds).len(),
        forall|k: int| 0 <= k < finished_dirs(ds).len() ==> (#[trigger] finished_dirs(ds)[k]) < ds.len()
            && records_kind(ds[finished_dirs(ds)[k] as int]) == TaskDirKind::Finished(finished_times(ds)[k]),
        kind_count(ds, TaskDirKind::Malformed) + kind_count(ds, TaskDirKind::Unfinished) + finished_dirs(ds).len() == ds.len(),
    decreases ds.len(),
{
    if ds.len() > 0 {
        let t = ds.drop_last();
        lemma_finished_lengths(t);
        assert forall|k: int| 0 <= k < finished_dirs(ds).len() implies (#[trigger] finished_dirs(ds)[k]) < ds.len()
            && records_kind(ds[finished_dirs(ds)[k] as int]) == TaskDirKind::Finished(finished_times(ds)[k]) by {
            if k < finished_dirs(t).len() {
                assert(finished_dirs(ds)[k] == finished_dirs(t)[k]);
                assert(finished_times(ds)[k] == finished_times(t)[k]);
                assert(ds[finished_dirs(t)[k] as int] == t[finished_dirs(t)[k] as int]);
            } else {
                match records_kind(ds.last()) {
                    TaskDirKind::Finished(x) => {
                        assert(finished_dirs(ds) == finished_dirs(t).push((ds.len() - 1) as usize));
                        assert(k == finished_dirs(t).len());
                        assert(finished_dirs(ds)[k] == ds.len() - 1);
                        assert(finished_times(ds)[k] == x);
                        assert(ds[ds.len() - 1] == ds.last());
                    },
                    _ => {},
                }
            }
        }
    }
}

/// Which task directories a cleanup run counts as skipped, and which
/// finished ones give up their working files: every directory whose name
/// and both records are usable, whose task validates and agrees with its
/// status on id (the directory's name), operation and a finished stage,
/// except the `keep_latest` whose status was written last.
pub fn cleanup_selection(dirs: &[TaskDirRecords], keep_latest: usize) -> (r: CleanupSelection)
    ensures
        r.skipped_malformed == kind_count(dirs@, TaskDirKind::Malformed),
        r.skipped_nonterminal == kind_count(dirs@, TaskDirKind::Unfinished),
        exists|p: Seq<usize>| newest_first(finished_times(dirs@), p) && r.candidates@ == p.skip(
            if keep_latest <= p.len() { keep_latest as int } else { p.len() as int },
        ).map_values(|k: usize| finished_dirs(dirs@)[k as int]),
        r.skipped_malformed + r.skipped_nonterminal + finished_dirs(dirs@).len() == dirs@.len(),
        forall|k: int| 0 <= k < r.candidates@.len() ==> (#[trigger] r.candidates@[k]) < dirs@.len()
            && records_kind(dirs@[r.candidates@[k] as int]) is Finished,
{
    let mut malformed: usize = 0;
    let mut unfinished: usize = 0;
    let mut positions: Vec<usize> = Vec::new();
    let mut times: Vec<Timestamp> = Vec::new();
    for i in 0..dirs.len()
        invariant
            malformed == kind_count(dirs@.take(i as int), TaskDirKind::Malformed),
            unfinished == kind_count(dirs@.take(i as int), TaskDirKind::Unfinished),
            positions@ == finished_dirs(dirs@.take(i as int)),
            times@ == finished_times(dirs@.take(i as int)),
    {
        let d = &dirs[i];
        let name = match &d.name {
            Some(n) => Some(n.as_str()),
            None => None,
        };
        let task = match &d.task {
            Some(t) => Some(t),
            None => None,
        };
        let status = match &d.status {
            Some(s) => Some(s),
            None => None,
        };
        let kind = classify_task_dir(name, task, status);
        proof {
            let pre = dirs@.take(i as int);
            let cur = dirs@.take(i + 1);
            assert(cur.drop_last() =~= pre);
            assert(cur.last() == dirs@[i as int]);
            assert(kind == records_kind(dirs@[i as int]));
            assert(dirs@.len() == dirs.len());
            lemma_finished_lengths(pre);
            assert(malformed + unfinished + positions@.len() == i);
        }
        match kind {
            TaskDirKind::Malformed => malformed = malformed + 1,
            TaskDirKind::Unfinished => unfinished = unfinished + 1,
            TaskDirKind::Finished(t) => {
                positions.push(i);
                times.push(t);
            },
        }
    }
    proof {
        assert(dirs@.take(dirs.len() as int) =~= dirs@);
        assert(dirs@.len() == dirs.len());
        lemma_finished_lengths(dirs@);
    }
    let picked = cleanup_candidates(times.as_slice(), keep_latest);
    let ghost p = choose|p: Seq<usize>| newest_first(times@, p) && picked@ == p.skip(
        if keep_latest <= p.len() { keep_latest as int } else { p.len() as int },
    );
    let mut candidates: Vec<usize> = Vec::new();
    for k in 0..picked.len()
        invariant
            newest_first(times@, p),
            picked@ == p.skip(if keep_latest <= p.len() { keep_latest as int } else { p.len() as int }),
            positions@.len() == times@.len(),
            candidates@ == picked@.take(k as int).map_values(|x: usize| positions@[x as int]),
    {
        let x = picked[k];
        proof {
            let start = if keep_latest <= p.len() { keep_latest as int } else { p.len() as int };
            assert(picked@[k as int] == p[start + k]);
        }
        candidates.push(positions[x]);
        proof {
            assert(picked@.take(k + 1).map_values(|x: usize| positions@[x as int])
                =~= picked@.take(k as int).map_values(|x: usize| positions@[x as int]).push(positions@[x as int]));
        }
    }
    proof {
        assert(picked@.take(picked@.len() as int) =~= picked@);
        assert forall|k: int| 0 <= k < candidates@.len() implies (#[trigger] candidates@[k]) < dirs@.len()
            && records_kind(dirs@[candidates@[k] as int]) is Finished by {
            let start = if keep_latest <= p.len() { keep_latest as int } else { p.len() as int };
            assert(picked@[k] == p[start + k]);
            assert(p[start + k] < times@.len());
            assert(candidates@[k] == positions@[picked@[k] as int]);
        }
    }
    CleanupSelection { skipped_malformed: malformed, skipped_nonterminal: unfinished, candidates }
}

/// A transition's records are read back as the store wrote them: the task
/// and the status record `Task::transition` gives agree on id, operation and
/// stage, so the directory named by the task id classifies as finished at
/// the status time exactly when the new stage is `success` or `failed`, and
/// as unfinished otherwise (for a task that validates).
pub proof fn lemma_transition_records_read_back(before: Task, after: Task, rec: StatusRecord, next: Stage)
    requires
        after == (Task { status: next, ..before }),
        rec.task_id@ == before.task_id@,
        rec.operation == before.operation,
        rec.stage == next,
        task_valid(after),
    ensures
        dir_kind(Some(after.task_id@), Some(after), Some(rec)) == if terminal(next) {
            TaskDirKind::Finished(rec.updated)
        } else {
            TaskDirKind::Unfinished
        },
{
}

/// The working trees cleanup removes from a finished task's directory;
/// its records, manifest, logs and boot store snapshots stay.
pub open spec fn cleanup_artifact(name: Seq<char>) -> bool {
    name == "mount"@ || name == "stage"@ || name == "original"@ || name == "payload"@
}

/// The names of the working trees cleanup removes, in the order it removes
/// them.
pub fn cleanup_artifact_names() -> (r: Vec<&'static str>)
    ensures
        r@.len() == 4,
        r@[0]@ == "mount"@,
        r@[1]@ == "stage"@,
        r@[2]@ == "original"@,
        r@[3]@ == "payload"@,
        forall|i: int| 0 <= i < r@.len() ==> cleanup_artifact((#[trigger] r@[i])@),
{
    let mut r: Vec<&'static str> = Vec::new();
    r.push("mount");
    r.push("stage");
    r.push("original");
    r.push("payload");
    r
}

/// What a cleanup run did.
#[derive(Debug, Clone, PartialEq, Eq)]
pub struct CleanupReport {
    pub removed_task_ids: Vec<String>,
    pub skipped_nonterminal: usize,
    pub skipped_mounted: Vec<String>,
    pub skipped_malformed: usize,
}

impl CleanupReport {
    pub fn new() -> (r: Self)
        ensures
            r.removed_task_ids@.len() == 0,
            r.skipped_nonterminal == 0,
            r.skipped_mounted@.len() == 0,
            r.skipped_malformed == 0,
    {
        CleanupReport {
            removed_task_ids: Vec::new(),
            skipped_nonterminal: 0,
            skipped_mounted: Vec::new(),
            skipped_malformed: 0,
        }
    }

    /// Count a task directory that cleanup leaves alone.
    pub fn skip(&mut self, kind: TaskDirKind)
        requires
            old(self).skipped_nonterminal < usize::MAX,
            old(self).skipped_malformed < usize::MAX,
        ensures
            final(self).skipped_malformed == old(self).skipped_malformed + (if kind
                == TaskDirKind::Malformed { 1int } else { 0int }),
            final(self).skipped_nonterminal == old(self).skipped_nonterminal + (if kind
                == TaskDirKind::Unfinished { 1int } else { 0int }),
            final(self).removed_task_ids == old(self).removed_task_ids,
            final(self).skipped_mounted == old(self).skipped_mounted,
    {
        match kind {
            TaskDirKind::Malformed => self.skipped_malformed = self.skipped_malformed + 1,
            TaskDirKind::Unfinished => self.skipped_nonterminal = self.skipped_nonterminal + 1,
            TaskDirKind::Finished(_) => {},
        }
    }
}

} // verus!
