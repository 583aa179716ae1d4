//! Guards for the image paths a task records.
use vstd::prelude::*;
use crate::model::TaskError;
use crate::text::{all_ws, any_control, chars_of, has_ctrl, is_alpha, is_ascii_alphabetic, is_blank, matches_at, occurs_at, replace_char, replace_chars, split_chars, split_on};

verus! {

/// `seg` is a whole `/`-separated component of `n` starting at `i`.
pub open spec fn segment_at(n: Seq<char>, i: int, seg: Seq<char>) -> bool {
    &&& occurs_at(n, seg, i)
    &&& (i == 0 || n[i - 1] == '/')
    &&& (i + seg.len() == n.len() || n[i + seg.len()] == '/')
}

/// A path a task may store relative to the root of a verified volume.
///
/// Separators are normalized to `/` first, so `\` cannot bypass the rules.
/// Refused: blank text and control characters; a leading separator (an
/// absolute path or a root); a drive prefix such as `C:`; a leading `.`
/// component; any `..` component. These are exactly the paths whose
/// `std::path` components include a root, prefix, current or parent
/// directory, on Windows and on Unix alike.
pub open spec fn relative_path_ok(v: Seq<char>) -> bool {
    let n = replace_char(v, '\\', '/');
    &&& !all_ws(v)
    &&& !has_ctrl(v)
    &&& !(n.len() > 0 && n[0] == '/')
    &&& !(n.len() >= 2 && (n[0] as u32) < 128 && n[1] == ':')
    &&& !segment_at(n, 0, "."@)
    &&& !(exists|i: int| segment_at(n, i, ".."@))
}

/// A Windows drive-root file path such as `B:\Backups\Windows.wim` (`/` is
/// accepted as a separator): a drive letter, `:`, a separator, then one or
/// more components, none of them empty, `.` or `..`.
pub open spec fn absolute_path_ok(v: Seq<char>) -> bool {
    let n = replace_char(v, '/', '\\');
    &&& !all_ws(v)
    &&& !has_ctrl(v)
    &&& n.len() >= 4
    &&& is_alpha(n[0])
    &&& n[1] == ':'
    &&& n[2] == '\\'
    &&& forall|k: int| 0 <= k < split_on(n.skip(3), '\\').len() ==> {
            let part = #[trigger] split_on(n.skip(3), '\\')[k];
            part.len() > 0 && part != "."@ && part != ".."@
        }
}

pub fn invalid(message: &str) -> (e: TaskError)
    ensures
        e == TaskError::Invalid(e->Invalid_0),
        e->Invalid_0@ == message@,
{
    TaskError::Invalid(crate::text::owned(message))
}

fn is_segment_at(n: &[char], i: usize, seg: &[char]) -> (r: bool)
    ensures
        r == segment_at(n@, i as int, seg@),
{
    if !matches_at(n, seg, i) {
        return false;
    }
    let before = i == 0 || n[i - 1] == '/';
    let end = i + seg.len();
    let after = end == n.len() || n[end] == '/';
    before && after
}

#[verifier::loop_isolation(false)]
pub fn validate_relative_path(value: &str) -> (r: Result<(), TaskError>)
    ensures
        r is Ok <==> relative_path_ok(value@),
        r matches Err(e) ==> e is Invalid,
{
    let v = chars_of(value);
    if is_blank(v.as_slice()) || any_control(v.as_slice()) {
        return Err(invalid("path must be a non-empty relative path"));
    }
    let n = replace_chars(v.as_slice(), '\\', '/');
    if (n.len() > 0 && n[0] == '/') || (n.len() >= 2 && (n[0] as u32) < 128 && n[1] == ':') {
        return Err(invalid("path must be a non-empty relative path"));
    }
    let dot: Vec<char> = chars_of(".");
    let dotdot: Vec<char> = chars_of("..");
    if is_segment_at(n.as_slice(), 0, dot.as_slice()) {
        return Err(invalid("path may not escape the volume root"));
    }
    for i in 0..n.len()
        invariant
            dotdot@ == ".."@,
            forall|j: int| 0 <= j < i ==> !segment_at(n@, j, ".."@),
    {
        if is_segment_at(n.as_slice(), i, dotdot.as_slice()) {
            return Err(invalid("path may not escape the volume root"));
        }
    }
    proof {
        reveal_strlit("..");
        assert forall|j: int| !segment_at(n@, j, ".."@) by {
            if segment_at(n@, j, ".."@) {
                assert(0 <= j < n@.len());
            }
        }
    }
    Ok(())
}

#[verifier::loop_isolation(false)]
pub fn validate_absolute_path(value: &str) -> (r: Result<(), TaskError>)
    ensures
        r is Ok <==> absolute_path_ok(value@),
        r matches Err(e) ==> e is Invalid,
{
    let v = chars_of(value);
    if is_blank(v.as_slice()) || any_control(v.as_slice()) {
        return Err(invalid("path must be a non-empty Windows absolute path"));
    }
    let n = replace_chars(v.as_slice(), '/', '\\');
    if n.len() < 4 || !is_ascii_alphabetic(n[0]) || n[1] != ':' || n[2] != '\\' {
        return Err(invalid("path must use a drive-root form such as B:\\Backups\\Windows.wim"));
    }
    let mut rest: Vec<char> = Vec::new();
    let mut i: usize = 3;
    while i < n.len()
        invariant
            3 <= i <= n.len(),
            rest@ == n@.subrange(3, i as int),
        decreases n.len() - i,
    {
        rest.push(n[i]);
        proof {
            assert(n@.subrange(3, i + 1) =~= n@.subrange(3, i as int).push(n@[i as int]));
        }
        i = i + 1;
    }
    proof {
        assert(rest@ =~= n@.skip(3));
    }
    if rest.len() > 0 && rest[rest.len() - 1] == '\\' {
        proof {
            crate::text::lemma_split_on_nonempty(rest@.drop_last(), '\\');
            let p = split_on(rest@.drop_last(), '\\');
            assert(rest@.drop_last().push('\\') =~= rest@);
            assert(split_on(rest@, '\\')[p.len() as int].len() == 0);
        }
        return Err(invalid("absolute image path must identify a file, not a volume root"));
    }
    let parts = split_chars(rest.as_slice(), '\\');
    let dot: Vec<char> = chars_of(".");
    let dotdot: Vec<char> = chars_of("..");
    for k in 0..parts.len()
        invariant
            dot@ == "."@,
            dotdot@ == ".."@,
            parts@.len() == split_on(rest@, '\\').len(),
            forall|j: int| 0 <= j < parts@.len() ==> #[trigger] parts@[j]@ == split_on(rest@, '\\')[j],
            forall|j: int| 0 <= j < k ==> {
                let part = #[trigger] split_on(rest@, '\\')[j];
                part.len() > 0 && part != "."@ && part != ".."@
            },
    {
        let part = &parts[k];
        if part.len() == 0 || crate::text::seq_eq(part.as_slice(), dot.as_slice())
            || crate::text::seq_eq(part.as_slice(), dotdot.as_slice()) {
            proof {
                assert(parts@[k as int]@ == split_on(rest@, '\\')[k as int]);
            }
            return Err(invalid("absolute image path contains an invalid component"));
        }
    }
    Ok(())
}

} // verus!
