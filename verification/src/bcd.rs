//! Reading `bcdedit /enum all /v` output: BCD object identifiers and
//! values, the Windows Boot Manager's default and display order, and the
//! loader that boots a given partition.
//!
//! Field labels may be localized; identifiers and values are read only as
//! braced tokens, so captured text can never become an injected argument.
use vstd::prelude::*;
use crate::model::TaskError;
use crate::parsing::{first_braced, first_braced_guid};
use crate::paths::invalid;
use crate::text::{
    chars_of, contains, contains_seq, crlf_to_lf, crlf_to_lf_chars, eq_ic, is_alnum, is_hex,
    is_prefix, lines, lines_of, lower_seq, split_pattern, split_pattern_chars, starts_with,
    str_eq_ignore_ascii_case, string_from, to_ascii_lowercase, trim, trim_chars, trim_start,
    trim_start_chars, is_ascii_alphanumeric, is_ascii_hexdigit,
};

verus! {

/// The identifier of the Windows Boot Manager object.
pub const BOOTMGR_IDENTIFIER: &'static str = "{9dea862c-5cdd-4e70-acc1-f32b344d4795}";

/// 36 characters shaped like a GUID: hex digits with dashes at positions
/// 8, 13, 18 and 23.
pub open spec fn guid_shaped(inner: Seq<char>) -> bool {
    &&& inner.len() == 36
    &&& forall|i: int|
        #![trigger inner[i]]
        0 <= i < 36 ==> if i == 8 || i == 13 || i == 18 || i == 23 {
            inner[i] == '-'
        } else {
            is_hex(inner[i])
        }
}

/// The braced GUID a line names, if its first `{...}` is one.
pub open spec fn bcd_identifier(line: Seq<char>) -> Option<Seq<char>> {
    match first_braced(line) {
        Some(inner) => if guid_shaped(inner) {
            Some(seq!['{'] + inner + seq!['}'])
        } else {
            None
        },
        None => None,
    }
}

fn braced(inner: &str) -> (r: String)
    ensures
        r@ == seq!['{'] + inner@ + seq!['}'],
{
    let mut v: Vec<char> = Vec::new();
    v.push('{');
    let c = chars_of(inner);
    for i in 0..c.len()
        invariant
            v@ == seq!['{'] + c@.take(i as int),
    {
        v.push(c[i]);
        proof {
            assert(c@.take(i + 1) =~= c@.take(i as int).push(c@[i as int]));
            assert(v@ =~= seq!['{'] + c@.take(i + 1));
        }
    }
    v.push('}');
    proof {
        assert(c@.take(c@.len() as int) =~= c@);
        assert(v@ =~= seq!['{'] + inner@ + seq!['}']);
    }
    string_from(v.as_slice())
}

pub fn bcd_identifier_from_line(line: &str) -> (r: Option<String>)
    ensures
        r matches Some(s) ==> bcd_identifier(line@) == Some(s@),
        r is None ==> bcd_identifier(line@) is None,
{
    let inner = match first_braced_guid(line) {
        Some(g) => g,
        None => return None,
    };
    let c = chars_of(inner.as_str());
    if c.len() != 36 {
        return None;
    }
    for i in 0..36usize
        invariant
            c@.len() == 36,
            c@ == inner@,
            first_braced(line@) == Some(inner@),
            forall|j: int|
                #![trigger c@[j]]
                0 <= j < i ==> if j == 8 || j == 13 || j == 18 || j == 23 {
                    c@[j] == '-'
                } else {
                    is_hex(c@[j])
                },
    {
        let ok = if i == 8 || i == 13 || i == 18 || i == 23 {
            c[i] == '-'
        } else {
            is_ascii_hexdigit(c[i])
        };
        if !ok {
            proof {
                let k = i as int;
                assert(c@[k] == c@[k]);
                assert(!guid_shaped(c@));
            }
            return None;
        }
    }
    Some(braced(inner.as_str()))
}

/// A value token: one or more ASCII letters, digits and dashes.
pub open spec fn value_token(inner: Seq<char>) -> bool {
    inner.len() >= 1 && forall|i: int| 0 <= i < inner.len() ==> is_alnum(#[trigger] inner[i]) || inner[i] == '-'
}

/// The braced value a line holds: a GUID or an alias such as `{default}`.
pub open spec fn bcd_value(line: Seq<char>) -> Option<Seq<char>> {
    match first_braced(line) {
        Some(inner) => if value_token(inner) {
            Some(seq!['{'] + inner + seq!['}'])
        } else {
            None
        },
        None => None,
    }
}

pub fn bcd_value_from_line(line: &str) -> (r: Option<String>)
    ensures
        r matches Some(s) ==> bcd_value(line@) == Some(s@),
        r is None ==> bcd_value(line@) is None,
{
    let inner = match first_braced_guid(line) {
        Some(g) => g,
        None => return None,
    };
    let c = chars_of(inner.as_str());
    if c.len() == 0 {
        return None;
    }
    for i in 0..c.len()
        invariant
            c@ == inner@,
            first_braced(line@) == Some(inner@),
            forall|j: int| 0 <= j < i ==> is_alnum(#[trigger] c@[j]) || c@[j] == '-',
    {
        if !(is_ascii_alphanumeric(c[i]) || c[i] == '-') {
            proof {
                assert(!value_token(c@));
            }
            return None;
        }
    }
    Some(braced(inner.as_str()))
}

/// The blank-line separated objects of `bcdedit` output.
pub open spec fn bcd_blocks(output: Seq<char>) -> Seq<Seq<char>> {
    split_pattern(crlf_to_lf(output), "\n\n"@)
}

/// The identifier of an object: the first line naming a GUID.
pub open spec fn first_identifier(ls: Seq<Seq<char>>) -> Option<Seq<char>>
    decreases ls.len(),
{
    if ls.len() == 0 {
        None
    } else {
        match bcd_identifier(ls[0]) {
            Some(x) => Some(x),
            None => first_identifier(ls.drop_first()),
        }
    }
}

pub open spec fn block_identifier(block: Seq<char>) -> Option<Seq<char>> {
    first_identifier(lines(block))
}

fn block_identifier_of(block: &[char]) -> (r: Option<String>)
    ensures
        r matches Some(s) ==> block_identifier(block@) == Some(s@),
        r is None ==> block_identifier(block@) is None,
{
    let ls = lines_of(block);
    let ghost all = lines(block@);
    let mut i: usize = 0;
    proof {
        assert(all.skip(0) =~= all);
    }
    while i < ls.len()
        invariant
            all == lines(block@),
            ls@.len() == all.len(),
            forall|j: int| 0 <= j < ls@.len() ==> #[trigger] ls@[j]@ == all[j],
            i <= ls@.len(),
            first_identifier(all.skip(i as int)) == first_identifier(all),
        decreases ls.len() - i,
    {
        let line = string_from(ls[i].as_slice());
        proof {
            assert(all.skip(i as int)[0] == all[i as int]);
            assert(all.skip(i as int).drop_first() =~= all.skip(i + 1));
        }
        match bcd_identifier_from_line(line.as_str()) {
            Some(x) => return Some(x),
            None => {},
        }
        i = i + 1;
    }
    None
}

/// A line naming a loader's device: `device`, `osdevice`, or their
/// Chinese labels.
pub open spec fn device_label(l: Seq<char>) -> bool {
    is_prefix("device"@, l) || is_prefix("osdevice"@, l) || is_prefix("设备"@, l) || is_prefix("os 设备"@, l)
}

fn has_device_label(l: &[char]) -> (b: bool)
    ensures
        b == device_label(l@),
{
    starts_with(l, chars_of("device").as_slice()) || starts_with(l, chars_of("osdevice").as_slice())
        || starts_with(l, chars_of("设备").as_slice()) || starts_with(l, chars_of("os 设备").as_slice())
}

/// `partition=<letter>:` for a lower-case drive letter.
pub open spec fn partition_needle(letter: char) -> Seq<char> {
    "partition="@ + seq![letter] + ":"@
}

fn needle_for(letter: char) -> (r: Vec<char>)
    ensures
        r@ == partition_needle(letter),
{
    let mut r = chars_of("partition=");
    r.push(letter);
    r.push(':');
    proof {
        reveal_strlit(":");
        assert(r@ =~= partition_needle(letter));
    }
    r
}

/// Some line of `ls` names a device on the partition at `letter`; each line
/// is first brought to the form `prepare` gives it.
pub open spec fn names_partition(ls: Seq<Seq<char>>, letter: char) -> bool {
    exists|i: int| 0 <= i < ls.len() && #[trigger] device_line_for(ls[i], letter)
}

pub open spec fn device_line_for(l: Seq<char>, letter: char) -> bool {
    device_label(trim_start(l)) && contains(trim_start(l), partition_needle(letter))
}

fn any_device_line(ls: &Vec<Vec<char>>, needle: &[char], letter: Ghost<char>) -> (b: bool)
    requires
        needle@ == partition_needle(letter@),
    ensures
        b == exists|i: int| 0 <= i < ls@.len() && #[trigger] device_line_for(ls@[i]@, letter@),
{
    for i in 0..ls.len()
        invariant
            needle@ == partition_needle(letter@),
            forall|j: int| 0 <= j < i ==> !device_line_for(#[trigger] ls@[j]@, letter@),
    {
        let t = trim_start_chars(ls[i].as_slice());
        if has_device_label(t.as_slice()) && contains_seq(t.as_slice(), needle) {
            proof {
                assert(device_line_for(ls@[i as int]@, letter@));
            }
            return true;
        }
    }
    false
}

/// The Windows loader (`winload.efi`) object whose device is the partition
/// at `letter`; a resume object for the same partition does not count.
pub open spec fn is_loader_for(block: Seq<char>, letter: char) -> bool {
    let lower = lower_seq(block);
    contains(lower, "winload.efi"@) && names_partition(lines(lower), letter)
}

pub open spec fn first_loader(bs: Seq<Seq<char>>, letter: char) -> Option<Seq<char>>
    decreases bs.len(),
{
    if bs.len() == 0 {
        None
    } else {
        match block_identifier(bs[0]) {
            Some(x) => if is_loader_for(bs[0], letter) {
                Some(x)
            } else {
                first_loader(bs.drop_first(), letter)
            },
            None => first_loader(bs.drop_first(), letter),
        }
    }
}

/// The identifier of the first Windows loader in `output` that boots the
/// partition at the (lower-case) drive letter `letter`.
pub fn secondary_loader_identifier(output: &str, letter: char) -> (r: Option<String>)
    ensures
        r matches Some(s) ==> first_loader(bcd_blocks(output@), letter) == Some(s@),
        r is None ==> first_loader(bcd_blocks(output@), letter) is None,
{
    let text = crlf_to_lf_chars(chars_of(output).as_slice());
    let sep = chars_of("\n\n");
    proof {
        reveal_strlit("\n\n");
    }
    let bs = split_pattern_chars(text.as_slice(), sep.as_slice());
    let ghost all = bcd_blocks(output@);
    let needle = needle_for(letter);
    let wanted = chars_of("winload.efi");
    let mut i: usize = 0;
    proof {
        assert(all.skip(0) =~= all);
    }
    while i < bs.len()
        invariant
            all == bcd_blocks(output@),
            bs@.len() == all.len(),
            forall|j: int| 0 <= j < bs@.len() ==> #[trigger] bs@[j]@ == all[j],
            i <= bs@.len(),
            needle@ == partition_needle(letter),
            wanted@ == "winload.efi"@,
            first_loader(all.skip(i as int), letter) == first_loader(all, letter),
        decreases bs.len() - i,
    {
        proof {
            assert(all.skip(i as int)[0] == all[i as int]);
            assert(all.skip(i as int).drop_first() =~= all.skip(i + 1));
        }
        match block_identifier_of(bs[i].as_slice()) {
            Some(x) => {
                let lower = to_ascii_lowercase(bs[i].as_slice());
                let ls = lines_of(lower.as_slice());
                let targets = any_device_line(&ls, needle.as_slice(), Ghost(letter));
                proof {
                    let lw = lines(lower@);
                    assert(targets == names_partition(lw, letter)) by {
                        if targets {
                            let k = choose|k: int| 0 <= k < ls@.len() && #[trigger] device_line_for(ls@[k]@, letter);
                            assert(device_line_for(lw[k], letter));
                        }
                        if names_partition(lw, letter) {
                            let k = choose|k: int| 0 <= k < lw.len() && #[trigger] device_line_for(lw[k], letter);
                            assert(device_line_for(ls@[k]@, letter));
                        }
                    }
                }
                if contains_seq(lower.as_slice(), wanted.as_slice()) && targets {
                    return Some(x);
                }
            },
            None => {},
        }
        i = i + 1;
    }
    None
}

/// The loader chosen for a partition is one that boots that partition: the
/// object it identifies is a `winload.efi` loader with a device or OS device
/// line (`device`, `osdevice` or their Chinese labels, compared in lower
/// case after leading white space) naming `partition=<letter>:`. A loader
/// of another partition is never chosen, wherever it stands in the output.
pub proof fn lemma_secondary_loader_boots_its_partition(output: Seq<char>, letter: char, id: Seq<char>)
    requires
        first_loader(bcd_blocks(output), letter) == Some(id),
    ensures
        exists|k: int| #![trigger bcd_blocks(output)[k]] 0 <= k < bcd_blocks(output).len() && {
            let b = bcd_blocks(output)[k];
            let ls = lines(lower_seq(b));
            &&& block_identifier(b) == Some(id)
            &&& contains(lower_seq(b), "winload.efi"@)
            &&& exists|j: int| 0 <= j < ls.len() && {
                let t = #[trigger] trim_start(ls[j]);
                &&& (is_prefix("device"@, t) || is_prefix("osdevice"@, t) || is_prefix("设备"@, t) || is_prefix("os 设备"@, t))
                &&& contains(t, "partition="@ + seq![letter] + ":"@)
            }
        },
{
    lemma_first_loader_found(bcd_blocks(output), letter, id);
}

proof fn lemma_first_loader_found(bs: Seq<Seq<char>>, letter: char, id: Seq<char>)
    requires
        first_loader(bs, letter) == Some(id),
    ensures
        exists|k: int| #![trigger bs[k]] 0 <= k < bs.len() && {
            let b = bs[k];
            let ls = lines(lower_seq(b));
            &&& block_identifier(b) == Some(id)
            &&& contains(lower_seq(b), "winload.efi"@)
            &&& exists|j: int| 0 <= j < ls.len() && {
                let t = #[trigger] trim_start(ls[j]);
                &&& (is_prefix("device"@, t) || is_prefix("osdevice"@, t) || is_prefix("设备"@, t) || is_prefix("os 设备"@, t))
                &&& contains(t, "partition="@ + seq![letter] + ":"@)
            }
        },
    decreases bs.len(),
{
    if bs.len() > 0 {
        let b = bs[0];
        if block_identifier(b) is Some && is_loader_for(b, letter) {
            let ls = lines(lower_seq(b));
            let j = choose|j: int| 0 <= j < ls.len() && #[trigger] device_line_for(ls[j], letter);
            assert(trim_start(ls[j]) == trim_start(ls[j]));
        } else {
            lemma_first_loader_found(bs.drop_first(), letter, id);
            let k = choose|k: int| #![trigger bs.drop_first()[k]] 0 <= k < bs.drop_first().len() && {
                let b = bs.drop_first()[k];
                let ls = lines(lower_seq(b));
                &&& block_identifier(b) == Some(id)
                &&& contains(lower_seq(b), "winload.efi"@)
                &&& exists|j: int| 0 <= j < ls.len() && {
                    let t = #[trigger] trim_start(ls[j]);
                    &&& (is_prefix("device"@, t) || is_prefix("osdevice"@, t) || is_prefix("设备"@, t) || is_prefix("os 设备"@, t))
                    &&& contains(t, "partition="@ + seq![letter] + ":"@)
                }
            };
            assert(bs[k + 1] == bs.drop_first()[k]);
        }
    }
}

/// `bcdedit` output shows a device or OS device on the partition at the
/// (lower-case) drive letter `letter`.
pub open spec fn boots_partition(output: Seq<char>, letter: char) -> bool {
    exists|i: int| 0 <= i < lines(output).len() && #[trigger] device_trimmed_for(lines(output)[i], letter)
}

pub open spec fn device_trimmed_for(l: Seq<char>, letter: char) -> bool {
    let lower = lower_seq(trim(l));
    device_label(lower) && contains(lower, partition_needle(letter))
}

/// BCDBoot's result is accepted exactly when one of its lines, trimmed and
/// in lower case, is a device or OS device line (or a Chinese label of one)
/// naming `partition=<letter>:`.
pub proof fn lemma_bcd_target_needs_a_device_line(output: Seq<char>, letter: char)
    ensures
        boots_partition(output, letter) <==> exists|i: int| 0 <= i < lines(output).len() && {
            let t = #[trigger] lower_seq(trim(lines(output)[i]));
            &&& (is_prefix("device"@, t) || is_prefix("osdevice"@, t) || is_prefix("设备"@, t) || is_prefix("os 设备"@, t))
            &&& contains(t, "partition="@ + seq![letter] + ":"@)
        },
{
    let ls = lines(output);
    if boots_partition(output, letter) {
        let i = choose|i: int| 0 <= i < ls.len() && #[trigger] device_trimmed_for(ls[i], letter);
        assert(device_trimmed_for(ls[i], letter));
        let t = lower_seq(trim(ls[i]));
        assert(contains(t, "partition="@ + seq![letter] + ":"@));
    }
    if exists|i: int| 0 <= i < ls.len() && {
        let t = #[trigger] lower_seq(trim(ls[i]));
        &&& (is_prefix("device"@, t) || is_prefix("osdevice"@, t) || is_prefix("设备"@, t) || is_prefix("os 设备"@, t))
        &&& contains(t, "partition="@ + seq![letter] + ":"@)
    } {
        let i = choose|i: int| 0 <= i < ls.len() && {
            let t = #[trigger] lower_seq(trim(ls[i]));
            &&& (is_prefix("device"@, t) || is_prefix("osdevice"@, t) || is_prefix("设备"@, t) || is_prefix("os 设备"@, t))
            &&& contains(t, "partition="@ + seq![letter] + ":"@)
        };
        assert(device_trimmed_for(ls[i], letter));
    }
}

/// BCDBoot's result names the restored partition: some loader's device or
/// OS device line points at the target's drive letter.
pub fn verify_bcd_target(output: &str, letter: char) -> (r: Result<(), TaskError>)
    ensures
        r is Ok <==> boots_partition(output@, letter),
        r matches Err(e) ==> e == TaskError::Invalid(e->Invalid_0) && e->Invalid_0@
            == "BCDBoot completed but no Windows loader points to the selected target "@ + seq![letter] + ":"@,
{
    let ls = lines_of(chars_of(output).as_slice());
    let ghost all = lines(output@);
    let needle = needle_for(letter);
    for i in 0..ls.len()
        invariant
            all == lines(output@),
            ls@.len() == all.len(),
            forall|j: int| 0 <= j < ls@.len() ==> #[trigger] ls@[j]@ == all[j],
            needle@ == partition_needle(letter),
            forall|j: int| 0 <= j < i ==> !device_trimmed_for(#[trigger] all[j], letter),
    {
        let lower = to_ascii_lowercase(trim_chars(ls[i].as_slice()).as_slice());
        if has_device_label(lower.as_slice()) && contains_seq(lower.as_slice(), needle.as_slice()) {
            proof {
                assert(device_trimmed_for(all[i as int], letter));
            }
            return Ok(());
        }
    }
    let mut m = chars_of("BCDBoot completed but no Windows loader points to the selected target ");
    m.push(letter);
    m.push(':');
    proof {
        reveal_strlit(":");
        assert(m@ =~= "BCDBoot completed but no Windows loader points to the selected target "@ + seq![letter] + ":"@);
    }
    Err(TaskError::Invalid(string_from(m.as_slice())))
}

/// The Windows Boot Manager's default entry and menu order.
#[derive(Debug, Clone, PartialEq, Eq)]
pub struct BcdBootManagerState {
    pub default: String,
    pub display_order: Vec<String>,
}

pub open spec fn opt_chars(o: Option<String>) -> Option<Seq<char>> {
    match o {
        Some(d) => Some(d@),
        None => None,
    }
}

pub open spec fn texts(v: Seq<String>) -> Seq<Seq<char>> {
    v.map_values(|x: String| x@)
}

/// The reading of the Boot Manager object so far: its default, its display
/// order, and whether the display order list is still being read.
pub open spec fn scan_line(st: (Option<Seq<char>>, Seq<Seq<char>>, bool), line: Seq<char>) -> (Option<Seq<char>>, Seq<Seq<char>>, bool) {
    let t = trim(line);
    let lower = lower_seq(t);
    if is_prefix("default"@, lower) || is_prefix("默认"@, t) {
        (bcd_value(t), st.1, false)
    } else if st.2 || is_prefix("displayorder"@, lower) || is_prefix("显示顺序"@, t) {
        match bcd_value(t) {
            Some(v) => (st.0, st.1.push(v), true),
            None => (st.0, st.1, t.len() == 0),
        }
    } else {
        (st.0, st.1, false)
    }
}

pub open spec fn scan(ls: Seq<Seq<char>>, st: (Option<Seq<char>>, Seq<Seq<char>>, bool)) -> (Option<Seq<char>>, Seq<Seq<char>>, bool)
    decreases ls.len(),
{
    if ls.len() == 0 {
        st
    } else {
        scan(ls.drop_first(), scan_line(st, ls[0]))
    }
}

/// The first object of `bs` whose identifier is the Boot Manager's.
pub open spec fn find_boot_manager(bs: Seq<Seq<char>>) -> Option<Seq<char>>
    decreases bs.len(),
{
    if bs.len() == 0 {
        None
    } else if block_identifier(bs[0]) matches Some(x) && eq_ic(x, BOOTMGR_IDENTIFIER@) {
        Some(bs[0])
    } else {
        find_boot_manager(bs.drop_first())
    }
}

/// The Boot Manager's default and display order in `bcdedit` output; the
/// firmware boot manager's own display order is not read.
pub open spec fn boot_manager_state(output: Seq<char>) -> Option<(Seq<char>, Seq<Seq<char>>)> {
    match find_boot_manager(bcd_blocks(output)) {
        None => None,
        Some(b) => {
            let st = scan(lines(b), (None, seq![], false));
            match st.0 {
                Some(d) => Some((d, st.1)),
                None => None,
            }
        },
    }
}

fn boot_manager_block(output: &str) -> (r: Option<Vec<char>>)
    ensures
        r matches Some(b) ==> find_boot_manager(bcd_blocks(output@)) == Some(b@),
        r is None ==> find_boot_manager(bcd_blocks(output@)) is None,
{
    let text = crlf_to_lf_chars(chars_of(output).as_slice());
    let sep = chars_of("\n\n");
    proof {
        reveal_strlit("\n\n");
    }
    let bs = split_pattern_chars(text.as_slice(), sep.as_slice());
    let ghost all = bcd_blocks(output@);
    let mut i: usize = 0;
    proof {
        assert(all.skip(0) =~= all);
    }
    while i < bs.len()
        invariant
            all == bcd_blocks(output@),
            bs@.len() == all.len(),
            forall|j: int| 0 <= j < bs@.len() ==> #[trigger] bs@[j]@ == all[j],
            i <= bs@.len(),
            find_boot_manager(all.skip(i as int)) == find_boot_manager(all),
        decreases bs.len() - i,
    {
        proof {
            assert(all.skip(i as int)[0] == all[i as int]);
            assert(all.skip(i as int).drop_first() =~= all.skip(i + 1));
        }
        match block_identifier_of(bs[i].as_slice()) {
            Some(x) => {
                if str_eq_ignore_ascii_case(x.as_str(), BOOTMGR_IDENTIFIER) {
                    let b = crate::text::slice_from(bs[i].as_slice(), 0);
                    proof {
                        assert(bs@[i as int]@.skip(0) =~= bs@[i as int]@);
                    }
                    return Some(b);
                }
            },
            None => {},
        }
        i = i + 1;
    }
    None
}

pub fn parse_boot_manager_state(output: &str) -> (r: Option<BcdBootManagerState>)
    ensures
        r matches Some(s) ==> boot_manager_state(output@) == Some((s.default@, texts(s.display_order@))),
        r is None ==> boot_manager_state(output@) is None,
{
    let block = match boot_manager_block(output) {
        Some(b) => b,
        None => return None,
    };
    let ls = lines_of(block.as_slice());
    let ghost all = lines(block@);
    let default_label = chars_of("default");
    let default_zh = chars_of("默认");
    let order_label = chars_of("displayorder");
    let order_zh = chars_of("显示顺序");
    let mut default: Option<String> = None;
    let mut order: Vec<String> = Vec::new();
    let mut reading = false;
    let mut i: usize = 0;
    proof {
        assert(all.skip(0) =~= all);
        assert(texts(order@) =~= Seq::<Seq<char>>::empty());
    }
    while i < ls.len()
        invariant
            all == lines(block@),
            ls@.len() == all.len(),
            forall|j: int| 0 <= j < ls@.len() ==> #[trigger] ls@[j]@ == all[j],
            i <= ls@.len(),
            default_label@ == "default"@,
            default_zh@ == "默认"@,
            order_label@ == "displayorder"@,
            order_zh@ == "显示顺序"@,
            scan(all.skip(i as int), (opt_chars(default), texts(order@), reading)) == scan(all, (None, seq![], false)),
        decreases ls.len() - i,
    {
        let ghost st = (opt_chars(default), texts(order@), reading);
        proof {
            assert(all.skip(i as int)[0] == all[i as int]);
            assert(all.skip(i as int).drop_first() =~= all.skip(i + 1));
        }
        let t = trim_chars(ls[i].as_slice());
        let lower = to_ascii_lowercase(t.as_slice());
        let text = string_from(t.as_slice());
        if starts_with(lower.as_slice(), default_label.as_slice()) || starts_with(t.as_slice(), default_zh.as_slice()) {
            default = bcd_value_from_line(text.as_str());
            reading = false;
        } else {
            if starts_with(lower.as_slice(), order_label.as_slice()) || starts_with(t.as_slice(), order_zh.as_slice()) {
                reading = true;
            }
            if reading {
                match bcd_value_from_line(text.as_str()) {
                    Some(v) => {
                        let ghost before = order@;
                        order.push(v);
                        proof {
                            assert(texts(order@) =~= texts(before).push(v@));
                        }
                    },
                    None => {
                        if t.len() > 0 {
                            reading = false;
                        }
                    },
                }
            }
        }
        proof {
            let nst = (opt_chars(default), texts(order@), reading);
            assert(nst == scan_line(st, all[i as int]));
        }
        i = i + 1;
    }
    proof {
        assert(all.skip(i as int).len() == 0);
    }
    match default {
        Some(d) => Some(BcdBootManagerState { default: d, display_order: order }),
        None => None,
    }
}

/// The display order without any entry naming `secondary` (ignoring case).
pub open spec fn without_entry(order: Seq<Seq<char>>, secondary: Seq<char>) -> Seq<Seq<char>>
    decreases order.len(),
{
    if order.len() == 0 {
        seq![]
    } else if eq_ic(order.last(), secondary) {
        without_entry(order.drop_last(), secondary)
    } else {
        without_entry(order.drop_last(), secondary).push(order.last())
    }
}

/// The menu order after adding a secondary Windows: the previous order
/// (or, where it was empty, the previous default), then the new loader.
pub open spec fn order_with_secondary(order: Seq<Seq<char>>, default: Seq<char>, secondary: Seq<char>) -> Seq<Seq<char>> {
    let kept = without_entry(order, secondary);
    (if kept.len() == 0 { seq![default] } else { kept }).push(secondary)
}

pub fn preserved_display_order(previous: &BcdBootManagerState, secondary: &str) -> (r: Vec<String>)
    ensures
        texts(r@) == order_with_secondary(texts(previous.display_order@), previous.default@, secondary@),
{
    let ghost prev = texts(previous.display_order@);
    let mut r: Vec<String> = Vec::new();
    for i in 0..previous.display_order.len()
        invariant
            prev == texts(previous.display_order@),
            texts(r@) == without_entry(prev.take(i as int), secondary@),
    {
        proof {
            assert(prev.take(i + 1).drop_last() =~= prev.take(i as int));
            assert(prev.take(i + 1).last() == previous.display_order@[i as int]@);
        }
        if !str_eq_ignore_ascii_case(previous.display_order[i].as_str(), secondary) {
            let ghost before = r@;
            r.push(crate::text::owned(previous.display_order[i].as_str()));
            proof {
                assert(texts(r@) =~= texts(before).push(previous.display_order@[i as int]@));
            }
        }
    }
    proof {
        assert(prev.take(prev.len() as int) =~= prev);
    }
    if r.len() == 0 {
        r.push(crate::text::owned(previous.default.as_str()));
        proof {
            assert(texts(r@) =~= seq![previous.default@]);
        }
    }
    let ghost before = r@;
    r.push(crate::text::owned(secondary));
    proof {
        assert(texts(r@) =~= texts(before).push(secondary@));
    }
    r
}

/// `x` is in `l`, ignoring ASCII case.
pub open spec fn listed_ic(l: Seq<Seq<char>>, x: Seq<char>) -> bool {
    exists|j: int| 0 <= j < l.len() && eq_ic(#[trigger] l[j], x)
}

/// After the update the Boot Manager still starts the previous default, the
/// new loader is last, and every entry of the intended order is listed.
pub open spec fn order_preserved(verified: (Seq<char>, Seq<Seq<char>>), default: Seq<char>, expected: Seq<Seq<char>>, secondary: Seq<char>) -> bool {
    &&& verified.0 == default
    &&& verified.1.len() > 0
    &&& eq_ic(verified.1.last(), secondary)
    &&& forall|i: int| 0 <= i < expected.len() ==> #[trigger] listed_ic(verified.1, expected[i])
}

fn listed_ignoring_case(list: &Vec<String>, id: &str) -> (b: bool)
    ensures
        b == listed_ic(texts(list@), id@),
{
    for j in 0..list.len()
        invariant
            forall|k: int| 0 <= k < j ==> !eq_ic(#[trigger] list@[k]@, id@),
    {
        if str_eq_ignore_ascii_case(list[j].as_str(), id) {
            proof {
                assert(texts(list@)[j as int] == list@[j as int]@);
            }
            return true;
        }
    }
    proof {
        assert forall|k: int| 0 <= k < texts(list@).len() implies !eq_ic(#[trigger] texts(list@)[k], id@) by {
            assert(texts(list@)[k] == list@[k]@);
        }
    }
    false
}

fn all_listed(list: &Vec<String>, expected: &Vec<String>) -> (b: bool)
    ensures
        b == forall|i: int| 0 <= i < expected@.len() ==> #[trigger] listed_ic(texts(list@), texts(expected@)[i]),
{
    let mut i: usize = 0;
    while i < expected.len()
        invariant
            i <= expected@.len(),
            forall|k: int| 0 <= k < i ==> #[trigger] listed_ic(texts(list@), texts(expected@)[k]),
        decreases expected.len() - i,
    {
        proof {
            assert(texts(expected@)[i as int] == expected@[i as int]@);
        }
        if !listed_ignoring_case(list, expected[i].as_str()) {
            return false;
        }
        i = i + 1;
    }
    true
}

pub fn check_boot_order(verified: &BcdBootManagerState, previous: &BcdBootManagerState, expected: &Vec<String>, secondary: &str) -> (r: Result<(), TaskError>)
    ensures
        r is Ok <==> order_preserved(
            (verified.default@, texts(verified.display_order@)),
            previous.default@,
            texts(expected@),
            secondary@,
        ),
        r matches Err(e) ==> e == TaskError::Invalid(e->Invalid_0) && e->Invalid_0@
            == "Boot Manager default or secondary display order could not be preserved"@,
{
    let same_default = crate::text::seq_eq(chars_of(verified.default.as_str()).as_slice(), chars_of(previous.default.as_str()).as_slice());
    let n = verified.display_order.len();
    let last_ok = n > 0 && str_eq_ignore_ascii_case(verified.display_order[n - 1].as_str(), secondary);
    proof {
        if n > 0 {
            assert(texts(verified.display_order@).last() == verified.display_order@[n - 1]@);
        }
    }
    if !same_default || !last_ok || !all_listed(&verified.display_order, expected) {
        return Err(invalid("Boot Manager default or secondary display order could not be preserved"));
    }
    Ok(())
}

/// The menu name shows up (ignoring ASCII case) in the store after it was
/// set.
pub fn menu_name_visible(output: &str, menu_name: &str) -> (b: bool)
    ensures
        b == contains(lower_seq(output@), lower_seq(menu_name@)),
{
    let o = to_ascii_lowercase(chars_of(output).as_slice());
    let m = to_ascii_lowercase(chars_of(menu_name).as_slice());
    contains_seq(o.as_slice(), m.as_slice())
}

} // verus!
