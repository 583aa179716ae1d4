//! Parsing of the text that Windows tools print (mountvol, bcdedit) and of
//! the arguments passed back to them.
use vstd::prelude::*;
use crate::outside::{decode_utf16, from_utf16_lossy, from_utf8_lossy, utf16_lossy, utf8_lossy};
use vstd::utf8::{decode_utf8, valid_utf8};
use crate::text::{
    chars_of, first_index, find_char, is_whitespace, is_ws, lines, lines_of, string_from,
    to_ascii_uppercase, trim, trim_chars, upper_seq, eq_ic, lower, lower_seq, upper,
};

verus! {

/// What a `mountvol <letter>: /L` query told about a drive letter.
///
/// The three cases stay distinct: an unanswered query must never read as
/// a free letter.
#[derive(Debug, Clone, PartialEq, Eq)]
pub enum VolumeMountQuery {
    /// The letter is mounted to this volume GUID path.
    Mounted(String),
    /// The letter has no volume mounted; assigning it is safe.
    Unmounted,
    /// The query did not answer usably; the letter's state is unproven.
    Unknown,
}

/// The first line that is not blank, trimmed.
pub open spec fn first_nonblank(ls: Seq<Seq<char>>) -> Option<Seq<char>>
    decreases ls.len(),
{
    if ls.len() == 0 {
        None
    } else if trim(ls[0]).len() > 0 {
        Some(trim(ls[0]))
    } else {
        first_nonblank(ls.drop_first())
    }
}

/// A non-zero exit is how `mountvol` reports an unassigned letter; a
/// successful run names the volume on its first non-blank line, and a
/// successful run without one proves nothing.
pub open spec fn mountvol_meaning(exited_successfully: bool, stdout: Seq<char>) -> (bool, Option<Seq<char>>) {
    if !exited_successfully {
        (true, None)
    } else {
        (false, first_nonblank(lines(stdout)))
    }
}

/// Classify a finished `mountvol <letter>: /L` run.
pub fn classify_mountvol_output(exited_successfully: bool, stdout: &str) -> (r: VolumeMountQuery)
    ensures
        !exited_successfully ==> r == VolumeMountQuery::Unmounted,
        exited_successfully ==> match first_nonblank(lines(stdout@)) {
            Some(g) => r matches VolumeMountQuery::Mounted(m) && m@ == g,
            None => r == VolumeMountQuery::Unknown,
        },
{
    if !exited_successfully {
        return VolumeMountQuery::Unmounted;
    }
    let text = chars_of(stdout);
    let ls = lines_of(text.as_slice());
    let ghost all = lines(stdout@);
    let mut i: usize = 0;
    proof {
        assert(all.skip(0) =~= all);
    }
    while i < ls.len()
        invariant
            exited_successfully,
            all == lines(stdout@),
            i <= ls@.len(),
            ls@.len() == all.len(),
            forall|j: int| 0 <= j < ls@.len() ==> #[trigger] ls@[j]@ == all[j],
            first_nonblank(all.skip(i as int)) == first_nonblank(all),
        decreases ls.len() - i,
    {
        let t = trim_chars(ls[i].as_slice());
        proof {
            assert(ls@[i as int]@ == all[i as int]);
            assert(all.skip(i as int)[0] == all[i as int]);
            assert(all.skip(i as int).drop_first() =~= all.skip(i + 1));
        }
        if t.len() > 0 {
            return VolumeMountQuery::Mounted(string_from(t.as_slice()));
        }
        i = i + 1;
    }
    proof {
        assert(all.skip(i as int).len() == 0);
    }
    VolumeMountQuery::Unknown
}

/// The text between the first `{` and the first `}` after it.
pub open spec fn first_braced(t: Seq<char>) -> Option<Seq<char>> {
    match first_index(t, '{') {
        None => None,
        Some(s) => match first_index(t.skip(s), '}') {
            None => None,
            Some(e) => Some(t.subrange(s + 1, s + e)),
        },
    }
}

/// Return the first `{...}` GUID in `text` without its braces.
pub fn first_braced_guid(text: &str) -> (r: Option<String>)
    ensures
        r matches Some(g) ==> first_braced(text@) == Some(g@),
        r is None ==> first_braced(text@) is None,
{
    let t = chars_of(text);
    let start = match find_char(t.as_slice(), '{') {
        Some(s) => s,
        None => return None,
    };
    let mut tail: Vec<char> = Vec::new();
    let mut i = start;
    while i < t.len()
        invariant
            start <= i <= t.len(),
            tail@ == t@.subrange(start as int, i as int),
        decreases t.len() - i,
    {
        tail.push(t[i]);
        proof {
            assert(t@.subrange(start as int, i + 1) =~= t@.subrange(start as int, i as int).push(t@[i as int]));
        }
        i = i + 1;
    }
    proof {
        assert(tail@ =~= t@.skip(start as int));
    }
    let end = match find_char(tail.as_slice(), '}') {
        Some(e) => e,
        None => return None,
    };
    let mut out: Vec<char> = Vec::new();
    let mut k = start + 1;
    while k < start + end
        invariant
            start + 1 <= k <= start + end,
            start + end <= t.len(),
            end >= 1,
            out@ == t@.subrange(start + 1, k as int),
        decreases start + end - k,
    {
        out.push(t[k]);
        proof {
            assert(t@.subrange(start + 1, k + 1) =~= t@.subrange(start + 1, k as int).push(t@[k as int]));
        }
        k = k + 1;
    }
    proof {
        assert(tail@[0] == '{');
    }
    Some(string_from(out.as_slice()))
}

/// Every `"` of `s` preceded by a backslash.
pub open spec fn escape_quotes(s: Seq<char>) -> Seq<char>
    decreases s.len(),
{
    if s.len() == 0 {
        s
    } else if s.last() == '"' {
        escape_quotes(s.drop_last()) + seq!['\\', '"']
    } else {
        escape_quotes(s.drop_last()).push(s.last())
    }
}

/// A value that `cmd.exe` must see quoted: empty, or holding white space
/// or a double quote.
pub open spec fn needs_quotes(s: Seq<char>) -> bool {
    s.len() == 0 || exists|i: int| 0 <= i < s.len() && (is_ws(#[trigger] s[i]) || s[i] == '"')
}

/// The value as it is concatenated into a `cmd.exe` command line.
pub open spec fn quoted(s: Seq<char>) -> Seq<char> {
    if needs_quotes(s) {
        seq!['"'] + escape_quotes(s) + seq!['"']
    } else {
        s
    }
}

/// Quote a value before it is concatenated into a `cmd.exe` command string.
pub fn quote_argument(value: &str) -> (r: String)
    ensures
        r@ == quoted(value@),
{
    let v = chars_of(value);
    let mut needs = v.len() == 0;
    let mut i: usize = 0;
    while i < v.len() && !needs
        invariant
            i <= v.len(),
            needs == (v@.len() == 0 || exists|j: int| 0 <= j < i && (is_ws(#[trigger] v@[j]) || v@[j] == '"')),
        decreases v.len() - i,
    {
        if is_whitespace(v[i]) || v[i] == '"' {
            needs = true;
        }
        i = i + 1;
    }
    proof {
        if !needs {
            assert(i == v@.len());
        }
    }
    if !needs {
        return string_from(v.as_slice());
    }
    let mut out: Vec<char> = Vec::new();
    out.push('"');
    for k in 0..v.len()
        invariant
            out@ == seq!['"'] + escape_quotes(v@.take(k as int)),
    {
        let c = v[k];
        proof {
            assert(v@.take(k + 1).drop_last() =~= v@.take(k as int));
            assert(v@.take(k + 1).last() == c);
        }
        if c == '"' {
            out.push('\\');
            out.push('"');
            proof {
                assert(out@ =~= seq!['"'] + escape_quotes(v@.take(k + 1)));
            }
        } else {
            out.push(c);
            proof {
                assert(out@ =~= seq!['"'] + escape_quotes(v@.take(k + 1)));
            }
        }
    }
    out.push('"');
    proof {
        assert(v@.take(v@.len() as int) =~= v@);
    }
    string_from(out.as_slice())
}

/// Little-endian UTF-16 code units from pairs of bytes; an odd final byte
/// is dropped.
pub open spec fn le_units(b: Seq<u8>) -> Seq<u16> {
    Seq::new(b.len() / 2, |i: int| (b[2 * i] as int + 256 * (b[2 * i + 1] as int)) as u16)
}

pub open spec fn nul_count(b: Seq<u8>) -> nat
    decreases b.len(),
{
    if b.len() == 0 {
        0
    } else {
        nul_count(b.drop_last()) + if b.last() == 0 { 1nat } else { 0nat }
    }
}

pub open spec fn has_utf16_bom(b: Seq<u8>) -> bool {
    b.len() >= 2 && b[0] == 0xFF && b[1] == 0xFE
}

/// How a bcdedit output file decodes: UTF-16LE when it starts with a BOM
/// or more than a quarter of its bytes are NUL, otherwise UTF-8; both with
/// replacement characters for invalid input.
pub open spec fn bcdedit_text(b: Seq<u8>) -> Seq<char> {
    if utf16_file(b) {
        utf16_lossy(le_units(utf16_body(b)))
    } else {
        utf8_lossy(b)
    }
}

/// The file is read as UTF-16LE: it starts with a BOM or more than a
/// quarter of its bytes are NUL.
pub open spec fn utf16_file(b: Seq<u8>) -> bool {
    has_utf16_bom(b) || (b.len() >= 2 && nul_count(b) > b.len() / 4)
}

/// The UTF-16LE bytes of such a file, after its BOM.
pub open spec fn utf16_body(b: Seq<u8>) -> Seq<u8> {
    if has_utf16_bom(b) { b.skip(2) } else { b }
}

/// Decode a bcdedit output file's bytes.
pub fn decode_bcdedit_bytes(bytes: &[u8]) -> (r: String)
    ensures
        r@ == bcdedit_text(bytes@),
        utf16_file(bytes@) ==> (decode_utf16(le_units(utf16_body(bytes@))) matches Some(text) ==> r@ == text),
        !utf16_file(bytes@) && valid_utf8(bytes@) ==> r@ == decode_utf8(bytes@),
{
    let mut nuls: usize = 0;
    for i in 0..bytes.len()
        invariant
            nuls == nul_count(bytes@.take(i as int)),
            nuls <= i,
    {
        proof {
            assert(bytes@.take(i + 1).drop_last() =~= bytes@.take(i as int));
        }
        if bytes[i] == 0 {
            nuls = nuls + 1;
        }
    }
    proof {
        assert(bytes@.take(bytes@.len() as int) =~= bytes@);
    }
    let bom = bytes.len() >= 2 && bytes[0] == 0xFF && bytes[1] == 0xFE;
    if bom || (bytes.len() >= 2 && nuls > bytes.len() / 4) {
        let start: usize = if bom { 2 } else { 0 };
        let ghost body = bytes@.skip(start as int);
        let pairs = (bytes.len() - start) / 2;
        let mut units: Vec<u16> = Vec::new();
        for i in 0..pairs
            invariant
                start <= bytes.len(),
                pairs == (bytes.len() - start) / 2,
                body == bytes@.skip(start as int),
                units@ == le_units(body).take(i as int),
        {
            let lo = bytes[start + 2 * i] as u16;
            let hi = bytes[start + 2 * i + 1] as u16;
            units.push(lo + hi * 256);
            proof {
                assert(units@ =~= le_units(body).take(i + 1));
            }
        }
        proof {
            assert(units@ =~= le_units(body));
        }
        from_utf16_lossy(units.as_slice())
    } else {
        from_utf8_lossy(bytes)
    }
}

/// Which volume an earlier role already mounted, and at which letter.
///
/// `diskpart`'s `assign letter=` moves a volume's letter rather than adding
/// one, so roles that share a volume must share its letter.
#[derive(Debug)]
pub struct MountedVolumes {
    entries: Vec<(String, char)>,
}

/// The letter recorded last for `key` among `es`.
pub open spec fn letter_for(es: Seq<(String, char)>, key: Seq<char>) -> Option<char>
    decreases es.len(),
{
    if es.len() == 0 {
        None
    } else if es.last().0@ == key {
        Some(es.last().1)
    } else {
        letter_for(es.drop_last(), key)
    }
}

impl MountedVolumes {
    /// The letter recorded for a volume GUID; GUIDs compare without regard
    /// to ASCII case.
    pub closed spec fn mounted(&self, volume_guid: Seq<char>) -> Option<char> {
        letter_for(self.entries@, upper_seq(volume_guid))
    }

    pub fn new() -> (r: Self)
        ensures
            forall|g: Seq<char>| r.mounted(g) is None,
    {
        MountedVolumes { entries: Vec::new() }
    }

    /// The letter an earlier role already mounted this volume at, if any.
    pub fn existing(&self, volume_guid: &str) -> (r: Option<char>)
        ensures
            r == self.mounted(volume_guid@),
    {
        let key = to_ascii_uppercase(chars_of(volume_guid).as_slice());
        let mut i = self.entries.len();
        proof {
            assert(self.entries@.take(i as int) =~= self.entries@);
        }
        while i > 0
            invariant
                i <= self.entries@.len(),
                key@ == upper_seq(volume_guid@),
                letter_for(self.entries@.take(i as int), key@) == letter_for(self.entries@, key@),
            decreases i,
        {
            let entry = &self.entries[i - 1];
            proof {
                assert(self.entries@.take(i as int).drop_last() =~= self.entries@.take(i - 1));
                assert(self.entries@.take(i as int).last() == self.entries@[i - 1]);
            }
            if crate::text::seq_eq(chars_of(entry.0.as_str()).as_slice(), key.as_slice()) {
                return Some(entry.1);
            }
            i = i - 1;
        }
        None
    }

    /// Record the letter a role just mounted this volume at.
    pub fn record(&mut self, volume_guid: &str, letter: char)
        ensures
            forall|g: Seq<char>| #[trigger] final(self).mounted(g) == if upper_seq(g) == upper_seq(volume_guid@) {
                Some(letter)
            } else {
                old(self).mounted(g)
            },
    {
        let key = to_ascii_uppercase(chars_of(volume_guid).as_slice());
        self.entries.push((string_from(key.as_slice()), letter));
        proof {
            assert forall|g: Seq<char>| #[trigger] self.mounted(g) == if upper_seq(g) == upper_seq(volume_guid@) {
                Some(letter)
            } else {
                old(self).mounted(g)
            } by {
                assert(self.entries@.drop_last() =~= old(self).entries@);
            }
        }
    }
}

/// The letter recorded last, by a sequence of `record` calls, for a volume
/// GUID equal to `guid` without regard to ASCII case.
pub open spec fn last_recorded(records: Seq<(Seq<char>, char)>, guid: Seq<char>) -> Option<char>
    decreases records.len(),
{
    if records.len() == 0 {
        None
    } else if eq_ic(records.last().0, guid) {
        Some(records.last().1)
    } else {
        last_recorded(records.drop_last(), guid)
    }
}

proof fn lemma_case_fold_chars(c: char, d: char)
    ensures
        (upper(c) == upper(d)) == (lower(c) == lower(d)),
{
}

proof fn lemma_case_fold(a: Seq<char>, b: Seq<char>)
    ensures
        (upper_seq(a) == upper_seq(b)) == eq_ic(a, b),
{
    if upper_seq(a) == upper_seq(b) {
        assert(a.len() == upper_seq(a).len());
        assert forall|i: int| 0 <= i < a.len() implies lower_seq(a)[i] == lower_seq(b)[i] by {
            assert(upper_seq(a)[i] == upper(a[i]));
            assert(upper_seq(b)[i] == upper(b[i]));
            lemma_case_fold_chars(a[i], b[i]);
        }
        assert(lower_seq(a) =~= lower_seq(b));
    }
    if eq_ic(a, b) {
        assert(a.len() == lower_seq(a).len());
        assert forall|i: int| 0 <= i < a.len() implies upper_seq(a)[i] == upper_seq(b)[i] by {
            assert(lower_seq(a)[i] == lower(a[i]));
            assert(lower_seq(b)[i] == lower(b[i]));
            lemma_case_fold_chars(a[i], b[i]);
        }
        assert(upper_seq(a) =~= upper_seq(b));
    }
}

/// Roles that share a volume share its letter: after `new` and any sequence
/// of `record` calls, a volume GUID is found at the letter recorded last for
/// it (GUIDs compared without regard to ASCII case), and at none if it was
/// never recorded; recording one GUID never changes another's letter.
pub proof fn lemma_mounted_after_records(states: Seq<MountedVolumes>, records: Seq<(Seq<char>, char)>, guid: Seq<char>)
    requires
        states.len() == records.len() + 1,
        forall|g: Seq<char>| #[trigger] states[0].mounted(g) is None,
        forall|i: int, g: Seq<char>| 0 <= i < records.len() ==> #[trigger] states[i + 1].mounted(g) == if upper_seq(g)
            == upper_seq(records[i].0) {
            Some(records[i].1)
        } else {
            states[i].mounted(g)
        },
    ensures
        states.last().mounted(guid) == last_recorded(records, guid),
    decreases records.len(),
{
    let n = records.len();
    if n > 0 {
        let s0 = states.drop_last();
        let r0 = records.drop_last();
        assert forall|i: int, g: Seq<char>| 0 <= i < r0.len() implies #[trigger] s0[i + 1].mounted(g) == if upper_seq(g)
            == upper_seq(r0[i].0) {
            Some(r0[i].1)
        } else {
            s0[i].mounted(g)
        } by {
            assert(s0[i + 1] == states[i + 1]);
            assert(s0[i] == states[i]);
            assert(states[i + 1].mounted(g) == if upper_seq(g) == upper_seq(records[i].0) {
                Some(records[i].1)
            } else {
                states[i].mounted(g)
            });
        }
        assert(s0[0] == states[0]);
        lemma_mounted_after_records(s0, r0, guid);
        lemma_case_fold(records.last().0, guid);
        lemma_case_fold(guid, records.last().0);
        assert(states.last() == states[(n - 1) + 1]);
        assert(states.last().mounted(guid) == if upper_seq(guid) == upper_seq(records[n - 1].0) {
            Some(records[n - 1].1)
        } else {
            states[n - 1].mounted(guid)
        });
        assert(s0.last() == states[n - 1]);
    }
}

} // verus!
