//! The JSON reports of DISM and of the volume listing, read into image and
//! volume descriptions. The host parses the text; this module reads the
//! parsed value.
use vstd::prelude::*;
use crate::gui::{trim_end_char, trim_end_char_of, DriveInfo};
use crate::number::{decimal, i64_decimal, parse_u32, parse_u32_spec, parse_u64, parse_u64_spec, signed_decimal, u64_decimal};
use crate::text::{chars_of, eq_ic, is_alpha, owned, str_eq_ignore_ascii_case, string_from, trim, trim_chars, upper_seq, to_ascii_uppercase};

verus! {

/// A JSON number as far as the reports use it: an integer that fits a
/// `u64`, a negative one that fits an `i64`, or anything else.
#[derive(Debug, Clone, Copy, PartialEq, Eq, Structural)]
pub enum JsonNumber {
    Unsigned(u64),
    Negative(i64),
    Other,
}

/// A parsed JSON value; an object keeps its members in key order, each
/// key once.
#[derive(Debug, PartialEq, Eq)]
pub enum JsonValue {
    Null,
    Bool(bool),
    Number(JsonNumber),
    Str(String),
    Array(Vec<JsonValue>),
    Object(Vec<(String, JsonValue)>),
}

/// Position of the first member named `key`.
pub open spec fn first_key_index(ms: Seq<(String, JsonValue)>, key: Seq<char>) -> Option<int> {
    if exists|i: int| 0 <= i < ms.len() && (#[trigger] ms[i]).0@ == key && forall|j: int| 0 <= j < i ==> ms[j].0@ != key {
        Some(choose|i: int| 0 <= i < ms.len() && (#[trigger] ms[i]).0@ == key && forall|j: int| 0 <= j < i ==> ms[j].0@ != key)
    } else {
        None
    }
}

/// The member `key` of an object (the first with that key).
pub open spec fn member(v: JsonValue, key: Seq<char>) -> Option<JsonValue> {
    match v {
        JsonValue::Object(ms) => match first_key_index(ms@, key) {
            Some(i) => if 0 <= i < ms@.len() { Some(ms@[i].1) } else { None },
            None => None,
        },
        _ => None,
    }
}

proof fn lemma_first_key(ms: Seq<(String, JsonValue)>, key: Seq<char>, i: int)
    requires
        0 <= i < ms.len(),
        ms[i].0@ == key,
        forall|j: int| 0 <= j < i ==> ms[j].0@ != key,
    ensures
        first_key_index(ms, key) == Some(i),
{
    assert(ms[i].0@ == key && forall|j: int| 0 <= j < i ==> ms[j].0@ != key);
    let c = choose|c: int| 0 <= c < ms.len() && (#[trigger] ms[c]).0@ == key && forall|j: int| 0 <= j < c ==> ms[j].0@ != key;
    if c < i {
        assert(ms[c].0@ != key);
    } else if c > i {
        assert(ms[i].0@ != key);
    }
}

proof fn lemma_no_key(ms: Seq<(String, JsonValue)>, key: Seq<char>)
    requires
        forall|j: int| 0 <= j < ms.len() ==> ms[j].0@ != key,
    ensures
        first_key_index(ms, key) is None,
{
}

pub fn get_member<'a>(v: &'a JsonValue, key: &str) -> (r: Option<&'a JsonValue>)
    ensures
        r matches Some(m) ==> member(*v, key@) == Some(*m),
        r is None ==> member(*v, key@) is None,
{
    match v {
        JsonValue::Object(ms) => {
            let k = chars_of(key);
            for i in 0..ms.len()
                invariant
                    k@ == key@,
                    *v == JsonValue::Object(*ms),
                    forall|j: int| 0 <= j < i ==> ms@[j].0@ != key@,
            {
                if crate::text::seq_eq(chars_of(ms[i].0.as_str()).as_slice(), k.as_slice()) {
                    proof {
                        lemma_first_key(ms@, key@, i as int);
                    }
                    return Some(&ms[i].1);
                }
            }
            proof {
                lemma_no_key(ms@, key@);
            }
            None
        },
        _ => None,
    }
}

/// A member read as display text: a string as it is, an integer in
/// decimal, a boolean as `true` or `false`; anything else, or no such
/// member, gives the empty text.
pub open spec fn text_of(v: JsonValue, key: Seq<char>) -> Seq<char> {
    match member(v, key) {
        Some(JsonValue::Str(s)) => s@,
        Some(JsonValue::Number(JsonNumber::Unsigned(n))) => decimal(n as nat),
        Some(JsonValue::Number(JsonNumber::Negative(n))) => signed_decimal(n as int),
        Some(JsonValue::Bool(b)) => if b { "true"@ } else { "false"@ },
        _ => seq![],
    }
}

pub fn json_text(value: &JsonValue, key: &str) -> (r: String)
    ensures
        r@ == text_of(*value, key@),
{
    match get_member(value, key) {
        Some(JsonValue::Str(s)) => owned(s.as_str()),
        Some(JsonValue::Number(JsonNumber::Unsigned(n))) => string_from(u64_decimal(*n).as_slice()),
        Some(JsonValue::Number(JsonNumber::Negative(n))) => string_from(i64_decimal(*n).as_slice()),
        Some(JsonValue::Bool(b)) => if *b { owned("true") } else { owned("false") },
        _ => String::new(),
    }
}

/// The image objects of a DISM WIM report: a bare array, a single image
/// object, or an `images` member around either.
pub open spec fn image_items(v: JsonValue) -> Option<Seq<JsonValue>>
    decreases v,
{
    match v {
        JsonValue::Array(items) => Some(items@),
        JsonValue::Object(ms) => if member(v, "ImageIndex"@) is Some || member(v, "imageIndex"@) is Some {
            Some(seq![v])
        } else {
            match first_key_index(ms@, "images"@) {
                Some(i) => if 0 <= i < ms@.len() {
                    image_items(ms@[i].1)
                } else {
                    None
                },
                None => None,
            }
        },
        _ => None,
    }
}

/// The image items of a report, borrowed from it.
pub enum ImageItems<'a> {
    Many(&'a Vec<JsonValue>),
    One(&'a JsonValue),
}

pub open spec fn items_view(i: ImageItems) -> Seq<JsonValue> {
    match i {
        ImageItems::Many(v) => v@,
        ImageItems::One(x) => seq![*x],
    }
}

pub fn wim_image_items<'a>(value: &'a JsonValue) -> (r: Result<ImageItems<'a>, String>)
    ensures
        r matches Ok(items) ==> image_items(*value) == Some(items_view(items)),
        r is Err ==> image_items(*value) is None,
        r matches Err(m) ==> m@ == "WIM metadata did not return an image object, array or images wrapper"@,
    decreases value,
{
    if let JsonValue::Array(items) = value {
        return Ok(ImageItems::Many(items));
    }
    if get_member(value, "ImageIndex").is_some() || get_member(value, "imageIndex").is_some() {
        return Ok(ImageItems::One(value));
    }
    match value {
        JsonValue::Object(ms) => {
            let k = chars_of("images");
            for i in 0..ms.len()
                invariant
                    k@ == "images"@,
                    *value == JsonValue::Object(*ms),
                    member(*value, "ImageIndex"@) is None,
                    member(*value, "imageIndex"@) is None,
                    forall|j: int| 0 <= j < i ==> ms@[j].0@ != "images"@,
            {
                if crate::text::seq_eq(chars_of(ms[i].0.as_str()).as_slice(), k.as_slice()) {
                    proof {
                        lemma_first_key(ms@, "images"@, i as int);
                    }
                    return wim_image_items(&ms[i].1);
                }
            }
            proof {
                lemma_no_key(ms@, "images"@);
            }
            Err(owned("WIM metadata did not return an image object, array or images wrapper"))
        },
        _ => Err(owned("WIM metadata did not return an image object, array or images wrapper")),
    }
}

fn item_at<'a>(items: &ImageItems<'a>, i: usize) -> (r: &'a JsonValue)
    requires
        i < items_view(*items).len(),
    ensures
        *r == items_view(*items)[i as int],
{
    match items {
        ImageItems::Many(v) => &v[i],
        ImageItems::One(x) => x,
    }
}

fn items_len(items: &ImageItems) -> (n: usize)
    ensures
        n == items_view(*items).len(),
{
    match items {
        ImageItems::Many(v) => v.len(),
        ImageItems::One(_) => 1,
    }
}

/// One image of a WIM file as DISM describes it.
#[derive(Debug, Clone, PartialEq, Eq)]
pub struct WimImageInfo {
    pub index: u32,
    pub name: String,
    pub description: String,
    pub version: String,
    pub architecture: String,
    pub edition: String,
    pub installation_type: String,
    pub size_bytes: Option<u64>,
}

/// The image an item describes; `Err` names why it is unusable.
pub open spec fn image_of(item: JsonValue) -> Result<(u32, Option<u64>), Seq<char>> {
    match parse_u32_spec(text_of(item, "ImageIndex"@)) {
        None => Err("WIM metadata contains an invalid image index"@),
        Some(0) => Err("WIM metadata contains image index 0"@),
        Some(i) => Ok((i, parse_u64_spec(text_of(item, "ImageSize"@)))),
    }
}

pub open spec fn image_matches(info: WimImageInfo, item: JsonValue) -> bool {
    &&& image_of(item) == Ok::<(u32, Option<u64>), Seq<char>>((info.index, info.size_bytes))
    &&& info.name@ == text_of(item, "ImageName"@)
    &&& info.description@ == text_of(item, "ImageDescription"@)
    &&& info.version@ == text_of(item, "ImageVersion"@)
    &&& info.architecture@ == text_of(item, "Architecture"@)
    &&& info.edition@ == text_of(item, "EditionId"@)
    &&& info.installation_type@ == text_of(item, "InstallationType"@)
}

fn image_info(item: &JsonValue) -> (r: Result<WimImageInfo, String>)
    ensures
        r matches Ok(info) ==> image_matches(info, *item),
        r matches Err(m) ==> image_of(*item) == Err::<(u32, Option<u64>), Seq<char>>(m@),
{
    let index_text = json_text(item, "ImageIndex");
    let index = match parse_u32(chars_of(index_text.as_str()).as_slice()) {
        Some(n) => n,
        None => return Err(owned("WIM metadata contains an invalid image index")),
    };
    if index == 0 {
        return Err(owned("WIM metadata contains image index 0"));
    }
    let size_text = json_text(item, "ImageSize");
    let size_bytes = parse_u64(chars_of(size_text.as_str()).as_slice());
    Ok(WimImageInfo {
        index,
        name: json_text(item, "ImageName"),
        description: json_text(item, "ImageDescription"),
        version: json_text(item, "ImageVersion"),
        architecture: json_text(item, "Architecture"),
        edition: json_text(item, "EditionId"),
        installation_type: json_text(item, "InstallationType"),
        size_bytes,
    })
}

/// The first unusable item's reason, if any.
pub open spec fn first_bad_image(items: Seq<JsonValue>) -> Option<Seq<char>>
    decreases items.len(),
{
    if items.len() == 0 {
        None
    } else if image_of(items[0]) is Err {
        Some(image_of(items[0])->Err_0)
    } else {
        first_bad_image(items.drop_first())
    }
}

/// The images of a DISM WIM report, in the report's order; refused where
/// the report has no image items, an item is unusable, or there is none.
pub fn wim_images(value: &JsonValue) -> (r: Result<Vec<WimImageInfo>, String>)
    ensures
        r matches Ok(images) ==> image_items(*value) matches Some(items) && first_bad_image(items) is None
            && items.len() > 0 && images@.len() == items.len() && forall|k: int|
            0 <= k < items.len() ==> image_matches(#[trigger] images@[k], items[k]),
        r is Err ==> image_items(*value) is None || (image_items(*value) matches Some(items) && (first_bad_image(items) is Some || items.len() == 0)),
        r matches Err(m) ==> (image_items(*value) is None ==> m@ == "WIM metadata did not return an image object, array or images wrapper"@)
            && (image_items(*value) matches Some(items) ==> (first_bad_image(items) matches Some(why) ==> m@ == why)
            && (first_bad_image(items) is None ==> m@ == "WIM contains no selectable image indexes"@)),
{
    let items = wim_image_items(value)?;
    let mut images: Vec<WimImageInfo> = Vec::new();
    let ghost all = items_view(items);
    let n = items_len(&items);
    proof {
        assert(all.skip(0) =~= all);
    }
    for i in 0..n
        invariant
            n == all.len(),
            all == items_view(items),
            image_items(*value) == Some(all),
            images@.len() == i,
            forall|k: int| 0 <= k < i ==> image_matches(#[trigger] images@[k], all[k]),
            first_bad_image(all.skip(i as int)) == first_bad_image(all),
    {
        let item = item_at(&items, i);
        proof {
            assert(all.skip(i as int)[0] == all[i as int]);
            assert(all.skip(i as int).drop_first() =~= all.skip(i + 1));
        }
        let info = match image_info(item) {
            Ok(info) => info,
            Err(m) => {
                proof {
                    assert(all.skip(i as int)[0] == *item);
                    assert(first_bad_image(all.skip(i as int)) == Some(m@));
                }
                return Err(m);
            },
        };
        images.push(info);
    }
    proof {
        assert(all.skip(all.len() as int).len() == 0);
    }
    if images.len() == 0 {
        return Err(owned("WIM contains no selectable image indexes"));
    }
    Ok(images)
}

/// The volume objects of a volume listing: a bare array, or one object
/// that has a `letter` member.
pub open spec fn volume_items(v: JsonValue) -> Option<Seq<JsonValue>> {
    match v {
        JsonValue::Array(items) => Some(items@),
        _ => if member(v, "letter"@) is Some {
            Some(seq![v])
        } else {
            None
        },
    }
}

/// The drive letter a volume object names: its `letter` text without
/// surrounding white space and trailing colons, in upper case, where that is
/// a single ASCII letter.
#[verifier::opaque]
pub open spec fn item_letter(item: JsonValue) -> Option<char> {
    let l = upper_seq(trim_end_char(trim(text_of(item, "letter"@)), ':'));
    if l.len() == 1 && is_alpha(l[0]) {
        Some(l[0])
    } else {
        None
    }
}

/// `d` describes the volume object `item`, whose letter is `c`.
#[verifier::opaque]
pub open spec fn drive_matches(d: DriveInfo, item: JsonValue, c: char) -> bool {
    &&& d.letter@ == seq![c]
    &&& d.label@ == text_of(item, "label"@)
    &&& d.filesystem@ == text_of(item, "filesystem"@)
    &&& d.size_bytes == parse_u64_spec(text_of(item, "sizeBytes"@))
    &&& d.free_bytes == parse_u64_spec(text_of(item, "freeBytes"@))
    &&& d.volume_guid@ == text_of(item, "volumeGuid"@)
    &&& d.disk_number == parse_u32_spec(text_of(item, "diskNumber"@))
    &&& d.partition_number == parse_u32_spec(text_of(item, "partitionNumber"@))
    &&& d.partition_type_guid@ == text_of(item, "partitionTypeGuid"@)
    &&& d.has_windows_installation == eq_ic(text_of(item, "hasWindowsInstallation"@), "true"@)
}

/// The letter of a listed drive.
pub open spec fn drive_letter(d: DriveInfo) -> char {
    d.letter@[0]
}

/// `ds` lists, in strictly ascending letter order, one drive per letter that
/// the first `n` items name: the first item with that letter.
pub open spec fn drives_of_items(ds: Seq<DriveInfo>, items: Seq<JsonValue>, n: int) -> bool {
    &&& forall|k: int, l: int| 0 <= k < l < ds.len() ==> drive_letter(ds[k]) < drive_letter(ds[l])
    &&& forall|k: int| #![trigger ds[k]] 0 <= k < ds.len() ==> exists|i: int| 0 <= i < n && #[trigger] item_letter(items[i]) == Some(drive_letter(ds[k]))
        && (forall|j: int| 0 <= j < i ==> item_letter(items[j]) != Some(drive_letter(ds[k])))
        && drive_matches(ds[k], items[i], drive_letter(ds[k]))
    &&& forall|i: int| 0 <= i < n && (#[trigger] item_letter(items[i])) is Some ==> exists|k: int| 0 <= k < ds.len()
        && item_letter(items[i]) == Some(drive_letter(ds[k]))
}

fn letter_char(d: &DriveInfo) -> (c: char)
    requires
        d.letter@.len() == 1,
    ensures
        c == drive_letter(*d),
{
    chars_of(d.letter.as_str())[0]
}

fn item_drive_letter(item: &JsonValue) -> (r: Option<char>)
    ensures
        r == item_letter(*item),
{
    let text = json_text(item, "letter");
    let trimmed = trim_chars(chars_of(text.as_str()).as_slice());
    let stripped = trim_end_char_of(trimmed.as_slice(), ':');
    let l = to_ascii_uppercase(stripped.as_slice());
    proof {
        reveal(item_letter);
    }
    if l.len() == 1 && crate::text::is_ascii_alphabetic(l[0]) {
        Some(l[0])
    } else {
        None
    }
}

fn drive_info(item: &JsonValue, c: char) -> (d: DriveInfo)
    ensures
        drive_matches(d, *item, c),
        d.letter@ == seq![c],
{
    let mut letter: Vec<char> = Vec::new();
    letter.push(c);
    proof {
        assert(letter@ =~= seq![c]);
    }
    let has_windows = json_text(item, "hasWindowsInstallation");
    proof {
        reveal(drive_matches);
    }
    DriveInfo {
        letter: string_from(letter.as_slice()),
        label: json_text(item, "label"),
        filesystem: json_text(item, "filesystem"),
        size_bytes: parse_u64(chars_of(json_text(item, "sizeBytes").as_str()).as_slice()),
        free_bytes: parse_u64(chars_of(json_text(item, "freeBytes").as_str()).as_slice()),
        volume_guid: json_text(item, "volumeGuid"),
        disk_number: parse_u32(chars_of(json_text(item, "diskNumber").as_str()).as_slice()),
        partition_number: parse_u32(chars_of(json_text(item, "partitionNumber").as_str()).as_slice()),
        partition_type_guid: json_text(item, "partitionTypeGuid"),
        has_windows_installation: str_eq_ignore_ascii_case(has_windows.as_str(), "true"),
    }
}

fn volume_item_list<'a>(value: &'a JsonValue) -> (r: Option<ImageItems<'a>>)
    ensures
        r matches Some(items) ==> volume_items(*value) == Some(items_view(items)),
        r is None ==> volume_items(*value) is None,
{
    match value {
        JsonValue::Array(items) => Some(ImageItems::Many(items)),
        _ => if get_member(value, "letter").is_some() {
            Some(ImageItems::One(value))
        } else {
            None
        },
    }
}

proof fn lemma_no_letter(ds: Seq<DriveInfo>, all: Seq<JsonValue>, i: int)
    requires
        0 <= i < all.len(),
        drives_of_items(ds, all, i),
        item_letter(all[i]) is None,
    ensures
        drives_of_items(ds, all, i + 1),
{
    assert forall|k: int| #![trigger ds[k]] 0 <= k < ds.len() implies exists|j: int| 0 <= j < i + 1 && #[trigger] item_letter(all[j]) == Some(drive_letter(ds[k]))
        && (forall|t: int| 0 <= t < j ==> item_letter(all[t]) != Some(drive_letter(ds[k])))
        && drive_matches(ds[k], all[j], drive_letter(ds[k])) by {
        let j = choose|j: int| 0 <= j < i && #[trigger] item_letter(all[j]) == Some(drive_letter(ds[k]))
            && (forall|t: int| 0 <= t < j ==> item_letter(all[t]) != Some(drive_letter(ds[k])))
            && drive_matches(ds[k], all[j], drive_letter(ds[k]));
    }
}

#[verifier::spinoff_prover]
#[verifier::rlimit(40)]
proof fn lemma_known_letter(ds: Seq<DriveInfo>, all: Seq<JsonValue>, i: int, k: int)
    requires
        0 <= i < all.len(),
        0 <= k < ds.len(),
        drives_of_items(ds, all, i),
        item_letter(all[i]) == Some(drive_letter(ds[k])),
    ensures
        drives_of_items(ds, all, i + 1),
{
    assert forall|m: int| #![trigger ds[m]] 0 <= m < ds.len() implies exists|j: int| 0 <= j < i + 1 && #[trigger] item_letter(all[j]) == Some(drive_letter(ds[m]))
        && (forall|t: int| 0 <= t < j ==> item_letter(all[t]) != Some(drive_letter(ds[m])))
        && drive_matches(ds[m], all[j], drive_letter(ds[m])) by {
        let j = choose|j: int| 0 <= j < i && #[trigger] item_letter(all[j]) == Some(drive_letter(ds[m]))
            && (forall|t: int| 0 <= t < j ==> item_letter(all[t]) != Some(drive_letter(ds[m])))
            && drive_matches(ds[m], all[j], drive_letter(ds[m]));
    }
    assert forall|j: int| 0 <= j < i + 1 && (#[trigger] item_letter(all[j])) is Some implies exists|m: int| 0 <= m < ds.len()
        && item_letter(all[j]) == Some(drive_letter(ds[m])) by {
        if j == i {
            assert(item_letter(all[j]) == Some(drive_letter(ds[k])));
        }
    }
}

proof fn lemma_insert_sorted(old_ds: Seq<DriveInfo>, ds: Seq<DriveInfo>, k: int, d: DriveInfo, c: char)
    requires
        0 <= k <= old_ds.len(),
        ds == old_ds.insert(k, d),
        drive_letter(d) == c,
        forall|a: int, b: int| 0 <= a < b < old_ds.len() ==> drive_letter(old_ds[a]) < drive_letter(old_ds[b]),
        forall|m: int| 0 <= m < k ==> drive_letter(#[trigger] old_ds[m]) < c,
        k < old_ds.len() ==> drive_letter(old_ds[k]) > c,
    ensures
        forall|a: int, b: int| 0 <= a < b < ds.len() ==> drive_letter(ds[a]) < drive_letter(ds[b]),
{
    assert forall|a: int, b: int| 0 <= a < b < ds.len() implies drive_letter(ds[a]) < drive_letter(ds[b]) by {
        if b < k {
            assert(ds[a] == old_ds[a]);
            assert(ds[b] == old_ds[b]);
        } else if b == k {
            assert(ds[a] == old_ds[a]);
        } else {
            assert(ds[b] == old_ds[b - 1]);
            if b - 1 > k {
                assert(drive_letter(old_ds[k]) < drive_letter(old_ds[b - 1]));
            }
            if a < k {
                assert(ds[a] == old_ds[a]);
            } else if a > k {
                assert(ds[a] == old_ds[a - 1]);
            }
        }
    }
}

proof fn lemma_insert_first(old_ds: Seq<DriveInfo>, ds: Seq<DriveInfo>, all: Seq<JsonValue>, i: int, k: int, d: DriveInfo, c: char)
    requires
        0 <= i < all.len(),
        0 <= k <= old_ds.len(),
        drives_of_items(old_ds, all, i),
        ds == old_ds.insert(k, d),
        drive_matches(d, all[i], c),
        drive_letter(d) == c,
        item_letter(all[i]) == Some(c),
        forall|m: int| 0 <= m < k ==> drive_letter(#[trigger] old_ds[m]) < c,
        k < old_ds.len() ==> drive_letter(old_ds[k]) > c,
    ensures
        forall|m: int| #![trigger ds[m]] 0 <= m < ds.len() ==> exists|j: int| 0 <= j < i + 1 && #[trigger] item_letter(all[j]) == Some(drive_letter(ds[m]))
            && (forall|t: int| 0 <= t < j ==> item_letter(all[t]) != Some(drive_letter(ds[m])))
            && drive_matches(ds[m], all[j], drive_letter(ds[m])),
{
    assert(ds[k] == d);
    assert forall|t: int| 0 <= t < i implies item_letter(all[t]) != Some(c) by {
        if item_letter(all[t]) == Some(c) {
            let q = choose|q: int| 0 <= q < old_ds.len() && item_letter(all[t]) == Some(drive_letter(old_ds[q]));
            if q > k {
                assert(drive_letter(old_ds[k]) < drive_letter(old_ds[q]));
            }
        }
    }
    assert forall|m: int| #![trigger ds[m]] 0 <= m < ds.len() implies exists|j: int| 0 <= j < i + 1 && #[trigger] item_letter(all[j]) == Some(drive_letter(ds[m]))
        && (forall|t: int| 0 <= t < j ==> item_letter(all[t]) != Some(drive_letter(ds[m])))
        && drive_matches(ds[m], all[j], drive_letter(ds[m])) by {
        if m == k {
            assert(item_letter(all[i]) == Some(drive_letter(ds[m])));
        } else {
            let om = if m < k { m } else { m - 1 };
            assert(ds[m] == old_ds[om]);
            let j = choose|j: int| 0 <= j < i && #[trigger] item_letter(all[j]) == Some(drive_letter(old_ds[om]))
                && (forall|t: int| 0 <= t < j ==> item_letter(all[t]) != Some(drive_letter(old_ds[om])))
                && drive_matches(old_ds[om], all[j], drive_letter(old_ds[om]));
        }
    }
}

proof fn lemma_insert_complete(old_ds: Seq<DriveInfo>, ds: Seq<DriveInfo>, all: Seq<JsonValue>, i: int, k: int, d: DriveInfo, c: char)
    requires
        0 <= i < all.len(),
        0 <= k <= old_ds.len(),
        forall|j: int| 0 <= j < i && (#[trigger] item_letter(all[j])) is Some ==> exists|m: int| 0 <= m < old_ds.len()
            && item_letter(all[j]) == Some(drive_letter(old_ds[m])),
        ds == old_ds.insert(k, d),
        drive_letter(d) == c,
        item_letter(all[i]) == Some(c),
    ensures
        forall|j: int| 0 <= j < i + 1 && (#[trigger] item_letter(all[j])) is Some ==> exists|m: int| 0 <= m < ds.len()
            && item_letter(all[j]) == Some(drive_letter(ds[m])),
{
    assert forall|j: int| 0 <= j < i + 1 && (#[trigger] item_letter(all[j])) is Some implies exists|m: int| 0 <= m < ds.len()
        && item_letter(all[j]) == Some(drive_letter(ds[m])) by {
        if j == i {
            assert(ds[k] == d);
        } else {
            let q = choose|q: int| 0 <= q < old_ds.len() && item_letter(all[j]) == Some(drive_letter(old_ds[q]));
            if q < k {
                assert(ds[q] == old_ds[q]);
            } else {
                assert(ds[q + 1] == old_ds[q]);
            }
        }
    }
}

#[verifier::spinoff_prover]
#[verifier::rlimit(40)]
proof fn lemma_new_letter(old_ds: Seq<DriveInfo>, ds: Seq<DriveInfo>, all: Seq<JsonValue>, i: int, k: int, d: DriveInfo, c: char)
    requires
        0 <= i < all.len(),
        0 <= k <= old_ds.len(),
        drives_of_items(old_ds, all, i),
        ds == old_ds.insert(k, d),
        drive_matches(d, all[i], c),
        d.letter@ == seq![c],
        item_letter(all[i]) == Some(c),
        forall|m: int| 0 <= m < k ==> drive_letter(#[trigger] old_ds[m]) < c,
        k < old_ds.len() ==> drive_letter(old_ds[k]) > c,
        forall|m: int| 0 <= m < old_ds.len() ==> (#[trigger] old_ds[m]).letter@.len() == 1,
    ensures
        drives_of_items(ds, all, i + 1),
        forall|m: int| 0 <= m < ds.len() ==> (#[trigger] ds[m]).letter@.len() == 1,
{
    assert(drive_letter(d) == c);
    assert forall|m: int| 0 <= m < ds.len() implies (#[trigger] ds[m]).letter@.len() == 1 by {
        if m < k {
            assert(ds[m] == old_ds[m]);
        } else if m > k {
            assert(ds[m] == old_ds[m - 1]);
        }
    }
    lemma_insert_sorted(old_ds, ds, k, d, c);
    lemma_insert_first(old_ds, ds, all, i, k, d, c);
    lemma_insert_complete(old_ds, ds, all, i, k, d, c);
}

/// Each listed drive carries the fields of the volume object it was read
/// from, each from the member of the same name: its letter is that object's
/// letter, its volume GUID the `volumeGuid` text, its partition type the
/// `partitionTypeGuid` text, its label, file system, sizes, numbers and
/// Windows flag likewise.
pub proof fn lemma_listed_drive_fields(ds: Seq<DriveInfo>, items: Seq<JsonValue>, n: int, k: int)
    requires
        drives_of_items(ds, items, n),
        0 <= k < ds.len(),
    ensures
        exists|i: int| #![trigger items[i]] 0 <= i < n && {
            let item = items[i];
            &&& item_letter(item) == Some(drive_letter(ds[k]))
            &&& ds[k].letter@ == seq![drive_letter(ds[k])]
            &&& ds[k].volume_guid@ == text_of(item, "volumeGuid"@)
            &&& ds[k].partition_type_guid@ == text_of(item, "partitionTypeGuid"@)
            &&& ds[k].label@ == text_of(item, "label"@)
            &&& ds[k].filesystem@ == text_of(item, "filesystem"@)
            &&& ds[k].size_bytes == parse_u64_spec(text_of(item, "sizeBytes"@))
            &&& ds[k].free_bytes == parse_u64_spec(text_of(item, "freeBytes"@))
            &&& ds[k].disk_number == parse_u32_spec(text_of(item, "diskNumber"@))
            &&& ds[k].partition_number == parse_u32_spec(text_of(item, "partitionNumber"@))
            &&& ds[k].has_windows_installation == eq_ic(text_of(item, "hasWindowsInstallation"@), "true"@)
        },
{
    let d = ds[k];
    let i = choose|i: int| 0 <= i < n && #[trigger] item_letter(items[i]) == Some(drive_letter(d))
        && (forall|j: int| 0 <= j < i ==> item_letter(items[j]) != Some(drive_letter(d)))
        && drive_matches(d, items[i], drive_letter(d));
    reveal(drive_matches);
    assert(items[i] == items[i]);
}

/// A volume object's letter is its `letter` text, trimmed, without trailing
/// colons, in upper case: a single ASCII letter, or none.
pub proof fn lemma_item_letter_is_the_letter_text(item: JsonValue)
    ensures
        item_letter(item) matches Some(c) ==> is_alpha(c)
            && upper_seq(trim_end_char(trim(text_of(item, "letter"@)), ':')) == seq![c],
{
    reveal(item_letter);
    if item_letter(item) is Some {
        let l = upper_seq(trim_end_char(trim(text_of(item, "letter"@)), ':'));
        assert(l =~= seq![l[0]]);
    }
}

/// Each image read from a WIM report carries the fields of its item, each
/// from the member of the same name: the index is the `ImageIndex` number
/// (never 0), the size the `ImageSize` number where it is one, and name,
/// description, version, architecture, edition and installation type the
/// texts of `ImageName`, `ImageDescription`, `ImageVersion`,
/// `Architecture`, `EditionId` and `InstallationType`.
pub proof fn lemma_image_fields(info: WimImageInfo, item: JsonValue)
    requires
        image_matches(info, item),
    ensures
        parse_u32_spec(text_of(item, "ImageIndex"@)) == Some(info.index),
        info.index != 0,
        info.size_bytes == parse_u64_spec(text_of(item, "ImageSize"@)),
        info.name@ == text_of(item, "ImageName"@),
        info.description@ == text_of(item, "ImageDescription"@),
        info.version@ == text_of(item, "ImageVersion"@),
        info.architecture@ == text_of(item, "Architecture"@),
        info.edition@ == text_of(item, "EditionId"@),
        info.installation_type@ == text_of(item, "InstallationType"@),
{
}

/// The mounted volumes of a volume listing, one per drive letter in
/// ascending order (the first object naming a letter wins); objects without
/// a single ASCII letter are skipped, and a listing with none is refused.
#[verifier::spinoff_prover]
#[verifier::rlimit(40)]
pub fn drive_infos(value: &JsonValue) -> (r: Result<Vec<DriveInfo>, String>)
    ensures
        r matches Ok(ds) ==> volume_items(*value) matches Some(items) && drives_of_items(ds@, items, items.len() as int)
            && ds@.len() > 0,
        r is Err ==> volume_items(*value) is None || (volume_items(*value) matches Some(items)
            && forall|i: int| 0 <= i < items.len() ==> (#[trigger] item_letter(items[i])) is None),
        r matches Err(m) ==> (volume_items(*value) is None ==> m@ == "volume metadata did not return a volume object or array"@)
            && (volume_items(*value) is Some ==> m@ == "no eligible mounted volumes were returned"@),
{
    let items = match volume_item_list(value) {
        Some(items) => items,
        None => return Err(owned("volume metadata did not return a volume object or array")),
    };
    let ghost all = items_view(items);
    let n = items_len(&items);
    let mut ds: Vec<DriveInfo> = Vec::new();
    for i in 0..n
        invariant
            n == all.len(),
            all == items_view(items),
            drives_of_items(ds@, all, i as int),
            forall|k: int| 0 <= k < ds@.len() ==> (#[trigger] ds@[k]).letter@.len() == 1,
    {
        let item = item_at(&items, i);
        match item_drive_letter(item) {
            None => {},
            Some(c) => {
                let mut k: usize = 0;
                while k < ds.len() && letter_char(&ds[k]) < c
                    invariant
                        k <= ds@.len(),
                        forall|m: int| 0 <= m < k ==> drive_letter(#[trigger] ds@[m]) < c,
                        forall|m: int| 0 <= m < ds@.len() ==> (#[trigger] ds@[m]).letter@.len() == 1,
                    decreases ds@.len() - k,
                {
                    k = k + 1;
                }
                if k < ds.len() && letter_char(&ds[k]) == c {
                    proof {
                        lemma_known_letter(ds@, all, i as int, k as int);
                    }
                } else {
                    let d = drive_info(item, c);
                    let ghost old_ds = ds@;
                    ds.insert(k, d);
                    proof {
                        lemma_new_letter(old_ds, ds@, all, i as int, k as int, d, c);
                    }
                }
            },
        }
        proof {
            if item_letter(all[i as int]) is None {
                lemma_no_letter(ds@, all, i as int);
            }
        }
    }
    if ds.len() == 0 {
        proof {
            assert forall|i: int| 0 <= i < all.len() implies (#[trigger] item_letter(all[i])) is None by {
                if item_letter(all[i]) is Some {
                    let q = choose|q: int| 0 <= q < ds@.len() && item_letter(all[i]) == Some(drive_letter(ds@[q]));
                }
            }
        }
        return Err(owned("no eligible mounted volumes were returned"));
    }
    Ok(ds)
}

/// The `ImageIndex` numbers of a WIM listing (an array of image objects, or
/// one object), in order; an item whose index is no unsigned integer gives
/// none.
pub open spec fn reported_indexes(items: Seq<JsonValue>) -> Seq<u64>
    decreases items.len(),
{
    if items.len() == 0 {
        Seq::empty()
    } else {
        match member(items.last(), "ImageIndex"@) {
            Some(JsonValue::Number(JsonNumber::Unsigned(n))) => reported_indexes(items.drop_last()).push(n),
            _ => reported_indexes(items.drop_last()),
        }
    }
}

pub open spec fn listing_items(v: JsonValue) -> Seq<JsonValue> {
    match v {
        JsonValue::Array(items) => items@,
        _ => seq![v],
    }
}

pub fn image_index_numbers(value: &JsonValue) -> (r: Vec<u64>)
    ensures
        r@ == reported_indexes(listing_items(*value)),
{
    let items = match value {
        JsonValue::Array(items) => ImageItems::Many(items),
        _ => ImageItems::One(value),
    };
    let ghost all = items_view(items);
    let n = items_len(&items);
    let mut r: Vec<u64> = Vec::new();
    for i in 0..n
        invariant
            n == all.len(),
            all == items_view(items),
            all == listing_items(*value),
            r@ == reported_indexes(all.take(i as int)),
    {
        let item = item_at(&items, i);
        proof {
            assert(all.take(i + 1).drop_last() =~= all.take(i as int));
            assert(all.take(i + 1).last() == *item);
        }
        match get_member(item, "ImageIndex") {
            Some(JsonValue::Number(JsonNumber::Unsigned(k))) => r.push(*k),
            _ => {},
        }
    }
    proof {
        assert(all.take(n as int) =~= all);
    }
    r
}

} // verus!
