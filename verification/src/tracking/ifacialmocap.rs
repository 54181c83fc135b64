//! The tracking source that streams text frames over TCP.
//!
//! A frame is a status section and a coordinate section with `=` between
//! them. The status section is a list of `key-value` pairs separated by `|`;
//! the coordinate section is a list of groups separated by `|`, each a name,
//! `#` and numbers separated by `,`.

use crate::decimal::{is_decimal, is_decimal_literal, parse_i16, parsed_i16};
use crate::text::{
    copy_range, ends_with, finishes_with, pieces_of, same, split, split_on, starts_with,
    begins_with, to_chars, to_text, trim, trimmed,
};
use crate::tracking::response::{
    readable, Cords, CordsView, FrameView, Numeral, NumeralView, Shape, ShapeView,
    TrackingResponse,
};
use vstd::prelude::*;
use vstd::string::{StringExecFns, StringSliceAdditionalSpecFns};
use vstd::utf8::{decode_utf8, encode_utf8_decode_utf8, valid_utf8};

verus! {

/// The tracking source that sends a handshake datagram and then takes in a
/// text stream.
#[derive(Clone, Copy, Debug)]
pub struct IFacialMocapTrackingClinet;

/// The datagram that asks the tracker to open its stream.
pub const HANDSHAKE: &'static str = "iFacialMocap_UDPTCP_sahuasouryya9218sauhuiayeta91555dy3719";

/// The tracker's port for the handshake.
pub const HANDSHAKE_PORT: u16 = 49983;

/// The tracker's port for the handshake, as it stands in an address.
pub const HANDSHAKE_PORT_SUFFIX: &'static str = ":49983";

impl IFacialMocapTrackingClinet {
    /// The address to which the handshake goes.
    pub fn handshake_address(ip: &str) -> (address: String)
        ensures
            address@ == ip@ + HANDSHAKE_PORT_SUFFIX@,
    {
        String::from_str(ip).concat(HANDSHAKE_PORT_SUFFIX)
    }
}

/// The local port on which the stream is taken in.
pub const STREAM_PORT: u16 = 49986;

/// The status key that says whether a face is in view.
pub const FACE_STATUS_KEY: &'static str = "___iFacialMocaptrackingStatus";

/// The prefix of status keys that are not blend shapes.
pub const RESERVED_PREFIX: &'static str = "___";

/// Why a frame was turned down.
#[derive(Clone, Copy, Debug, PartialEq, Eq, Structural)]
pub enum FrameError {
    /// The payload is not exactly two sections with `=` between them.
    Sections,
    /// A status pair has a value that is no 16-bit number.
    StatusValue,
    /// One of the first three coordinate groups is missing, has no values,
    /// holds something that is no number, or has too few numbers.
    Coordinates,
    /// The status section does not say whether a face is in view.
    FaceStatus,
    /// The payload is not well-formed UTF-8.
    Encoding,
}

/// The upper-case form of a character: what `char::to_uppercase` yields.
pub uninterp spec fn uppercase_of(c: char) -> Seq<char>;

/// `char::to_uppercase`: the standard library's upper-case mapping of one
/// character, which may be several characters long, named here by
/// [`uppercase_of`].
#[verifier::external_body]
fn uppercase(c: char) -> (upper: Vec<char>)
    ensures
        upper@ == uppercase_of(c),
{
    c.to_uppercase().collect()
}

/// A text with its first character in upper case.
pub open spec fn capitalized(text: Seq<char>) -> Seq<char> {
    if text.len() == 0 {
        text
    } else {
        uppercase_of(text[0]) + text.drop_first()
    }
}

fn capitalize(text: &[char]) -> (out: Vec<char>)
    ensures
        out@ == capitalized(text@),
{
    if text.len() == 0 {
        return Vec::new();
    }
    let mut out = uppercase(text[0]);
    let mut rest = copy_range(text, 1, text.len());
    assert(text@.subrange(1, text@.len() as int) =~= text@.drop_first());
    out.append(&mut rest);
    out
}

/// Puts the first character of a text in upper case.
pub fn capitalize_first_letter(string: &str) -> (out: String)
    ensures
        out@ == capitalized(string@),
{
    let chars = to_chars(string);
    let out = capitalize(chars.as_slice());
    to_text(out.as_slice())
}

/// A status key as the frame names it: capitalized, and with a closing `_L`
/// or `_R` written out as `Left` or `Right`. The key that reports the face
/// status keeps its spelling.
pub open spec fn normalized_key(raw: Seq<char>) -> Seq<char> {
    let key = capitalized(raw);
    if key == FACE_STATUS_KEY@ {
        key
    } else if ends_with(key, "_L"@) {
        key.take(key.len() - 2) + "Left"@
    } else if ends_with(key, "_R"@) {
        key.take(key.len() - 2) + "Right"@
    } else {
        key
    }
}

fn normalize_key(raw: &[char]) -> (key: Vec<char>)
    ensures
        key@ == normalized_key(raw@),
{
    let key = capitalize(raw);
    let face_status = to_chars(FACE_STATUS_KEY);
    if same(key.as_slice(), face_status.as_slice()) {
        return key;
    }
    let left_mark = to_chars("_L");
    let right_mark = to_chars("_R");
    let is_left = finishes_with(key.as_slice(), left_mark.as_slice());
    let is_right = finishes_with(key.as_slice(), right_mark.as_slice());
    if is_left || is_right {
        proof {
            reveal_strlit("_L");
            reveal_strlit("_R");
        }
        let mut out = copy_range(key.as_slice(), 0, key.len() - 2);
        let mut word = if is_left {
            to_chars("Left")
        } else {
            to_chars("Right")
        };
        out.append(&mut word);
        assert(key@.subrange(0, key@.len() - 2) =~= key@.take(key@.len() - 2));
        out
    } else {
        key
    }
}

/// Whether a table of status values has an entry under `key`.
pub open spec fn has_key(table: Seq<(Seq<char>, i16)>, key: Seq<char>) -> bool {
    exists|i: int| 0 <= i < table.len() && (#[trigger] table[i]).0 == key
}

/// The index of the entry under `key`.
pub open spec fn key_index(table: Seq<(Seq<char>, i16)>, key: Seq<char>) -> int
    recommends
        has_key(table, key),
{
    choose|i: int| 0 <= i < table.len() && (#[trigger] table[i]).0 == key
}

/// Whether no key has two entries.
pub open spec fn distinct_keys(table: Seq<(Seq<char>, i16)>) -> bool {
    forall|i: int, j: int|
        0 <= i < j < table.len() ==> (#[trigger] table[i]).0 != (#[trigger] table[j]).0
}

/// The table with `value` under `key`: in the place of the entry that `key`
/// had, or, if it had none, at the end.
pub open spec fn upsert(table: Seq<(Seq<char>, i16)>, key: Seq<char>, value: i16) -> Seq<
    (Seq<char>, i16),
> {
    if has_key(table, key) {
        table.update(key_index(table, key), (key, value))
    } else {
        table.push((key, value))
    }
}

/// The table after one more item of the status section. An item that is not
/// a key and a value with one `-` between them changes nothing; a value that
/// is no number spoils the table.
pub open spec fn absorbed(table: Option<Seq<(Seq<char>, i16)>>, item: Seq<char>) -> Option<
    Seq<(Seq<char>, i16)>,
> {
    match table {
        None => None,
        Some(entries) => {
            let pair = split(item, '-');
            if pair.len() != 2 {
                Some(entries)
            } else {
                match parsed_i16(pair[1]) {
                    None => None,
                    Some(value) => Some(upsert(entries, normalized_key(pair[0]), value)),
                }
            }
        },
    }
}

/// The table of status values that the items of a status section give, each
/// key once, a later value replacing an earlier one; `None` where some value
/// is no number.
pub open spec fn status_table(items: Seq<Seq<char>>) -> Option<Seq<(Seq<char>, i16)>>
    decreases items.len(),
{
    if items.len() == 0 {
        Some(Seq::empty())
    } else {
        absorbed(status_table(items.drop_last()), items.last())
    }
}

/// Putting a value under a key keeps every key at one entry.
pub proof fn lemma_upsert_keeps_keys_distinct(
    table: Seq<(Seq<char>, i16)>,
    key: Seq<char>,
    value: i16,
)
    requires
        distinct_keys(table),
    ensures
        distinct_keys(upsert(table, key, value)),
        has_key(upsert(table, key, value), key),
        upsert(table, key, value)[key_index(upsert(table, key, value), key)].1 == value,
{
    let after = upsert(table, key, value);
    if has_key(table, key) {
        let at = key_index(table, key);
        assert(after[at].0 == key);
    } else {
        assert(after[table.len() as int].0 == key);
    }
    let found = key_index(after, key);
    assert(after[found].0 == key);
}

/// A status table has each of its keys once.
pub proof fn lemma_status_table_keys_distinct(items: Seq<Seq<char>>)
    ensures
        status_table(items) matches Some(table) ==> distinct_keys(table),
    decreases items.len(),
{
    if items.len() > 0 {
        lemma_status_table_keys_distinct(items.drop_last());
        if let Some(entries) = status_table(items.drop_last()) {
            let pair = split(items.last(), '-');
            if pair.len() == 2 {
                if let Some(value) = parsed_i16(pair[1]) {
                    lemma_upsert_keeps_keys_distinct(entries, normalized_key(pair[0]), value);
                }
            }
        }
    }
}

/// The blend shape that a status entry stands for, if it is one.
pub open spec fn shape_of(entry: (Seq<char>, i16)) -> Option<ShapeView> {
    if starts_with(entry.0, RESERVED_PREFIX@) {
        None
    } else {
        Some(ShapeView { k: entry.0, v: NumeralView::Percent(entry.1) })
    }
}

/// The blend shapes that a status table gives, in the table's order.
pub open spec fn status_shapes_of(table: Seq<(Seq<char>, i16)>) -> Seq<ShapeView> {
    table.filter_map(|entry: (Seq<char>, i16)| shape_of(entry))
}

/// The numbers of a coordinate group: what stands between the first `#` and
/// the second, cut at each `,`. `None` where the group has no `#`, or one of
/// the pieces is no decimal literal.
pub open spec fn group_values(group: Seq<char>) -> Option<Seq<Seq<char>>> {
    let parts = split(group, '#');
    if parts.len() < 2 {
        None
    } else {
        let tokens = split(parts[1], ',');
        if forall|i: int| 0 <= i < tokens.len() ==> is_decimal_literal(#[trigger] tokens[i]) {
            Some(tokens)
        } else {
            None
        }
    }
}

/// A synthetic blend shape that carries one eye coordinate.
pub open spec fn eye_shape(name: Seq<char>, token: Seq<char>) -> ShapeView {
    ShapeView { k: name, v: NumeralView::Decimal(token) }
}

/// Three coordinates from three written-out numbers.
pub open spec fn cords_of(x: Seq<char>, y: Seq<char>, z: Seq<char>) -> CordsView {
    CordsView {
        x: NumeralView::Decimal(x),
        y: NumeralView::Decimal(y),
        z: NumeralView::Decimal(z),
    }
}

/// The frame that the parts of a payload make up. The first two head values
/// trade places on their way into the rotation; the blend shapes are the
/// status entries outside the reserved names, then the right eye's three
/// coordinates and the left eye's, where `LeftEyeZ` repeats the left eye's
/// first coordinate.
pub open spec fn assembled(
    table: Seq<(Seq<char>, i16)>,
    head: Seq<Seq<char>>,
    right: Seq<Seq<char>>,
    left: Seq<Seq<char>>,
    timestamp: u64,
) -> FrameView {
    FrameView {
        timestamp,
        hotkey: 0,
        face_found: table[key_index(table, FACE_STATUS_KEY@)].1 == 1,
        rotation: cords_of(head[1], head[0], head[2]),
        position: cords_of(head[3], head[4], head[5]),
        eye_left: cords_of(left[0], left[1], left[2]),
        blend_shapes: status_shapes_of(table) + seq![
            eye_shape("RightEyeX"@, right[0]),
            eye_shape("RightEyeY"@, right[1]),
            eye_shape("RightEyeZ"@, right[2]),
            eye_shape("LeftEyeX"@, left[0]),
            eye_shape("LeftEyeY"@, left[1]),
            eye_shape("LeftEyeZ"@, left[0]),
        ],
    }
}

/// What a payload says: the frame, or the first reason to turn it down.
pub open spec fn frame_of(payload: Seq<char>, timestamp: u64) -> Result<FrameView, FrameError> {
    let sections = split(payload, '=');
    if sections.len() != 2 {
        Err(FrameError::Sections)
    } else {
        match status_table(split(trimmed(sections[0]), '|')) {
            None => Err(FrameError::StatusValue),
            Some(table) => {
                let groups = split(trimmed(sections[1]), '|');
                if groups.len() < 3 {
                    Err(FrameError::Coordinates)
                } else {
                    match (
                        group_values(groups[0]),
                        group_values(groups[1]),
                        group_values(groups[2]),
                    ) {
                        (Some(head), Some(right), Some(left)) => {
                            if head.len() < 6 || right.len() < 3 || left.len() < 3 {
                                Err(FrameError::Coordinates)
                            } else if !has_key(table, FACE_STATUS_KEY@) {
                                Err(FrameError::FaceStatus)
                            } else {
                                Ok(assembled(table, head, right, left, timestamp))
                            }
                        },
                        _ => Err(FrameError::Coordinates),
                    }
                }
            },
        }
    }
}

/// Whether each of three coordinates can be read as a number.
pub open spec fn readable_cords(cords: CordsView) -> bool {
    readable(cords.x) && readable(cords.y) && readable(cords.z)
}

/// Every number of a frame that was not turned down can be read.
pub proof fn lemma_frame_is_readable(payload: Seq<char>, timestamp: u64)
    ensures
        frame_of(payload, timestamp) matches Ok(frame) ==> {
            &&& readable_cords(frame.rotation)
            &&& readable_cords(frame.position)
            &&& readable_cords(frame.eye_left)
            &&& forall|i: int|
                0 <= i < frame.blend_shapes.len() ==> readable(#[trigger] frame.blend_shapes[i].v)
        },
{
    if let Ok(frame) = frame_of(payload, timestamp) {
        let sections = split(payload, '=');
        let table = status_table(split(trimmed(sections[0]), '|'))->0;
        let from_status = status_shapes_of(table);
        lemma_status_shapes_are_percents(table);
        assert forall|i: int| 0 <= i < frame.blend_shapes.len() implies readable(
            #[trigger] frame.blend_shapes[i].v,
        ) by {
            if i < from_status.len() {
                assert(frame.blend_shapes[i] == from_status[i]);
            }
        }
    }
}

/// The blend shapes that come from the status section are whole numbers of
/// hundredths.
proof fn lemma_status_shapes_are_percents(table: Seq<(Seq<char>, i16)>)
    ensures
        forall|i: int|
            0 <= i < status_shapes_of(table).len() ==> (#[trigger] status_shapes_of(table)[i]).v
                is Percent,
    decreases table.len(),
{
    if table.len() > 0 {
        lemma_status_shapes_are_percents(table.drop_last());
    }
}

/// One entry of the status table.
struct StatusEntry {
    key: Vec<char>,
    value: i16,
}

spec fn table_of(entries: Seq<StatusEntry>) -> Seq<(Seq<char>, i16)> {
    entries.map_values(|entry: StatusEntry| (entry.key@, entry.value))
}

fn find_key(table: &Vec<StatusEntry>, key: &[char]) -> (found: Option<usize>)
    requires
        distinct_keys(table_of(table@)),
    ensures
        match found {
            Some(i) => has_key(table_of(table@), key@) && i == key_index(table_of(table@), key@),
            None => !has_key(table_of(table@), key@),
        },
{
    let ghost entries = table_of(table@);
    let mut i: usize = 0;
    while i < table.len()
        invariant
            i <= table@.len(),
            entries == table_of(table@),
            distinct_keys(entries),
            forall|j: int| 0 <= j < i ==> (#[trigger] entries[j]).0 != key@,
        decreases table@.len() - i,
    {
        if same(table[i].key.as_slice(), key) {
            assert(entries[i as int].0 == key@);
            return Some(i);
        }
        i += 1;
    }
    None
}

fn put(table: &mut Vec<StatusEntry>, key: Vec<char>, value: i16)
    requires
        distinct_keys(table_of(old(table)@)),
    ensures
        distinct_keys(table_of(final(table)@)),
        table_of(final(table)@) == upsert(table_of(old(table)@), key@, value),
{
    let ghost before = table_of(table@);
    match find_key(table, key.as_slice()) {
        Some(i) => {
            table.set(i, StatusEntry { key, value });
            assert(table_of(table@) =~= before.update(i as int, (key@, value)));
        },
        None => {
            table.push(StatusEntry { key, value });
            assert(table_of(table@) =~= before.push((key@, value)));
        },
    }
}

fn read_status(items: &Vec<Vec<char>>) -> (table: Option<Vec<StatusEntry>>)
    ensures
        match table {
            Some(entries) => status_table(pieces_of(items@)) == Some(table_of(entries@))
                && distinct_keys(table_of(entries@)),
            None => status_table(pieces_of(items@)) is None,
        },
{
    let ghost all = pieces_of(items@);
    let mut table: Vec<StatusEntry> = Vec::new();
    let mut i: usize = 0;
    assert(table_of(table@) =~= Seq::empty());
    while i < items.len()
        invariant
            i <= items@.len(),
            all == pieces_of(items@),
            distinct_keys(table_of(table@)),
            status_table(all.take(i as int)) == Some(table_of(table@)),
        decreases items@.len() - i,
    {
        assert(all.take(i + 1).drop_last() =~= all.take(i as int));
        assert(all.take(i + 1).last() == items@[i as int]@);
        let pair = split_on(items[i].as_slice(), '-');
        if pair.len() == 2 {
            assert(pieces_of(pair@)[0] == pair@[0]@);
            assert(pieces_of(pair@)[1] == pair@[1]@);
            match parse_i16(pair[1].as_slice()) {
                None => {
                    proof {
                        lemma_spoiled_stays_spoiled(all, i + 1);
                    }
                    return None;
                },
                Some(value) => {
                    let key = normalize_key(pair[0].as_slice());
                    put(&mut table, key, value);
                },
            }
        }
        i += 1;
    }
    assert(all.take(all.len() as int) =~= all);
    Some(table)
}

/// Once a value has spoiled the table, later items do not mend it.
proof fn lemma_spoiled_stays_spoiled(items: Seq<Seq<char>>, upto: int)
    requires
        0 <= upto <= items.len(),
        status_table(items.take(upto)) is None,
    ensures
        status_table(items) is None,
    decreases items.len(),
{
    if upto == items.len() {
        assert(items.take(upto) =~= items);
    } else {
        assert(items.drop_last().take(upto) =~= items.take(upto));
        lemma_spoiled_stays_spoiled(items.drop_last(), upto);
    }
}

fn read_group(group: &[char]) -> (values: Option<(Vec<char>, Vec<Vec<char>>)>)
    ensures
        match values {
            Some((name, tokens)) => group_values(group@) == Some(pieces_of(tokens@)) && name@
                == split(group@, '#')[0],
            None => group_values(group@) is None,
        },
{
    let mut parts = split_on(group, '#');
    if parts.len() < 2 {
        return None;
    }
    assert(pieces_of(parts@)[0] == parts@[0]@);
    assert(pieces_of(parts@)[1] == parts@[1]@);
    let tokens = split_on(parts[1].as_slice(), ',');
    let mut i: usize = 0;
    while i < tokens.len()
        invariant
            i <= tokens@.len(),
            parts@.len() >= 2,
            pieces_of(parts@) == split(group@, '#'),
            pieces_of(tokens@) == split(pieces_of(parts@)[1], ','),
            forall|j: int| 0 <= j < i ==> is_decimal_literal(#[trigger] pieces_of(tokens@)[j]),
        decreases tokens@.len() - i,
    {
        assert(pieces_of(tokens@)[i as int] == tokens@[i as int]@);
        if !is_decimal(tokens[i].as_slice()) {
            return None;
        }
        i += 1;
    }
    let name = parts.swap_remove(0);
    Some((name, tokens))
}

/// The name and the numbers of one coordinate group. The numbers are what
/// stands between the first `#` and the second, cut at each `,`; the group
/// is turned down where it has no `#` or one of the numbers is no decimal
/// literal.
pub fn get_coordinate_values(part: &str) -> (values: Result<(String, Vec<String>), FrameError>)
    ensures
        match values {
            Ok((name, tokens)) => group_values(part@) == Some(
                tokens@.map_values(|token: String| token@),
            ) && name@ == split(part@, '#')[0],
            Err(e) => group_values(part@) is None && e == FrameError::Coordinates,
        },
{
    let chars = to_chars(part);
    match read_group(chars.as_slice()) {
        None => Err(FrameError::Coordinates),
        Some((name, tokens)) => {
            let mut texts: Vec<String> = Vec::new();
            let mut i: usize = 0;
            while i < tokens.len()
                invariant
                    i <= tokens@.len(),
                    texts@.map_values(|token: String| token@) == pieces_of(tokens@).take(i as int),
                decreases tokens@.len() - i,
            {
                let ghost before = texts@.map_values(|token: String| token@);
                texts.push(to_text(tokens[i].as_slice()));
                assert(texts@.map_values(|token: String| token@) =~= before.push(
                    tokens@[i as int]@,
                ));
                assert(pieces_of(tokens@).take(i + 1) =~= pieces_of(tokens@).take(i as int).push(
                    tokens@[i as int]@,
                ));
                i += 1;
            }
            assert(pieces_of(tokens@).take(tokens@.len() as int) =~= pieces_of(tokens@));
            Ok((to_text(name.as_slice()), texts))
        },
    }
}

fn written(token: &Vec<char>) -> (numeral: Numeral)
    ensures
        numeral@ == NumeralView::Decimal(token@),
{
    Numeral::Decimal(to_text(token.as_slice()))
}

fn cords(x: &Vec<char>, y: &Vec<char>, z: &Vec<char>) -> (out: Cords<Numeral>)
    ensures
        out@ == cords_of(x@, y@, z@),
{
    Cords { x: written(x), y: written(y), z: written(z) }
}

fn eye(name: &str, token: &Vec<char>) -> (shape: Shape<Numeral>)
    ensures
        shape@ == eye_shape(name@, token@),
{
    let name_chars = to_chars(name);
    Shape { k: to_text(name_chars.as_slice()), v: written(token) }
}

spec fn shapes_view(shapes: Seq<Shape<Numeral>>) -> Seq<ShapeView> {
    shapes.map_values(|shape: Shape<Numeral>| shape@)
}

fn status_shapes(table: &Vec<StatusEntry>) -> (shapes: Vec<Shape<Numeral>>)
    ensures
        shapes_view(shapes@) == status_shapes_of(table_of(table@)),
{
    let ghost entries = table_of(table@);
    let ghost pick = |entry: (Seq<char>, i16)| shape_of(entry);
    let reserved = to_chars(RESERVED_PREFIX);
    let mut shapes: Vec<Shape<Numeral>> = Vec::new();
    let mut i: usize = 0;
    assert(shapes_view(shapes@) =~= entries.take(0).filter_map(pick));
    while i < table.len()
        invariant
            i <= table@.len(),
            entries == table_of(table@),
            reserved@ == RESERVED_PREFIX@,
            pick == |entry: (Seq<char>, i16)| shape_of(entry),
            shapes_view(shapes@) == entries.take(i as int).filter_map(pick),
        decreases table@.len() - i,
    {
        let ghost before = shapes_view(shapes@);
        assert(entries.take(i + 1).drop_last() =~= entries.take(i as int));
        assert(entries.take(i + 1).last() == entries[i as int]);
        if !begins_with(table[i].key.as_slice(), reserved.as_slice()) {
            let shape = Shape {
                k: to_text(table[i].key.as_slice()),
                v: Numeral::Percent(table[i].value),
            };
            shapes.push(shape);
            assert(shapes_view(shapes@) =~= before + seq![shape@]);
        }
        i += 1;
    }
    assert(entries.take(entries.len() as int) =~= entries);
    shapes
}

/// Reads one frame payload. `timestamp` is the time to stamp the frame
/// with.
pub fn parse_tracking_string(string: &str, timestamp: u64) -> (frame: Result<
    TrackingResponse<Numeral>,
    FrameError,
>)
    ensures
        match frame {
            Ok(f) => frame_of(string@, timestamp) == Ok::<FrameView, FrameError>(f@),
            Err(e) => frame_of(string@, timestamp) == Err::<FrameView, FrameError>(e),
        },
{
    let payload = to_chars(string);
    let sections = split_on(payload.as_slice(), '=');
    if sections.len() != 2 {
        return Err(FrameError::Sections);
    }
    assert(pieces_of(sections@)[0] == sections@[0]@);
    assert(pieces_of(sections@)[1] == sections@[1]@);
    let status = trim(sections[0].as_slice());
    let items = split_on(status.as_slice(), '|');
    let table = match read_status(&items) {
        None => {
            return Err(FrameError::StatusValue);
        },
        Some(table) => table,
    };
    let coordinates = trim(sections[1].as_slice());
    let groups = split_on(coordinates.as_slice(), '|');
    if groups.len() < 3 {
        return Err(FrameError::Coordinates);
    }
    assert(pieces_of(groups@)[0] == groups@[0]@);
    assert(pieces_of(groups@)[1] == groups@[1]@);
    assert(pieces_of(groups@)[2] == groups@[2]@);
    let head = match read_group(groups[0].as_slice()) {
        None => {
            return Err(FrameError::Coordinates);
        },
        Some((_, head)) => head,
    };
    let right = match read_group(groups[1].as_slice()) {
        None => {
            return Err(FrameError::Coordinates);
        },
        Some((_, right)) => right,
    };
    let left = match read_group(groups[2].as_slice()) {
        None => {
            return Err(FrameError::Coordinates);
        },
        Some((_, left)) => left,
    };
    if head.len() < 6 || right.len() < 3 || left.len() < 3 {
        return Err(FrameError::Coordinates);
    }
    let face_status = to_chars(FACE_STATUS_KEY);
    let face_found = match find_key(&table, face_status.as_slice()) {
        None => {
            return Err(FrameError::FaceStatus);
        },
        Some(i) => table[i].value == 1,
    };
    assert(forall|i: int| 0 <= i < head@.len() ==> pieces_of(head@)[i] == (#[trigger] head@[i])@);
    assert(forall|i: int|
        0 <= i < right@.len() ==> pieces_of(right@)[i] == (#[trigger] right@[i])@);
    assert(forall|i: int| 0 <= i < left@.len() ==> pieces_of(left@)[i] == (#[trigger] left@[i])@);
    let mut blend_shapes = status_shapes(&table);
    let ghost from_status = shapes_view(blend_shapes@);
    blend_shapes.push(eye("RightEyeX", &right[0]));
    blend_shapes.push(eye("RightEyeY", &right[1]));
    blend_shapes.push(eye("RightEyeZ", &right[2]));
    blend_shapes.push(eye("LeftEyeX", &left[0]));
    blend_shapes.push(eye("LeftEyeY", &left[1]));
    blend_shapes.push(eye("LeftEyeZ", &left[0]));
    let frame = TrackingResponse {
        timestamp,
        hotkey: 0,
        face_found,
        rotation: cords(&head[1], &head[0], &head[2]),
        position: cords(&head[3], &head[4], &head[5]),
        eye_left: cords(&left[0], &left[1], &left[2]),
        blend_shapes,
    };
    assert(frame@.blend_shapes =~= from_status + seq![
        eye_shape("RightEyeX"@, right@[0]@),
        eye_shape("RightEyeY"@, right@[1]@),
        eye_shape("RightEyeZ"@, right@[2]@),
        eye_shape("LeftEyeX"@, left@[0]@),
        eye_shape("LeftEyeY"@, left@[1]@),
        eye_shape("LeftEyeZ"@, left@[0]@),
    ]);
    Ok(frame)
}

/// What a payload of bytes says: what its text says, where it is text.
pub open spec fn frame_of_bytes(payload: Seq<u8>, timestamp: u64) -> Result<
    FrameView,
    FrameError,
> {
    if valid_utf8(payload) {
        frame_of(decode_utf8(payload), timestamp)
    } else {
        Err(FrameError::Encoding)
    }
}

/// Reads one frame payload as the stream delivered it.
pub fn decode_frame(payload: &[u8], timestamp: u64) -> (frame: Result<
    TrackingResponse<Numeral>,
    FrameError,
>)
    ensures
        match frame {
            Ok(f) => frame_of_bytes(payload@, timestamp) == Ok::<FrameView, FrameError>(f@),
            Err(e) => frame_of_bytes(payload@, timestamp) == Err::<FrameView, FrameError>(e),
        },
{
    match core::str::from_utf8(payload) {
        Ok(text) => {
            proof {
                encode_utf8_decode_utf8(text@);
            }
            parse_tracking_string(text, timestamp)
        },
        Err(_) => Err(FrameError::Encoding),
    }
}

} // verus!
