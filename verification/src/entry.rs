//! Stored programs: their content, their modification time, and the text
//! that stands for both in the backend.

use crate::json::{
    as_int, as_items, as_text, json_int, json_items, json_member, json_parse, json_quoted,
    json_text, member, parse, quote,
};
use crate::text::{decimal, push_decimal};
use crate::timestamp::Timestamp;
use vstd::prelude::*;
use vstd::string::StringExecFns;

verus! {

/// Version of the schema that stored entries are written in.
pub const VERSION: u16 = 1;

/// What an entry holds, as plain values.
pub struct Record {
    /// Version of the schema that the entry is written in.
    pub version: u16,
    /// The textual content of the program.
    pub content: Seq<char>,
    /// The last modification time of the program, in UTC.
    pub mtime: Timestamp,
}

/// The content and the metadata of a stored program.
#[derive(Debug)]
pub struct Entry {
    /// Version of the schema used to write out this entry.
    pub version: u16,
    /// The textual content of the program.
    pub content: String,
    /// The last modification time of the program, in UTC.
    pub mtime: Timestamp,
}

impl View for Entry {
    type V = Record;

    open spec fn view(&self) -> Record {
        Record { version: self.version, content: self.content@, mtime: self.mtime }
    }
}

/// What a listing shows of a stored program.
#[derive(Clone, Copy, Debug, PartialEq, Eq, Structural)]
pub struct Metadata {
    /// The last modification time of the program, in UTC.
    pub date: Timestamp,
    /// The offset from UTC, in minutes east, at which `date` is to be shown.
    pub offset_minutes: i16,
    /// The length of the program's content, in bytes.
    pub length: u64,
}

/// Why a stored text is not an entry.
#[derive(Clone, Copy, Debug, PartialEq, Eq, Structural)]
pub enum DecodeKind {
    /// The text is not JSON.
    Syntax,
    /// The text is not an object with an integer `version`, a string
    /// `content` and an `mtime` of four integers, each within its range.
    Shape,
    /// The entry was written in a schema version other than [`VERSION`].
    Version,
    /// The modification time names a day that does not exist.
    Time,
}

/// The failure to read an entry from a stored text.
#[derive(Debug)]
pub struct DecodeError {
    /// Why the text is not an entry.
    pub kind: DecodeKind,
    /// A diagnostic for people to read.
    pub detail: String,
}

/// Whether a record is one that entries are written from: it has the current
/// schema version and a modification time that exists.
pub open spec fn valid_record(rec: Record) -> bool {
    rec.version == VERSION && rec.mtime.valid()
}

/// The text that stands for `rec` in the backend: a JSON object with the
/// members `version`, `content` and `mtime`, in this order and without
/// spaces.
pub open spec fn record_text(rec: Record) -> Seq<char> {
    "{\"version\":"@ + decimal(rec.version as int) + ",\"content\":"@ + json_quoted(rec.content)
        + ",\"mtime\":["@ + decimal(rec.mtime.year as int) + ","@ + decimal(
        rec.mtime.ordinal as int,
    ) + ","@ + decimal(rec.mtime.second as int) + ","@ + decimal(rec.mtime.nanosecond as int)
        + "]}"@
}

/// The integer member called `name` of the object `doc`.
pub open spec fn int_member(doc: serde_json::Value, name: Seq<char>) -> Option<i64> {
    match json_member(doc, name) {
        Some(m) => json_int(m),
        None => None,
    }
}

/// The string member called `name` of the object `doc`.
pub open spec fn text_member(doc: serde_json::Value, name: Seq<char>) -> Option<Seq<char>> {
    match json_member(doc, name) {
        Some(m) => json_text(m),
        None => None,
    }
}

/// The member called `name` of the object `doc`, if it is an array of
/// exactly four integers.
pub open spec fn quad_member(doc: serde_json::Value, name: Seq<char>) -> Option<
    (i64, i64, i64, i64),
> {
    match json_member(doc, name) {
        Some(m) => match json_items(m) {
            Some(items) => if items.len() == 4 && json_int(items[0]) is Some && json_int(
                items[1],
            ) is Some && json_int(items[2]) is Some && json_int(items[3]) is Some {
                Some(
                    (
                        json_int(items[0])->0,
                        json_int(items[1])->0,
                        json_int(items[2])->0,
                        json_int(items[3])->0,
                    ),
                )
            } else {
                None
            },
            None => None,
        },
        None => None,
    }
}

/// Whether the members of the object `doc` are the fields of `rec`.
pub open spec fn holds(doc: serde_json::Value, rec: Record) -> bool {
    &&& int_member(doc, "version"@) == Some(rec.version as i64)
    &&& text_member(doc, "content"@) == Some(rec.content)
    &&& quad_member(doc, "mtime"@) == Some(
        (
            rec.mtime.year as i64,
            rec.mtime.ordinal as i64,
            rec.mtime.second as i64,
            rec.mtime.nanosecond as i64,
        ),
    )
}

/// Whether the four integers of a stored modification time fit the types of
/// a timestamp's fields.
pub open spec fn quad_in_range(quad: (i64, i64, i64, i64)) -> bool {
    &&& i32::MIN <= quad.0 <= i32::MAX
    &&& 0 <= quad.1 <= u16::MAX
    &&& 0 <= quad.2 <= u32::MAX
    &&& 0 <= quad.3 <= u32::MAX
}

/// The entry that the parsed document `doc` holds, or why it holds none.
///
/// Members are looked up by name, so their order does not matter and other
/// members are ignored.
pub open spec fn record_of(doc: serde_json::Value) -> Result<Record, DecodeKind> {
    let version = int_member(doc, "version"@);
    let content = text_member(doc, "content"@);
    let mtime = quad_member(doc, "mtime"@);
    if version is None || content is None || mtime is None {
        Err(DecodeKind::Shape)
    } else if !(0 <= version->0 <= u16::MAX) || !quad_in_range(mtime->0) {
        Err(DecodeKind::Shape)
    } else if version->0 != VERSION {
        Err(DecodeKind::Version)
    } else {
        let quad = mtime->0;
        match Timestamp::of_parts(quad.0 as i32, quad.1 as u16, quad.2 as u32, quad.3 as u32) {
            Some(t) => Ok(Record { version: VERSION, content: content->0, mtime: t }),
            None => Err(DecodeKind::Time),
        }
    }
}

/// The entry that the stored text `raw` stands for, or why it stands for
/// none.
pub open spec fn decode_spec(raw: Seq<char>) -> Result<Record, DecodeKind> {
    match json_parse(raw) {
        Some(doc) => record_of(doc),
        None => Err(DecodeKind::Syntax),
    }
}

/// A document that holds the fields of a valid record is read as that
/// record.  So the text written for an entry is read back as that entry,
/// if the parser finds in the text the fields that it was written from.
pub proof fn lemma_record_of_held(doc: serde_json::Value, rec: Record)
    requires
        valid_record(rec),
        holds(doc, rec),
    ensures
        record_of(doc) == Ok::<Record, DecodeKind>(rec),
        json_parse(record_text(rec)) == Some(doc) ==> decode_spec(record_text(rec)) == Ok::<
            Record,
            DecodeKind,
        >(rec),
{
}

/// The listing data of `rec`, for display at `offset_minutes` east of UTC.
pub open spec fn metadata_of(rec: Record, offset_minutes: i16) -> Metadata {
    Metadata {
        date: rec.mtime,
        offset_minutes,
        length: vstd::utf8::encode_utf8(rec.content).len() as u64,
    }
}

fn int_field(doc: &serde_json::Value, name: &str) -> (r: Option<i64>)
    ensures
        r == int_member(*doc, name@),
{
    match member(doc, name) {
        Some(m) => as_int(m),
        None => None,
    }
}

fn text_field<'a>(doc: &'a serde_json::Value, name: &str) -> (r: Option<&'a str>)
    ensures
        r matches Some(s) ==> text_member(*doc, name@) == Some(s@),
        r is None ==> text_member(*doc, name@) is None,
{
    match member(doc, name) {
        Some(m) => as_text(m),
        None => None,
    }
}

fn quad_field(doc: &serde_json::Value, name: &str) -> (r: Option<(i64, i64, i64, i64)>)
    ensures
        r == quad_member(*doc, name@),
{
    let items = match member(doc, name) {
        Some(m) => match as_items(m) {
            Some(items) => items,
            None => {
                return None;
            },
        },
        None => {
            return None;
        },
    };
    if items.len() != 4 {
        return None;
    }
    match (as_int(&items[0]), as_int(&items[1]), as_int(&items[2]), as_int(&items[3])) {
        (Some(a), Some(b), Some(c), Some(d)) => Some((a, b, c, d)),
        _ => None,
    }
}

fn shape_error() -> (e: DecodeError)
    ensures
        e.kind == DecodeKind::Shape,
{
    DecodeError {
        kind: DecodeKind::Shape,
        detail: String::from_str(
            "expected an object with an integer version, a string content and an mtime of four integers",
        ),
    }
}

impl Entry {
    /// Creates an entry in the current schema version with the given
    /// `content`, last modified at `mtime`.
    pub fn new(content: &str, mtime: Timestamp) -> (entry: Entry)
        ensures
            entry@ == (Record { version: VERSION, content: content@, mtime }),
    {
        Entry { version: VERSION, content: content.to_owned(), mtime }
    }

    /// Returns the listing data of this entry, for display at
    /// `offset_minutes` east of UTC.
    pub fn metadata(&self, offset_minutes: i16) -> (metadata: Metadata)
        ensures
            metadata == metadata_of(self@, offset_minutes),
    {
        let bytes = self.content.as_str().as_bytes();
        Metadata { date: self.mtime, offset_minutes, length: bytes.len() as u64 }
    }

    /// Writes this entry as the text that the backend stores.
    pub fn encode(&self) -> (text: String)
        ensures
            text@ == record_text(self@),
    {
        let mut text = String::from_str("{\"version\":");
        push_decimal(&mut text, self.version as i64);
        text.append(",\"content\":");
        let quoted = quote(self.content.as_str());
        text.append(quoted.as_str());
        text.append(",\"mtime\":[");
        push_decimal(&mut text, self.mtime.year as i64);
        text.append(",");
        push_decimal(&mut text, self.mtime.ordinal as i64);
        text.append(",");
        push_decimal(&mut text, self.mtime.second as i64);
        text.append(",");
        push_decimal(&mut text, self.mtime.nanosecond as i64);
        text.append("]}");
        text
    }

    /// Reads the entry that a parsed document holds.
    pub fn from_json(doc: &serde_json::Value) -> (r: Result<Entry, DecodeError>)
        ensures
            r matches Ok(entry) ==> record_of(*doc) == Ok::<Record, DecodeKind>(entry@),
            r matches Err(e) ==> record_of(*doc) == Err::<Record, DecodeKind>(e.kind),
            r matches Ok(entry) ==> valid_record(entry@),
    {
        let version = match int_field(doc, "version") {
            Some(v) => v,
            None => {
                return Err(shape_error());
            },
        };
        let content = match text_field(doc, "content") {
            Some(c) => c,
            None => {
                return Err(shape_error());
            },
        };
        let quad = match quad_field(doc, "mtime") {
            Some(q) => q,
            None => {
                return Err(shape_error());
            },
        };
        if version < 0 || version > 65_535 {
            return Err(shape_error());
        }
        if quad.0 < -2_147_483_648 || quad.0 > 2_147_483_647 || quad.1 < 0 || quad.1 > 65_535
            || quad.2 < 0 || quad.2 > 4_294_967_295 || quad.3 < 0 || quad.3 > 4_294_967_295 {
            return Err(shape_error());
        }
        if version != 1 {
            return Err(
                DecodeError {
                    kind: DecodeKind::Version,
                    detail: String::from_str("unsupported schema version"),
                },
            );
        }
        match Timestamp::from_parts(quad.0 as i32, quad.1 as u16, quad.2 as u32, quad.3 as u32) {
            Some(mtime) => Ok(Entry { version: VERSION, content: content.to_owned(), mtime }),
            None => Err(
                DecodeError {
                    kind: DecodeKind::Time,
                    detail: String::from_str("the modification time names no existing day"),
                },
            ),
        }
    }

    /// Reads an entry from the text that the backend stores.
    pub fn decode(raw: &str) -> (r: Result<Entry, DecodeError>)
        ensures
            r matches Ok(entry) ==> decode_spec(raw@) == Ok::<Record, DecodeKind>(entry@),
            r matches Err(e) ==> decode_spec(raw@) == Err::<Record, DecodeKind>(e.kind),
            r matches Ok(entry) ==> valid_record(entry@),
    {
        match parse(raw) {
            Ok(doc) => Entry::from_json(&doc),
            Err(detail) => Err(DecodeError { kind: DecodeKind::Syntax, detail }),
        }
    }
}

} // verus!
