//! The streaming descriptor: where a texture's bytes live when they are not
//! inline, and the grammar of the path that names that place.

use vstd::prelude::*;

use crate::codec::{lossy_utf8, lossy_utf8_of};
use crate::value::{lookup_field, val_model, ValModel, TypedValue};
use vstd::string::StrSliceExecFns;

verus! {

/// A required field was absent, or held the wrong variant; the name says
/// which field.
#[derive(Debug)]
pub enum SchemaError {
    Missing(String),
    Mismatch(String),
}

/// The mathematical shadow of a schema error.
pub enum SchemaErrModel {
    Missing(Seq<char>),
    Mismatch(Seq<char>),
}

/// The shadow of one schema error.
pub open spec fn schema_err_model(e: SchemaError) -> SchemaErrModel {
    match e {
        SchemaError::Missing(f) => SchemaErrModel::Missing(f@),
        SchemaError::Mismatch(f) => SchemaErrModel::Mismatch(f@),
    }
}

impl SchemaError {
    /// The name of the field the error identifies.
    pub fn field(&self) -> (r: &String)
        ensures
            (match self {
                SchemaError::Missing(f) => r == f,
                SchemaError::Mismatch(f) => r == f,
            }),
    {
        match self {
            SchemaError::Missing(f) => f,
            SchemaError::Mismatch(f) => f,
        }
    }
}

/// Where streamed pixel data lives: a path into a sibling container, and
/// the byte window inside that resource.
pub struct StreamingInfo {
    pub path: String,
    pub offset: u32,
    pub size: u32,
}

/// The mathematical shadow of a streaming descriptor.
pub struct StreamModel {
    pub path: Seq<char>,
    pub offset: u32,
    pub size: u32,
}

/// The shadow of one descriptor.
pub open spec fn stream_model(si: StreamingInfo) -> StreamModel {
    StreamModel { path: si.path@, offset: si.offset, size: si.size }
}

impl Clone for StreamingInfo {
    fn clone(&self) -> (r: Self)
        ensures
            stream_model(r) == stream_model(*self),
    {
        StreamingInfo { path: self.path.clone(), offset: self.offset, size: self.size }
    }
}

/// What strict shape-checking of a value as a streaming descriptor yields:
/// the descriptor, or a mismatch. The value must be a generic struct tagged
/// `StreamingInfo` with a string `path` and 32-bit unsigned `offset` and
/// `size`.
pub open spec fn streaming_spec(v: ValModel) -> Result<StreamModel, ()> {
    match v {
        ValModel::GenericStruct { tag, fields } => if tag == "StreamingInfo"@ {
            match lookup_field(fields, "path"@) {
                Some(ValModel::Str(p)) => match lookup_field(fields, "offset"@) {
                    Some(ValModel::UInt32(offset)) => match lookup_field(fields, "size"@) {
                        Some(ValModel::UInt32(size)) => Ok(
                            StreamModel { path: lossy_utf8_of(p), offset, size },
                        ),
                        _ => Err(()),
                    },
                    _ => Err(()),
                },
                _ => Err(()),
            }
        } else {
            Err(())
        },
        _ => Err(()),
    }
}

impl StreamingInfo {
    /// Strictly shape-checks a parsed value as a streaming descriptor; any
    /// mismatch is an error naming the descriptor type, never a silent
    /// default.
    pub fn from_data(v: &TypedValue) -> (r: Result<StreamingInfo, SchemaError>)
        ensures
            (match r {
                Ok(si) => streaming_spec(val_model(*v)) == Ok::<StreamModel, ()>(
                    stream_model(si),
                ),
                Err(e) => streaming_spec(val_model(*v)) is Err && schema_err_model(e)
                    == SchemaErrModel::Mismatch("StreamingInfo"@),
            }),
    {
        let mismatch = SchemaError::Mismatch("StreamingInfo".to_owned());
        let fields = match v {
            TypedValue::GenericStruct { tag, fields } => {
                if !str_eq(tag.as_str(), "StreamingInfo") {
                    return Err(mismatch);
                }
                fields
            },
            _ => {
                return Err(mismatch);
            },
        };
        let path = match crate::value::find_field(fields, &"path".to_owned()) {
            Some(TypedValue::Str(p)) => lossy_utf8(p),
            _ => {
                return Err(mismatch);
            },
        };
        let offset = match crate::value::find_field(fields, &"offset".to_owned()) {
            Some(TypedValue::UInt32(offset)) => *offset,
            _ => {
                return Err(mismatch);
            },
        };
        let size = match crate::value::find_field(fields, &"size".to_owned()) {
            Some(TypedValue::UInt32(size)) => *size,
            _ => {
                return Err(mismatch);
            },
        };
        Ok(StreamingInfo { path, offset, size })
    }
}

/// Whether two string slices hold the same characters.
pub fn str_eq(a: &str, b: &str) -> (r: bool)
    ensures
        r <==> a@ == b@,
{
    let av = a.to_owned();
    let bv = b.to_owned();
    av == bv
}

/// Index of the first `c` at or after `from`, or the length when there is
/// none.
pub open spec fn find_from(s: Seq<char>, from: int, c: char) -> int
    decreases s.len() - from,
{
    if from < 0 || from >= s.len() {
        s.len() as int
    } else if s[from] == c {
        from
    } else {
        find_from(s, from + 1, c)
    }
}

/// The found index lies between `from` and the length, and `c` is nowhere
/// before it.
pub proof fn lemma_find_from(s: Seq<char>, from: int, c: char)
    requires
        0 <= from <= s.len(),
    ensures
        from <= find_from(s, from, c) <= s.len(),
        find_from(s, from, c) < s.len() ==> s[find_from(s, from, c)] == c,
    decreases s.len() - from,
{
    if from < s.len() && s[from] != c {
        lemma_find_from(s, from + 1, c);
    }
}

/// First `c` at or after `from`, scanning character by character.
pub fn find_char_from(s: &str, from: usize, c: char) -> (r: usize)
    requires
        from <= s@.len(),
    ensures
        r == find_from(s@, from as int, c),
{
    let n = s.unicode_len();
    let mut i: usize = from;
    while i < n
        invariant
            from <= i <= n,
            n == s@.len(),
            find_from(s@, from as int, c) == find_from(s@, i as int, c),
        decreases n - i,
    {
        if s.get_char(i) == c {
            return i;
        }
        i = i + 1;
    }
    n
}

/// The two parts of a streaming reference `archive:/<bundle>/<resource>`:
/// the remainder after the prefix splits at its first separator, the bundle
/// name before it and the resource name being everything after it. A path
/// without the prefix, or without a separator after it, names nothing
/// resolvable here.
pub open spec fn parse_path(p: Seq<char>) -> Option<(Seq<char>, Seq<char>)> {
    if p.len() >= 9 && p.subrange(0, 9) == "archive:/"@ {
        let i = find_from(p, 9, '/');
        if i == p.len() {
            None
        } else {
            Some((p.subrange(9, i), p.subrange(i + 1, p.len() as int)))
        }
    } else {
        None
    }
}

/// Splits a streaming path at the first separator after the archive prefix
/// into its bundle and resource names, if it has both.
pub fn parse_stream_path(path: &String) -> (r: Option<(String, String)>)
    ensures
        (match r {
            Some(parts) => parse_path(path@) == Some((parts.0@, parts.1@)),
            None => parse_path(path@) is None,
        }),
{
    let s = path.as_str();
    let n = s.unicode_len();
    if n < 9 {
        return None;
    }
    let prefix = s.substring_char(0, 9);
    if !str_eq(prefix, "archive:/") {
        return None;
    }
    let i = find_char_from(s, 9, '/');
    proof {
        lemma_find_from(s@, 9, '/');
    }
    if i == n {
        return None;
    }
    let bundle = s.substring_char(9, i).to_owned();
    let resource = s.substring_char(i + 1, n).to_owned();
    Some((bundle, resource))
}

} // verus!
