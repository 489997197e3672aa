//! The value projector: the recursive mapping from the typed value tree to
//! a host-consumable value tree, with one domain-specific carve-out for 2D
//! textures.
//!
//! Projection is asymmetric on purpose: members of arrays and records are
//! projected one level only, with everything non-scalar wrapped into a
//! handle, while the handle's own accessor projects deep on demand. Numeric
//! scalars keep their exact value in a 128-bit integer here; the host
//! boundary widens them to double precision and accepts the documented
//! precision loss above 2 to the 53rd.

use vstd::prelude::*;

use crate::codec::lossy_utf8_of;
use crate::codec::{try_utf8, DxtKind, EtcKind};
use crate::container::{container_model, UnityFs};
use crate::decode::{read_spec, DecodeFormat, TexError};
use crate::stream::{schema_err_model, str_eq, streaming_spec, SchemaErrModel, SchemaError,
    StreamingInfo};
use crate::texture::{tex_model, ImageDataModel, TexModel, Texture2D};
use crate::value::{field_models, find_field, lookup_field, lemma_field_models,
    lemma_seq_models, seq_models, spec_tag_name, val_model, Field, FieldModel, TypedValue,
    ValModel};
use vstd::utf8::{decode_utf8, valid_utf8};

verus! {

/// One field of a projected record.
pub struct Entry {
    pub name: String,
    pub value: HostValue,
}

/// A wrapped handle over one unexpanded value: it exposes the value's tag
/// and projects deep only when asked.
pub struct UnityObject {
    pub data: TypedValue,
}

/// A host-consumable value: scalars carried exactly, text or bytes for byte
/// strings, handles for anything a shallow projection left unexpanded, and
/// the texture carve-out.
pub enum HostValue {
    Bool(bool),
    Int(i128),
    Float32(u32),
    Float64(u64),
    Text(String),
    Bytes(Vec<u8>),
    Handle(UnityObject),
    Values(Vec<HostValue>),
    Record(Vec<Entry>),
    Texture(Texture2D),
}

/// The mathematical shadow of one record field.
pub struct EntryModel {
    pub name: Seq<char>,
    pub value: HostModel,
}

/// The mathematical shadow of a host value.
pub enum HostModel {
    Bool(bool),
    Int(i128),
    Float32(u32),
    Float64(u64),
    Text(Seq<char>),
    Bytes(Seq<u8>),
    Handle(ValModel),
    Values(Seq<HostModel>),
    Record(Seq<EntryModel>),
    Texture(TexModel),
}

/// The shadow of one host value.
pub open spec fn host_model(h: HostValue) -> HostModel
    decreases h, 0int,
{
    match h {
        HostValue::Bool(b) => HostModel::Bool(b),
        HostValue::Int(x) => HostModel::Int(x),
        HostValue::Float32(bits) => HostModel::Float32(bits),
        HostValue::Float64(bits) => HostModel::Float64(bits),
        HostValue::Text(s) => HostModel::Text(s@),
        HostValue::Bytes(b) => HostModel::Bytes(b@),
        HostValue::Handle(o) => HostModel::Handle(val_model(o.data)),
        HostValue::Values(items) => HostModel::Values(host_models(items@)),
        HostValue::Record(entries) => HostModel::Record(entry_models(entries@)),
        HostValue::Texture(t) => HostModel::Texture(tex_model(t)),
    }
}

/// The shadows of a host value sequence, element by element.
pub open spec fn host_models(items: Seq<HostValue>) -> Seq<HostModel>
    decreases items, 1int,
{
    if items.len() == 0 {
        Seq::empty()
    } else {
        seq![host_model(items[0])] + host_models(items.skip(1))
    }
}

/// The shadows of a record, element by element.
pub open spec fn entry_models(entries: Seq<Entry>) -> Seq<EntryModel>
    decreases entries, 1int,
{
    if entries.len() == 0 {
        Seq::empty()
    } else {
        seq![entry_model(entries[0])] + entry_models(entries.skip(1))
    }
}

/// The shadow of one record field.
pub open spec fn entry_model(e: Entry) -> EntryModel
    decreases e, 0int,
{
    EntryModel { name: e.name@, value: host_model(e.value) }
}

/// `host_models` is the element-wise shadow.
pub proof fn lemma_host_models(items: Seq<HostValue>)
    ensures
        host_models(items).len() == items.len(),
        forall|i: int| 0 <= i < items.len() ==> host_models(items)[i] == host_model(items[i]),
    decreases items.len(),
{
    if items.len() > 0 {
        lemma_host_models(items.skip(1));
        assert forall|i: int| 0 <= i < items.len() implies host_models(items)[i] == host_model(
            items[i],
        ) by {
            if i > 0 {
                assert(host_models(items)[i] == host_models(items.skip(1))[i - 1]);
                assert(items.skip(1)[i - 1] == items[i]);
            }
        }
    }
}

/// `entry_models` is the element-wise shadow.
pub proof fn lemma_entry_models(entries: Seq<Entry>)
    ensures
        entry_models(entries).len() == entries.len(),
        forall|i: int|
            0 <= i < entries.len() ==> entry_models(entries)[i] == entry_model(entries[i]),
    decreases entries.len(),
{
    if entries.len() > 0 {
        lemma_entry_models(entries.skip(1));
        assert forall|i: int| 0 <= i < entries.len() implies entry_models(entries)[i]
            == entry_model(entries[i]) by {
            if i > 0 {
                assert(entry_models(entries)[i] == entry_models(entries.skip(1))[i - 1]);
                assert(entries.skip(1)[i - 1] == entries[i]);
            }
        }
    }
}

/// What went wrong while projecting one object.
#[derive(Debug)]
pub enum ProjectError {
    Schema(SchemaError),
    Tex(TexError),
}

/// The mathematical shadow of a projection error.
pub enum ProjErrModel {
    Schema(SchemaErrModel),
    Tex(TexError),
}

/// The shadow of one projection error.
pub open spec fn proj_err_model(e: ProjectError) -> ProjErrModel {
    match e {
        ProjectError::Schema(s) => ProjErrModel::Schema(schema_err_model(s)),
        ProjectError::Tex(t) => ProjErrModel::Tex(t),
    }
}

/// The compression family each recognized texture format code names; every
/// other code is unrecognized.
pub open spec fn spec_format_of_code(code: i32) -> Option<DecodeFormat> {
    if code == 10 {
        Some(DecodeFormat::Dxt(DxtKind::Dxt1))
    } else if code == 12 {
        Some(DecodeFormat::Dxt(DxtKind::Dxt5))
    } else if code == 34 {
        Some(DecodeFormat::Etc(EtcKind::Etc1))
    } else if code == 45 {
        Some(DecodeFormat::Etc(EtcKind::Etc2Rgb))
    } else if code == 46 {
        Some(DecodeFormat::Etc(EtcKind::Etc2Rgba1))
    } else if code == 47 {
        Some(DecodeFormat::Etc(EtcKind::Etc2Rgba8))
    } else {
        None
    }
}

/// Maps a texture format code to its decoder.
pub fn format_of_code(code: i32) -> (r: Option<DecodeFormat>)
    ensures
        r == spec_format_of_code(code),
{
    if code == 10 {
        Some(DecodeFormat::Dxt(DxtKind::Dxt1))
    } else if code == 12 {
        Some(DecodeFormat::Dxt(DxtKind::Dxt5))
    } else if code == 34 {
        Some(DecodeFormat::Etc(EtcKind::Etc1))
    } else if code == 45 {
        Some(DecodeFormat::Etc(EtcKind::Etc2Rgb))
    } else if code == 46 {
        Some(DecodeFormat::Etc(EtcKind::Etc2Rgba1))
    } else if code == 47 {
        Some(DecodeFormat::Etc(EtcKind::Etc2Rgba8))
    } else {
        None
    }
}

/// The shallow projection: scalars map one to one, byte strings decode to
/// text exactly when they are valid UTF-8, and every other shape wraps into
/// a handle, unexpanded.
pub open spec fn shallow_of(v: ValModel) -> HostModel {
    match v {
        ValModel::Bool(b) => HostModel::Bool(b),
        ValModel::UInt8(x) => HostModel::Int(x as i128),
        ValModel::UInt16(x) => HostModel::Int(x as i128),
        ValModel::UInt32(x) => HostModel::Int(x as i128),
        ValModel::UInt64(x) => HostModel::Int(x as i128),
        ValModel::SInt8(x) => HostModel::Int(x as i128),
        ValModel::SInt16(x) => HostModel::Int(x as i128),
        ValModel::SInt32(x) => HostModel::Int(x as i128),
        ValModel::SInt64(x) => HostModel::Int(x as i128),
        ValModel::Float(bits) => HostModel::Float32(bits),
        ValModel::Double(bits) => HostModel::Float64(bits),
        ValModel::Str(s) => if valid_utf8(s) {
            HostModel::Text(decode_utf8(s))
        } else {
            HostModel::Bytes(s)
        },
        _ => HostModel::Handle(v),
    }
}

/// Strict recognition of a `Texture2D` struct: the required fields in the
/// order they are checked, the format code table, and the decision between
/// decoding now, deferring, and giving up on an unrecognized code.
pub open spec fn texture_spec(fields: Seq<FieldModel>) -> Result<TexModel, ProjErrModel> {
    match lookup_field(fields, "m_Name"@) {
        None => Err(ProjErrModel::Schema(SchemaErrModel::Missing("m_Name"@))),
        Some(name_v) => match name_v {
            ValModel::Str(name_bytes) => match lookup_field(fields, "m_Width"@) {
                None => Err(ProjErrModel::Schema(SchemaErrModel::Missing("m_Width"@))),
                Some(width_v) => match width_v {
                    ValModel::SInt32(width_s) => match lookup_field(fields, "m_Height"@) {
                        None => Err(ProjErrModel::Schema(SchemaErrModel::Missing("m_Height"@))),
                        Some(height_v) => match height_v {
                            ValModel::SInt32(height_s) => texture_spec_data(
                                fields,
                                lossy_utf8_of(name_bytes),
                                width_s as u32,
                                height_s as u32,
                            ),
                            _ => Err(
                                ProjErrModel::Schema(SchemaErrModel::Mismatch("m_Height"@)),
                            ),
                        },
                    },
                    _ => Err(ProjErrModel::Schema(SchemaErrModel::Mismatch("m_Width"@))),
                },
            },
            _ => Err(ProjErrModel::Schema(SchemaErrModel::Mismatch("m_Name"@))),
        },
    }
}

/// The tail of texture recognition: pixel data, format code, and the
/// streaming decision.
pub open spec fn texture_spec_data(
    fields: Seq<FieldModel>,
    name: Seq<char>,
    width: u32,
    height: u32,
) -> Result<TexModel, ProjErrModel> {
    match lookup_field(fields, "image data"@) {
        None => Err(ProjErrModel::Schema(SchemaErrModel::Missing("image data"@))),
        Some(data_v) => match data_v {
            ValModel::UInt8Array(data) => match lookup_field(fields, "m_TextureFormat"@) {
                None => Err(ProjErrModel::Schema(SchemaErrModel::Missing("m_TextureFormat"@))),
                Some(code_v) => match code_v {
                    ValModel::SInt32(code) => match spec_format_of_code(code) {
                        None => Ok(
                            TexModel { name, width, height, image: ImageDataModel::Unknown },
                        ),
                        Some(fmt) => match lookup_field(fields, "m_StreamData"@) {
                            None => Err(
                                ProjErrModel::Schema(SchemaErrModel::Missing("m_StreamData"@)),
                            ),
                            Some(sd) => match streaming_spec(sd) {
                                Err(_) => Err(
                                    ProjErrModel::Schema(
                                        SchemaErrModel::Mismatch("StreamingInfo"@),
                                    ),
                                ),
                                Ok(si) => if si.path.len() == 0 {
                                    match read_spec(width, height, fmt, data) {
                                        Ok(png) => Ok(
                                            TexModel {
                                                name,
                                                width,
                                                height,
                                                image: ImageDataModel::Loaded(png),
                                            },
                                        ),
                                        Err(e) => Err(ProjErrModel::Tex(e)),
                                    }
                                } else {
                                    Ok(
                                        TexModel {
                                            name,
                                            width,
                                            height,
                                            image: ImageDataModel::Streaming(fmt, si),
                                        },
                                    )
                                },
                            },
                        },
                    },
                    _ => Err(ProjErrModel::Schema(SchemaErrModel::Mismatch("m_TextureFormat"@))),
                },
            },
            _ => Err(ProjErrModel::Schema(SchemaErrModel::Mismatch("image data"@))),
        },
    }
}

/// The deep projection: opaque blobs and byte arrays become byte buffers,
/// a struct tagged
/// `Texture2D` becomes a texture entity or a hard error, any other struct
/// becomes a record of shallow projections, generic arrays project
/// element-wise shallow, and a pair becomes two handles.
pub open spec fn deep_of(v: ValModel) -> Result<HostModel, ProjErrModel> {
    match v {
        ValModel::GenericPrimitive { data, .. } => Ok(HostModel::Bytes(data)),
        ValModel::UInt8Array(data) => Ok(HostModel::Bytes(data)),
        ValModel::GenericStruct { tag, fields } => if tag == "Texture2D"@ {
            match texture_spec(fields) {
                Ok(t) => Ok(HostModel::Texture(t)),
                Err(e) => Err(e),
            }
        } else {
            Ok(
                HostModel::Record(
                    Seq::new(
                        fields.len(),
                        |i: int|
                            EntryModel {
                                name: fields[i].name,
                                value: shallow_of(fields[i].value),
                            },
                    ),
                ),
            )
        },
        ValModel::GenericArray(items) => Ok(
            HostModel::Values(Seq::new(items.len(), |i: int| shallow_of(items[i]))),
        ),
        ValModel::Pair(a, b) => Ok(
            HostModel::Values(seq![HostModel::Handle(*a), HostModel::Handle(*b)]),
        ),
        _ => Ok(shallow_of(v)),
    }
}

/// Projects one value one level deep; total over the closed union.
pub fn convert_shallow(v: TypedValue) -> (r: HostValue)
    ensures
        host_model(r) == shallow_of(val_model(v)),
{
    match v {
        TypedValue::Bool(b) => HostValue::Bool(b),
        TypedValue::UInt8(x) => HostValue::Int(x as i128),
        TypedValue::UInt16(x) => HostValue::Int(x as i128),
        TypedValue::UInt32(x) => HostValue::Int(x as i128),
        TypedValue::UInt64(x) => HostValue::Int(x as i128),
        TypedValue::SInt8(x) => HostValue::Int(x as i128),
        TypedValue::SInt16(x) => HostValue::Int(x as i128),
        TypedValue::SInt32(x) => HostValue::Int(x as i128),
        TypedValue::SInt64(x) => HostValue::Int(x as i128),
        TypedValue::Float(bits) => HostValue::Float32(bits),
        TypedValue::Double(bits) => HostValue::Float64(bits),
        TypedValue::Str(bytes) => match try_utf8(&bytes) {
            Some(text) => HostValue::Text(text),
            None => HostValue::Bytes(bytes),
        },
        other => HostValue::Handle(UnityObject { data: other }),
    }
}

/// Recognizes the required texture fields and builds the entity, decoding
/// inline data at once and deferring streamed data.
fn texture_from_fields(fields: &Vec<Field>) -> (r: Result<Texture2D, ProjectError>)
    ensures
        (match r {
            Ok(t) => texture_spec(field_models(fields@)) == Ok::<TexModel, ProjErrModel>(
                tex_model(t),
            ),
            Err(e) => texture_spec(field_models(fields@)) == Err::<TexModel, ProjErrModel>(
                proj_err_model(e),
            ),
        }),
{
    let name = match find_field(fields, &"m_Name".to_owned()) {
        Some(TypedValue::Str(bytes)) => crate::codec::lossy_utf8(bytes),
        Some(_) => {
            return Err(ProjectError::Schema(SchemaError::Mismatch("m_Name".to_owned())));
        },
        None => {
            return Err(ProjectError::Schema(SchemaError::Missing("m_Name".to_owned())));
        },
    };
    let width: u32 = match find_field(fields, &"m_Width".to_owned()) {
        Some(TypedValue::SInt32(w)) => #[verifier::truncate] (*w as u32),
        Some(_) => {
            return Err(ProjectError::Schema(SchemaError::Mismatch("m_Width".to_owned())));
        },
        None => {
            return Err(ProjectError::Schema(SchemaError::Missing("m_Width".to_owned())));
        },
    };
    let height: u32 = match find_field(fields, &"m_Height".to_owned()) {
        Some(TypedValue::SInt32(h)) => #[verifier::truncate] (*h as u32),
        Some(_) => {
            return Err(ProjectError::Schema(SchemaError::Mismatch("m_Height".to_owned())));
        },
        None => {
            return Err(ProjectError::Schema(SchemaError::Missing("m_Height".to_owned())));
        },
    };
    let data: &Vec<u8> = match find_field(fields, &"image data".to_owned()) {
        Some(TypedValue::UInt8Array(data)) => data,
        Some(_) => {
            return Err(ProjectError::Schema(SchemaError::Mismatch("image data".to_owned())));
        },
        None => {
            return Err(ProjectError::Schema(SchemaError::Missing("image data".to_owned())));
        },
    };
    let code: i32 = match find_field(fields, &"m_TextureFormat".to_owned()) {
        Some(TypedValue::SInt32(code)) => *code,
        Some(_) => {
            return Err(
                ProjectError::Schema(SchemaError::Mismatch("m_TextureFormat".to_owned())),
            );
        },
        None => {
            return Err(ProjectError::Schema(SchemaError::Missing("m_TextureFormat".to_owned())));
        },
    };
    let fmt = match format_of_code(code) {
        Some(fmt) => fmt,
        None => {
            return Ok(Texture2D::unknown(name, width, height));
        },
    };
    let sd: &TypedValue = match find_field(fields, &"m_StreamData".to_owned()) {
        Some(sd) => sd,
        None => {
            return Err(ProjectError::Schema(SchemaError::Missing("m_StreamData".to_owned())));
        },
    };
    let si = match StreamingInfo::from_data(sd) {
        Ok(si) => si,
        Err(e) => {
            return Err(ProjectError::Schema(e));
        },
    };
    if si.path.as_str().unicode_len() == 0 {
        match Texture2D::load(name, width, height, fmt, data) {
            Ok(t) => Ok(t),
            Err(e) => Err(ProjectError::Tex(e)),
        }
    } else {
        Ok(Texture2D::defer(name, width, height, fmt, si))
    }
}

/// Projects one value in full; total over the closed union, with a hard
/// error only for a malformed texture struct or a failed inline decode.
pub fn convert_data(v: TypedValue) -> (r: Result<HostValue, ProjectError>)
    ensures
        (match r {
            Ok(h) => deep_of(val_model(v)) == Ok::<HostModel, ProjErrModel>(host_model(h)),
            Err(e) => deep_of(val_model(v)) == Err::<HostModel, ProjErrModel>(proj_err_model(e)),
        }),
{
    match v {
        TypedValue::GenericPrimitive { tag: _, data } => Ok(HostValue::Bytes(data)),
        TypedValue::UInt8Array(data) => Ok(HostValue::Bytes(data)),
        TypedValue::GenericStruct { tag, fields } => {
            if str_eq(tag.as_str(), "Texture2D") {
                match texture_from_fields(&fields) {
                    Ok(t) => Ok(HostValue::Texture(t)),
                    Err(e) => Err(e),
                }
            } else {
                let ghost fm = field_models(fields@);
                proof {
                    lemma_field_models(fields@);
                }
                let mut entries: Vec<Entry> = Vec::new();
                let mut i: usize = 0;
                while i < fields.len()
                    invariant
                        i <= fields.len(),
                        fm == field_models(fields@),
                        fm.len() == fields@.len(),
                        forall|j: int|
                            0 <= j < fields@.len() ==> fm[j] == crate::value::field_model(
                                fields@[j],
                            ),
                        entries@.len() == i,
                        forall|j: int|
                            0 <= j < i ==> entry_model(entries@[j]) == (EntryModel {
                                name: fm[j].name,
                                value: shallow_of(fm[j].value),
                            }),
                    decreases fields.len() - i,
                {
                    let name = fields[i].name.clone();
                    let value = convert_shallow(fields[i].value.clone());
                    entries.push(Entry { name, value });
                    i = i + 1;
                }
                proof {
                    lemma_entry_models(entries@);
                    assert(entry_models(entries@) =~= Seq::new(
                        fm.len(),
                        |j: int| EntryModel { name: fm[j].name, value: shallow_of(fm[j].value) },
                    ));
                }
                Ok(HostValue::Record(entries))
            }
        },
        TypedValue::GenericArray(items) => {
            let ghost im = seq_models(items@);
            proof {
                lemma_seq_models(items@);
            }
            let mut out: Vec<HostValue> = Vec::new();
            let mut i: usize = 0;
            while i < items.len()
                invariant
                    i <= items.len(),
                    im == seq_models(items@),
                    im.len() == items@.len(),
                    forall|j: int| 0 <= j < items@.len() ==> im[j] == val_model(items@[j]),
                    out@.len() == i,
                    forall|j: int| 0 <= j < i ==> host_model(out@[j]) == shallow_of(im[j]),
                decreases items.len() - i,
            {
                let value = convert_shallow(items[i].clone());
                out.push(value);
                i = i + 1;
            }
            proof {
                lemma_host_models(out@);
                assert(host_models(out@) =~= Seq::new(im.len(), |j: int| shallow_of(im[j])));
            }
            Ok(HostValue::Values(out))
        },
        TypedValue::Pair(a, b) => {
            let first = HostValue::Handle(UnityObject { data: *a });
            let second = HostValue::Handle(UnityObject { data: *b });
            let mut out: Vec<HostValue> = Vec::new();
            out.push(first);
            out.push(second);
            proof {
                lemma_host_models(out@);
                assert(host_models(out@) =~= seq![
                    host_model(out@[0]),
                    host_model(out@[1]),
                ]);
            }
            Ok(HostValue::Values(out))
        },
        other => Ok(convert_shallow(other)),
    }
}

impl UnityObject {
    /// Wraps a copy of the given value.
    pub fn from_data(v: &TypedValue) -> (r: UnityObject)
        ensures
            val_model(r.data) == val_model(*v),
    {
        UnityObject { data: v.clone() }
    }

    /// The wrapped value's union tag or schema type name.
    pub fn tag_name(&self) -> (r: String)
        ensures
            r@ == spec_tag_name(val_model(self.data)),
    {
        self.data.tag_name()
    }

    /// Projects the wrapped value in full, on demand.
    pub fn data(&self) -> (r: Result<HostValue, ProjectError>)
        ensures
            (match r {
                Ok(h) => deep_of(val_model(self.data)) == Ok::<HostModel, ProjErrModel>(
                    host_model(h),
                ),
                Err(e) => deep_of(val_model(self.data)) == Err::<HostModel, ProjErrModel>(
                    proj_err_model(e),
                ),
            }),
    {
        convert_data(self.data.clone())
    }
}

/// The main asset of a loaded container: its name and every object in it,
/// each behind a handle.
pub struct MainAsset {
    pub name: String,
    pub objects: Vec<UnityObject>,
}

impl UnityFs {
    /// The main asset's name and object tree.
    pub fn main_asset(&self) -> (r: MainAsset)
        ensures
            r.name@ == container_model(*self).asset_name,
            r.objects@.len() == container_model(*self).objects.len(),
            forall|i: int|
                0 <= i < r.objects@.len() ==> val_model(#[trigger] r.objects@[i].data)
                    == container_model(*self).objects[i],
    {
        let ghost om = seq_models(self.objects@);
        proof {
            lemma_seq_models(self.objects@);
        }
        let mut objects: Vec<UnityObject> = Vec::new();
        let mut i: usize = 0;
        while i < self.objects.len()
            invariant
                i <= self.objects.len(),
                om == seq_models(self.objects@),
                om.len() == self.objects@.len(),
                forall|j: int| 0 <= j < self.objects@.len() ==> om[j] == val_model(
                    self.objects@[j],
                ),
                objects@.len() == i,
                forall|j: int| 0 <= j < i ==> val_model(#[trigger] objects@[j].data) == om[j],
            decreases self.objects.len() - i,
        {
            objects.push(UnityObject::from_data(&self.objects[i]));
            i = i + 1;
        }
        MainAsset { name: self.asset_name.clone(), objects }
    }
}

/// The exact integer a numeric scalar carries, where it has one.
pub open spec fn scalar_int_value(v: ValModel) -> Option<int> {
    match v {
        ValModel::UInt8(x) => Some(x as int),
        ValModel::UInt16(x) => Some(x as int),
        ValModel::UInt32(x) => Some(x as int),
        ValModel::UInt64(x) => Some(x as int),
        ValModel::SInt8(x) => Some(x as int),
        ValModel::SInt16(x) => Some(x as int),
        ValModel::SInt32(x) => Some(x as int),
        ValModel::SInt64(x) => Some(x as int),
        _ => None,
    }
}

/// Whether two values are the same integer-scalar variant.
pub open spec fn same_int_variant(a: ValModel, b: ValModel) -> bool {
    match (a, b) {
        (ValModel::UInt8(_), ValModel::UInt8(_)) => true,
        (ValModel::UInt16(_), ValModel::UInt16(_)) => true,
        (ValModel::UInt32(_), ValModel::UInt32(_)) => true,
        (ValModel::UInt64(_), ValModel::UInt64(_)) => true,
        (ValModel::SInt8(_), ValModel::SInt8(_)) => true,
        (ValModel::SInt16(_), ValModel::SInt16(_)) => true,
        (ValModel::SInt32(_), ValModel::SInt32(_)) => true,
        (ValModel::SInt64(_), ValModel::SInt64(_)) => true,
        _ => false,
    }
}

/// Law: projecting an integer scalar keeps its numeric value exactly, so
/// reading the projection back gives the value that went in. The host's own
/// widening to double precision is the only lossy step, and only above
/// 2 to the 53rd.
pub proof fn lemma_scalar_projection_exact(v: ValModel)
    requires
        scalar_int_value(v) is Some,
    ensures
        shallow_of(v) matches HostModel::Int(x) && x as int == scalar_int_value(v)->Some_0,
{
}

/// Law: on one integer-scalar variant, projection is injective: equal
/// projections come from equal values.
pub proof fn lemma_scalar_projection_injective(a: ValModel, b: ValModel)
    requires
        same_int_variant(a, b),
        shallow_of(a) == shallow_of(b),
    ensures
        a == b,
{
}

/// Law: a byte string that is valid UTF-8 projects to exactly its decoded
/// text; any other byte string projects to a byte buffer with the same
/// length and contents.
pub proof fn lemma_byte_string_projection(s: Seq<u8>)
    ensures
        valid_utf8(s) ==> shallow_of(ValModel::Str(s)) == HostModel::Text(decode_utf8(s)),
        !valid_utf8(s) ==> shallow_of(ValModel::Str(s)) == HostModel::Bytes(s),
{
}

/// Whether a value is a nested composite a shallow projection must not
/// expand.
pub open spec fn is_composite(v: ValModel) -> bool {
    v is GenericStruct || v is GenericArray
}

/// Law: projecting a generic array never recursively expands a nested
/// struct or array element; the element comes back as a handle holding the
/// untouched value, and only the handle's own deep projection expands it
/// (a record of its fields for a plain struct, its elements for an array).
pub proof fn lemma_array_projection_is_lazy(items: Seq<ValModel>, i: int)
    requires
        0 <= i < items.len(),
        is_composite(items[i]),
    ensures
        deep_of(ValModel::GenericArray(items)) matches Ok(h) && h matches HostModel::Values(vs)
            && vs.len() == items.len() && vs[i] == HostModel::Handle(items[i]),
        (items[i] matches ValModel::GenericStruct { tag, fields } && tag != "Texture2D"@)
            ==> (deep_of(items[i]) matches Ok(e) && e matches HostModel::Record(es) && es.len()
            == fields_len_of(items[i])),
        items[i] is GenericArray ==> (deep_of(items[i]) matches Ok(e) && e
            matches HostModel::Values(ws) && ws.len() == items_len_of(items[i])),
{
}

/// Field count of a generic struct.
pub open spec fn fields_len_of(v: ValModel) -> int {
    match v {
        ValModel::GenericStruct { fields, .. } => fields.len() as int,
        _ => 0,
    }
}

/// Element count of a generic array.
pub open spec fn items_len_of(v: ValModel) -> int {
    match v {
        ValModel::GenericArray(items) => items.len() as int,
        _ => 0,
    }
}

/// Law: a generic struct tagged `Texture2D` whose fields lack `m_Width`
/// projects to a schema error naming a field, never to a texture entity or
/// a generic record.
pub proof fn lemma_texture_missing_width(tag: Seq<char>, fields: Seq<FieldModel>)
    requires
        tag == "Texture2D"@,
        lookup_field(fields, "m_Width"@) is None,
    ensures
        deep_of(ValModel::GenericStruct { tag, fields }) matches Err(e) && e
            matches ProjErrModel::Schema(_),
{
}

} // verus!
