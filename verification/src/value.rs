//! The typed value model: the closed tagged union produced by the container
//! parser, held here as plain data so that everything that reads it can be
//! verified. `ValModel` is its mathematical shadow; every contract in this
//! crate speaks of values through it.

use vstd::prelude::*;

verus! {

/// One named field of a generic struct value.
pub struct Field {
    pub name: String,
    pub value: TypedValue,
}

/// The closed tagged union over which the whole object tree is built.
///
/// The two float variants carry the IEEE-754 bit pattern of the parsed
/// number; the host boundary, not this crate, turns bits into a native
/// float. A byte string (`Str`) is UTF-8 or raw bytes, decided later by
/// projection.
pub enum TypedValue {
    Bool(bool),
    UInt8(u8),
    UInt16(u16),
    UInt32(u32),
    UInt64(u64),
    SInt8(i8),
    SInt16(i16),
    SInt32(i32),
    SInt64(i64),
    Float(u32),
    Double(u64),
    UInt8Array(Vec<u8>),
    Str(Vec<u8>),
    Pair(Box<TypedValue>, Box<TypedValue>),
    GenericArray(Vec<TypedValue>),
    GenericPrimitive { tag: String, data: Vec<u8> },
    GenericStruct { tag: String, fields: Vec<Field> },
}

/// The mathematical shadow of one field.
pub struct FieldModel {
    pub name: Seq<char>,
    pub value: ValModel,
}

/// The mathematical shadow of a typed value: sequences for buffers and
/// children, character sequences for names.
pub enum ValModel {
    Bool(bool),
    UInt8(u8),
    UInt16(u16),
    UInt32(u32),
    UInt64(u64),
    SInt8(i8),
    SInt16(i16),
    SInt32(i32),
    SInt64(i64),
    Float(u32),
    Double(u64),
    UInt8Array(Seq<u8>),
    Str(Seq<u8>),
    Pair(Box<ValModel>, Box<ValModel>),
    GenericArray(Seq<ValModel>),
    GenericPrimitive { tag: Seq<char>, data: Seq<u8> },
    GenericStruct { tag: Seq<char>, fields: Seq<FieldModel> },
}

/// The shadow of one value.
pub open spec fn val_model(v: TypedValue) -> ValModel
    decreases v, 0int,
{
    match v {
        TypedValue::Bool(b) => ValModel::Bool(b),
        TypedValue::UInt8(x) => ValModel::UInt8(x),
        TypedValue::UInt16(x) => ValModel::UInt16(x),
        TypedValue::UInt32(x) => ValModel::UInt32(x),
        TypedValue::UInt64(x) => ValModel::UInt64(x),
        TypedValue::SInt8(x) => ValModel::SInt8(x),
        TypedValue::SInt16(x) => ValModel::SInt16(x),
        TypedValue::SInt32(x) => ValModel::SInt32(x),
        TypedValue::SInt64(x) => ValModel::SInt64(x),
        TypedValue::Float(x) => ValModel::Float(x),
        TypedValue::Double(x) => ValModel::Double(x),
        TypedValue::UInt8Array(d) => ValModel::UInt8Array(d@),
        TypedValue::Str(d) => ValModel::Str(d@),
        TypedValue::Pair(a, b) => ValModel::Pair(
            Box::new(val_model(*a)),
            Box::new(val_model(*b)),
        ),
        TypedValue::GenericArray(items) => ValModel::GenericArray(seq_models(items@)),
        TypedValue::GenericPrimitive { tag, data } => (ValModel::GenericPrimitive {
            tag: tag@,
            data: data@,
        }),
        TypedValue::GenericStruct { tag, fields } => (ValModel::GenericStruct {
            tag: tag@,
            fields: field_models(fields@),
        }),
    }
}

/// The shadows of a sequence of values, element by element.
pub open spec fn seq_models(items: Seq<TypedValue>) -> Seq<ValModel>
    decreases items, 1int,
{
    if items.len() == 0 {
        Seq::empty()
    } else {
        seq![val_model(items[0])] + seq_models(items.skip(1))
    }
}

/// The shadows of a field list, element by element.
pub open spec fn field_models(fields: Seq<Field>) -> Seq<FieldModel>
    decreases fields, 1int,
{
    if fields.len() == 0 {
        Seq::empty()
    } else {
        seq![field_model(fields[0])] + field_models(fields.skip(1))
    }
}

/// The shadow of one field.
pub open spec fn field_model(f: Field) -> FieldModel
    decreases f, 0int,
{
    FieldModel { name: f.name@, value: val_model(f.value) }
}

/// `seq_models` is the element-wise shadow.
pub proof fn lemma_seq_models(items: Seq<TypedValue>)
    ensures
        seq_models(items).len() == items.len(),
        forall|i: int| 0 <= i < items.len() ==> seq_models(items)[i] == val_model(items[i]),
    decreases items.len(),
{
    if items.len() > 0 {
        lemma_seq_models(items.skip(1));
        assert forall|i: int| 0 <= i < items.len() implies seq_models(items)[i] == val_model(
            items[i],
        ) by {
            if i > 0 {
                assert(seq_models(items)[i] == seq_models(items.skip(1))[i - 1]);
                assert(items.skip(1)[i - 1] == items[i]);
            }
        }
    }
}

/// `field_models` is the element-wise shadow.
pub proof fn lemma_field_models(fields: Seq<Field>)
    ensures
        field_models(fields).len() == fields.len(),
        forall|i: int| 0 <= i < fields.len() ==> field_models(fields)[i] == field_model(fields[i]),
    decreases fields.len(),
{
    if fields.len() > 0 {
        lemma_field_models(fields.skip(1));
        assert forall|i: int| 0 <= i < fields.len() implies field_models(fields)[i] == field_model(
            fields[i],
        ) by {
            if i > 0 {
                assert(field_models(fields)[i] == field_models(fields.skip(1))[i - 1]);
                assert(fields.skip(1)[i - 1] == fields[i]);
            }
        }
    }
}

/// First field of the given name, if any; lookup ignores insertion order
/// beyond taking the first match.
pub open spec fn lookup_field(fields: Seq<FieldModel>, name: Seq<char>) -> Option<ValModel>
    decreases fields.len(),
{
    if fields.len() == 0 {
        None
    } else if fields[0].name == name {
        Some(fields[0].value)
    } else {
        lookup_field(fields.skip(1), name)
    }
}

impl Clone for Field {
    fn clone(&self) -> (r: Self)
        ensures
            field_model(r) == field_model(*self),
        decreases *self,
    {
        Field { name: self.name.clone(), value: self.value.clone() }
    }
}

impl Clone for TypedValue {
    fn clone(&self) -> (r: Self)
        ensures
            val_model(r) == val_model(*self),
        decreases *self,
    {
        match self {
            TypedValue::Bool(b) => TypedValue::Bool(*b),
            TypedValue::UInt8(v) => TypedValue::UInt8(*v),
            TypedValue::UInt16(v) => TypedValue::UInt16(*v),
            TypedValue::UInt32(v) => TypedValue::UInt32(*v),
            TypedValue::UInt64(v) => TypedValue::UInt64(*v),
            TypedValue::SInt8(v) => TypedValue::SInt8(*v),
            TypedValue::SInt16(v) => TypedValue::SInt16(*v),
            TypedValue::SInt32(v) => TypedValue::SInt32(*v),
            TypedValue::SInt64(v) => TypedValue::SInt64(*v),
            TypedValue::Float(v) => TypedValue::Float(*v),
            TypedValue::Double(v) => TypedValue::Double(*v),
            TypedValue::UInt8Array(d) => TypedValue::UInt8Array(clone_bytes(d)),
            TypedValue::Str(d) => TypedValue::Str(clone_bytes(d)),
            TypedValue::Pair(a, b) => TypedValue::Pair(
                Box::new((&**a).clone()),
                Box::new((&**b).clone()),
            ),
            TypedValue::GenericArray(items) => TypedValue::GenericArray(clone_values(items)),
            TypedValue::GenericPrimitive { tag, data } => (TypedValue::GenericPrimitive {
                tag: tag.clone(),
                data: clone_bytes(data),
            }),
            TypedValue::GenericStruct { tag, fields } => (TypedValue::GenericStruct {
                tag: tag.clone(),
                fields: clone_fields(fields),
            }),
        }
    }
}

/// A fresh byte buffer with the same contents.
fn clone_bytes(d: &Vec<u8>) -> (r: Vec<u8>)
    ensures
        r@ == d@,
{
    let mut out: Vec<u8> = Vec::new();
    let mut i: usize = 0;
    while i < d.len()
        invariant
            i <= d.len(),
            out@ == d@.take(i as int),
        decreases d.len() - i,
    {
        out.push(d[i]);
        i = i + 1;
        proof {
            assert(out@ =~= d@.take(i as int));
        }
    }
    proof {
        assert(out@ =~= d@);
    }
    out
}

fn clone_values(items: &Vec<TypedValue>) -> (r: Vec<TypedValue>)
    ensures
        seq_models(r@) == seq_models(items@),
    decreases *items,
{
    let mut out: Vec<TypedValue> = Vec::new();
    let mut i: usize = 0;
    while i < items.len()
        invariant
            i <= items.len(),
            out@.len() == i,
            forall|j: int| 0 <= j < i ==> val_model(out@[j]) == val_model(items@[j]),
        decreases items.len() - i,
    {
        proof {
            assert(decreases_to!(*items => items@[i as int]));
        }
        out.push(items[i].clone());
        i = i + 1;
    }
    proof {
        lemma_seq_models(out@);
        lemma_seq_models(items@);
        assert(seq_models(out@) =~= seq_models(items@));
    }
    out
}

fn clone_fields(fields: &Vec<Field>) -> (r: Vec<Field>)
    ensures
        field_models(r@) == field_models(fields@),
    decreases *fields,
{
    let mut out: Vec<Field> = Vec::new();
    let mut i: usize = 0;
    while i < fields.len()
        invariant
            i <= fields.len(),
            out@.len() == i,
            forall|j: int| 0 <= j < i ==> field_model(out@[j]) == field_model(fields@[j]),
        decreases fields.len() - i,
    {
        proof {
            assert(decreases_to!(*fields => fields@[i as int]));
        }
        out.push(fields[i].clone());
        i = i + 1;
    }
    proof {
        lemma_field_models(out@);
        lemma_field_models(fields@);
        assert(field_models(out@) =~= field_models(fields@));
    }
    out
}

/// First field named `name`, by exact comparison, as the parser's own lookup
/// does it.
pub fn find_field<'a>(fields: &'a Vec<Field>, name: &String) -> (r: Option<&'a TypedValue>)
    ensures
        match r {
            Some(v) => lookup_field(field_models(fields@), name@) == Some(val_model(*v)),
            None => lookup_field(field_models(fields@), name@) is None,
        },
{
    let ghost fm = field_models(fields@);
    proof {
        lemma_field_models(fields@);
    }
    let mut i: usize = 0;
    proof {
        assert(fm.skip(0) =~= fm);
    }
    while i < fields.len()
        invariant
            i <= fields.len(),
            fm == field_models(fields@),
            fm.len() == fields.len(),
            forall|j: int| 0 <= j < fields.len() ==> fm[j] == field_model(fields@[j]),
            lookup_field(fm, name@) == lookup_field(fm.skip(i as int), name@),
        decreases fields.len() - i,
    {
        proof {
            assert(fm.skip(i as int)[0] == fm[i as int]);
        }
        if fields[i].name == *name {
            return Some(&fields[i].value);
        }
        proof {
            assert(fm.skip(i as int).skip(1) =~= fm.skip(i as int + 1));
        }
        i = i + 1;
    }
    None
}

/// The union tag of a value as the host sees it: the fixed name of each
/// plain variant, or the schema type name of a named variant.
pub open spec fn spec_tag_name(v: ValModel) -> Seq<char> {
    match v {
        ValModel::Bool(_) => "bool"@,
        ValModel::UInt8(_) => "UInt8"@,
        ValModel::UInt16(_) => "UInt16"@,
        ValModel::UInt32(_) => "UInt32"@,
        ValModel::UInt64(_) => "UInt64"@,
        ValModel::SInt8(_) => "SInt8"@,
        ValModel::SInt16(_) => "SInt16"@,
        ValModel::SInt32(_) => "SInt32"@,
        ValModel::SInt64(_) => "SInt64"@,
        ValModel::Float(_) => "float"@,
        ValModel::Double(_) => "double"@,
        ValModel::UInt8Array(_) => "ByteArray"@,
        ValModel::Str(_) => "string"@,
        ValModel::Pair(_, _) => "pair"@,
        ValModel::GenericArray(_) => "Array"@,
        ValModel::GenericPrimitive { tag, .. } => tag,
        ValModel::GenericStruct { tag, .. } => tag,
    }
}

impl TypedValue {
    /// The union tag or schema type name, as a fresh string.
    pub fn tag_name(&self) -> (r: String)
        ensures
            r@ == spec_tag_name(val_model(*self)),
    {
        match self {
            TypedValue::Bool(_) => "bool".to_owned(),
            TypedValue::UInt8(_) => "UInt8".to_owned(),
            TypedValue::UInt16(_) => "UInt16".to_owned(),
            TypedValue::UInt32(_) => "UInt32".to_owned(),
            TypedValue::UInt64(_) => "UInt64".to_owned(),
            TypedValue::SInt8(_) => "SInt8".to_owned(),
            TypedValue::SInt16(_) => "SInt16".to_owned(),
            TypedValue::SInt32(_) => "SInt32".to_owned(),
            TypedValue::SInt64(_) => "SInt64".to_owned(),
            TypedValue::Float(_) => "float".to_owned(),
            TypedValue::Double(_) => "double".to_owned(),
            TypedValue::UInt8Array(_) => "ByteArray".to_owned(),
            TypedValue::Str(_) => "string".to_owned(),
            TypedValue::Pair(_, _) => "pair".to_owned(),
            TypedValue::GenericArray(_) => "Array".to_owned(),
            TypedValue::GenericPrimitive { tag, .. } => tag.clone(),
            TypedValue::GenericStruct { tag, .. } => tag.clone(),
        }
    }
}

} // verus!
