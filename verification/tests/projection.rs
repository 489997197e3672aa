use unityfs_view::project::{convert_data, convert_shallow, HostValue, ProjectError, UnityObject};
use unityfs_view::stream::{SchemaError, StreamingInfo};
use unityfs_view::value::{Field, TypedValue};

fn field(name: &str, value: TypedValue) -> Field {
    Field {
        name: name.to_owned(),
        value,
    }
}

#[test]
fn scalar_projection_round_trip() {
    match convert_shallow(TypedValue::UInt8(200)) {
        HostValue::Int(x) => assert_eq!(x, 200),
        _ => panic!("expected a number"),
    }
    match convert_shallow(TypedValue::SInt64(-1234567890123)) {
        HostValue::Int(x) => assert_eq!(x, -1234567890123),
        _ => panic!("expected a number"),
    }
    match convert_shallow(TypedValue::UInt64(u64::MAX)) {
        HostValue::Int(x) => assert_eq!(x, u64::MAX as i128),
        _ => panic!("expected a number"),
    }
    match convert_data(TypedValue::SInt32(-77)) {
        Ok(HostValue::Int(x)) => assert_eq!(x, -77),
        _ => panic!("expected a number"),
    }
    match convert_shallow(TypedValue::Bool(true)) {
        HostValue::Bool(b) => assert!(b),
        _ => panic!("expected a bool"),
    }
}

#[test]
fn float_projection_keeps_bits() {
    let bits = 1.5f32.to_bits();
    match convert_shallow(TypedValue::Float(bits)) {
        HostValue::Float32(b) => assert_eq!(f32::from_bits(b), 1.5f32),
        _ => panic!("expected float bits"),
    }
    let dbits = 2.25f64.to_bits();
    match convert_shallow(TypedValue::Double(dbits)) {
        HostValue::Float64(b) => assert_eq!(f64::from_bits(b), 2.25f64),
        _ => panic!("expected double bits"),
    }
}

#[test]
fn valid_utf8_projects_to_text() {
    match convert_shallow(TypedValue::Str(b"hello world".to_vec())) {
        HostValue::Text(t) => assert_eq!(t, "hello world"),
        _ => panic!("expected text"),
    }
}

#[test]
fn invalid_utf8_projects_to_bytes() {
    let raw = vec![0xff, 0xfe, 0x41];
    match convert_shallow(TypedValue::Str(raw.clone())) {
        HostValue::Bytes(b) => assert_eq!(b, raw),
        _ => panic!("expected raw bytes"),
    }
}

#[test]
fn shallow_array_keeps_nested_struct_wrapped() {
    let nested = TypedValue::GenericStruct {
        tag: "Inner".to_owned(),
        fields: vec![field("x", TypedValue::UInt16(7))],
    };
    let arr = TypedValue::GenericArray(vec![TypedValue::UInt8(1), nested]);
    let values = match convert_data(arr) {
        Ok(HostValue::Values(vs)) => vs,
        _ => panic!("expected an array"),
    };
    assert_eq!(values.len(), 2);
    match &values[0] {
        HostValue::Int(x) => assert_eq!(*x, 1),
        _ => panic!("expected a number"),
    }
    let handle: &UnityObject = match &values[1] {
        HostValue::Handle(h) => h,
        _ => panic!("shallow projection must wrap a nested struct"),
    };
    assert_eq!(handle.tag_name(), "Inner");
    match handle.data() {
        Ok(HostValue::Record(entries)) => {
            assert_eq!(entries.len(), 1);
            assert_eq!(entries[0].name, "x");
            match &entries[0].value {
                HostValue::Int(x) => assert_eq!(*x, 7),
                _ => panic!("expected a number"),
            }
        }
        _ => panic!("deep projection must expand the struct"),
    }
}

#[test]
fn shallow_array_keeps_nested_array_wrapped() {
    let nested = TypedValue::GenericArray(vec![TypedValue::Bool(false)]);
    let arr = TypedValue::GenericArray(vec![nested]);
    let values = match convert_data(arr) {
        Ok(HostValue::Values(vs)) => vs,
        _ => panic!("expected an array"),
    };
    match &values[0] {
        HostValue::Handle(h) => match h.data() {
            Ok(HostValue::Values(inner)) => assert_eq!(inner.len(), 1),
            _ => panic!("deep projection must expand the array"),
        },
        _ => panic!("shallow projection must wrap a nested array"),
    }
}

#[test]
fn pair_projects_to_two_handles() {
    let pair = TypedValue::Pair(
        Box::new(TypedValue::UInt8(1)),
        Box::new(TypedValue::Str(b"x".to_vec())),
    );
    match convert_data(pair) {
        Ok(HostValue::Values(vs)) => {
            assert_eq!(vs.len(), 2);
            assert!(matches!(vs[0], HostValue::Handle(_)));
            assert!(matches!(vs[1], HostValue::Handle(_)));
        }
        _ => panic!("expected a pair of handles"),
    }
}

#[test]
fn primitive_projects_to_bytes() {
    let prim = TypedValue::GenericPrimitive {
        tag: "Blob".to_owned(),
        data: vec![1, 2, 3],
    };
    match convert_data(prim) {
        Ok(HostValue::Bytes(b)) => assert_eq!(b, vec![1, 2, 3]),
        _ => panic!("expected bytes"),
    }
}

#[test]
fn tag_names_cover_the_union() {
    assert_eq!(TypedValue::Bool(true).tag_name(), "bool");
    assert_eq!(TypedValue::UInt8(0).tag_name(), "UInt8");
    assert_eq!(TypedValue::UInt16(0).tag_name(), "UInt16");
    assert_eq!(TypedValue::UInt32(0).tag_name(), "UInt32");
    assert_eq!(TypedValue::UInt64(0).tag_name(), "UInt64");
    assert_eq!(TypedValue::SInt8(0).tag_name(), "SInt8");
    assert_eq!(TypedValue::SInt16(0).tag_name(), "SInt16");
    assert_eq!(TypedValue::SInt32(0).tag_name(), "SInt32");
    assert_eq!(TypedValue::SInt64(0).tag_name(), "SInt64");
    assert_eq!(TypedValue::Float(0).tag_name(), "float");
    assert_eq!(TypedValue::Double(0).tag_name(), "double");
    assert_eq!(TypedValue::UInt8Array(vec![]).tag_name(), "ByteArray");
    assert_eq!(TypedValue::Str(vec![]).tag_name(), "string");
    let pair = TypedValue::Pair(
        Box::new(TypedValue::Bool(false)),
        Box::new(TypedValue::Bool(true)),
    );
    assert_eq!(pair.tag_name(), "pair");
    assert_eq!(TypedValue::GenericArray(vec![]).tag_name(), "Array");
    let named = TypedValue::GenericStruct {
        tag: "GameObject".to_owned(),
        fields: vec![],
    };
    assert_eq!(named.tag_name(), "GameObject");
}

#[test]
fn texture_missing_width_is_schema_error() {
    let tex = TypedValue::GenericStruct {
        tag: "Texture2D".to_owned(),
        fields: vec![field("m_Name", TypedValue::Str(b"tex".to_vec()))],
    };
    match convert_data(tex) {
        Err(ProjectError::Schema(SchemaError::Missing(f))) => assert_eq!(f, "m_Width"),
        _ => panic!("a texture without m_Width must fail naming the field"),
    }
}

#[test]
fn texture_wrong_height_variant_is_schema_error() {
    let tex = TypedValue::GenericStruct {
        tag: "Texture2D".to_owned(),
        fields: vec![
            field("m_Name", TypedValue::Str(b"tex".to_vec())),
            field("m_Width", TypedValue::SInt32(4)),
            field("m_Height", TypedValue::UInt32(4)),
        ],
    };
    match convert_data(tex) {
        Err(ProjectError::Schema(SchemaError::Mismatch(f))) => assert_eq!(f, "m_Height"),
        _ => panic!("a wrong-variant field must fail naming the field"),
    }
}

#[test]
fn streaming_info_shape_is_checked_strictly() {
    let bad = TypedValue::GenericStruct {
        tag: "StreamingInfo".to_owned(),
        fields: vec![
            field("path", TypedValue::Str(b"p".to_vec())),
            field("offset", TypedValue::UInt16(1)),
            field("size", TypedValue::UInt32(2)),
        ],
    };
    match StreamingInfo::from_data(&bad) {
        Err(SchemaError::Mismatch(f)) => assert_eq!(f, "StreamingInfo"),
        _ => panic!("a wrong-variant offset must be a mismatch"),
    }
    let good = TypedValue::GenericStruct {
        tag: "StreamingInfo".to_owned(),
        fields: vec![
            field("path", TypedValue::Str(b"archive:/a/b".to_vec())),
            field("offset", TypedValue::UInt32(5)),
            field("size", TypedValue::UInt32(9)),
        ],
    };
    let si = StreamingInfo::from_data(&good).expect("well-shaped descriptor");
    assert_eq!(si.path, "archive:/a/b");
    assert_eq!(si.offset, 5);
    assert_eq!(si.size, 9);
}

#[test]
fn unrecognized_struct_tag_falls_through_to_record() {
    let rec = TypedValue::GenericStruct {
        tag: "NotATexture".to_owned(),
        fields: vec![
            field("a", TypedValue::UInt8(1)),
            field("b", TypedValue::Str(b"two".to_vec())),
        ],
    };
    match convert_data(rec) {
        Ok(HostValue::Record(entries)) => {
            assert_eq!(entries.len(), 2);
            assert_eq!(entries[0].name, "a");
            assert_eq!(entries[1].name, "b");
            match &entries[1].value {
                HostValue::Text(t) => assert_eq!(t, "two"),
                _ => panic!("expected text"),
            }
        }
        _ => panic!("expected a record"),
    }
}

#[test]
fn lossy_name_decoding_keeps_valid_text() {
    let name_bytes = vec![0x74, 0x65, 0x78, 0xff];
    let tex = TypedValue::GenericStruct {
        tag: "Texture2D".to_owned(),
        fields: vec![
            field("m_Name", TypedValue::Str(name_bytes)),
            field("m_Width", TypedValue::SInt32(4)),
            field("m_Height", TypedValue::SInt32(4)),
            field("image data", TypedValue::UInt8Array(vec![])),
            field("m_TextureFormat", TypedValue::SInt32(99)),
        ],
    };
    match convert_data(tex) {
        Ok(HostValue::Texture(t)) => {
            assert_eq!(t.name(), "tex\u{fffd}");
        }
        _ => panic!("expected a texture entity"),
    }
}
