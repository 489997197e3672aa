use std::io::Cursor;

use image::codecs::dxt::{DXTVariant, DxtDecoder};
use image::ImageDecoder;
use unityfs_view::container::{Resource, UnityFs};
use unityfs_view::decode::TexError;
use unityfs_view::project::{convert_data, HostValue};
use unityfs_view::texture::Texture2D;
use unityfs_view::value::{Field, TypedValue};

fn field(name: &str, value: TypedValue) -> Field {
    Field {
        name: name.to_owned(),
        value,
    }
}

fn stream_struct(path: &str, offset: u32, size: u32) -> TypedValue {
    TypedValue::GenericStruct {
        tag: "StreamingInfo".to_owned(),
        fields: vec![
            field("path", TypedValue::Str(path.as_bytes().to_vec())),
            field("offset", TypedValue::UInt32(offset)),
            field("size", TypedValue::UInt32(size)),
        ],
    }
}

fn texture_struct(
    name: &str,
    width: i32,
    height: i32,
    data: Vec<u8>,
    format: i32,
    stream: TypedValue,
) -> TypedValue {
    TypedValue::GenericStruct {
        tag: "Texture2D".to_owned(),
        fields: vec![
            field("m_Name", TypedValue::Str(name.as_bytes().to_vec())),
            field("m_Width", TypedValue::SInt32(width)),
            field("m_Height", TypedValue::SInt32(height)),
            field("image data", TypedValue::UInt8Array(data)),
            field("m_TextureFormat", TypedValue::SInt32(format)),
            field("m_StreamData", stream),
        ],
    }
}

fn texture_entity(v: TypedValue) -> Texture2D {
    match convert_data(v) {
        Ok(HostValue::Texture(t)) => t,
        Ok(_) => panic!("expected a texture entity"),
        Err(e) => panic!("projection failed: {:?}", projection_error_name(&e)),
    }
}

fn projection_error_name(e: &unityfs_view::project::ProjectError) -> String {
    match e {
        unityfs_view::project::ProjectError::Schema(s) => match s {
            unityfs_view::stream::SchemaError::Missing(f) => format!("missing {}", f),
            unityfs_view::stream::SchemaError::Mismatch(f) => format!("mismatch {}", f),
        },
        unityfs_view::project::ProjectError::Tex(t) => format!("{:?}", t),
    }
}

fn decode_png_rgba(png_bytes: &[u8], width: u32, height: u32) -> Vec<u8> {
    let decoder = png::Decoder::new(png_bytes);
    let (info, mut reader) = decoder.read_info().expect("valid png stream");
    assert_eq!(info.width, width);
    assert_eq!(info.height, height);
    assert_eq!(info.color_type, png::ColorType::RGBA);
    assert_eq!(info.bit_depth, png::BitDepth::Eight);
    let mut buf = vec![0u8; info.buffer_size()];
    reader.next_frame(&mut buf).expect("decodable frame");
    buf
}

fn flip_rows(raster: &[u8], width: u32, height: u32) -> Vec<u8> {
    let stride = (width * 4) as usize;
    let mut out = Vec::with_capacity(raster.len());
    for row in (0..height as usize).rev() {
        out.extend_from_slice(&raster[row * stride..(row + 1) * stride]);
    }
    out
}

fn rgb_to_rgba(raster: &[u8]) -> Vec<u8> {
    let mut out = Vec::with_capacity(raster.len() / 3 * 4);
    for px in raster.chunks(3) {
        out.extend_from_slice(px);
        out.push(255);
    }
    out
}

fn etc1_expected_rgba(data: &[u8], width: usize, height: usize) -> Vec<u8> {
    let mut pixels = vec![0u32; width * height];
    texture2ddecoder::decode_etc1(data, width, height, &mut pixels).expect("decodable etc1");
    let mut raster = Vec::with_capacity(width * height * 4);
    for p in pixels {
        raster.push(((p >> 16) & 0xff) as u8);
        raster.push(((p >> 8) & 0xff) as u8);
        raster.push((p & 0xff) as u8);
        raster.push(((p >> 24) & 0xff) as u8);
    }
    flip_rows(&raster, width as u32, height as u32)
}

const DXT1_BLOCK: [u8; 8] = [0x00, 0xf8, 0x1f, 0x00, 0x00, 0x55, 0x00, 0x55];

#[test]
fn dxt1_inline_data_resolves_at_construction() {
    let tex = texture_entity(texture_struct(
        "stone",
        4,
        4,
        DXT1_BLOCK.to_vec(),
        10,
        stream_struct("", 0, 0),
    ));
    assert_eq!(tex.name(), "stone");
    assert_eq!(tex.width, 4);
    assert_eq!(tex.height, 4);
    assert!(tex.asset_dependency().is_none());
    let png_bytes = tex.image_png().expect("inline data must be resolved");
    assert_eq!(tex.image_png_len(), Some(png_bytes.len()));

    let decoded = decode_png_rgba(png_bytes, 4, 4);

    let dec = DxtDecoder::new(Cursor::new(&DXT1_BLOCK[..]), 4, 4, DXTVariant::DXT1)
        .expect("decoder over a full block");
    let mut raw = vec![0u8; dec.total_bytes() as usize];
    dec.read_image(&mut raw).expect("one full block");
    let expected = flip_rows(&rgb_to_rgba(&raw), 4, 4);
    assert_eq!(decoded, expected);
    assert_ne!(decoded[..16], decoded[48..], "the block's rows must differ");
}

#[test]
fn etc1_streamed_data_resolves_against_matching_bundle() {
    let payload: Vec<u8> = (0u8..16).map(|b| b.wrapping_mul(37).wrapping_add(11)).collect();
    let mut resource = vec![0xaa; 4];
    resource.extend_from_slice(&payload);

    let tex_value = texture_struct(
        "cliff",
        8,
        4,
        Vec::new(),
        34,
        stream_struct("archive:/bundleA/resA", 4, 16),
    );
    let mut tex = texture_entity(tex_value);
    assert_eq!(tex.asset_dependency().as_deref(), Some("archive:/bundleA/resA"));
    assert!(tex.image_png().is_none());

    let fs = UnityFs::load(
        "bundleA".to_owned(),
        "main".to_owned(),
        Vec::new(),
        vec![Resource {
            name: "resA".to_owned(),
            data: resource,
        }],
    );
    tex.try_resolve(&fs).expect("matching bundle resolves");
    let png_bytes = tex.image_png().expect("resolved payload").clone();
    let decoded = decode_png_rgba(&png_bytes, 8, 4);
    assert_eq!(decoded, etc1_expected_rgba(&payload, 8, 4));

    tex.try_resolve(&fs).expect("a second resolve is a no-op");
    let png_again = tex.image_png().expect("still resolved");
    assert_eq!(*png_again, png_bytes);
}

#[test]
fn foreign_bundle_name_is_a_silent_no_op() {
    let mut tex = texture_entity(texture_struct(
        "far",
        8,
        4,
        Vec::new(),
        34,
        stream_struct("archive:/bundleB/resX", 0, 16),
    ));
    let fs = UnityFs::load(
        "bundleA".to_owned(),
        "main".to_owned(),
        Vec::new(),
        vec![Resource {
            name: "resX".to_owned(),
            data: vec![0; 64],
        }],
    );
    tex.try_resolve(&fs).expect("foreign bundle is a no-op");
    assert_eq!(tex.asset_dependency().as_deref(), Some("archive:/bundleB/resX"));
    assert!(tex.image_png().is_none());
}

#[test]
fn missing_resource_is_a_silent_no_op() {
    let mut tex = texture_entity(texture_struct(
        "lost",
        8,
        4,
        Vec::new(),
        34,
        stream_struct("archive:/bundleA/resGone", 0, 16),
    ));
    let fs = UnityFs::load("bundleA".to_owned(), "main".to_owned(), Vec::new(), Vec::new());
    tex.try_resolve(&fs).expect("absent resource is a no-op");
    assert!(tex.asset_dependency().is_some());
}

#[test]
fn out_of_range_slice_is_a_range_error() {
    let mut tex = texture_entity(texture_struct(
        "torn",
        8,
        4,
        Vec::new(),
        34,
        stream_struct("archive:/bundleA/resA", 100, 50),
    ));
    let fs = UnityFs::load(
        "bundleA".to_owned(),
        "main".to_owned(),
        Vec::new(),
        vec![Resource {
            name: "resA".to_owned(),
            data: vec![0; 120],
        }],
    );
    assert_eq!(tex.try_resolve(&fs), Err(TexError::Range));
    assert!(tex.asset_dependency().is_some(), "a failed resolve must not mutate");
    assert!(tex.image_png().is_none());
}

#[test]
fn unrecognized_format_ignores_streaming_descriptor() {
    let mut tex = texture_entity(texture_struct(
        "odd",
        16,
        16,
        vec![1, 2, 3],
        99,
        stream_struct("archive:/bundleA/resA", 0, 3),
    ));
    assert_eq!(tex.width, 16);
    assert_eq!(tex.height, 16);
    assert!(tex.image_png_len().is_none());
    assert!(tex.asset_dependency().is_none());
    let fs = UnityFs::load(
        "bundleA".to_owned(),
        "main".to_owned(),
        Vec::new(),
        vec![Resource {
            name: "resA".to_owned(),
            data: vec![0; 16],
        }],
    );
    tex.try_resolve(&fs).expect("nothing to resolve");
    assert!(tex.image_png().is_none());
    assert!(tex.asset_dependency().is_none());
}

#[test]
fn short_block_stream_is_a_read_error() {
    let r = convert_data(texture_struct(
        "torn",
        8,
        4,
        vec![1, 2, 3],
        34,
        stream_struct("", 0, 0),
    ));
    match r {
        Err(unityfs_view::project::ProjectError::Tex(e)) => assert_eq!(e, TexError::Read),
        other => panic!(
            "expected a read error, got {:?}",
            other.map(|_| "a value").map_err(|e| projection_error_name(&e))
        ),
    }
}

#[test]
fn desktop_dimensions_not_divisible_by_four_are_a_decode_error() {
    let r = convert_data(texture_struct(
        "skew",
        6,
        4,
        DXT1_BLOCK.to_vec(),
        10,
        stream_struct("", 0, 0),
    ));
    match r {
        Err(unityfs_view::project::ProjectError::Tex(e)) => assert_eq!(e, TexError::Decode),
        _ => panic!("expected a decode error"),
    }
}

#[test]
fn zero_dimension_is_an_encode_error() {
    let r = convert_data(texture_struct(
        "empty",
        0,
        4,
        Vec::new(),
        34,
        stream_struct("", 0, 0),
    ));
    match r {
        Err(unityfs_view::project::ProjectError::Tex(e)) => assert_eq!(e, TexError::Encode),
        _ => panic!("expected an encode error"),
    }
}

#[test]
fn path_without_archive_prefix_is_a_no_op() {
    let mut tex = texture_entity(texture_struct(
        "ext",
        8,
        4,
        Vec::new(),
        34,
        stream_struct("vfs:/bundleA/resA", 0, 16),
    ));
    let fs = UnityFs::load(
        "bundleA".to_owned(),
        "main".to_owned(),
        Vec::new(),
        vec![Resource {
            name: "resA".to_owned(),
            data: vec![0; 64],
        }],
    );
    tex.try_resolve(&fs).expect("foreign prefix is a no-op");
    assert!(tex.asset_dependency().is_some());
}

#[test]
fn main_asset_enumerates_objects_and_resources_match_exactly() {
    let objects = vec![
        TypedValue::Bool(true),
        TypedValue::GenericStruct {
            tag: "GameObject".to_owned(),
            fields: vec![],
        },
    ];
    let fs = UnityFs::load(
        "bundleA".to_owned(),
        "level0".to_owned(),
        objects,
        vec![Resource {
            name: "resA".to_owned(),
            data: vec![9, 9],
        }],
    );
    let asset = fs.main_asset();
    assert_eq!(asset.name, "level0");
    assert_eq!(asset.objects.len(), 2);
    assert_eq!(asset.objects[0].tag_name(), "bool");
    assert_eq!(asset.objects[1].tag_name(), "GameObject");
    assert_eq!(fs.container_name(), "bundleA");
    assert_eq!(fs.resource(&"resA".to_owned()), Some(&vec![9u8, 9u8]));
    assert!(fs.resource(&"resa".to_owned()).is_none());
    assert!(fs.resource(&"resA ".to_owned()).is_none());
}

#[test]
fn format_codes_map_to_their_families() {
    let cases: [(i32, usize); 5] = [(12, 16), (34, 8), (45, 8), (46, 8), (47, 16)];
    for (code, block_len) in cases {
        let tex = texture_entity(texture_struct(
            "one",
            4,
            4,
            vec![0u8; block_len],
            code,
            stream_struct("", 0, 0),
        ));
        assert!(
            tex.image_png().is_some(),
            "code {} with one {}-byte block must resolve inline",
            code,
            block_len
        );
    }
    for code in [0, 11, 33, 48, 99, -1] {
        let tex = texture_entity(texture_struct(
            "other",
            4,
            4,
            vec![0u8; 16],
            code,
            stream_struct("", 0, 0),
        ));
        assert!(tex.image_png().is_none(), "code {} must be unrecognized", code);
        assert!(tex.asset_dependency().is_none());
    }
}

#[test]
fn block_stream_boundary_is_exact() {
    let short = convert_data(texture_struct(
        "short",
        8,
        4,
        vec![0u8; 15],
        34,
        stream_struct("", 0, 0),
    ));
    assert!(matches!(
        short,
        Err(unityfs_view::project::ProjectError::Tex(TexError::Read))
    ));
    let exact = convert_data(texture_struct(
        "exact",
        8,
        4,
        vec![0u8; 16],
        34,
        stream_struct("", 0, 0),
    ));
    match exact {
        Ok(HostValue::Texture(t)) => assert!(t.image_png().is_some()),
        _ => panic!("two full blocks must decode"),
    }
}

#[test]
fn path_without_second_segment_is_a_no_op() {
    let mut tex = texture_entity(texture_struct(
        "stub",
        8,
        4,
        Vec::new(),
        34,
        stream_struct("archive:/bundleA", 0, 16),
    ));
    let fs = UnityFs::load(
        "bundleA".to_owned(),
        "main".to_owned(),
        Vec::new(),
        vec![Resource {
            name: "bundleA".to_owned(),
            data: vec![0; 64],
        }],
    );
    tex.try_resolve(&fs).expect("one segment is a no-op");
    assert!(tex.asset_dependency().is_some());
}

#[test]
fn resource_name_runs_to_the_end_of_the_path() {
    let mut tex = texture_entity(texture_struct(
        "deep",
        8,
        4,
        Vec::new(),
        34,
        stream_struct("archive:/bundleA/res/extra", 0, 16),
    ));
    let fs = UnityFs::load(
        "bundleA".to_owned(),
        "main".to_owned(),
        Vec::new(),
        vec![
            Resource {
                name: "res".to_owned(),
                data: vec![7; 16],
            },
            Resource {
                name: "res/extra".to_owned(),
                data: vec![7; 16],
            },
        ],
    );
    tex.try_resolve(&fs)
        .expect("everything after the first separator names the resource");
    assert!(tex.image_png().is_some());

    let mut other = texture_entity(texture_struct(
        "deep",
        8,
        4,
        Vec::new(),
        34,
        stream_struct("archive:/bundleA/res/extra", 0, 16),
    ));
    let shorter = UnityFs::load(
        "bundleA".to_owned(),
        "main".to_owned(),
        Vec::new(),
        vec![Resource {
            name: "res".to_owned(),
            data: vec![7; 16],
        }],
    );
    other
        .try_resolve(&shorter)
        .expect("a prefix of the resource name does not match");
    assert!(other.image_png().is_none());
}

#[test]
fn byte_array_is_wrapped_shallow_and_bytes_deep() {
    let shallow = unityfs_view::project::convert_shallow(TypedValue::UInt8Array(vec![1, 2]));
    let handle = match shallow {
        HostValue::Handle(h) => h,
        _ => panic!("a byte array stays wrapped in a shallow projection"),
    };
    assert_eq!(handle.tag_name(), "ByteArray");
    match handle.data() {
        Ok(HostValue::Bytes(b)) => assert_eq!(b, vec![1, 2]),
        _ => panic!("deep projection exposes the bytes"),
    }
}

#[test]
fn etc2_rgb_payload_matches_the_decoder() {
    let payload: Vec<u8> = (0u8..8).map(|b| b.wrapping_mul(29).wrapping_add(3)).collect();
    let tex = texture_entity(texture_struct(
        "leaf",
        4,
        4,
        payload.clone(),
        45,
        stream_struct("", 0, 0),
    ));
    let decoded = decode_png_rgba(tex.image_png().expect("inline resolve"), 4, 4);
    let mut pixels = vec![0u32; 16];
    texture2ddecoder::decode_etc2_rgb(&payload, 4, 4, &mut pixels).expect("decodable block");
    let mut raster = Vec::new();
    for p in pixels {
        raster.push(((p >> 16) & 0xff) as u8);
        raster.push(((p >> 8) & 0xff) as u8);
        raster.push((p & 0xff) as u8);
        raster.push(((p >> 24) & 0xff) as u8);
    }
    assert_eq!(decoded, flip_rows(&raster, 4, 4));
}

#[test]
fn etc2_rgba8_payload_matches_the_decoder() {
    let payload: Vec<u8> = (0u8..16).map(|b| b.wrapping_mul(53).wrapping_add(7)).collect();
    let tex = texture_entity(texture_struct(
        "glass",
        4,
        4,
        payload.clone(),
        47,
        stream_struct("", 0, 0),
    ));
    let decoded = decode_png_rgba(tex.image_png().expect("inline resolve"), 4, 4);
    let mut pixels = vec![0u32; 16];
    texture2ddecoder::decode_etc2_rgba8(&payload, 4, 4, &mut pixels).expect("decodable block");
    let mut raster = Vec::new();
    for p in pixels {
        raster.push(((p >> 16) & 0xff) as u8);
        raster.push(((p >> 8) & 0xff) as u8);
        raster.push((p & 0xff) as u8);
        raster.push(((p >> 24) & 0xff) as u8);
    }
    assert_eq!(decoded, flip_rows(&raster, 4, 4));
}

#[test]
fn dxt5_payload_matches_the_decoder() {
    let block: Vec<u8> = vec![
        0x10, 0xff, 0x12, 0x34, 0x56, 0x78, 0x9a, 0xbc, 0x00, 0xf8, 0x1f, 0x00, 0x1b, 0x2c,
        0x3d, 0x4e,
    ];
    let tex = texture_entity(texture_struct(
        "decal",
        4,
        4,
        block.clone(),
        12,
        stream_struct("", 0, 0),
    ));
    let decoded = decode_png_rgba(tex.image_png().expect("inline resolve"), 4, 4);
    let dec = DxtDecoder::new(Cursor::new(&block[..]), 4, 4, DXTVariant::DXT5)
        .expect("decoder over a full block");
    let mut raw = vec![0u8; dec.total_bytes() as usize];
    dec.read_image(&mut raw).expect("one full block");
    assert_eq!(decoded, flip_rows(&raw, 4, 4));
}

#[test]
fn zero_width_desktop_texture_is_an_encode_error() {
    let r = convert_data(texture_struct(
        "void",
        0,
        0,
        Vec::new(),
        10,
        stream_struct("", 0, 0),
    ));
    match r {
        Err(unityfs_view::project::ProjectError::Tex(e)) => assert_eq!(e, TexError::Encode),
        _ => panic!("zero dimensions must be an encode error, not a panic"),
    }
}

#[test]
fn zero_width_with_skewed_height_is_a_decode_error() {
    let r = convert_data(texture_struct(
        "void",
        0,
        5,
        Vec::new(),
        10,
        stream_struct("", 0, 0),
    ));
    match r {
        Err(unityfs_view::project::ProjectError::Tex(e)) => assert_eq!(e, TexError::Decode),
        _ => panic!("a height not divisible by four is rejected before encoding"),
    }
}
