//! The texture entity and its reconstruction state machine: resolved at
//! construction, deferred until its bytes are pulled from a named resource,
//! or unrecognized for good.

use vstd::prelude::*;

use crate::container::{container_model, lookup_resource, ContainerModel, UnityFs};
use crate::decode::{read, read_spec, DecodeFormat, TexError};
use crate::stream::{parse_path, parse_stream_path, str_eq, stream_model, StreamModel,
    StreamingInfo};

verus! {

/// Where a texture's pixel data stands: already reconstructed, parked
/// behind a streaming descriptor, or never decodable.
pub enum ImageData {
    Loaded(Vec<u8>),
    Streaming(DecodeFormat, StreamingInfo),
    Unknown,
}

/// The mathematical shadow of the pixel-data state.
pub enum ImageDataModel {
    Loaded(Seq<u8>),
    Streaming(DecodeFormat, StreamModel),
    Unknown,
}

/// The shadow of one state.
pub open spec fn image_data_model(d: ImageData) -> ImageDataModel {
    match d {
        ImageData::Loaded(png) => ImageDataModel::Loaded(png@),
        ImageData::Streaming(fmt, si) => ImageDataModel::Streaming(fmt, stream_model(si)),
        ImageData::Unknown => ImageDataModel::Unknown,
    }
}

/// One 2D texture asset: its name, dimensions, and pixel-data state.
pub struct Texture2D {
    pub name: String,
    pub width: u32,
    pub height: u32,
    pub image_data: ImageData,
}

/// The mathematical shadow of one texture entity.
pub struct TexModel {
    pub name: Seq<char>,
    pub width: u32,
    pub height: u32,
    pub image: ImageDataModel,
}

/// The shadow of one texture.
pub open spec fn tex_model(t: Texture2D) -> TexModel {
    TexModel {
        name: t.name@,
        width: t.width,
        height: t.height,
        image: image_data_model(t.image_data),
    }
}

/// What one resolution attempt against a container does to a deferred
/// texture: nothing, a fatal error, or a finished payload.
pub enum ResolveOutcome {
    Skip,
    Fail(TexError),
    Load(Seq<u8>),
}

/// The resolution decision for a deferred texture: a path without the
/// archive prefix or a resource part, a foreign bundle name, or an absent
/// resource is a silent no-op; a slice beyond the resource is fatal; and
/// otherwise the sliced window is decoded and encoded like inline data.
pub open spec fn resolve_spec(
    fmt: DecodeFormat,
    si: StreamModel,
    c: ContainerModel,
    width: u32,
    height: u32,
) -> ResolveOutcome {
    match parse_path(si.path) {
        None => ResolveOutcome::Skip,
        Some(parts) => if c.name != parts.0 {
            ResolveOutcome::Skip
        } else {
            match lookup_resource(c.resources, parts.1) {
                None => ResolveOutcome::Skip,
                Some(bytes) => if si.offset > bytes.len() || si.size > bytes.len() - si.offset {
                    ResolveOutcome::Fail(TexError::Range)
                } else {
                    match read_spec(
                        width,
                        height,
                        fmt,
                        bytes.subrange(si.offset as int, si.offset as int + si.size as int),
                    ) {
                        Ok(png) => ResolveOutcome::Load(png),
                        Err(e) => ResolveOutcome::Fail(e),
                    }
                },
            }
        },
    }
}

impl Texture2D {
    /// The texture's name.
    pub fn name(&self) -> (r: String)
        ensures
            r@ == tex_model(*self).name,
    {
        self.name.clone()
    }

    /// The encoded payload, present exactly when the texture is resolved.
    pub fn image_png(&self) -> (r: Option<&Vec<u8>>)
        ensures
            (match r {
                Some(png) => tex_model(*self).image == ImageDataModel::Loaded(png@),
                None => !(tex_model(*self).image is Loaded),
            }),
    {
        match &self.image_data {
            ImageData::Loaded(png) => Some(png),
            _ => None,
        }
    }

    /// Length of the encoded payload, present exactly when resolved.
    pub fn image_png_len(&self) -> (r: Option<usize>)
        ensures
            (match r {
                Some(n) => tex_model(*self).image matches ImageDataModel::Loaded(png)
                    && png.len() == n,
                None => !(tex_model(*self).image is Loaded),
            }),
    {
        match &self.image_data {
            ImageData::Loaded(png) => Some(png.len()),
            _ => None,
        }
    }

    /// The streaming path still to be fetched, present exactly when the
    /// texture is deferred.
    pub fn asset_dependency(&self) -> (r: Option<String>)
        ensures
            (match r {
                Some(path) => tex_model(*self).image matches ImageDataModel::Streaming(_, si)
                    && si.path == path@,
                None => !(tex_model(*self).image is Streaming),
            }),
    {
        match &self.image_data {
            ImageData::Streaming(_, si) => Some(si.path.clone()),
            _ => None,
        }
    }

    /// Attempts to pull a deferred texture's bytes out of the given
    /// container and finish decoding. Success either resolves the texture
    /// or leaves it deferred for a container that is not the one named;
    /// on error nothing is mutated. Anything but a deferred texture is
    /// untouched.
    pub fn try_resolve(&mut self, fs: &UnityFs) -> (r: Result<(), TexError>)
        ensures
            tex_model(*final(self)).name == tex_model(*old(self)).name,
            final(self).width == old(self).width,
            final(self).height == old(self).height,
            (match image_data_model(old(self).image_data) {
                ImageDataModel::Streaming(fmt, si) => {
                    match resolve_spec(fmt, si, container_model(*fs), old(self).width, old(
                        self,
                    ).height) {
                        ResolveOutcome::Skip => r is Ok && tex_model(*final(self))
                            == tex_model(*old(self)),
                        ResolveOutcome::Fail(e) => r == Err::<(), TexError>(e) && tex_model(
                            *final(self),
                        ) == tex_model(*old(self)),
                        ResolveOutcome::Load(png) => r is Ok && tex_model(*final(self)).image
                            == ImageDataModel::Loaded(png),
                    }
                },
                _ => r is Ok && tex_model(*final(self)) == tex_model(*old(self)),
            }),
    {
        let (fmt, path, offset, size) = match &self.image_data {
            ImageData::Streaming(fmt, si) => (*fmt, si.path.clone(), si.offset, si.size),
            _ => {
                return Ok(());
            },
        };
        let parts = match parse_stream_path(&path) {
            Some(parts) => parts,
            None => {
                return Ok(());
            },
        };
        if !str_eq(fs.container_name().as_str(), parts.0.as_str()) {
            return Ok(());
        }
        let resource = match fs.resource(&parts.1) {
            Some(resource) => resource,
            None => {
                return Ok(());
            },
        };
        let off = offset as usize;
        let sz = size as usize;
        if off > resource.len() || sz > resource.len() - off {
            return Err(TexError::Range);
        }
        let window = sub_bytes(resource, off, sz);
        match read(self.width, self.height, fmt, &window) {
            Ok(png) => {
                self.image_data = ImageData::Loaded(png);
                Ok(())
            },
            Err(e) => Err(e),
        }
    }
}

impl Texture2D {
    /// Decodes inline pixel data at once: the entity is born resolved, or
    /// the decode error is surfaced and no entity exists.
    pub(crate) fn load(
        name: String,
        width: u32,
        height: u32,
        format: DecodeFormat,
        data: &Vec<u8>,
    ) -> (r: Result<Texture2D, TexError>)
        ensures
            (match r {
                Ok(t) => read_spec(width, height, format, data@) matches Ok(png) && tex_model(t)
                    == (TexModel {
                    name: name@,
                    width,
                    height,
                    image: ImageDataModel::Loaded(png),
                }),
                Err(e) => read_spec(width, height, format, data@) == Err::<Seq<u8>, TexError>(e),
            }),
    {
        match read(width, height, format, data) {
            Ok(png) => Ok(
                Texture2D { name, width, height, image_data: ImageData::Loaded(png) },
            ),
            Err(e) => Err(e),
        }
    }

    /// Parks the pixel data behind its streaming descriptor.
    pub(crate) fn defer(
        name: String,
        width: u32,
        height: u32,
        format: DecodeFormat,
        streaming_info: StreamingInfo,
    ) -> (r: Texture2D)
        ensures
            tex_model(r) == (TexModel {
                name: name@,
                width,
                height,
                image: ImageDataModel::Streaming(format, stream_model(streaming_info)),
            }),
    {
        Texture2D { name, width, height, image_data: ImageData::Streaming(format, streaming_info) }
    }

    /// A texture whose format code nothing here can decode: dimensions are
    /// still known, pixel data never will be.
    pub(crate) fn unknown(name: String, width: u32, height: u32) -> (r: Texture2D)
        ensures
            tex_model(r) == (TexModel {
                name: name@,
                width,
                height,
                image: ImageDataModel::Unknown,
            }),
    {
        Texture2D { name, width, height, image_data: ImageData::Unknown }
    }
}

/// A fresh copy of `len` bytes starting at `start`.
fn sub_bytes(data: &Vec<u8>, start: usize, len: usize) -> (r: Vec<u8>)
    requires
        start + len <= data@.len(),
    ensures
        r@ == data@.subrange(start as int, start as int + len as int),
{
    let datalen: usize = data.len();
    let mut out: Vec<u8> = Vec::new();
    let mut i: usize = 0;
    while i < len
        invariant
            i <= len,
            datalen == data@.len(),
            start + len <= datalen,
            out@ == data@.subrange(start as int, start as int + i as int),
        decreases len - i,
    {
        out.push(data[start + i]);
        i = i + 1;
        proof {
            assert(out@ =~= data@.subrange(start as int, start as int + i as int));
        }
    }
    out
}

} // verus!
