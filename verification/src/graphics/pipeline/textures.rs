//! Texture assets, and what it takes to upload them.
use vstd::arithmetic::div_mod::*;
use vstd::arithmetic::power2::*;
use vstd::prelude::*;

use crate::assets::{Assets, Handle};
use crate::graphics::pipeline::mipmap;
use crate::graphics::pipeline::mipmap::{mip_count, mip_dimension, texture_usage_for, MipLevels};
use crate::graphics::pipeline::pixels;
use crate::graphics::pipeline::pixels::{decode_file, DecodeError};
use crate::graphics::types::{Limits, TextureFormat, TextureUsages};

verus! {

/// A 2D texture asset: `from_file`, `from_data` or `empty`, then `with_*`
/// calls, then [`build_asset`](Self::build_asset). An empty texture can be
/// rendered into.
pub struct Texture {
    pub file: Option<&'static str>,
    pub width: u32,
    pub height: u32,
    pub format: TextureFormat,
    pub data: Option<Vec<u8>>,
    pub mip_levels: MipLevels,
    pub sample_count: u32,
    pub extra_usage: TextureUsages,
}

impl Texture {
    /// What every texture is at first, but for its source.
    pub open spec fn plain(
        self,
        file: Option<&'static str>,
        width: u32,
        height: u32,
        format: TextureFormat,
    ) -> bool {
        &&& self.file == file
        &&& self.width == width
        &&& self.height == height
        &&& self.format == format
        &&& self.mip_levels == MipLevels::Single
        &&& self.sample_count == 1
        &&& self.extra_usage == TextureUsages::none()
    }

    /// A texture that is decoded from a file whenever it is uploaded.
    pub fn from_file(path: &'static str) -> (texture: Self)
        ensures
            texture.plain(Some(path), 0, 0, TextureFormat::Rgba8UnormSrgb),
            texture.data is None,
    {
        Texture {
            file: Some(path),
            width: 0,
            height: 0,
            format: TextureFormat::Rgba8UnormSrgb,
            data: None,
            mip_levels: MipLevels::Single,
            sample_count: 1,
            extra_usage: TextureUsages::empty(),
        }
    }

    /// A texture with these pixels.
    pub fn from_data(width: u32, height: u32, format: TextureFormat, data: Vec<u8>) -> (texture:
        Self)
        ensures
            texture.plain(None, width, height, format),
            texture.data == Some(data),
    {
        Texture {
            file: None,
            width,
            height,
            format,
            data: Some(data),
            mip_levels: MipLevels::Single,
            sample_count: 1,
            extra_usage: TextureUsages::empty(),
        }
    }

    /// A texture without source data: a render target, or something to write
    /// later.
    pub fn empty(width: u32, height: u32, format: TextureFormat) -> (texture: Self)
        ensures
            texture.plain(None, width, height, format),
            texture.data is None,
    {
        Texture {
            file: None,
            width,
            height,
            format,
            data: None,
            mip_levels: MipLevels::Single,
            sample_count: 1,
            extra_usage: TextureUsages::empty(),
        }
    }

    /// Multisamples this texture.
    pub fn with_sample_count(self, count: u32) -> (texture: Self)
        ensures
            texture == (Texture { sample_count: count, ..self }),
    {
        Texture { sample_count: count, ..self }
    }

    /// Adds usages on top of those that this texture gets by default.
    pub fn with_extra_usage(self, usage: TextureUsages) -> (texture: Self)
        ensures
            texture == (Texture { extra_usage: usage, ..self }),
    {
        Texture { extra_usage: usage, ..self }
    }

    pub fn with_format(self, format: TextureFormat) -> (texture: Self)
        ensures
            texture == (Texture { format, ..self }),
    {
        Texture { format, ..self }
    }

    /// Generates every mip level down to a single pixel.
    pub fn with_mips(self) -> (texture: Self)
        ensures
            texture == (Texture { mip_levels: MipLevels::Full, ..self }),
    {
        Texture { mip_levels: MipLevels::Full, ..self }
    }

    /// Generates exactly `count` mip levels.
    pub fn with_mip_count(self, count: u32) -> (texture: Self)
        ensures
            texture == (Texture { mip_levels: MipLevels::Fixed(count), ..self }),
    {
        Texture { mip_levels: MipLevels::Fixed(count), ..self }
    }

    /// Whether the texture has pixels and a side of zero length, which is
    /// worth a warning: the arguments may have been swapped.
    pub fn validate(&self) -> (suspicious: bool)
        ensures
            suspicious == (self.data is Some && (self.width == 0 || self.height == 0)),
    {
        self.data.is_some() && (self.width == 0 || self.height == 0)
    }

    /// Stores the texture under `name`.
    pub fn build_asset(self, name: &str, assets: &mut Assets<Texture>) -> (handle: Handle<Texture>)
        ensures
            final(assets)@ == old(assets)@.push((name@, self)),
            handle.index() == old(assets)@.len(),
    {
        assets.insert(name, self)
    }

    /// The pixels on the CPU side. Only a texture from data has them.
    pub fn data(&self) -> (data: Option<&[u8]>)
        ensures
            match data {
                Some(pixels) => self.data is Some && pixels@ == self.data->Some_0@,
                None => self.data is None,
            },
    {
        match &self.data {
            Some(pixels) => Some(pixels.as_slice()),
            None => None,
        }
    }

    /// Frees the pixels on the CPU side: uploading the texture again then
    /// gives an empty one.
    pub fn release_cpu_data(&mut self)
        ensures
            *final(self) == (Texture { data: None, ..*old(self) }),
    {
        self.data = None;
    }
}

/// How many bytes a pixel takes. `None` for formats without a linear layout:
/// block-compressed, multi-planar, and depth or stencil formats.
pub open spec fn pixel_bytes(format: TextureFormat) -> Option<u32> {
    match format {
        TextureFormat::R8Unorm
        | TextureFormat::R8Snorm
        | TextureFormat::R8Uint
        | TextureFormat::R8Sint => Some(1u32),
        TextureFormat::R16Uint
        | TextureFormat::R16Sint
        | TextureFormat::R16Unorm
        | TextureFormat::R16Snorm
        | TextureFormat::R16Float
        | TextureFormat::Rg8Unorm
        | TextureFormat::Rg8Snorm
        | TextureFormat::Rg8Uint
        | TextureFormat::Rg8Sint => Some(2u32),
        TextureFormat::R32Uint
        | TextureFormat::R32Sint
        | TextureFormat::R32Float
        | TextureFormat::Rg16Uint
        | TextureFormat::Rg16Sint
        | TextureFormat::Rg16Unorm
        | TextureFormat::Rg16Snorm
        | TextureFormat::Rg16Float
        | TextureFormat::Rgba8Unorm
        | TextureFormat::Rgba8UnormSrgb
        | TextureFormat::Rgba8Snorm
        | TextureFormat::Rgba8Uint
        | TextureFormat::Rgba8Sint
        | TextureFormat::Bgra8Unorm
        | TextureFormat::Bgra8UnormSrgb
        | TextureFormat::Rgb10a2Uint
        | TextureFormat::Rgb10a2Unorm
        | TextureFormat::Rg11b10Ufloat
        | TextureFormat::Rgb9e5Ufloat => Some(4u32),
        TextureFormat::R64Uint
        | TextureFormat::Rg32Uint
        | TextureFormat::Rg32Sint
        | TextureFormat::Rg32Float
        | TextureFormat::Rgba16Uint
        | TextureFormat::Rgba16Sint
        | TextureFormat::Rgba16Unorm
        | TextureFormat::Rgba16Snorm
        | TextureFormat::Rgba16Float => Some(8u32),
        TextureFormat::Rgba32Uint
        | TextureFormat::Rgba32Sint
        | TextureFormat::Rgba32Float => Some(16u32),
        _ => None,
    }
}

/// How many bytes a pixel takes, for formats with a linear layout.
pub fn bytes_per_pixel(format: TextureFormat) -> (bytes: Option<u32>)
    ensures
        bytes == pixel_bytes(format),
{
    match format {
        TextureFormat::R8Unorm
        | TextureFormat::R8Snorm
        | TextureFormat::R8Uint
        | TextureFormat::R8Sint => Some(1u32),
        TextureFormat::R16Uint
        | TextureFormat::R16Sint
        | TextureFormat::R16Unorm
        | TextureFormat::R16Snorm
        | TextureFormat::R16Float
        | TextureFormat::Rg8Unorm
        | TextureFormat::Rg8Snorm
        | TextureFormat::Rg8Uint
        | TextureFormat::Rg8Sint => Some(2u32),
        TextureFormat::R32Uint
        | TextureFormat::R32Sint
        | TextureFormat::R32Float
        | TextureFormat::Rg16Uint
        | TextureFormat::Rg16Sint
        | TextureFormat::Rg16Unorm
        | TextureFormat::Rg16Snorm
        | TextureFormat::Rg16Float
        | TextureFormat::Rgba8Unorm
        | TextureFormat::Rgba8UnormSrgb
        | TextureFormat::Rgba8Snorm
        | TextureFormat::Rgba8Uint
        | TextureFormat::Rgba8Sint
        | TextureFormat::Bgra8Unorm
        | TextureFormat::Bgra8UnormSrgb
        | TextureFormat::Rgb10a2Uint
        | TextureFormat::Rgb10a2Unorm
        | TextureFormat::Rg11b10Ufloat
        | TextureFormat::Rgb9e5Ufloat => Some(4u32),
        TextureFormat::R64Uint
        | TextureFormat::Rg32Uint
        | TextureFormat::Rg32Sint
        | TextureFormat::Rg32Float
        | TextureFormat::Rgba16Uint
        | TextureFormat::Rgba16Sint
        | TextureFormat::Rgba16Unorm
        | TextureFormat::Rgba16Snorm
        | TextureFormat::Rgba16Float => Some(8u32),
        TextureFormat::Rgba32Uint
        | TextureFormat::Rgba32Sint
        | TextureFormat::Rgba32Float => Some(16u32),
        _ => None,
    }
}

/// Pixels to be written into one mip level of a texture.
#[derive(Clone, Copy, PartialEq, Eq, Structural, Debug)]
pub struct MipWrite {
    pub mip_level: u32,
    pub origin_z: u32,
    pub width: u32,
    pub height: u32,
    pub bytes_per_row: u32,
    pub rows_per_image: u32,
}

/// What is written into a mip level of a texture that is `width` by `height`:
/// all of it, in rows without gaps.
pub open spec fn is_mip_write(
    write: MipWrite,
    origin_z: u32,
    mip_level: u32,
    format: TextureFormat,
    width: u32,
    height: u32,
) -> bool {
    &&& write.mip_level == mip_level
    &&& write.origin_z == origin_z
    &&& write.width == mipmap::mip_size(width as nat, mip_level as nat)
    &&& write.height == mipmap::mip_size(height as nat, mip_level as nat)
    &&& pixel_bytes(format) is Some
    &&& write.bytes_per_row == pixel_bytes(format)->Some_0 * write.width
    &&& write.rows_per_image == write.height
}

/// The format has a linear layout, and a row of the mip level of a texture
/// this wide takes a number of bytes that 32 bits can hold.
pub open spec fn row_fits(format: TextureFormat, width: u32, mip_level: u32) -> bool {
    &&& pixel_bytes(format) is Some
    &&& pixel_bytes(format)->Some_0 * mipmap::mip_size(width as nat, mip_level as nat) <= u32::MAX
}

/// Whether a row of the mip level fits.
fn row_is_countable(format: TextureFormat, width: u32, mip_level: u32) -> (countable: bool)
    requires
        mip_level < 32,
    ensures
        countable == row_fits(format, width, mip_level),
{
    match bytes_per_pixel(format) {
        Some(bytes) => {
            let width: u32 = mip_dimension(width, mip_level);
            assert(bytes as u64 * width as u64 <= u64::MAX) by (nonlinear_arith)
                requires
                    bytes <= u32::MAX,
                    width <= u32::MAX,
            ;
            bytes as u64 * width as u64 <= u32::MAX as u64
        },
        None => false,
    }
}

/// How to write a mip level of a texture that is `width` by `height`. There
/// are no more than 32 levels, and the format must have a linear layout.
pub fn write_texture_mip(
    origin_z: u32,
    mip_level: u32,
    format: TextureFormat,
    width: u32,
    height: u32,
) -> (write: MipWrite)
    requires
        mip_level < 32,
        row_fits(format, width, mip_level),
    ensures
        is_mip_write(write, origin_z, mip_level, format, width, height),
{
    let width: u32 = mip_dimension(width, mip_level);
    let height: u32 = mip_dimension(height, mip_level);
    let bytes: u32 = match bytes_per_pixel(format) {
        Some(bytes) => bytes,
        None => 0,
    };
    MipWrite {
        mip_level,
        origin_z,
        width,
        height,
        bytes_per_row: bytes * width,
        rows_per_image: height,
    }
}

/// Why a device cannot hold a texture.
#[derive(Clone, Copy, PartialEq, Eq, Structural, Debug)]
pub enum TextureSizeError {
    Dimensions { width: u32, height: u32, max: u32 },
    ArrayLayers { count: u32, max: u32 },
}

/// Tests a texture's sides against the device's limit.
pub fn check_texture_dimensions(limits: &Limits, width: u32, height: u32) -> (checked: Result<
    (),
    TextureSizeError,
>)
    ensures
        checked == (if width > limits.max_texture_dimension_2d || height
            > limits.max_texture_dimension_2d {
            Err::<(), TextureSizeError>(
                TextureSizeError::Dimensions { width, height, max: limits.max_texture_dimension_2d },
            )
        } else {
            Ok::<(), TextureSizeError>(())
        }),
{
    let max: u32 = limits.max_texture_dimension_2d;
    if width > max || height > max {
        return Err(TextureSizeError::Dimensions { width, height, max });
    }
    Ok(())
}

/// Tests a texture's number of layers against the device's limit.
pub fn check_texture_array_layers(limits: &Limits, layer_count: u32) -> (checked: Result<
    (),
    TextureSizeError,
>)
    ensures
        checked == (if layer_count > limits.max_texture_array_layers {
            Err::<(), TextureSizeError>(
                TextureSizeError::ArrayLayers {
                    count: layer_count,
                    max: limits.max_texture_array_layers,
                },
            )
        } else {
            Ok::<(), TextureSizeError>(())
        }),
{
    let max: u32 = limits.max_texture_array_layers;
    if layer_count > max {
        return Err(TextureSizeError::ArrayLayers { count: layer_count, max });
    }
    Ok(())
}

// ---------------------------------------------------------------------------
// Upload
// ---------------------------------------------------------------------------

/// Why a texture cannot be uploaded.
#[derive(Clone, Copy, PartialEq, Eq, Structural, Debug)]
pub enum UploadError {
    Size(TextureSizeError),
    /// The file cannot be decoded into the format, or the format has no
    /// linear layout for the pixels.
    UnsupportedFormat,
    /// A row of pixels takes more bytes than 32 bits can count.
    RowTooLong,
}

/// How to upload a texture: create it, write the pixels into its first level
/// if there are any, and generate the other levels from that one if it has
/// more.
pub struct UploadPlan {
    pub width: u32,
    pub height: u32,
    pub mip_count: u32,
    pub sample_count: u32,
    pub format: TextureFormat,
    pub usage: TextureUsages,
    pub write: Option<(MipWrite, Vec<u8>)>,
    pub generate_mips: bool,
}

/// The larger of two sides.
pub open spec fn larger(width: u32, height: u32) -> u32 {
    if width > height {
        width
    } else {
        height
    }
}

/// How many mip levels `texture` gets with these sides.
pub open spec fn levels_of(texture: Texture, width: u32, height: u32) -> nat {
    mipmap::level_count(larger(width, height) as nat, texture.mip_levels)
}

/// `plan` uploads `texture`, with these sides and pixels.
pub open spec fn uploads(
    plan: UploadPlan,
    texture: Texture,
    width: u32,
    height: u32,
    data: Option<Seq<u8>>,
) -> bool {
    &&& plan.width == width
    &&& plan.height == height
    &&& plan.mip_count == levels_of(texture, width, height)
    &&& plan.sample_count == texture.sample_count
    &&& plan.format == texture.format
    &&& plan.usage == mipmap::default_usage(plan.mip_count, data is Some).either(
        texture.extra_usage,
    )
    &&& plan.generate_mips == (data is Some && plan.mip_count > 1)
    &&& match data {
        Some(pixels) => {
            &&& plan.write is Some
            &&& is_mip_write(plan.write->Some_0.0, 0, 0, texture.format, width, height)
            &&& plan.write->Some_0.1@ == pixels
        },
        None => plan.write is None,
    }
}

/// `result` is what uploading `texture` with these sides and pixels comes to.
pub open spec fn upload_result(
    texture: Texture,
    width: u32,
    height: u32,
    data: Option<Seq<u8>>,
    limits: Limits,
    result: Result<UploadPlan, UploadError>,
) -> bool {
    let max = limits.max_texture_dimension_2d;
    if width > max || height > max {
        result == Err::<UploadPlan, UploadError>(
            UploadError::Size(TextureSizeError::Dimensions { width, height, max }),
        )
    } else if data is Some && pixel_bytes(texture.format) is None {
        result == Err::<UploadPlan, UploadError>(UploadError::UnsupportedFormat)
    } else if data is Some && !row_fits(texture.format, width, 0) {
        result == Err::<UploadPlan, UploadError>(UploadError::RowTooLong)
    } else {
        result is Ok && uploads(result->Ok_0, texture, width, height, data)
    }
}

impl Texture {
    /// How to upload this texture, with these sides and pixels.
    pub fn plan_upload(
        &self,
        width: u32,
        height: u32,
        data: Option<Vec<u8>>,
        limits: &Limits,
    ) -> (result: Result<UploadPlan, UploadError>)
        ensures
            upload_result(
                *self,
                width,
                height,
                match data {
                    Some(pixels) => Some(pixels@),
                    None => None,
                },
                *limits,
                result,
            ),
    {
        match check_texture_dimensions(limits, width, height) {
            Ok(()) => {},
            Err(error) => {
                return Err(UploadError::Size(error));
            },
        }
        let side: u32 = if width > height {
            width
        } else {
            height
        };
        let count: u32 = mip_count(side, self.mip_levels);
        let usage = texture_usage_for(count, data.is_some()) | self.extra_usage;
        let generate_mips = data.is_some() && count > 1;
        let write = match data {
            Some(pixels) => {
                if bytes_per_pixel(self.format).is_none() {
                    return Err(UploadError::UnsupportedFormat);
                }
                if !row_is_countable(self.format, width, 0) {
                    return Err(UploadError::RowTooLong);
                }
                Some((write_texture_mip(0, 0, self.format, width, height), pixels))
            },
            None => None,
        };
        Ok(
            UploadPlan {
                width,
                height,
                mip_count: count,
                sample_count: self.sample_count,
                format: self.format,
                usage,
                write,
                generate_mips,
            },
        )
    }

    /// How to upload this texture. A texture from a file is decoded from
    /// `contents`, what the file holds; without contents, or if they cannot
    /// be decoded, there is nothing to upload. `quantize` turns a
    /// single-precision channel into a 16-bit fraction, `to_half` into a
    /// half-precision number.
    pub fn upload<Q: Fn(u32) -> u16, H: Fn(u32) -> u16>(
        &self,
        contents: Option<&[u8]>,
        limits: &Limits,
        quantize: &Q,
        to_half: &H,
    ) -> (result: Option<Result<UploadPlan, UploadError>>)
        requires
            forall|single: u32| call_requires(*quantize, (single,)),
            forall|single: u32| call_requires(*to_half, (single,)),
        ensures
            match self.file {
                Some(path) => match contents {
                    Some(bytes) => exists|decoded: Result<(u32, u32, Vec<u8>), DecodeError>|
                        {
                            &&& #[trigger] pixels::file_result(
                                self.format,
                                pixels::decoded_rgba8(path@, bytes@),
                                pixels::decoded_rgba32f(path@, bytes@),
                                *quantize,
                                *to_half,
                                decoded,
                            )
                            &&& match decoded {
                                Ok((width, height, data)) => {
                                    &&& result is Some
                                    &&& upload_result(
                                        *self,
                                        width,
                                        height,
                                        Some(data@),
                                        *limits,
                                        result->Some_0,
                                    )
                                },
                                Err(DecodeError::Image) => result is None,
                                Err(DecodeError::UnsupportedFormat) => result == Some(
                                    Err::<UploadPlan, UploadError>(UploadError::UnsupportedFormat),
                                ),
                            }
                        },
                    None => result is None,
                },
                None => {
                    &&& result is Some
                    &&& upload_result(
                        *self,
                        self.width,
                        self.height,
                        match self.data {
                            Some(data) => Some(data@),
                            None => None,
                        },
                        *limits,
                        result->Some_0,
                    )
                },
            },
    {
        match self.file {
            Some(path) => {
                let bytes = match contents {
                    Some(bytes) => bytes,
                    None => {
                        return None;
                    },
                };
                let decoded = decode_file(path, bytes, self.format, quantize, to_half);
                assert(pixels::file_result(
                    self.format,
                    pixels::decoded_rgba8(path@, bytes@),
                    pixels::decoded_rgba32f(path@, bytes@),
                    *quantize,
                    *to_half,
                    decoded,
                ));
                match decoded {
                    Ok((width, height, data)) => Some(
                        self.plan_upload(width, height, Some(data), limits),
                    ),
                    Err(DecodeError::Image) => None,
                    Err(DecodeError::UnsupportedFormat) => Some(
                        Err(UploadError::UnsupportedFormat),
                    ),
                }
            },
            None => {
                let data = match &self.data {
                    Some(pixels) => Some(pixels.clone()),
                    None => None,
                };
                Some(self.plan_upload(self.width, self.height, data, limits))
            },
        }
    }
}

/// The GPU-resident texture that an uploaded [`Texture`] becomes; `T` and `V`
/// are the backend's handles to the texture and to a view of all of it.
pub struct GPUTexture<T, V> {
    pub texture: T,
    pub view: V,
    pub width: u32,
    pub height: u32,
    pub format: TextureFormat,
}

/// A view of some mip levels of a texture, as a 2D texture.
#[derive(Clone, Copy, PartialEq, Eq, Structural, Debug)]
pub struct ViewRequest {
    pub base_mip_level: u32,
    pub mip_level_count: u32,
}

impl<T, V> GPUTexture<T, V> {
    /// There may be such a level, and its rows fit.
    pub open spec fn is_writable(self, mip_level: u32) -> bool {
        mip_level < 32 && row_fits(self.format, self.width, mip_level)
    }

    /// Whether a mip level can be written: only for formats with a linear
    /// layout.
    pub fn can_write(&self, mip_level: u32) -> (writable: bool)
        ensures
            writable == self.is_writable(mip_level),
    {
        mip_level < 32 && row_is_countable(self.format, self.width, mip_level)
    }

    /// How to overwrite one mip level.
    pub fn write(&self, mip_level: u32) -> (write: MipWrite)
        requires
            self.is_writable(mip_level),
        ensures
            is_mip_write(write, 0, mip_level, self.format, self.width, self.height),
    {
        write_texture_mip(0, mip_level, self.format, self.width, self.height)
    }

    pub fn width(&self) -> (width: u32)
        ensures
            width == self.width,
    {
        self.width
    }

    pub fn height(&self) -> (height: u32)
        ensures
            height == self.height,
    {
        self.height
    }

    /// A view of a single mip level.
    pub fn get_view(&self, mip_level: u32) -> (view: ViewRequest)
        ensures
            view == (ViewRequest { base_mip_level: mip_level, mip_level_count: 1 }),
    {
        ViewRequest { base_mip_level: mip_level, mip_level_count: 1 }
    }
}

// ---------------------------------------------------------------------------
// Laws
// ---------------------------------------------------------------------------

/// Once its pixels are released, a texture that is not from a file uploads as
/// an empty one: nothing is written, and it can be rendered into.
pub proof fn law_a_released_texture_uploads_as_empty(
    texture: Texture,
    limits: Limits,
    result: Result<UploadPlan, UploadError>,
)
    requires
        texture.data is None,
        upload_result(texture, texture.width, texture.height, None, limits, result),
        result is Ok,
    ensures
        result->Ok_0.write is None,
        !result->Ok_0.generate_mips,
        result->Ok_0.usage.render_attachment,
{
}

/// Every uploaded texture can be bound and written, and has the extra usages
/// that were asked for.
pub proof fn law_an_uploaded_texture_has_its_usages(
    texture: Texture,
    width: u32,
    height: u32,
    data: Option<Seq<u8>>,
    plan: UploadPlan,
)
    requires
        uploads(plan, texture, width, height, data),
    ensures
        plan.usage.texture_binding,
        plan.usage.copy_dst,
        plan.usage.allows(texture.extra_usage),
        plan.generate_mips ==> plan.usage.render_attachment,
{
}

/// The pixels that a file decodes to fill the first level exactly: as many
/// bytes as the rows of the write take, for an image that is not empty.
pub proof fn law_decoded_pixels_fill_the_first_level<Q: Fn(u32) -> u16, H: Fn(u32) -> u16>(
    texture: Texture,
    rgba8: Option<(u32, u32, Seq<u8>)>,
    rgba32f: Option<(u32, u32, Seq<u32>)>,
    quantize: Q,
    to_half: H,
    decoded: Result<(u32, u32, Vec<u8>), DecodeError>,
    plan: UploadPlan,
)
    requires
        pixels::file_result(texture.format, rgba8, rgba32f, quantize, to_half, decoded),
        decoded is Ok,
        decoded->Ok_0.0 >= 1,
        decoded->Ok_0.1 >= 1,
        pixels::file_source(texture.format) is Rgba8 && rgba8 is Some ==> rgba8->Some_0.2.len()
            == 4 * (decoded->Ok_0.0 * decoded->Ok_0.1),
        pixels::file_source(texture.format) is Rgba32f && rgba32f is Some
            ==> rgba32f->Some_0.2.len() == 4 * (decoded->Ok_0.0 * decoded->Ok_0.1),
        uploads(plan, texture, decoded->Ok_0.0, decoded->Ok_0.1, Some(decoded->Ok_0.2@)),
    ensures
        plan.write is Some,
        plan.write->Some_0.1@.len() == plan.write->Some_0.0.bytes_per_row
            * plan.write->Some_0.0.rows_per_image,
{
    let width = decoded->Ok_0.0 as nat;
    let height = decoded->Ok_0.1 as nat;
    pixels::law_a_file_gives_whole_pixels(
        texture.format,
        rgba8,
        rgba32f,
        quantize,
        to_half,
        decoded,
        width * height,
    );
    vstd::arithmetic::power2::lemma2_to64();
    let bytes = pixel_bytes(texture.format)->Some_0 as nat;
    assert(bytes * (width * height) == bytes * width * height) by (nonlinear_arith);
}

/// How many bytes a pixel takes goes by its channels: one byte per 8 bits, so
/// that two channels take twice as much as one and four twice as much as two,
/// and 16 bits twice as much as 8. The packed formats take as much as four
/// channels of 8 bits.
pub proof fn law_a_pixel_takes_the_bytes_of_its_channels()
    ensures
        ({
            let bytes = |format: TextureFormat| pixel_bytes(format)->Some_0 as int;
            &&& bytes(TextureFormat::R8Unorm) == 1
            &&& bytes(TextureFormat::R8Snorm) == bytes(TextureFormat::R8Unorm)
            &&& bytes(TextureFormat::R8Uint) == bytes(TextureFormat::R8Unorm)
            &&& bytes(TextureFormat::R8Sint) == bytes(TextureFormat::R8Unorm)
            &&& bytes(TextureFormat::Rg8Unorm) == 2 * bytes(TextureFormat::R8Unorm)
            &&& bytes(TextureFormat::Rg8Snorm) == 2 * bytes(TextureFormat::R8Snorm)
            &&& bytes(TextureFormat::Rg8Uint) == 2 * bytes(TextureFormat::R8Uint)
            &&& bytes(TextureFormat::Rg8Sint) == 2 * bytes(TextureFormat::R8Sint)
            &&& bytes(TextureFormat::Rgba8Unorm) == 2 * bytes(TextureFormat::Rg8Unorm)
            &&& bytes(TextureFormat::Rgba8Snorm) == 2 * bytes(TextureFormat::Rg8Snorm)
            &&& bytes(TextureFormat::Rgba8Uint) == 2 * bytes(TextureFormat::Rg8Uint)
            &&& bytes(TextureFormat::Rgba8Sint) == 2 * bytes(TextureFormat::Rg8Sint)
            &&& bytes(TextureFormat::R16Unorm) == 2 * bytes(TextureFormat::R8Unorm)
            &&& bytes(TextureFormat::R16Snorm) == 2 * bytes(TextureFormat::R8Snorm)
            &&& bytes(TextureFormat::R16Uint) == 2 * bytes(TextureFormat::R8Uint)
            &&& bytes(TextureFormat::R16Sint) == 2 * bytes(TextureFormat::R8Sint)
            &&& bytes(TextureFormat::R16Float) == bytes(TextureFormat::R16Unorm)
            &&& bytes(TextureFormat::Rg16Unorm) == 2 * bytes(TextureFormat::R16Unorm)
            &&& bytes(TextureFormat::Rg16Snorm) == 2 * bytes(TextureFormat::R16Snorm)
            &&& bytes(TextureFormat::Rg16Uint) == 2 * bytes(TextureFormat::R16Uint)
            &&& bytes(TextureFormat::Rg16Sint) == 2 * bytes(TextureFormat::R16Sint)
            &&& bytes(TextureFormat::Rg16Float) == 2 * bytes(TextureFormat::R16Float)
            &&& bytes(TextureFormat::Rgba16Unorm) == 2 * bytes(TextureFormat::Rg16Unorm)
            &&& bytes(TextureFormat::Rgba16Snorm) == 2 * bytes(TextureFormat::Rg16Snorm)
            &&& bytes(TextureFormat::Rgba16Uint) == 2 * bytes(TextureFormat::Rg16Uint)
            &&& bytes(TextureFormat::Rgba16Sint) == 2 * bytes(TextureFormat::Rg16Sint)
            &&& bytes(TextureFormat::Rgba16Float) == 2 * bytes(TextureFormat::Rg16Float)
            &&& bytes(TextureFormat::R32Uint) == 2 * bytes(TextureFormat::R16Uint)
            &&& bytes(TextureFormat::R32Sint) == 2 * bytes(TextureFormat::R16Sint)
            &&& bytes(TextureFormat::R32Float) == 2 * bytes(TextureFormat::R16Float)
            &&& bytes(TextureFormat::Rg32Uint) == 2 * bytes(TextureFormat::R32Uint)
            &&& bytes(TextureFormat::Rg32Sint) == 2 * bytes(TextureFormat::R32Sint)
            &&& bytes(TextureFormat::Rg32Float) == 2 * bytes(TextureFormat::R32Float)
            &&& bytes(TextureFormat::Rgba32Uint) == 2 * bytes(TextureFormat::Rg32Uint)
            &&& bytes(TextureFormat::Rgba32Sint) == 2 * bytes(TextureFormat::Rg32Sint)
            &&& bytes(TextureFormat::Rgba32Float) == 2 * bytes(TextureFormat::Rg32Float)
            &&& bytes(TextureFormat::R64Uint) == 2 * bytes(TextureFormat::R32Uint)
            &&& bytes(TextureFormat::Rgba8UnormSrgb) == bytes(TextureFormat::Rgba8Unorm)
            &&& bytes(TextureFormat::Bgra8Unorm) == bytes(TextureFormat::Rgba8Unorm)
            &&& bytes(TextureFormat::Bgra8UnormSrgb) == bytes(TextureFormat::Rgba8Unorm)
            &&& bytes(TextureFormat::Rgb9e5Ufloat) == bytes(TextureFormat::Rgba8Unorm)
            &&& bytes(TextureFormat::Rgb10a2Uint) == bytes(TextureFormat::Rgba8Unorm)
            &&& bytes(TextureFormat::Rgb10a2Unorm) == bytes(TextureFormat::Rgba8Unorm)
            &&& bytes(TextureFormat::Rg11b10Ufloat) == bytes(TextureFormat::Rgba8Unorm)
        }),
{
}

/// The formats without a linear layout are the depth and stencil ones, the
/// multi-planar ones and the compressed ones.
pub proof fn law_only_linear_formats_have_pixel_bytes(format: TextureFormat)
    ensures
        pixel_bytes(format) is None <==> {
            ||| format is Stencil8
            ||| format is Depth16Unorm
            ||| format is Depth24Plus
            ||| format is Depth24PlusStencil8
            ||| format is Depth32Float
            ||| format is Depth32FloatStencil8
            ||| format is NV12
            ||| format is P010
            ||| format is Bc1RgbaUnorm
            ||| format is Bc1RgbaUnormSrgb
            ||| format is Bc2RgbaUnorm
            ||| format is Bc2RgbaUnormSrgb
            ||| format is Bc3RgbaUnorm
            ||| format is Bc3RgbaUnormSrgb
            ||| format is Bc4RUnorm
            ||| format is Bc4RSnorm
            ||| format is Bc5RgUnorm
            ||| format is Bc5RgSnorm
            ||| format is Bc6hRgbUfloat
            ||| format is Bc6hRgbFloat
            ||| format is Bc7RgbaUnorm
            ||| format is Bc7RgbaUnormSrgb
            ||| format is Etc2Rgb8Unorm
            ||| format is Etc2Rgb8UnormSrgb
            ||| format is Etc2Rgb8A1Unorm
            ||| format is Etc2Rgb8A1UnormSrgb
            ||| format is Etc2Rgba8Unorm
            ||| format is Etc2Rgba8UnormSrgb
            ||| format is EacR11Unorm
            ||| format is EacR11Snorm
            ||| format is EacRg11Unorm
            ||| format is EacRg11Snorm
            ||| format is Astc
        },
{
}

/// A write of a mip level covers the whole level, in rows without gaps: it is
/// as wide and as high as the texture, halved once per level and never less
/// than one pixel, and each row takes the bytes of its pixels.
pub proof fn law_a_write_covers_the_whole_level(
    write: MipWrite,
    origin_z: u32,
    mip_level: u32,
    format: TextureFormat,
    width: u32,
    height: u32,
)
    requires
        is_mip_write(write, origin_z, mip_level, format, width, height),
    ensures
        write.mip_level == mip_level,
        write.origin_z == origin_z,
        write.width >= 1,
        write.height >= 1,
        width >= pow2(mip_level as nat) ==> write.width == width as nat / pow2(mip_level as nat),
        width < pow2(mip_level as nat) ==> write.width == 1,
        height >= pow2(mip_level as nat) ==> write.height == height as nat / pow2(
            mip_level as nat,
        ),
        height < pow2(mip_level as nat) ==> write.height == 1,
        mip_level == 0 && width >= 1 ==> write.width == width,
        mip_level == 0 && height >= 1 ==> write.height == height,
        pixel_bytes(format) == Some(
            (write.bytes_per_row as int / write.width as int) as u32,
        ),
        write.bytes_per_row as int % write.width as int == 0,
        write.rows_per_image == write.height,
{
    lemma2_to64();
    lemma_pow2_pos(mip_level as nat);
    mipmap::law_each_level_halves(width as nat, 0);
    mipmap::law_each_level_halves(height as nat, 0);
    let size = pow2(mip_level as nat) as int;
    lemma_at_least_one(width as int, size);
    lemma_at_least_one(height as int, size);
    let bytes = pixel_bytes(format)->Some_0 as int;
    lemma_div_multiples_vanish(bytes, write.width as int);
    lemma_mod_multiples_basic(bytes, write.width as int);
    assert(write.width as int * bytes == bytes * write.width as int) by (nonlinear_arith);
}

/// Dividing by something no larger gives at least one, by something larger
/// gives nothing.
proof fn lemma_at_least_one(side: int, size: int)
    requires
        0 <= side,
        0 < size,
    ensures
        side >= size ==> side / size >= 1,
        side < size ==> side / size == 0,
{
    if side >= size {
        lemma_div_non_zero(side, size);
    } else {
        lemma_basic_div(side, size);
    }
}

/// A row can be counted exactly if the format has a linear layout and the
/// bytes of the pixels of the row, together, fit 32 bits.
pub proof fn law_a_row_fits_exactly_if_it_can_be_counted(
    format: TextureFormat,
    width: u32,
    mip_level: u32,
    bytes: u32,
)
    requires
        pixel_bytes(format) == Some(bytes),
    ensures
        row_fits(format, width, mip_level) <==> bytes * mipmap::mip_size(
            width as nat,
            mip_level as nat,
        ) < 0x1_0000_0000,
{
}

/// An uploaded texture with a full chain of mip levels gets down to a single
/// pixel in both directions at its last level, and not before.
pub proof fn law_a_full_chain_covers_both_sides(
    plan: UploadPlan,
    texture: Texture,
    width: u32,
    height: u32,
    data: Option<Seq<u8>>,
)
    requires
        uploads(plan, texture, width, height, data),
        texture.mip_levels == MipLevels::Full,
    ensures
        plan.mip_count >= 1,
        mipmap::mip_size(width as nat, (plan.mip_count - 1) as nat) == 1,
        mipmap::mip_size(height as nat, (plan.mip_count - 1) as nat) == 1,
        plan.mip_count > 1 ==> mipmap::mip_size(width as nat, (plan.mip_count - 2) as nat) > 1
            || mipmap::mip_size(height as nat, (plan.mip_count - 2) as nat) > 1,
{
    let large = if width > height {
        width as nat
    } else {
        height as nat
    };
    let small = if width > height {
        height as nat
    } else {
        width as nat
    };
    let last = (plan.mip_count - 1) as nat;
    mipmap::law_the_levels_are_what_was_asked_for(large, 0);
    mipmap::law_levels_keep_the_larger_side(small, large, last);
    lemma_pow2_pos(last);
}

/// An uploaded texture has the number of mip levels that was asked for: one
/// if none were, and a given number whatever the sides.
pub proof fn law_an_upload_has_the_levels_asked_for(
    plan: UploadPlan,
    texture: Texture,
    width: u32,
    height: u32,
    data: Option<Seq<u8>>,
    count: u32,
)
    requires
        uploads(plan, texture, width, height, data),
    ensures
        texture.mip_levels == MipLevels::Single ==> plan.mip_count == 1,
        texture.mip_levels == MipLevels::Fixed(count) ==> plan.mip_count == count,
{
}

/// What an upload creates is as large as said, in the format and with the
/// sample count of the texture. Its pixels, if it has any, go into all of the
/// first level, and the other levels are generated if there are any. It can be
/// bound and written, rendered into where there are levels to generate or
/// nothing to write, and used for what was asked for on top, but for nothing
/// else.
pub proof fn law_an_upload_creates_what_the_texture_says(
    plan: UploadPlan,
    texture: Texture,
    width: u32,
    height: u32,
    data: Option<Seq<u8>>,
)
    requires
        uploads(plan, texture, width, height, data),
    ensures
        plan.width == width,
        plan.height == height,
        plan.format == texture.format,
        plan.sample_count == texture.sample_count,
        plan.write is Some <==> data is Some,
        data is Some ==> {
            &&& plan.write->Some_0.1@ == data->Some_0
            &&& plan.write->Some_0.0.mip_level == 0
            &&& plan.write->Some_0.0.origin_z == 0
            &&& width >= 1 ==> plan.write->Some_0.0.width == width
            &&& height >= 1 ==> plan.write->Some_0.0.height == height
            &&& plan.write->Some_0.0.rows_per_image == plan.write->Some_0.0.height
            &&& pixel_bytes(texture.format) is Some
            &&& plan.write->Some_0.0.bytes_per_row == pixel_bytes(texture.format)->Some_0
                * plan.write->Some_0.0.width
        },
        plan.generate_mips <==> data is Some && plan.mip_count > 1,
        plan.usage.texture_binding,
        plan.usage.copy_dst,
        plan.usage.render_attachment <==> plan.mip_count > 1 || data is None
            || texture.extra_usage.render_attachment,
        plan.usage.copy_src <==> texture.extra_usage.copy_src,
        plan.usage.storage_binding <==> texture.extra_usage.storage_binding,
{
    mipmap::law_each_level_halves(width as nat, 0);
    mipmap::law_each_level_halves(height as nat, 0);
}

/// An upload succeeds exactly if both sides are within the device's limit and
/// the pixels, if there are any, have a linear layout whose rows can be
/// counted. A side over the limit is reported before anything else, with both
/// sides and the limit.
pub proof fn law_an_upload_succeeds_within_the_limits(
    texture: Texture,
    width: u32,
    height: u32,
    data: Option<Seq<u8>>,
    limits: Limits,
    result: Result<UploadPlan, UploadError>,
)
    requires
        upload_result(texture, width, height, data, limits, result),
    ensures
        result is Ok <==> {
            &&& width <= limits.max_texture_dimension_2d
            &&& height <= limits.max_texture_dimension_2d
            &&& data is Some ==> row_fits(texture.format, width, 0)
        },
        result is Ok ==> uploads(result->Ok_0, texture, width, height, data),
        (width > limits.max_texture_dimension_2d || height > limits.max_texture_dimension_2d)
            ==> result == Err::<UploadPlan, UploadError>(
            UploadError::Size(
                TextureSizeError::Dimensions {
                    width,
                    height,
                    max: limits.max_texture_dimension_2d,
                },
            ),
        ),
        width <= limits.max_texture_dimension_2d && height <= limits.max_texture_dimension_2d
            && result is Err ==> {
            &&& data is Some
            &&& result->Err_0 == if pixel_bytes(texture.format) is None {
                UploadError::UnsupportedFormat
            } else {
                UploadError::RowTooLong
            }
        },
{
}

/// At first a texture has one level, one sample and no extra uses, and the
/// sides and the format that it was given.
pub proof fn law_a_plain_texture(
    texture: Texture,
    file: Option<&'static str>,
    width: u32,
    height: u32,
    format: TextureFormat,
)
    requires
        texture.plain(file, width, height, format),
    ensures
        texture.file == file,
        texture.width == width,
        texture.height == height,
        texture.format == format,
        texture.mip_levels == MipLevels::Single,
        texture.sample_count == 1,
        !texture.extra_usage.copy_src,
        !texture.extra_usage.copy_dst,
        !texture.extra_usage.texture_binding,
        !texture.extra_usage.storage_binding,
        !texture.extra_usage.render_attachment,
{
}

/// A level of an uploaded texture can be written exactly if there may be such
/// a level and its rows can be counted.
pub proof fn law_what_can_be_written<T, V>(
    texture: GPUTexture<T, V>,
    mip_level: u32,
    bytes: u32,
)
    ensures
        pixel_bytes(texture.format) is None ==> !texture.is_writable(mip_level),
        pixel_bytes(texture.format) == Some(bytes) ==> (texture.is_writable(mip_level)
            <==> mip_level < 32 && bytes * mipmap::mip_size(
            texture.width as nat,
            mip_level as nat,
        ) < 0x1_0000_0000),
{
}

// ---------------------------------------------------------------------------
// Laws of the operations
// ---------------------------------------------------------------------------

/// A planned upload with a full chain of mip levels gets down to a single
/// pixel in both directions at its last level, and not before, whichever of
/// the sides is the larger.
pub proof fn law_a_planned_full_chain_covers_both_sides(
    texture: &Texture,
    width: u32,
    height: u32,
    data: Option<Vec<u8>>,
    limits: &Limits,
    result: Result<UploadPlan, UploadError>,
)
    requires
        call_ensures(Texture::plan_upload, (texture, width, height, data, limits), result),
        texture.mip_levels == MipLevels::Full,
        result is Ok,
    ensures
        result->Ok_0.mip_count >= 1,
        mipmap::mip_size(width as nat, (result->Ok_0.mip_count - 1) as nat) == 1,
        mipmap::mip_size(height as nat, (result->Ok_0.mip_count - 1) as nat) == 1,
        result->Ok_0.mip_count > 1 ==> mipmap::mip_size(
            width as nat,
            (result->Ok_0.mip_count - 2) as nat,
        ) > 1 || mipmap::mip_size(height as nat, (result->Ok_0.mip_count - 2) as nat) > 1,
{
    law_a_full_chain_covers_both_sides(
        result->Ok_0,
        *texture,
        width,
        height,
        match data {
            Some(pixels) => Some(pixels@),
            None => None,
        },
    );
}

/// The number of mip levels does not depend on which way round the sides are.
pub proof fn law_turning_a_texture_keeps_its_levels(
    texture: &Texture,
    width: u32,
    height: u32,
    limits: &Limits,
    upright: Result<UploadPlan, UploadError>,
    turned: Result<UploadPlan, UploadError>,
)
    requires
        call_ensures(
            Texture::plan_upload,
            (texture, width, height, None::<Vec<u8>>, limits),
            upright,
        ),
        call_ensures(
            Texture::plan_upload,
            (texture, height, width, None::<Vec<u8>>, limits),
            turned,
        ),
    ensures
        upright is Ok <==> turned is Ok,
        upright is Ok ==> upright->Ok_0.mip_count == turned->Ok_0.mip_count,
{
}

/// A planned upload is of the sides, the format, the samples and the number of
/// levels that were asked for. Its pixels, all of them, go into all of the
/// first level, and the other levels are generated if there are any. It can be
/// bound and written, rendered into if that is needed, and used as was asked
/// for on top.
pub proof fn law_a_planned_upload_is_what_was_asked_for(
    texture: &Texture,
    width: u32,
    height: u32,
    data: Option<Vec<u8>>,
    limits: &Limits,
    result: Result<UploadPlan, UploadError>,
    count: u32,
)
    requires
        call_ensures(Texture::plan_upload, (texture, width, height, data, limits), result),
    ensures
        result matches Ok(plan) ==> {
            &&& plan.width == width
            &&& plan.height == height
            &&& plan.format == texture.format
            &&& plan.sample_count == texture.sample_count
            &&& texture.mip_levels == MipLevels::Single ==> plan.mip_count == 1
            &&& texture.mip_levels == MipLevels::Fixed(count) ==> plan.mip_count == count
            &&& plan.write is Some <==> data is Some
            &&& plan.generate_mips <==> data is Some && plan.mip_count > 1
            &&& plan.usage.texture_binding
            &&& plan.usage.copy_dst
            &&& plan.usage.render_attachment <==> plan.mip_count > 1 || data is None
                || texture.extra_usage.render_attachment
            &&& plan.usage.copy_src <==> texture.extra_usage.copy_src
            &&& plan.usage.storage_binding <==> texture.extra_usage.storage_binding
        },
        result is Ok && data is Some ==> {
            let plan = result->Ok_0;
            &&& plan.write->Some_0.1@ == data->Some_0@
            &&& plan.write->Some_0.0.mip_level == 0
            &&& plan.write->Some_0.0.origin_z == 0
            &&& width >= 1 ==> plan.write->Some_0.0.width == width
            &&& height >= 1 ==> plan.write->Some_0.0.height == height
            &&& plan.write->Some_0.0.rows_per_image == plan.write->Some_0.0.height
            &&& pixel_bytes(texture.format) is Some
            &&& plan.write->Some_0.0.bytes_per_row == pixel_bytes(texture.format)->Some_0
                * plan.write->Some_0.0.width
        },
        result is Ok <==> {
            &&& width <= limits.max_texture_dimension_2d
            &&& height <= limits.max_texture_dimension_2d
            &&& data is Some ==> row_fits(texture.format, width, 0)
        },
        (width > limits.max_texture_dimension_2d || height > limits.max_texture_dimension_2d)
            ==> result == Err::<UploadPlan, UploadError>(
            UploadError::Size(
                TextureSizeError::Dimensions {
                    width,
                    height,
                    max: limits.max_texture_dimension_2d,
                },
            ),
        ),
{
    let pixels = match data {
        Some(pixels) => Some(pixels@),
        None => None,
    };
    law_an_upload_succeeds_within_the_limits(*texture, width, height, pixels, *limits, result);
    if result is Ok {
        law_an_upload_creates_what_the_texture_says(
            result->Ok_0,
            *texture,
            width,
            height,
            pixels,
        );
        law_an_upload_has_the_levels_asked_for(
            result->Ok_0,
            *texture,
            width,
            height,
            pixels,
            count,
        );
    }
}

/// A texture that is not from a file is uploaded with its own sides, and with
/// its pixels if it has any; whatever contents are at hand do not matter.
pub proof fn law_a_texture_uploads_its_own_pixels<Q: Fn(u32) -> u16, H: Fn(u32) -> u16>(
    texture: &Texture,
    contents: Option<&[u8]>,
    limits: &Limits,
    quantize: &Q,
    to_half: &H,
    result: Option<Result<UploadPlan, UploadError>>,
)
    requires
        call_ensures(
            Texture::upload::<Q, H>,
            (texture, contents, limits, quantize, to_half),
            result,
        ),
        texture.file is None,
    ensures
        result is Some,
        result->Some_0 matches Ok(plan) ==> {
            &&& plan.width == texture.width
            &&& plan.height == texture.height
            &&& plan.format == texture.format
            &&& plan.sample_count == texture.sample_count
            &&& plan.write is Some <==> texture.data is Some
            &&& texture.data is Some ==> plan.write->Some_0.1@ == texture.data->Some_0@
            &&& texture.mip_levels == MipLevels::Full ==> {
                &&& plan.mip_count >= 1
                &&& mipmap::mip_size(texture.width as nat, (plan.mip_count - 1) as nat) == 1
                &&& mipmap::mip_size(texture.height as nat, (plan.mip_count - 1) as nat) == 1
            }
        },
        result->Some_0 is Ok <==> {
            &&& texture.width <= limits.max_texture_dimension_2d
            &&& texture.height <= limits.max_texture_dimension_2d
            &&& texture.data is Some ==> row_fits(texture.format, texture.width, 0)
        },
{
    let pixels = match texture.data {
        Some(data) => Some(data@),
        None => None,
    };
    law_an_upload_succeeds_within_the_limits(
        *texture,
        texture.width,
        texture.height,
        pixels,
        *limits,
        result->Some_0,
    );
    if result->Some_0 is Ok {
        let plan = result->Some_0->Ok_0;
        law_an_upload_creates_what_the_texture_says(
            plan,
            *texture,
            texture.width,
            texture.height,
            pixels,
        );
        if texture.mip_levels == MipLevels::Full {
            law_a_full_chain_covers_both_sides(
                plan,
                *texture,
                texture.width,
                texture.height,
                pixels,
            );
        }
    }
}

/// A texture from a file is uploaded with the sides that the file decodes to;
/// without contents, or if they cannot be decoded, there is nothing to upload.
pub proof fn law_a_texture_from_a_file_uploads_the_file<Q: Fn(u32) -> u16, H: Fn(u32) -> u16>(
    texture: &Texture,
    contents: Option<&[u8]>,
    limits: &Limits,
    quantize: &Q,
    to_half: &H,
    result: Option<Result<UploadPlan, UploadError>>,
)
    requires
        call_ensures(
            Texture::upload::<Q, H>,
            (texture, contents, limits, quantize, to_half),
            result,
        ),
        texture.file is Some,
    ensures
        contents is None ==> result is None,
        contents is Some && pixels::file_source(texture.format) is Rgba8 ==> {
            let decoded = pixels::decoded_rgba8(texture.file->Some_0@, contents->Some_0@);
            &&& result is Some <==> decoded is Some
            &&& result is Some && result->Some_0 is Ok ==> {
                &&& result->Some_0->Ok_0.width == decoded->Some_0.0
                &&& result->Some_0->Ok_0.height == decoded->Some_0.1
                &&& result->Some_0->Ok_0.write is Some
                &&& result->Some_0->Ok_0.write->Some_0.1@ == pixels::from_rgba8(
                    texture.format,
                    decoded->Some_0.2,
                )
            }
        },
        contents is Some && pixels::file_source(texture.format) is Rgba32f ==> {
            let decoded = pixels::decoded_rgba32f(texture.file->Some_0@, contents->Some_0@);
            &&& result is Some <==> decoded is Some
            &&& result is Some && result->Some_0 is Ok ==> {
                &&& result->Some_0->Ok_0.width == decoded->Some_0.0
                &&& result->Some_0->Ok_0.height == decoded->Some_0.1
                &&& result->Some_0->Ok_0.write is Some
                &&& pixels::from_rgba32f(
                    texture.format,
                    decoded->Some_0.2,
                    *quantize,
                    *to_half,
                    result->Some_0->Ok_0.write->Some_0.1@,
                )
            }
        },
        contents is Some && pixels::file_source(texture.format) is Unsupported && result is Some
            ==> result->Some_0 == Err::<UploadPlan, UploadError>(UploadError::UnsupportedFormat),
{
}

/// A texture is described by its source; the settings that are given to it
/// change one thing each.
pub proof fn law_texture_settings_change_one_thing_each(
    texture: Texture,
    count: u32,
    usage: TextureUsages,
    format: TextureFormat,
    sampled: Texture,
    used: Texture,
    formatted: Texture,
    full: Texture,
    counted: Texture,
)
    requires
        call_ensures(Texture::with_sample_count, (texture, count), sampled),
        call_ensures(Texture::with_extra_usage, (texture, usage), used),
        call_ensures(Texture::with_format, (texture, format), formatted),
        call_ensures(Texture::with_mips, (texture,), full),
        call_ensures(Texture::with_mip_count, (texture, count), counted),
    ensures
        sampled == (Texture { sample_count: count, ..texture }),
        used == (Texture { extra_usage: usage, ..texture }),
        formatted == (Texture { format, ..texture }),
        full == (Texture { mip_levels: MipLevels::Full, ..texture }),
        counted == (Texture { mip_levels: MipLevels::Fixed(count), ..texture }),
{
}

/// A texture from data has the data, one from a file the path, and an empty
/// one neither. All have one level, one sample, and no extra uses.
pub proof fn law_where_a_texture_comes_from(
    path: &'static str,
    width: u32,
    height: u32,
    format: TextureFormat,
    pixels: Vec<u8>,
    file: Texture,
    data: Texture,
    empty: Texture,
)
    requires
        call_ensures(Texture::from_file, (path,), file),
        call_ensures(Texture::from_data, (width, height, format, pixels), data),
        call_ensures(Texture::empty, (width, height, format), empty),
    ensures
        file.file == Some(path),
        file.data is None,
        file.format == TextureFormat::Rgba8UnormSrgb,
        data.file is None,
        data.data == Some(pixels),
        data.width == width,
        data.height == height,
        data.format == format,
        empty.file is None,
        empty.data is None,
        empty.width == width,
        empty.height == height,
        empty.format == format,
        file.mip_levels == MipLevels::Single,
        data.mip_levels == MipLevels::Single,
        empty.mip_levels == MipLevels::Single,
        file.sample_count == 1,
        data.sample_count == 1,
        empty.sample_count == 1,
        !empty.extra_usage.storage_binding,
        !data.extra_usage.storage_binding,
        !file.extra_usage.storage_binding,
        file.extra_usage == empty.extra_usage,
        data.extra_usage == empty.extra_usage,
        !empty.extra_usage.copy_src,
        !empty.extra_usage.copy_dst,
        !empty.extra_usage.texture_binding,
        !empty.extra_usage.render_attachment,
{
}

/// A texture is suspicious exactly if it has pixels and no area.
pub proof fn law_pixels_without_an_area_are_suspicious(texture: &Texture, suspicious: bool)
    requires
        call_ensures(Texture::validate, (texture,), suspicious),
    ensures
        suspicious <==> texture.data is Some && texture.width * texture.height == 0,
{
    assert(texture.width * texture.height == 0 <==> texture.width == 0 || texture.height == 0)
        by (nonlinear_arith);
}

/// Releasing the pixels of a texture changes nothing else, and what is then
/// asked for them finds none.
pub proof fn law_released_pixels_are_gone(texture: &mut Texture)
    requires
        call_ensures(Texture::release_cpu_data, (texture,), ()),
    ensures
        final(texture).data is None,
        *final(texture) == (Texture { data: final(texture).data, ..*old(texture) }),
{
}

/// The pixels on the CPU side are those of the texture.
pub proof fn law_a_texture_shows_its_pixels(texture: &Texture, data: Option<&[u8]>)
    requires
        call_ensures(Texture::data, (texture,), data),
    ensures
        data is Some <==> texture.data is Some,
        data is Some ==> data->Some_0@ == texture.data->Some_0@,
{
}

/// A side, or a number of layers, is refused exactly if it is over the limit;
/// a refusal says what was asked for and what the limit is.
pub proof fn law_limits_are_checked(
    limits: &Limits,
    width: u32,
    height: u32,
    layers: u32,
    sides: Result<(), TextureSizeError>,
    array: Result<(), TextureSizeError>,
)
    requires
        call_ensures(check_texture_dimensions, (limits, width, height), sides),
        call_ensures(check_texture_array_layers, (limits, layers), array),
    ensures
        sides is Ok <==> width <= limits.max_texture_dimension_2d && height
            <= limits.max_texture_dimension_2d,
        sides is Err ==> sides->Err_0 == (TextureSizeError::Dimensions {
            width,
            height,
            max: limits.max_texture_dimension_2d,
        }),
        array is Ok <==> layers <= limits.max_texture_array_layers,
        array is Err ==> array->Err_0 == (TextureSizeError::ArrayLayers {
            count: layers,
            max: limits.max_texture_array_layers,
        }),
{
}

/// Writing a level writes all of it, in rows without gaps, at the level and
/// the layer that were asked for.
pub proof fn law_writing_a_level(
    origin_z: u32,
    mip_level: u32,
    format: TextureFormat,
    width: u32,
    height: u32,
    bytes: Option<u32>,
    write: MipWrite,
)
    requires
        call_ensures(
            write_texture_mip,
            (origin_z, mip_level, format, width, height),
            write,
        ),
        call_ensures(bytes_per_pixel, (format,), bytes),
    ensures
        write.mip_level == mip_level,
        write.origin_z == origin_z,
        width >= pow2(mip_level as nat) ==> write.width == width as nat / pow2(mip_level as nat),
        width < pow2(mip_level as nat) ==> write.width == 1,
        height >= pow2(mip_level as nat) ==> write.height == height as nat / pow2(
            mip_level as nat,
        ),
        height < pow2(mip_level as nat) ==> write.height == 1,
        bytes is Some,
        write.bytes_per_row == bytes->Some_0 * write.width,
        write.rows_per_image == write.height,
{
    law_a_write_covers_the_whole_level(write, origin_z, mip_level, format, width, height);
}

/// An uploaded texture knows its sides, gives out views of single levels, and
/// overwrites a level as a whole.
pub proof fn law_an_uploaded_texture<T, V>(
    texture: &GPUTexture<T, V>,
    mip_level: u32,
    width: u32,
    height: u32,
    view: ViewRequest,
    writable: bool,
    write: MipWrite,
)
    requires
        call_ensures(GPUTexture::<T, V>::width, (texture,), width),
        call_ensures(GPUTexture::<T, V>::height, (texture,), height),
        call_ensures(GPUTexture::<T, V>::get_view, (texture, mip_level), view),
        call_ensures(GPUTexture::<T, V>::can_write, (texture, mip_level), writable),
        call_ensures(GPUTexture::<T, V>::write, (texture, mip_level), write),
    ensures
        width == texture.width,
        height == texture.height,
        view.base_mip_level == mip_level,
        view.mip_level_count == 1,
        writable ==> mip_level < 32 && pixel_bytes(texture.format) is Some,
        write.mip_level == mip_level,
        write.origin_z == 0,
        mip_level == 0 && width >= 1 ==> write.width == width,
        mip_level == 0 && height >= 1 ==> write.height == height,
        write.rows_per_image == write.height,
{
    law_a_write_covers_the_whole_level(
        write,
        0,
        mip_level,
        texture.format,
        texture.width,
        texture.height,
    );
}

/// A texture that is stored as an asset is found again by its handle.
pub proof fn law_a_stored_texture_is_found(
    texture: Texture,
    name: &str,
    assets: &mut Assets<Texture>,
    handle: Handle<Texture>,
    found: Option<&Texture>,
)
    requires
        call_ensures(Texture::build_asset, (texture, name, assets), handle),
        call_ensures(Assets::<Texture>::get, (&*final(assets), &handle), found),
    ensures
        found is Some,
        *found->Some_0 == texture,
        final(assets)@.len() == old(assets)@.len() + 1,
        final(assets)@.last().0 == name@,
{
}

} // verus!
