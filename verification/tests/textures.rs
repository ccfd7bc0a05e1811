use pebble::assets::Assets;
use pebble::graphics::pipeline::mipmap::{mip_count, mip_dimension, texture_usage_for, MipLevels};
use pebble::graphics::pipeline::pixels::{
    bgra_swap, convert_rgba32f, convert_rgba8, decode_file, rgba32f_to_unorm16, source_for,
    take_channels_f16, take_channels_f32, take_channels_u8, DecodeError, FileSource,
};
use pebble::graphics::pipeline::textures::{
    bytes_per_pixel, check_texture_array_layers, check_texture_dimensions, write_texture_mip,
    GPUTexture, Texture, TextureSizeError, UploadError, UploadPlan,
};
use pebble::graphics::types::{AstcBlock, AstcChannel, Limits, TextureFormat, TextureUsages};

fn limits() -> Limits {
    Limits {
        max_buffer_size: 1000,
        max_uniform_buffer_binding_size: 64,
        max_storage_buffer_binding_size: 128,
        min_uniform_buffer_offset_alignment: 256,
        min_storage_buffer_offset_alignment: 32,
        max_texture_dimension_2d: 64,
        max_texture_array_layers: 8,
    }
}

fn quantize(bits: u32) -> u16 {
    (f32::from_bits(bits).clamp(0.0, 1.0) * 65535.0).round() as u16
}

fn to_half(bits: u32) -> u16 {
    half::f16::from_f32(f32::from_bits(bits)).to_bits()
}

fn bits(values: &[f32]) -> Vec<u32> {
    values.iter().map(|value| value.to_bits()).collect()
}

/// Two pixels: one opaque, one half transparent.
fn png() -> Vec<u8> {
    let image = image::RgbaImage::from_raw(2, 1, vec![10, 20, 30, 255, 40, 50, 60, 128]).unwrap();
    let mut bytes = std::io::Cursor::new(Vec::new());
    image::DynamicImage::ImageRgba8(image)
        .write_to(&mut bytes, image::ImageFormat::Png)
        .unwrap();
    bytes.into_inner()
}

fn decoded(format: TextureFormat) -> Result<(u32, u32, Vec<u8>), DecodeError> {
    decode_file("dir/two.png", &png(), format, &quantize, &to_half)
}

fn singles() -> Vec<f32> {
    [10u8, 20, 30, 255, 40, 50, 60, 128].iter().map(|c| *c as f32 / 255.0).collect()
}

#[test]
fn files_decode_into_the_8_bit_formats() {
    let rgba = vec![10, 20, 30, 255, 40, 50, 60, 128];
    assert_eq!(decoded(TextureFormat::Rgba8Unorm), Ok((2, 1, rgba.clone())));
    assert_eq!(decoded(TextureFormat::Rgba8UnormSrgb), Ok((2, 1, rgba)));
    let bgra = vec![30, 20, 10, 255, 60, 50, 40, 128];
    assert_eq!(decoded(TextureFormat::Bgra8Unorm), Ok((2, 1, bgra.clone())));
    assert_eq!(decoded(TextureFormat::Bgra8UnormSrgb), Ok((2, 1, bgra)));
    assert_eq!(decoded(TextureFormat::R8Unorm), Ok((2, 1, vec![10, 40])));
    assert_eq!(decoded(TextureFormat::Rg8Unorm), Ok((2, 1, vec![10, 20, 40, 50])));
}

#[test]
fn files_decode_into_the_float_formats() {
    let values = singles();
    let bytes = |kept: &[f32]| -> Vec<u8> { kept.iter().flat_map(|c| c.to_ne_bytes()).collect() };
    let halves = |kept: &[f32]| -> Vec<u8> {
        kept.iter().flat_map(|c| half::f16::from_f32(*c).to_le_bytes()).collect()
    };
    assert_eq!(decoded(TextureFormat::Rgba32Float), Ok((2, 1, bytes(&values))));
    assert_eq!(
        decoded(TextureFormat::Rg32Float),
        Ok((2, 1, bytes(&[values[0], values[1], values[4], values[5]])))
    );
    assert_eq!(decoded(TextureFormat::R32Float), Ok((2, 1, bytes(&[values[0], values[4]]))));
    assert_eq!(decoded(TextureFormat::Rgba16Float), Ok((2, 1, halves(&values))));
    assert_eq!(
        decoded(TextureFormat::Rg16Float),
        Ok((2, 1, halves(&[values[0], values[1], values[4], values[5]])))
    );
    assert_eq!(decoded(TextureFormat::R16Float), Ok((2, 1, halves(&[values[0], values[4]]))));
}

#[test]
fn files_decode_into_16_bit_fractions() {
    let expected: Vec<u8> =
        singles().iter().flat_map(|c| ((c * 65535.0).round() as u16).to_le_bytes()).collect();
    assert_eq!(decoded(TextureFormat::Rgba16Unorm), Ok((2, 1, expected)));
}

#[test]
fn what_cannot_be_decoded_is_told_apart() {
    let broken =
        decode_file("two.png", &[1, 2, 3], TextureFormat::Rgba8Unorm, &quantize, &to_half);
    assert_eq!(broken, Err(DecodeError::Image));
    let broken =
        decode_file("two.png", &[1, 2, 3], TextureFormat::Rgba32Float, &quantize, &to_half);
    assert_eq!(broken, Err(DecodeError::Image));
    let unnamed = decode_file("two", &png(), TextureFormat::Rgba8Unorm, &quantize, &to_half);
    assert_eq!(unnamed, Err(DecodeError::Image));
    assert_eq!(decoded(TextureFormat::Bc1RgbaUnorm), Err(DecodeError::UnsupportedFormat));
    let broken =
        decode_file("two.png", &[1, 2, 3], TextureFormat::Bc1RgbaUnorm, &quantize, &to_half);
    assert_eq!(broken, Err(DecodeError::Image));
    assert_eq!(source_for(TextureFormat::Rgba16Unorm), FileSource::Rgba32f);
    assert_eq!(source_for(TextureFormat::R8Unorm), FileSource::Rgba8);
    assert_eq!(source_for(TextureFormat::R8Snorm), FileSource::Unsupported);
}

#[test]
fn channels_are_taken_from_whole_pixels() {
    assert_eq!(take_channels_u8(&[1, 2, 3, 4, 5, 6, 7, 8, 9], 1), vec![1, 5]);
    assert_eq!(take_channels_u8(&[1, 2, 3, 4, 5, 6, 7, 8], 2), vec![1, 2, 5, 6]);
    assert_eq!(take_channels_u8(&[1, 2, 3, 4], 4), vec![1, 2, 3, 4]);
    assert_eq!(take_channels_u8(&[1, 2, 3], 1), Vec::<u8>::new());
    assert_eq!(bgra_swap(&[1, 2, 3, 4, 5]), vec![3, 2, 1, 4]);
    assert_eq!(bgra_swap(&bgra_swap(&[1, 2, 3, 4])), vec![1, 2, 3, 4]);
    let one = bits(&[1.0, 0.5, 0.25, 2.0]);
    assert_eq!(take_channels_f16(&one, 2, &to_half), vec![0x00, 0x3c, 0x00, 0x38]);
    assert_eq!(take_channels_f32(&one, 1), 1.0f32.to_ne_bytes().to_vec());
    assert_eq!(
        rgba32f_to_unorm16(&bits(&[0.0, 1.0, 2.0, -1.0]), &quantize),
        vec![0, 0, 255, 255, 255, 255, 0, 0]
    );
}

#[test]
fn decoded_pixels_convert_on_their_own() {
    assert_eq!(convert_rgba8(TextureFormat::Rg8Unorm, vec![1, 2, 3, 4]), vec![1, 2]);
    assert_eq!(convert_rgba8(TextureFormat::Rgba8Unorm, vec![1, 2, 3, 4]), vec![1, 2, 3, 4]);
    let pixel = bits(&[1.0, 0.0, 0.0, 1.0]);
    assert_eq!(
        convert_rgba32f(TextureFormat::R16Float, pixel.clone(), &quantize, &to_half),
        vec![0x00, 0x3c]
    );
    assert_eq!(
        convert_rgba32f(TextureFormat::Rgba16Unorm, pixel, &quantize, &to_half),
        vec![255, 255, 0, 0, 0, 0, 255, 255]
    );
}

#[test]
fn pixels_take_the_bytes_of_their_format() {
    assert_eq!(bytes_per_pixel(TextureFormat::R8Sint), Some(1));
    assert_eq!(bytes_per_pixel(TextureFormat::Rg8Uint), Some(2));
    assert_eq!(bytes_per_pixel(TextureFormat::Rgb9e5Ufloat), Some(4));
    assert_eq!(bytes_per_pixel(TextureFormat::R64Uint), Some(8));
    assert_eq!(bytes_per_pixel(TextureFormat::Rgba32Float), Some(16));
    assert_eq!(bytes_per_pixel(TextureFormat::Depth32Float), None);
    assert_eq!(bytes_per_pixel(TextureFormat::NV12), None);
    let astc = TextureFormat::Astc { block: AstcBlock::B4x4, channel: AstcChannel::Hdr };
    assert_eq!(bytes_per_pixel(astc), None);
}

#[test]
fn mip_levels_halve_down_to_one_pixel() {
    assert_eq!(mip_count(300, MipLevels::Single), 1);
    assert_eq!(mip_count(300, MipLevels::Fixed(4)), 4);
    assert_eq!(mip_count(1, MipLevels::Full), 1);
    assert_eq!(mip_count(256, MipLevels::Full), 9);
    assert_eq!(mip_count(300, MipLevels::Full), 9);
    assert_eq!(mip_count(u32::MAX, MipLevels::Full), 32);
    assert_eq!(mip_dimension(300, 0), 300);
    assert_eq!(mip_dimension(300, 8), 1);
    assert_eq!(mip_dimension(300, 20), 1);
    assert_eq!(
        texture_usage_for(1, true),
        TextureUsages::texture_binding() | TextureUsages::copy_dst()
    );
    assert!(texture_usage_for(2, true).render_attachment);
    assert!(texture_usage_for(1, false).render_attachment);
}

#[test]
fn a_mip_level_is_written_whole() {
    let write = write_texture_mip(3, 2, TextureFormat::Rgba8Unorm, 100, 6);
    assert_eq!((write.width, write.height), (25, 1));
    assert_eq!((write.bytes_per_row, write.rows_per_image), (100, 1));
    assert_eq!((write.mip_level, write.origin_z), (2, 3));
    let texture = GPUTexture {
        texture: (),
        view: (),
        width: 100,
        height: 60,
        format: TextureFormat::Rg16Float,
    };
    let write = texture.write(0);
    assert_eq!((write.width, write.height, write.bytes_per_row), (100, 60, 400));
    assert_eq!((texture.width(), texture.height()), (100, 60));
    assert!(texture.can_write(31));
    assert!(!texture.can_write(32));
    let packed = GPUTexture { format: TextureFormat::Bc1RgbaUnorm, ..texture };
    assert!(!packed.can_write(0));
    let wide = GPUTexture { width: u32::MAX, format: TextureFormat::R8Unorm, ..packed };
    assert!(wide.can_write(0));
    let wider = GPUTexture { format: TextureFormat::Rg8Unorm, ..wide };
    assert!(!wider.can_write(0));
    assert!(wider.can_write(1));
    let texture = GPUTexture { width: 100, height: 60, ..wider };
    let view = texture.get_view(3);
    assert_eq!((view.base_mip_level, view.mip_level_count), (3, 1));
}

#[test]
fn limits_are_tested() {
    assert_eq!(check_texture_dimensions(&limits(), 64, 64), Ok(()));
    assert_eq!(
        check_texture_dimensions(&limits(), 1, 65),
        Err(TextureSizeError::Dimensions { width: 1, height: 65, max: 64 })
    );
    assert_eq!(check_texture_array_layers(&limits(), 8), Ok(()));
    assert_eq!(
        check_texture_array_layers(&limits(), 9),
        Err(TextureSizeError::ArrayLayers { count: 9, max: 8 })
    );
}

fn plan(
    texture: &Texture,
    contents: Option<&[u8]>,
) -> Option<Result<UploadPlan, UploadError>> {
    texture.upload(contents, &limits(), &quantize, &to_half)
}

#[test]
fn uploads_write_the_pixels_and_generate_the_rest() {
    let texture = Texture::from_data(2, 1, TextureFormat::R8Unorm, vec![1, 2])
        .with_mips()
        .with_extra_usage(TextureUsages::copy_src());
    assert_eq!(texture.data(), Some(&[1u8, 2][..]));
    assert!(!texture.validate());
    let plan = plan(&texture, None).unwrap().ok().unwrap();
    assert_eq!((plan.width, plan.height, plan.mip_count, plan.sample_count), (2, 1, 2, 1));
    assert_eq!(plan.format, TextureFormat::R8Unorm);
    assert!(plan.generate_mips);
    assert_eq!(
        plan.usage,
        TextureUsages::texture_binding()
            | TextureUsages::copy_dst()
            | TextureUsages::copy_src()
            | TextureUsages::render_attachment()
    );
    let (write, pixels) = plan.write.unwrap();
    assert_eq!((write.mip_level, write.width, write.height, write.bytes_per_row), (0, 2, 1, 2));
    assert_eq!(pixels, vec![1, 2]);
}

#[test]
fn empty_and_released_textures_upload_nothing() {
    let target = Texture::empty(8, 4, TextureFormat::Depth32Float).with_sample_count(4);
    let plan_of = plan(&target, None).unwrap().ok().unwrap();
    assert!(plan_of.write.is_none());
    assert!(!plan_of.generate_mips);
    assert!(plan_of.usage.render_attachment);
    assert_eq!(plan_of.sample_count, 4);

    let mut texture = Texture::from_data(2, 1, TextureFormat::R8Unorm, vec![1, 2]);
    texture.release_cpu_data();
    assert_eq!(texture.data(), None);
    let plan_of = plan(&texture, None).unwrap().ok().unwrap();
    assert!(plan_of.write.is_none());
    assert!(plan_of.usage.render_attachment);
}

#[test]
fn textures_from_files_are_decoded_when_uploaded() {
    let texture = Texture::from_file("dir/two.png").with_mip_count(1);
    assert_eq!(texture.data(), None);
    assert!(plan(&texture, None).is_none());
    assert!(plan(&texture, Some(&[1, 2, 3])).is_none());
    let plan_of = plan(&texture, Some(&png())).unwrap().ok().unwrap();
    assert_eq!((plan_of.width, plan_of.height), (2, 1));
    assert_eq!(plan_of.format, TextureFormat::Rgba8UnormSrgb);
    assert_eq!(plan_of.write.unwrap().1, vec![10, 20, 30, 255, 40, 50, 60, 128]);
    let texture = texture.with_format(TextureFormat::Bc4RUnorm);
    assert_eq!(
        plan(&texture, Some(&png())).unwrap().err(),
        Some(UploadError::UnsupportedFormat)
    );
}

#[test]
fn uploads_that_cannot_be_are_refused() {
    let large = Texture::empty(65, 1, TextureFormat::R8Unorm);
    assert_eq!(
        plan(&large, None).unwrap().err(),
        Some(UploadError::Size(TextureSizeError::Dimensions { width: 65, height: 1, max: 64 }))
    );
    let packed = Texture::from_data(4, 4, TextureFormat::Bc1RgbaUnorm, vec![0; 8]);
    assert_eq!(plan(&packed, None).unwrap().err(), Some(UploadError::UnsupportedFormat));

    let boundless = Limits { max_texture_dimension_2d: u32::MAX, ..limits() };
    let wide = |width: u32| Texture::from_data(width, 1, TextureFormat::Rgba8Unorm, vec![]);
    let upload = |width: u32| wide(width).upload(None, &boundless, &quantize, &to_half).unwrap();
    assert_eq!(upload(0x4000_0000).err(), Some(UploadError::RowTooLong));
    assert_eq!(upload(0x3fff_ffff).ok().unwrap().write.unwrap().0.bytes_per_row, 0xffff_fffc);
}

#[test]
fn assets_are_stored_under_handles() {
    let mut assets = Assets::new();
    let swapped = Texture::from_data(0, 7, TextureFormat::R8Unorm, vec![1]);
    assert!(swapped.validate());
    let first = swapped.build_asset("first", &mut assets);
    let second = Texture::empty(3, 4, TextureFormat::R8Unorm).build_asset("second", &mut assets);
    assert_eq!(assets.get(&first).unwrap().height, 7);
    assert_eq!(assets.get(&second).unwrap().width, 3);
}
