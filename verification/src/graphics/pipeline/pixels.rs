//! Decoding image files, and turning what they hold into the pixel layout of
//! a texture format.
//!
//! A single-precision number is held as its bit pattern.
use vstd::prelude::*;

use crate::graphics::pipeline::textures;
use crate::graphics::types::TextureFormat;

verus! {

// ---------------------------------------------------------------------------
// Outside work
// ---------------------------------------------------------------------------

/// What an image file decodes to as 8-bit RGBA: width, height, and the
/// channels of the pixels, row by row. The format goes by the extension of
/// the path. `None` if the file cannot be decoded.
pub uninterp spec fn decoded_rgba8(path: Seq<char>, contents: Seq<u8>) -> Option<
    (u32, u32, Seq<u8>),
>;

/// What an image file decodes to as single-precision RGBA: width, height, and
/// the bit patterns of the channels of the pixels, row by row. `None` if the
/// file cannot be decoded.
pub uninterp spec fn decoded_rgba32f(path: Seq<char>, contents: Seq<u8>) -> Option<
    (u32, u32, Seq<u32>),
>;

/// `image::load_from_memory_with_format`, with the format that
/// `image::ImageFormat::from_path` finds in the path, then
/// `image::DynamicImage::to_rgba8`: the image that a file of this name with
/// these contents holds, as 8-bit RGBA, four channels per pixel. The result is
/// a function of the path and the contents; `None` stands for any error of the
/// two calls.
#[verifier::external_body]
fn decode_rgba8(path: &str, contents: &[u8]) -> (decoded: Option<(u32, u32, Vec<u8>)>)
    ensures
        match decoded {
            Some((width, height, pixels)) => {
                &&& decoded_rgba8(path@, contents@) == Some((width, height, pixels@))
                &&& pixels@.len() == 4 * (width * height)
            },
            None => decoded_rgba8(path@, contents@) is None,
        },
{
    let format = image::ImageFormat::from_path(path).ok()?;
    let image = image::load_from_memory_with_format(contents, format).ok()?.to_rgba8();
    let (width, height) = image.dimensions();
    Some((width, height, image.into_raw()))
}

/// The same as [`decode_rgba8`] with `image::DynamicImage::to_rgba32f`: the
/// channels are single-precision numbers, handed out as bit patterns
/// (`bytemuck::cast_slice`).
#[verifier::external_body]
fn decode_rgba32f(path: &str, contents: &[u8]) -> (decoded: Option<(u32, u32, Vec<u32>)>)
    ensures
        match decoded {
            Some((width, height, pixels)) => {
                &&& decoded_rgba32f(path@, contents@) == Some((width, height, pixels@))
                &&& pixels@.len() == 4 * (width * height)
            },
            None => decoded_rgba32f(path@, contents@) is None,
        },
{
    let format = image::ImageFormat::from_path(path).ok()?;
    let image = image::load_from_memory_with_format(contents, format).ok()?.to_rgba32f();
    let (width, height) = image.dimensions();
    Some((width, height, bytemuck::cast_slice(image.into_raw().as_slice()).to_vec()))
}

/// `bytemuck::cast_slice` from numbers to bytes: the bytes of each number, in
/// the byte order of the machine.
#[verifier::external_body]
fn cast_to_bytes(numbers: &[u32]) -> (bytes: Vec<u8>)
    ensures
        in_machine_order(numbers@, bytes@),
{
    bytemuck::cast_slice(numbers).to_vec()
}

// ---------------------------------------------------------------------------
// Bytes
// ---------------------------------------------------------------------------

/// Byte `j` of a number, the lowest being byte zero.
pub open spec fn byte_of(number: u32, j: int) -> u8 {
    if j == 0 {
        (number % 0x100) as u8
    } else if j == 1 {
        (number / 0x100 % 0x100) as u8
    } else if j == 2 {
        (number / 0x1_0000 % 0x100) as u8
    } else {
        (number / 0x100_0000) as u8
    }
}

/// Each number as four bytes, the lowest first.
pub open spec fn low_byte_first(numbers: Seq<u32>) -> Seq<u8> {
    Seq::new(4 * numbers.len(), |k: int| byte_of(numbers[k / 4], k % 4))
}

/// Each number as four bytes, the highest first.
pub open spec fn high_byte_first(numbers: Seq<u32>) -> Seq<u8> {
    Seq::new(4 * numbers.len(), |k: int| byte_of(numbers[k / 4], 3 - k % 4))
}

/// `bytes` are the bytes of each number, in the byte order of the machine.
pub open spec fn in_machine_order(numbers: Seq<u32>, bytes: Seq<u8>) -> bool {
    bytes == low_byte_first(numbers) || bytes == high_byte_first(numbers)
}

/// Each number as two bytes, the lower first.
pub open spec fn halves_low_byte_first(numbers: Seq<u16>) -> Seq<u8> {
    Seq::new(
        2 * numbers.len(),
        |k: int|
            if k % 2 == 0 {
                (numbers[k / 2] % 0x100) as u8
            } else {
                (numbers[k / 2] / 0x100) as u8
            },
    )
}

/// Appends a number as two bytes, the lower first.
fn push_low_byte_first(bytes: &mut Vec<u8>, number: u16, Ghost(numbers): Ghost<Seq<u16>>)
    requires
        old(bytes)@ == halves_low_byte_first(numbers),
    ensures
        final(bytes)@ == halves_low_byte_first(numbers.push(number)),
{
    bytes.push((number % 0x100) as u8);
    bytes.push((number / 0x100) as u8);
    assert(bytes@ =~= halves_low_byte_first(numbers.push(number)));
}

// ---------------------------------------------------------------------------
// Channels
// ---------------------------------------------------------------------------

/// The first `channels` channels of each of the first `count` pixels.
pub open spec fn first_channels<T>(rgba: Seq<T>, channels: int, count: nat) -> Seq<T>
    decreases count,
{
    if count == 0 {
        Seq::empty()
    } else {
        first_channels(rgba, channels, (count - 1) as nat) + rgba.subrange(
            4 * (count - 1),
            4 * (count - 1) + channels,
        )
    }
}

/// The first `channels` channels of each whole pixel.
pub open spec fn channels_of<T>(rgba: Seq<T>, channels: int) -> Seq<T> {
    first_channels(rgba, channels, (rgba.len() / 4) as nat)
}

/// The first `channels` channels of each whole pixel.
fn take_channels<T: Copy>(rgba: &[T], channels: usize) -> (taken: Vec<T>)
    requires
        channels <= 4,
    ensures
        taken@ == channels_of(rgba@, channels as int),
{
    let mut taken: Vec<T> = Vec::new();
    let count: usize = rgba.len() / 4;
    let mut pixel: usize = 0;
    while pixel < count
        invariant
            pixel <= count,
            count == rgba@.len() / 4,
            rgba@.len() <= usize::MAX,
            channels <= 4,
            taken@ == first_channels(rgba@, channels as int, pixel as nat),
        decreases count - pixel,
    {
        let ghost before = taken@;
        let mut channel: usize = 0;
        while channel < channels
            invariant
                channel <= channels <= 4,
                pixel < count,
                count == rgba@.len() / 4,
                rgba@.len() <= usize::MAX,
                taken@ == before + rgba@.subrange(4 * pixel, 4 * pixel + channel),
            decreases channels - channel,
        {
            taken.push(rgba[4 * pixel + channel]);
            proof {
                assert(taken@ =~= before + rgba@.subrange(4 * pixel, 4 * pixel + channel + 1));
            }
            channel += 1;
        }
        pixel += 1;
    }
    taken
}

/// The first `channels` channels of each whole pixel, of 8 bits each.
pub fn take_channels_u8(rgba: &[u8], channels: usize) -> (taken: Vec<u8>)
    requires
        channels <= 4,
    ensures
        taken@ == channels_of(rgba@, channels as int),
{
    take_channels(rgba, channels)
}

/// Which channel of an RGBA pixel comes at place `j` of a BGRA pixel.
pub open spec fn bgra_channel(j: int) -> int {
    if j == 0 {
        2
    } else if j == 2 {
        0
    } else {
        j
    }
}

/// The whole pixels with red and blue exchanged.
pub open spec fn swapped(rgba: Seq<u8>) -> Seq<u8> {
    Seq::new((rgba.len() / 4 * 4) as nat, |k: int| rgba[k / 4 * 4 + bgra_channel(k % 4)])
}

/// The whole pixels with red and blue exchanged.
pub fn bgra_swap(rgba: &[u8]) -> (bgra: Vec<u8>)
    ensures
        bgra@ == swapped(rgba@),
{
    let mut bgra: Vec<u8> = Vec::new();
    let count: usize = rgba.len() / 4;
    let mut pixel: usize = 0;
    while pixel < count
        invariant
            pixel <= count,
            count == rgba@.len() / 4,
            rgba@.len() <= usize::MAX,
            bgra@ == swapped(rgba@).take(4 * pixel),
        decreases count - pixel,
    {
        let ghost before = bgra@;
        bgra.push(rgba[4 * pixel + 2]);
        bgra.push(rgba[4 * pixel + 1]);
        bgra.push(rgba[4 * pixel]);
        bgra.push(rgba[4 * pixel + 3]);
        assert(bgra@ =~= swapped(rgba@).take(4 * (pixel + 1)));
        pixel += 1;
    }
    assert(swapped(rgba@).take(4 * pixel) =~= swapped(rgba@));
    bgra
}

/// `numbers` are what `convert` makes of `singles`.
pub open spec fn converted<F: Fn(u32) -> u16>(
    convert: F,
    singles: Seq<u32>,
    numbers: Seq<u16>,
) -> bool {
    &&& numbers.len() == singles.len()
    &&& forall|i: int|
        0 <= i < singles.len() ==> call_ensures(convert, (singles[i],), #[trigger] numbers[i])
}

/// `bytes` are what `convert` makes of `singles`, the lower byte of each
/// number first.
pub open spec fn converted_bytes<F: Fn(u32) -> u16>(
    convert: F,
    singles: Seq<u32>,
    bytes: Seq<u8>,
) -> bool {
    exists|numbers: Seq<u16>| #[trigger]
        converted(convert, singles, numbers) && bytes == halves_low_byte_first(numbers)
}

/// What `convert` makes of each number, the lower byte first.
fn convert_all<F: Fn(u32) -> u16>(singles: &[u32], convert: &F) -> (bytes: Vec<u8>)
    requires
        forall|single: u32| call_requires(*convert, (single,)),
    ensures
        converted_bytes(*convert, singles@, bytes@),
{
    let ghost mut numbers: Seq<u16> = Seq::empty();
    let mut bytes: Vec<u8> = Vec::new();
    let mut i: usize = 0;
    assert(bytes@ =~= halves_low_byte_first(numbers));
    while i < singles.len()
        invariant
            i <= singles@.len(),
            forall|single: u32| call_requires(*convert, (single,)),
            converted(*convert, singles@.take(i as int), numbers),
            bytes@ == halves_low_byte_first(numbers),
        decreases singles.len() - i,
    {
        let number: u16 = convert(singles[i]);
        push_low_byte_first(&mut bytes, number, Ghost(numbers));
        proof {
            let before = numbers;
            numbers = before.push(number);
            assert forall|k: int| 0 <= k < singles@.take(i + 1).len() implies call_ensures(
                *convert,
                (singles@.take(i + 1)[k],),
                #[trigger] numbers[k],
            ) by {
                if k < i {
                    assert(call_ensures(*convert, (singles@.take(i as int)[k],), before[k]));
                }
            }
        }
        i += 1;
    }
    assert(singles@.take(i as int) =~= singles@);
    bytes
}

/// The first `channels` channels of each whole pixel as half-precision
/// numbers, as `to_half` has them, the lower byte of each first.
pub fn take_channels_f16<F: Fn(u32) -> u16>(rgba: &[u32], channels: usize, to_half: &F) -> (bytes:
    Vec<u8>)
    requires
        channels <= 4,
        forall|single: u32| call_requires(*to_half, (single,)),
    ensures
        converted_bytes(*to_half, channels_of(rgba@, channels as int), bytes@),
{
    let taken: Vec<u32> = take_channels(rgba, channels);
    convert_all(taken.as_slice(), to_half)
}

/// The first `channels` channels of each whole pixel as single-precision
/// numbers, in the byte order of the machine.
pub fn take_channels_f32(rgba: &[u32], channels: usize) -> (bytes: Vec<u8>)
    requires
        channels <= 4,
    ensures
        in_machine_order(channels_of(rgba@, channels as int), bytes@),
{
    let taken: Vec<u32> = take_channels(rgba, channels);
    cast_to_bytes(taken.as_slice())
}

/// Every channel as a 16-bit fraction, as `quantize` has it, the lower byte
/// of each first.
pub fn rgba32f_to_unorm16<F: Fn(u32) -> u16>(rgba: &[u32], quantize: &F) -> (bytes: Vec<u8>)
    requires
        forall|single: u32| call_requires(*quantize, (single,)),
    ensures
        converted_bytes(*quantize, rgba@, bytes@),
{
    convert_all(rgba, quantize)
}

// ---------------------------------------------------------------------------
// Files
// ---------------------------------------------------------------------------

/// Why a file gives no pixels.
#[derive(Clone, Copy, PartialEq, Eq, Structural, Debug)]
pub enum DecodeError {
    /// The file cannot be decoded.
    Image,
    /// The file can be decoded, but not into this format.
    UnsupportedFormat,
}

/// Which kind of pixels a format is made from.
#[derive(Clone, Copy, PartialEq, Eq, Structural, Debug)]
pub enum FileSource {
    Rgba8,
    Rgba32f,
    Unsupported,
}

/// Which kind of pixels a format is made from: the regular 8-bit formats from
/// 8-bit channels, 16-bit and 32-bit ones from single-precision channels, and
/// no other format from an image file.
pub open spec fn file_source(format: TextureFormat) -> FileSource {
    match format {
        TextureFormat::Rgba8Unorm
        | TextureFormat::Rgba8UnormSrgb
        | TextureFormat::Bgra8Unorm
        | TextureFormat::Bgra8UnormSrgb
        | TextureFormat::R8Unorm
        | TextureFormat::Rg8Unorm => FileSource::Rgba8,
        TextureFormat::Rgba16Unorm
        | TextureFormat::Rgba32Float
        | TextureFormat::Rg32Float
        | TextureFormat::R32Float
        | TextureFormat::Rgba16Float
        | TextureFormat::Rg16Float
        | TextureFormat::R16Float => FileSource::Rgba32f,
        _ => FileSource::Unsupported,
    }
}

/// 8-bit RGBA pixels in one of the formats that are made from them.
pub open spec fn from_rgba8(format: TextureFormat, rgba: Seq<u8>) -> Seq<u8> {
    match format {
        TextureFormat::Bgra8Unorm | TextureFormat::Bgra8UnormSrgb => swapped(rgba),
        TextureFormat::R8Unorm => channels_of(rgba, 1),
        TextureFormat::Rg8Unorm => channels_of(rgba, 2),
        _ => rgba,
    }
}

/// `bytes` are single-precision RGBA pixels in one of the formats that are
/// made from them.
pub open spec fn from_rgba32f<Q: Fn(u32) -> u16, H: Fn(u32) -> u16>(
    format: TextureFormat,
    rgba: Seq<u32>,
    quantize: Q,
    to_half: H,
    bytes: Seq<u8>,
) -> bool {
    match format {
        TextureFormat::Rgba16Unorm => converted_bytes(quantize, rgba, bytes),
        TextureFormat::Rg32Float => in_machine_order(channels_of(rgba, 2), bytes),
        TextureFormat::R32Float => in_machine_order(channels_of(rgba, 1), bytes),
        TextureFormat::Rgba16Float => converted_bytes(
            to_half,
            channels_of(rgba, 4),
            bytes,
        ),
        TextureFormat::Rg16Float => converted_bytes(
            to_half,
            channels_of(rgba, 2),
            bytes,
        ),
        TextureFormat::R16Float => converted_bytes(
            to_half,
            channels_of(rgba, 1),
            bytes,
        ),
        _ => in_machine_order(rgba, bytes),
    }
}

/// Which kind of pixels a format is made from.
pub fn source_for(format: TextureFormat) -> (source: FileSource)
    ensures
        source == file_source(format),
{
    match format {
        TextureFormat::Rgba8Unorm
        | TextureFormat::Rgba8UnormSrgb
        | TextureFormat::Bgra8Unorm
        | TextureFormat::Bgra8UnormSrgb
        | TextureFormat::R8Unorm
        | TextureFormat::Rg8Unorm => FileSource::Rgba8,
        TextureFormat::Rgba16Unorm
        | TextureFormat::Rgba32Float
        | TextureFormat::Rg32Float
        | TextureFormat::R32Float
        | TextureFormat::Rgba16Float
        | TextureFormat::Rg16Float
        | TextureFormat::R16Float => FileSource::Rgba32f,
        _ => FileSource::Unsupported,
    }
}

/// 8-bit RGBA pixels in one of the formats that are made from them.
pub fn convert_rgba8(format: TextureFormat, rgba: Vec<u8>) -> (bytes: Vec<u8>)
    requires
        file_source(format) is Rgba8,
    ensures
        bytes@ == from_rgba8(format, rgba@),
{
    match format {
        TextureFormat::Bgra8Unorm | TextureFormat::Bgra8UnormSrgb => bgra_swap(rgba.as_slice()),
        TextureFormat::R8Unorm => take_channels_u8(rgba.as_slice(), 1),
        TextureFormat::Rg8Unorm => take_channels_u8(rgba.as_slice(), 2),
        _ => rgba,
    }
}

/// Single-precision RGBA pixels in one of the formats that are made from
/// them. `quantize` turns a single-precision channel into a 16-bit fraction,
/// `to_half` into a half-precision number.
pub fn convert_rgba32f<Q: Fn(u32) -> u16, H: Fn(u32) -> u16>(
    format: TextureFormat,
    rgba: Vec<u32>,
    quantize: &Q,
    to_half: &H,
) -> (bytes: Vec<u8>)
    requires
        file_source(format) is Rgba32f,
        forall|single: u32| call_requires(*quantize, (single,)),
        forall|single: u32| call_requires(*to_half, (single,)),
    ensures
        from_rgba32f(format, rgba@, *quantize, *to_half, bytes@),
{
    match format {
        TextureFormat::Rgba16Unorm => rgba32f_to_unorm16(rgba.as_slice(), quantize),
        TextureFormat::Rg32Float => take_channels_f32(rgba.as_slice(), 2),
        TextureFormat::R32Float => take_channels_f32(rgba.as_slice(), 1),
        TextureFormat::Rgba16Float => take_channels_f16(rgba.as_slice(), 4, to_half),
        TextureFormat::Rg16Float => take_channels_f16(rgba.as_slice(), 2, to_half),
        TextureFormat::R16Float => take_channels_f16(rgba.as_slice(), 1, to_half),
        _ => cast_to_bytes(rgba.as_slice()),
    }
}

/// `result` is what a file gives in `format`, when it decodes as said to
/// 8-bit and to single-precision RGBA.
pub open spec fn file_result<Q: Fn(u32) -> u16, H: Fn(u32) -> u16>(
    format: TextureFormat,
    rgba8: Option<(u32, u32, Seq<u8>)>,
    rgba32f: Option<(u32, u32, Seq<u32>)>,
    quantize: Q,
    to_half: H,
    result: Result<(u32, u32, Vec<u8>), DecodeError>,
) -> bool {
    match file_source(format) {
        FileSource::Rgba8 => match rgba8 {
            Some((width, height, pixels)) => {
                &&& result is Ok
                &&& result->Ok_0.0 == width
                &&& result->Ok_0.1 == height
                &&& result->Ok_0.2@ == from_rgba8(format, pixels)
            },
            None => result == Err::<(u32, u32, Vec<u8>), DecodeError>(DecodeError::Image),
        },
        FileSource::Rgba32f => match rgba32f {
            Some((width, height, pixels)) => {
                &&& result is Ok
                &&& result->Ok_0.0 == width
                &&& result->Ok_0.1 == height
                &&& from_rgba32f(format, pixels, quantize, to_half, result->Ok_0.2@)
            },
            None => result == Err::<(u32, u32, Vec<u8>), DecodeError>(DecodeError::Image),
        },
        FileSource::Unsupported => result == Err::<(u32, u32, Vec<u8>), DecodeError>(
            if rgba8 is Some {
                DecodeError::UnsupportedFormat
            } else {
                DecodeError::Image
            },
        ),
    }
}

/// The pixels of an image file in `format`, with their width and height.
/// `contents` is what the file at `path` holds; `quantize` turns a
/// single-precision channel into a 16-bit fraction, `to_half` into a
/// half-precision number.
pub fn decode_file<Q: Fn(u32) -> u16, H: Fn(u32) -> u16>(
    path: &str,
    contents: &[u8],
    format: TextureFormat,
    quantize: &Q,
    to_half: &H,
) -> (result: Result<(u32, u32, Vec<u8>), DecodeError>)
    requires
        forall|single: u32| call_requires(*quantize, (single,)),
        forall|single: u32| call_requires(*to_half, (single,)),
    ensures
        file_result(
            format,
            decoded_rgba8(path@, contents@),
            decoded_rgba32f(path@, contents@),
            *quantize,
            *to_half,
            result,
        ),
        result matches Ok((width, height, bytes)) ==> {
            &&& textures::pixel_bytes(format) is Some
            &&& bytes@.len() == textures::pixel_bytes(format)->Some_0 * (width * height)
        },
{
    let result = match source_for(format) {
        FileSource::Rgba8 => match decode_rgba8(path, contents) {
            Some((width, height, rgba)) => Ok((width, height, convert_rgba8(format, rgba))),
            None => Err(DecodeError::Image),
        },
        FileSource::Rgba32f => match decode_rgba32f(path, contents) {
            Some((width, height, rgba)) => Ok(
                (width, height, convert_rgba32f(format, rgba, quantize, to_half)),
            ),
            None => Err(DecodeError::Image),
        },
        FileSource::Unsupported => match decode_rgba8(path, contents) {
            Some(_) => Err(DecodeError::UnsupportedFormat),
            None => Err(DecodeError::Image),
        },
    };
    proof {
        if result is Ok {
            law_a_file_gives_whole_pixels(
                format,
                decoded_rgba8(path@, contents@),
                decoded_rgba32f(path@, contents@),
                *quantize,
                *to_half,
                result,
                (result->Ok_0.0 * result->Ok_0.1) as nat,
            );
        }
    }
    result
}

// ---------------------------------------------------------------------------
// Laws
// ---------------------------------------------------------------------------

/// Exchanging red and blue twice gives the whole pixels back.
pub proof fn law_swapping_twice_gives_the_pixels_back(rgba: Seq<u8>)
    ensures
        swapped(swapped(rgba)) == rgba.take((rgba.len() / 4 * 4) as int),
{
    assert(swapped(swapped(rgba)) =~= rgba.take((rgba.len() / 4 * 4) as int));
}

proof fn lemma_first_channels<T>(rgba: Seq<T>, channels: int, count: nat, pixel: int, channel: int)
    requires
        0 <= channels <= 4,
        4 * count <= rgba.len(),
    ensures
        first_channels(rgba, channels, count).len() == channels * count,
        0 <= pixel < count && 0 <= channel < channels ==> {
            &&& 0 <= pixel * channels + channel < channels * count
            &&& first_channels(rgba, channels, count)[pixel * channels + channel] == rgba[4 * pixel
                + channel]
        },
    decreases count,
{
    if count > 0 {
        let fewer = (count - 1) as nat;
        lemma_first_channels(rgba, channels, fewer, pixel, channel);
        assert(channels * count == channels * fewer + channels) by (nonlinear_arith)
            requires
                count == fewer + 1,
        ;
        if pixel == fewer {
            assert(pixel * channels == channels * fewer) by (nonlinear_arith)
                requires
                    pixel == fewer,
            ;
        }
        if 0 <= pixel < fewer && 0 <= channel < channels {
            assert(first_channels(rgba, channels, count)[pixel * channels + channel]
                == first_channels(rgba, channels, fewer)[pixel * channels + channel]);
        }
    } else {
        assert(channels * count == 0) by (nonlinear_arith)
            requires
                count == 0,
        ;
    }
}

/// What is kept of the pixels are the first channels of each, pixel by pixel.
pub proof fn law_the_first_channels_are_kept<T>(
    rgba: Seq<T>,
    channels: int,
    pixel: int,
    channel: int,
)
    requires
        0 <= channel < channels <= 4,
        0 <= pixel < rgba.len() / 4,
    ensures
        channels_of(rgba, channels).len() == channels * (rgba.len() / 4),
        0 <= pixel * channels + channel < channels_of(rgba, channels).len(),
        channels_of(rgba, channels)[pixel * channels + channel] == rgba[4 * pixel + channel],
{
    lemma_first_channels(rgba, channels, (rgba.len() / 4) as nat, pixel, channel);
}

/// A file with whole pixels gives exactly the bytes that a texture of the
/// format and of that many pixels holds.
pub proof fn law_a_file_gives_whole_pixels<Q: Fn(u32) -> u16, H: Fn(u32) -> u16>(
    format: TextureFormat,
    rgba8: Option<(u32, u32, Seq<u8>)>,
    rgba32f: Option<(u32, u32, Seq<u32>)>,
    quantize: Q,
    to_half: H,
    result: Result<(u32, u32, Vec<u8>), DecodeError>,
    pixels: nat,
)
    requires
        file_result(format, rgba8, rgba32f, quantize, to_half, result),
        result is Ok,
        file_source(format) is Rgba8 && rgba8 is Some ==> rgba8->Some_0.2.len() == 4 * pixels,
        file_source(format) is Rgba32f && rgba32f is Some ==> rgba32f->Some_0.2.len() == 4
            * pixels,
    ensures
        textures::pixel_bytes(format) is Some,
        result->Ok_0.2@.len() == textures::pixel_bytes(format)->Some_0 * pixels,
{
    let bytes = textures::pixel_bytes(format)->Some_0;
    assert(bytes * pixels == (if bytes == 1 {
        pixels
    } else if bytes == 2 {
        2 * pixels
    } else if bytes == 4 {
        4 * pixels
    } else if bytes == 8 {
        8 * pixels
    } else {
        16 * pixels
    })) by (nonlinear_arith)
        requires
            bytes == 1 || bytes == 2 || bytes == 4 || bytes == 8 || bytes == 16,
    ;
    match file_source(format) {
        FileSource::Rgba8 => {
            let rgba = rgba8->Some_0.2;
            lemma_first_channels(rgba, 1, pixels, 0, 0);
            lemma_first_channels(rgba, 2, pixels, 0, 0);
        },
        FileSource::Rgba32f => {
            let rgba = rgba32f->Some_0.2;
            lemma_first_channels(rgba, 1, pixels, 0, 0);
            lemma_first_channels(rgba, 2, pixels, 0, 0);
            lemma_first_channels(rgba, 4, pixels, 0, 0);
        },
        FileSource::Unsupported => {},
    }
}

/// The four bytes of a number make up the number, the lowest counting least.
pub proof fn law_four_bytes_make_up_a_number(number: u32)
    ensures
        number == byte_of(number, 0) + 0x100 * byte_of(number, 1) + 0x1_0000 * byte_of(number, 2)
            + 0x100_0000 * byte_of(number, 3),
{
}

/// In the byte order of the machine each number takes four bytes in its own
/// place, and all numbers lie the same way round: the lowest byte first, or
/// the highest.
pub proof fn law_numbers_lie_in_machine_order(numbers: Seq<u32>, bytes: Seq<u8>, i: int, j: int)
    requires
        in_machine_order(numbers, bytes),
        0 <= i < numbers.len(),
        0 <= j < numbers.len(),
    ensures
        bytes.len() == 4 * numbers.len(),
        ({
            let lowest_first = |i: int|
                numbers[i] == bytes[4 * i] + 0x100 * bytes[4 * i + 1] + 0x1_0000 * bytes[4 * i + 2]
                    + 0x100_0000 * bytes[4 * i + 3];
            let highest_first = |i: int|
                numbers[i] == bytes[4 * i + 3] + 0x100 * bytes[4 * i + 2] + 0x1_0000 * bytes[4 * i
                    + 1] + 0x100_0000 * bytes[4 * i];
            ||| lowest_first(i) && lowest_first(j)
            ||| highest_first(i) && highest_first(j)
        }),
{
    law_four_bytes_make_up_a_number(numbers[i]);
    law_four_bytes_make_up_a_number(numbers[j]);
}

/// Two bytes make up each 16-bit number, the first counting least.
pub proof fn law_two_bytes_make_up_a_half(numbers: Seq<u16>, i: int)
    requires
        0 <= i < numbers.len(),
    ensures
        halves_low_byte_first(numbers).len() == 2 * numbers.len(),
        numbers[i] == halves_low_byte_first(numbers)[2 * i] + 0x100 * halves_low_byte_first(
            numbers,
        )[2 * i + 1],
{
}

/// Red and blue change places in every whole pixel; green and alpha stay.
pub proof fn law_red_and_blue_change_places(rgba: Seq<u8>, pixel: int)
    requires
        0 <= pixel < rgba.len() / 4,
    ensures
        swapped(rgba).len() == 4 * (rgba.len() / 4),
        swapped(rgba)[4 * pixel] == rgba[4 * pixel + 2],
        swapped(rgba)[4 * pixel + 1] == rgba[4 * pixel + 1],
        swapped(rgba)[4 * pixel + 2] == rgba[4 * pixel],
        swapped(rgba)[4 * pixel + 3] == rgba[4 * pixel + 3],
{
}

/// Each number is converted by itself: two bytes in its own place, which make
/// up what the conversion gives, the first counting least.
pub proof fn law_each_number_is_converted<F: Fn(u32) -> u16>(
    convert: F,
    singles: Seq<u32>,
    bytes: Seq<u8>,
    i: int,
)
    requires
        converted_bytes(convert, singles, bytes),
        0 <= i < singles.len(),
    ensures
        bytes.len() == 2 * singles.len(),
        call_ensures(
            convert,
            (singles[i],),
            (bytes[2 * i] + 0x100 * bytes[2 * i + 1]) as u16,
        ),
{
    let numbers = choose|numbers: Seq<u16>| #[trigger]
        converted(convert, singles, numbers) && bytes == halves_low_byte_first(numbers);
    law_two_bytes_make_up_a_half(numbers, i);
    assert(call_ensures(convert, (singles[i],), numbers[i]));
}

/// What becomes of a pixel of 8-bit channels: red alone, red and green, all
/// four with red and blue exchanged, or all four as they are.
pub proof fn law_what_becomes_of_an_8_bit_pixel(
    format: TextureFormat,
    rgba: Seq<u8>,
    pixel: int,
)
    requires
        file_source(format) is Rgba8,
        0 <= pixel < rgba.len() / 4,
    ensures
        ({
            let bytes = from_rgba8(format, rgba);
            match format {
                TextureFormat::R8Unorm => {
                    &&& bytes.len() == rgba.len() / 4
                    &&& bytes[pixel] == rgba[4 * pixel]
                },
                TextureFormat::Rg8Unorm => {
                    &&& bytes.len() == 2 * (rgba.len() / 4)
                    &&& bytes[2 * pixel] == rgba[4 * pixel]
                    &&& bytes[2 * pixel + 1] == rgba[4 * pixel + 1]
                },
                TextureFormat::Bgra8Unorm | TextureFormat::Bgra8UnormSrgb => {
                    &&& bytes.len() == 4 * (rgba.len() / 4)
                    &&& bytes[4 * pixel] == rgba[4 * pixel + 2]
                    &&& bytes[4 * pixel + 1] == rgba[4 * pixel + 1]
                    &&& bytes[4 * pixel + 2] == rgba[4 * pixel]
                    &&& bytes[4 * pixel + 3] == rgba[4 * pixel + 3]
                },
                _ => bytes == rgba,
            }
        }),
{
    law_the_first_channels_are_kept(rgba, 1, pixel, 0);
    law_the_first_channels_are_kept(rgba, 2, pixel, 0);
    law_the_first_channels_are_kept(rgba, 2, pixel, 1);
    law_red_and_blue_change_places(rgba, pixel);
}

/// What becomes of a channel of a single-precision pixel in a format of 16
/// bits: the channel, if the format has it, in its own place, as a fraction or
/// as a half-precision number.
pub proof fn law_what_becomes_of_a_channel_of_16_bits<Q: Fn(u32) -> u16, H: Fn(u32) -> u16>(
    format: TextureFormat,
    rgba: Seq<u32>,
    quantize: Q,
    to_half: H,
    bytes: Seq<u8>,
    pixel: int,
    channel: int,
)
    requires
        from_rgba32f(format, rgba, quantize, to_half, bytes),
        rgba.len() % 4 == 0,
        0 <= pixel < rgba.len() / 4,
        0 <= channel < 4,
    ensures
        format == TextureFormat::Rgba16Unorm ==> {
            let place = 2 * (4 * pixel + channel);
            &&& bytes.len() == 2 * rgba.len()
            &&& call_ensures(
                quantize,
                (rgba[4 * pixel + channel],),
                (bytes[place] + 0x100 * bytes[place + 1]) as u16,
            )
        },
        format == TextureFormat::Rgba16Float ==> {
            let place = 2 * (4 * pixel + channel);
            &&& bytes.len() == 2 * rgba.len()
            &&& call_ensures(
                to_half,
                (rgba[4 * pixel + channel],),
                (bytes[place] + 0x100 * bytes[place + 1]) as u16,
            )
        },
        format == TextureFormat::Rg16Float && channel < 2 ==> {
            let place = 2 * (2 * pixel + channel);
            &&& bytes.len() == rgba.len()
            &&& call_ensures(
                to_half,
                (rgba[4 * pixel + channel],),
                (bytes[place] + 0x100 * bytes[place + 1]) as u16,
            )
        },
        format == TextureFormat::R16Float && channel < 1 ==> {
            let place = 2 * pixel;
            &&& 2 * bytes.len() == rgba.len()
            &&& call_ensures(
                to_half,
                (rgba[4 * pixel],),
                (bytes[place] + 0x100 * bytes[place + 1]) as u16,
            )
        },
{
    if format == TextureFormat::Rgba16Unorm {
        law_each_number_is_converted(quantize, rgba, bytes, 4 * pixel + channel);
    } else if format == TextureFormat::Rgba16Float {
        law_the_first_channels_are_kept(rgba, 4, pixel, channel);
        law_each_number_is_converted(to_half, channels_of(rgba, 4), bytes, pixel * 4 + channel);
    } else if format == TextureFormat::Rg16Float && channel < 2 {
        law_the_first_channels_are_kept(rgba, 2, pixel, channel);
        law_each_number_is_converted(to_half, channels_of(rgba, 2), bytes, pixel * 2 + channel);
    } else if format == TextureFormat::R16Float && channel < 1 {
        law_the_first_channels_are_kept(rgba, 1, pixel, 0);
        law_each_number_is_converted(to_half, channels_of(rgba, 1), bytes, pixel * 1 + 0);
    }
}

/// What becomes of single-precision pixels in a format of 32 bits: the first
/// channels of each pixel, as many as the format has, in the byte order of the
/// machine.
pub proof fn law_what_becomes_of_channels_of_32_bits<Q: Fn(u32) -> u16, H: Fn(u32) -> u16>(
    format: TextureFormat,
    rgba: Seq<u32>,
    quantize: Q,
    to_half: H,
    bytes: Seq<u8>,
    pixel: int,
    channel: int,
)
    requires
        from_rgba32f(format, rgba, quantize, to_half, bytes),
        rgba.len() % 4 == 0,
        0 <= pixel < rgba.len() / 4,
        0 <= channel < 4,
    ensures
        format == TextureFormat::Rgba32Float ==> in_machine_order(rgba, bytes),
        format == TextureFormat::Rg32Float && channel < 2 ==> exists|kept: Seq<u32>|
            {
                &&& #[trigger] in_machine_order(kept, bytes)
                &&& 2 * kept.len() == rgba.len()
                &&& kept[2 * pixel + channel] == rgba[4 * pixel + channel]
            },
        format == TextureFormat::R32Float && channel < 1 ==> exists|kept: Seq<u32>|
            {
                &&& #[trigger] in_machine_order(kept, bytes)
                &&& 4 * kept.len() == rgba.len()
                &&& kept[pixel] == rgba[4 * pixel]
            },
{
    if format == TextureFormat::Rg32Float && channel < 2 {
        law_the_first_channels_are_kept(rgba, 2, pixel, channel);
        assert(in_machine_order(channels_of(rgba, 2), bytes));
    }
    if format == TextureFormat::R32Float && channel < 1 {
        law_the_first_channels_are_kept(rgba, 1, pixel, 0);
        assert(in_machine_order(channels_of(rgba, 1), bytes));
    }
}

/// The formats that a file can be decoded into, by the kind of pixels that
/// they are made from.
pub proof fn law_what_a_file_can_be_decoded_into(format: TextureFormat)
    ensures
        file_source(format) is Rgba8 <==> {
            ||| format is R8Unorm
            ||| format is Rg8Unorm
            ||| format is Rgba8Unorm
            ||| format is Rgba8UnormSrgb
            ||| format is Bgra8Unorm
            ||| format is Bgra8UnormSrgb
        },
        file_source(format) is Rgba32f <==> {
            ||| format is Rgba16Unorm
            ||| format is R16Float
            ||| format is Rg16Float
            ||| format is Rgba16Float
            ||| format is R32Float
            ||| format is Rg32Float
            ||| format is Rgba32Float
        },
{
}

/// A file gives pixels exactly if it can be decoded, into a format that is
/// made from files. They are as wide and as high as the image in the file. A
/// file that cannot be decoded is reported before the format is.
pub proof fn law_a_file_gives_pixels_if_it_decodes<Q: Fn(u32) -> u16, H: Fn(u32) -> u16>(
    format: TextureFormat,
    rgba8: Option<(u32, u32, Seq<u8>)>,
    rgba32f: Option<(u32, u32, Seq<u32>)>,
    quantize: Q,
    to_half: H,
    result: Result<(u32, u32, Vec<u8>), DecodeError>,
)
    requires
        file_result(format, rgba8, rgba32f, quantize, to_half, result),
    ensures
        file_source(format) is Rgba8 ==> {
            &&& result is Ok <==> rgba8 is Some
            &&& result is Err ==> result->Err_0 == DecodeError::Image
            &&& result is Ok ==> {
                &&& result->Ok_0.0 == rgba8->Some_0.0
                &&& result->Ok_0.1 == rgba8->Some_0.1
                &&& result->Ok_0.2@ == from_rgba8(format, rgba8->Some_0.2)
            }
        },
        file_source(format) is Rgba32f ==> {
            &&& result is Ok <==> rgba32f is Some
            &&& result is Err ==> result->Err_0 == DecodeError::Image
            &&& result is Ok ==> {
                &&& result->Ok_0.0 == rgba32f->Some_0.0
                &&& result->Ok_0.1 == rgba32f->Some_0.1
                &&& from_rgba32f(
                    format,
                    rgba32f->Some_0.2,
                    quantize,
                    to_half,
                    result->Ok_0.2@,
                )
            }
        },
        file_source(format) is Unsupported ==> {
            &&& result is Err
            &&& result->Err_0 == DecodeError::UnsupportedFormat <==> rgba8 is Some
        },
{
}

// ---------------------------------------------------------------------------
// Laws of the operations
// ---------------------------------------------------------------------------

/// Taking channels keeps the first ones of each whole pixel, in order.
pub proof fn law_taking_channels(
    rgba: &[u8],
    channels: usize,
    taken: Vec<u8>,
    pixel: int,
    channel: int,
)
    requires
        call_ensures(take_channels_u8, (rgba, channels), taken),
        0 <= channel < channels <= 4,
        0 <= pixel < rgba@.len() / 4,
    ensures
        taken@.len() == channels * (rgba@.len() / 4),
        taken@[pixel * channels + channel] == rgba@[4 * pixel + channel],
{
    law_the_first_channels_are_kept(rgba@, channels as int, pixel, channel);
}

/// Swapping exchanges red and blue in each whole pixel, and nothing else.
pub proof fn law_swapping_red_and_blue(rgba: &[u8], bgra: Vec<u8>, pixel: int)
    requires
        call_ensures(bgra_swap, (rgba,), bgra),
        0 <= pixel < rgba@.len() / 4,
    ensures
        bgra@.len() == 4 * (rgba@.len() / 4),
        bgra@[4 * pixel] == rgba@[4 * pixel + 2],
        bgra@[4 * pixel + 1] == rgba@[4 * pixel + 1],
        bgra@[4 * pixel + 2] == rgba@[4 * pixel],
        bgra@[4 * pixel + 3] == rgba@[4 * pixel + 3],
{
    law_red_and_blue_change_places(rgba@, pixel);
}

/// Taking channels as half-precision numbers converts the first ones of each
/// whole pixel, two bytes each, the lower first.
pub proof fn law_taking_channels_as_halves<F: Fn(u32) -> u16>(
    rgba: &[u32],
    channels: usize,
    to_half: &F,
    bytes: Vec<u8>,
    pixel: int,
    channel: int,
)
    requires
        call_ensures(take_channels_f16::<F>, (rgba, channels, to_half), bytes),
        0 <= channel < channels <= 4,
        0 <= pixel < rgba@.len() / 4,
    ensures
        bytes@.len() == 2 * (channels * (rgba@.len() / 4)),
        ({
            let place = 2 * (pixel * channels + channel);
            call_ensures(
                *to_half,
                (rgba@[4 * pixel + channel],),
                (bytes@[place] + 0x100 * bytes@[place + 1]) as u16,
            )
        }),
{
    law_the_first_channels_are_kept(rgba@, channels as int, pixel, channel);
    law_each_number_is_converted(
        *to_half,
        channels_of(rgba@, channels as int),
        bytes@,
        pixel * channels + channel,
    );
}

/// Every channel becomes a 16-bit fraction of two bytes, the lower first.
pub proof fn law_channels_become_fractions<F: Fn(u32) -> u16>(
    rgba: &[u32],
    quantize: &F,
    bytes: Vec<u8>,
    i: int,
)
    requires
        call_ensures(rgba32f_to_unorm16::<F>, (rgba, quantize), bytes),
        0 <= i < rgba@.len(),
    ensures
        bytes@.len() == 2 * rgba@.len(),
        call_ensures(
            *quantize,
            (rgba@[i],),
            (bytes@[2 * i] + 0x100 * bytes@[2 * i + 1]) as u16,
        ),
{
    law_each_number_is_converted(*quantize, rgba@, bytes@, i);
}

/// Taking channels as single-precision numbers keeps the first ones of each
/// whole pixel, four bytes each, all in the byte order of the machine.
pub proof fn law_taking_channels_as_singles(
    rgba: &[u32],
    channels: usize,
    bytes: Vec<u8>,
    pixel: int,
    channel: int,
)
    requires
        call_ensures(take_channels_f32, (rgba, channels), bytes),
        0 <= channel < channels <= 4,
        0 <= pixel < rgba@.len() / 4,
    ensures
        bytes@.len() == 4 * (channels * (rgba@.len() / 4)),
        ({
            let number = rgba@[4 * pixel + channel];
            let place = 4 * (pixel * channels + channel);
            ||| number == bytes@[place] + 0x100 * bytes@[place + 1] + 0x1_0000 * bytes@[place + 2]
                + 0x100_0000 * bytes@[place + 3]
            ||| number == bytes@[place + 3] + 0x100 * bytes@[place + 2] + 0x1_0000 * bytes@[place
                + 1] + 0x100_0000 * bytes@[place]
        }),
{
    law_the_first_channels_are_kept(rgba@, channels as int, pixel, channel);
    let place = pixel * channels + channel;
    law_numbers_lie_in_machine_order(
        channels_of(rgba@, channels as int),
        bytes@,
        place,
        place,
    );
}

/// What a format is made from, if it is made from files at all.
pub proof fn law_the_source_of_a_format(format: TextureFormat, source: FileSource)
    requires
        call_ensures(source_for, (format,), source),
    ensures
        source == FileSource::Rgba8 <==> {
            ||| format is R8Unorm
            ||| format is Rg8Unorm
            ||| format is Rgba8Unorm
            ||| format is Rgba8UnormSrgb
            ||| format is Bgra8Unorm
            ||| format is Bgra8UnormSrgb
        },
        source == FileSource::Rgba32f <==> {
            ||| format is Rgba16Unorm
            ||| format is R16Float
            ||| format is Rg16Float
            ||| format is Rgba16Float
            ||| format is R32Float
            ||| format is Rg32Float
            ||| format is Rgba32Float
        },
{
}

/// Pixels of 8-bit channels become, pixel by pixel, red alone, red and green,
/// all four with red and blue exchanged, or stay as they are.
pub proof fn law_converting_8_bit_pixels(
    format: TextureFormat,
    rgba: Vec<u8>,
    bytes: Vec<u8>,
    pixel: int,
)
    requires
        call_ensures(convert_rgba8, (format, rgba), bytes),
        0 <= pixel < rgba@.len() / 4,
    ensures
        format is R8Unorm ==> bytes@.len() == rgba@.len() / 4 && bytes@[pixel] == rgba@[4 * pixel],
        format is Rg8Unorm ==> {
            &&& bytes@.len() == 2 * (rgba@.len() / 4)
            &&& bytes@[2 * pixel] == rgba@[4 * pixel]
            &&& bytes@[2 * pixel + 1] == rgba@[4 * pixel + 1]
        },
        format is Bgra8Unorm || format is Bgra8UnormSrgb ==> {
            &&& bytes@.len() == 4 * (rgba@.len() / 4)
            &&& bytes@[4 * pixel] == rgba@[4 * pixel + 2]
            &&& bytes@[4 * pixel + 1] == rgba@[4 * pixel + 1]
            &&& bytes@[4 * pixel + 2] == rgba@[4 * pixel]
            &&& bytes@[4 * pixel + 3] == rgba@[4 * pixel + 3]
        },
        format is Rgba8Unorm || format is Rgba8UnormSrgb ==> bytes@ == rgba@,
{
    law_what_a_file_can_be_decoded_into(format);
    law_the_first_channels_are_kept(rgba@, 1, pixel, 0);
    law_the_first_channels_are_kept(rgba@, 2, pixel, 0);
    law_the_first_channels_are_kept(rgba@, 2, pixel, 1);
    law_red_and_blue_change_places(rgba@, pixel);
}

/// Single-precision channels become fractions or half-precision numbers in the
/// formats of 16 bits, channel by channel.
pub proof fn law_converting_single_precision_pixels<Q: Fn(u32) -> u16, H: Fn(u32) -> u16>(
    format: TextureFormat,
    rgba: Vec<u32>,
    quantize: &Q,
    to_half: &H,
    bytes: Vec<u8>,
    pixel: int,
    channel: int,
)
    requires
        call_ensures(convert_rgba32f::<Q, H>, (format, rgba, quantize, to_half), bytes),
        rgba@.len() % 4 == 0,
        0 <= pixel < rgba@.len() / 4,
        0 <= channel < 4,
    ensures
        format is Rgba16Unorm ==> {
            let place = 2 * (4 * pixel + channel);
            call_ensures(
                *quantize,
                (rgba@[4 * pixel + channel],),
                (bytes@[place] + 0x100 * bytes@[place + 1]) as u16,
            )
        },
        format is Rgba16Float ==> {
            let place = 2 * (4 * pixel + channel);
            call_ensures(
                *to_half,
                (rgba@[4 * pixel + channel],),
                (bytes@[place] + 0x100 * bytes@[place + 1]) as u16,
            )
        },
        format is Rg16Float && channel < 2 ==> {
            let place = 2 * (2 * pixel + channel);
            call_ensures(
                *to_half,
                (rgba@[4 * pixel + channel],),
                (bytes@[place] + 0x100 * bytes@[place + 1]) as u16,
            )
        },
        format is R16Float ==> {
            let place = 2 * pixel;
            call_ensures(
                *to_half,
                (rgba@[4 * pixel],),
                (bytes@[place] + 0x100 * bytes@[place + 1]) as u16,
            )
        },
        format is Rgba32Float ==> in_machine_order(rgba@, bytes@),
        format is Rg32Float ==> 2 * bytes@.len() == 4 * rgba@.len(),
        format is R32Float ==> bytes@.len() == rgba@.len(),
{
    law_what_becomes_of_a_channel_of_16_bits(
        format,
        rgba@,
        *quantize,
        *to_half,
        bytes@,
        pixel,
        channel,
    );
    law_what_becomes_of_a_channel_of_16_bits(
        format,
        rgba@,
        *quantize,
        *to_half,
        bytes@,
        pixel,
        0,
    );
    law_the_first_channels_are_kept(rgba@, 1, pixel, 0);
    law_the_first_channels_are_kept(rgba@, 2, pixel, 0);
}

/// A file decodes into as many bytes as a texture of the format takes for the
/// image. A file that cannot be decoded, or not into the format, gives none.
pub proof fn law_decoding_a_file<Q: Fn(u32) -> u16, H: Fn(u32) -> u16>(
    path: &str,
    contents: &[u8],
    format: TextureFormat,
    quantize: &Q,
    to_half: &H,
    result: Result<(u32, u32, Vec<u8>), DecodeError>,
)
    requires
        call_ensures(
            decode_file::<Q, H>,
            (path, contents, format, quantize, to_half),
            result,
        ),
    ensures
        result matches Ok((width, height, bytes)) ==> {
            &&& textures::pixel_bytes(format) is Some
            &&& bytes@.len() == textures::pixel_bytes(format)->Some_0 * (width * height)
        },
        file_source(format) is Rgba8 ==> {
            &&& result is Ok <==> decoded_rgba8(path@, contents@) is Some
            &&& result is Ok ==> {
                &&& result->Ok_0.0 == decoded_rgba8(path@, contents@)->Some_0.0
                &&& result->Ok_0.1 == decoded_rgba8(path@, contents@)->Some_0.1
                &&& result->Ok_0.2@ == from_rgba8(
                    format,
                    decoded_rgba8(path@, contents@)->Some_0.2,
                )
            }
        },
        file_source(format) is Rgba32f ==> {
            &&& result is Ok <==> decoded_rgba32f(path@, contents@) is Some
            &&& result is Ok ==> {
                &&& result->Ok_0.0 == decoded_rgba32f(path@, contents@)->Some_0.0
                &&& result->Ok_0.1 == decoded_rgba32f(path@, contents@)->Some_0.1
                &&& from_rgba32f(
                    format,
                    decoded_rgba32f(path@, contents@)->Some_0.2,
                    *quantize,
                    *to_half,
                    result->Ok_0.2@,
                )
            }
        },
        file_source(format) is Unsupported ==> result is Err,
        result == Err::<(u32, u32, Vec<u8>), DecodeError>(DecodeError::UnsupportedFormat)
            ==> file_source(format) is Unsupported && decoded_rgba8(path@, contents@) is Some,
{
}

} // verus!
