//! The dominant colour of an image: pixels fall into coarse buckets, and the bucket
//! that is at once colourful, of middling lightness and frequent is the one picked.

use crate::color::{chroma, chroma_of};
use crate::error::ChromashError;
use crate::natural::{exceeds, power, value_of};
use vstd::arithmetic::power::pow;
use vstd::prelude::*;
use vstd::string::StringExecFns;

verus! {

/// A colour: red, green and blue.
pub type Rgb = (u8, u8, u8);

/// The number of buckets: sixteen levels on each of three channels.
pub const BUCKETS: usize = 4096;

/// A channel rounded down to its level, a multiple of 16.
pub open spec fn level(c: u8) -> u8 {
    ((c / 16) * 16) as u8
}

/// A colour with each channel rounded down to its level.
pub open spec fn quantized(p: Rgb) -> Rgb {
    (level(p.0), level(p.1), level(p.2))
}

/// The number of the bucket that a colour falls into.
pub open spec fn bucket_of(p: Rgb) -> int {
    (p.0 / 16) * 256 + (p.1 / 16) * 16 + (p.2 / 16)
}

/// The colour that stands for a bucket.
pub open spec fn bucket_color(bucket: int) -> Rgb {
    (((bucket / 256) * 16) as u8, (((bucket / 16) % 16) * 16) as u8, ((bucket % 16) * 16) as u8)
}

/// How many of the pixels fall into a bucket.
pub open spec fn occurrences(pixels: Seq<Rgb>, bucket: int) -> nat
    decreases pixels.len(),
{
    if pixels.len() == 0 {
        0
    } else {
        occurrences(pixels.drop_last(), bucket) + if bucket_of(pixels.last()) == bucket {
            1nat
        } else {
            0nat
        }
    }
}

/// Sixty times the product of a colour's chroma score and lightness score. The
/// chroma score is the chroma over 30, capped at one; the lightness score is one
/// where the mean of the channels lies strictly between 50 and 200, else a half.
pub open spec fn weight(p: Rgb) -> nat {
    let c = chroma(p.0, p.1, p.2);
    let capped: int = if c > 30 { 30 } else { c };
    let mean: int = (p.0 + p.1 + p.2) / 3;
    let doubled: int = if 50 < mean && mean < 200 { 2 } else { 1 };
    (capped * doubled) as nat
}

/// The rank of a bucket among the pixels: its count to the power of its weight.
/// A bucket's score is its weight times the natural logarithm of its count, so
/// among buckets that hold a pixel one score is greater than another exactly
/// when its rank is.
pub open spec fn strength(pixels: Seq<Rgb>, bucket: int) -> int {
    pow(occurrences(pixels, bucket) as int, weight(bucket_color(bucket)))
}

/// Among the buckets below `limit` that hold a pixel, the bucket is the first of
/// those with the greatest score.
pub open spec fn is_best_below(pixels: Seq<Rgb>, bucket: int, limit: int) -> bool {
    &&& 0 <= bucket < limit
    &&& occurrences(pixels, bucket) >= 1
    &&& forall|j: int|
        0 <= j < limit && #[trigger] occurrences(pixels, j) >= 1 ==> strength(pixels, j)
            <= strength(pixels, bucket)
    &&& forall|j: int|
        0 <= j < bucket && #[trigger] occurrences(pixels, j) >= 1 ==> strength(pixels, j)
            < strength(pixels, bucket)
}

/// Among all the buckets that hold a pixel, the bucket is the first of those with
/// the greatest score.
pub open spec fn is_best(pixels: Seq<Rgb>, bucket: int) -> bool {
    is_best_below(pixels, bucket, BUCKETS as int)
}

/// The colour picked for the pixels: that of the best bucket, or a middle grey
/// where there is no pixel at all.
pub open spec fn dominant(pixels: Seq<Rgb>) -> Rgb {
    if exists|i: int| is_best(pixels, i) {
        bucket_color(choose|i: int| is_best(pixels, i))
    } else {
        (128u8, 128u8, 128u8)
    }
}

/// At most one bucket is the best.
pub proof fn lemma_best_unique(pixels: Seq<Rgb>, i: int, j: int)
    requires
        is_best(pixels, i),
        is_best(pixels, j),
    ensures
        i == j,
{
}

/// The number of the bucket that a colour falls into.
pub fn bucket_index(p: Rgb) -> (i: usize)
    ensures
        i as int == bucket_of(p),
        i < BUCKETS,
{
    (p.0 / 16) as usize * 256 + (p.1 / 16) as usize * 16 + (p.2 / 16) as usize
}

/// The colour that stands for a bucket.
pub fn color_of_bucket(bucket: usize) -> (c: Rgb)
    requires
        bucket < BUCKETS,
    ensures
        c == bucket_color(bucket as int),
        c.0 % 16 == 0 && c.1 % 16 == 0 && c.2 % 16 == 0,
{
    let r: usize = (bucket / 256) * 16;
    let g: usize = ((bucket / 16) % 16) * 16;
    let b: usize = (bucket % 16) * 16;
    (r as u8, g as u8, b as u8)
}

/// The weight of a colour.
pub fn weight_of(p: Rgb) -> (w: u32)
    ensures
        w as nat == weight(p),
        w <= 60,
{
    let c: u8 = chroma_of(p.0, p.1, p.2);
    let capped: u32 = if c > 30 { 30 } else { c as u32 };
    let mean: u32 = (p.0 as u32 + p.1 as u32 + p.2 as u32) / 3;
    if 50 < mean && mean < 200 {
        capped * 2
    } else {
        capped
    }
}

/// One more pixel raises the count of its own bucket by one and no other.
pub proof fn lemma_occurrences_push(pixels: Seq<Rgb>, p: Rgb, bucket: int)
    ensures
        occurrences(pixels.push(p), bucket) == occurrences(pixels, bucket) + if bucket_of(p)
            == bucket {
            1nat
        } else {
            0nat
        },
{
    assert(pixels.push(p).drop_last() =~= pixels);
}

/// No bucket holds more pixels than there are.
pub proof fn lemma_occurrences_bound(pixels: Seq<Rgb>, bucket: int)
    ensures
        occurrences(pixels, bucket) <= pixels.len(),
    decreases pixels.len(),
{
    if pixels.len() > 0 {
        lemma_occurrences_bound(pixels.drop_last(), bucket);
    }
}

/// Counts the pixels of each bucket.
pub fn histogram(pixels: &Vec<Rgb>) -> (counts: Vec<u64>)
    ensures
        counts.len() == BUCKETS,
        forall|j: int| 0 <= j < BUCKETS ==> counts@[j] as nat == occurrences(pixels@, j),
{
    let mut counts: Vec<u64> = Vec::new();
    let mut k: usize = 0;
    while k < BUCKETS
        invariant
            k <= BUCKETS,
            counts.len() == k,
            forall|j: int| 0 <= j < k ==> counts@[j] == 0,
        decreases BUCKETS - k,
    {
        counts.push(0);
        k += 1;
    }
    let mut i: usize = 0;
    while i < pixels.len()
        invariant
            i <= pixels.len(),
            counts.len() == BUCKETS,
            forall|j: int|
                0 <= j < BUCKETS ==> counts@[j] as nat == occurrences(pixels@.take(i as int), j),
        decreases pixels.len() - i,
    {
        let p: Rgb = pixels[i];
        let b: usize = bucket_index(p);
        proof {
            lemma_occurrences_bound(pixels@.take(i as int), b as int);
            assert(pixels@.take(i as int + 1) =~= pixels@.take(i as int).push(p));
            assert forall|j: int| 0 <= j < BUCKETS implies occurrences(
                pixels@.take(i as int + 1),
                j,
            ) == occurrences(pixels@.take(i as int), j) + if bucket_of(p) == j {
                1nat
            } else {
                0nat
            } by {
                lemma_occurrences_push(pixels@.take(i as int), p, j);
            }
        }
        let bumped: u64 = counts[b] + 1;
        counts.set(b, bumped);
        i += 1;
    }
    proof {
        assert(pixels@.take(pixels.len() as int) =~= pixels@);
    }
    counts
}

/// Picks the dominant colour of the pixels.
pub fn dominant_color(pixels: &Vec<Rgb>) -> (c: Rgb)
    ensures
        c == dominant(pixels@),
        c.0 % 16 == 0 && c.1 % 16 == 0 && c.2 % 16 == 0,
{
    let counts = histogram(pixels);
    let mut best: Option<usize> = None;
    let mut best_rank: Vec<u32> = Vec::new();
    let mut i: usize = 0;
    while i < BUCKETS
        invariant
            i <= BUCKETS,
            counts.len() == BUCKETS,
            forall|j: int| 0 <= j < BUCKETS ==> counts@[j] as nat == occurrences(pixels@, j),
            match best {
                None => forall|j: int| 0 <= j < i ==> occurrences(pixels@, j) == 0,
                Some(b) => {
                    &&& is_best_below(pixels@, b as int, i as int)
                    &&& strength(pixels@, b as int) == value_of(best_rank@)
                },
            },
        decreases BUCKETS - i,
    {
        let count: u64 = counts[i];
        if count >= 1 {
            let rank = power(count, weight_of(color_of_bucket(i)));
            let better = match best {
                None => true,
                Some(_) => exceeds(&rank, &best_rank),
            };
            if better {
                best = Some(i);
                best_rank = rank;
            }
        }
        i += 1;
    }
    match best {
        Some(b) => {
            proof {
                assert(is_best(pixels@, b as int));
                let chosen = choose|k: int| is_best(pixels@, k);
                lemma_best_unique(pixels@, chosen, b as int);
            }
            color_of_bucket(b)
        },
        None => {
            (128, 128, 128)
        },
    }
}

/// Where a bucket below `limit` holds a pixel, one of them is the best below it.
pub proof fn lemma_best_below(pixels: Seq<Rgb>, limit: int)
    requires
        0 <= limit <= BUCKETS,
    ensures
        (exists|j: int| 0 <= j < limit && #[trigger] occurrences(pixels, j) >= 1) ==> exists|
            i: int,
        | is_best_below(pixels, i, limit),
    decreases limit,
{
    if limit > 0 {
        let k = limit - 1;
        lemma_best_below(pixels, k);
        if exists|j: int| 0 <= j < k && #[trigger] occurrences(pixels, j) >= 1 {
            let i = choose|i: int| is_best_below(pixels, i, k);
            if occurrences(pixels, k) >= 1 && strength(pixels, k) > strength(pixels, i) {
                assert(is_best_below(pixels, k, limit));
            } else {
                assert(is_best_below(pixels, i, limit));
            }
        } else if occurrences(pixels, k) >= 1 {
            assert(is_best_below(pixels, k, limit));
        }
    }
}

/// The middle grey stands for no pixels only: with at least one pixel the colour
/// picked is that of the best bucket, which holds one of the pixels; with none it
/// is the middle grey.
pub proof fn lemma_dominant_of_pixels(pixels: Seq<Rgb>)
    ensures
        pixels.len() > 0 ==> exists|i: int|
            is_best(pixels, i) && dominant(pixels) == bucket_color(i),
        pixels.len() == 0 ==> dominant(pixels) == (128u8, 128u8, 128u8),
{
    if pixels.len() > 0 {
        let home = bucket_of(pixels.last());
        lemma_bucket_round_trip(pixels.last());
        assert(0 <= home < BUCKETS && occurrences(pixels, home) >= 1);
        lemma_best_below(pixels, BUCKETS as int);
        let best = choose|i: int| is_best_below(pixels, i, BUCKETS as int);
        assert(is_best(pixels, best));
        let chosen = choose|k: int| is_best(pixels, k);
        lemma_best_unique(pixels, chosen, best);
    }
}

/// Among pixels that all fall into one bucket, that bucket has them all and every
/// other bucket has none.
pub proof fn lemma_occurrences_uniform(pixels: Seq<Rgb>, home: int, bucket: int)
    requires
        forall|k: int| 0 <= k < pixels.len() ==> bucket_of(#[trigger] pixels[k]) == home,
    ensures
        occurrences(pixels, bucket) == if bucket == home { pixels.len() } else { 0 },
    decreases pixels.len(),
{
    if pixels.len() > 0 {
        let rest = pixels.drop_last();
        assert forall|k: int| 0 <= k < rest.len() implies bucket_of(#[trigger] rest[k])
            == home by {
            assert(rest[k] == pixels[k]);
        }
        lemma_occurrences_uniform(rest, home, bucket);
        assert(bucket_of(pixels[pixels.len() - 1]) == home);
    }
}

/// The colour of the bucket that a colour falls into is that colour quantized.
pub proof fn lemma_bucket_round_trip(p: Rgb)
    ensures
        0 <= bucket_of(p) < BUCKETS,
        bucket_color(bucket_of(p)) == quantized(p),
{
}

/// An image of one colour yields that colour quantized: no other bucket holds a
/// pixel.
pub proof fn lemma_uniform_image(pixels: Seq<Rgb>, p: Rgb)
    requires
        pixels.len() >= 1,
        forall|k: int| 0 <= k < pixels.len() ==> pixels[k] == p,
    ensures
        dominant(pixels) == quantized(p),
{
    let home = bucket_of(p);
    lemma_bucket_round_trip(p);
    assert forall|j: int| 0 <= j < BUCKETS implies occurrences(pixels, j) == if j == home {
        pixels.len()
    } else {
        0
    } by {
        lemma_occurrences_uniform(pixels, home, j);
    }
    assert(is_best(pixels, home));
    let chosen = choose|k: int| is_best(pixels, k);
    lemma_best_unique(pixels, chosen, home);
}

/// Whatever the pixels, each channel of the colour picked is a multiple of 16: the
/// pick comes from the same buckets for an image of any size.
pub proof fn lemma_dominant_in_bucket_space(pixels: Seq<Rgb>)
    ensures
        dominant(pixels).0 % 16 == 0,
        dominant(pixels).1 % 16 == 0,
        dominant(pixels).2 % 16 == 0,
        dominant(pixels) == quantized(dominant(pixels)),
{
    if exists|i: int| is_best(pixels, i) {
        let chosen = choose|k: int| is_best(pixels, k);
        assert(0 <= chosen < BUCKETS);
    }
}

/// The longest side that an image keeps before its pixels are counted.
pub const MAX_SIDE: u32 = 128;

/// A side of an image scaled so that the longest side becomes 128: the nearest
/// whole number, a half rounding up, and never less than one.
pub open spec fn scaled_side(side: u32, longest: u32) -> int {
    let rounded = (256 * side + longest) / (2 * longest);
    if rounded < 1 {
        1
    } else {
        rounded
    }
}

/// The size at which an image is sampled: its own where neither side exceeds 128,
/// else scaled down with its proportions kept.
pub open spec fn sample_size(width: u32, height: u32) -> (int, int) {
    if width <= MAX_SIDE && height <= MAX_SIDE {
        (width as int, height as int)
    } else if width >= height {
        (scaled_side(width, width), scaled_side(height, width))
    } else {
        (scaled_side(width, height), scaled_side(height, height))
    }
}

/// Scales one side.
fn scale_side(side: u32, longest: u32) -> (scaled: u32)
    requires
        side <= longest,
        longest > MAX_SIDE,
    ensures
        scaled as int == scaled_side(side, longest),
        1 <= scaled <= MAX_SIDE,
        side == longest ==> scaled == MAX_SIDE,
{
    let top: u64 = 256 * (side as u64) + (longest as u64);
    let bottom: u64 = 2 * (longest as u64);
    let rounded: u64 = top / bottom;
    proof {
        assert(top / bottom <= 128) by (nonlinear_arith)
            requires
                top <= 257 * (bottom / 2),
                bottom > 0,
                bottom % 2 == 0,
        ;
        assert(side == longest ==> top / bottom == 128) by (nonlinear_arith)
            requires
                side == longest ==> top == 257 * (bottom / 2),
                bottom > 0,
                bottom % 2 == 0,
        ;
    }
    if rounded < 1 {
        1
    } else {
        rounded as u32
    }
}

/// The size at which an image of the given size is sampled. An image with a side
/// above 128 comes down to at most 128 by 128, its longest side to 128 exactly.
pub fn scaled_dimensions(width: u32, height: u32) -> (size: (u32, u32))
    ensures
        (size.0 as int, size.1 as int) == sample_size(width, height),
        width > MAX_SIDE || height > MAX_SIDE ==> 1 <= size.0 <= MAX_SIDE && 1 <= size.1
            <= MAX_SIDE && (size.0 == MAX_SIDE || size.1 == MAX_SIDE),
{
    if width <= MAX_SIDE && height <= MAX_SIDE {
        (width, height)
    } else if width >= height {
        (scale_side(width, width), scale_side(height, width))
    } else {
        (scale_side(width, height), scale_side(height, height))
    }
}

/// `image::DynamicImage`, a decoded image. What it holds is known by the names
/// `size_of`, `rgb_of` and `resized` only.
#[verifier::external_type_specification]
#[verifier::external_body]
pub struct ExDynamicImage(image::DynamicImage);

/// `image::ImageError`, the reason why an image could not be decoded.
#[verifier::external_type_specification]
#[verifier::external_body]
pub struct ExImageError(image::ImageError);

/// `image::ImageFormat`, one of the formats that the decoders know.
#[verifier::external_type_specification]
#[verifier::external_body]
pub struct ExImageFormat(image::ImageFormat);

/// The format that `image::guess_format` finds in the first bytes, if any.
pub uninterp spec fn guessed_format(bytes: Seq<u8>) -> Option<image::ImageFormat>;

/// The format that `ImageFormat::from_path` reads from the extension of a path, if
/// any.
pub uninterp spec fn path_format(path: Seq<char>) -> Option<image::ImageFormat>;

/// Whether `image::load_from_memory_with_format` makes an image of the bytes, read
/// in the given format.
pub uninterp spec fn decodable(bytes: Seq<u8>, format: image::ImageFormat) -> bool;

/// The width and height of the image that the bytes decode to.
pub uninterp spec fn decoded_size(bytes: Seq<u8>, format: image::ImageFormat) -> (u32, u32);

/// The pixels of the image that the bytes decode to, row by row, as eight-bit
/// red, green and blue.
pub uninterp spec fn decoded_rgb(bytes: Seq<u8>, format: image::ImageFormat) -> Seq<Rgb>;

/// The pixels of the image that the bytes decode to, after it is resampled to the
/// given width and height.
pub uninterp spec fn decoded_resized(
    bytes: Seq<u8>,
    format: image::ImageFormat,
    width: u32,
    height: u32,
) -> Seq<Rgb>;

/// The width and height of an image.
pub uninterp spec fn size_of(img: image::DynamicImage) -> (u32, u32);

/// The pixels of an image, row by row, as eight-bit red, green and blue.
pub uninterp spec fn rgb_of(img: image::DynamicImage) -> Seq<Rgb>;

/// The pixels of an image after it is resampled to the given width and height with
/// the Catmull-Rom filter.
pub uninterp spec fn resized(img: image::DynamicImage, width: u32, height: u32) -> Seq<Rgb>;

/// `image::guess_format` looks for the signature of a format at the start of the
/// bytes. What it finds depends on the bytes alone.
#[verifier::external_body]
fn guess(bytes: &[u8]) -> (found: Result<image::ImageFormat, image::ImageError>)
    ensures
        match found {
            Ok(format) => guessed_format(bytes@) == Some(format),
            Err(_) => guessed_format(bytes@) is None,
        },
{
    image::guess_format(bytes)
}

/// `ImageFormat::from_path` reads the format from the extension of a path. What it
/// finds depends on the path alone.
#[verifier::external_body]
fn format_of_path(path: &str) -> (found: Result<image::ImageFormat, image::ImageError>)
    ensures
        match found {
            Ok(format) => path_format(path@) == Some(format),
            Err(_) => path_format(path@) is None,
        },
{
    image::ImageFormat::from_path(path)
}

/// `image::load_from_memory_with_format` decodes the bytes in the given format. It
/// gives an image or an error, and which of the two, and what the image holds,
/// depends on the bytes and the format alone.
#[verifier::external_body]
fn decode_as(bytes: &[u8], format: image::ImageFormat) -> (decoded: Result<
    image::DynamicImage,
    image::ImageError,
>)
    ensures
        decoded is Ok <==> decodable(bytes@, format),
        decoded matches Ok(img) ==> {
            &&& size_of(img) == decoded_size(bytes@, format)
            &&& rgb_of(img) == decoded_rgb(bytes@, format)
            &&& forall|w: u32, h: u32|
                resized(img, w, h) == #[trigger] decoded_resized(bytes@, format, w, h)
        },
{
    image::load_from_memory_with_format(bytes, format)
}

/// `GenericImageView::dimensions` of a decoded image: its width and height.
#[verifier::external_body]
fn dimensions(img: &image::DynamicImage) -> (size: (u32, u32))
    ensures
        size == size_of(*img),
{
    image::GenericImageView::dimensions(img)
}

/// `DynamicImage::resize_exact` with the Catmull-Rom filter: the image resampled to
/// the given width and height.
#[verifier::external_body]
fn resample(img: &image::DynamicImage, width: u32, height: u32) -> (scaled: image::DynamicImage)
    requires
        width >= 1,
        height >= 1,
    ensures
        rgb_of(scaled) == resized(*img, width, height),
{
    img.resize_exact(width, height, image::imageops::FilterType::CatmullRom)
}

/// `DynamicImage::into_rgb8`, then the pixels row by row, each as its three channels.
#[verifier::external_body]
fn rgb_pixels(img: image::DynamicImage) -> (pixels: Vec<Rgb>)
    ensures
        pixels@ == rgb_of(img),
{
    img.into_rgb8().pixels().map(|p| (p[0], p[1], p[2])).collect()
}

/// The text of a decoding error, as its `Display` gives it.
#[verifier::external_body]
fn describe(e: &image::ImageError) -> (text: String) {
    e.to_string()
}

/// The words before the reason why an image could not be decoded.
pub open spec fn decode_failure() -> Seq<char> {
    "Failed to decode: "@
}

/// The format that an image is read in: the one that its first bytes show, or
/// else the one that the extension of its path names.
pub open spec fn format_for(bytes: Seq<u8>, path: Seq<char>) -> Option<image::ImageFormat> {
    if guessed_format(bytes) is Some {
        guessed_format(bytes)
    } else {
        path_format(path)
    }
}

/// The pixels that are counted for an encoded image: its own where neither side
/// exceeds 128, else those of the image scaled down to its sample size.
pub open spec fn sampled(bytes: Seq<u8>, format: image::ImageFormat) -> Seq<Rgb> {
    let size = decoded_size(bytes, format);
    if size.0 <= MAX_SIDE && size.1 <= MAX_SIDE {
        decoded_rgb(bytes, format)
    } else {
        decoded_resized(
            bytes,
            format,
            sample_size(size.0, size.1).0 as u32,
            sample_size(size.0, size.1).1 as u32,
        )
    }
}

/// The dominant colour of an encoded image, where the image has a format and
/// decodes in it.
pub open spec fn average_color(bytes: Seq<u8>, path: Seq<char>) -> Option<Rgb> {
    match format_for(bytes, path) {
        Some(format) => if decodable(bytes, format) {
            Some(dominant(sampled(bytes, format)))
        } else {
            None
        },
        None => None,
    }
}

/// Whether the error says that an image could not be decoded.
pub open spec fn is_decode_failure(e: ChromashError) -> bool {
    e is Json && e.detail().len() >= decode_failure().len() && e.detail().take(
        decode_failure().len() as int,
    ) == decode_failure()
}

/// Wraps the reason why an image could not be decoded.
fn decode_error(e: &image::ImageError) -> (error: ChromashError)
    ensures
        is_decode_failure(error),
{
    let reason = describe(e);
    let text = String::from_str("Failed to decode: ").concat(reason.as_str());
    proof {
        assert((decode_failure() + reason@).take(decode_failure().len() as int)
            =~= decode_failure());
    }
    ChromashError::Json(text)
}

/// The dominant colour of the encoded image that the file at `path` holds as
/// `bytes`. The format is taken from the bytes, or else from the extension of the
/// path. The bytes are decoded; an image with a side above 128 is scaled down
/// first; then the pixels are counted by bucket. Fails with a decoding error
/// exactly when there is no format or the bytes do not decode in it.
pub fn get_average_color(bytes: &[u8], path: &str) -> (picked: Result<Rgb, ChromashError>)
    ensures
        match average_color(bytes@, path@) {
            Some(c) => picked == Ok::<Rgb, ChromashError>(c),
            None => picked matches Err(e) && is_decode_failure(e),
        },
{
    let format = match guess(bytes) {
        Ok(format) => format,
        Err(_) => match format_of_path(path) {
            Ok(format) => format,
            Err(e) => {
                return Err(decode_error(&e));
            },
        },
    };
    match decode_as(bytes, format) {
        Err(e) => Err(decode_error(&e)),
        Ok(img) => {
            let (width, height) = dimensions(&img);
            let pixels = if width > MAX_SIDE || height > MAX_SIDE {
                let (w, h) = scaled_dimensions(width, height);
                rgb_pixels(resample(&img, w, h))
            } else {
                rgb_pixels(img)
            };
            Ok(dominant_color(&pixels))
        },
    }
}

/// An image that is small enough is sampled as it is. So where a second file
/// holds the first one's image already scaled down to its sample size, pixel for
/// pixel, the same colour is picked for both.
pub proof fn lemma_resized_copy(
    bytes: Seq<u8>,
    format: image::ImageFormat,
    copy: Seq<u8>,
    copy_format: image::ImageFormat,
)
    requires
        decoded_size(bytes, format).0 > MAX_SIDE || decoded_size(bytes, format).1 > MAX_SIDE,
        ({
            let size = decoded_size(bytes, format);
            let small = sample_size(size.0, size.1);
            &&& decoded_size(copy, copy_format).0 == small.0
            &&& decoded_size(copy, copy_format).1 == small.1
            &&& decoded_rgb(copy, copy_format) == decoded_resized(
                bytes,
                format,
                small.0 as u32,
                small.1 as u32,
            )
        }),
    ensures
        sampled(copy, copy_format) == sampled(bytes, format),
        dominant(sampled(copy, copy_format)) == dominant(sampled(bytes, format)),
{
    let size = decoded_size(bytes, format);
    lemma_sample_size(size.0, size.1);
}

/// The sample size of an image with a side above 128 is at most 128 by 128.
pub proof fn lemma_sample_size(width: u32, height: u32)
    requires
        width > MAX_SIDE || height > MAX_SIDE,
    ensures
        1 <= sample_size(width, height).0 <= MAX_SIDE,
        1 <= sample_size(width, height).1 <= MAX_SIDE,
{
    let longest: int = if width >= height { width as int } else { height as int };
    let w = width as int;
    let h = height as int;
    assert((256 * w + longest) / (2 * longest) <= 128) by (nonlinear_arith)
        requires
            0 <= w <= longest,
            longest > 128,
    ;
    assert((256 * h + longest) / (2 * longest) <= 128) by (nonlinear_arith)
        requires
            0 <= h <= longest,
            longest > 128,
    ;
}

} // verus!
