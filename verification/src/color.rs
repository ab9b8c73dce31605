//! From summed light to the levels of a pixel.

use crate::double::{Double, ONE};
use crate::vec3::Color;
use vstd::prelude::*;

verus! {

/// The pattern of 0.999, the brightest that a channel gets.
pub const BRIGHTEST: u64 = 0x3FEF_F7CE_D916_872B;

/// The pattern of 256.0, the number of levels of a channel.
pub const LEVELS: u64 = 0x4070_0000_0000_0000;

/// The highest level of a channel.
pub const TOP_LEVEL: i32 = 255;

pub open spec fn spec_channel_level(sum: Double, scale: Double) -> i32 {
    let level = (Double::from_bits(LEVELS) * (sum * scale).sqrt().clamp(
        Double::from_bits(0),
        Double::from_bits(BRIGHTEST),
    )).to_i32();
    if level < 0 {
        0
    } else if level > TOP_LEVEL {
        TOP_LEVEL
    } else {
        level
    }
}

/// The level of one channel: the summed light times `scale`, its square
/// root taken for a gamma of 2, held between 0 and 0.999, times 256 and cut
/// to a whole number. That number lies from 0 to 255 as long as the product
/// is rounded as it should be; the level is held there whatever it is.
#[verifier::when_used_as_spec(spec_channel_level)]
pub fn channel_level(sum: Double, scale: Double) -> (level: i32)
    ensures
        level == channel_level(sum, scale),
        0 <= level <= TOP_LEVEL,
{
    let clamped = (sum * scale).sqrt().clamp(Double::from_bits(0), Double::from_bits(BRIGHTEST));
    let level = (Double::from_bits(LEVELS) * clamped).to_i32();
    if level < 0 {
        0
    } else if level > TOP_LEVEL {
        TOP_LEVEL
    } else {
        level
    }
}

pub open spec fn spec_color_levels(pixel_color: Color, samples_per_pixel: i32) -> (i32, i32, i32) {
    let scale = Double::from_bits(ONE) / Double::from_i32(samples_per_pixel);
    (
        channel_level(pixel_color.x, scale),
        channel_level(pixel_color.y, scale),
        channel_level(pixel_color.z, scale),
    )
}

/// The red, green and blue levels of a pixel whose colour is the sum of
/// `samples_per_pixel` samples: each channel is averaged over the samples
/// and then brought to a level.
#[verifier::when_used_as_spec(spec_color_levels)]
pub fn color_levels(pixel_color: Color, samples_per_pixel: i32) -> (levels: (i32, i32, i32))
    ensures
        levels == color_levels(pixel_color, samples_per_pixel),
        0 <= levels.0 <= TOP_LEVEL,
        0 <= levels.1 <= TOP_LEVEL,
        0 <= levels.2 <= TOP_LEVEL,
{
    let r = pixel_color.x;
    let g = pixel_color.y;
    let b = pixel_color.z;
    let scale = Double::from_bits(ONE) / Double::from_i32(samples_per_pixel);
    (channel_level(r, scale), channel_level(g, scale), channel_level(b, scale))
}

pub open spec fn spec_image_height(image_width: i32, aspect_ratio: Double) -> i32 {
    (Double::from_i32(image_width) / aspect_ratio).to_i32()
}

/// The height in pixels of a picture of the given width and ratio of width
/// to height, cut to a whole number.
#[verifier::when_used_as_spec(spec_image_height)]
pub fn image_height(image_width: i32, aspect_ratio: Double) -> (height: i32)
    ensures
        height == image_height(image_width, aspect_ratio),
{
    (Double::from_i32(image_width) / aspect_ratio).to_i32()
}

} // verus!
