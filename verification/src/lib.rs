//! Procedural profile-avatar synthesis.
//!
//! An [`Avatar`] holds pixel dimensions, optional initials derived from a
//! display name, and an optional text color. From it the library builds
//! row-major RGBA pixel buffers: a solid fill, or a gradient fill assembled
//! from a pre-sampled color field. Placement of the initials text is computed
//! here as well; glyph rasterization, noise sampling and color-ramp lookup
//! work in floating point and live outside this verified core.

use vstd::prelude::*;

pub mod buffer;
pub mod error;
pub mod initials;

verus! {

use crate::buffer::PixelBuffer;
use crate::error::AvatarError;
use crate::initials::{extract_initials, initials_of};

/// A description of one avatar: dimensions, and what text (if any) should be
/// drawn over its background.
pub struct Avatar {
    /// Image width in pixels.
    pub width: i32,
    /// Image height in pixels.
    pub height: i32,
    /// Up to two letters taken from the display name, if one was given
    /// together with a text color.
    pub initials: Option<String>,
    /// RGBA color for the initials text, if one was given.
    pub text_color: Option<[u8; 4]>,
}

impl Avatar {
    /// Build an avatar description. Initials are derived once, here: they are
    /// present exactly when both a name and a text color were given, and then
    /// hold the first character of the name's first word and, for names of
    /// more than one word, the first character of its last word. A name given
    /// without a text color leaves both fields empty, so no text will ever be
    /// drawn for it.
    pub fn new(
        width: i32,
        height: i32,
        name_string: Option<&str>,
        text_rgba: Option<[u8; 4]>,
    ) -> (r: Avatar)
        ensures
            r.width == width,
            r.height == height,
            match (name_string, text_rgba) {
                (Some(name), Some(color)) => {
                    &&& r.text_color == Some(color)
                    &&& r.initials matches Some(s) && s@ == initials_of(name@)
                },
                _ => r.initials.is_none() && r.text_color.is_none(),
            },
    {
        match name_string {
            Some(name) => {
                if text_rgba.is_none() {
                    Avatar { width, height, initials: None, text_color: None }
                } else {
                    let initials = extract_initials(name);
                    Avatar { width, height, initials: Some(initials), text_color: text_rgba }
                }
            },
            None => Avatar { width, height, initials: None, text_color: None },
        }
    }

    /// Render the solid background: a buffer of the avatar's dimensions with
    /// every pixel equal to `color_rgba`. Drawing the initials text over the
    /// background is a separate, later step; the buffer returned here is the
    /// untouched background.
    pub fn simple(&self, color_rgba: [u8; 4]) -> (r: Result<PixelBuffer, AvatarError>)
        requires
            self.width * self.height <= usize::MAX,
        ensures
            r.is_ok() <==> self.width > 0 && self.height > 0,
            r matches Err(e) ==> e == AvatarError::InvalidDimensions,
            r matches Ok(buf) ==> {
                &&& buf.wf()
                &&& buf.width == self.width
                &&& buf.height == self.height
                &&& forall|x: int, y: int|
                    0 <= x < buf.width && 0 <= y < buf.height ==> buf.pixel_at(x, y) == color_rgba
            },
    {
        if self.width <= 0 || self.height <= 0 {
            return Err(AvatarError::InvalidDimensions);
        }
        Ok(PixelBuffer::filled(self.width as u32, self.height as u32, color_rgba))
    }

    /// Assemble the gradient background from a pre-sampled color field:
    /// `colors` holds one RGBA color per pixel, row-major. Sampling the field
    /// (coherent noise and the color-ramp lookup) is floating-point work that
    /// happens outside this verified core; this function fixes the samples
    /// into a buffer of the avatar's dimensions, pixel for pixel.
    pub fn gradient(&self, colors: &Vec<[u8; 4]>) -> (r: Result<PixelBuffer, AvatarError>)
        requires
            self.width > 0 && self.height > 0 ==> colors@.len() == self.width * self.height,
        ensures
            r.is_ok() <==> self.width > 0 && self.height > 0,
            r matches Err(e) ==> e == AvatarError::InvalidDimensions,
            r matches Ok(buf) ==> {
                &&& buf.wf()
                &&& buf.width == self.width
                &&& buf.height == self.height
                &&& buf.data@ == colors@
                &&& forall|x: int, y: int|
                    0 <= x < buf.width && 0 <= y < buf.height
                        ==> buf.pixel_at(x, y) == colors@[y * buf.width + x]
            },
    {
        if self.width <= 0 || self.height <= 0 {
            return Err(AvatarError::InvalidDimensions);
        }
        let total: usize = colors.len();
        let mut data: Vec<[u8; 4]> = Vec::new();
        let mut k: usize = 0;
        while k < total
            invariant
                k <= total,
                total == colors@.len(),
                data@ =~= colors@.take(k as int),
            decreases total - k,
        {
            data.push(colors[k]);
            k = k + 1;
        }
        proof {
            assert(data@ =~= colors@);
        }
        Ok(PixelBuffer { width: self.width as u32, height: self.height as u32, data })
    }

    /// What the text overlay must draw: the initials and their color when
    /// both are present, nothing otherwise. A name that was given without a
    /// text color left both fields empty, so for such an avatar this is
    /// `None` whatever colors a render call is handed later.
    pub fn overlay_inputs(&self) -> (r: Option<(&String, [u8; 4])>)
        ensures
            match r {
                Some(pair) => {
                    &&& self.initials == Some(*pair.0)
                    &&& self.text_color == Some(pair.1)
                },
                None => self.initials.is_none() || self.text_color.is_none(),
            },
    {
        match (&self.initials, self.text_color) {
            (Some(s), Some(c)) => Some((s, c)),
            _ => None,
        }
    }

    /// Where the initials text goes: the top-left corner of a text box of
    /// size `text_width` x `text_height`, centered in the image both ways and
    /// then lifted by a fixed 6-pixel offset that corrects the font's visual
    /// baseline imbalance.
    pub fn text_position(&self, text_width: i32, text_height: i32) -> (pos: (i32, i32))
        requires
            0 < self.width,
            0 < self.height,
            0 <= text_width,
            0 <= text_height,
        ensures
            pos.0 == self.width / 2 - text_width / 2,
            pos.1 == self.height / 2 - text_height / 2 - 6,
    {
        (self.width / 2 - text_width / 2, self.height / 2 - text_height / 2 - 6)
    }
}

} // verus!
