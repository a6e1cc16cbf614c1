//! The RGB keyboard backlight (`/sys/class/leds/rgb:kbd_backlight`):
//! brightness as a percentage of the device's `max_brightness`, color as
//! `"R G B"` in `multi_intensity`.

use vstd::prelude::*;
use crate::hardware::{SysfsNode, SysfsValue, SysfsWrite};
use crate::profile::{RGBColor, MAX_PERCENT};
use crate::text::{parse_number_fields, fields, parse_decimal_spec};

verus! {

#[derive(Debug, Clone, Copy, PartialEq, Eq, Structural)]
pub enum KeyboardError {
    /// A brightness above 100 percent.
    BrightnessOutOfRange,
    /// The device has no `multi_intensity` node.
    NoRgbSupport,
    /// `multi_intensity` does not hold three numbers from 0 to 255.
    InvalidColorFormat,
}

/// A percentage as a raw brightness: `floor(percent * max / 100)`.
pub open spec fn percent_to_raw_spec(percent: u8, max: u8) -> u8 {
    (percent * max / 100int) as u8
}

/// A raw brightness as a percentage of `max`, rounded down and capped at
/// 100; 0 when `max` is 0.
pub open spec fn raw_to_percent_spec(raw: u8, max: u8) -> u8 {
    if max == 0 {
        0
    } else if raw * 100 / (max as int) > 100 {
        100
    } else {
        (raw * 100 / (max as int)) as u8
    }
}

/// The color that `multi_intensity` text gives: exactly three fields, each a
/// number from 0 to 255.
pub open spec fn color_spec(text: Seq<char>) -> Option<RGBColor> {
    let f = fields(text);
    if f.len() != 3 {
        None
    } else {
        match (parse_decimal_spec(f[0]), parse_decimal_spec(f[1]), parse_decimal_spec(f[2])) {
            (Some(r), Some(g), Some(b)) => if r <= 255 && g <= 255 && b <= 255 {
                Some(RGBColor { r: r as u8, g: g as u8, b: b as u8 })
            } else {
                None
            },
            _ => None,
        }
    }
}

pub ghost struct KeyboardView {
    pub max_brightness: u8,
    pub rgb_support: bool,
}

/// The keyboard backlight device, described by its `max_brightness` and by
/// whether it has a color node.
pub struct KeyboardController {
    max_brightness: u8,
    rgb_support: bool,
}

impl View for KeyboardController {
    type V = KeyboardView;

    closed spec fn view(&self) -> KeyboardView {
        KeyboardView { max_brightness: self.max_brightness, rgb_support: self.rgb_support }
    }
}

impl Clone for KeyboardController {
    fn clone(&self) -> (r: Self)
        ensures
            r@ == self@,
    {
        KeyboardController { max_brightness: self.max_brightness, rgb_support: self.rgb_support }
    }
}

impl KeyboardController {
    /// The device as read from sysfs: its `max_brightness`, and whether its
    /// `multi_intensity` node exists.
    pub fn new(max_brightness: u8, rgb_support: bool) -> (r: KeyboardController)
        ensures
            r@ == (KeyboardView { max_brightness, rgb_support }),
    {
        KeyboardController { max_brightness, rgb_support }
    }

    /// The brightness percentage a raw `brightness` value stands for.
    pub fn get_brightness(&self, raw: u8) -> (r: u8)
        ensures
            r == raw_to_percent_spec(raw, self@.max_brightness),
            r <= 100,
    {
        if self.max_brightness == 0 {
            return 0;
        }
        let p = raw as u32 * 100 / self.max_brightness as u32;
        if p > 100 {
            100
        } else {
            p as u8
        }
    }

    /// The write that sets the brightness to `percent`; above 100 is refused.
    pub fn set_brightness(&self, percent: u8) -> (r: Result<SysfsWrite, KeyboardError>)
        ensures
            percent > 100 ==> r == Err::<SysfsWrite, KeyboardError>(
                KeyboardError::BrightnessOutOfRange,
            ),
            percent <= 100 ==> r == Ok::<SysfsWrite, KeyboardError>(
                SysfsWrite {
                    node: SysfsNode::KeyboardBrightness,
                    value: SysfsValue::Number(
                        percent_to_raw_spec(percent, self@.max_brightness) as u64,
                    ),
                },
            ),
    {
        if percent > MAX_PERCENT {
            return Err(KeyboardError::BrightnessOutOfRange);
        }
        proof {
            assert(percent * self.max_brightness / 100 <= 255) by (nonlinear_arith)
                requires
                    percent <= 100,
                    self.max_brightness <= 255,
            ;
        }
        let raw = (percent as u32 * self.max_brightness as u32 / 100) as u8;
        Ok(SysfsWrite { node: SysfsNode::KeyboardBrightness, value: SysfsValue::Number(raw as u64) })
    }

    /// The color that `multi_intensity` text stands for.
    pub fn get_color(&self, text: &str) -> (r: Result<(u8, u8, u8), KeyboardError>)
        ensures
            !self@.rgb_support ==> r == Err::<(u8, u8, u8), KeyboardError>(
                KeyboardError::NoRgbSupport,
            ),
            self@.rgb_support ==> r == match color_spec(text@) {
                Some(c) => Ok((c.r, c.g, c.b)),
                None => Err(KeyboardError::InvalidColorFormat),
            },
    {
        if !self.rgb_support {
            return Err(KeyboardError::NoRgbSupport);
        }
        let values = parse_number_fields(text);
        if values.len() != 3 {
            return Err(KeyboardError::InvalidColorFormat);
        }
        match (values[0], values[1], values[2]) {
            (Some(r), Some(g), Some(b)) => {
                if r <= 255 && g <= 255 && b <= 255 {
                    Ok((r as u8, g as u8, b as u8))
                } else {
                    Err(KeyboardError::InvalidColorFormat)
                }
            },
            _ => Err(KeyboardError::InvalidColorFormat),
        }
    }

    /// The write that sets the color; refused without a color node.
    pub fn set_color(&self, r: u8, g: u8, b: u8) -> (w: Result<SysfsWrite, KeyboardError>)
        ensures
            !self@.rgb_support ==> w == Err::<SysfsWrite, KeyboardError>(
                KeyboardError::NoRgbSupport,
            ),
            self@.rgb_support ==> w == Ok::<SysfsWrite, KeyboardError>(
                SysfsWrite {
                    node: SysfsNode::KeyboardColor,
                    value: SysfsValue::Color(RGBColor { r, g, b }),
                },
            ),
    {
        if !self.rgb_support {
            return Err(KeyboardError::NoRgbSupport);
        }
        Ok(SysfsWrite { node: SysfsNode::KeyboardColor, value: SysfsValue::Color(RGBColor { r, g, b }) })
    }

    /// The color write, then the brightness write; the first refusal is returned.
    pub fn set_color_and_brightness(&self, r: u8, g: u8, b: u8, brightness: u8) -> (w: Result<
        Vec<SysfsWrite>,
        KeyboardError,
    >)
        ensures
            match (self.set_color_spec(r, g, b), self.set_brightness_spec(brightness)) {
                (Err(e), _) => w is Err && w->Err_0 == e,
                (Ok(_), Err(e)) => w is Err && w->Err_0 == e,
                (Ok(c), Ok(k)) => w is Ok && w->Ok_0@ == seq![c, k],
            },
    {
        let color = match self.set_color(r, g, b) {
            Ok(c) => c,
            Err(e) => {
                return Err(e);
            },
        };
        let level = match self.set_brightness(brightness) {
            Ok(k) => k,
            Err(e) => {
                return Err(e);
            },
        };
        let v = vec![color, level];
        assert(v@ =~= seq![color, level]);
        Ok(v)
    }

    pub open spec fn set_color_spec(&self, r: u8, g: u8, b: u8) -> Result<SysfsWrite, KeyboardError> {
        if !self@.rgb_support {
            Err(KeyboardError::NoRgbSupport)
        } else {
            Ok(
                SysfsWrite {
                    node: SysfsNode::KeyboardColor,
                    value: SysfsValue::Color(RGBColor { r, g, b }),
                },
            )
        }
    }

    pub open spec fn set_brightness_spec(&self, percent: u8) -> Result<SysfsWrite, KeyboardError> {
        if percent > 100 {
            Err(KeyboardError::BrightnessOutOfRange)
        } else {
            Ok(
                SysfsWrite {
                    node: SysfsNode::KeyboardBrightness,
                    value: SysfsValue::Number(
                        percent_to_raw_spec(percent, self@.max_brightness) as u64,
                    ),
                },
            )
        }
    }

    pub fn max_brightness(&self) -> (r: u8)
        ensures
            r == self@.max_brightness,
    {
        self.max_brightness
    }

    pub fn has_rgb_support(&self) -> (r: bool)
        ensures
            r == self@.rgb_support,
    {
        self.rgb_support
    }

    /// The write that turns the backlight off.
    pub fn turn_off(&self) -> (r: SysfsWrite)
        ensures
            r == (SysfsWrite { node: SysfsNode::KeyboardBrightness, value: SysfsValue::Number(0) }),
    {
        match self.set_brightness(0) {
            Ok(w) => w,
            Err(_) => SysfsWrite { node: SysfsNode::KeyboardBrightness, value: SysfsValue::Number(0) },
        }
    }

    /// Whether the backlight is on at raw `brightness`.
    pub fn is_on(&self, raw: u8) -> (r: bool)
        ensures
            r == (raw_to_percent_spec(raw, self@.max_brightness) > 0),
    {
        self.get_brightness(raw) > 0
    }
}

} // verus!
