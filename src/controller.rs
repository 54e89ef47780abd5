use vstd::prelude::*;
use vstd::string::StringExecFns;
use crate::level::{clamp_level, clamped, percent_level, percent_of, raw_level, raw_of_percent};
use crate::text::{content_value, format_i32, parse_i32, parsed, text_of};

verus! {

/// Directory under which each backlight device has its own subdirectory.
pub const DEFAULT_ROOT: &'static str = "/sys/class/backlight";

/// Device used when none is named.
pub const DEFAULT_BACKEND: &'static str = "intel_backlight";

/// Attribute file holding the current raw brightness.
pub const BRIGHTNESS_FILE: &'static str = "brightness";

/// Attribute file holding the device's maximum raw brightness.
pub const MAX_BRIGHTNESS_FILE: &'static str = "max_brightness";

#[derive(Debug, Clone, Copy, PartialEq, Eq, Structural)]
pub enum BrightnessError {
    /// The maximum is not known and the content of its file was not supplied.
    MaxNotRead,
    /// The maximum is zero, so no percentage can be formed.
    ZeroMaximum,
}

/// One backlight device: the files under `root/backend/`, and a maximum
/// that is taken as known when positive.
pub struct Brightness {
    pub root: String,
    pub backend: String,
    pub max_brightness: i32,
}

/// What a read of an attribute file with this content yields.
pub fn read_value(content: &[u8]) -> (r: i32)
    ensures
        r == content_value(content@),
{
    match parse_i32(content) {
        Some(v) => v,
        None => 0,
    }
}

impl Brightness {
    /// Whether the maximum is known without reading its file.
    pub open spec fn knows_max(&self) -> bool {
        self.max_brightness > 0
    }

    /// The maximum that the controller works with, given what the maximum
    /// file holds (`None` when it was not read).
    pub open spec fn max_from(&self, max_file: Option<&[u8]>) -> Option<int> {
        if self.knows_max() {
            Some(self.max_brightness as int)
        } else {
            match max_file {
                Some(c) => Some(content_value(c@)),
                None => None,
            }
        }
    }

    /// What `get_max_brightness` returns for this content of the maximum file.
    pub open spec fn get_max_brightness_spec(&self, max_file: Option<&[u8]>) -> Result<i32, BrightnessError> {
        match self.max_from(max_file) {
            Some(m) => Ok(m as i32),
            None => Err(BrightnessError::MaxNotRead),
        }
    }

    pub fn new(root: String, backend: String, max_brightness: i32) -> (r: Brightness)
        ensures
            r.root@ == root@,
            r.backend@ == backend@,
            r.max_brightness == max_brightness,
    {
        Brightness { root, backend, max_brightness }
    }

    /// Whether an operation that needs the maximum has to read its file.
    pub fn reads_max_file(&self) -> (r: bool)
        ensures
            r == !self.knows_max(),
    {
        self.max_brightness <= 0
    }

    /// The device's maximum: the known one, else the value read from the
    /// content of the maximum file.
    pub fn get_max_brightness(&self, max_file: Option<&[u8]>) -> (r: Result<i32, BrightnessError>)
        ensures
            r == self.get_max_brightness_spec(max_file),
    {
        if self.max_brightness > 0 {
            return Ok(self.max_brightness);
        }
        match max_file {
            Some(c) => Ok(read_value(c)),
            None => Err(BrightnessError::MaxNotRead),
        }
    }

    /// Like `get_max_brightness`, and keeps a positive maximum read from the
    /// file, so that later operations need not read it again.
    pub fn cache_max_brightness(&mut self, max_file: Option<&[u8]>) -> (r: Result<i32, BrightnessError>)
        ensures
            r == old(self).get_max_brightness_spec(max_file),
            final(self).root@ == old(self).root@,
            final(self).backend@ == old(self).backend@,
            final(self).max_brightness == (match r {
                Ok(m) => if m > 0 { m } else { old(self).max_brightness },
                Err(_) => old(self).max_brightness,
            }),
    {
        let r = self.get_max_brightness(max_file);
        if let Ok(m) = r {
            if m > 0 {
                self.max_brightness = m;
            }
        }
        r
    }

    /// The current raw brightness, from the content of the brightness file.
    pub fn get_brightness(&self, brightness_file: &[u8]) -> (r: i32)
        ensures
            r == content_value(brightness_file@),
    {
        read_value(brightness_file)
    }

    /// The current brightness as a percentage of the maximum.
    pub fn get_percent(&self, brightness_file: &[u8], max_file: Option<&[u8]>) -> (r: Result<i32, BrightnessError>)
        ensures
            match self.max_from(max_file) {
                None => r == Err::<i32, BrightnessError>(BrightnessError::MaxNotRead),
                Some(m) => if m == 0 {
                    r == Err::<i32, BrightnessError>(BrightnessError::ZeroMaximum)
                } else {
                    r == Ok::<i32, BrightnessError>(percent_of(content_value(brightness_file@), m) as i32)
                },
            },
    {
        let value = self.get_brightness(brightness_file);
        let max = match self.get_max_brightness(max_file) {
            Ok(m) => m,
            Err(e) => return Err(e),
        };
        if max == 0 {
            return Err(BrightnessError::ZeroMaximum);
        }
        Ok(percent_level(value, max))
    }

    /// The text to write to the brightness file to set `value`, clamped
    /// into `[0, max]`.
    pub fn set_brightness(&self, value: i32, max_file: Option<&[u8]>) -> (r: Result<Vec<u8>, BrightnessError>)
        ensures
            match self.max_from(max_file) {
                None => r == Err::<Vec<u8>, BrightnessError>(BrightnessError::MaxNotRead),
                Some(m) => r matches Ok(t) && t@ == text_of(clamped(value as int, m)),
            },
    {
        let max = match self.get_max_brightness(max_file) {
            Ok(m) => m,
            Err(e) => return Err(e),
        };
        Ok(format_i32(clamp_level(value, max)))
    }

    /// The text to write to the brightness file to set `value` percent of
    /// the maximum.
    pub fn set_percent(&self, value: i32, max_file: Option<&[u8]>) -> (r: Result<Vec<u8>, BrightnessError>)
        ensures
            match self.max_from(max_file) {
                None => r == Err::<Vec<u8>, BrightnessError>(BrightnessError::MaxNotRead),
                Some(m) => r matches Ok(t) && t@ == text_of(clamped(raw_of_percent(value as int, m), m)),
            },
    {
        let max = match self.get_max_brightness(max_file) {
            Ok(m) => m,
            Err(e) => return Err(e),
        };
        let raw = raw_level(value, max);
        self.set_brightness(raw, max_file)
    }
}

impl Default for Brightness {
    fn default() -> (r: Brightness)
        ensures
            r.root@ == DEFAULT_ROOT@,
            r.backend@ == DEFAULT_BACKEND@,
            r.max_brightness == 0,
    {
        Brightness { root: String::from_str(DEFAULT_ROOT), backend: String::from_str(DEFAULT_BACKEND), max_brightness: 0 }
    }
}

} // verus!
