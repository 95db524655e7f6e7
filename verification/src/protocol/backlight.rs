//! Where the panel backlight lives in sysfs.
//!
//! The device name is not fixed (`intel_backlight`, `amdgpu_bl0`, `acpi_video0`), so it
//! is discovered. The application, which reads it, and the helper, which writes it,
//! both resolve it here, so a write never lands where the next read does not look.

use vstd::prelude::*;

use crate::order::{first_name, text_le};
use crate::paths::{join_path, joined_path};
use crate::text::texts;

verus! {

pub const SYSFS_CLASS: &'static str = "class/backlight";

pub const BRIGHTNESS_ATTR: &'static str = "brightness";

pub const MAX_BRIGHTNESS_ATTR: &'static str = "max_brightness";

/// The directory of one backlight device.
pub open spec fn device_path(sysfs: Seq<char>, name: Seq<char>) -> Seq<char> {
    joined_path(joined_path(sysfs, SYSFS_CLASS@), name)
}

/// The backlight device to use, given the entries of the backlight class: the first one
/// by name, so a machine with more than one resolves the same way every time.
pub fn device(sysfs: &str, entries: &Vec<String>) -> (r: Option<String>)
    ensures
        match r {
            Some(path) => exists|name: Seq<char>|
                {
                    &&& #[trigger] texts(entries@).contains(name)
                    &&& forall|i: int|
                        0 <= i < entries@.len() ==> text_le(name, #[trigger] entries@[i]@)
                    &&& path@ == device_path(sysfs@, name)
                },
            None => entries@.len() == 0,
        },
{
    match first_name(entries) {
        Some(name) => {
            let class = join_path(sysfs, SYSFS_CLASS);
            Some(join_path(class.as_str(), name.as_str()))
        },
        None => None,
    }
}

/// A panel's device lies in the backlight class, and its two attributes under it.
pub proof fn law_panel_lies_in_its_class(sysfs: Seq<char>, name: Seq<char>)
    ensures
        device_path(sysfs, name) == joined_path(joined_path(sysfs, "class/backlight"@), name),
        BRIGHTNESS_ATTR@ == "brightness"@,
        MAX_BRIGHTNESS_ATTR@ == "max_brightness"@,
{
}

} // verus!
