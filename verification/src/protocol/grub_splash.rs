//! What the application and the helper agree on for a custom GRUB menu background.
//! The application checks a picked file against these before it asks for privileges;
//! the helper enforces them again, since it trusts nothing from the other side.

use vstd::prelude::*;

use crate::text::same;

verus! {

/// Generous for a boot-menu background, while still bounding how much a single line of
/// the wire protocol can make the helper allocate.
pub const MAX_IMAGE_BYTES: usize = 8 * 1024 * 1024;

/// Extensions that GRUB's own `png`, `jpeg` and `tga` loader modules understand.
pub const EXTENSIONS: [&'static str; 4] = ["png", "jpg", "jpeg", "tga"];

/// The stem of the staged file, and the text that marks a `GRUB_BACKGROUND` line as
/// this application's own.
pub const MARKER: &'static str = "predator-sense-splash";

/// Whether GRUB can load an image with this extension.
pub open spec fn loadable(extension: Seq<char>) -> bool {
    ||| extension == "png"@
    ||| extension == "jpg"@
    ||| extension == "jpeg"@
    ||| extension == "tga"@
}

/// Whether GRUB can load an image with this extension.
pub fn extension_supported(extension: &str) -> (r: bool)
    ensures
        r == loadable(extension@),
{
    same(extension, EXTENSIONS[0]) || same(extension, EXTENSIONS[1]) || same(
        extension,
        EXTENSIONS[2],
    ) || same(extension, EXTENSIONS[3])
}

/// An image is bounded by eight mebibytes; the four extensions are those of GRUB's loaders,
/// and each of them can be loaded.
pub proof fn law_loaders_know_their_extensions(extension: Seq<char>)
    ensures
        MAX_IMAGE_BYTES == 0x80_0000,
        MARKER@ == "predator-sense-splash"@,
        loadable(EXTENSIONS@[0]@) && loadable(EXTENSIONS@[1]@) && loadable(EXTENSIONS@[2]@)
            && loadable(EXTENSIONS@[3]@),
        loadable(extension) <==> extension == "png"@ || extension == "jpg"@ || extension == "jpeg"@
            || extension == "tga"@,
{
}

} // verus!
