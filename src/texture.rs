use vstd::prelude::*;
use crate::passes::same_name;
use crate::resource::{FORMAT_R8G8B8A8_SRGB, FORMAT_R8G8B8A8_UNORM};

verus! {

/// The texture format that a file extension selects: sRGB for PNG, linear
/// for JPEG, `None` for an extension not handled.
pub open spec fn format_of_extension(ext: Seq<char>) -> Option<i32> {
    if ext == "png"@ {
        Some(FORMAT_R8G8B8A8_SRGB)
    } else if ext == "jpg"@ || ext == "jpeg"@ {
        Some(FORMAT_R8G8B8A8_UNORM)
    } else {
        None
    }
}

pub fn extension_to_vk_format(ext: &str) -> (r: Option<i32>)
    ensures
        r == format_of_extension(ext@),
{
    if same_name(ext, "png") {
        Some(FORMAT_R8G8B8A8_SRGB)
    } else if same_name(ext, "jpg") || same_name(ext, "jpeg") {
        Some(FORMAT_R8G8B8A8_UNORM)
    } else {
        None
    }
}

/// Loads textures from image files.
pub struct ImageTextureLoader;

impl ImageTextureLoader {
    /// The file extensions this loader reads.
    pub fn extensions(&self) -> (r: Vec<&'static str>)
        ensures
            r@.len() == 3,
            r@[0]@ == "png"@,
            r@[1]@ == "jpg"@,
            r@[2]@ == "jpeg"@,
            forall|i: int| 0 <= i < r@.len() ==> format_of_extension(#[trigger] r@[i]@) is Some,
    {
        let r = vec!["png", "jpg", "jpeg"];
        proof {
            reveal_strlit("png");
            reveal_strlit("jpg");
            reveal_strlit("jpeg");
        }
        r
    }
}

} // verus!
