//! Branding asset requests and the theme generator's own record.  Image
//! work itself is the host's business; these are the shapes it runs on.

use vstd::prelude::*;
use vstd::string::StringExecFns;

verus! {

/// A request to convert one uploaded logo into another format.
#[derive(Debug)]
pub struct ConvertRequest {
    pub logo_name: String,
    pub logo_data: String,
    pub output_path: String,
    pub format: String,
}

/// A request to generate the full branding asset set.
#[derive(Debug)]
pub struct OemRequest {
    pub logo_name: String,
    pub logo_data: String,
    pub document_name: String,
    pub document_data: String,
}

/// A request to round the corners of an uploaded logo.
#[derive(Debug)]
pub struct CornerRequest {
    pub logo_name: String,
    pub logo_data: String,
    pub radius: String,
}

/// The image format used when a conversion request names none.
pub fn default_format() -> (r: String)
    ensures
        r@ == "png"@,
{
    "png".to_owned()
}

/// Generates themed resource trees for a brand under one base directory.
pub struct ThemeGenerator {
    pub base_path: String,
    pub oem_name: String,
}

impl ThemeGenerator {
    /// A generator writing under `base_path` for the named brand.
    pub fn new(base_path: &str, oem_name: &str) -> (r: Self)
        ensures
            r.base_path@ == base_path@,
            r.oem_name@ == oem_name@,
    {
        ThemeGenerator { base_path: base_path.to_owned(), oem_name: oem_name.to_owned() }
    }

    /// The file name of a sized square image: the prefix, the pixel size
    /// and the `png` extension.
    pub fn sized_image_name(prefix: &str, size: u64) -> (r: String)
        ensures
            r@ == prefix@ + "_"@ + crate::text::spec_dec(size as int) + ".png"@,
    {
        let mut s = prefix.to_owned();
        s.append("_");
        let n = crate::text::u64_to_string(size);
        s.append(n.as_str());
        s.append(".png");
        proof {
            assert(s@ =~= prefix@ + "_"@ + crate::text::spec_dec(size as int) + ".png"@);
        }
        s
    }
}

} // verus!
