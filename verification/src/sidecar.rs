//! Where the annotations of an image are kept.
use vstd::prelude::*;

verus! {

/// The sidecar suffix appended to an image path.
pub open spec fn sidecar_suffix() -> Seq<char> {
    ".previewer.json"@
}

/// The sidecar JSON path for an image path: `.previewer.json` appended to
/// the *full* image path (so `foo.png` gives `foo.png.previewer.json`,
/// keeping the original extension distinguishable).
pub fn sidecar_path(image_path: &str) -> (p: String)
    ensures
        p@ == image_path@ + sidecar_suffix(),
{
    let mut s = String::from_str(image_path);
    s.append(".previewer.json");
    s
}

} // verus!
