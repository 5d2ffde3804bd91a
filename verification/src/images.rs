//! Built-in binary image assets, offered as an optional registry module.

use vstd::prelude::*;

use crate::registry::Registry;

verus! {

broadcast use vstd::string::group_string_axioms;

/// The registry of built-in images: a placeholder PNG icon (the PNG file
/// signature), then a placeholder SVG logo.
pub fn images_registry() -> (r: Registry)
    ensures
        r.wf(),
        r.text_assets().len() == 0,
        r.binary_assets().len() == 2,
        r.binary_assets()[0].info.name@ == "ICON_PNG"@,
        r.binary_assets()[0].info.format@ == "PNG"@,
        r.binary_assets()[0].content@.len() > 0,
        r.binary_assets()[0].info.size == r.binary_assets()[0].content@.len(),
        r.binary_assets()[1].info.name@ == "LOGO_SVG"@,
        r.binary_assets()[1].info.format@ == "SVG"@,
        r.binary_assets()[1].content@.len() > 0,
{
    let mut reg = Registry::new(String::from_str("images"));
    let icon: Vec<u8> = vec![0x89u8, 0x50, 0x4E, 0x47, 0x0D, 0x0A, 0x1A, 0x0A];
    let _declared_icon = reg.declare_binary_asset(
        String::from_str("ICON_PNG"),
        icon,
        String::from_str("PNG"),
        String::from_str("Application icon in PNG format"),
    );
    let logo_text = "<svg><!-- SVG content --></svg>";
    proof {
        reveal_strlit("<svg><!-- SVG content --></svg>");
        reveal_strlit("ICON_PNG");
        reveal_strlit("LOGO_SVG");
        vstd::string::is_ascii_spec_bytes(logo_text);
        assert("ICON_PNG"@[0int] == 'I');
        assert("LOGO_SVG"@[0int] == 'L');
    }
    let logo = logo_text.as_bytes_vec();
    let _declared_logo = reg.declare_binary_asset(
        String::from_str("LOGO_SVG"),
        logo,
        String::from_str("SVG"),
        String::from_str("Company logo in SVG format"),
    );
    reg
}

} // verus!
