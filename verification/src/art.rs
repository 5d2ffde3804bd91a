//! Built-in ASCII-art text assets, offered as an optional registry module.

use vstd::prelude::*;

use crate::registry::Registry;

verus! {

broadcast use vstd::string::group_string_axioms;

/// The registry of built-in Rust-themed ASCII art: the logo, then the
/// welcome banner.
pub fn rust_art_registry() -> (r: Registry)
    ensures
        r.wf(),
        r.binary_assets().len() == 0,
        r.text_assets().len() == 2,
        r.text_assets()[0].info.name@ == "RUST_LOGO"@,
        r.text_assets()[1].info.name@ == "RUST_BANNER"@,
        r.text_assets()[0].content@.len() > 0,
        r.text_assets()[1].content@.len() > 0,
{
    let mut reg = Registry::new(String::from_str("rust"));
    let logo = String::from_str(
        "\n    ██████╗ ██╗   ██╗███████╗████████╗\n    ██╔══██╗██║   ██║██╔════╝╚══██╔══╝\n    ██████╔╝██║   ██║███████╗   ██║   \n    ██╔══██╗██║   ██║╚════██║   ██║   \n    ██║  ██║╚██████╔╝███████║   ██║   \n    ╚═╝  ╚═╝ ╚═════╝ ╚══════╝   ╚═╝   \n    ",
    );
    proof {
        reveal_strlit(
            "\n    ██████╗ ██╗   ██╗███████╗████████╗\n    ██╔══██╗██║   ██║██╔════╝╚══██╔══╝\n    ██████╔╝██║   ██║███████╗   ██║   \n    ██╔══██╗██║   ██║╚════██║   ██║   \n    ██║  ██║╚██████╔╝███████║   ██║   \n    ╚═╝  ╚═╝ ╚═════╝ ╚══════╝   ╚═╝   \n    ",
        );
    }
    let _declared_logo = reg.declare_text_asset(
        String::from_str("RUST_LOGO"),
        logo,
        String::from_str("Rust programming language logo in ASCII art"),
    );
    let banner = String::from_str(
        "\n    ╔══════════════════════════════════════╗\n    ║            Welcome to Rust!          ║\n    ║        Fast • Safe • Productive      ║\n    ╚══════════════════════════════════════╝\n    ",
    );
    proof {
        reveal_strlit(
            "\n    ╔══════════════════════════════════════╗\n    ║            Welcome to Rust!          ║\n    ║        Fast • Safe • Productive      ║\n    ╚══════════════════════════════════════╝\n    ",
        );
        reveal_strlit("RUST_LOGO");
        reveal_strlit("RUST_BANNER");
        assert("RUST_LOGO"@.len() == 9);
        assert("RUST_BANNER"@.len() == 11);
    }
    let _declared_banner = reg.declare_text_asset(
        String::from_str("RUST_BANNER"),
        banner,
        String::from_str("Welcome banner for Rust applications"),
    );
    reg
}

} // verus!
