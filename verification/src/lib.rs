//! An asset registry and its helpers: named, immutable binary and text
//! assets are declared once, each with a metadata record whose size is
//! derived from the content itself, and enumerated in declaration order.
//! Beside it stand small pure utilities: line and character counting,
//! standard Base64 encoding, MIME-type lookup, and data-URL construction.

mod art;
mod b64;
mod images;
mod mime;
mod registry;
mod text;

pub use art::rust_art_registry;
pub use images::images_registry;

pub use b64::base64_decode_of;
pub use b64::base64_encode;
pub use b64::base64_of;
pub use b64::create_data_url;
pub use b64::lemma_base64_round_trip;
pub use b64::to_base64;
pub use mime::ascii_without_uppercase;
pub use mime::lower_of;
pub use mime::mime_of;
pub use mime::mime_type_for_lowercase;
pub use mime::mime_type_from_extension;
pub use registry::binary_matches_spec;
pub use registry::binary_names_distinct;
pub use registry::create_registry;
pub use registry::lemma_listing_matches_specs;
pub use registry::lemma_sizes_accurate;
pub use registry::text_matches_spec;
pub use registry::text_names_distinct;
pub use registry::AssetInfo;
pub use registry::AssetRetriever;
pub use registry::BinaryAsset;
pub use registry::BinarySpec;
pub use registry::Registry;
pub use registry::RegistryError;
pub use registry::TextAsset;
pub use registry::TextAssetInfo;
pub use registry::TextSpec;
pub use text::get_char_count;
pub use text::get_line_count;
pub use text::line_count_of;
pub use text::newline_count;
