//! Planning, naming and ordering rules for packing chapter directories of
//! images into comic book archives, and for unpacking them again.
//!
//! The library decides; it touches no file. A caller lists directories and
//! reads files, hands names and bytes over, and carries out what comes back.

pub mod archive;
pub mod build_vol;
pub mod calc;
pub mod decode;
pub mod encode;
pub mod encode_one;
pub mod error;
pub mod images;
pub mod lexical;
pub mod naming_laws;
pub mod natsort;
pub mod numbering;
pub mod opts;
pub mod order;
pub mod order_laws;
pub mod pack;
pub mod paths;
pub mod plan;
pub mod plan_laws;
pub mod probe;
pub mod rebuild;
pub mod sorting;
pub mod text;
pub mod unpack;
pub mod unpack_pdf;

pub use build_vol::BuildMethod;
pub use calc::ceil_div;
pub use encode_one::encode_one;
pub use images::{has_image_ext, is_supported_for_decoding};
pub use natsort::natural_cmp;
pub use paths::natural_paths_cmp;
pub use plan::Method;
