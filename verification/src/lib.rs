//! Resolves raw addresses of a loaded binary to symbol names, and to source
//! files and lines where the binary carries debug data.

pub mod address;
pub mod arch;
pub mod batch;
pub mod debug_data;
pub mod demangle;
pub mod dwarf;
pub mod error;
pub mod image;
pub mod object_data;
pub mod select;
pub mod symbolize;
pub mod symbols;
pub mod text;
pub mod uuid;

pub use address::{parse_address_string, to_search_address, AddressMode};
pub use batch::{resolve_batch, Options};
pub use demangle::demangle_symbol;
pub use error::Error;
pub use image::{init_file_obj, is_object_dwarf, MappedObjectFile};
pub use select::SelectionFilter;
pub use symbolize::print_addresses;
