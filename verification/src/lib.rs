//! Verified generator for a Lisp-style listing of Unicode block constants.
//!
//! The library parses the data lines of a `Blocks.txt`-shaped document into
//! named code-point ranges and renders one constant definition per block,
//! followed by an aggregate list of all generated identifiers.

mod block;
mod emit;
mod hex;
mod parser;
mod text;

pub use block::elisp_of;
pub use block::lemma_symbol_pure;
pub use block::symbol_of;
pub use block::BlockData;
pub use block::UnicodeBlock;
pub use emit::aggregate_elisp;
pub use emit::aggregate_items;
pub use emit::aggregate_of;
pub use emit::lemma_order_preserved;
pub use emit::render;
pub use emit::render_with_footer;
pub use emit::rendered;
pub use emit::statements_of;
pub use emit::symbols_of;
pub use hex::hex_digit;
pub use hex::hex_of;
pub use hex::hex_val;
pub use hex::is_hex_digit;
pub use hex::lemma_hex_round_trip;
pub use hex::parse_hex;
pub use hex::render_hex;
pub use parser::hex_run_end;
pub use parser::is_upper_hex;
pub use parser::line_end_val;
pub use parser::line_name;
pub use parser::line_record;
pub use parser::line_shape;
pub use parser::line_start_val;
pub use parser::lines_of;
pub use parser::parse_document;
pub use parser::parse_line;
pub use parser::records_of;
pub use parser::records_of_lines;
pub use parser::split_lines;
pub use parser::strip_cr;
pub use text::dashed;
pub use text::lemma_dashed_no_space;
pub use text::lower_of;
