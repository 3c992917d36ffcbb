//! Host-side logic of a single-shot GPU buffer-fill demo: packing the fill
//! color, describing the byte pattern the fill must leave in memory, sizing
//! the buffer, checking the read-back bytes, decoding the driver's C strings,
//! and labelling debug messages.

mod color;
mod debug_label;
mod fill;
mod vkstr;

pub use color::pack_rgba;
pub use color::packed_rgba;
pub use color::lemma_filled_pixels_show_channels;
pub use color::lemma_packed_bytes;
pub use color::random_fill_color;
pub use fill::buffer_byte_len;
pub use fill::fill_pattern;
pub use fill::is_filled_with;
pub use fill::pixel_at;
pub use fill::le_bytes_of;
pub use fill::pixel_count_of;
pub use fill::readback_matches;
pub use debug_label::message_type_label;
pub use debug_label::message_type_label_spec;
pub use debug_label::severity_label;
pub use debug_label::severity_label_spec;
pub use vkstr::byte_view;
pub use vkstr::decoded_c_string;
pub use vkstr::has_nul;
pub use vkstr::has_validation_layer;
pub use vkstr::is_validation_layer_name;
pub use vkstr::nul_prefix;
pub use vkstr::vk_to_string;
