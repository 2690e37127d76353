//! Flattens an arbitrarily nested JSON value into a single flat JSON object
//! whose keys spell out the original path through the structure, joined by a
//! configurable separator.

mod digits;
mod flattener;
mod laws;
mod model;
mod value;

pub use laws::flat_value;
pub use laws::flat_values;
pub use laws::lemma_collision_order;
pub use laws::lemma_elems_flat;
pub use laws::lemma_fields_flat;
pub use laws::lemma_flatten_flat;
pub use laws::lemma_write_leaf_flat;
pub use laws::lemma_elems_unique;
pub use laws::lemma_fields_unique;
pub use laws::lemma_flatten_unique_keys;
pub use laws::lemma_nested_key;
pub use laws::lemma_preserve_arrays_no_merge;
pub use laws::lemma_scalar_elems_collapse;
pub use laws::lemma_scalar_root;
pub use laws::lemma_write_leaf_unique;
pub use laws::preserve_entry;

pub use flattener::Flattener;

pub use model::Config;
pub use model::FlatV;
pub use model::child_key;
pub use model::elem_key;
pub use model::find_key;
pub use model::flatten_elems;
pub use model::flatten_fields;
pub use model::flatten_spec;
pub use model::unique_keys;
pub use model::write_leaf;

pub use digits::dec_digit;
pub use digits::dec_str;

pub use value::Json;
pub use value::JsonV;
pub use value::elems_view;
pub use value::fields_view;
pub use value::json_view;
