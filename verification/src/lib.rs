//! Safe operations behind a C-compatible boundary.
//!
//! A caller on the other side of the boundary hands over borrowed text,
//! borrowed numeric buffers, a fixed-layout pair of integers, or a handle to a
//! keyed counter store. Once pointers have been turned into ordinary borrowed
//! values, every operation is one of the functions of this crate, and each of
//! them carries a contract that states its result.

pub mod numbers;
pub mod pair;
pub mod text;
pub mod zip_codes;

pub use numbers::{increment_array, sum_of_even};
pub use pair::{flip_things_around, flip_things_around_rust, Tuple};
pub use text::{
    contains_hotdog, count_to_u32, how_many_bytes, how_many_characters, return_hello_world,
};
pub use zip_codes::ZipCodeDatabase;
