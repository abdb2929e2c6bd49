//! Hierarchical deterministic wallet paths such as `m/44'/0'/0'/0/0`: a typed
//! model of their segments, the text grammar, the fixed-width binary form and
//! the fixed shapes (account, short, standard) layered on the generic path.

pub mod ascii;
pub mod codec;
pub mod decimal;
pub mod derivation;
pub mod errors;
pub mod path_account;
pub mod path_custom;
pub mod path_short;
pub mod path_standard;
pub mod path_value;
pub mod purpose;
pub mod shape;
pub mod text;
pub mod traits;

pub use errors::Error;
pub use path_account::AccountHDPath;
pub use path_custom::CustomHDPath;
pub use path_short::ShortHDPath;
pub use path_standard::StandardHDPath;
pub use path_value::{PathValue, FIRST_BIT, MAX_SEGMENTS};
pub use purpose::Purpose;
pub use traits::HDPath;
