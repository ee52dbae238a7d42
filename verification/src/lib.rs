//! An index of files that maps virtual paths to disk paths, and the source text
//! of a module that embeds each indexed file as a constant.

pub mod emit;
pub mod index;
pub mod path;
pub mod pretty;

pub use emit::ContentKind;
pub use index::FileSystem;
pub use index::IndexNode;
pub use index::RegisterError;
pub use pretty::EmitError;
