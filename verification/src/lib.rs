//! In-memory directory-tree model with deterministic renderers.
//!
//! The crate builds nothing from the filesystem itself: a caller hands it a
//! [`Node`] tree and gets back an indented plain-text outline
//! ([`collection_toc`]), a markdown bullet list ([`to_markdown`]), or the
//! chain of directories leading to a target path ([`dir_till_path`]).

pub mod markdown;
pub mod paths;
pub mod resolve;
pub mod toc;
pub mod tree;

pub use markdown::to_markdown;
pub use resolve::dir_till_path;
pub use toc::collection_toc;

pub use tree::Node;
