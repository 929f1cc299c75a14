//! Photo reports: pages, captions, reordering and print-ready HTML.
pub mod codec;
pub mod compress;
pub mod document;
pub mod double;
pub mod drag;
pub mod escape;
pub mod export;
pub mod fidelity;
pub mod filename;
pub mod hit;
pub mod import;
pub mod layout;
pub mod number;
pub mod pages;
pub mod photo;
pub mod print;
pub mod reorder;
pub mod report;
pub mod scroll;
pub mod sections;
pub mod settings;
pub mod sheet;
pub mod template;
pub mod text;
pub mod toolbar;
pub mod unicode;
