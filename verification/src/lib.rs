//! Verified core of Interstellar Writer: frontmatter and body handling for
//! Astro/MDX content files.

pub mod text;
pub mod paths;
pub mod strset;
pub mod yaml;
pub mod yaml_ops;
pub mod yaml_io;
pub mod content;
pub mod models;
pub mod frontmatter;
pub mod clock;
pub mod files;
pub mod asset_refs;
pub mod editor;
pub mod preview;
pub mod highlight;
pub mod sync;
pub mod metadata;
pub mod dashboard;
pub mod theme;
