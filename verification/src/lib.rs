//! Markdown-to-Typst document conversion: the verified core of the `mdocs` tool.

pub mod cli;
pub mod controller;
pub mod converter;
pub mod domain;
pub mod fonts;
pub mod frontmatter;
pub mod logger;
pub mod modifiers;
pub mod output;
pub mod sorting;
pub mod sources;
pub mod strmap;
pub mod templates;
pub mod text;
pub mod typst;
pub mod updater;
