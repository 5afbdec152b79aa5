//! The command line: its commands, and the shorthand that converts a
//! markdown file given as the first argument.

use std::path::PathBuf;
use vstd::prelude::*;
use crate::text::{chars_of, ends_with, ends_with_chars};

verus! {

/// The parsed command line.
#[derive(Debug)]
pub struct Cli {
    pub command: Commands,
    /// Show log messages too.
    pub verbose: bool,
}

/// The commands.
#[derive(Debug)]
pub enum Commands {
    /// Convert a markdown file to PDF.
    Convert {
        file: PathBuf,
        template: Option<String>,
        brand: Option<String>,
        output: Option<PathBuf>,
    },
    /// Manage templates.
    Templates { action: TemplateCommands },
    /// Manage brands.
    Brands { action: BrandCommands },
    /// Check for an update, and install it unless `check` is set.
    Update { check: bool },
    /// Show the configuration.
    Config,
    /// Create the global configuration and install the default templates.
    Init,
    /// Create a document from a template's starter file.
    New { template: String, output_dir: Option<PathBuf>, name: Option<String> },
    /// Remove the program, its configuration and its data.
    Uninstall,
}

/// Template subcommands.
#[derive(Debug)]
pub enum TemplateCommands {
    List,
    Install { name: Option<String> },
    Update { name: Option<String> },
    Add { source: String },
}

/// Brand subcommands.
#[derive(Debug)]
pub enum BrandCommands {
    List,
}

/// The arguments to parse: when the first one after the program name ends
/// in `.md`, `convert` is put before it.
pub open spec fn with_default_command(args: Seq<Seq<char>>) -> Seq<Seq<char>> {
    if args.len() >= 2 && ends_with(args[1], ".md"@) {
        args.insert(1, "convert"@)
    } else {
        args
    }
}

/// The arguments with `convert` put before a markdown file given first, so
/// that `mdocs notes.md` converts `notes.md`.
pub fn default_command_args(args: Vec<String>) -> (r: Vec<String>)
    ensures
        crate::text::string_views(r@) == with_default_command(crate::text::string_views(args@)),
{
    let mut args = args;
    let ghost before = crate::text::string_views(args@);
    if args.len() >= 2 {
        let first = chars_of(args[1].as_str());
        let md = chars_of(".md");
        if ends_with_chars(first.as_slice(), md.as_slice()) {
            args.insert(1, String::from_str("convert"));
            assert(crate::text::string_views(args@) =~= before.insert(1, "convert"@));
            return args;
        }
    }
    args
}

} // verus!
