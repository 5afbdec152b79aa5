//! The library's own checks: its laws on concrete values, its edge cases and
//! errors, and each call into an outside crate.

use std::path::PathBuf;

use md_docs::cli::default_command_args;
use md_docs::controller::{AppController, Choice};
use md_docs::domain::{
    xdg_config_home, xdg_data_home, Brand, BrandMetadata, Config, ConfigLoader, LocalSource,
    MdDocsError, RepoSource, Template, TemplateMetadata, TemplateSource,
};
use md_docs::fonts::is_font_file_extension;
use md_docs::logger::FileLogger;
use md_docs::modifiers::{ModifierDef, ModifierRegistry, ModifierType, OnIgnore};
use md_docs::output::{format_table, CliMessage, Destination, TableRow};
use md_docs::sorting::name_lt;
use md_docs::sources::{is_git_uri, repo_name_from_uri, title_case};
use md_docs::strmap::StrMap;
use md_docs::templates::{DirEntryInfo, Found, GitCommand, TemplateManager};
use md_docs::frontmatter::Metadata;
use md_docs::typst::{escape_typst, ContentSections};
use md_docs::updater::{
    check_for_update, find_asset, platform_asset_name, release_fields, self_update_plan, version_of_tag,
    ReleaseAsset, UpdateView,
};

fn repo(name: &str, url: &str) -> RepoSource {
    RepoSource { name: name.to_string(), url: url.to_string() }
}

fn controller(config: Config) -> AppController {
    AppController::new(config, false, FileLogger::with_path(PathBuf::from("/tmp/mdocs-test.log")))
}

fn template(id: &str, name: &str, default_brand: Option<&str>) -> Template {
    Template {
        id: id.to_string(),
        path: PathBuf::from(format!("/t/{}", id)),
        metadata: TemplateMetadata {
            name: name.to_string(),
            description: None,
            default_brand: default_brand.map(|b| b.to_string()),
            ignore: vec![],
            starter_file: None,
        },
        source: TemplateSource::Repo("default".to_string()),
    }
}

fn named(c: Choice) -> Option<String> {
    match c {
        Choice::Named(n) => Some(n),
        Choice::Prompt => None,
    }
}

// -------------------------------------------------------------------------
// Names and titles
// -------------------------------------------------------------------------

#[test]
fn title_case_of_directory_names() {
    assert_eq!(title_case("resume-2-col"), "Resume 2 Col");
    assert_eq!(title_case("my_brand_name"), "My Brand Name");
    assert_eq!(title_case("hELLO--wORLD"), "Hello World");
    assert_eq!(title_case(""), "");
    assert_eq!(title_case("élan-vital"), "Élan Vital");
}

#[test]
fn git_uris_are_recognised() {
    assert!(is_git_uri("https://github.com/user/repo.git"));
    assert!(is_git_uri("git@github.com:user/repo.git"));
    assert!(!is_git_uri("/home/user/templates"));
    assert!(!is_git_uri("templates"));
}

#[test]
fn repo_names_come_from_the_last_path_component() {
    assert_eq!(repo_name_from_uri("https://github.com/user/repo.git").unwrap(), "repo");
    assert_eq!(repo_name_from_uri("https://github.com/user/repo/").unwrap(), "repo");
    assert_eq!(repo_name_from_uri("https://github.com/user/repo.git.git//").unwrap(), "repo");
    assert_eq!(repo_name_from_uri("git@github.com:user/repo.git").unwrap(), "repo");
    assert_eq!(
        repo_name_from_uri("https://host/.git").unwrap_err(),
        "Could not derive repo name from URI: https://host/.git"
    );
}

#[test]
fn names_order_by_code_point() {
    assert!(name_lt("apple", "banana"));
    assert!(name_lt("a", "ab"));
    assert!(name_lt("B", "a"));
    assert!(!name_lt("same", "same"));
    assert!(!name_lt("b", "a"));
}

// -------------------------------------------------------------------------
// Configuration layers
// -------------------------------------------------------------------------

#[test]
fn project_configuration_wins_over_global() {
    let global = Config::new(Some("g".to_string()), None, None, Some("Global Author".to_string()), vec![repo("r", "u")], vec![]);
    let project = Config::new(Some("p".to_string()), Some("brand".to_string()), None, None, vec![], vec![]);
    let c = ConfigLoader::load(Some(global), Some(project));
    assert_eq!(c.default_template(), Some("p"));
    assert_eq!(c.default_brand(), Some("brand"));
    assert_eq!(c.author(), Some("Global Author"));
    assert_eq!(c.repos().len(), 1);
    assert_eq!(c.repos()[0].name, "r");
}

#[test]
fn a_single_layer_is_taken_as_it_is() {
    let global = Config::new(None, None, Some(PathBuf::from("/out")), None, vec![], vec![LocalSource { path: PathBuf::from("/l") }]);
    let c = ConfigLoader::load(Some(global), None);
    assert_eq!(c.output_dir(), Some(&PathBuf::from("/out")));
    assert_eq!(c.local().len(), 1);
}

#[test]
fn merging_an_empty_layer_keeps_the_base() {
    let base = Config::new(Some("keep-me".to_string()), None, None, Some("Keep Me Too".to_string()), vec![repo("a", "b")], vec![]);
    let merged = ConfigLoader::merge(base, Config::default());
    assert_eq!(merged.default_template(), Some("keep-me"));
    assert_eq!(merged.author(), Some("Keep Me Too"));
    assert_eq!(merged.repos()[0].name, "a");
}

#[test]
fn configuration_file_paths() {
    assert_eq!(
        ConfigLoader::global_config_path(&PathBuf::from("/home/u/.config")),
        PathBuf::from("/home/u/.config/mdocs/config.toml")
    );
    assert_eq!(ConfigLoader::project_config_path(&PathBuf::from("/work")), PathBuf::from("/work/.mdocs.toml"));
}

// -------------------------------------------------------------------------
// Choosing templates and brands
// -------------------------------------------------------------------------

#[test]
fn brand_priority_flag_then_config_then_template_then_prompt() {
    let t = template("resume", "Resume", Some("template-brand"));
    let with_default = controller(Config::new(None, Some("config-brand".to_string()), None, None, vec![], vec![]));
    let without = controller(Config::default());

    assert_eq!(named(with_default.brand_choice(Some("flag".to_string()), &t)), Some("flag".to_string()));
    assert_eq!(named(with_default.brand_choice(None, &t)), Some("config-brand".to_string()));
    assert_eq!(named(without.brand_choice(None, &t)), Some("template-brand".to_string()));
    assert_eq!(named(without.brand_choice(None, &template("x", "X", None))), None);
}

#[test]
fn template_priority_flag_then_config_then_prompt() {
    let with_default = controller(Config::new(Some("configured".to_string()), None, None, None, vec![], vec![]));
    assert_eq!(named(with_default.template_choice(Some("flag".to_string()))), Some("flag".to_string()));
    assert_eq!(named(with_default.template_choice(None)), Some("configured".to_string()));
    assert_eq!(named(controller(Config::default()).template_choice(None)), None);
}

// -------------------------------------------------------------------------
// Documents
// -------------------------------------------------------------------------

#[test]
fn configured_author_fills_in_a_missing_author() {
    let c = controller(Config::new(None, None, None, Some("Config Author".to_string()), vec![], vec![]));
    let doc = c.document_from("---\ntitle: T\n---\nBody\n").unwrap();
    assert_eq!(doc.metadata.author.as_deref(), Some("Config Author"));
    assert_eq!(doc.metadata.title.as_deref(), Some("T"));
    assert_eq!(doc.raw_body, "Body\n");

    let doc = c.document_from("---\nauthor: Written\n---\nBody\n").unwrap();
    assert_eq!(doc.metadata.author.as_deref(), Some("Written"));

    let doc = c.document_from("no frontmatter").unwrap();
    assert_eq!(doc.metadata.author.as_deref(), Some("Config Author"));
    assert_eq!(doc.raw_body, "no frontmatter");
}

#[test]
fn malformed_frontmatter_is_an_error() {
    let c = controller(Config::default());
    let err = c.document_from("---\ntitle: [unclosed\n---\nBody\n").err().unwrap();
    assert!(matches!(err, MdDocsError::InvalidFrontmatter(_)));
    assert!(err.message().starts_with("invalid frontmatter: "));
}

fn registry() -> ModifierRegistry {
    let mut r: ModifierRegistry = StrMap::new();
    r.insert(
        "columns_start".to_string(),
        ModifierDef {
            marker: "<!-- COLUMNS_START -->".to_string(),
            description: "Columns".to_string(),
            typst: "%%COLUMNS_START%%".to_string(),
            on_ignore: OnIgnore::Remove,
            modifier_type: ModifierType::Block,
        },
    );
    r.insert(
        "column_break".to_string(),
        ModifierDef {
            marker: "<!-- COLUMN_BREAK -->".to_string(),
            description: "Break".to_string(),
            typst: "%%COLUMN_BREAK%%".to_string(),
            on_ignore: OnIgnore::Remove,
            modifier_type: ModifierType::Block,
        },
    );
    r
}

#[test]
fn body_is_split_into_header_and_columns() {
    let c = controller(Config::default());
    let t = template("two-col", "Two", None);
    let md = "# Name\n\n<!-- COLUMNS_START -->\n\nLeft\n\n<!-- COLUMN_BREAK -->\n\nRight\n";
    let (typst, sections) = c.convert(&registry(), &t, md).unwrap();
    assert!(typst.contains("Left"));
    assert!(sections.header.contains("= Name"));
    assert!(!sections.body.contains("COLUMN"));
    assert_eq!(sections.body_columns.len(), 2);
    assert!(sections.body_columns[0].contains("Left"));
    assert!(sections.body_columns[1].contains("Right"));
}

#[test]
fn ignored_modifiers_are_removed_from_the_body() {
    let c = controller(Config::default());
    let mut t = template("ats", "ATS", None);
    t.metadata.ignore = vec!["columns_start".to_string(), "column_break".to_string()];
    let md = "# Name\n\n<!-- COLUMNS_START -->\n\nLeft\n\n<!-- COLUMN_BREAK -->\n\nRight\n";
    let (typst, sections) = c.convert(&registry(), &t, md).unwrap();
    assert!(typst.contains("Left"));
    assert!(sections.header.is_empty());
    assert_eq!(sections.body_columns.len(), 1);
    assert!(sections.body.contains("Left") && sections.body.contains("Right"));
}

// -------------------------------------------------------------------------
// Typst warnings
// -------------------------------------------------------------------------

#[test]
fn each_missing_font_is_reported_once() {
    let warnings = vec![
        "unknown font family: Inter".to_string(),
        "something else".to_string(),
        "unknown font family: Inter".to_string(),
        "unknown font family: Lato".to_string(),
    ];
    let msgs = AppController::font_warnings(&warnings);
    assert_eq!(msgs.len(), 3);
    let texts: Vec<String> = msgs.iter().map(|m| m.text().clone()).collect();
    assert!(texts[0].starts_with("font 'Inter' not found"));
    assert_eq!(texts[1], "typst: something else");
    assert!(texts[2].starts_with("font 'Lato' not found"));
    assert!(msgs.iter().all(|m| matches!(m, CliMessage::Warning(_))));
}

// -------------------------------------------------------------------------
// Sources, resolution and discovery
// -------------------------------------------------------------------------

fn two_source_manager() -> TemplateManager {
    TemplateManager::new(Config::new(
        None,
        None,
        None,
        None,
        vec![repo("default", "https://example.com/t.git")],
        vec![LocalSource { path: PathBuf::from("/mine") }],
    ))
}

#[test]
fn local_sources_are_searched_before_repositories() {
    let m = two_source_manager();
    let dirs = m.source_directories(&PathBuf::from("/data/md-docs/repos"));
    assert_eq!(dirs.len(), 2);
    assert_eq!(dirs[0].templates_dir, PathBuf::from("/mine/templates"));
    assert_eq!(dirs[0].brands_dir, PathBuf::from("/mine/brands"));
    assert_eq!(dirs[1].templates_dir, PathBuf::from("/data/md-docs/repos/default/templates"));
    assert!(matches!(&dirs[1].source, TemplateSource::Repo(n) if n == "default"));
}

#[test]
fn the_first_source_with_the_template_wins() {
    let m = two_source_manager();
    let base = PathBuf::from("/repos");
    let t = m.resolve_template("resume-ats", &base, vec![None, Some(None)]).unwrap();
    assert_eq!(t.id, "resume-ats");
    assert_eq!(t.path, PathBuf::from("/repos/default/templates/resume-ats"));
    assert_eq!(t.metadata.name, "Resume Ats");
    assert!(t.metadata.ignore.is_empty());

    let meta = TemplateMetadata {
        name: "Mine".to_string(),
        description: Some("d".to_string()),
        default_brand: None,
        ignore: vec![],
        starter_file: None,
    };
    let t = m.resolve_template("resume-ats", &base, vec![Some(Some(meta))]).unwrap();
    assert_eq!(t.metadata.name, "Mine");
    assert_eq!(t.path, PathBuf::from("/mine/templates/resume-ats"));
}

#[test]
fn a_template_no_source_has_is_not_found() {
    let m = two_source_manager();
    let err = m.resolve_template("nope", &PathBuf::from("/r"), vec![None, None]).err().unwrap();
    assert_eq!(err.message(), "template not found: nope");
    let err = m.resolve_brand("nope", &PathBuf::from("/r"), vec![]).err().unwrap();
    assert_eq!(err.message(), "brand not found: nope");
}

#[test]
fn brands_resolve_with_their_directory_title() {
    let m = two_source_manager();
    let b = m.resolve_brand("acme_corp", &PathBuf::from("/r"), vec![Some(None)]).unwrap();
    assert_eq!(b.metadata.name, "Acme Corp");
    assert_eq!(b.path, PathBuf::from("/mine/brands/acme_corp"));
}

fn entry(name: Option<&str>, is_dir: bool, has_marker: bool) -> DirEntryInfo {
    DirEntryInfo {
        source: TemplateSource::Local(PathBuf::from("/mine")),
        path: PathBuf::from(format!("/mine/templates/{}", name.unwrap_or("?"))),
        name: name.map(|n| n.to_string()),
        is_dir,
        has_marker,
    }
}

#[test]
fn discovery_keeps_each_id_once_and_skips_non_templates() {
    let entries = vec![
        entry(Some("b"), true, true),
        entry(Some(".hidden"), true, true),
        entry(Some("file"), false, true),
        entry(Some("nomarker"), true, false),
        entry(None, true, true),
        entry(Some("a"), true, true),
        entry(Some("b"), true, true),
    ];
    assert_eq!(TemplateManager::discovery_picks(&entries), vec![0, 5]);
}

#[test]
fn discovered_templates_are_sorted_by_name_stably() {
    let found = |id: &str, name: Option<&str>| Found {
        id: id.to_string(),
        path: PathBuf::from(format!("/t/{}", id)),
        source: TemplateSource::Repo("default".to_string()),
        metadata: name.map(|n| TemplateMetadata {
            name: n.to_string(),
            description: None,
            default_brand: None,
            ignore: vec![],
            starter_file: None,
        }),
    };
    let r = TemplateManager::discover_templates(vec![
        found("z", Some("Zeta")),
        found("first-b", Some("Beta")),
        found("alpha-dir", None),
        found("second-b", Some("Beta")),
    ]);
    let ids: Vec<&str> = r.iter().map(|t| t.id.as_str()).collect();
    assert_eq!(ids, vec!["alpha-dir", "first-b", "second-b", "z"]);
    assert_eq!(r[0].metadata.name, "Alpha Dir");
}

#[test]
fn discovered_brands_are_sorted_by_name() {
    let found = |id: &str, name: &str| Found {
        id: id.to_string(),
        path: PathBuf::from(format!("/b/{}", id)),
        source: TemplateSource::Local(PathBuf::from("/b")),
        metadata: Some(BrandMetadata { name: name.to_string(), description: None }),
    };
    let r = TemplateManager::discover_brands(vec![found("x", "Xylo"), found("g", "Generic")]);
    assert_eq!(r[0].id, "g");
    assert_eq!(r[1].id, "x");
}

#[test]
fn repositories_are_selected_by_name() {
    let m = TemplateManager::new(Config::new(None, None, None, None, vec![repo("a", "ua"), repo("b", "ub"), repo("a", "ua2")], vec![]));
    assert_eq!(m.select_repos(None).unwrap().len(), 3);
    let one = m.select_repos(Some("a")).unwrap();
    assert_eq!(one.len(), 1);
    assert_eq!(one[0].url, "ua");
    let err = m.select_repos(Some("c")).err().unwrap();
    assert_eq!(err.message(), "repository operation failed: repo 'c' not found in config");
}

#[test]
fn git_steps_and_their_failures() {
    let base = PathBuf::from("/data/md-docs/repos");
    let r = repo("default", "https://example.com/t.git");
    assert!(TemplateManager::install_step(&r, &base, true).is_none());
    match TemplateManager::install_step(&r, &base, false) {
        Some(GitCommand::Clone { url, dest }) => {
            assert_eq!(url, "https://example.com/t.git");
            assert_eq!(dest, PathBuf::from("/data/md-docs/repos/default"));
        },
        _ => panic!("a clone was expected"),
    }
    let err = TemplateManager::update_step(&r, &base, false).err().unwrap();
    assert_eq!(
        err.message(),
        "repository operation failed: repo 'default' not installed. Run 'md-docs templates install' first."
    );
    let pull = TemplateManager::update_step(&r, &base, true).unwrap();
    assert!(matches!(&pull, GitCommand::Pull { dir } if *dir == PathBuf::from("/data/md-docs/repos/default")));
    assert_eq!(
        TemplateManager::git_failure(&pull, "default", None).message(),
        "repository operation failed: git pull failed for repo 'default'"
    );
    assert_eq!(
        TemplateManager::git_failure(&pull, "default", Some("not found")).message(),
        "repository operation failed: failed to run git: not found"
    );
    assert_eq!(TemplateManager::repos_base_dir(&PathBuf::from("/data")), base);
}

// -------------------------------------------------------------------------
// Command output
// -------------------------------------------------------------------------

#[test]
fn listing_no_templates_warns() {
    let c = controller(Config::default());
    let msgs = c.list_templates(&[]);
    assert_eq!(msgs.len(), 1);
    assert!(matches!(&msgs[0], CliMessage::Warning(t) if t.starts_with("No templates found.")));
    let msgs = c.list_brands(&[]);
    assert!(matches!(&msgs[0], CliMessage::Warning(t) if t.starts_with("No brands found.")));
}

#[test]
fn listing_templates_shows_a_table() {
    let c = controller(Config::default());
    let ts = vec![template("resume-ats", "Resume (ATS)", None), template("x", "X", None)];
    let msgs = c.list_templates(&ts);
    assert_eq!(msgs.len(), 4);
    assert!(matches!(&msgs[0], CliMessage::Info(t) if t == "Available templates:"));
    assert!(msgs[1].text().contains("Name"));
    assert!(msgs[2].text().contains("Resume (ATS)"));
    assert!(msgs[2].text().contains("repo:default"));
    let brands = vec![Brand {
        id: "generic".to_string(),
        path: PathBuf::from("/b/generic"),
        metadata: BrandMetadata { name: "Generic".to_string(), description: Some("Clean".to_string()) },
        source: TemplateSource::Local(PathBuf::from("/b")),
    }];
    let msgs = c.list_brands(&brands);
    assert_eq!(msgs.len(), 3);
    assert!(msgs[2].text().contains("Clean"));
}

#[test]
fn showing_the_configuration() {
    let config = Config::new(
        Some("resume".to_string()),
        None,
        None,
        Some("Ann".to_string()),
        vec![repo("default", "https://example.com/t.git")],
        vec![LocalSource { path: PathBuf::from("/mine") }],
    );
    let msgs = controller(config).show_config(&[false]);
    assert_eq!(msgs.len(), 7);
    assert!(matches!(&msgs[0], CliMessage::Info(t) if t == "Current configuration:"));
    assert!(msgs[1].text().contains("Default template") && msgs[1].text().contains("resume"));
    assert!(msgs[2].text().contains("Author") && msgs[2].text().contains("Ann"));
    assert!(msgs[3].text().starts_with("\n  "));
    assert!(msgs[4].text().contains("not installed"));
    assert!(msgs[6].text().contains("/mine"));
}

#[test]
fn adding_sources() {
    let c = controller(Config::new(None, None, None, None, vec![repo("repo", "u")], vec![]));
    assert!(c.add_source("/some/dir").unwrap().is_none());
    assert_eq!(
        c.add_source("https://github.com/user/repo.git").err().unwrap(),
        "Repo 'repo' already exists in config."
    );
    let (entry, msg) = c.add_source("https://github.com/user/other.git").unwrap().unwrap();
    assert_eq!(entry, "\n[[repos]]\nname = \"other\"\nurl = \"https://github.com/user/other.git\"\n");
    assert_eq!(
        msg.text(),
        "Added repo 'other' (https://github.com/user/other.git). Run 'md-docs templates install other' to clone it."
    );
    assert_eq!(
        AppController::add_local_source("nowhere", None, false).err().unwrap(),
        "Directory 'nowhere' does not exist."
    );
    let dir = PathBuf::from("/abs/dir");
    assert_eq!(
        AppController::add_local_source("dir", Some(&dir), true).err().unwrap(),
        "Local source '/abs/dir' already exists in config."
    );
    let (entry, msg) = AppController::add_local_source("dir", Some(&dir), false).unwrap();
    assert_eq!(entry, "\n[[local]]\npath = \"/abs/dir\"\n");
    assert_eq!(msg.text(), "Added local source '/abs/dir'.");
}

#[test]
fn installing_and_updating_messages() {
    let none = controller(Config::default());
    assert_eq!(
        none.install_templates(None).err().unwrap(),
        "No repos configured. Add [[repos]] to your config."
    );
    let some = controller(Config::new(None, None, None, None, vec![repo("a", "u")], vec![]));
    let (before, after) = some.install_templates(Some("a".to_string())).unwrap();
    assert_eq!(before.text(), "Installing repo 'a'...");
    assert_eq!(after.text(), "Repos installed successfully.");
    let (before, after) = some.update_templates(None);
    assert_eq!(before.text(), "Updating all configured repos...");
    assert_eq!(after.text(), "Repos updated successfully.");
}

#[test]
fn the_initial_configuration_names_the_default_repository() {
    let text = AppController::default_config_text();
    assert!(text.starts_with("# md-docs global configuration\n\n# default_template = \"resume-2-col\""));
    assert!(text.ends_with(
        "[[repos]]\nname = \"default\"\nurl = \"https://github.com/hendemic/md-docs-templates.git\"\n"
    ));
}

#[test]
fn starter_files() {
    let mut t = template("letter", "Letter", None);
    assert_eq!(
        AppController::starter_plan(&t, "letter", None).err().unwrap(),
        "Template 'letter' does not include a starter file."
    );
    t.metadata.starter_file = Some("starter.md".to_string());
    assert_eq!(
        AppController::starter_plan(&t, "letter", Some("mine.md")).unwrap(),
        ("starter.md".to_string(), "mine.md".to_string())
    );
    assert_eq!(
        AppController::starter_plan(&t, "letter", None).unwrap().1,
        "starter.md"
    );
}

#[test]
fn uninstalling() {
    assert!(AppController::is_uninstall_confirmed("  confirm\n"));
    assert!(!AppController::is_uninstall_confirmed("yes"));
    let items = AppController::uninstall_items(
        PathBuf::from("/c"),
        false,
        PathBuf::from("/d"),
        true,
        PathBuf::from("/bin/mdocs"),
    );
    assert_eq!(items, vec![PathBuf::from("/d"), PathBuf::from("/bin/mdocs")]);
}

#[test]
fn messages_are_logged_and_shown_by_level() {
    let quiet = controller(Config::default());
    let (level, dest) = quiet.emit(&CliMessage::Log("x".to_string()));
    assert_eq!(level, "DEBUG");
    assert_eq!(dest, Destination::Hidden);
    let (level, dest) = quiet.emit(&CliMessage::Warning("x".to_string()));
    assert_eq!(level, "WARN");
    assert_eq!(dest, Destination::Stderr);
    assert_eq!(quiet.emit(&CliMessage::Plain("x".to_string())).0, "INFO");
}

// -------------------------------------------------------------------------
// Log file
// -------------------------------------------------------------------------

#[test]
fn log_lines_and_rotation() {
    let logger = FileLogger::new(&PathBuf::from("/data"));
    assert_eq!(logger.path(), &PathBuf::from("/data/mdocs/mdocs.log"));
    assert_eq!(logger.log(1700000000, "INFO", "hi"), "[1700000000] [INFO] hi\n");
    assert_eq!(logger.log(0, "DEBUG", ""), "[0] [DEBUG] \n");
    assert!(FileLogger::rotation_renames("/l/app.log", 1048575).is_empty());
    let renames = FileLogger::rotation_renames("/l/app.log", 1048576);
    assert_eq!(
        renames,
        vec![
            ("/l/app.log.2".to_string(), "/l/app.log.3".to_string()),
            ("/l/app.log.1".to_string(), "/l/app.log.2".to_string()),
            ("/l/app.log".to_string(), "/l/app.log.1".to_string()),
        ]
    );
}

// -------------------------------------------------------------------------
// Self-update, command line, fonts, maps
// -------------------------------------------------------------------------

#[test]
fn release_asset_names_per_platform() {
    assert_eq!(
        platform_asset_name("v1.2.3", "linux", "x86_64").unwrap(),
        "md-docs-v1.2.3-linux-x86_64.tar.gz"
    );
    assert_eq!(
        platform_asset_name("0.2.0", "linux", "aarch64").unwrap(),
        "md-docs-v0.2.0-linux-aarch64.tar.gz"
    );
    assert_eq!(
        platform_asset_name("v0.2.0", "macos", "aarch64").unwrap(),
        "md-docs-v0.2.0-macos-universal.tar.gz"
    );
    assert_eq!(
        platform_asset_name("v0.2.0", "linux", "riscv64").unwrap_err(),
        "Unsupported architecture for self-update"
    );
    assert_eq!(
        platform_asset_name("v0.2.0", "windows", "x86_64").unwrap_err(),
        "Self-update is not supported on this platform"
    );
}

#[test]
fn assets_are_found_by_name() {
    let assets = vec![
        ReleaseAsset { name: "a.tar.gz".to_string(), download_url: "u1".to_string() },
        ReleaseAsset { name: "b.tar.gz".to_string(), download_url: "u2".to_string() },
    ];
    assert_eq!(find_asset(&assets, "b.tar.gz"), Some(1));
    assert_eq!(find_asset(&assets, "c.tar.gz"), None);
}

#[test]
fn a_markdown_file_first_means_convert() {
    let args = |v: &[&str]| v.iter().map(|s| s.to_string()).collect::<Vec<String>>();
    assert_eq!(default_command_args(args(&["mdocs", "notes.md"])), args(&["mdocs", "convert", "notes.md"]));
    assert_eq!(default_command_args(args(&["mdocs", "config"])), args(&["mdocs", "config"]));
    assert_eq!(default_command_args(args(&["mdocs"])), args(&["mdocs"]));
}

#[test]
fn font_files_by_extension() {
    assert!(is_font_file_extension("ttf"));
    assert!(is_font_file_extension("OTF"));
    assert!(is_font_file_extension("Woff2"));
    assert!(!is_font_file_extension("woff"));
    assert!(!is_font_file_extension("txt"));
}

#[test]
fn a_map_reads_back_what_was_written_last() {
    let mut m: StrMap<u32> = StrMap::new();
    m.insert("k".to_string(), 1);
    m.insert("j".to_string(), 2);
    m.insert("k".to_string(), 3);
    assert_eq!(m.len(), 2);
    assert_eq!(m.get("k"), Some(&3));
    assert_eq!(m.get("j"), Some(&2));
    assert_eq!(m.get("x"), None);
}

#[test]
fn missing_input_error_shows_the_path() {
    let err = MdDocsError::InputNotFound(PathBuf::from("/no/such/file.md"));
    assert_eq!(err.message(), "input file not found: /no/such/file.md");
}

#[test]
fn release_documents_are_read() {
    let body = r#"{"tag_name": "v0.3.1", "assets": [
        {"name": "md-docs-v0.3.1-linux-x86_64.tar.gz", "browser_download_url": "https://x/1"},
        {"name": "checksums.txt"},
        {"name": "md-docs-v0.3.1-macos-universal.tar.gz", "browser_download_url": "https://x/2"}
    ]}"#;
    let (tag, assets) = release_fields(body).unwrap();
    assert_eq!(tag, "v0.3.1");
    assert_eq!(version_of_tag(&tag), "0.3.1");
    let assets = assets.unwrap();
    assert_eq!(assets.len(), 2);
    assert_eq!(assets[1].download_url, "https://x/2");

    let (_, none) = release_fields(r#"{"tag_name": "0.1.0"}"#).unwrap();
    assert!(none.is_none());
    assert_eq!(release_fields(r#"{"assets": []}"#).unwrap_err(), "GitHub release missing 'tag_name'");
    assert!(release_fields("not json").unwrap_err().starts_with("Failed to parse GitHub API response as JSON: "));
}

#[test]
fn xdg_directories() {
    assert_eq!(xdg_config_home(Some("/cfg"), Some("/home/u")), PathBuf::from("/cfg"));
    assert_eq!(xdg_config_home(Some(""), Some("/home/u")), PathBuf::from("/home/u/.config"));
    assert_eq!(xdg_data_home(None, Some("/home/u")), PathBuf::from("/home/u/.local/share"));
    assert_eq!(xdg_data_home(None, None), PathBuf::from(".local/share"));
}

#[test]
fn escaping_joined_text_is_joining_escaped_text() {
    let a = "Price: $5 *net*";
    let b = " / #tag_1 - done";
    let joined = format!("{}{}", a, b);
    assert_eq!(escape_typst(&joined), format!("{}{}", escape_typst(a), escape_typst(b)));
    assert_eq!(escape_typst("a*b"), "a\\*b");
}

#[test]
fn repo_name_of_scp_style_uri_is_the_part_after_the_colon() {
    assert_eq!(repo_name_from_uri("git@github.com:repo.git"), Ok("repo".to_string()));
    assert_eq!(repo_name_from_uri("git@github.com:owner/templates.git"), Ok("templates".to_string()));
}

#[test]
fn newer_release_is_available() {
    match check_for_update(false, "0.1.0", "0.2.0") {
        Some(UpdateView::Available { current, latest }) => {
            assert_eq!(current, "0.1.0");
            assert_eq!(latest, "0.2.0");
        }
        other => panic!("unexpected {:?}", other),
    }
}

#[test]
fn same_or_older_release_is_up_to_date() {
    assert!(matches!(check_for_update(false, "0.2.0", "0.2.0"), Some(UpdateView::UpToDate(v)) if v == "0.2.0"));
    assert!(matches!(check_for_update(false, "0.3.0", "0.2.0"), Some(UpdateView::UpToDate(v)) if v == "0.3.0"));
    assert!(matches!(check_for_update(false, "1.0.0-beta", "1.0.0"), Some(UpdateView::Available { .. })));
}

#[test]
fn version_that_is_not_semantic_gives_no_check() {
    assert!(check_for_update(false, "0.1.0", "latest").is_none());
    assert!(check_for_update(false, "x", "0.1.0").is_none());
}

#[test]
fn aur_install_is_left_to_the_package_manager() {
    assert!(matches!(check_for_update(true, "0.1.0", "0.2.0"), Some(UpdateView::AurInstall)));
    let (msgs, perform) = self_update_plan(UpdateView::AurInstall, false);
    assert!(!perform);
    assert_eq!(msgs.len(), 2);
    assert!(matches!(&msgs[0], CliMessage::Info(t) if t == "md-docs was installed via your system package manager."));
    assert!(matches!(&msgs[1], CliMessage::Info(t) if t == "Update using your AUR helper (e.g., yay -Syu md-docs)."));
}

#[test]
fn update_plan_installs_only_when_available_and_not_check_only() {
    let available = || UpdateView::Available { current: "0.1.0".to_string(), latest: "0.2.0".to_string() };
    let (msgs, perform) = self_update_plan(available(), false);
    assert!(perform);
    assert_eq!(msgs.len(), 1);
    assert!(matches!(&msgs[0], CliMessage::Info(t) if t == "Update available: v0.1.0 -> v0.2.0"));
    let (msgs, perform) = self_update_plan(available(), true);
    assert!(!perform);
    assert_eq!(msgs.len(), 1);
    let (msgs, perform) = self_update_plan(UpdateView::UpToDate("0.2.0".to_string()), false);
    assert!(!perform);
    assert!(matches!(&msgs[0], CliMessage::Success(t) if t == "md-docs v0.2.0 is already up to date."));
}

#[test]
fn column_count_is_break_markers_plus_one() {
    let c = ContentSections::from_typst_content("a%%COLUMN_BREAK%%b%%COLUMN_BREAK%%c", "%%COLUMNS_START%%");
    assert_eq!(c.body_columns, vec!["a", "b", "c"]);
    let c = ContentSections::from_typst_content("plain", "%%COLUMNS_START%%");
    assert_eq!(c.body_columns, vec!["plain"]);
    let c = ContentSections::from_typst_content("%%COLUMN_BREAK%%", "%%COLUMNS_START%%");
    assert_eq!(c.body_columns, vec!["", ""]);
}

#[test]
fn extra_frontmatter_values_are_kept() {
    let content = "---\ntitle: T\nemail: a@b.c\nyear: 2026\n---\nBody\n";
    let (m, body) = Metadata::parse_from_content(content).unwrap();
    assert_eq!(body, "Body\n");
    assert_eq!(m.extra.len(), 2);
    assert_eq!(m.extra.get("email"), Some(&serde_yml::Value::String("a@b.c".to_string())));
    assert_eq!(m.extra.get("year"), Some(&serde_yml::Value::Number(2026.into())));
}

fn strip_escapes(s: &str) -> String {
    let mut out = String::new();
    let mut inside = false;
    for c in s.chars() {
        if inside {
            inside = c != 'm';
        } else if c == '\x1B' {
            inside = true;
        } else {
            out.push(c);
        }
    }
    out
}

#[test]
fn table_reads_as_padded_plain_columns() {
    let rows = vec![
        TableRow { id: "resume", name: "Resume", description: Some("A CV"), source: "local".to_string() },
        TableRow { id: "letter-long", name: "Letter", description: None, source: "repo".to_string() },
    ];
    let lines = format_table(&rows);
    assert_eq!(lines.len(), 3);
    let plain: Vec<String> = lines.iter().map(|l| strip_escapes(l)).collect();
    assert_eq!(plain[0], "  Name     ID            Description   Source");
    assert_eq!(plain[1], "  Resume   resume        A CV          local");
    assert_eq!(plain[2], "  Letter   letter-long                 repo");
}
