//! The data model: errors, template sources, templates, brands and configuration.

use std::path::PathBuf;
use vstd::prelude::*;
use crate::text::opt_view;

verus! {

#[verifier::external_type_specification]
#[verifier::external_body]
pub struct ExPathBuf(PathBuf);

/// `PathBuf::clone` gives back an equal path.
pub assume_specification[ <PathBuf as Clone>::clone ](p: &PathBuf) -> (r: PathBuf)
    ensures
        r == *p,
;

/// How `Path::display` renders a path.
pub uninterp spec fn path_text(p: PathBuf) -> Seq<char>;

/// Renders a path for people (`Path::display`, lossy on non-UTF-8 names).
#[verifier::external_body]
pub(crate) fn path_display(p: &PathBuf) -> (s: String)
    ensures
        s@ == path_text(*p),
{
    p.display().to_string()
}

/// The path `base` with `part` joined on (`Path::join`).
pub uninterp spec fn joined_path(base: PathBuf, part: Seq<char>) -> PathBuf;

/// The last component of a path, if it has one (`Path::file_name`, lossy).
pub uninterp spec fn file_name_of(p: PathBuf) -> Option<Seq<char>>;

/// The last component of a path without its extension (`Path::file_stem`,
/// lossy).
pub uninterp spec fn file_stem_of(p: PathBuf) -> Option<Seq<char>>;

/// A path with its extension set to `ext` (`Path::with_extension`).
pub uninterp spec fn with_extension_of(p: PathBuf, ext: Seq<char>) -> PathBuf;

/// The path made of the text `s` (`PathBuf::from`).
pub uninterp spec fn path_of(s: Seq<char>) -> PathBuf;

/// The path made of `s` (`PathBuf::from`, which takes the text as it is).
#[verifier::external_body]
pub(crate) fn path_from(s: &str) -> (p: PathBuf)
    ensures
        p == path_of(s@),
{
    PathBuf::from(s)
}

/// `base` with `part` joined on (`Path::join`: `part` added as a further
/// component, or taking the place of `base` when it is absolute). The result
/// depends on the two arguments alone.
#[verifier::external_body]
pub(crate) fn path_join(base: &PathBuf, part: &str) -> (r: PathBuf)
    ensures
        r == joined_path(*base, part@),
{
    base.join(part)
}

/// The last component of `p` (`Path::file_name`), converted lossily to text.
#[verifier::external_body]
pub(crate) fn path_file_name(p: &PathBuf) -> (r: Option<String>)
    ensures
        opt_view(r) == file_name_of(*p),
{
    match p.file_name() {
        Some(n) => Some(n.to_string_lossy().into_owned()),
        None => None,
    }
}

/// The last component of `p` without its extension (`Path::file_stem`),
/// converted lossily to text.
#[verifier::external_body]
pub(crate) fn path_file_stem(p: &PathBuf) -> (r: Option<String>)
    ensures
        opt_view(r) == file_stem_of(*p),
{
    match p.file_stem() {
        Some(n) => Some(n.to_string_lossy().into_owned()),
        None => None,
    }
}

/// No character of `s` separates path components (`std::path::is_separator`:
/// `/`, and also `\\` on Windows).
pub open spec fn has_no_separator(s: Seq<char>) -> bool {
    forall|i: int| 0 <= i < s.len() ==> s[i] != '/' && s[i] != '\\'
}

/// `p` with its extension set to `ext` (`Path::with_extension`), which
/// panics on an extension holding a path separator: that input is left out.
#[verifier::external_body]
pub(crate) fn path_with_extension(p: &PathBuf, ext: &str) -> (r: PathBuf)
    requires
        has_no_separator(ext@),
    ensures
        r == with_extension_of(*p, ext@),
{
    p.with_extension(ext)
}

// ---------------------------------------------------------------------------
// Errors
// ---------------------------------------------------------------------------

/// Errors of the document pipeline.
#[derive(Debug)]
pub enum MdDocsError {
    TemplateNotFound(String),
    BrandNotFound(String),
    InputNotFound(PathBuf),
    InvalidFrontmatter(String),
    InvalidModifier(String),
    CompilationFailed(String),
    InvalidConfig(String),
    RepoOperationFailed(String),
    UserManagedTemplate(String),
}

/// The message of an error.
pub open spec fn error_message(e: MdDocsError) -> Seq<char> {
    match e {
        MdDocsError::TemplateNotFound(s) => "template not found: "@ + s@,
        MdDocsError::BrandNotFound(s) => "brand not found: "@ + s@,
        MdDocsError::InputNotFound(p) => "input file not found: "@ + path_text(p),
        MdDocsError::InvalidFrontmatter(s) => "invalid frontmatter: "@ + s@,
        MdDocsError::InvalidModifier(s) => "invalid modifier definition: "@ + s@,
        MdDocsError::CompilationFailed(s) => "typst compilation failed: "@ + s@,
        MdDocsError::InvalidConfig(s) => "invalid configuration: "@ + s@,
        MdDocsError::RepoOperationFailed(s) => "repository operation failed: "@ + s@,
        MdDocsError::UserManagedTemplate(s) => "cannot remove user-managed template: "@ + s@,
    }
}

/// `prefix` followed by `s`.
fn prefixed(prefix: &str, s: &str) -> (r: String)
    ensures
        r@ == prefix@ + s@,
{
    let mut r = String::from_str(prefix);
    r.append(s);
    r
}

impl MdDocsError {
    /// The error's message, e.g. `template not found: resume`.
    pub fn message(&self) -> (m: String)
        ensures
            m@ == error_message(*self),
    {
        match self {
            MdDocsError::TemplateNotFound(s) => prefixed("template not found: ", s.as_str()),
            MdDocsError::BrandNotFound(s) => prefixed("brand not found: ", s.as_str()),
            MdDocsError::InputNotFound(p) => {
                let shown = path_display(p);
                prefixed("input file not found: ", shown.as_str())
            },
            MdDocsError::InvalidFrontmatter(s) => prefixed("invalid frontmatter: ", s.as_str()),
            MdDocsError::InvalidModifier(s) => prefixed("invalid modifier definition: ", s.as_str()),
            MdDocsError::CompilationFailed(s) => prefixed("typst compilation failed: ", s.as_str()),
            MdDocsError::InvalidConfig(s) => prefixed("invalid configuration: ", s.as_str()),
            MdDocsError::RepoOperationFailed(s) => prefixed("repository operation failed: ", s.as_str()),
            MdDocsError::UserManagedTemplate(s) => prefixed("cannot remove user-managed template: ", s.as_str()),
        }
    }
}

// ---------------------------------------------------------------------------
// Template sources
// ---------------------------------------------------------------------------

/// URL of the default template repository.
pub const DEFAULT_REPO_URL: &'static str = "https://github.com/hendemic/md-docs-templates.git";

/// Name of the default template repository.
pub const DEFAULT_REPO_NAME: &'static str = "default";

/// A named git repository of templates and brands.
#[derive(Clone, Debug)]
pub struct RepoSource {
    pub name: String,
    pub url: String,
}

/// A local directory of templates and brands.
#[derive(Clone, Debug)]
pub struct LocalSource {
    pub path: PathBuf,
}

/// Where a template or brand was found.
#[derive(Clone, Debug)]
pub enum TemplateSource {
    Repo(String),
    Local(PathBuf),
}

/// How a source is shown: `repo:<name>` or `local:<path>`.
pub open spec fn source_text(s: TemplateSource) -> Seq<char> {
    match s {
        TemplateSource::Repo(name) => "repo:"@ + name@,
        TemplateSource::Local(p) => "local:"@ + path_text(p),
    }
}

impl TemplateSource {
    /// The source as shown to people: `repo:<name>` or `local:<path>`.
    pub fn display_text(&self) -> (s: String)
        ensures
            s@ == source_text(*self),
    {
        match self {
            TemplateSource::Repo(name) => prefixed("repo:", name.as_str()),
            TemplateSource::Local(p) => {
                let shown = path_display(p);
                prefixed("local:", shown.as_str())
            },
        }
    }
}

// ---------------------------------------------------------------------------
// Templates and brands
// ---------------------------------------------------------------------------

/// Template metadata (`metadata.toml` of a template).
#[derive(Clone, Debug)]
pub struct TemplateMetadata {
    pub name: String,
    pub description: Option<String>,
    pub default_brand: Option<String>,
    /// Ids of the modifiers the template does not support.
    pub ignore: Vec<String>,
    pub starter_file: Option<String>,
}

/// A discovered template.
#[derive(Clone, Debug)]
pub struct Template {
    pub id: String,
    pub path: PathBuf,
    pub metadata: TemplateMetadata,
    pub source: TemplateSource,
}

/// Brand metadata (`metadata.toml` of a brand).
#[derive(Clone, Debug)]
pub struct BrandMetadata {
    pub name: String,
    pub description: Option<String>,
}

/// A discovered brand.
#[derive(Clone, Debug)]
pub struct Brand {
    pub id: String,
    pub path: PathBuf,
    pub metadata: BrandMetadata,
    pub source: TemplateSource,
}

/// How a template or brand is listed: `<name> (<id>)`, then ` -- <description>`
/// when there is one.
pub open spec fn listing_text(name: Seq<char>, id: Seq<char>, description: Option<Seq<char>>) -> Seq<char> {
    match description {
        Some(d) => name + " ("@ + id + ") -- "@ + d,
        None => name + " ("@ + id + ")"@,
    }
}

fn listing(name: &str, id: &str, description: &Option<String>) -> (s: String)
    ensures
        s@ == listing_text(name@, id@, opt_view(*description)),
{
    let mut s = String::from_str(name);
    s.append(" (");
    s.append(id);
    match description {
        Some(d) => {
            s.append(") -- ");
            s.append(d.as_str());
        },
        None => {
            s.append(")");
        },
    }
    s
}

impl Template {
    /// The template as listed: `<name> (<id>)` and ` -- <description>` if any.
    pub fn display_text(&self) -> (s: String)
        ensures
            s@ == listing_text(self.metadata.name@, self.id@, opt_view(self.metadata.description)),
    {
        listing(self.metadata.name.as_str(), self.id.as_str(), &self.metadata.description)
    }
}

impl Brand {
    /// The brand as listed: `<name> (<id>)` and ` -- <description>` if any.
    pub fn display_text(&self) -> (s: String)
        ensures
            s@ == listing_text(self.metadata.name@, self.id@, opt_view(self.metadata.description)),
    {
        listing(self.metadata.name.as_str(), self.id.as_str(), &self.metadata.description)
    }
}


// ---------------------------------------------------------------------------
// Configuration
// ---------------------------------------------------------------------------

/// Layered configuration (defaults, then the global file, then the project
/// file, then the command line).
#[derive(Clone, Debug)]
pub struct Config {
    default_template: Option<String>,
    default_brand: Option<String>,
    output_dir: Option<PathBuf>,
    author: Option<String>,
    repos: Vec<RepoSource>,
    local: Vec<LocalSource>,
}

/// The characters of an optional string slice.
pub open spec fn opt_str_view(o: Option<&str>) -> Option<Seq<char>> {
    match o {
        Some(s) => Some(s@),
        None => None,
    }
}

/// `a` when it is set, else `b` (`Option::or`).
pub open spec fn either<T>(a: Option<T>, b: Option<T>) -> Option<T> {
    match a {
        Some(x) => Some(x),
        None => b,
    }
}

fn as_opt_str(o: &Option<String>) -> (r: Option<&str>)
    ensures
        opt_str_view(r) == opt_view(*o),
{
    match o {
        Some(s) => Some(s.as_str()),
        None => None,
    }
}

impl Config {
    /// The default template setting.
    pub closed spec fn template_setting(self) -> Option<String> {
        self.default_template
    }

    /// The default brand setting.
    pub closed spec fn brand_setting(self) -> Option<String> {
        self.default_brand
    }

    /// The output directory setting.
    pub closed spec fn output_dir_setting(self) -> Option<PathBuf> {
        self.output_dir
    }

    /// The default author setting.
    pub closed spec fn author_setting(self) -> Option<String> {
        self.author
    }

    /// The configured template repositories.
    pub closed spec fn repo_list(self) -> Seq<RepoSource> {
        self.repos@
    }

    /// The configured local template directories.
    pub closed spec fn local_list(self) -> Seq<LocalSource> {
        self.local@
    }

    /// Nothing is set.
    pub open spec fn is_unset(self) -> bool {
        &&& self.template_setting() is None
        &&& self.brand_setting() is None
        &&& self.output_dir_setting() is None
        &&& self.author_setting() is None
        &&& self.repo_list().len() == 0
        &&& self.local_list().len() == 0
    }

    /// `self` and `other` hold the same settings.
    pub open spec fn same_settings(self, other: Config) -> bool {
        &&& self.template_setting() == other.template_setting()
        &&& self.brand_setting() == other.brand_setting()
        &&& self.output_dir_setting() == other.output_dir_setting()
        &&& self.author_setting() == other.author_setting()
        &&& self.repo_list() == other.repo_list()
        &&& self.local_list() == other.local_list()
    }

    /// A configuration with the given settings.
    pub fn new(
        default_template: Option<String>,
        default_brand: Option<String>,
        output_dir: Option<PathBuf>,
        author: Option<String>,
        repos: Vec<RepoSource>,
        local: Vec<LocalSource>,
    ) -> (c: Self)
        ensures
            c.template_setting() == default_template,
            c.brand_setting() == default_brand,
            c.output_dir_setting() == output_dir,
            c.author_setting() == author,
            c.repo_list() == repos@,
            c.local_list() == local@,
    {
        Config { default_template, default_brand, output_dir, author, repos, local }
    }

    /// The configured default template name, if any.
    pub fn default_template(&self) -> (r: Option<&str>)
        ensures
            opt_str_view(r) == opt_view(self.template_setting()),
    {
        as_opt_str(&self.default_template)
    }

    /// The configured default brand name, if any.
    pub fn default_brand(&self) -> (r: Option<&str>)
        ensures
            opt_str_view(r) == opt_view(self.brand_setting()),
    {
        as_opt_str(&self.default_brand)
    }

    /// The configured output directory, if any.
    pub fn output_dir(&self) -> (r: Option<&PathBuf>)
        ensures
            match r {
                Some(p) => self.output_dir_setting() == Some(*p),
                None => self.output_dir_setting() is None,
            },
    {
        match &self.output_dir {
            Some(p) => Some(p),
            None => None,
        }
    }

    /// The configured default author, if any.
    pub fn author(&self) -> (r: Option<&str>)
        ensures
            opt_str_view(r) == opt_view(self.author_setting()),
    {
        as_opt_str(&self.author)
    }

    /// The configured template repositories.
    pub fn repos(&self) -> (r: &[RepoSource])
        ensures
            r@ == self.repo_list(),
    {
        self.repos.as_slice()
    }

    /// The configured local template directories.
    pub fn local(&self) -> (r: &[LocalSource])
        ensures
            r@ == self.local_list(),
    {
        self.local.as_slice()
    }
}

impl Default for Config {
    /// The built-in defaults: nothing set.
    fn default() -> (c: Self)
        ensures
            c.is_unset(),
    {
        Config {
            default_template: None,
            default_brand: None,
            output_dir: None,
            author: None,
            repos: Vec::new(),
            local: Vec::new(),
        }
    }
}

/// Merges configuration layers.
#[derive(Debug)]
pub struct ConfigLoader;

/// The settings of `overlay` on top of `base`: each set option of `overlay`
/// wins; a non-empty list of `overlay` replaces that of `base`.
pub open spec fn merged_settings(base: Config, overlay: Config, c: Config) -> bool {
    &&& c.template_setting() == either(overlay.template_setting(), base.template_setting())
    &&& c.brand_setting() == either(overlay.brand_setting(), base.brand_setting())
    &&& c.output_dir_setting() == either(overlay.output_dir_setting(), base.output_dir_setting())
    &&& c.author_setting() == either(overlay.author_setting(), base.author_setting())
    &&& c.repo_list() == if overlay.repo_list().len() == 0 { base.repo_list() } else { overlay.repo_list() }
    &&& c.local_list() == if overlay.local_list().len() == 0 { base.local_list() } else { overlay.local_list() }
}

impl ConfigLoader {
    /// The built-in default configuration (nothing set).
    pub fn defaults() -> (c: Config)
        ensures
            c.is_unset(),
    {
        Config::default()
    }

    /// Lays `overlay` over `base`: options that `overlay` sets win, the others
    /// keep `base`'s value; a non-empty list in `overlay` replaces `base`'s.
    pub fn merge(base: Config, overlay: Config) -> (c: Config)
        ensures
            merged_settings(base, overlay, c),
    {
        Config {
            default_template: match overlay.default_template {
                Some(t) => Some(t),
                None => base.default_template,
            },
            default_brand: match overlay.default_brand {
                Some(b) => Some(b),
                None => base.default_brand,
            },
            output_dir: match overlay.output_dir {
                Some(d) => Some(d),
                None => base.output_dir,
            },
            author: match overlay.author {
                Some(a) => Some(a),
                None => base.author,
            },
            repos: if overlay.repos.len() == 0 { base.repos } else { overlay.repos },
            local: if overlay.local.len() == 0 { base.local } else { overlay.local },
        }
    }
}

/// `c` is what loading gives when the global and the project configuration
/// files held `global` and `project` (`None` for a file that does not exist):
/// the defaults, with the global file laid over them, then the project file.
pub open spec fn loaded_from(global: Option<Config>, project: Option<Config>, c: Config) -> bool {
    match (global, project) {
        (None, None) => c.is_unset(),
        (Some(g), None) => c.same_settings(g),
        (None, Some(p)) => c.same_settings(p),
        (Some(g), Some(p)) => merged_settings(g, p, c),
    }
}

impl ConfigLoader {
    /// The configuration from its layers: the built-in defaults, then the
    /// global file's settings, then the project file's, each layer winning
    /// over the ones below it. A file that does not exist is `None`.
    pub fn load(global: Option<Config>, project: Option<Config>) -> (c: Config)
        ensures
            loaded_from(global, project, c),
    {
        let base = Self::defaults();
        let ghost b = base;
        let with_global = match global {
            Some(g) => {
                let m = Self::merge(base, g);
                proof {
                    lemma_merge_onto_unset(b, g, m);
                }
                m
            },
            None => base,
        };
        match project {
            Some(p) => {
                let ghost wg = with_global;
                let m = Self::merge(with_global, p);
                proof {
                    if global is None {
                        lemma_merge_onto_unset(wg, p, m);
                    }
                }
                m
            },
            None => with_global,
        }
    }

    /// The global configuration file: `mdocs/config.toml` under the config
    /// home.
    pub fn global_config_path(config_home: &PathBuf) -> (p: PathBuf)
        ensures
            p == joined_path(*config_home, "mdocs/config.toml"@),
    {
        path_join(config_home, "mdocs/config.toml")
    }

    /// The project configuration file: `.mdocs.toml` in the working directory.
    pub fn project_config_path(working_dir: &PathBuf) -> (p: PathBuf)
        ensures
            p == joined_path(*working_dir, ".mdocs.toml"@),
    {
        path_join(working_dir, ".mdocs.toml")
    }
}

/// A base directory of the XDG layout: the value of its variable when it is
/// set and not empty, else `fallback` under the home directory (the current
/// directory's `fallback` when `HOME` is unset).
pub open spec fn xdg_dir(var: Option<Seq<char>>, home: Option<Seq<char>>, fallback: Seq<char>) -> PathBuf {
    match var {
        Some(v) => if v.len() > 0 {
            path_of(v)
        } else {
            joined_path(path_of(match home { Some(h) => h, None => Seq::empty() }), fallback)
        },
        None => joined_path(path_of(match home { Some(h) => h, None => Seq::empty() }), fallback),
    }
}

fn xdg_base(var: Option<&str>, home: Option<&str>, fallback: &str) -> (p: PathBuf)
    ensures
        p == xdg_dir(opt_str_view(var), opt_str_view(home), fallback@),
{
    proof {
        reveal_strlit("");
        assert(""@ =~= Seq::<char>::empty());
    }
    let h = match home {
        Some(h) => path_from(h),
        None => path_from(""),
    };
    assert(h == path_of(match opt_str_view(home) { Some(x) => x, None => Seq::<char>::empty() }));
    match var {
        Some(v) => {
            if crate::text::chars_of(v).len() > 0 {
                path_from(v)
            } else {
                path_join(&h, fallback)
            }
        },
        None => path_join(&h, fallback),
    }
}

/// The configuration home: `$XDG_CONFIG_HOME` (`var`) when set and not
/// empty, else `.config` under `$HOME` (`home`).
pub fn xdg_config_home(var: Option<&str>, home: Option<&str>) -> (p: PathBuf)
    ensures
        p == xdg_dir(opt_str_view(var), opt_str_view(home), ".config"@),
{
    xdg_base(var, home, ".config")
}

/// The data home: `$XDG_DATA_HOME` (`var`) when set and not empty, else
/// `.local/share` under `$HOME` (`home`).
pub fn xdg_data_home(var: Option<&str>, home: Option<&str>) -> (p: PathBuf)
    ensures
        p == xdg_dir(opt_str_view(var), opt_str_view(home), ".local/share"@),
{
    xdg_base(var, home, ".local/share")
}

/// Merging a layer that sets nothing keeps the base.
pub proof fn lemma_merge_unset_overlay(base: Config, overlay: Config, c: Config)
    requires
        overlay.is_unset(),
        merged_settings(base, overlay, c),
    ensures
        c.same_settings(base),
{
}

/// Merging onto a base that sets nothing gives the layer's settings.
pub proof fn lemma_merge_onto_unset(base: Config, overlay: Config, c: Config)
    requires
        base.is_unset(),
        merged_settings(base, overlay, c),
    ensures
        c.same_settings(overlay),
{
    if overlay.repo_list().len() == 0 {
        assert(base.repo_list() =~= overlay.repo_list());
    }
    if overlay.local_list().len() == 0 {
        assert(base.local_list() =~= overlay.local_list());
    }
}

/// Merging is associative: laying `b` then `c` over `a` is laying `c`-over-`b`
/// over `a`.
pub proof fn lemma_merge_associative(a: Config, b: Config, c: Config, ab: Config, ab_c: Config, bc: Config, a_bc: Config)
    requires
        merged_settings(a, b, ab),
        merged_settings(ab, c, ab_c),
        merged_settings(b, c, bc),
        merged_settings(a, bc, a_bc),
    ensures
        ab_c.same_settings(a_bc),
{
}

/// Merging a layer onto itself changes nothing.
pub proof fn lemma_merge_idempotent(a: Config, c: Config)
    requires
        merged_settings(a, a, c),
    ensures
        c.same_settings(a),
{
}

} // verus!
