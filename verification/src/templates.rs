//! Template and brand sources: where each source keeps its templates and
//! brands, how a name is resolved (the first source that has it wins), what a
//! directory listing contributes to a discovery, and the git steps that
//! install and update repositories.
//!
//! The filesystem is looked at by the caller; these functions decide on what
//! it found.

use std::path::PathBuf;
use vstd::prelude::*;
use crate::domain::{
    opt_str_view, file_name_of, joined_path, path_file_name, path_join, Brand, BrandMetadata, Config,
    MdDocsError, RepoSource, Template, TemplateMetadata, TemplateSource,
};
use crate::sorting::{
    by_name_order, is_arrangement, keys_of, lemma_by_name_order, name_before, sort_by_name, Named,
};
use crate::sources::{title_case, title_case_spec};
use crate::text::{cat3, chars_eq, chars_of, holds_name, views};

verus! {

/// The directories of one source.
#[derive(Debug)]
pub struct SourceDir {
    pub source: TemplateSource,
    pub templates_dir: PathBuf,
    pub brands_dir: PathBuf,
}

/// The directories of a source rooted at `base`.
pub open spec fn source_dir_at(source: TemplateSource, base: PathBuf) -> SourceDir {
    SourceDir {
        source,
        templates_dir: joined_path(base, "templates"@),
        brands_dir: joined_path(base, "brands"@),
    }
}

/// Where the repository `name` is cloned under `repos_base`.
pub open spec fn clone_path(repos_base: PathBuf, name: Seq<char>) -> PathBuf {
    joined_path(repos_base, name)
}

/// The sources of a configuration, in the order they are searched: the local
/// directories first, then the repositories cloned under `repos_base`.
pub open spec fn source_dirs(config: Config, repos_base: PathBuf) -> Seq<SourceDir> {
    let locals = config.local_list();
    let repos = config.repo_list();
    Seq::new(locals.len(), |i: int| source_dir_at(TemplateSource::Local(locals[i].path), locals[i].path))
        + Seq::new(
        repos.len(),
        |j: int| source_dir_at(TemplateSource::Repo(repos[j].name), clone_path(repos_base, repos[j].name@)),
    )
}

/// The title a template or brand without metadata gets: its directory name
/// in title case.
pub open spec fn dir_title(dir: PathBuf) -> Seq<char> {
    title_case_spec(
        match file_name_of(dir) {
            Some(n) => n,
            None => Seq::empty(),
        },
    )
}

/// `m` is the metadata of the template in `dir`: what its `metadata.toml`
/// holds when it has one (`parsed`), else the directory name as title and
/// nothing else.
pub open spec fn template_metadata_from(m: TemplateMetadata, dir: PathBuf, parsed: Option<TemplateMetadata>) -> bool {
    match parsed {
        Some(p) => m == p,
        None => {
            &&& m.name@ == dir_title(dir)
            &&& m.description is None
            &&& m.default_brand is None
            &&& m.ignore@.len() == 0
            &&& m.starter_file is None
        },
    }
}

/// `m` is the metadata of the brand in `dir` (see `template_metadata_from`).
pub open spec fn brand_metadata_from(m: BrandMetadata, dir: PathBuf, parsed: Option<BrandMetadata>) -> bool {
    match parsed {
        Some(p) => m == p,
        None => m.name@ == dir_title(dir) && m.description is None,
    }
}

/// `t` is the template `name` of the source `dir`, whose metadata file held
/// `parsed`.
pub open spec fn template_found_at(t: Template, name: Seq<char>, dir: SourceDir, parsed: Option<TemplateMetadata>) -> bool {
    let path = joined_path(dir.templates_dir, name);
    &&& t.id@ == name
    &&& t.path == path
    &&& template_metadata_from(t.metadata, path, parsed)
    &&& t.source == dir.source
}

/// `b` is the brand `name` of the source `dir`, whose metadata file held
/// `parsed`.
pub open spec fn brand_found_at(b: Brand, name: Seq<char>, dir: SourceDir, parsed: Option<BrandMetadata>) -> bool {
    let path = joined_path(dir.brands_dir, name);
    &&& b.id@ == name
    &&& b.path == path
    &&& brand_metadata_from(b.metadata, path, parsed)
    &&& b.source == dir.source
}

/// `i` is the first of the first `n` probes that found something.
pub open spec fn first_found<M>(probes: Seq<Option<M>>, n: int, i: int) -> bool {
    &&& 0 <= i < n
    &&& probes[i] is Some
    &&& forall|j: int| 0 <= j < i ==> probes[j] is None
}

/// The smaller of two lengths.
pub open spec fn shorter(a: nat, b: nat) -> int {
    if a <= b { a as int } else { b as int }
}

/// Finds, resolves and installs templates and brands of a configuration.
#[derive(Clone, Debug)]
pub struct TemplateManager {
    config: Config,
}

impl TemplateManager {
    /// The configuration the manager works from.
    pub closed spec fn config_of(self) -> Config {
        self.config
    }

    /// A manager for the resolved configuration `config`.
    pub fn new(config: Config) -> (m: Self)
        ensures
            m.config_of() == config,
    {
        TemplateManager { config }
    }

    /// The configuration the manager works from.
    pub fn config(&self) -> (c: &Config)
        ensures
            *c == self.config_of(),
    {
        &self.config
    }

    /// Where repositories are cloned: `md-docs/repos` under the data home.
    pub fn repos_base_dir(data_home: &PathBuf) -> (p: PathBuf)
        ensures
            p == joined_path(*data_home, "md-docs/repos"@),
    {
        path_join(data_home, "md-docs/repos")
    }

    /// Where the repository `name` is cloned under `repos_base`.
    pub fn repo_clone_path(repos_base: &PathBuf, name: &str) -> (p: PathBuf)
        ensures
            p == clone_path(*repos_base, name@),
    {
        path_join(repos_base, name)
    }

    /// The sources to search, in order: each local directory, then each
    /// repository cloned under `repos_base`; a source keeps its templates in
    /// `templates/` and its brands in `brands/`.
    pub fn source_directories(&self, repos_base: &PathBuf) -> (dirs: Vec<SourceDir>)
        ensures
            dirs@ == source_dirs(self.config_of(), *repos_base),
    {
        let locals = self.config.local();
        let repos = self.config.repos();
        let ghost lspec = self.config_of().local_list();
        let ghost rspec = self.config_of().repo_list();
        let mut dirs: Vec<SourceDir> = Vec::new();
        let mut i: usize = 0;
        while i < locals.len()
            invariant
                i <= locals.len(),
                locals@ == lspec,
                dirs@ =~= Seq::new(i as nat, |k: int| source_dir_at(TemplateSource::Local(lspec[k].path), lspec[k].path)),
            decreases locals.len() - i,
        {
            let base = &locals[i].path;
            dirs.push(SourceDir {
                source: TemplateSource::Local(base.clone()),
                templates_dir: path_join(base, "templates"),
                brands_dir: path_join(base, "brands"),
            });
            i = i + 1;
        }
        let ghost first = dirs@;
        let mut j: usize = 0;
        while j < repos.len()
            invariant
                j <= repos.len(),
                repos@ == rspec,
                first == Seq::new(lspec.len(), |k: int| source_dir_at(TemplateSource::Local(lspec[k].path), lspec[k].path)),
                dirs@ =~= first + Seq::new(
                    j as nat,
                    |k: int| source_dir_at(TemplateSource::Repo(rspec[k].name), clone_path(*repos_base, rspec[k].name@)),
                ),
            decreases repos.len() - j,
        {
            let base = Self::repo_clone_path(repos_base, repos[j].name.as_str());
            dirs.push(SourceDir {
                source: TemplateSource::Repo(repos[j].name.clone()),
                templates_dir: path_join(&base, "templates"),
                brands_dir: path_join(&base, "brands"),
            });
            j = j + 1;
        }
        dirs
    }

    /// The title of a directory without metadata: its name in title case.
    fn directory_title(dir: &PathBuf) -> (t: String)
        ensures
            t@ == dir_title(*dir),
    {
        proof {
            reveal_strlit("");
        }
        match path_file_name(dir) {
            Some(n) => title_case(n.as_str()),
            None => title_case(""),
        }
    }

    /// The metadata of the template in `template_dir`: `parsed`, what its
    /// `metadata.toml` holds, when it has that file; else its directory name
    /// in title case, with nothing else set.
    pub fn read_template_metadata(template_dir: &PathBuf, parsed: Option<TemplateMetadata>) -> (m: TemplateMetadata)
        ensures
            template_metadata_from(m, *template_dir, parsed),
    {
        match parsed {
            Some(p) => p,
            None => TemplateMetadata {
                name: Self::directory_title(template_dir),
                description: None,
                default_brand: None,
                ignore: Vec::new(),
                starter_file: None,
            },
        }
    }

    /// The metadata of the brand in `brand_dir`: `parsed` when it has a
    /// `metadata.toml`, else its directory name in title case.
    pub fn read_brand_metadata(brand_dir: &PathBuf, parsed: Option<BrandMetadata>) -> (m: BrandMetadata)
        ensures
            brand_metadata_from(m, *brand_dir, parsed),
    {
        match parsed {
            Some(p) => p,
            None => BrandMetadata { name: Self::directory_title(brand_dir), description: None },
        }
    }

    /// Resolves the template `name`: the first source, in search order, whose
    /// `templates/<name>` is a directory with a `template.typ` has it.
    ///
    /// `probes[i]` tells what source `i` (of `source_directories`) holds:
    /// `None` when it has no such template, else the parsed `metadata.toml`
    /// of the template, if it has one. Probes past the first hit may be left
    /// out. No hit among the probes is `TemplateNotFound`.
    pub fn resolve_template(
        &self,
        name: &str,
        repos_base: &PathBuf,
        probes: Vec<Option<Option<TemplateMetadata>>>,
    ) -> (r: Result<Template, MdDocsError>)
        ensures
            ({
                let dirs = source_dirs(self.config_of(), *repos_base);
                let n = shorter(dirs.len(), probes@.len());
                match r {
                    Ok(t) => exists|i: int|
                        first_found(probes@, n, i) && template_found_at(t, name@, dirs[i], probes@[i].unwrap()),
                    Err(e) => (forall|i: int| 0 <= i < n ==> probes@[i] is None) && match e {
                        MdDocsError::TemplateNotFound(s) => s@ == name@,
                        _ => false,
                    },
                }
            }),
    {
        let mut dirs = self.source_directories(repos_base);
        let mut pending = probes;
        let ghost dspec = dirs@;
        let ghost pspec = pending@;
        let n = if dirs.len() <= pending.len() { dirs.len() } else { pending.len() };
        let mut i: usize = 0;
        while i < n
            invariant
                i <= n,
                n == shorter(dspec.len(), pspec.len()),
                dspec == source_dirs(self.config_of(), *repos_base),
                dirs@ == dspec,
                pending@ == pspec,
                pspec == probes@,
                forall|j: int| 0 <= j < i ==> pspec[j] is None,
            decreases n - i,
        {
            if pending[i].is_some() {
                let found = pending.remove(i);
                let dir = dirs.remove(i);
                let parsed = match found {
                    Some(p) => p,
                    None => None,
                };
                let path = path_join(&dir.templates_dir, name);
                let metadata = Self::read_template_metadata(&path, parsed);
                let t = Template { id: String::from_str(name), path, metadata, source: dir.source };
                assert(first_found(pspec, shorter(dspec.len(), pspec.len()), i as int)
                    && template_found_at(t, name@, dspec[i as int], pspec[i as int].unwrap()));
                return Ok(t);
            }
            i = i + 1;
        }
        Err(MdDocsError::TemplateNotFound(String::from_str(name)))
    }

    /// Resolves the brand `name` as `resolve_template` resolves a template:
    /// the first source whose `brands/<name>` is a directory with a
    /// `brand.typ` has it; no hit is `BrandNotFound`.
    pub fn resolve_brand(
        &self,
        name: &str,
        repos_base: &PathBuf,
        probes: Vec<Option<Option<BrandMetadata>>>,
    ) -> (r: Result<Brand, MdDocsError>)
        ensures
            ({
                let dirs = source_dirs(self.config_of(), *repos_base);
                let n = shorter(dirs.len(), probes@.len());
                match r {
                    Ok(b) => exists|i: int|
                        first_found(probes@, n, i) && brand_found_at(b, name@, dirs[i], probes@[i].unwrap()),
                    Err(e) => (forall|i: int| 0 <= i < n ==> probes@[i] is None) && match e {
                        MdDocsError::BrandNotFound(s) => s@ == name@,
                        _ => false,
                    },
                }
            }),
    {
        let mut dirs = self.source_directories(repos_base);
        let mut pending = probes;
        let ghost dspec = dirs@;
        let ghost pspec = pending@;
        let n = if dirs.len() <= pending.len() { dirs.len() } else { pending.len() };
        let mut i: usize = 0;
        while i < n
            invariant
                i <= n,
                n == shorter(dspec.len(), pspec.len()),
                dspec == source_dirs(self.config_of(), *repos_base),
                dirs@ == dspec,
                pending@ == pspec,
                pspec == probes@,
                forall|j: int| 0 <= j < i ==> pspec[j] is None,
            decreases n - i,
        {
            if pending[i].is_some() {
                let found = pending.remove(i);
                let dir = dirs.remove(i);
                let parsed = match found {
                    Some(p) => p,
                    None => None,
                };
                let path = path_join(&dir.brands_dir, name);
                let metadata = Self::read_brand_metadata(&path, parsed);
                let b = Brand { id: String::from_str(name), path, metadata, source: dir.source };
                assert(first_found(pspec, shorter(dspec.len(), pspec.len()), i as int)
                    && brand_found_at(b, name@, dspec[i as int], pspec[i as int].unwrap()));
                return Ok(b);
            }
            i = i + 1;
        }
        Err(MdDocsError::BrandNotFound(String::from_str(name)))
    }
}

// ---------------------------------------------------------------------------
// Discovery
// ---------------------------------------------------------------------------

impl Named for Template {
    open spec fn name_key(&self) -> Seq<char> {
        self.metadata.name@
    }

    fn name_text(&self) -> (s: &str) {
        self.metadata.name.as_str()
    }
}

impl Named for Brand {
    open spec fn name_key(&self) -> Seq<char> {
        self.metadata.name@
    }

    fn name_text(&self) -> (s: &str) {
        self.metadata.name.as_str()
    }
}

/// What the listing of a source's `templates/` (or `brands/`) directory shows
/// of one entry.
#[derive(Debug)]
pub struct DirEntryInfo {
    /// The source whose directory was listed.
    pub source: TemplateSource,
    pub path: PathBuf,
    /// The entry's name, when it is valid UTF-8.
    pub name: Option<String>,
    pub is_dir: bool,
    /// It holds `template.typ` (for a brand, `brand.typ`).
    pub has_marker: bool,
}

/// The name of an entry (empty when it has none).
pub open spec fn entry_name(e: DirEntryInfo) -> Seq<char> {
    match e.name {
        Some(n) => n@,
        None => Seq::empty(),
    }
}

/// An entry that is a template (or brand): a directory with a name that does
/// not begin with `.`, holding the marker file.
pub open spec fn eligible(e: DirEntryInfo) -> bool {
    &&& e.is_dir
    &&& e.has_marker
    &&& e.name is Some
    &&& !(entry_name(e).len() > 0 && entry_name(e)[0] == '.')
}

/// The names of the eligible entries among the first `j`.
pub open spec fn eligible_names(es: Seq<DirEntryInfo>, j: int) -> Seq<Seq<char>>
    decreases j,
{
    if j <= 0 {
        Seq::empty()
    } else {
        eligible_names(es, j - 1) + if eligible(es[j - 1]) { seq![entry_name(es[j - 1])] } else { Seq::empty() }
    }
}

/// Entry `j` is discovered: it is eligible and no earlier eligible entry has
/// its name (the first source that has an id wins).
pub open spec fn is_pick(es: Seq<DirEntryInfo>, j: int) -> bool {
    eligible(es[j]) && !eligible_names(es, j).contains(entry_name(es[j]))
}

/// The discovered entries among the first `n`, in listing order.
pub open spec fn picks_upto(es: Seq<DirEntryInfo>, n: int) -> Seq<int>
    decreases n,
{
    if n <= 0 {
        Seq::empty()
    } else {
        picks_upto(es, n - 1) + if is_pick(es, n - 1) { seq![n - 1] } else { Seq::empty() }
    }
}

/// Whether `e` is eligible (see `eligible`).
fn is_eligible(e: &DirEntryInfo) -> (b: bool)
    ensures
        b == eligible(*e),
{
    if !e.is_dir || !e.has_marker {
        return false;
    }
    match &e.name {
        Some(n) => {
            let c = chars_of(n.as_str());
            !(c.len() > 0 && c[0] == '.')
        },
        None => false,
    }
}

/// A template or brand directory chosen by discovery, with its parsed
/// `metadata.toml` when it has one.
#[derive(Debug)]
pub struct Found<M> {
    pub id: String,
    pub path: PathBuf,
    pub source: TemplateSource,
    pub metadata: Option<M>,
}

/// `t` is the template made from `f`.
pub open spec fn template_from_found(t: Template, f: Found<TemplateMetadata>) -> bool {
    &&& t.id == f.id
    &&& t.path == f.path
    &&& t.source == f.source
    &&& template_metadata_from(t.metadata, f.path, f.metadata)
}

/// `b` is the brand made from `f`.
pub open spec fn brand_from_found(b: Brand, f: Found<BrandMetadata>) -> bool {
    &&& b.id == f.id
    &&& b.path == f.path
    &&& b.source == f.source
    &&& brand_metadata_from(b.metadata, f.path, f.metadata)
}

/// The name a found template is listed under.
pub open spec fn found_template_name(f: Found<TemplateMetadata>) -> Seq<char> {
    match f.metadata {
        Some(m) => m.name@,
        None => dir_title(f.path),
    }
}

/// The name a found brand is listed under.
pub open spec fn found_brand_name(f: Found<BrandMetadata>) -> Seq<char> {
    match f.metadata {
        Some(m) => m.name@,
        None => dir_title(f.path),
    }
}

/// The names found templates are listed under.
pub open spec fn found_template_names(fs: Seq<Found<TemplateMetadata>>) -> Seq<Seq<char>> {
    Seq::new(fs.len(), |i: int| found_template_name(fs[i]))
}

/// The names found brands are listed under.
pub open spec fn found_brand_names(fs: Seq<Found<BrandMetadata>>) -> Seq<Seq<char>> {
    Seq::new(fs.len(), |i: int| found_brand_name(fs[i]))
}

impl TemplateManager {
    /// Which entries of the listings of the sources' directories (all
    /// sources, in search order) are discovered: the directories whose name
    /// does not begin with `.` and that hold the marker file, each id only
    /// the first time it is seen. Their positions, in listing order.
    pub fn discovery_picks(entries: &[DirEntryInfo]) -> (picks: Vec<usize>)
        ensures
            picks@.len() == picks_upto(entries@, entries@.len() as int).len(),
            forall|m: int| 0 <= m < picks@.len() ==> picks@[m] as int == #[trigger] picks_upto(entries@, entries@.len() as int)[m],
    {
        let mut seen: Vec<Vec<char>> = Vec::new();
        let mut picks: Vec<usize> = Vec::new();
        let mut j: usize = 0;
        while j < entries.len()
            invariant
                j <= entries.len(),
                views(seen@) == eligible_names(entries@, j as int),
                picks@.len() == picks_upto(entries@, j as int).len(),
                forall|m: int| 0 <= m < picks@.len() ==> picks@[m] as int == #[trigger] picks_upto(entries@, j as int)[m],
            decreases entries.len() - j,
        {
            let e = &entries[j];
            let ghost before = picks@;
            if is_eligible(e) {
                let name = match &e.name {
                    Some(n) => chars_of(n.as_str()),
                    None => Vec::new(),
                };
                assert(name@ == entry_name(entries@[j as int]));
                let dup = holds_name(&seen, name.as_slice());
                if !dup {
                    picks.push(j);
                }
                seen.push(name);
                assert(views(seen@) =~= eligible_names(entries@, j as int + 1));
            } else {
                assert(eligible_names(entries@, j as int + 1) =~= eligible_names(entries@, j as int));
            }
            assert forall|m: int| 0 <= m < picks@.len() implies picks@[m] as int == #[trigger] picks_upto(entries@, j as int + 1)[m] by {
                if m < before.len() {
                    assert(picks@[m] == before[m]);
                }
            }
            j = j + 1;
        }
        picks
    }

    /// The discovered templates, sorted by name (stably, so equal names keep
    /// the order in which they were found). A template without metadata is
    /// named after its directory.
    pub fn discover_templates(found: Vec<Found<TemplateMetadata>>) -> (r: Vec<Template>)
        ensures
            r@.len() == found@.len(),
            by_name_order(found_template_names(found@)).len() == found@.len(),
            forall|m: int| 0 <= m < r@.len() ==> template_from_found(
                #[trigger] r@[m],
                found@[by_name_order(found_template_names(found@))[m]],
            ),
    {
        let ghost orig = found@;
        let n = found.len();
        let mut rest = found;
        let mut built: Vec<Template> = Vec::new();
        let mut k: usize = 0;
        assert(orig.skip(0) =~= orig);
        while k < n
            invariant
                k <= n,
                n == orig.len(),
                rest@ == orig.skip(k as int),
                built@.len() == k,
                forall|m: int| 0 <= m < k ==> template_from_found(#[trigger] built@[m], orig[m]),
                forall|m: int| 0 <= m < k ==> (#[trigger] built@[m]).metadata.name@ == found_template_name(orig[m]),
            decreases n - k,
        {
            let f = rest.remove(0);
            assert(rest@ =~= orig.skip(k + 1));
            let metadata = Self::read_template_metadata(&f.path, f.metadata);
            built.push(Template { id: f.id, path: f.path, metadata, source: f.source });
            k = k + 1;
        }
        let ghost b = built@;
        assert(keys_of(b) =~= found_template_names(orig));
        let r = sort_by_name(built);
        assert forall|m: int| 0 <= m < r@.len() implies template_from_found(
            #[trigger] r@[m],
            orig[by_name_order(found_template_names(orig))[m]],
        ) by {
            let i = by_name_order(keys_of(b))[m];
            assert(0 <= i < n);
            assert(template_from_found(b[i], orig[i]));
        }
        r
    }

    /// The discovered brands, sorted by name like the templates.
    pub fn discover_brands(found: Vec<Found<BrandMetadata>>) -> (r: Vec<Brand>)
        ensures
            r@.len() == found@.len(),
            by_name_order(found_brand_names(found@)).len() == found@.len(),
            forall|m: int| 0 <= m < r@.len() ==> brand_from_found(
                #[trigger] r@[m],
                found@[by_name_order(found_brand_names(found@))[m]],
            ),
    {
        let ghost orig = found@;
        let n = found.len();
        let mut rest = found;
        let mut built: Vec<Brand> = Vec::new();
        let mut k: usize = 0;
        assert(orig.skip(0) =~= orig);
        while k < n
            invariant
                k <= n,
                n == orig.len(),
                rest@ == orig.skip(k as int),
                built@.len() == k,
                forall|m: int| 0 <= m < k ==> brand_from_found(#[trigger] built@[m], orig[m]),
                forall|m: int| 0 <= m < k ==> (#[trigger] built@[m]).metadata.name@ == found_brand_name(orig[m]),
            decreases n - k,
        {
            let f = rest.remove(0);
            assert(rest@ =~= orig.skip(k + 1));
            let metadata = Self::read_brand_metadata(&f.path, f.metadata);
            built.push(Brand { id: f.id, path: f.path, metadata, source: f.source });
            k = k + 1;
        }
        let ghost b = built@;
        assert(keys_of(b) =~= found_brand_names(orig));
        let r = sort_by_name(built);
        assert forall|m: int| 0 <= m < r@.len() implies brand_from_found(
            #[trigger] r@[m],
            orig[by_name_order(found_brand_names(orig))[m]],
        ) by {
            let i = by_name_order(keys_of(b))[m];
            assert(0 <= i < n);
            assert(brand_from_found(b[i], orig[i]));
        }
        r
    }
}

// ---------------------------------------------------------------------------
// Repositories
// ---------------------------------------------------------------------------

/// A git command to run for a repository.
#[derive(Debug)]
pub enum GitCommand {
    /// `git clone <url> <dest>`.
    Clone { url: String, dest: PathBuf },
    /// `git pull`, run in `dir`.
    Pull { dir: PathBuf },
}

/// `i` is the first configured repository named `n`.
pub open spec fn first_named(repos: Seq<RepoSource>, n: Seq<char>, i: int) -> bool {
    &&& 0 <= i < repos.len()
    &&& repos[i].name@ == n
    &&& forall|j: int| 0 <= j < i ==> repos[j].name@ != n
}

/// The error of an operation on repositories, with its detail.
pub open spec fn repo_failure(e: MdDocsError, detail: Seq<char>) -> bool {
    match e {
        MdDocsError::RepoOperationFailed(s) => s@ == detail,
        _ => false,
    }
}

/// `r` is what selecting the repositories named `name` (all when `None`)
/// among `repos` gives: all of them, the first one with that name, or, when
/// none has it, an error that says so.
pub open spec fn selects(repos: Seq<RepoSource>, name: Option<Seq<char>>, r: Result<Vec<RepoSource>, MdDocsError>) -> bool {
    match name {
        None => r is Ok && r->Ok_0@ == repos,
        Some(n) => match r {
            Ok(v) => exists|i: int| first_named(repos, n, i) && v@ == seq![repos[i]],
            Err(e) => (forall|i: int| 0 <= i < repos.len() ==> repos[i].name@ != n)
                && repo_failure(e, "repo '"@ + n + "' not found in config"@),
        },
    }
}

/// A copy of a repository entry.
fn copy_repo(r: &RepoSource) -> (c: RepoSource)
    ensures
        c == *r,
{
    RepoSource { name: r.name.clone(), url: r.url.clone() }
}

impl TemplateManager {
    /// The repositories an install or update works on: all configured ones
    /// when no name is given, else the first one with that name; a name that
    /// no repository has is an error.
    pub fn select_repos(&self, name: Option<&str>) -> (r: Result<Vec<RepoSource>, MdDocsError>)
        ensures
            selects(self.config_of().repo_list(), opt_str_view(name), r),
    {
        let repos = self.config.repos();
        match name {
            None => {
                let mut all: Vec<RepoSource> = Vec::new();
                let mut i: usize = 0;
                while i < repos.len()
                    invariant
                        i <= repos.len(),
                        all@ =~= repos@.take(i as int),
                    decreases repos.len() - i,
                {
                    all.push(copy_repo(&repos[i]));
                    i = i + 1;
                }
                assert(repos@.take(repos.len() as int) =~= repos@);
                Ok(all)
            },
            Some(n) => {
                let target = chars_of(n);
                let mut i: usize = 0;
                while i < repos.len()
                    invariant
                        i <= repos.len(),
                        target@ == n@,
                        name == Some(n),
                        repos@ == self.config_of().repo_list(),
                        forall|j: int| 0 <= j < i ==> repos@[j].name@ != n@,
                    decreases repos.len() - i,
                {
                    let candidate = chars_of(repos[i].name.as_str());
                    if chars_eq(candidate.as_slice(), target.as_slice()) {
                        let mut one: Vec<RepoSource> = Vec::new();
                        one.push(copy_repo(&repos[i]));
                        assert(first_named(self.config_of().repo_list(), n@, i as int));
                        assert(one@ =~= seq![repos@[i as int]]);
                        assert(first_named(self.config_of().repo_list(), opt_str_view(name)->Some_0, i as int));
                        return Ok(one);
                    }
                    i = i + 1;
                }
                Err(MdDocsError::RepoOperationFailed(cat3("repo '", n, "' not found in config")))
            },
        }
    }

    /// What installing `repo` takes: nothing when it is already cloned under
    /// `repos_base`, else a clone of its URL to its clone path.
    pub fn install_step(repo: &RepoSource, repos_base: &PathBuf, installed: bool) -> (c: Option<GitCommand>)
        ensures
            installed ==> c is None,
            !installed ==> c == Some(
                (GitCommand::Clone { url: repo.url, dest: clone_path(*repos_base, repo.name@) }),
            ),
    {
        if installed {
            None
        } else {
            Some(GitCommand::Clone {
                url: repo.url.clone(),
                dest: Self::repo_clone_path(repos_base, repo.name.as_str()),
            })
        }
    }

    /// What updating `repo` takes: a pull in its clone, or an error when it
    /// is not installed.
    pub fn update_step(repo: &RepoSource, repos_base: &PathBuf, installed: bool) -> (r: Result<GitCommand, MdDocsError>)
        ensures
            installed ==> r == Ok::<GitCommand, MdDocsError>(
                (GitCommand::Pull { dir: clone_path(*repos_base, repo.name@) }),
            ),
            !installed ==> r is Err && repo_failure(
                r->Err_0,
                "repo '"@ + repo.name@ + "' not installed. Run 'md-docs templates install' first."@,
            ),
    {
        if installed {
            Ok(GitCommand::Pull { dir: Self::repo_clone_path(repos_base, repo.name.as_str()) })
        } else {
            Err(MdDocsError::RepoOperationFailed(
                cat3("repo '", repo.name.as_str(), "' not installed. Run 'md-docs templates install' first."),
            ))
        }
    }

    /// The error when `command` for the repository `repo_name` failed: git
    /// could not be run (`spawn_error` tells why), or it ran and failed.
    pub fn git_failure(command: &GitCommand, repo_name: &str, spawn_error: Option<&str>) -> (e: MdDocsError)
        ensures
            match spawn_error {
                Some(why) => repo_failure(e, "failed to run git: "@ + why@),
                None => match command {
                    GitCommand::Clone { .. } => repo_failure(e, "git clone failed for repo '"@ + repo_name@ + "'"@),
                    GitCommand::Pull { .. } => repo_failure(e, "git pull failed for repo '"@ + repo_name@ + "'"@),
                },
            },
    {
        match spawn_error {
            Some(why) => {
                proof {
                    reveal_strlit("");
                }
                MdDocsError::RepoOperationFailed(cat3("failed to run git: ", why, ""))
            },
            None => match command {
                GitCommand::Clone { .. } => MdDocsError::RepoOperationFailed(
                    cat3("git clone failed for repo '", repo_name, "'"),
                ),
                GitCommand::Pull { .. } => MdDocsError::RepoOperationFailed(
                    cat3("git pull failed for repo '", repo_name, "'"),
                ),
            },
        }
    }
}


// ---------------------------------------------------------------------------
// What discovery promises
// ---------------------------------------------------------------------------

/// The names of earlier eligible entries are those of the entries before.
proof fn lemma_eligible_names(es: Seq<DirEntryInfo>, j: int)
    requires
        0 <= j <= es.len(),
    ensures
        forall|x: Seq<char>| #[trigger] eligible_names(es, j).contains(x) <==> exists|k: int|
            0 <= k < j && eligible(es[k]) && #[trigger] entry_name(es[k]) == x,
    decreases j,
{
    if j > 0 {
        lemma_eligible_names(es, j - 1);
        let prev = eligible_names(es, j - 1);
        let cur = eligible_names(es, j);
        assert forall|x: Seq<char>| #[trigger] cur.contains(x) <==> exists|k: int|
            0 <= k < j && eligible(es[k]) && #[trigger] entry_name(es[k]) == x by {
            if cur.contains(x) {
                let i = choose|i: int| 0 <= i < cur.len() && cur[i] == x;
                if i < prev.len() {
                    assert(prev.contains(x));
                } else {
                    assert(eligible(es[j - 1]) && entry_name(es[j - 1]) == x);
                }
            }
            if exists|k: int| 0 <= k < j && eligible(es[k]) && #[trigger] entry_name(es[k]) == x {
                let k = choose|k: int| 0 <= k < j && eligible(es[k]) && #[trigger] entry_name(es[k]) == x;
                if k < j - 1 {
                    assert(prev.contains(x));
                    let i = choose|i: int| 0 <= i < prev.len() && prev[i] == x;
                    assert(cur[i] == x);
                } else {
                    assert(cur[prev.len() as int] == x);
                }
            }
        }
    }
}

/// What the first `n` entries contribute to a discovery.
proof fn lemma_picks_upto(es: Seq<DirEntryInfo>, n: int)
    requires
        0 <= n <= es.len(),
    ensures
        forall|i: int| 0 <= i < picks_upto(es, n).len() ==> 0 <= #[trigger] picks_upto(es, n)[i] < n
            && eligible(es[picks_upto(es, n)[i]]),
        forall|i: int, j: int| 0 <= i < j < picks_upto(es, n).len()
            ==> #[trigger] picks_upto(es, n)[i] < #[trigger] picks_upto(es, n)[j]
                && entry_name(es[picks_upto(es, n)[i]]) != entry_name(es[picks_upto(es, n)[j]]),
        forall|k: int| 0 <= k < n && eligible(#[trigger] es[k]) ==> exists|i: int|
            0 <= i < picks_upto(es, n).len() && picks_upto(es, n)[i] <= k
                && entry_name(es[#[trigger] picks_upto(es, n)[i]]) == entry_name(es[k]),
    decreases n,
{
    if n > 0 {
        lemma_picks_upto(es, n - 1);
        lemma_eligible_names(es, n - 1);
        let prev = picks_upto(es, n - 1);
        let cur = picks_upto(es, n);
        if is_pick(es, n - 1) {
            assert(cur == prev.push(n - 1));
            assert forall|i: int, j: int| 0 <= i < j < cur.len()
                implies #[trigger] cur[i] < #[trigger] cur[j] && entry_name(es[cur[i]]) != entry_name(es[cur[j]]) by {
                if j == cur.len() - 1 {
                    assert(cur[i] == prev[i]);
                    if entry_name(es[prev[i]]) == entry_name(es[n - 1]) {
                        assert(eligible_names(es, n - 1).contains(entry_name(es[n - 1])));
                    }
                } else {
                    assert(cur[i] == prev[i] && cur[j] == prev[j]);
                }
            }
            assert forall|k: int| 0 <= k < n && eligible(#[trigger] es[k]) implies exists|i: int|
                0 <= i < cur.len() && cur[i] <= k && entry_name(es[#[trigger] cur[i]]) == entry_name(es[k]) by {
                if k == n - 1 {
                    assert(cur[prev.len() as int] == n - 1);
                } else {
                    let i = choose|i: int| 0 <= i < prev.len() && prev[i] <= k && entry_name(es[#[trigger] prev[i]]) == entry_name(es[k]);
                    assert(cur[i] == prev[i]);
                }
            }
        } else {
            assert(cur =~= prev);
            assert forall|k: int| 0 <= k < n && eligible(#[trigger] es[k]) implies exists|i: int|
                0 <= i < cur.len() && cur[i] <= k && entry_name(es[#[trigger] cur[i]]) == entry_name(es[k]) by {
                if k == n - 1 {
                    assert(eligible_names(es, n - 1).contains(entry_name(es[n - 1])));
                    let k2 = choose|k2: int| 0 <= k2 < n - 1 && eligible(es[k2]) && #[trigger] entry_name(es[k2]) == entry_name(es[n - 1]);
                    assert(eligible(es[k2]));
                    let i = choose|i: int| 0 <= i < prev.len() && prev[i] <= k2 && entry_name(es[#[trigger] prev[i]]) == entry_name(es[k2]);
                    assert(cur[i] == prev[i]);
                } else {
                    let i = choose|i: int| 0 <= i < prev.len() && prev[i] <= k && entry_name(es[#[trigger] prev[i]]) == entry_name(es[k]);
                    assert(cur[i] == prev[i]);
                }
            }
        }
    }
}

/// Discovery keeps only template (or brand) directories, in listing order;
/// it never keeps two with the same id; and every id that some directory
/// has is kept, from the first directory that has it.
pub proof fn lemma_discovery_picks(es: Seq<DirEntryInfo>)
    ensures
        forall|i: int| 0 <= i < picks_upto(es, es.len() as int).len()
            ==> eligible(es[#[trigger] picks_upto(es, es.len() as int)[i]]),
        forall|i: int, j: int| 0 <= i < j < picks_upto(es, es.len() as int).len()
            ==> #[trigger] picks_upto(es, es.len() as int)[i] < #[trigger] picks_upto(es, es.len() as int)[j]
                && entry_name(es[picks_upto(es, es.len() as int)[i]]) != entry_name(es[picks_upto(es, es.len() as int)[j]]),
        forall|k: int| 0 <= k < es.len() && eligible(#[trigger] es[k]) ==> exists|i: int|
            0 <= i < picks_upto(es, es.len() as int).len() && picks_upto(es, es.len() as int)[i] <= k
                && entry_name(es[#[trigger] picks_upto(es, es.len() as int)[i]]) == entry_name(es[k]),
{
    lemma_picks_upto(es, es.len() as int);
}

/// Discovery lists every found template exactly once, sorted by name, and
/// templates with the same name in the order in which they were found.
pub proof fn lemma_discovered_templates(found: Seq<Found<TemplateMetadata>>, r: Seq<Template>)
    requires
        r.len() == found.len(),
        forall|m: int| 0 <= m < r.len() ==> template_from_found(
            #[trigger] r[m],
            found[by_name_order(found_template_names(found))[m]],
        ),
    ensures
        is_arrangement(by_name_order(found_template_names(found)), found.len() as int),
        forall|i: int, j: int| 0 <= i < j < r.len() ==> !name_before(
            #[trigger] r[j].metadata.name@,
            #[trigger] r[i].metadata.name@,
        ),
        forall|i: int, j: int| 0 <= i < j < r.len() && #[trigger] r[i].metadata.name@ == #[trigger] r[j].metadata.name@
            ==> by_name_order(found_template_names(found))[i] < by_name_order(found_template_names(found))[j],
{
    let names = found_template_names(found);
    let ord = by_name_order(names);
    lemma_by_name_order(names);
    assert forall|m: int| 0 <= m < r.len() implies #[trigger] r[m].metadata.name@ == names[ord[m]] by {
        assert(template_from_found(r[m], found[ord[m]]));
    }
    assert forall|i: int, j: int| 0 <= i < j < r.len() implies !name_before(
        #[trigger] r[j].metadata.name@,
        #[trigger] r[i].metadata.name@,
    ) by {
        assert(r[i].metadata.name@ == names[ord[i]]);
        assert(r[j].metadata.name@ == names[ord[j]]);
    }
    assert forall|i: int, j: int| 0 <= i < j < r.len() && #[trigger] r[i].metadata.name@ == #[trigger] r[j].metadata.name@
        implies ord[i] < ord[j] by {
        assert(r[i].metadata.name@ == names[ord[i]]);
        assert(r[j].metadata.name@ == names[ord[j]]);
    }
}

/// Discovery lists every found brand exactly once, sorted by name, and
/// brands with the same name in the order in which they were found.
pub proof fn lemma_discovered_brands(found: Seq<Found<BrandMetadata>>, r: Seq<Brand>)
    requires
        r.len() == found.len(),
        forall|m: int| 0 <= m < r.len() ==> brand_from_found(
            #[trigger] r[m],
            found[by_name_order(found_brand_names(found))[m]],
        ),
    ensures
        is_arrangement(by_name_order(found_brand_names(found)), found.len() as int),
        forall|i: int, j: int| 0 <= i < j < r.len() ==> !name_before(
            #[trigger] r[j].metadata.name@,
            #[trigger] r[i].metadata.name@,
        ),
        forall|i: int, j: int| 0 <= i < j < r.len() && #[trigger] r[i].metadata.name@ == #[trigger] r[j].metadata.name@
            ==> by_name_order(found_brand_names(found))[i] < by_name_order(found_brand_names(found))[j],
{
    let names = found_brand_names(found);
    let ord = by_name_order(names);
    lemma_by_name_order(names);
    assert forall|m: int| 0 <= m < r.len() implies #[trigger] r[m].metadata.name@ == names[ord[m]] by {
        assert(brand_from_found(r[m], found[ord[m]]));
    }
    assert forall|i: int, j: int| 0 <= i < j < r.len() implies !name_before(
        #[trigger] r[j].metadata.name@,
        #[trigger] r[i].metadata.name@,
    ) by {
        assert(r[i].metadata.name@ == names[ord[i]]);
        assert(r[j].metadata.name@ == names[ord[j]]);
    }
    assert forall|i: int, j: int| 0 <= i < j < r.len() && #[trigger] r[i].metadata.name@ == #[trigger] r[j].metadata.name@
        implies ord[i] < ord[j] by {
        assert(r[i].metadata.name@ == names[ord[i]]);
        assert(r[j].metadata.name@ == names[ord[j]]);
    }
}

} // verus!
