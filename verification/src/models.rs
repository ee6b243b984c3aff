//! Data model: field definitions, collections, file entries and the persistent
//! configuration.

use vstd::prelude::*;
use crate::paths;
use crate::text::chars_of;

verus! {

/// Data types supported for frontmatter fields.
#[derive(Clone, Copy, Debug, PartialEq, Eq, Structural)]
pub enum FieldType {
    /// Plain text.
    String,
    /// A boolean (true/false).
    Boolean,
    /// A date (filled with the current time when its default is `now`).
    Date,
    /// A path to an image.
    Image,
    /// A list of items (tags).
    List,
    /// Categories with predefined options.
    Categories,
    /// A number.
    Number,
}

/// Definition of a field in a collection.
#[derive(Clone, Debug)]
pub struct FieldDef {
    /// Field name (the YAML key).
    pub name: String,
    /// Field type.
    pub field_type: FieldType,
    /// Default value when the field is missing.
    pub default_value: String,
    /// Suggested options for `Categories` or `List` fields.
    pub options: Option<Vec<String>>,
}

/// An entry of the file list.
#[derive(Clone, Debug)]
pub struct FileEntry {
    /// File name on disk, relative to the collection.
    pub name: String,
    /// Title taken from the frontmatter.
    pub title: String,
    /// Date taken from the frontmatter.
    pub date: String,
    /// The file is a draft.
    pub draft: bool,
    /// Cover image path, if any.
    pub image: Option<String>,
}

/// A content collection (for example `blog` or `docs`).
#[derive(Clone, Debug)]
pub struct CollectionDef {
    /// Collection name (its folder name).
    pub name: String,
    /// Fields defined for this collection.
    pub fields: Vec<FieldDef>,
}

/// Paths and collections of one project.
#[derive(Clone, Debug)]
pub struct ProjectConfig {
    /// Path of the repository.
    pub repo_path: String,
    /// Content directory relative to the repository root.
    pub content_dir: String,
    /// Assets directory relative to the repository root.
    pub assets_dir: String,
    /// Collections configured for this project.
    pub collections: Vec<CollectionDef>,
}

/// Persistent application configuration.
#[derive(Clone, Debug)]
pub struct Config {
    /// Current repository path.
    pub repo_path: Option<String>,
    /// GitHub access token (optional).
    pub github_token: Option<String>,
    /// Visual theme preference.
    pub dark_mode: bool,
    /// Base directory of the content.
    pub content_dir: String,
    /// Base directory of the images.
    pub assets_dir: String,
    /// Collection definitions.
    pub collections: Vec<CollectionDef>,
    /// Settings of the projects opened so far.
    pub project_configs: Vec<ProjectConfig>,
}

/// The content of a field definition.
pub struct FieldDefV {
    pub name: Seq<char>,
    pub field_type: FieldType,
    pub default_value: Seq<char>,
    pub options: Option<Seq<Seq<char>>>,
}

/// The content of a collection definition.
pub struct CollectionDefV {
    pub name: Seq<char>,
    pub fields: Seq<FieldDefV>,
}

/// The content of a project configuration.
pub struct ProjectConfigV {
    pub repo_path: Seq<char>,
    pub content_dir: Seq<char>,
    pub assets_dir: Seq<char>,
    pub collections: Seq<CollectionDefV>,
}

/// The content of a configuration.
pub struct ConfigV {
    pub repo_path: Option<Seq<char>>,
    pub github_token: Option<Seq<char>>,
    pub dark_mode: bool,
    pub content_dir: Seq<char>,
    pub assets_dir: Seq<char>,
    pub collections: Seq<CollectionDefV>,
    pub project_configs: Seq<ProjectConfigV>,
}

/// The contents of a list of strings.
pub open spec fn strs_view(v: Seq<String>) -> Seq<Seq<char>> {
    v.map_values(|s: String| s@)
}

/// The content of an optional string.
pub open spec fn opt_str_view(o: Option<String>) -> Option<Seq<char>> {
    match o {
        Some(s) => Some(s@),
        None => None,
    }
}

impl View for FieldDef {
    type V = FieldDefV;

    open spec fn view(&self) -> FieldDefV {
        FieldDefV {
            name: self.name@,
            field_type: self.field_type,
            default_value: self.default_value@,
            options: match self.options {
                Some(v) => Some(strs_view(v@)),
                None => None,
            },
        }
    }
}

/// The contents of a list of field definitions.
pub open spec fn fields_view(v: Seq<FieldDef>) -> Seq<FieldDefV> {
    v.map_values(|f: FieldDef| f@)
}

impl View for CollectionDef {
    type V = CollectionDefV;

    open spec fn view(&self) -> CollectionDefV {
        CollectionDefV { name: self.name@, fields: fields_view(self.fields@) }
    }
}

/// The contents of a list of collection definitions.
pub open spec fn collections_view(v: Seq<CollectionDef>) -> Seq<CollectionDefV> {
    v.map_values(|c: CollectionDef| c@)
}

impl View for ProjectConfig {
    type V = ProjectConfigV;

    open spec fn view(&self) -> ProjectConfigV {
        ProjectConfigV {
            repo_path: self.repo_path@,
            content_dir: self.content_dir@,
            assets_dir: self.assets_dir@,
            collections: collections_view(self.collections@),
        }
    }
}

/// The contents of a list of project configurations.
pub open spec fn projects_view(v: Seq<ProjectConfig>) -> Seq<ProjectConfigV> {
    v.map_values(|p: ProjectConfig| p@)
}

impl View for Config {
    type V = ConfigV;

    open spec fn view(&self) -> ConfigV {
        ConfigV {
            repo_path: opt_str_view(self.repo_path),
            github_token: opt_str_view(self.github_token),
            dark_mode: self.dark_mode,
            content_dir: self.content_dir@,
            assets_dir: self.assets_dir@,
            collections: collections_view(self.collections@),
            project_configs: projects_view(self.project_configs@),
        }
    }
}

/// A copy of a list of strings.
pub fn copy_strings(v: &Vec<String>) -> (r: Vec<String>)
    ensures
        strs_view(r@) == strs_view(v@),
{
    let mut r: Vec<String> = Vec::new();
    let mut i: usize = 0;
    while i < v.len()
        invariant
            i <= v.len(),
            r.len() == i,
            forall|j: int| 0 <= j < i ==> #[trigger] r@[j]@ == v@[j]@,
        decreases v.len() - i,
    {
        r.push(v[i].clone());
        i += 1;
    }
    assert(strs_view(r@) =~= strs_view(v@));
    r
}

impl FieldDef {
    /// A copy with the same content.
    pub fn copy(&self) -> (r: FieldDef)
        ensures
            r@ == self@,
    {
        FieldDef {
            name: self.name.clone(),
            field_type: self.field_type,
            default_value: self.default_value.clone(),
            options: match &self.options {
                Some(v) => Some(copy_strings(v)),
                None => None,
            },
        }
    }
}

impl CollectionDef {
    /// A copy with the same content.
    pub fn copy(&self) -> (r: CollectionDef)
        ensures
            r@ == self@,
    {
        let mut fields: Vec<FieldDef> = Vec::new();
        let mut i: usize = 0;
        while i < self.fields.len()
            invariant
                i <= self.fields.len(),
                fields.len() == i,
                forall|j: int| 0 <= j < i ==> #[trigger] fields@[j]@ == self.fields@[j]@,
            decreases self.fields.len() - i,
        {
            fields.push(self.fields[i].copy());
            i += 1;
        }
        assert(fields_view(fields@) =~= fields_view(self.fields@));
        CollectionDef { name: self.name.clone(), fields }
    }
}

/// A copy of a list of collection definitions.
pub fn copy_collections(v: &Vec<CollectionDef>) -> (r: Vec<CollectionDef>)
    ensures
        collections_view(r@) == collections_view(v@),
{
    let mut r: Vec<CollectionDef> = Vec::new();
    let mut i: usize = 0;
    while i < v.len()
        invariant
            i <= v.len(),
            r.len() == i,
            forall|j: int| 0 <= j < i ==> #[trigger] r@[j]@ == v@[j]@,
        decreases v.len() - i,
    {
        r.push(v[i].copy());
        i += 1;
    }
    assert(collections_view(r@) =~= collections_view(v@));
    r
}

} // verus!

verus! {

/// A field definition with no options.
pub open spec fn plain_field(name: Seq<char>, t: FieldType, default_value: Seq<char>) -> FieldDefV {
    FieldDefV { name, field_type: t, default_value, options: None }
}

/// The suggested categories of the default `blog` collection.
pub open spec fn default_blog_categories() -> Seq<Seq<char>> {
    seq![
        "ciberseguridad"@,
        "pentesting"@,
        "automatización"@,
        "tutoriales"@,
        "hobbies"@,
        "informática"@,
        "seguridad"@,
    ]
}

/// The fields of the default `blog` collection.
pub open spec fn default_blog_fields() -> Seq<FieldDefV> {
    seq![
        plain_field("title"@, FieldType::String, ""@),
        plain_field("description"@, FieldType::String, ""@),
        plain_field("date"@, FieldType::Date, "now"@),
        FieldDefV {
            name: "categories"@,
            field_type: FieldType::Categories,
            default_value: ""@,
            options: Some(default_blog_categories()),
        },
        plain_field("tags"@, FieldType::List, ""@),
        plain_field("author"@, FieldType::String, "Juan Oliver"@),
        plain_field("image"@, FieldType::Image, ""@),
        plain_field("socialImage"@, FieldType::Image, ""@),
        plain_field("showToc"@, FieldType::Boolean, "false"@),
        plain_field("draft"@, FieldType::Boolean, "false"@),
    ]
}

/// The fields of the default `docs` collection.
pub open spec fn default_docs_fields() -> Seq<FieldDefV> {
    seq![
        plain_field("title"@, FieldType::String, ""@),
        plain_field("description"@, FieldType::String, ""@),
        plain_field("date"@, FieldType::Date, "now"@),
        plain_field("categories"@, FieldType::List, ""@),
        plain_field("tags"@, FieldType::List, ""@),
        plain_field("draft"@, FieldType::Boolean, "false"@),
    ]
}

/// The default configuration: no repository, no token, dark mode, content under
/// `src/content`, images under `src/assets/imagesblog`, the `blog` and `docs`
/// collections and no project history.
pub open spec fn default_config() -> ConfigV {
    ConfigV {
        repo_path: None,
        github_token: None,
        dark_mode: true,
        content_dir: "src/content"@,
        assets_dir: "src/assets/imagesblog"@,
        collections: seq![
            CollectionDefV { name: "blog"@, fields: default_blog_fields() },
            CollectionDefV { name: "docs"@, fields: default_docs_fields() },
        ],
        project_configs: seq![],
    }
}

/// A field definition with no options.
fn simple_field(name: &str, t: FieldType, default_value: &str) -> (r: FieldDef)
    ensures
        r@ == plain_field(name@, t, default_value@),
{
    FieldDef {
        name: String::from_str(name),
        field_type: t,
        default_value: String::from_str(default_value),
        options: None,
    }
}

impl Default for Config {
    /// The default configuration.
    fn default() -> (r: Config)
        ensures
            r@ == default_config(),
    {
        let cats = vec![
            String::from_str("ciberseguridad"),
            String::from_str("pentesting"),
            String::from_str("automatización"),
            String::from_str("tutoriales"),
            String::from_str("hobbies"),
            String::from_str("informática"),
            String::from_str("seguridad"),
        ];
        assert(strs_view(cats@) =~= default_blog_categories());
        let blog_fields = vec![
            simple_field("title", FieldType::String, ""),
            simple_field("description", FieldType::String, ""),
            simple_field("date", FieldType::Date, "now"),
            FieldDef {
                name: String::from_str("categories"),
                field_type: FieldType::Categories,
                default_value: String::from_str(""),
                options: Some(cats),
            },
            simple_field("tags", FieldType::List, ""),
            simple_field("author", FieldType::String, "Juan Oliver"),
            simple_field("image", FieldType::Image, ""),
            simple_field("socialImage", FieldType::Image, ""),
            simple_field("showToc", FieldType::Boolean, "false"),
            simple_field("draft", FieldType::Boolean, "false"),
        ];
        assert(fields_view(blog_fields@) =~= default_blog_fields());
        let docs_fields = vec![
            simple_field("title", FieldType::String, ""),
            simple_field("description", FieldType::String, ""),
            simple_field("date", FieldType::Date, "now"),
            simple_field("categories", FieldType::List, ""),
            simple_field("tags", FieldType::List, ""),
            simple_field("draft", FieldType::Boolean, "false"),
        ];
        assert(fields_view(docs_fields@) =~= default_docs_fields());
        let collections = vec![
            CollectionDef { name: String::from_str("blog"), fields: blog_fields },
            CollectionDef { name: String::from_str("docs"), fields: docs_fields },
        ];
        let r = Config {
            repo_path: None,
            github_token: None,
            dark_mode: true,
            content_dir: String::from_str("src/content"),
            assets_dir: String::from_str("src/assets/imagesblog"),
            collections,
            project_configs: Vec::new(),
        };
        assert(collections_view(r.collections@) =~= default_config().collections);
        assert(projects_view(r.project_configs@) =~= Seq::<ProjectConfigV>::empty());
        r
    }
}

} // verus!

verus! {

/// The position of the first project whose repository is `path` (as paths compare).
pub open spec fn project_index_from(ps: Seq<ProjectConfigV>, path: Seq<char>, i: int) -> Option<int>
    decreases ps.len() - i,
{
    if i < 0 || i >= ps.len() {
        None
    } else if paths::same_path(ps[i].repo_path, path) {
        Some(i)
    } else {
        project_index_from(ps, path, i + 1)
    }
}

/// The position of the first project whose repository is `path`.
pub open spec fn project_index(ps: Seq<ProjectConfigV>, path: Seq<char>) -> Option<int> {
    project_index_from(ps, path, 0)
}

/// The project entry for `path` built from the configuration's current settings.
pub open spec fn project_from(c: ConfigV, path: Seq<char>) -> ProjectConfigV {
    ProjectConfigV {
        repo_path: path,
        content_dir: c.content_dir,
        assets_dir: c.assets_dir,
        collections: c.collections,
    }
}

/// The configuration after a load: when there is a repository but no project history,
/// the history gets an entry for that repository with the current settings.
pub open spec fn migrated(c: ConfigV) -> ConfigV {
    match c.repo_path {
        Some(p) => if c.project_configs.len() == 0 {
            ConfigV { project_configs: seq![project_from(c, p)], ..c }
        } else {
            c
        },
        None => c,
    }
}

/// The configuration with the current settings stored in the history entry of the
/// current repository (added when missing).
pub open spec fn synced(c: ConfigV) -> ConfigV {
    match c.repo_path {
        None => c,
        Some(p) => match project_index(c.project_configs, p) {
            Some(i) => ConfigV {
                project_configs: c.project_configs.update(
                    i,
                    ProjectConfigV { repo_path: c.project_configs[i].repo_path, ..project_from(c, p) },
                ),
                ..c
            },
            None => ConfigV { project_configs: c.project_configs.push(project_from(c, p)), ..c },
        },
    }
}

/// The configuration after switching to the repository `path`: the current settings
/// are stored first; then the settings of `path` are taken from its history entry, or
/// the current settings are recorded as its entry.
pub open spec fn with_repo(c: ConfigV, path: Seq<char>) -> ConfigV {
    let s = ConfigV { repo_path: Some(path), ..synced(c) };
    match project_index(s.project_configs, path) {
        Some(i) => ConfigV {
            content_dir: s.project_configs[i].content_dir,
            assets_dir: s.project_configs[i].assets_dir,
            collections: s.project_configs[i].collections,
            ..s
        },
        None => ConfigV { project_configs: s.project_configs.push(project_from(s, path)), ..s },
    }
}

/// What `project_index_from` finds: the first match, or none at all.
pub proof fn lemma_project_index_from(ps: Seq<ProjectConfigV>, path: Seq<char>, i: int)
    requires
        0 <= i,
    ensures
        match project_index_from(ps, path, i) {
            Some(j) => i <= j < ps.len() && paths::same_path(ps[j].repo_path, path) && forall|l: int|
                i <= l < j ==> !paths::same_path(#[trigger] ps[l].repo_path, path),
            None => forall|l: int| i <= l < ps.len() ==> !paths::same_path(#[trigger] ps[l].repo_path, path),
        },
    decreases ps.len() - i,
{
    if i < ps.len() && !paths::same_path(ps[i].repo_path, path) {
        lemma_project_index_from(ps, path, i + 1);
    }
}

impl ProjectConfig {
    /// A copy with the same content.
    pub fn copy(&self) -> (r: ProjectConfig)
        ensures
            r@ == self@,
    {
        ProjectConfig {
            repo_path: self.repo_path.clone(),
            content_dir: self.content_dir.clone(),
            assets_dir: self.assets_dir.clone(),
            collections: copy_collections(&self.collections),
        }
    }
}

impl Config {
    /// The position of the first history entry for `path`.
    pub fn project_position(&self, path: &str) -> (r: Option<usize>)
        ensures
            match r {
                Some(i) => project_index(self@.project_configs, path@) == Some(i as int) && i < self.project_configs.len(),
                None => project_index(self@.project_configs, path@) is None,
            },
    {
        let ghost ps = self@.project_configs;
        let mut i: usize = 0;
        while i < self.project_configs.len()
            invariant
                i <= self.project_configs.len(),
                ps == self@.project_configs,
                ps.len() == self.project_configs.len(),
                project_index(ps, path@) == project_index_from(ps, path@, i as int),
            decreases self.project_configs.len() - i,
        {
            assert(ps[i as int] == self.project_configs@[i as int]@);
            if paths::same_path_exec(self.project_configs[i].repo_path.as_str(), path) {
                return Some(i);
            }
            i += 1;
        }
        None
    }

    /// The project entry for `path` with the current settings.
    fn project_for(&self, path: &String) -> (r: ProjectConfig)
        ensures
            r@ == project_from(self@, path@),
    {
        ProjectConfig {
            repo_path: path.clone(),
            content_dir: self.content_dir.clone(),
            assets_dir: self.assets_dir.clone(),
            collections: copy_collections(&self.collections),
        }
    }

    /// Completes a configuration just loaded from storage: when a repository is set
    /// but there is no project history, records an entry for it.
    pub fn migrate_project_configs(&mut self)
        ensures
            final(self)@ == migrated(old(self)@),
    {
        if self.project_configs.len() == 0 {
            if let Some(path) = &self.repo_path {
                let p = self.project_for(path);
                self.project_configs.push(p);
                assert(projects_view(self.project_configs@) =~= seq![p@]);
            }
        }
    }

    /// Stores the current paths and collections in the history entry of the current
    /// repository, adding the entry when there is none.
    pub fn sync_project_config(&mut self)
        ensures
            final(self)@ == synced(old(self)@),
    {
        let ghost c = self@;
        if let Some(path) = &self.repo_path {
            let pc = self.project_for(path);
            match self.project_position(path.as_str()) {
                Some(i) => {
                    let entry = ProjectConfig { repo_path: self.project_configs[i].repo_path.clone(), ..pc };
                    self.project_configs.set(i, entry);
                    assert(projects_view(self.project_configs@) =~= c.project_configs.update(
                        i as int,
                        ProjectConfigV { repo_path: c.project_configs[i as int].repo_path, ..project_from(c, path@) },
                    ));
                },
                None => {
                    self.project_configs.push(pc);
                    assert(projects_view(self.project_configs@) =~= c.project_configs.push(project_from(c, path@)));
                },
            }
        }
    }

    /// Switches to the repository `path`: stores the current settings, then loads the
    /// settings recorded for `path`, or records the current ones for it.
    pub fn set_repo_path(&mut self, path: String)
        ensures
            final(self)@ == with_repo(old(self)@, path@),
    {
        self.sync_project_config();
        self.repo_path = Some(path.clone());
        let ghost s = self@;
        match self.project_position(path.as_str()) {
            Some(i) => {
                self.content_dir = self.project_configs[i].content_dir.clone();
                self.assets_dir = self.project_configs[i].assets_dir.clone();
                self.collections = copy_collections(&self.project_configs[i].collections);
            },
            None => {
                let pc = self.project_for(&path);
                self.project_configs.push(pc);
                assert(projects_view(self.project_configs@) =~= s.project_configs.push(project_from(s, path@)));
            },
        }
    }
}

} // verus!

verus! {

/// Histories whose entries name the same repositories in the same places find a
/// repository at the same place.
pub proof fn lemma_project_index_same_repos(a: Seq<ProjectConfigV>, b: Seq<ProjectConfigV>, path: Seq<char>)
    requires
        a.len() == b.len(),
        forall|i: int| 0 <= i < a.len() ==> #[trigger] a[i].repo_path == b[i].repo_path,
    ensures
        project_index(a, path) == project_index(b, path),
{
    lemma_project_index_from(a, path, 0);
    lemma_project_index_from(b, path, 0);
    match project_index(a, path) {
        Some(j) => {
            assert(a[j].repo_path == b[j].repo_path);
            if project_index(b, path) != Some(j) {
                match project_index(b, path) {
                    Some(k) => {
                        assert(a[k].repo_path == b[k].repo_path);
                    },
                    None => {},
                }
            }
        },
        None => {
            if project_index(b, path) is Some {
                let k = project_index(b, path)->0;
                assert(a[k].repo_path == b[k].repo_path);
            }
        },
    }
}

/// Adding an entry at the end of the history: an existing first match stays; without
/// one, the new entry is found when it names the repository.
pub proof fn lemma_project_index_push(ps: Seq<ProjectConfigV>, e: ProjectConfigV, path: Seq<char>)
    ensures
        project_index(ps.push(e), path) == match project_index(ps, path) {
            Some(i) => Some(i),
            None => if paths::same_path(e.repo_path, path) {
                Some(ps.len() as int)
            } else {
                None
            },
        },
{
    let qs = ps.push(e);
    lemma_project_index_from(ps, path, 0);
    lemma_project_index_from(qs, path, 0);
    match project_index(ps, path) {
        Some(i) => {
            assert(qs[i] == ps[i]);
            if project_index(qs, path) != Some(i) {
                match project_index(qs, path) {
                    Some(k) => {
                        assert(qs[k] == ps[k]);
                    },
                    None => {},
                }
            }
        },
        None => {
            match project_index(qs, path) {
                Some(k) => {
                    if k < ps.len() {
                        assert(qs[k] == ps[k]);
                    }
                },
                None => {
                    assert(qs[ps.len() as int] == e);
                },
            }
        },
    }
}

/// No two history entries are for the same repository.
pub open spec fn distinct_projects(ps: Seq<ProjectConfigV>) -> bool {
    forall|i: int, j: int|
        0 <= i < j < ps.len() ==> !paths::same_path(#[trigger] ps[i].repo_path, #[trigger] ps[j].repo_path)
}

/// Storing the current settings keeps the history free of repeated repositories.
proof fn lemma_synced_distinct(c: ConfigV)
    requires
        distinct_projects(c.project_configs),
    ensures
        distinct_projects(synced(c).project_configs),
{
    match c.repo_path {
        None => {},
        Some(p) => {
            lemma_project_index_from(c.project_configs, p, 0);
            let ps = c.project_configs;
            let qs = synced(c).project_configs;
            match project_index(ps, p) {
                Some(k) => {
                    assert forall|i: int, j: int| 0 <= i < j < qs.len() implies !paths::same_path(
                        #[trigger] qs[i].repo_path,
                        #[trigger] qs[j].repo_path,
                    ) by {
                        assert(qs[i].repo_path == ps[i].repo_path && qs[j].repo_path == ps[j].repo_path);
                    }
                },
                None => {
                    assert forall|i: int, j: int| 0 <= i < j < qs.len() implies !paths::same_path(
                        #[trigger] qs[i].repo_path,
                        #[trigger] qs[j].repo_path,
                    ) by {
                        if j == ps.len() {
                            assert(!paths::same_path(ps[i].repo_path, p));
                        } else {
                            assert(qs[i] == ps[i] && qs[j] == ps[j]);
                        }
                    }
                },
            }
        },
    }
}

/// Switching repositories keeps the history free of repeated repositories.
pub proof fn law_switch_keeps_projects_distinct(c: ConfigV, path: Seq<char>)
    requires
        distinct_projects(c.project_configs),
    ensures
        distinct_projects(with_repo(c, path).project_configs),
{
    lemma_synced_distinct(c);
    let ps = synced(c).project_configs;
    lemma_project_index_from(ps, path, 0);
    let qs = with_repo(c, path).project_configs;
    if project_index(ps, path) is None {
        assert forall|i: int, j: int| 0 <= i < j < qs.len() implies !paths::same_path(
            #[trigger] qs[i].repo_path,
            #[trigger] qs[j].repo_path,
        ) by {
            if j == ps.len() {
                assert(!paths::same_path(ps[i].repo_path, path));
            } else {
                assert(qs[i] == ps[i] && qs[j] == ps[j]);
            }
        }
    }
}

/// After switching to a repository, its history entry holds the settings now in use.
pub proof fn law_switch_records_settings(c: ConfigV, path: Seq<char>)
    ensures
        with_repo(c, path).repo_path == Some(path),
        project_index(with_repo(c, path).project_configs, path) is Some,
        ({
            let r = with_repo(c, path);
            let e = r.project_configs[project_index(r.project_configs, path)->0];
            e.content_dir == r.content_dir && e.assets_dir == r.assets_dir && e.collections == r.collections
        }),
{
    let s = ConfigV { repo_path: Some(path), ..synced(c) };
    lemma_project_index_from(s.project_configs, path, 0);
    match project_index(s.project_configs, path) {
        Some(i) => {},
        None => {
            lemma_project_index_push(s.project_configs, project_from(s, path), path);
        },
    }
}

/// The history after storing the current settings keeps the entry of the current
/// repository at the first place that names it, holding those settings.
proof fn lemma_synced_entry(c: ConfigV, a: Seq<char>) -> (i: int)
    requires
        c.repo_path == Some(a),
    ensures
        project_index(synced(c).project_configs, a) == Some(i),
        0 <= i < synced(c).project_configs.len(),
        synced(c).project_configs[i].content_dir == c.content_dir,
        synced(c).project_configs[i].assets_dir == c.assets_dir,
        synced(c).project_configs[i].collections == c.collections,
        match project_index(c.project_configs, a) {
            Some(j) => synced(c).project_configs == c.project_configs.update(
                j,
                ProjectConfigV { repo_path: c.project_configs[j].repo_path, ..project_from(c, a) },
            ) && i == j,
            None => synced(c).project_configs == c.project_configs.push(project_from(c, a)),
        },
{
    lemma_project_index_from(c.project_configs, a, 0);
    match project_index(c.project_configs, a) {
        Some(j) => {
            let ps = synced(c).project_configs;
            lemma_project_index_same_repos(ps, c.project_configs, a);
            j
        },
        None => {
            lemma_project_index_push(c.project_configs, project_from(c, a), a);
            c.project_configs.len() as int
        },
    }
}

/// Switching to another repository and back restores the settings that were in use
/// before leaving (the content and asset folders and the collection definitions).
pub proof fn law_switch_back_restores(c: ConfigV, a: Seq<char>, b: Seq<char>)
    requires
        c.repo_path == Some(a),
        !paths::same_path(a, b),
    ensures
        with_repo(with_repo(c, b), a).repo_path == Some(a),
        with_repo(with_repo(c, b), a).content_dir == c.content_dir,
        with_repo(with_repo(c, b), a).assets_dir == c.assets_dir,
        with_repo(with_repo(c, b), a).collections == c.collections,
{
    // Leaving `a`: its entry gets the current settings.
    let ia = lemma_synced_entry(c, a);
    let s1 = ConfigV { repo_path: Some(b), ..synced(c) };
    let c1 = with_repo(c, b);
    lemma_project_index_from(s1.project_configs, b, 0);
    match project_index(s1.project_configs, b) {
        Some(j) => {
            assert(c1.project_configs == s1.project_configs);
        },
        None => {
            lemma_project_index_push(s1.project_configs, project_from(s1, b), a);
            assert(c1.project_configs[ia] == s1.project_configs[ia]);
        },
    }
    assert(project_index(c1.project_configs, a) == Some(ia));
    assert(c1.project_configs[ia].content_dir == c.content_dir);
    // Leaving `b`: only its own entry changes, which is not the one of `a`.
    let ib_opt = project_index(c1.project_configs, b);
    lemma_project_index_from(c1.project_configs, b, 0);
    lemma_project_index_from(c1.project_configs, a, 0);
    let s2 = ConfigV { repo_path: Some(a), ..synced(c1) };
    match ib_opt {
        Some(j) => {
            if j == ia {
                assert(paths::components(c1.project_configs[j].repo_path) == paths::components(b));
                assert(paths::components(c1.project_configs[ia].repo_path) == paths::components(a));
            }
            assert(synced(c1).project_configs[ia] == c1.project_configs[ia]);
            lemma_project_index_same_repos(synced(c1).project_configs, c1.project_configs, a);
        },
        None => {
            lemma_project_index_push(c1.project_configs, project_from(c1, b), a);
            assert(synced(c1).project_configs[ia] == c1.project_configs[ia]);
        },
    }
    assert(project_index(s2.project_configs, a) == Some(ia));
}

} // verus!
