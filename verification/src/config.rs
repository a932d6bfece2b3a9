//! Project settings read from `gt-tool.toml` files.
//!
//! A file holds one table per project, named by the project's path on disk,
//! and an optional `[all]` table whose settings apply to every project. The
//! project's own table is preferred over `[all]`, and files earlier in the
//! search order are preferred over later ones.

use vstd::prelude::*;

use crate::text::{split_at_char, split_on};
use crate::document::{parse_document, table_contents, table_entry, toml_document, Entry, TomlItem};

verus! {

/// Why a configuration table could not be read.
#[derive(Debug)]
pub enum Error {
    BadFormat,
    NoSuchProperty,
    NoSuchTable,
    CouldntReadFile,
    TomlWrap(toml::de::Error),
}

impl From<toml::de::Error> for Error {
    fn from(value: toml::de::Error) -> (r: Self) {
        Error::TomlWrap(value)
    }
}

impl vstd::std_specs::convert::FromSpecImpl<toml::de::Error> for Error {
    open spec fn obeys_from_spec() -> bool {
        true
    }

    open spec fn from_spec(v: toml::de::Error) -> Error {
        Error::TomlWrap(v)
    }
}

pub type Result<T> = core::result::Result<T, Error>;

/// Settings gathered for one project; each is absent until some table
/// provides it.
#[derive(Debug, PartialEq)]
pub struct PartialConfig {
    pub project_path: Option<String>,
    pub gitea_url: Option<String>,
    pub owner: Option<String>,
    pub repo: Option<String>,
    pub token: Option<String>,
}

/// The settings of a [`PartialConfig`] as character sequences.
pub struct ConfigView {
    pub project_path: Option<Seq<char>>,
    pub gitea_url: Option<Seq<char>>,
    pub owner: Option<Seq<char>>,
    pub repo: Option<Seq<char>>,
    pub token: Option<Seq<char>>,
}

pub open spec fn opt_view(o: Option<String>) -> Option<Seq<char>> {
    match o {
        Some(s) => Some(s@),
        None => None,
    }
}

/// `preferred` when it is present, else `fallback`.
pub open spec fn prefer(preferred: Option<Seq<char>>, fallback: Option<Seq<char>>) -> Option<
    Seq<char>,
> {
    if preferred is Some {
        preferred
    } else {
        fallback
    }
}

impl ConfigView {
    pub open spec fn empty() -> ConfigView {
        ConfigView { project_path: None, gitea_url: None, owner: None, repo: None, token: None }
    }

    /// Every setting that `other` holds replaces that of `self`.
    pub open spec fn merge(self, other: ConfigView) -> ConfigView {
        ConfigView {
            project_path: prefer(other.project_path, self.project_path),
            gitea_url: prefer(other.gitea_url, self.gitea_url),
            owner: prefer(other.owner, self.owner),
            repo: prefer(other.repo, self.repo),
            token: prefer(other.token, self.token),
        }
    }

    pub open spec fn with_project_path(self, path: Seq<char>) -> ConfigView {
        ConfigView { project_path: Some(path), ..self }
    }
}

impl View for PartialConfig {
    type V = ConfigView;

    open spec fn view(&self) -> ConfigView {
        ConfigView {
            project_path: opt_view(self.project_path),
            gitea_url: opt_view(self.gitea_url),
            owner: opt_view(self.owner),
            repo: opt_view(self.repo),
            token: opt_view(self.token),
        }
    }
}

impl Default for PartialConfig {
    fn default() -> (r: Self)
        ensures
            r@ == ConfigView::empty(),
    {
        PartialConfig { project_path: None, gitea_url: None, owner: None, repo: None, token: None }
    }
}

/// The string held under `key` in a table, if it holds one there.
pub open spec fn setting(section: Map<Seq<char>, TomlItem>, key: Seq<char>) -> Option<Seq<char>> {
    if section.contains_key(key) {
        match section[key] {
            TomlItem::Text(s) => Some(s),
            _ => None,
        }
    } else {
        None
    }
}

/// A setting is well formed when it is absent or a string.
pub open spec fn setting_ok(section: Map<Seq<char>, TomlItem>, key: Seq<char>) -> bool {
    !section.contains_key(key) || section[key] is Text
}

/// The settings that one table holds, or `None` when a recognized key holds
/// something other than a string. Other keys are ignored.
pub open spec fn section_config(section: Map<Seq<char>, TomlItem>) -> Option<ConfigView> {
    if setting_ok(section, "gitea_url"@) && setting_ok(section, "owner"@) && setting_ok(
        section,
        "repo"@,
    ) && setting_ok(section, "token"@) {
        Some(
            ConfigView {
                project_path: None,
                gitea_url: setting(section, "gitea_url"@),
                owner: setting(section, "owner"@),
                repo: setting(section, "repo"@),
                token: setting(section, "token"@),
            },
        )
    } else {
        None
    }
}

/// The settings of the table `name` of a document: nothing when the
/// document has no such table, `None` when it is malformed.
pub open spec fn named_section(doc: Map<Seq<char>, TomlItem>, name: Seq<char>) -> Option<
    ConfigView,
> {
    if !doc.contains_key(name) {
        Some(ConfigView::empty())
    } else {
        match doc[name] {
            TomlItem::Table(section) => section_config(section),
            _ => None,
        }
    }
}

/// The settings that one configuration document gives `project`: its own
/// table over the `[all]` table. `None` when either table is malformed, in
/// which case the file is passed over.
pub open spec fn file_config(doc: Map<Seq<char>, TomlItem>, project: Seq<char>) -> Option<ConfigView> {
    match (named_section(doc, project), named_section(doc, "all"@)) {
        (Some(own), Some(all)) => Some(
            all.merge(
                if doc.contains_key(project) {
                    own.with_project_path(project)
                } else {
                    own
                },
            ),
        ),
        _ => None,
    }
}

/// The settings that the text of one file gives `project`; `None` when the
/// text is not TOML or is malformed.
pub open spec fn text_config(text: Seq<char>, project: Seq<char>) -> Option<ConfigView> {
    match toml_document(text) {
        Some(doc) => file_config(doc, project),
        None => None,
    }
}

/// The settings of a list of file texts in priority order: every setting
/// comes from the first usable file that has it.
pub open spec fn layered_config(texts: Seq<Seq<char>>, project: Seq<char>) -> ConfigView
    decreases texts.len(),
{
    if texts.len() == 0 {
        ConfigView::empty()
    } else {
        let earlier = layered_config(texts.drop_last(), project);
        match text_config(texts.last(), project) {
            Some(c) => c.merge(earlier),
            None => earlier,
        }
    }
}

fn prefer_some(preferred: Option<String>, fallback: Option<String>) -> (r: Option<String>)
    ensures
        opt_view(r) == prefer(opt_view(preferred), opt_view(fallback)),
{
    match preferred {
        Some(p) => Some(p),
        None => fallback,
    }
}

impl PartialConfig {
    /// Sets the project path.
    pub fn project_path(self, path: &str) -> (r: Self)
        ensures
            r@ == self@.with_project_path(path@),
    {
        PartialConfig { project_path: Some(path.to_owned()), ..self }
    }

    /// Merges two configurations: every setting present in `other` replaces
    /// that of `self`, even when `self` has one.
    pub fn merge(self, other: Self) -> (r: Self)
        ensures
            r@ == self@.merge(other@),
    {
        PartialConfig {
            project_path: prefer_some(other.project_path, self.project_path),
            gitea_url: prefer_some(other.gitea_url, self.gitea_url),
            owner: prefer_some(other.owner, self.owner),
            repo: prefer_some(other.repo, self.repo),
            token: prefer_some(other.token, self.token),
        }
    }
}


/// Looks up the table `table_name` inside `outer`.
pub fn get_table<'a>(outer: &'a toml::Table, table_name: &str) -> (r: Result<&'a toml::Table>)
    ensures
        r is Ok <==> table_contents(*outer).contains_key(table_name@)
            && table_contents(*outer)[table_name@] is Table,
        r matches Ok(t) ==> table_contents(*outer)[table_name@] == TomlItem::Table(
            table_contents(*t),
        ),
        r matches Err(e) ==> e == if table_contents(*outer).contains_key(table_name@) {
            Error::BadFormat
        } else {
            Error::NoSuchTable
        },
{
    match table_entry(outer, table_name) {
        Entry::Missing => Err(Error::NoSuchTable),
        Entry::Table(t) => Ok(t),
        Entry::Text(_) => Err(Error::BadFormat),
        Entry::Other => Err(Error::BadFormat),
    }
}

/// Gets the string property `property` of `outer`, or says why it could not.
pub fn get_property<'a>(outer: &'a toml::Table, property: &str) -> (r: Result<&'a String>)
    ensures
        r is Ok <==> table_contents(*outer).contains_key(property@)
            && table_contents(*outer)[property@] is Text,
        r matches Ok(s) ==> table_contents(*outer)[property@] == TomlItem::Text(s@),
        r matches Err(e) ==> e == if table_contents(*outer).contains_key(property@) {
            Error::BadFormat
        } else {
            Error::NoSuchProperty
        },
{
    match table_entry(outer, property) {
        Entry::Missing => Err(Error::NoSuchProperty),
        Entry::Text(s) => Ok(s),
        Entry::Table(_) => Err(Error::BadFormat),
        Entry::Other => Err(Error::BadFormat),
    }
}

pub open spec fn opt_ref_view(o: Option<&String>) -> Option<Seq<char>> {
    match o {
        Some(s) => Some(s@),
        None => None,
    }
}

/// Like [`get_property`], but an absent property is `Ok(None)` rather than
/// an error: some properties may be left out.
pub fn get_maybe_property<'a>(outer: &'a toml::Table, property: &str) -> (r: Result<
    Option<&'a String>,
>)
    ensures
        r is Ok <==> setting_ok(table_contents(*outer), property@),
        r matches Ok(o) ==> opt_ref_view(o) == setting(table_contents(*outer), property@),
        r matches Err(e) ==> e == Error::BadFormat,
{
    let maybe_prop = get_property(outer, property);
    match maybe_prop {
        Ok(value) => Ok(Some(value)),
        Err(e) => {
            if let Error::NoSuchProperty = e {
                Ok(None)
            } else {
                Err(e)
            }
        },
    }
}

fn cloned(o: Option<&String>) -> (r: Option<String>)
    ensures
        opt_view(r) == opt_ref_view(o),
{
    match o {
        Some(s) => Some(s.clone()),
        None => None,
    }
}

impl PartialConfig {
    /// Reads the settings of one table. The project path is left unset: the
    /// table's name is not known here.
    pub fn try_from(value: &toml::Table) -> (r: Result<Self>)
        ensures
            r is Ok <==> section_config(table_contents(*value)) is Some,
            r matches Ok(c) ==> section_config(table_contents(*value)) == Some(c@),
            r matches Err(e) ==> e == Error::BadFormat,
    {
        let gitea_url = cloned(get_maybe_property(value, "gitea_url")?);
        let owner = cloned(get_maybe_property(value, "owner")?);
        let repo = cloned(get_maybe_property(value, "repo")?);
        let token = cloned(get_maybe_property(value, "token")?);
        Ok(PartialConfig { project_path: None, gitea_url, owner, repo, token })
    }
}

/// The settings of the table `name` of `doc`: empty when there is no such
/// table.
fn section_settings(doc: &toml::Table, name: &str) -> (r: Result<PartialConfig>)
    ensures
        r is Ok <==> named_section(table_contents(*doc), name@) is Some,
        r matches Ok(c) ==> named_section(table_contents(*doc), name@) == Some(c@),
        r matches Err(e) ==> e == Error::BadFormat,
{
    match get_table(doc, name) {
        Ok(table) => PartialConfig::try_from(table),
        Err(Error::NoSuchTable) => Ok(PartialConfig::default()),
        Err(e) => Err(e),
    }
}

/// The settings that one parsed configuration file gives `project`: its
/// own table, over the `[all]` table. Either table may be absent; when one
/// is malformed the result is `Err(BadFormat)`.
pub fn config_from_table(cfg_table: &toml::Table, project: &str) -> (r: Result<PartialConfig>)
    ensures
        r is Ok <==> file_config(table_contents(*cfg_table), project@) is Some,
        r matches Ok(c) ==> file_config(table_contents(*cfg_table), project@) == Some(c@),
        r matches Err(e) ==> e == Error::BadFormat,
{
    let own = section_settings(cfg_table, project)?;
    let all = section_settings(cfg_table, "all")?;
    let own = if let Entry::Missing = table_entry(cfg_table, project) {
        own
    } else {
        own.project_path(project)
    };
    Ok(all.merge(own))
}

/// Gathers the settings of `project` from the texts of the configuration
/// files that could be read, in priority order (see [`default_paths`]).
/// A text that is not TOML, or whose tables are malformed, is passed over;
/// a setting missing from one file falls back to the files after it.
pub fn get_config(project: &str, file_texts: &Vec<String>) -> (r: Result<PartialConfig>)
    ensures
        r is Ok,
        r matches Ok(c) ==> c@ == layered_config(file_texts.deep_view(), project@),
{
    let ghost texts = file_texts.deep_view();
    let mut acc = PartialConfig::default();
    let mut i: usize = 0;
    while i < file_texts.len()
        invariant
            i <= file_texts.len(),
            texts == file_texts.deep_view(),
            acc@ == layered_config(texts.take(i as int), project@),
        decreases file_texts.len() - i,
    {
        proof {
            assert(texts.take(i + 1).drop_last() =~= texts.take(i as int));
            assert(texts.take(i + 1).last() == file_texts[i as int]@);
        }
        if let Some(table) = parse_document(file_texts[i].as_str()) {
            if let Ok(file) = config_from_table(&table, project) {
                acc = file.merge(acc);
            }
        }
        i = i + 1;
    }
    proof {
        assert(texts.take(i as int) =~= texts);
    }
    Ok(acc)
}


/// The path of the configuration file in the (non-empty) directory `dir`,
/// joined as `PathBuf::push` joins: no separator is added after a directory
/// that already ends in `/`.
pub open spec fn config_file_path(dir: Seq<char>) -> Seq<char>
    recommends
        dir.len() > 0,
{
    if dir.last() == '/' {
        dir + "gt-tool.toml"@
    } else {
        dir + "/"@ + "gt-tool.toml"@
    }
}

/// The pieces that are not empty, in order.
pub open spec fn nonempty_pieces(pieces: Seq<Seq<char>>) -> Seq<Seq<char>>
    decreases pieces.len(),
{
    if pieces.len() == 0 {
        Seq::empty()
    } else {
        let earlier = nonempty_pieces(pieces.drop_last());
        if pieces.last().len() > 0 {
            earlier.push(pieces.last())
        } else {
            earlier
        }
    }
}

/// The directories searched for configuration, most specific first: each
/// directory listed in `XDG_CONFIG_DIRS` (split at `:`, empty entries left
/// out), then `/etc`.
pub open spec fn search_dirs(xdg_config_dirs: Seq<char>) -> Seq<Seq<char>> {
    nonempty_pieces(split_on(xdg_config_dirs, ':')).push("/etc"@)
}

fn file_in_dir(dir: &str) -> (r: String)
    requires
        dir@.len() > 0,
    ensures
        r@ == config_file_path(dir@),
{
    let n = dir.unicode_len();
    if dir.get_char(n - 1) == '/' {
        let mut path = dir.to_owned();
        path.append("gt-tool.toml");
        path
    } else {
        let mut path = dir.to_owned();
        path.append("/");
        path.append("gt-tool.toml");
        path
    }
}

/// The default (Linux) search list of configuration files, given the value
/// of the environment variable `XDG_CONFIG_DIRS` (empty when it is unset):
/// a file named `gt-tool.toml` in each directory listed there, in order,
/// then `/etc/gt-tool.toml`. User-specific settings come first,
/// machine-wide ones last.
pub fn default_paths(xdg_config_dirs: &str) -> (r: Vec<String>)
    ensures
        r.deep_view() == search_dirs(xdg_config_dirs@).map_values(
            |d: Seq<char>| config_file_path(d),
        ),
{
    let dirs = split_at_char(xdg_config_dirs, ':');
    let ghost dirs_view = dirs.deep_view();
    let mut paths: Vec<String> = Vec::new();
    let mut i: usize = 0;
    while i < dirs.len()
        invariant
            i <= dirs.len(),
            dirs_view == dirs.deep_view(),
            paths.deep_view() =~= nonempty_pieces(dirs_view.take(i as int)).map_values(
                |d: Seq<char>| config_file_path(d),
            ),
        decreases dirs.len() - i,
    {
        proof {
            assert(dirs_view.take(i + 1).drop_last() =~= dirs_view.take(i as int));
            assert(dirs_view.take(i + 1).last() == dirs_view[i as int]);
        }
        if dirs[i].as_str().unicode_len() > 0 {
            let path = file_in_dir(dirs[i].as_str());
            let ghost before = paths.deep_view();
            paths.push(path);
            proof {
                assert(paths.deep_view() =~= before.push(path@));
            }
        }
        i = i + 1;
    }
    proof {
        assert(dirs_view.take(i as int) =~= dirs_view);
    }
    proof {
        reveal_strlit("/etc");
    }
    let etc = file_in_dir("/etc");
    let ghost before = paths.deep_view();
    paths.push(etc);
    proof {
        assert(paths.deep_view() =~= before.push(etc@));
    }
    paths
}


/// Merging is associative: settings combined in stages come out the same
/// however the stages are grouped.
pub proof fn lemma_merge_associative(a: ConfigView, b: ConfigView, c: ConfigView)
    ensures
        a.merge(b).merge(c) == a.merge(b.merge(c)),
{
}

/// The empty configuration changes nothing, merged on either side.
pub proof fn lemma_merge_empty(a: ConfigView)
    ensures
        ConfigView::empty().merge(a) == a,
        a.merge(ConfigView::empty()) == a,
{
}

/// Merging a configuration with itself gives it back.
pub proof fn lemma_merge_idempotent(a: ConfigView)
    ensures
        a.merge(a) == a,
{
}

/// Files earlier in the search order take precedence: the settings of
/// `first + rest` are those of `first`, falling back to those of `rest`.
pub proof fn lemma_earlier_files_preferred(
    first: Seq<Seq<char>>,
    rest: Seq<Seq<char>>,
    project: Seq<char>,
)
    ensures
        layered_config(first + rest, project) == layered_config(rest, project).merge(
            layered_config(first, project),
        ),
    decreases rest.len(),
{
    if rest.len() == 0 {
        assert(first + rest =~= first);
        lemma_merge_empty(layered_config(first, project));
    } else {
        lemma_earlier_files_preferred(first, rest.drop_last(), project);
        assert((first + rest).drop_last() =~= first + rest.drop_last());
        assert((first + rest).last() == rest.last());
        if let Some(c) = text_config(rest.last(), project) {
            lemma_merge_associative(
                c,
                layered_config(rest.drop_last(), project),
                layered_config(first, project),
            );
        }
    }
}

/// A file that is not TOML, or whose tables are malformed, is passed over
/// wherever it stands in the search order.
pub proof fn lemma_unusable_file_skipped(
    first: Seq<Seq<char>>,
    text: Seq<char>,
    rest: Seq<Seq<char>>,
    project: Seq<char>,
)
    requires
        text_config(text, project) is None,
    ensures
        layered_config(first + seq![text] + rest, project) == layered_config(first + rest, project),
{
    lemma_earlier_files_preferred(first + seq![text], rest, project);
    lemma_earlier_files_preferred(first, rest, project);
    assert((first + seq![text]).drop_last() =~= first);
}

/// The project's own table is preferred over `[all]`: each setting of a
/// usable file is the project's when its table gives one, else that of
/// `[all]`; the project path is recorded when the project has a table.
pub proof fn lemma_project_table_preferred(doc: Map<Seq<char>, TomlItem>, project: Seq<char>)
    requires
        file_config(doc, project) is Some,
    ensures
        ({
            let c = file_config(doc, project)->0;
            let own = named_section(doc, project)->0;
            let all = named_section(doc, "all"@)->0;
            &&& c.gitea_url == prefer(own.gitea_url, all.gitea_url)
            &&& c.owner == prefer(own.owner, all.owner)
            &&& c.repo == prefer(own.repo, all.repo)
            &&& c.token == prefer(own.token, all.token)
            &&& c.project_path == if doc.contains_key(project) {
                Some(project)
            } else {
                None::<Seq<char>>
            }
        }),
{
}

/// Keys other than the four settings are ignored within a table.
pub proof fn lemma_unknown_setting_ignored(
    section: Map<Seq<char>, TomlItem>,
    key: Seq<char>,
    item: TomlItem,
)
    requires
        key != "gitea_url"@,
        key != "owner"@,
        key != "repo"@,
        key != "token"@,
    ensures
        section_config(section.insert(key, item)) == section_config(section),
{
    let s2 = section.insert(key, item);
    assert(setting(s2, "gitea_url"@) == setting(section, "gitea_url"@));
    assert(setting(s2, "owner"@) == setting(section, "owner"@));
    assert(setting(s2, "repo"@) == setting(section, "repo"@));
    assert(setting(s2, "token"@) == setting(section, "token"@));
}

/// Tables other than the project's and `[all]` are ignored.
pub proof fn lemma_other_tables_ignored(
    doc: Map<Seq<char>, TomlItem>,
    project: Seq<char>,
    name: Seq<char>,
    item: TomlItem,
)
    requires
        name != project,
        name != "all"@,
    ensures
        file_config(doc.insert(name, item), project) == file_config(doc, project),
{
    let d2 = doc.insert(name, item);
    assert(named_section(d2, project) == named_section(doc, project));
    assert(named_section(d2, "all"@) == named_section(doc, "all"@));
}

/// A usable file's settings come from the project's own table: each of the
/// four keys that the project's table sets to a string is taken from there,
/// whatever `[all]` says, and the project path is recorded.
pub proof fn lemma_own_table_settings_used(
    doc: Map<Seq<char>, TomlItem>,
    project: Seq<char>,
    own: Map<Seq<char>, TomlItem>,
    t: Seq<char>,
)
    requires
        doc.contains_key(project),
        doc[project] == TomlItem::Table(own),
        file_config(doc, project) is Some,
    ensures
        file_config(doc, project)->0.project_path == Some(project),
        own.contains_key("gitea_url"@) && own["gitea_url"@] == TomlItem::Text(t) ==> file_config(
            doc,
            project,
        )->0.gitea_url == Some(t),
        own.contains_key("owner"@) && own["owner"@] == TomlItem::Text(t) ==> file_config(
            doc,
            project,
        )->0.owner == Some(t),
        own.contains_key("repo"@) && own["repo"@] == TomlItem::Text(t) ==> file_config(
            doc,
            project,
        )->0.repo == Some(t),
        own.contains_key("token"@) && own["token"@] == TomlItem::Text(t) ==> file_config(
            doc,
            project,
        )->0.token == Some(t),
{
}

/// A key that the project's own table leaves out falls back to the string
/// that the `[all]` table gives it.
pub proof fn lemma_all_table_fallback(
    doc: Map<Seq<char>, TomlItem>,
    project: Seq<char>,
    all: Map<Seq<char>, TomlItem>,
    key: Seq<char>,
    t: Seq<char>,
)
    requires
        file_config(doc, project) is Some,
        doc.contains_key("all"@),
        doc["all"@] == TomlItem::Table(all),
        all.contains_key(key),
        all[key] == TomlItem::Text(t),
        !doc.contains_key(project) || !(doc[project] is Table)
            || !doc[project]->Table_0.contains_key(key),
    ensures
        key == "gitea_url"@ ==> file_config(doc, project)->0.gitea_url == Some(t),
        key == "owner"@ ==> file_config(doc, project)->0.owner == Some(t),
        key == "repo"@ ==> file_config(doc, project)->0.repo == Some(t),
        key == "token"@ ==> file_config(doc, project)->0.token == Some(t),
{
}

/// A key that neither table sets stays unset.
pub proof fn lemma_unset_key_stays_unset(
    doc: Map<Seq<char>, TomlItem>,
    project: Seq<char>,
    key: Seq<char>,
)
    requires
        file_config(doc, project) is Some,
        !doc.contains_key(project) || !(doc[project] is Table)
            || !doc[project]->Table_0.contains_key(key),
        !doc.contains_key("all"@) || !(doc["all"@] is Table)
            || !doc["all"@]->Table_0.contains_key(key),
    ensures
        key == "gitea_url"@ ==> file_config(doc, project)->0.gitea_url is None,
        key == "owner"@ ==> file_config(doc, project)->0.owner is None,
        key == "repo"@ ==> file_config(doc, project)->0.repo is None,
        key == "token"@ ==> file_config(doc, project)->0.token is None,
{
}

/// A file is used, not passed over, when each of the project's table and
/// `[all]` is absent or a table whose four settings are absent or strings.
pub proof fn lemma_well_formed_file_used(doc: Map<Seq<char>, TomlItem>, project: Seq<char>)
    requires
        forall|name: Seq<char>|
            (name == project || name == "all"@) && #[trigger] doc.contains_key(name) ==> {
                &&& doc[name] is Table
                &&& forall|key: Seq<char>|
                    (key == "gitea_url"@ || key == "owner"@ || key == "repo"@ || key == "token"@)
                        && #[trigger] doc[name]->Table_0.contains_key(key)
                        ==> doc[name]->Table_0[key] is Text
            },
    ensures
        file_config(doc, project) is Some,
{
    if doc.contains_key(project) {
        let own = doc[project]->Table_0;
        assert(own.contains_key("gitea_url"@) ==> own["gitea_url"@] is Text);
        assert(own.contains_key("owner"@) ==> own["owner"@] is Text);
        assert(own.contains_key("repo"@) ==> own["repo"@] is Text);
        assert(own.contains_key("token"@) ==> own["token"@] is Text);
    }
    if doc.contains_key("all"@) {
        let all = doc["all"@]->Table_0;
        assert(all.contains_key("gitea_url"@) ==> all["gitea_url"@] is Text);
        assert(all.contains_key("owner"@) ==> all["owner"@] is Text);
        assert(all.contains_key("repo"@) ==> all["repo"@] is Text);
        assert(all.contains_key("token"@) ==> all["token"@] is Text);
    }
}

/// With a single file, the settings are exactly that file's when it is
/// TOML and usable, and nothing otherwise.
pub proof fn lemma_single_file(text: Seq<char>, project: Seq<char>)
    ensures
        toml_document(text) is Some && file_config(toml_document(text)->0, project) is Some
            ==> layered_config(seq![text], project) == file_config(
            toml_document(text)->0,
            project,
        )->0,
        toml_document(text) is None ==> layered_config(seq![text], project)
            == ConfigView::empty(),
{
    let single = seq![text];
    assert(single.drop_last() =~= Seq::<Seq<char>>::empty());
    assert(single.last() == text);
    assert(layered_config(single.drop_last(), project) == ConfigView::empty());
    if let Some(doc) = toml_document(text) {
        if let Some(c) = file_config(doc, project) {
            assert(text_config(text, project) == Some(c));
            assert(layered_config(single, project) == c.merge(ConfigView::empty()));
            lemma_merge_empty(c);
        }
    }
}

/// Exactly the non-empty pieces are kept, in order: none is dropped and no
/// empty one is kept.
pub proof fn lemma_nonempty_pieces_filter(pieces: Seq<Seq<char>>)
    ensures
        nonempty_pieces(pieces) == pieces.filter(|p: Seq<char>| p.len() > 0),
    decreases pieces.len(),
{
    reveal(Seq::filter);
    if pieces.len() > 0 {
        lemma_nonempty_pieces_filter(pieces.drop_last());
    }
}

/// Every directory listed in `XDG_CONFIG_DIRS` is searched, in order, before
/// `/etc`, and nothing else is: the search list is the non-empty `:`-pieces
/// of the variable followed by `/etc`.
pub proof fn lemma_search_dirs_are_the_listed_dirs(xdg_config_dirs: Seq<char>)
    ensures
        search_dirs(xdg_config_dirs) == split_on(xdg_config_dirs, ':').filter(
            |p: Seq<char>| p.len() > 0,
        ).push("/etc"@),
{
    lemma_nonempty_pieces_filter(split_on(xdg_config_dirs, ':'));
}

/// In a merge, each setting that the right-hand side holds wins, and each
/// that it lacks is kept from the left-hand side.
pub proof fn lemma_merge_right_wins(a: ConfigView, b: ConfigView)
    ensures
        b.project_path is Some ==> a.merge(b).project_path == b.project_path,
        b.project_path is None ==> a.merge(b).project_path == a.project_path,
        b.gitea_url is Some ==> a.merge(b).gitea_url == b.gitea_url,
        b.gitea_url is None ==> a.merge(b).gitea_url == a.gitea_url,
        b.owner is Some ==> a.merge(b).owner == b.owner,
        b.owner is None ==> a.merge(b).owner == a.owner,
        b.repo is Some ==> a.merge(b).repo == b.repo,
        b.repo is None ==> a.merge(b).repo == a.repo,
        b.token is Some ==> a.merge(b).token == b.token,
        b.token is None ==> a.merge(b).token == a.token,
{
}

/// A file whose project table or `[all]` table gives one of the four
/// settings something other than a string, or whose entry for either is
/// not a table, is passed over.
pub proof fn lemma_malformed_file_skipped(
    doc: Map<Seq<char>, TomlItem>,
    project: Seq<char>,
    name: Seq<char>,
    key: Seq<char>,
)
    requires
        name == project || name == "all"@,
        key == "gitea_url"@ || key == "owner"@ || key == "repo"@ || key == "token"@,
        doc.contains_key(name),
        !(doc[name] is Table) || (doc[name]->Table_0.contains_key(key)
            && !(doc[name]->Table_0[key] is Text)),
    ensures
        file_config(doc, project) is None,
{
}

/// The configuration file of a (non-empty) directory is the directory,
/// then exactly one `/` (none added when the directory already ends in
/// one), then `gt-tool.toml`.
pub proof fn lemma_config_file_path_shape(dir: Seq<char>)
    requires
        dir.len() > 0,
    ensures
        ({
            let path = config_file_path(dir);
            let n = dir.len() as int;
            let sep = if dir.last() == '/' { 0int } else { 1int };
            &&& path.len() == n + sep + 12
            &&& path.subrange(0, n) == dir
            &&& path[n + sep - 1] == '/'
            &&& path.subrange(n + sep, n + sep + 12) == seq![
                'g', 't', '-', 't', 'o', 'o', 'l', '.', 't', 'o', 'm', 'l',
            ]
        }),
{
    reveal_strlit("gt-tool.toml");
    reveal_strlit("/");
    let path = config_file_path(dir);
    let n = dir.len() as int;
    if dir.last() == '/' {
        assert(path.subrange(0, n) =~= dir);
        assert(path.subrange(n, n + 12) =~= "gt-tool.toml"@);
    } else {
        assert(path.subrange(0, n) =~= dir);
        assert(path.subrange(n + 1, n + 13) =~= "gt-tool.toml"@);
    }
}

} // verus!
