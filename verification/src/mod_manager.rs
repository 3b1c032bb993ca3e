//! The list of installed mods of the current game and the records it is made of.

use std::collections::HashMap;
use vstd::prelude::*;

use crate::conflicts::{
    conflict_table,
    conflicts_for,
    details_of,
    keys_distinct,
    lemma_add_conflicts_distinct,
};
use crate::dedup::{dedup_prefix, deduplicated, lemma_dedup_prefix_len, superseded};
use crate::installation::{
    deleted_files,
    failed_files,
    outcomes_view,
    cyberpunk_install_path,
    data_install_path,
    with_file_name,
    database_file,
    database_save_message,
    install_dirs,
    install_name,
    install_path,
    install_version,
    join_all,
    legacy_migrated,
    legacy_migrated_all,
};
use crate::profiles::{
    ImportDecision,
    entry_of,
    exported,
    files_all_present,
    import_decisions,
    installed_with_ids,
    lemma_all_present,
    lemma_decisions_len,
    lemma_newly_registered_ids,
    manager_version,
    missing_files,
    newly_registered,
    picked,
    present_files,
    profile_format_version,
    registered_as,
    registered_before,
};
use crate::external::{
    current_timestamp,
    is_hyphenated_uuid,
    file_name_of,
    join_path,
    new_mod_id,
    path_file_name,
    to_lowercase,
};
use crate::game_definitions::{game_with_id, get_game_by_id, supported_games};
use crate::text::{concat2, contains_text, ends_with, has_suffix, owned, same_text, starts_with, with_forward_slashes};

verus! {

/// What the library records of a file that an installed mod took over from another mod.
#[derive(Debug)]
pub struct FileConflictInfo {
    /// The mod that owned the file before, if any.
    pub previous_owner: Option<String>,
    /// That mod's name, for display.
    pub previous_owner_name: Option<String>,
    /// Whether the file is an `.archive` file (these are subject to load order).
    pub is_archive: bool,
}

impl Clone for FileConflictInfo {
    fn clone(&self) -> (r: Self)
        ensures
            r == *self,
    {
        FileConflictInfo {
            previous_owner: self.previous_owner.clone(),
            previous_owner_name: self.previous_owner_name.clone(),
            is_archive: self.is_archive,
        }
    }
}

/// An installed mod as the database records it.
#[derive(Debug)]
pub struct ModInfo {
    pub id: String,
    pub name: String,
    pub version: String,
    pub author: Option<String>,
    pub description: Option<String>,
    pub mod_id: Option<String>,
    pub file_id: Option<String>,
    pub enabled: bool,
    pub files: Vec<String>,
    pub game_id: String,
    pub file_conflicts: HashMap<String, FileConflictInfo>,
    pub installed_at: Option<String>,
}

/// The mathematical value of a [`ModInfo`]: every text as its characters.
pub struct ModInfoView {
    pub id: Seq<char>,
    pub name: Seq<char>,
    pub version: Seq<char>,
    pub author: Option<Seq<char>>,
    pub description: Option<Seq<char>>,
    pub mod_id: Option<Seq<char>>,
    pub file_id: Option<Seq<char>>,
    pub enabled: bool,
    pub files: Seq<Seq<char>>,
    pub game_id: Seq<char>,
    pub file_conflicts: Map<String, FileConflictInfo>,
    pub installed_at: Option<Seq<char>>,
}

impl View for ModInfo {
    type V = ModInfoView;

    open spec fn view(&self) -> ModInfoView {
        ModInfoView {
            id: self.id@,
            name: self.name@,
            version: self.version@,
            author: self.author.deep_view(),
            description: self.description.deep_view(),
            mod_id: self.mod_id.deep_view(),
            file_id: self.file_id.deep_view(),
            enabled: self.enabled,
            files: self.files.deep_view(),
            game_id: self.game_id@,
            file_conflicts: self.file_conflicts@,
            installed_at: self.installed_at.deep_view(),
        }
    }
}

impl Clone for ModInfo {
    fn clone(&self) -> (r: Self)
        ensures
            r@ == self@,
    {
        let files = self.files.clone();
        assert(files.deep_view() =~= self.files.deep_view());
        ModInfo {
            id: self.id.clone(),
            name: self.name.clone(),
            version: self.version.clone(),
            author: self.author.clone(),
            description: self.description.clone(),
            mod_id: self.mod_id.clone(),
            file_id: self.file_id.clone(),
            enabled: self.enabled,
            files,
            game_id: self.game_id.clone(),
            file_conflicts: self.file_conflicts.clone(),
            installed_at: self.installed_at.clone(),
        }
    }
}

/// The views of a sequence of mods.
pub open spec fn mods_view(v: Seq<ModInfo>) -> Seq<ModInfoView> {
    v.map_values(|m: ModInfo| m@)
}

/// The NexusMods identity of a mod: its mod ID and file ID, where it has both.
pub open spec fn mod_key(m: ModInfoView) -> Option<(Seq<char>, Seq<char>)> {
    match (m.mod_id, m.file_id) {
        (Some(a), Some(b)) => Some((a, b)),
        _ => None,
    }
}

/// The mod has exactly this mod ID and file ID.
pub open spec fn has_ids(m: ModInfoView, mod_id: Seq<char>, file_id: Seq<char>) -> bool {
    m.mod_id == Some(mod_id) && m.file_id == Some(file_id)
}

/// The mod has this name and version.
pub open spec fn has_name_version(m: ModInfoView, name: Seq<char>, version: Seq<char>) -> bool {
    m.name == name && m.version == version
}

/// The mod has this mod ID, whatever its file ID.
pub open spec fn has_mod_id(m: ModInfoView, mod_id: Seq<char>) -> bool {
    m.mod_id == Some(mod_id)
}

/// Whether an optional text holds exactly `s`.
fn opt_is(o: &Option<String>, s: &str) -> (r: bool)
    ensures
        r == (o.deep_view() == Some(s@)),
{
    match o {
        Some(x) => same_text(x.as_str(), s),
        None => false,
    }
}

/// Whether two mods share a NexusMods identity (both IDs present and equal).
fn same_key(a: &ModInfo, b: &ModInfo) -> (r: bool)
    ensures
        r == (mod_key(a@) is Some && mod_key(a@) == mod_key(b@)),
{
    match (&a.mod_id, &a.file_id, &b.mod_id, &b.file_id) {
        (Some(am), Some(af), Some(bm), Some(bf)) => *am == *bm && *af == *bf,
        (Some(_), Some(_), _, _) => false,
        _ => false,
    }
}

/// A mod that already holds a file that another mod is about to install.
#[derive(Debug)]
pub struct ConflictDetails {
    pub mod_id: String,
    pub mod_name: String,
    pub mod_version: String,
    /// Whether the file is an `.archive` file.
    pub is_archive: bool,
}

impl Clone for ConflictDetails {
    fn clone(&self) -> (r: Self)
        ensures
            r@ == self@,
    {
        ConflictDetails {
            mod_id: self.mod_id.clone(),
            mod_name: self.mod_name.clone(),
            mod_version: self.mod_version.clone(),
            is_archive: self.is_archive,
        }
    }
}

/// The mathematical value of a [`ConflictDetails`].
pub struct ConflictDetailsView {
    pub mod_id: Seq<char>,
    pub mod_name: Seq<char>,
    pub mod_version: Seq<char>,
    pub is_archive: bool,
}

impl View for ConflictDetails {
    type V = ConflictDetailsView;

    open spec fn view(&self) -> ConflictDetailsView {
        ConflictDetailsView {
            mod_id: self.mod_id@,
            mod_name: self.mod_name@,
            mod_version: self.mod_version@,
            is_archive: self.is_archive,
        }
    }
}

/// The views of a sequence of conflict reports.
pub open spec fn details_view(v: Seq<ConflictDetails>) -> Seq<ConflictDetailsView> {
    v.map_values(|d: ConflictDetails| d@)
}

/// The views of a conflict table: each file with the reports for it.
pub open spec fn conflict_table_view(v: Seq<(String, Vec<ConflictDetails>)>) -> Seq<(Seq<char>, Seq<ConflictDetailsView>)> {
    v.map_values(|e: (String, Vec<ConflictDetails>)| (e.0@, details_view(e.1@)))
}

/// Whether `v` holds a text equal to `s`.
fn contains_string(v: &Vec<String>, s: &String) -> (r: bool)
    ensures
        r == v.deep_view().contains(s@),
{
    let mut i: usize = 0;
    while i < v.len()
        invariant
            i <= v.len(),
            forall|j: int| 0 <= j < i ==> v.deep_view()[j] != s@,
        decreases v.len() - i,
    {
        if v[i] == *s {
            assert(v.deep_view()[i as int] == s@);
            return true;
        }
        i = i + 1;
    }
    false
}

/// The reports for `file` against every mod of `mods`.
fn conflicts_for_file(mods: &Vec<ModInfo>, file: &String) -> (r: Vec<ConflictDetails>)
    ensures
        details_view(r@) == conflicts_for(mods_view(mods@), file@),
{
    let ghost s = mods_view(mods@);
    let is_archive = ends_with(file.as_str(), ".archive");
    let mut r: Vec<ConflictDetails> = Vec::new();
    let mut i: usize = 0;
    while i < mods.len()
        invariant
            s == mods_view(mods@),
            i <= mods.len(),
            is_archive == has_suffix(file@, ".archive"@),
            details_view(r@) == conflicts_for(s.take(i as int), file@),
        decreases mods.len() - i,
    {
        proof {
            assert(s.take(i + 1).drop_last() =~= s.take(i as int));
            assert(s.take(i + 1).last() == s[i as int]);
        }
        let m = &mods[i];
        if contains_string(&m.files, file) {
            r.push(ConflictDetails {
                mod_id: m.id.clone(),
                mod_name: m.name.clone(),
                mod_version: m.version.clone(),
                is_archive,
            });
            proof {
                assert(details_view(r@) =~= conflicts_for(s.take(i as int), file@).push(details_of(s[i as int], file@)));
            }
        }
        i = i + 1;
    }
    assert(s.take(mods.len() as int) =~= s);
    r
}

/// The position of the entry for `file` in a table, if it has one.
fn entry_index(table: &Vec<(String, Vec<ConflictDetails>)>, file: &String) -> (r: Option<usize>)
    ensures
        r matches Some(k) ==> k < table.len() && conflict_table_view(table@)[k as int].0 == file@,
        r is None ==> forall|k: int| 0 <= k < table.len() ==> #[trigger] conflict_table_view(table@)[k].0 != file@,
{
    let mut i: usize = 0;
    while i < table.len()
        invariant
            i <= table.len(),
            forall|k: int| 0 <= k < i ==> #[trigger] conflict_table_view(table@)[k].0 != file@,
        decreases table.len() - i,
    {
        if table[i].0 == *file {
            return Some(i);
        }
        i = i + 1;
    }
    None
}

/// One mod of an exported profile.
#[derive(Debug)]
pub struct ModProfileEntry {
    pub name: String,
    pub version: String,
    pub author: Option<String>,
    /// The NexusMods mod ID.
    pub mod_id: String,
    /// The NexusMods file ID.
    pub file_id: String,
    pub description: Option<String>,
    /// The installed files, for checking on import.
    pub files: Vec<String>,
}

/// The mathematical value of a [`ModProfileEntry`].
pub struct ModProfileEntryView {
    pub name: Seq<char>,
    pub version: Seq<char>,
    pub author: Option<Seq<char>>,
    pub mod_id: Seq<char>,
    pub file_id: Seq<char>,
    pub description: Option<Seq<char>>,
    pub files: Seq<Seq<char>>,
}

impl View for ModProfileEntry {
    type V = ModProfileEntryView;

    open spec fn view(&self) -> ModProfileEntryView {
        ModProfileEntryView {
            name: self.name@,
            version: self.version@,
            author: self.author.deep_view(),
            mod_id: self.mod_id@,
            file_id: self.file_id@,
            description: self.description.deep_view(),
            files: self.files.deep_view(),
        }
    }
}

impl Clone for ModProfileEntry {
    fn clone(&self) -> (r: Self)
        ensures
            r@ == self@,
    {
        let files = self.files.clone();
        assert(files.deep_view() =~= self.files.deep_view());
        ModProfileEntry {
            name: self.name.clone(),
            version: self.version.clone(),
            author: self.author.clone(),
            mod_id: self.mod_id.clone(),
            file_id: self.file_id.clone(),
            description: self.description.clone(),
            files,
        }
    }
}

/// The views of a sequence of profile entries.
pub open spec fn entries_view(v: Seq<ModProfileEntry>) -> Seq<ModProfileEntryView> {
    v.map_values(|e: ModProfileEntry| e@)
}

/// A list of installed mods that can be exported and imported again.
#[derive(Debug)]
pub struct ModProfile {
    /// The profile format version.
    pub version: String,
    pub created_at: String,
    /// The game's display name.
    pub game: String,
    pub mod_manager_version: String,
    pub mods: Vec<ModProfileEntry>,
}

/// The mathematical value of a [`ModProfile`].
pub struct ModProfileView {
    pub version: Seq<char>,
    pub created_at: Seq<char>,
    pub game: Seq<char>,
    pub mod_manager_version: Seq<char>,
    pub mods: Seq<ModProfileEntryView>,
}

impl View for ModProfile {
    type V = ModProfileView;

    open spec fn view(&self) -> ModProfileView {
        ModProfileView {
            version: self.version@,
            created_at: self.created_at@,
            game: self.game@,
            mod_manager_version: self.mod_manager_version@,
            mods: entries_view(self.mods@),
        }
    }
}

/// How writing a file ended.
pub enum SaveOutcome {
    /// The value could not be turned into JSON; the text says why.
    SerializeFailed(String),
    /// The file could not be written; the text says why.
    WriteFailed(String),
    /// The file was written.
    Written,
}

/// What saving the mod database reports, given how writing it ended.
pub fn database_save_result(outcome: SaveOutcome) -> (r: Result<(), String>)
    ensures
        match (r, database_save_message(outcome)) {
            (Ok(()), Ok(())) => true,
            (Err(e), Err(m)) => e@ == m,
            _ => false,
        },
{
    match outcome {
        SaveOutcome::SerializeFailed(e) => Err(concat2("Failed to serialize database: ", e.as_str())),
        SaveOutcome::WriteFailed(e) => Err(concat2("Failed to write database: ", e.as_str())),
        SaveOutcome::Written => Ok(()),
    }
}

/// The file name of the mod database of a game: `mods_<game>.json`.
pub fn database_file_name(game_id: &str) -> (r: String)
    ensures
        r@ == database_file(game_id@),
{
    let mut r = owned("mods_");
    r.append(game_id);
    r.append(".json");
    r
}

/// Records the game of every mod read from the legacy database: Cyberpunk 2077 where none
/// was recorded, the others unchanged.
pub fn migrate_legacy_mods(mods: Vec<ModInfo>) -> (r: Vec<ModInfo>)
    ensures
        mods_view(r@) == legacy_migrated_all(mods_view(mods@)),
{
    let mut mods = mods;
    let ghost s = mods_view(mods@);
    let mut i: usize = 0;
    while i < mods.len()
        invariant
            i <= mods.len(),
            s.len() == mods.len(),
            forall|k: int| 0 <= k < i ==> #[trigger] mods_view(mods@)[k] == legacy_migrated(s[k]),
            forall|k: int| i <= k < mods.len() ==> #[trigger] mods_view(mods@)[k] == s[k],
        decreases mods.len() - i,
    {
        let ghost prev = mods_view(mods@);
        assert(prev[i as int] == s[i as int]);
        if mods[i].game_id.as_str().is_empty() {
            let mut m = mods[i].clone();
            m.game_id = owned("cyberpunk2077");
            assert(m@ == legacy_migrated(s[i as int]));
            mods.set(i, m);
            assert(mods_view(mods@) =~= prev.update(i as int, legacy_migrated(s[i as int])));
        } else {
            assert(legacy_migrated(s[i as int]) == s[i as int]);
        }
        i = i + 1;
    }
    assert(mods_view(mods@) =~= legacy_migrated_all(s));
    mods
}

/// The files of `files` that are on disk and those that are not.
fn split_by_presence(files: &[String], on_disk: &[String]) -> (r: (Vec<String>, Vec<String>))
    ensures
        r.0.deep_view() == present_files(files@.map_values(|f: String| f@), on_disk@.map_values(|f: String| f@)),
        r.1.deep_view() == missing_files(files@.map_values(|f: String| f@), on_disk@.map_values(|f: String| f@)),
{
    let ghost fs = files@.map_values(|f: String| f@);
    let ghost disk = on_disk@.map_values(|f: String| f@);
    let mut present: Vec<String> = Vec::new();
    let mut missing: Vec<String> = Vec::new();
    let mut i: usize = 0;
    while i < files.len()
        invariant
            fs == files@.map_values(|f: String| f@),
            disk == on_disk@.map_values(|f: String| f@),
            i <= files.len(),
            present.deep_view() == present_files(fs.take(i as int), disk),
            missing.deep_view() == missing_files(fs.take(i as int), disk),
        decreases files.len() - i,
    {
        proof {
            assert(fs.take(i + 1).drop_last() =~= fs.take(i as int));
            assert(fs.take(i + 1).last() == fs[i as int]);
        }
        let f = &files[i];
        let mut found = false;
        let mut j: usize = 0;
        while j < on_disk.len()
            invariant
                disk == on_disk@.map_values(|f: String| f@),
                j <= on_disk.len(),
                found ==> disk.contains(f@),
                !found ==> forall|k: int| 0 <= k < j ==> disk[k] != f@,
            decreases on_disk.len() - j,
        {
            if on_disk[j] == *f {
                assert(disk[j as int] == f@);
                found = true;
            }
            j = j + 1;
        }
        let ghost pv = present.deep_view();
        let ghost mv = missing.deep_view();
        if found {
            present.push(f.clone());
            assert(present.deep_view() =~= pv.push(f@));
        } else {
            missing.push(f.clone());
            assert(missing.deep_view() =~= mv.push(f@));
        }
        i = i + 1;
    }
    assert(fs.take(files.len() as int) =~= fs);
    (present, missing)
}

/// The profile entry for a mod with both NexusMods IDs.
fn export_entry(m: &ModInfo, mod_id: &String, file_id: &String) -> (r: ModProfileEntry)
    requires
        m.mod_id == Some(*mod_id),
        m.file_id == Some(*file_id),
    ensures
        r@ == entry_of(m@),
{
    let files = m.files.clone();
    assert(files.deep_view() =~= m.files.deep_view());
    ModProfileEntry {
        name: m.name.clone(),
        version: m.version.clone(),
        author: m.author.clone(),
        mod_id: mod_id.clone(),
        file_id: file_id.clone(),
        description: m.description.clone(),
        files,
    }
}

/// The mod that registering a profile entry creates, with the given identifier, files and
/// time stamp.
pub fn register_entry(entry: &ModProfileEntry, files: Vec<String>, game_id: &str, id: String, installed_at: String) -> (r: ModInfo)
    ensures
        r@ == (ModInfoView {
            id: id@,
            name: entry@.name,
            version: entry@.version,
            author: entry@.author,
            description: entry@.description,
            mod_id: Some(entry@.mod_id),
            file_id: Some(entry@.file_id),
            enabled: true,
            files: files.deep_view(),
            game_id: game_id@,
            file_conflicts: Map::empty(),
            installed_at: Some(installed_at@),
        }),
{
    ModInfo {
        id,
        name: entry.name.clone(),
        version: entry.version.clone(),
        author: entry.author.clone(),
        description: entry.description.clone(),
        mod_id: Some(entry.mod_id.clone()),
        file_id: Some(entry.file_id.clone()),
        enabled: true,
        files,
        game_id: owned(game_id),
        file_conflicts: HashMap::new(),
        installed_at: Some(installed_at),
    }
}

/// The fields of a mod to install, as the request describes them.
#[derive(Debug)]
pub struct ModData {
    pub name: Option<String>,
    pub version: Option<String>,
    pub download_url: Option<String>,
    pub author: Option<String>,
    pub description: Option<String>,
    pub mod_id: Option<String>,
    pub file_id: Option<String>,
}

/// Where a mod is to be downloaded from; fails with "No download URL provided" when the
/// request gives no URL.
pub fn install_download_url(mod_data: &ModData) -> (r: Result<String, String>)
    ensures
        match (r, mod_data.download_url) {
            (Ok(u), Some(d)) => u@ == d@,
            (Err(e), None) => e@ == "No download URL provided"@,
            _ => false,
        },
{
    match &mod_data.download_url {
        Some(u) => Ok(u.clone()),
        None => Err(owned("No download URL provided")),
    }
}

/// The database record of a freshly installed mod, with the given identifier, installed
/// files and time stamp; it is enabled and has no recorded conflicts.
pub fn installed_mod_info(mod_data: ModData, game_id: String, files: Vec<String>, id: String, installed_at: String)
    -> (r: ModInfo)
    ensures
        r@ == (ModInfoView {
            id: id@,
            name: install_name(mod_data),
            version: install_version(mod_data),
            author: mod_data.author.deep_view(),
            description: mod_data.description.deep_view(),
            mod_id: mod_data.mod_id.deep_view(),
            file_id: mod_data.file_id.deep_view(),
            enabled: true,
            files: files.deep_view(),
            game_id: game_id@,
            file_conflicts: Map::empty(),
            installed_at: Some(installed_at@),
        }),
{
    let ModData { name, version, download_url: _, author, description, mod_id, file_id } = mod_data;
    let name = match name {
        Some(n) => n,
        None => owned("Unknown Mod"),
    };
    let version = match version {
        Some(v) => v,
        None => owned("1.0.0"),
    };
    ModInfo {
        id,
        name,
        version,
        author,
        description,
        mod_id,
        file_id,
        enabled: true,
        files,
        game_id,
        file_conflicts: HashMap::new(),
        installed_at: Some(installed_at),
    }
}

/// A warning about the load order of archive files.
#[derive(Debug)]
pub struct LoadOrderWarning {
    pub warning_type: LoadOrderWarningType,
    pub message: String,
    pub affected_archives: Vec<String>,
    pub suggestion: Option<String>,
}

/// The kinds of load-order warning.
#[derive(Debug, Clone, PartialEq, Eq, Structural)]
pub enum LoadOrderWarningType {
    MultipleBasegameArchives,
    MultiplePatchArchives,
    ConflictingMods,
}

/// The file name of `relative_path` joined onto `dir`, if the path has one.
fn join_file_name(dir: &str, relative_path: &str) -> (r: Option<String>)
    ensures
        r.deep_view() == with_file_name(dir@, relative_path@),
{
    match file_name_of(relative_path) {
        Some(f) => Some(join_path(dir, f.as_str())),
        None => None,
    }
}

/// Where a mod file is installed for a game that keeps its mods in `Data/` (see
/// [`data_install_path`]).
pub fn determine_data_install_path(game_dir: &str, relative_path: &str) -> (r: Option<String>)
    ensures
        r.deep_view() == data_install_path(game_dir@, relative_path@),
{
    let path = with_forward_slashes(relative_path);
    let p = path.as_str();
    let lower = to_lowercase(p);
    let l = lower.as_str();
    let data = join_path(game_dir, "Data");
    if starts_with(l, "data/") {
        Some(join_path(game_dir, p))
    } else if ends_with(l, ".esp") || ends_with(l, ".esm") || ends_with(l, ".esl") || ends_with(l, ".bsa")
        || ends_with(l, ".ba2") {
        join_file_name(data.as_str(), p)
    } else if ends_with(l, ".dll") && contains_text(l, "skse") {
        let skse = join_path(data.as_str(), "SKSE");
        let plugins = join_path(skse.as_str(), "Plugins");
        join_file_name(plugins.as_str(), p)
    } else if ends_with(l, ".dll") {
        join_file_name(game_dir, p)
    } else {
        Some(join_path(data.as_str(), p))
    }
}

/// Where a Cyberpunk 2077 mod file is installed (see [`cyberpunk_install_path`]).
pub fn determine_cyberpunk_install_path(game_dir: &str, relative_path: &str) -> (r: Option<String>)
    ensures
        r.deep_view() == cyberpunk_install_path(game_dir@, relative_path@),
{
    let path = with_forward_slashes(relative_path);
    let p = path.as_str();
    let lower = to_lowercase(p);
    let l = lower.as_str();
    let bin = join_path(game_dir, "bin");
    let bin_x64 = join_path(bin.as_str(), "x64");
    if starts_with(l, "mods/") {
        Some(join_path(game_dir, p))
    } else if same_text(l, "version.dll") || ends_with(l, "/version.dll") {
        join_file_name(game_dir, p)
    } else if same_text(l, "red4ext.dll") || ends_with(l, "/red4ext.dll") {
        join_file_name(bin_x64.as_str(), p)
    } else if starts_with(l, "mods/") || starts_with(l, "archive/pc/mod/") || starts_with(l, "bin/x64/")
        || starts_with(l, "r6/scripts/") || starts_with(l, "red4ext/plugins/") || starts_with(l, "engine/config/") {
        Some(join_path(game_dir, p))
    } else if ends_with(l, ".archive") {
        let archive = join_path(game_dir, "archive");
        let pc = join_path(archive.as_str(), "pc");
        let m = join_path(pc.as_str(), "mod");
        join_file_name(m.as_str(), p)
    } else if ends_with(l, ".reds") {
        let r6 = join_path(game_dir, "r6");
        let scripts = join_path(r6.as_str(), "scripts");
        join_file_name(scripts.as_str(), p)
    } else if ends_with(l, ".dll") && contains_text(l, "red4ext") {
        let red4ext = join_path(game_dir, "red4ext");
        let plugins = join_path(red4ext.as_str(), "plugins");
        join_file_name(plugins.as_str(), p)
    } else if ends_with(l, ".dll") {
        join_file_name(bin_x64.as_str(), p)
    } else {
        Some(join_path(game_dir, p))
    }
}

/// The report on removing a mod's files: the files deleted, and `<file>: <error>` for each
/// file that could not be deleted, each in the order of the files. `outcomes` tells how
/// deleting each file ended.
pub fn removal_report(files: &Vec<String>, outcomes: Vec<Result<(), String>>) -> (r: (Vec<String>, Vec<String>))
    requires
        files.len() == outcomes.len(),
    ensures
        r.0.deep_view() == deleted_files(files.deep_view(), outcomes_view(outcomes@)),
        r.1.deep_view() == failed_files(files.deep_view(), outcomes_view(outcomes@)),
{
    let ghost fs = files.deep_view();
    let ghost os = outcomes_view(outcomes@);
    let mut deleted: Vec<String> = Vec::new();
    let mut failed: Vec<String> = Vec::new();
    let mut i: usize = 0;
    while i < files.len()
        invariant
            fs == files.deep_view(),
            os == outcomes_view(outcomes@),
            files.len() == outcomes.len(),
            i <= files.len(),
            deleted.deep_view() == deleted_files(fs.take(i as int), os.take(i as int)),
            failed.deep_view() == failed_files(fs.take(i as int), os.take(i as int)),
        decreases files.len() - i,
    {
        proof {
            assert(fs.take(i + 1).drop_last() =~= fs.take(i as int));
            assert(os.take(i + 1).drop_last() =~= os.take(i as int));
            assert(fs.take(i + 1).last() == fs[i as int]);
            assert(os.take(i + 1).last() == os[i as int]);
        }
        let ghost d0 = deleted.deep_view();
        let ghost f0 = failed.deep_view();
        match &outcomes[i] {
            Ok(()) => {
                deleted.push(files[i].clone());
                assert(deleted.deep_view() =~= d0.push(fs[i as int]));
            },
            Err(e) => {
                let mut line = files[i].clone();
                line.append(": ");
                line.append(e.as_str());
                failed.push(line);
                assert(failed.deep_view() =~= f0.push(fs[i as int] + ": "@ + e@));
            },
        }
        i = i + 1;
    }
    proof {
        assert(fs.take(files.len() as int) =~= fs);
        assert(os.take(files.len() as int) =~= os);
    }
    (deleted, failed)
}

/// The mods of the current game, with the game they belong to.
pub struct ModManager {
    mods: Vec<ModInfo>,
    current_game: String,
}

/// The mathematical value of a [`ModManager`].
pub struct ModManagerView {
    pub mods: Seq<ModInfoView>,
    pub current_game: Seq<char>,
}

impl View for ModManager {
    type V = ModManagerView;

    closed spec fn view(&self) -> ModManagerView {
        ModManagerView { mods: mods_view(self.mods@), current_game: self.current_game@ }
    }
}

/// A copy of a list of mods.
fn clone_mods(v: &Vec<ModInfo>) -> (r: Vec<ModInfo>)
    ensures
        mods_view(r@) == mods_view(v@),
{
    let mut r: Vec<ModInfo> = Vec::new();
    let mut i: usize = 0;
    while i < v.len()
        invariant
            i <= v.len(),
            r.len() == i,
            mods_view(r@) == mods_view(v@).take(i as int),
        decreases v.len() - i,
    {
        let c = v[i].clone();
        assert(c@ == v@[i as int]@);
        r.push(c);
        proof {
            assert(r@[i as int]@ == v@[i as int]@);
            assert(mods_view(r@) =~= mods_view(v@).take(i + 1));
        }
        i = i + 1;
    }
    assert(mods_view(v@).take(v.len() as int) =~= mods_view(v@));
    r
}

/// Whether the mod at position `i` is replaced by a later mod with the same identity.
fn superseded_at(mods: &Vec<ModInfo>, i: usize) -> (r: bool)
    requires
        i < mods.len(),
    ensures
        r == superseded(mods_view(mods@), i as int),
{
    let n: usize = mods.len();
    let ghost s = mods_view(mods@);
    let mut j: usize = i + 1;
    while j < n
        invariant
            n == mods.len(),
            s == mods_view(mods@),
            i < j <= n,
            forall|k: int| i < k < j ==> !(mod_key(s[i as int]) is Some && #[trigger] mod_key(s[k]) == mod_key(s[i as int])),
        decreases n - j,
    {
        if same_key(&mods[i], &mods[j]) {
            assert(mod_key(s[j as int]) == mod_key(s[i as int]));
            return true;
        }
        j = j + 1;
    }
    false
}

impl ModManager {
    /// A manager for Cyberpunk 2077 holding the mods read from its database.
    pub fn new(mods: Vec<ModInfo>) -> (r: Self)
        ensures
            r@.mods == mods_view(mods@),
            r@.current_game == "cyberpunk2077"@,
    {
        Self::new_for_game("cyberpunk2077", mods)
    }

    /// A manager for a game holding the mods read from that game's database.
    pub fn new_for_game(game_id: &str, mods: Vec<ModInfo>) -> (r: Self)
        ensures
            r@.mods == mods_view(mods@),
            r@.current_game == game_id@,
    {
        ModManager { mods, current_game: owned(game_id) }
    }

    /// Whether the legacy `mods.json` must be migrated before a game's database is read: only
    /// for Cyberpunk 2077, and only while its own database does not exist yet.
    pub fn needs_legacy_migration(game_id: &str, database_exists: bool) -> (r: bool)
        ensures
            r == (game_id@ == "cyberpunk2077"@ && !database_exists),
    {
        same_text(game_id, "cyberpunk2077") && !database_exists
    }

    /// Switches to another game, holding the mods read from its database.
    pub fn switch_game(&mut self, game_id: &str, mods: Vec<ModInfo>) -> (r: Result<(), String>)
        ensures
            r is Ok,
            final(self)@.mods == mods_view(mods@),
            final(self)@.current_game == game_id@,
    {
        self.mods = mods;
        self.current_game = owned(game_id);
        Ok(())
    }

    /// Takes the first mod with this identifier out of the list and returns it, so that its
    /// files can be deleted; fails with "Mod not found" when no mod has it.
    pub fn remove_mod(&mut self, mod_id: &str) -> (r: Result<ModInfo, String>)
        ensures
            r is Ok <==> exists|i: int| 0 <= i < old(self)@.mods.len() && #[trigger] old(self)@.mods[i].id == mod_id@,
            final(self)@.current_game == old(self)@.current_game,
            match r {
                Ok(m) => exists|i: int|
                    0 <= i < old(self)@.mods.len() && old(self)@.mods[i].id == mod_id@
                    && (forall|j: int| 0 <= j < i ==> #[trigger] old(self)@.mods[j].id != mod_id@)
                    && m@ == old(self)@.mods[i]
                    && final(self)@.mods == old(self)@.mods.remove(i),
                Err(e) => e@ == "Mod not found"@ && final(self)@.mods == old(self)@.mods,
            },
    {
        let ghost s = mods_view(self.mods@);
        let mut i: usize = 0;
        while i < self.mods.len()
            invariant
                s == mods_view(self.mods@),
                s == mods_view(old(self).mods@),
                self.current_game == old(self).current_game,
                i <= self.mods.len(),
                forall|j: int| 0 <= j < i ==> #[trigger] s[j].id != mod_id@,
            decreases self.mods.len() - i,
        {
            if same_text(self.mods[i].id.as_str(), mod_id) {
                let m = self.mods.remove(i);
                proof {
                    assert(mods_view(self.mods@) =~= s.remove(i as int));
                    assert(s[i as int].id == mod_id@);
                }
                return Ok(m);
            }
            i = i + 1;
        }
        Err(owned("Mod not found"))
    }

    /// Splits files into those on disk and those missing; `on_disk` lists the files that
    /// exist. The flag tells whether none is missing.
    pub fn verify_mod_files(&self, files: &[String], on_disk: &[String]) -> (r: (bool, Vec<String>, Vec<String>))
        ensures
            r.1.deep_view() == present_files(files@.map_values(|f: String| f@), on_disk@.map_values(|f: String| f@)),
            r.2.deep_view() == missing_files(files@.map_values(|f: String| f@), on_disk@.map_values(|f: String| f@)),
            r.0 == (r.2.len() == 0),
    {
        let (present, missing) = split_by_presence(files, on_disk);
        let all_exist = missing.len() == 0;
        (all_exist, present, missing)
    }

    /// The profile that exports every mod with both NexusMods IDs, stamped with `created_at`.
    pub fn build_profile(&self, game_name: &str, created_at: String) -> (r: ModProfile)
        ensures
            r@ == (ModProfileView {
                version: profile_format_version(),
                created_at: created_at@,
                game: game_name@,
                mod_manager_version: manager_version(),
                mods: exported(self@.mods),
            }),
    {
        let ghost s = mods_view(self.mods@);
        let mut entries: Vec<ModProfileEntry> = Vec::new();
        let mut i: usize = 0;
        while i < self.mods.len()
            invariant
                s == mods_view(self.mods@),
                i <= self.mods.len(),
                entries_view(entries@) == exported(s.take(i as int)),
            decreases self.mods.len() - i,
        {
            proof {
                assert(s.take(i + 1).drop_last() =~= s.take(i as int));
                assert(s.take(i + 1).last() == s[i as int]);
            }
            let m = &self.mods[i];
            match (&m.mod_id, &m.file_id) {
                (Some(mod_id), Some(file_id)) => {
                    let e = export_entry(m, mod_id, file_id);
                    let ghost prev = entries_view(entries@);
                    entries.push(e);
                    proof {
                        assert(entries_view(entries@) =~= prev.push(entry_of(s[i as int])));
                    }
                },
                _ => {},
            }
            i = i + 1;
        }
        proof {
            assert(s.take(self.mods.len() as int) =~= s);
        }
        ModProfile {
            version: owned("1.0"),
            created_at,
            game: owned(game_name),
            mod_manager_version: owned("0.1.0"),
            mods: entries,
        }
    }

    /// Exports every mod with both NexusMods IDs as a profile stamped with the current time.
    pub fn export_profile(&self, game_name: &str) -> (r: Result<ModProfile, String>)
        ensures
            r matches Ok(p) && p@.version == profile_format_version() && p@.game == game_name@
                && p@.mod_manager_version == manager_version() && p@.mods == exported(self@.mods)
                && has_suffix(p@.created_at, "+00:00"@),
    {
        let created_at = current_timestamp();
        Ok(self.build_profile(game_name, created_at))
    }

    /// Imports a profile: an entry whose mod is installed already (or was registered by an
    /// earlier entry) is reported as registered; an entry whose files are all on disk (and
    /// that has some) is registered as a new mod without downloading, with a fresh identifier
    /// and the current time; every other entry is returned for download. `on_disk` lists the
    /// files that exist. Returns the registered entries and those to download.
    pub fn import_profile(&mut self, profile: ModProfile, game_id: String, on_disk: &[String])
        -> (r: (Vec<ModProfileEntry>, Vec<ModProfileEntry>))
        ensures
            ({
                let ds = import_decisions(old(self)@.mods, profile@.mods, on_disk@.map_values(|f: String| f@));
                let added = newly_registered(profile@.mods, ds);
                &&& entries_view(r.0@) == picked(profile@.mods, ds, false)
                &&& entries_view(r.1@) == picked(profile@.mods, ds, true)
                &&& final(self)@.mods.len() == old(self)@.mods.len() + added.len()
                &&& final(self)@.mods.take(old(self)@.mods.len() as int) == old(self)@.mods
                &&& forall|k: int| 0 <= k < added.len() ==> registered_as(
                    #[trigger] final(self)@.mods[old(self)@.mods.len() + k], added[k], game_id@)
            }),
            final(self)@.current_game == old(self)@.current_game,
    {
        let ghost old_mods = mods_view(self.mods@);
        let ghost entries = profile@.mods;
        let ghost disk = on_disk@.map_values(|f: String| f@);
        let mut registered: Vec<ModProfileEntry> = Vec::new();
        let mut to_download: Vec<ModProfileEntry> = Vec::new();
        let mut i: usize = 0;
        while i < profile.mods.len()
            invariant
                old_mods == mods_view(old(self).mods@),
                entries == profile@.mods,
                entries.len() == profile.mods.len(),
                disk == on_disk@.map_values(|f: String| f@),
                self.current_game == old(self).current_game,
                i <= profile.mods.len(),
                ({
                    let ds = import_decisions(old_mods, entries.take(i as int), disk);
                    let added = newly_registered(entries.take(i as int), ds);
                    &&& entries_view(registered@) == picked(entries.take(i as int), ds, false)
                    &&& entries_view(to_download@) == picked(entries.take(i as int), ds, true)
                    &&& mods_view(self.mods@).len() == old_mods.len() + added.len()
                    &&& mods_view(self.mods@).take(old_mods.len() as int) == old_mods
                    &&& forall|k: int| 0 <= k < added.len() ==> registered_as(
                        #[trigger] mods_view(self.mods@)[old_mods.len() + k], added[k], game_id@)
                }),
            decreases profile.mods.len() - i,
        {
            let ghost pre = entries.take(i as int);
            let ghost post = entries.take(i + 1);
            let ghost ds = import_decisions(old_mods, pre, disk);
            let ghost added = newly_registered(pre, ds);
            let ghost cur = mods_view(self.mods@);
            let ghost e = entries[i as int];
            proof {
                assert(post.drop_last() =~= pre);
                assert(post.last() == e);
                lemma_decisions_len(old_mods, pre, disk);
                lemma_newly_registered_ids(pre, ds, e);
                assert(pre.len() == i);
            }
            let entry = &profile.mods[i];
            let found = self.find_existing_mod(entry.mod_id.as_str(), entry.file_id.as_str()).is_some();
            proof {
                // A mod with the entry's IDs is installed exactly when it was before the
                // import or an earlier entry registered it.
                if found {
                    let j: int = choose|j: int| 0 <= j < cur.len() && #[trigger] has_ids(cur[j], e.mod_id, e.file_id);
                    if j < old_mods.len() {
                        assert(cur.take(old_mods.len() as int)[j] == cur[j]);
                        assert(installed_with_ids(old_mods, e.mod_id, e.file_id));
                    } else {
                        let k: int = j - old_mods.len();
                        assert(registered_as(cur[old_mods.len() + k], added[k], game_id@));
                        assert(added[k].mod_id == e.mod_id && added[k].file_id == e.file_id);
                    }
                } else {
                    if installed_with_ids(old_mods, e.mod_id, e.file_id) {
                        let j: int = choose|j: int| 0 <= j < old_mods.len() && #[trigger] has_ids(old_mods[j], e.mod_id, e.file_id);
                        assert(cur.take(old_mods.len() as int)[j] == cur[j]);
                        assert(has_ids(cur[j], e.mod_id, e.file_id));
                    }
                    if registered_before(pre, ds, i as int, e) {
                        let k: int = choose|k: int| 0 <= k < added.len() && #[trigger] added[k].mod_id == e.mod_id && added[k].file_id == e.file_id;
                        assert(registered_as(cur[old_mods.len() + k], added[k], game_id@));
                        assert(has_ids(cur[old_mods.len() + k], e.mod_id, e.file_id));
                    }
                }
            }
            let ghost reg_before = entries_view(registered@);
            let ghost dl_before = entries_view(to_download@);
            if found {
                let c = entry.clone();
                registered.push(c);
                proof {
                    let d = ImportDecision::AlreadyInstalled;
                    assert(import_decisions(old_mods, post, disk) == ds.push(d));
                    assert(ds.push(d).drop_last() =~= ds);
                    assert(entries_view(registered@) =~= reg_before.push(e));
                }
            } else {
                let (all_exist, present, _missing) = self.verify_mod_files(entry.files.as_slice(), on_disk);
                proof {
                    assert(entry.files@.map_values(|f: String| f@) =~= e.files);
                    lemma_all_present(e.files, disk);
                }
                if all_exist && present.len() > 0 {
                    let id = new_mod_id();
                    let installed_at = current_timestamp();
                    let m = register_entry(entry, present, game_id.as_str(), id, installed_at);
                    assert(registered_as(m@, e, game_id@));
                    self.mods.push(m);
                    let c = entry.clone();
                    registered.push(c);
                    proof {
                        let d = ImportDecision::Register;
                        assert(files_all_present(e, disk));
                        assert(import_decisions(old_mods, post, disk) == ds.push(d));
                        assert(ds.push(d).drop_last() =~= ds);
                        assert(newly_registered(post, ds.push(d)) == added.push(e));
                        assert(mods_view(self.mods@) =~= cur.push(m@));
                        assert(mods_view(self.mods@).take(old_mods.len() as int) =~= cur.take(old_mods.len() as int));
                        assert(entries_view(registered@) =~= reg_before.push(e));
                        assert forall|k: int| 0 <= k < added.len() + 1 implies registered_as(
                            #[trigger] mods_view(self.mods@)[old_mods.len() + k], added.push(e)[k], game_id@) by {
                            if k < added.len() {
                                assert(mods_view(self.mods@)[old_mods.len() + k] == cur[old_mods.len() + k]);
                            }
                        }
                    }
                } else {
                    let c = entry.clone();
                    to_download.push(c);
                    proof {
                        let d = ImportDecision::Download;
                        assert(!files_all_present(e, disk));
                        assert(import_decisions(old_mods, post, disk) == ds.push(d));
                        assert(ds.push(d).drop_last() =~= ds);
                        assert(entries_view(to_download@) =~= dl_before.push(e));
                    }
                }
            }
            i = i + 1;
        }
        proof {
            assert(entries.take(profile.mods.len() as int) =~= entries);
        }
        (registered, to_download)
    }

    /// [`Self::determine_install_path`] for any path: `None` when the path has no file name
    /// (where that function cannot judge), its result otherwise.
    pub fn determine_install_path_checked(&self, game_dir: &str, relative_path: &str) -> (r: Option<Result<String, String>>)
        ensures
            path_file_name(relative_path@) is None ==> r is None,
            path_file_name(relative_path@) is Some ==> (r matches Some(Ok(p)) && p@ == install_path(game_dir@, relative_path@)),
    {
        match file_name_of(relative_path) {
            Some(_) => Some(self.determine_install_path(game_dir, relative_path)),
            None => None,
        }
    }

    /// Where a mod file found at `relative_path` in an extracted archive is installed below
    /// `game_dir` (see [`install_path`]). The path must have a file name.
    pub fn determine_install_path(&self, game_dir: &str, relative_path: &str) -> (r: Result<String, String>)
        requires
            path_file_name(relative_path@) is Some,
        ensures
            r matches Ok(p) && p@ == install_path(game_dir@, relative_path@),
    {
        let lower = to_lowercase(relative_path);
        let file_name = file_name_of(relative_path).unwrap();
        let l = lower.as_str();
        let ghost dirs = install_dirs(lower@);
        let base = if contains_text(l, "archive") || contains_text(l, "archives") {
            let a = join_path(game_dir, "archive");
            let b = join_path(a.as_str(), "pc");
            join_path(b.as_str(), "mod")
        } else if contains_text(l, "bin") {
            let a = join_path(game_dir, "bin");
            join_path(a.as_str(), "x64")
        } else if contains_text(l, "r6") {
            let a = join_path(game_dir, "r6");
            join_path(a.as_str(), "scripts")
        } else {
            let a = join_path(game_dir, "archive");
            let b = join_path(a.as_str(), "pc");
            join_path(b.as_str(), "mod")
        };
        proof {
            assert(base@ == join_all(game_dir@, dirs)) by {
                reveal_with_fuel(join_all, 4);
            }
            assert(dirs.push(file_name@).drop_last() =~= dirs);
        }
        Ok(join_path(base.as_str(), file_name.as_str()))
    }

    /// Where a mod file of the current game is installed: fails with "Unknown game: <id>"
    /// when the current game is not supported; Cyberpunk 2077 routes by
    /// [`cyberpunk_install_path`], the other games by [`data_install_path`]. `None` when the
    /// path has no file name where the routing needs one.
    pub fn install_path_for(&self, game_dir: &str, relative_path: &str) -> (r: Option<Result<String, String>>)
        ensures
            match game_with_id(supported_games(), self@.current_game) {
                None => r matches Some(Err(e)) && e@ == "Unknown game: "@ + self@.current_game,
                Some(g) => {
                    let routed = if g.id == "cyberpunk2077"@ {
                        cyberpunk_install_path(game_dir@, relative_path@)
                    } else {
                        data_install_path(game_dir@, relative_path@)
                    };
                    match routed {
                        None => r is None,
                        Some(p) => r matches Some(Ok(q)) && q@ == p,
                    }
                },
            },
    {
        let game = match get_game_by_id(self.current_game.as_str()) {
            Some(g) => g,
            None => return Some(Err(concat2("Unknown game: ", self.current_game.as_str()))),
        };
        let routed = if same_text(game.id.as_str(), "cyberpunk2077") {
            determine_cyberpunk_install_path(game_dir, relative_path)
        } else {
            determine_data_install_path(game_dir, relative_path)
        };
        match routed {
            Some(p) => Some(Ok(p)),
            None => None,
        }
    }

    /// Records a freshly installed mod of game `game_id` with its installed files, giving it
    /// a fresh identifier and the current time.
    pub fn record_installed_mod(&mut self, mod_data: ModData, game_id: String, files: Vec<String>)
        ensures
            final(self)@.current_game == old(self)@.current_game,
            final(self)@.mods.len() == old(self)@.mods.len() + 1,
            final(self)@.mods.drop_last() == old(self)@.mods,
            ({
                let m = final(self)@.mods.last();
                &&& m.name == install_name(mod_data)
                &&& m.version == install_version(mod_data)
                &&& m.author == mod_data.author.deep_view()
                &&& m.description == mod_data.description.deep_view()
                &&& m.mod_id == mod_data.mod_id.deep_view()
                &&& m.file_id == mod_data.file_id.deep_view()
                &&& m.enabled
                &&& m.files == files.deep_view()
                &&& m.game_id == game_id@
                &&& m.file_conflicts == Map::<String, FileConflictInfo>::empty()
                &&& is_hyphenated_uuid(m.id)
                &&& m.installed_at matches Some(t) && has_suffix(t, "+00:00"@)
            }),
    {
        let id = new_mod_id();
        let installed_at = current_timestamp();
        let m = installed_mod_info(mod_data, game_id, files, id, installed_at);
        self.add_mod(m);
    }

    /// All mods, in the order they were installed.
    pub fn get_installed_mods(&self) -> (r: Vec<ModInfo>)
        ensures
            mods_view(r@) == self@.mods,
    {
        clone_mods(&self.mods)
    }

    /// Appends a mod to the list.
    pub fn add_mod(&mut self, mod_info: ModInfo)
        ensures
            final(self)@.mods == old(self)@.mods.push(mod_info@),
            final(self)@.current_game == old(self)@.current_game,
    {
        self.mods.push(mod_info);
        proof {
            assert(mods_view(self.mods@) =~= mods_view(old(self).mods@).push(mod_info@));
        }
    }

    /// Removes every mod that a later mod with the same mod ID and file ID replaces, keeping
    /// the most recent installation of each; mods without both IDs are kept. Returns how many
    /// mods were removed.
    pub fn deduplicate_mods(&mut self) -> (removed: usize)
        ensures
            final(self)@.mods == deduplicated(old(self)@.mods),
            removed == old(self)@.mods.len() - final(self)@.mods.len(),
            final(self)@.current_game == old(self)@.current_game,
    {
        let n: usize = self.mods.len();
        let ghost s = mods_view(self.mods@);
        let mut kept: Vec<ModInfo> = Vec::new();
        let mut i: usize = 0;
        while i < n
            invariant
                n == self.mods.len(),
                s == mods_view(self.mods@),
                i <= n,
                mods_view(kept@) == dedup_prefix(s, i as nat),
            decreases n - i,
        {
            if !superseded_at(&self.mods, i) {
                let c = self.mods[i].clone();
                kept.push(c);
                proof {
                    assert(mods_view(kept@) =~= dedup_prefix(s, i as nat).push(s[i as int]));
                }
            }
            i = i + 1;
        }
        proof {
            lemma_dedup_prefix_len(s, n as nat);
            assert(s.len() == n);
        }
        let removed: usize = n - kept.len();
        self.mods = kept;
        removed
    }

    /// For files about to be installed, the installed mods that already hold each of them:
    /// each such file once, in the order of first mention, with one report per holding mod
    /// (repeated when the file is mentioned again).
    pub fn check_file_conflicts(&self, files_to_install: &[String]) -> (r: Vec<(String, Vec<ConflictDetails>)>)
        ensures
            conflict_table_view(r@) == conflict_table(self@.mods, files_to_install@.map_values(|f: String| f@)),
    {
        let ghost files = files_to_install@.map_values(|f: String| f@);
        let mut table: Vec<(String, Vec<ConflictDetails>)> = Vec::new();
        let mut i: usize = 0;
        while i < files_to_install.len()
            invariant
                files == files_to_install@.map_values(|f: String| f@),
                i <= files_to_install.len(),
                conflict_table_view(table@) == conflict_table(self@.mods, files.take(i as int)),
                keys_distinct(conflict_table_view(table@)),
            decreases files_to_install.len() - i,
        {
            let ghost before = conflict_table_view(table@);
            proof {
                assert(files.take(i + 1).drop_last() =~= files.take(i as int));
                assert(files.take(i + 1).last() == files[i as int]);
                lemma_add_conflicts_distinct(before, files[i as int], conflicts_for(self@.mods, files[i as int]));
            }
            let file = &files_to_install[i];
            let d = conflicts_for_file(&self.mods, file);
            if d.len() > 0 {
                match entry_index(&table, file) {
                    Some(k) => {
                        let (key, mut list) = table.remove(k);
                        let ghost old_list = list@;
                        let mut j: usize = 0;
                        while j < d.len()
                            invariant
                                j <= d.len(),
                                list.len() == old_list.len() + j,
                                details_view(list@) == details_view(old_list) + details_view(d@).take(j as int),
                            decreases d.len() - j,
                        {
                            let c = d[j].clone();
                            assert(c@ == details_view(d@)[j as int]);
                            let ghost prev = list@;
                            list.push(c);
                            proof {
                                assert(details_view(list@) =~= details_view(prev).push(c@));
                                assert(details_view(d@).take(j + 1) =~= details_view(d@).take(j as int).push(c@));
                                assert(details_view(list@)[old_list.len() + j] == c@);
                                assert(details_view(list@) =~= details_view(old_list) + details_view(d@).take(j + 1));
                            }
                            j = j + 1;
                        }
                        table.insert(k, (key, list));
                        proof {
                            assert(details_view(d@).take(d.len() as int) =~= details_view(d@));
                            assert(before[k as int].0 == file@);
                            let k2: int = choose|k2: int| 0 <= k2 < before.len() && #[trigger] before[k2].0 == file@;
                            assert(k2 == k as int);
                            assert(conflict_table_view(table@) =~= before.update(k as int, (file@, before[k as int].1 + details_view(d@))));
                        }
                    },
                    None => {
                        let key = file.clone();
                        table.push((key, d));
                        proof {
                            assert(conflict_table_view(table@) =~= before.push((file@, details_view(d@))));
                        }
                    },
                }
            }
            i = i + 1;
        }
        proof {
            assert(files.take(files_to_install.len() as int) =~= files);
        }
        table
    }

    /// The game whose mods this manager holds.
    pub fn get_current_game(&self) -> (r: &str)
        ensures
            r@ == self@.current_game,
    {
        self.current_game.as_str()
    }

    /// The first mod with this mod ID and file ID, if any.
    pub fn find_existing_mod(&self, mod_id: &str, file_id: &str) -> (r: Option<&ModInfo>)
        ensures
            r is Some <==> exists|i: int| 0 <= i < self@.mods.len() && #[trigger] has_ids(self@.mods[i], mod_id@, file_id@),
            r matches Some(m) ==> exists|i: int|
                0 <= i < self@.mods.len() && has_ids(self@.mods[i], mod_id@, file_id@)
                && m@ == self@.mods[i]
                && forall|j: int| 0 <= j < i ==> !#[trigger] has_ids(self@.mods[j], mod_id@, file_id@),
    {
        let mut i: usize = 0;
        while i < self.mods.len()
            invariant
                i <= self.mods.len(),
                forall|j: int| 0 <= j < i ==> !#[trigger] has_ids(self@.mods[j], mod_id@, file_id@),
            decreases self.mods.len() - i,
        {
            let m = &self.mods[i];
            if opt_is(&m.mod_id, mod_id) && opt_is(&m.file_id, file_id) {
                assert(has_ids(self@.mods[i as int], mod_id@, file_id@));
                return Some(m);
            }
            assert(!has_ids(self@.mods[i as int], mod_id@, file_id@));
            i = i + 1;
        }
        None
    }

    /// The first mod with this name and version, if any.
    pub fn find_existing_mod_by_name(&self, name: &str, version: &str) -> (r: Option<&ModInfo>)
        ensures
            r is Some <==> exists|i: int| 0 <= i < self@.mods.len() && #[trigger] has_name_version(self@.mods[i], name@, version@),
            r matches Some(m) ==> exists|i: int|
                0 <= i < self@.mods.len() && has_name_version(self@.mods[i], name@, version@)
                && m@ == self@.mods[i]
                && forall|j: int| 0 <= j < i ==> !#[trigger] has_name_version(self@.mods[j], name@, version@),
    {
        let mut i: usize = 0;
        while i < self.mods.len()
            invariant
                i <= self.mods.len(),
                forall|j: int| 0 <= j < i ==> !#[trigger] has_name_version(self@.mods[j], name@, version@),
            decreases self.mods.len() - i,
        {
            let m = &self.mods[i];
            if same_text(m.name.as_str(), name) && same_text(m.version.as_str(), version) {
                assert(has_name_version(self@.mods[i as int], name@, version@));
                return Some(m);
            }
            assert(!has_name_version(self@.mods[i as int], name@, version@));
            i = i + 1;
        }
        None
    }

    /// The first mod with this mod ID, whatever its file ID, if any.
    pub fn find_existing_mod_by_id(&self, mod_id: &str) -> (r: Option<&ModInfo>)
        ensures
            r is Some <==> exists|i: int| 0 <= i < self@.mods.len() && #[trigger] has_mod_id(self@.mods[i], mod_id@),
            r matches Some(m) ==> exists|i: int|
                0 <= i < self@.mods.len() && has_mod_id(self@.mods[i], mod_id@)
                && m@ == self@.mods[i]
                && forall|j: int| 0 <= j < i ==> !#[trigger] has_mod_id(self@.mods[j], mod_id@),
    {
        let mut i: usize = 0;
        while i < self.mods.len()
            invariant
                i <= self.mods.len(),
                forall|j: int| 0 <= j < i ==> !#[trigger] has_mod_id(self@.mods[j], mod_id@),
            decreases self.mods.len() - i,
        {
            let m = &self.mods[i];
            if opt_is(&m.mod_id, mod_id) {
                assert(has_mod_id(self@.mods[i as int], mod_id@));
                return Some(m);
            }
            assert(!has_mod_id(self@.mods[i as int], mod_id@));
            i = i + 1;
        }
        None
    }
}

} // verus!
