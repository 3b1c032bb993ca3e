//! Installing mods: where files go, what a fresh record holds, and the legacy database.

use vstd::prelude::*;

use crate::mod_manager::{ModData, ModInfoView, SaveOutcome};
use crate::external::{joined_path, lowercase, path_file_name};
use crate::text::{forward_slashes, has_prefix, has_substring, has_suffix};


verus! {

/// A mod from the legacy database with the game recorded: Cyberpunk 2077 where none was.
pub open spec fn legacy_migrated(m: ModInfoView) -> ModInfoView {
    if m.game_id.len() == 0 {
        ModInfoView { game_id: "cyberpunk2077"@, ..m }
    } else {
        m
    }
}

/// Every mod of a legacy database with its game recorded.
pub open spec fn legacy_migrated_all(s: Seq<ModInfoView>) -> Seq<ModInfoView> {
    s.map_values(|m: ModInfoView| legacy_migrated(m))
}

/// The file name of the mod database of a game.
pub open spec fn database_file(game_id: Seq<char>) -> Seq<char> {
    "mods_"@ + game_id + ".json"@
}

/// The result that saving the mod database reports for an outcome.
pub open spec fn database_save_message(outcome: SaveOutcome) -> Result<(), Seq<char>> {
    match outcome {
        SaveOutcome::SerializeFailed(e) => Err("Failed to serialize database: "@ + e@),
        SaveOutcome::WriteFailed(e) => Err("Failed to write database: "@ + e@),
        SaveOutcome::Written => Ok(()),
    }
}

/// The game folders, below the game directory, that a mod file goes to, judged by its path
/// in lower case: archives, binaries and redscripts have their folders, the rest goes with
/// the archives.
pub open spec fn install_dirs(lower: Seq<char>) -> Seq<Seq<char>> {
    if has_substring(lower, "archive"@) || has_substring(lower, "archives"@) {
        seq!["archive"@, "pc"@, "mod"@]
    } else if has_substring(lower, "bin"@) {
        seq!["bin"@, "x64"@]
    } else if has_substring(lower, "r6"@) {
        seq!["r6"@, "scripts"@]
    } else {
        seq!["archive"@, "pc"@, "mod"@]
    }
}

/// `base` with each of `parts` joined on in turn.
pub open spec fn join_all(base: Seq<char>, parts: Seq<Seq<char>>) -> Seq<char>
    decreases parts.len(),
{
    if parts.len() == 0 {
        base
    } else {
        joined_path(join_all(base, parts.drop_last()), parts.last())
    }
}

/// Where a mod file found at `relative_path` in the archive is installed below `game_dir`:
/// its folder by [`install_dirs`], then the file's own name.
pub open spec fn install_path(game_dir: Seq<char>, relative_path: Seq<char>) -> Seq<char> {
    join_all(game_dir, install_dirs(lowercase(relative_path)).push(path_file_name(relative_path).unwrap()))
}

/// A plugin or archive file of a game that keeps its mods in `Data/`, by its lower-case path.
pub open spec fn is_data_file(lower: Seq<char>) -> bool {
    ||| has_suffix(lower, ".esp"@)
    ||| has_suffix(lower, ".esm"@)
    ||| has_suffix(lower, ".esl"@)
    ||| has_suffix(lower, ".bsa"@)
    ||| has_suffix(lower, ".ba2"@)
}

/// `dir` with the file name of `relative_path` joined on, if the path has one.
pub open spec fn with_file_name(dir: Seq<char>, relative_path: Seq<char>) -> Option<Seq<char>> {
    match path_file_name(relative_path) {
        Some(f) => Some(joined_path(dir, f)),
        None => None,
    }
}

/// Where a mod file found at `relative_path` is installed below `game_dir` for a game that
/// keeps its mods in `Data/` (Skyrim and Skyrim Special Edition). The path is read with
/// backslashes as forward slashes and judged in lower case: a path already below `data/`
/// keeps its place; plugins and archives go straight into `Data/`; DLLs under an SKSE folder
/// into `Data/SKSE/Plugins/`, other DLLs into the game folder; everything else keeps its path
/// below `Data/`. `None` when the rule needs a file name and the path has none.
pub open spec fn data_install_path(game_dir: Seq<char>, relative_path: Seq<char>) -> Option<Seq<char>> {
    let path = forward_slashes(relative_path);
    let lower = lowercase(path);
    let data = joined_path(game_dir, "Data"@);
    if has_prefix(lower, "data/"@) {
        Some(joined_path(game_dir, path))
    } else if is_data_file(lower) {
        with_file_name(data, path)
    } else if has_suffix(lower, ".dll"@) && has_substring(lower, "skse"@) {
        with_file_name(joined_path(joined_path(data, "SKSE"@), "Plugins"@), path)
    } else if has_suffix(lower, ".dll"@) {
        with_file_name(game_dir, path)
    } else {
        Some(joined_path(data, path))
    }
}

/// A lower-case path below one of the folders whose layout a Cyberpunk 2077 mod brings along
/// as it is: REDmod's `mods/`, `archive/pc/mod/`, `bin/x64/`, `r6/scripts/`,
/// `red4ext/plugins/` and `engine/config/`.
pub open spec fn keeps_cyberpunk_layout(lower: Seq<char>) -> bool {
    ||| has_prefix(lower, "mods/"@)
    ||| has_prefix(lower, "archive/pc/mod/"@)
    ||| has_prefix(lower, "bin/x64/"@)
    ||| has_prefix(lower, "r6/scripts/"@)
    ||| has_prefix(lower, "red4ext/plugins/"@)
    ||| has_prefix(lower, "engine/config/"@)
}

/// Where a mod file found at `relative_path` is installed below `game_dir` for Cyberpunk
/// 2077. The path is read with backslashes as forward slashes and judged in lower case:
/// a REDmod path (below `mods/`) keeps its place whatever the file; otherwise RED4ext's
/// loader `version.dll` goes to the game folder and `red4ext.dll` to `bin/x64/`;
/// a path in one of the game's mod folders ([`keeps_cyberpunk_layout`]) keeps its place;
/// `.archive` files go to `archive/pc/mod/`, redscripts (`.reds`) to `r6/scripts/`, DLLs to
/// `red4ext/plugins/` when their path names RED4ext and to `bin/x64/` otherwise; anything
/// else keeps its path below the game folder. `None` when the rule needs a file name and the
/// path has none.
pub open spec fn cyberpunk_install_path(game_dir: Seq<char>, relative_path: Seq<char>) -> Option<Seq<char>> {
    let path = forward_slashes(relative_path);
    let lower = lowercase(path);
    let bin_x64 = joined_path(joined_path(game_dir, "bin"@), "x64"@);
    if has_prefix(lower, "mods/"@) {
        Some(joined_path(game_dir, path))
    } else if lower == "version.dll"@ || has_suffix(lower, "/version.dll"@) {
        with_file_name(game_dir, path)
    } else if lower == "red4ext.dll"@ || has_suffix(lower, "/red4ext.dll"@) {
        with_file_name(bin_x64, path)
    } else if keeps_cyberpunk_layout(lower) {
        Some(joined_path(game_dir, path))
    } else if has_suffix(lower, ".archive"@) {
        with_file_name(joined_path(joined_path(joined_path(game_dir, "archive"@), "pc"@), "mod"@), path)
    } else if has_suffix(lower, ".reds"@) {
        with_file_name(joined_path(joined_path(game_dir, "r6"@), "scripts"@), path)
    } else if has_suffix(lower, ".dll"@) && has_substring(lower, "red4ext"@) {
        with_file_name(joined_path(joined_path(game_dir, "red4ext"@), "plugins"@), path)
    } else if has_suffix(lower, ".dll"@) {
        with_file_name(bin_x64, path)
    } else {
        Some(joined_path(game_dir, path))
    }
}

/// How deleting a file ended, with the error's text.
pub open spec fn outcome_view(o: Result<(), String>) -> Result<(), Seq<char>> {
    match o {
        Ok(()) => Ok(()),
        Err(e) => Err(e@),
    }
}

/// How deleting each file ended.
pub open spec fn outcomes_view(v: Seq<Result<(), String>>) -> Seq<Result<(), Seq<char>>> {
    v.map_values(|o: Result<(), String>| outcome_view(o))
}

/// The files whose deletion succeeded, in order.
pub open spec fn deleted_files(files: Seq<Seq<char>>, outcomes: Seq<Result<(), Seq<char>>>) -> Seq<Seq<char>>
    decreases files.len(),
{
    if files.len() == 0 || outcomes.len() == 0 {
        seq![]
    } else {
        let p = deleted_files(files.drop_last(), outcomes.drop_last());
        match outcomes.last() {
            Ok(()) => p.push(files.last()),
            Err(_) => p,
        }
    }
}

/// For each file whose deletion failed, in order, the file and the error: `<file>: <error>`.
pub open spec fn failed_files(files: Seq<Seq<char>>, outcomes: Seq<Result<(), Seq<char>>>) -> Seq<Seq<char>>
    decreases files.len(),
{
    if files.len() == 0 || outcomes.len() == 0 {
        seq![]
    } else {
        let p = failed_files(files.drop_last(), outcomes.drop_last());
        match outcomes.last() {
            Ok(()) => p,
            Err(e) => p.push(files.last() + ": "@ + e),
        }
    }
}

/// The name that an installed mod gets: the one given, "Unknown Mod" otherwise.
pub open spec fn install_name(d: ModData) -> Seq<char> {
    match d.name {
        Some(n) => n@,
        None => "Unknown Mod"@,
    }
}

/// The version that an installed mod gets: the one given, "1.0.0" otherwise.
pub open spec fn install_version(d: ModData) -> Seq<char> {
    match d.version {
        Some(v) => v@,
        None => "1.0.0"@,
    }
}

/// Law: migrating legacy mods fills in a game for every mod, and migrating again changes
/// nothing.
pub proof fn lemma_legacy_migration(s: Seq<ModInfoView>)
    ensures
        forall|k: int| 0 <= k < s.len() ==> (#[trigger] legacy_migrated_all(s)[k]).game_id.len() > 0,
        legacy_migrated_all(legacy_migrated_all(s)) == legacy_migrated_all(s),
{
    reveal_strlit("cyberpunk2077");
    let t = legacy_migrated_all(s);
    assert forall|k: int| 0 <= k < s.len() implies (#[trigger] t[k]).game_id.len() > 0 by {
        assert(t[k] == legacy_migrated(s[k]));
    }
    assert(legacy_migrated_all(t) =~= t);
}

/// Law: different games keep their mods in different database files.
pub proof fn lemma_database_files_distinct(a: Seq<char>, b: Seq<char>)
    ensures
        database_file(a) == database_file(b) ==> a == b,
{
    reveal_strlit("mods_");
    reveal_strlit(".json");
    if database_file(a) == database_file(b) {
        let fa = database_file(a);
        assert("mods_"@.len() == 5);
        assert(".json"@.len() == 5);
        assert(fa.len() == a.len() + 10);
        assert(database_file(b).len() == b.len() + 10);
        assert(a.len() == b.len());
        assert(a =~= fa.subrange(5, 5 + a.len() as int));
        assert(b =~= database_file(b).subrange(5, 5 + b.len() as int));
    }
}

/// Law: for Cyberpunk 2077, a file of a REDmod mod (its path, read with forward slashes and
/// in lower case, starts with `mods/`) is installed at the game folder joined with its path
/// unchanged, whatever its name or extension; so is a file already placed in one of the
/// game's mod folders (`archive/pc/mod/`, `bin/x64/`, `r6/scripts/`, `red4ext/plugins/`,
/// `engine/config/`) unless it is RED4ext's `version.dll` or `red4ext.dll`. Outside those
/// folders, an `.archive` file lands in `archive/pc/mod/` and a `.reds` file in
/// `r6/scripts/`, each under its own file name; `version.dll` lands in the game folder.
pub proof fn lemma_cyberpunk_layout_kept(game_dir: Seq<char>, relative_path: Seq<char>)
    ensures
        ({
            let path = forward_slashes(relative_path);
            let lower = lowercase(path);
            let kept = Some(joined_path(game_dir, path));
            let named = |name: Seq<char>| lower == name || has_suffix(lower, "/"@ + name);
            let in_game_folder = has_prefix(lower, "archive/pc/mod/"@) || has_prefix(lower, "bin/x64/"@)
                || has_prefix(lower, "r6/scripts/"@) || has_prefix(lower, "red4ext/plugins/"@)
                || has_prefix(lower, "engine/config/"@);
            let file_in = |dir: Seq<char>| match path_file_name(path) {
                Some(f) => Some(joined_path(dir, f)),
                None => None::<Seq<char>>,
            };
            &&& has_prefix(lower, "mods/"@) ==> cyberpunk_install_path(game_dir, relative_path) == kept
            &&& (in_game_folder && !named("version.dll"@) && !named("red4ext.dll"@))
                ==> cyberpunk_install_path(game_dir, relative_path) == kept
            &&& (!has_prefix(lower, "mods/"@) && named("version.dll"@))
                ==> cyberpunk_install_path(game_dir, relative_path) == file_in(game_dir)
            &&& (!has_prefix(lower, "mods/"@) && !in_game_folder && !named("version.dll"@) && !named("red4ext.dll"@)
                && has_suffix(lower, ".archive"@))
                ==> cyberpunk_install_path(game_dir, relative_path) == file_in(
                    joined_path(joined_path(joined_path(game_dir, "archive"@), "pc"@), "mod"@))
            &&& (!has_prefix(lower, "mods/"@) && !in_game_folder && !named("version.dll"@) && !named("red4ext.dll"@)
                && has_suffix(lower, ".reds"@))
                ==> cyberpunk_install_path(game_dir, relative_path) == file_in(
                    joined_path(joined_path(game_dir, "r6"@), "scripts"@))
            &&& (!has_prefix(lower, "mods/"@) && !named("version.dll"@) && named("red4ext.dll"@))
                ==> cyberpunk_install_path(game_dir, relative_path) == file_in(
                    joined_path(joined_path(game_dir, "bin"@), "x64"@))
            &&& (!has_prefix(lower, "mods/"@) && !in_game_folder && !named("version.dll"@) && !named("red4ext.dll"@)
                && has_suffix(lower, ".dll"@) && has_substring(lower, "red4ext"@))
                ==> cyberpunk_install_path(game_dir, relative_path) == file_in(
                    joined_path(joined_path(game_dir, "red4ext"@), "plugins"@))
            &&& (!has_prefix(lower, "mods/"@) && !in_game_folder && !named("version.dll"@) && !named("red4ext.dll"@)
                && has_suffix(lower, ".dll"@) && !has_substring(lower, "red4ext"@))
                ==> cyberpunk_install_path(game_dir, relative_path) == file_in(
                    joined_path(joined_path(game_dir, "bin"@), "x64"@))
            &&& (!has_prefix(lower, "mods/"@) && !in_game_folder && !named("version.dll"@) && !named("red4ext.dll"@)
                && !has_suffix(lower, ".archive"@) && !has_suffix(lower, ".reds"@) && !has_suffix(lower, ".dll"@))
                ==> cyberpunk_install_path(game_dir, relative_path) == kept
        }),
{
    reveal_strlit("/");
    reveal_strlit("version.dll");
    reveal_strlit("/version.dll");
    reveal_strlit("red4ext.dll");
    reveal_strlit("/red4ext.dll");
    assert("/"@ + "version.dll"@ =~= "/version.dll"@);
    assert("/"@ + "red4ext.dll"@ =~= "/red4ext.dll"@);
    let path = forward_slashes(relative_path);
    let lower = lowercase(path);
    reveal_strlit(".archive");
    reveal_strlit(".reds");
    reveal_strlit("mods/");
    reveal_strlit("archive/pc/mod/");
    reveal_strlit("bin/x64/");
    reveal_strlit("r6/scripts/");
    reveal_strlit("red4ext/plugins/");
    reveal_strlit("engine/config/");
    reveal_strlit(".dll");
    // `.archive`, `.reds` and `.dll` endings exclude each other: their last characters differ.
    if has_suffix(lower, ".reds"@) {
        lemma_suffix_at(lower, ".reds"@, 4);
        if has_suffix(lower, ".archive"@) {
            lemma_suffix_at(lower, ".archive"@, 7);
        }
    }
    if has_suffix(lower, ".dll"@) {
        lemma_suffix_at(lower, ".dll"@, 3);
        if has_suffix(lower, ".archive"@) {
            lemma_suffix_at(lower, ".archive"@, 7);
        }
        if has_suffix(lower, ".reds"@) {
            lemma_suffix_at(lower, ".reds"@, 4);
        }
    }
}

/// The characters at the end of a text are those of a suffix it has.
proof fn lemma_suffix_at(s: Seq<char>, suffix: Seq<char>, i: int)
    requires
        has_suffix(s, suffix),
        0 <= i < suffix.len(),
    ensures
        s[s.len() - suffix.len() + i] == suffix[i],
{
    assert(s.subrange(s.len() - suffix.len(), s.len() as int)[i] == s[s.len() - suffix.len() + i]);
}

/// Law: for Skyrim and Skyrim Special Edition, with the path read with forward slashes and
/// in lower case: a path below `data/` is installed at the game folder joined with the path
/// unchanged; otherwise a plugin or archive (`.esp`, `.esm`, `.esl`, `.bsa`, `.ba2`) lands in
/// `Data/` under its file name, a DLL whose path names SKSE in `Data/SKSE/Plugins/`, any
/// other DLL in the game folder, and every other file keeps its path below `Data/`.
pub proof fn lemma_data_layout(game_dir: Seq<char>, relative_path: Seq<char>)
    ensures
        ({
            let path = forward_slashes(relative_path);
            let lower = lowercase(path);
            let data = joined_path(game_dir, "Data"@);
            let plugin = has_suffix(lower, ".esp"@) || has_suffix(lower, ".esm"@) || has_suffix(lower, ".esl"@)
                || has_suffix(lower, ".bsa"@) || has_suffix(lower, ".ba2"@);
            let file_in = |dir: Seq<char>| match path_file_name(path) {
                Some(f) => Some(joined_path(dir, f)),
                None => None::<Seq<char>>,
            };
            &&& has_prefix(lower, "data/"@) ==> data_install_path(game_dir, relative_path) == Some(joined_path(game_dir, path))
            &&& (!has_prefix(lower, "data/"@) && plugin) ==> data_install_path(game_dir, relative_path) == file_in(data)
            &&& (!has_prefix(lower, "data/"@) && has_suffix(lower, ".dll"@) && has_substring(lower, "skse"@))
                ==> data_install_path(game_dir, relative_path) == file_in(
                    joined_path(joined_path(data, "SKSE"@), "Plugins"@))
            &&& (!has_prefix(lower, "data/"@) && has_suffix(lower, ".dll"@) && !has_substring(lower, "skse"@))
                ==> data_install_path(game_dir, relative_path) == file_in(game_dir)
            &&& (!has_prefix(lower, "data/"@) && !plugin && !has_suffix(lower, ".dll"@))
                ==> data_install_path(game_dir, relative_path) == Some(joined_path(data, path))
        }),
{
    let lower = lowercase(forward_slashes(relative_path));
    reveal_strlit(".esp");
    reveal_strlit(".esm");
    reveal_strlit(".esl");
    reveal_strlit(".bsa");
    reveal_strlit(".ba2");
    reveal_strlit(".dll");
    // A `.dll` ending excludes the plugin and archive endings: a character differs.
    if has_suffix(lower, ".dll"@) {
        lemma_suffix_at(lower, ".dll"@, 2);
        lemma_suffix_at(lower, ".dll"@, 3);
        if has_suffix(lower, ".esp"@) { lemma_suffix_at(lower, ".esp"@, 3); }
        if has_suffix(lower, ".esm"@) { lemma_suffix_at(lower, ".esm"@, 3); }
        if has_suffix(lower, ".esl"@) { lemma_suffix_at(lower, ".esl"@, 2); }
        if has_suffix(lower, ".bsa"@) { lemma_suffix_at(lower, ".bsa"@, 3); }
        if has_suffix(lower, ".ba2"@) { lemma_suffix_at(lower, ".ba2"@, 3); }
    }
}

} // verus!
