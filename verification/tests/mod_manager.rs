use std::collections::HashMap;

use crossover_mod_manager::mod_manager::{
    database_file_name, database_save_result, determine_cyberpunk_install_path, determine_data_install_path, install_download_url, installed_mod_info,
    migrate_legacy_mods, removal_report,
    register_entry, ModData, ModInfo, ModManager, ModProfile, ModProfileEntry, SaveOutcome,
};

fn strings(v: &[&str]) -> Vec<String> {
    v.iter().map(|s| s.to_string()).collect()
}

fn mod_info(id: &str, name: &str, ids: Option<(&str, &str)>, files: &[&str]) -> ModInfo {
    ModInfo {
        id: id.to_string(),
        name: name.to_string(),
        version: "1.0".to_string(),
        author: Some("author".to_string()),
        description: None,
        mod_id: ids.map(|p| p.0.to_string()),
        file_id: ids.map(|p| p.1.to_string()),
        enabled: true,
        files: strings(files),
        game_id: "cyberpunk2077".to_string(),
        file_conflicts: HashMap::new(),
        installed_at: None,
    }
}

fn entry(name: &str, mod_id: &str, file_id: &str, files: &[&str]) -> ModProfileEntry {
    ModProfileEntry {
        name: name.to_string(),
        version: "2.0".to_string(),
        author: None,
        mod_id: mod_id.to_string(),
        file_id: file_id.to_string(),
        description: Some("desc".to_string()),
        files: strings(files),
    }
}

fn profile(entries: Vec<ModProfileEntry>) -> ModProfile {
    ModProfile {
        version: "1.0".to_string(),
        created_at: "2025-01-01T00:00:00+00:00".to_string(),
        game: "Cyberpunk 2077".to_string(),
        mod_manager_version: "0.1.0".to_string(),
        mods: entries,
    }
}

fn ids(m: &ModManager) -> Vec<String> {
    m.get_installed_mods().into_iter().map(|m| m.id).collect()
}

#[test]
fn new_manager_is_for_cyberpunk() {
    let m = ModManager::new(vec![mod_info("a", "A", None, &[])]);
    assert_eq!(m.get_current_game(), "cyberpunk2077");
    assert_eq!(ids(&m), vec!["a"]);
    let s = ModManager::new_for_game("skyrim", Vec::new());
    assert_eq!(s.get_current_game(), "skyrim");
    assert!(s.get_installed_mods().is_empty());
}

#[test]
fn switching_game_replaces_mods() {
    let mut m = ModManager::new(vec![mod_info("a", "A", None, &[])]);
    assert_eq!(m.switch_game("skyrimse", vec![mod_info("b", "B", None, &[])]), Ok(()));
    assert_eq!(m.get_current_game(), "skyrimse");
    assert_eq!(ids(&m), vec!["b"]);
}

#[test]
fn database_file_names() {
    assert_eq!(database_file_name("cyberpunk2077"), "mods_cyberpunk2077.json");
    assert_eq!(database_file_name("skyrim"), "mods_skyrim.json");
}

#[test]
fn legacy_migration_only_for_missing_cyberpunk_database() {
    assert!(ModManager::needs_legacy_migration("cyberpunk2077", false));
    assert!(!ModManager::needs_legacy_migration("cyberpunk2077", true));
    assert!(!ModManager::needs_legacy_migration("skyrim", false));
}

#[test]
fn legacy_mods_get_cyberpunk_game() {
    let mut a = mod_info("a", "A", None, &[]);
    a.game_id = String::new();
    let mut b = mod_info("b", "B", None, &[]);
    b.game_id = "skyrim".to_string();
    let out = migrate_legacy_mods(vec![a, b]);
    assert_eq!(out[0].game_id, "cyberpunk2077");
    assert_eq!(out[1].game_id, "skyrim");
    let again = migrate_legacy_mods(out);
    assert_eq!(again[0].game_id, "cyberpunk2077");
    assert_eq!(again[1].game_id, "skyrim");
}

#[test]
fn database_save_messages() {
    assert_eq!(database_save_result(SaveOutcome::Written), Ok(()));
    assert_eq!(
        database_save_result(SaveOutcome::SerializeFailed("x".to_string())),
        Err("Failed to serialize database: x".to_string())
    );
    assert_eq!(
        database_save_result(SaveOutcome::WriteFailed("denied".to_string())),
        Err("Failed to write database: denied".to_string())
    );
}

#[test]
fn add_and_find_mods() {
    let mut m = ModManager::new(Vec::new());
    m.add_mod(mod_info("a", "A", Some(("10", "100")), &[]));
    m.add_mod(mod_info("b", "B", Some(("10", "101")), &[]));
    m.add_mod(mod_info("c", "A", Some(("10", "100")), &[]));
    assert_eq!(m.find_existing_mod("10", "100").unwrap().id, "a");
    assert_eq!(m.find_existing_mod("10", "101").unwrap().id, "b");
    assert!(m.find_existing_mod("10", "102").is_none());
    assert!(m.find_existing_mod("100", "10").is_none());
    assert_eq!(m.find_existing_mod_by_id("10").unwrap().id, "a");
    assert!(m.find_existing_mod_by_id("11").is_none());
    assert_eq!(m.find_existing_mod_by_name("B", "1.0").unwrap().id, "b");
    assert!(m.find_existing_mod_by_name("B", "2.0").is_none());
}

#[test]
fn added_mod_is_found() {
    let mut m = ModManager::new(vec![mod_info("x", "X", None, &[])]);
    m.add_mod(mod_info("y", "Y", Some(("5", "6")), &[]));
    assert_eq!(m.find_existing_mod("5", "6").unwrap().id, "y");
}

#[test]
fn mods_without_ids_are_not_found_by_ids() {
    let m = ModManager::new(vec![mod_info("a", "A", None, &[])]);
    assert!(m.find_existing_mod_by_id("").is_none());
    assert!(m.find_existing_mod("", "").is_none());
}

#[test]
fn deduplication_keeps_latest_installation() {
    let mut m = ModManager::new(vec![
        mod_info("a", "A", Some(("1", "1")), &[]),
        mod_info("b", "B", None, &[]),
        mod_info("c", "A", Some(("1", "1")), &[]),
        mod_info("d", "D", Some(("2", "1")), &[]),
        mod_info("e", "E", None, &[]),
        mod_info("f", "D", Some(("2", "1")), &[]),
    ]);
    assert_eq!(m.deduplicate_mods(), 2);
    assert_eq!(ids(&m), vec!["b", "c", "e", "f"]);
    assert_eq!(m.deduplicate_mods(), 0);
    assert_eq!(ids(&m), vec!["b", "c", "e", "f"]);
}

#[test]
fn deduplication_needs_both_ids() {
    let mut a = mod_info("a", "A", Some(("1", "1")), &[]);
    a.file_id = None;
    let mut b = mod_info("b", "A", Some(("1", "1")), &[]);
    b.file_id = None;
    let mut m = ModManager::new(vec![a, b]);
    assert_eq!(m.deduplicate_mods(), 0);
    assert_eq!(ids(&m), vec!["a", "b"]);
}

#[test]
fn remove_mod_takes_first_match() {
    let mut m = ModManager::new(vec![
        mod_info("a", "A", None, &["/g/a.archive"]),
        mod_info("b", "B", None, &[]),
        mod_info("a", "A2", None, &[]),
    ]);
    let removed = m.remove_mod("a").unwrap();
    assert_eq!(removed.name, "A");
    assert_eq!(removed.files, vec!["/g/a.archive"]);
    assert_eq!(ids(&m), vec!["b", "a"]);
}

#[test]
fn remove_unknown_mod_fails() {
    let mut m = ModManager::new(vec![mod_info("a", "A", None, &[])]);
    assert_eq!(m.remove_mod("z").unwrap_err(), "Mod not found");
    assert_eq!(ids(&m), vec!["a"]);
}

#[test]
fn conflicts_are_grouped_by_file() {
    let m = ModManager::new(vec![
        mod_info("a", "A", None, &["/g/x.archive", "/g/y.reds"]),
        mod_info("b", "B", None, &["/g/y.reds"]),
        mod_info("c", "C", None, &["/g/z"]),
    ]);
    let table = m.check_file_conflicts(&strings(&["/g/y.reds", "/g/new", "/g/x.archive", "/g/y.reds"]));
    assert_eq!(table.len(), 2);
    assert_eq!(table[0].0, "/g/y.reds");
    let who: Vec<&str> = table[0].1.iter().map(|d| d.mod_id.as_str()).collect();
    assert_eq!(who, vec!["a", "b", "a", "b"]);
    assert!(!table[0].1[0].is_archive);
    assert_eq!(table[1].0, "/g/x.archive");
    assert_eq!(table[1].1.len(), 1);
    assert_eq!(table[1].1[0].mod_name, "A");
    assert_eq!(table[1].1[0].mod_version, "1.0");
    assert!(table[1].1[0].is_archive);
}

#[test]
fn no_conflicts_for_new_files() {
    let m = ModManager::new(vec![mod_info("a", "A", None, &["/g/x"])]);
    assert!(m.check_file_conflicts(&strings(&["/g/y", "/g/z"])).is_empty());
    assert!(m.check_file_conflicts(&[]).is_empty());
}

#[test]
fn verify_files_against_disk() {
    let m = ModManager::new(Vec::new());
    let (all, present, missing) = m.verify_mod_files(&strings(&["/a", "/b", "/c"]), &strings(&["/c", "/a"]));
    assert!(!all);
    assert_eq!(present, vec!["/a", "/c"]);
    assert_eq!(missing, vec!["/b"]);
    let (all, present, missing) = m.verify_mod_files(&strings(&["/a"]), &strings(&["/a"]));
    assert!(all);
    assert_eq!(present, vec!["/a"]);
    assert!(missing.is_empty());
    let (all, present, missing) = m.verify_mod_files(&[], &[]);
    assert!(all && present.is_empty() && missing.is_empty());
}

#[test]
fn build_profile_exports_nexus_mods_only() {
    let m = ModManager::new(vec![
        mod_info("a", "A", Some(("1", "2")), &["/g/a"]),
        mod_info("b", "B", None, &["/g/b"]),
        mod_info("c", "C", Some(("3", "4")), &[]),
    ]);
    let p = m.build_profile("Cyberpunk 2077", "T".to_string());
    assert_eq!(p.version, "1.0");
    assert_eq!(p.created_at, "T");
    assert_eq!(p.game, "Cyberpunk 2077");
    assert_eq!(p.mod_manager_version, "0.1.0");
    assert_eq!(p.mods.len(), 2);
    assert_eq!(p.mods[0].name, "A");
    assert_eq!(p.mods[0].mod_id, "1");
    assert_eq!(p.mods[0].file_id, "2");
    assert_eq!(p.mods[0].files, vec!["/g/a"]);
    assert_eq!(p.mods[0].author, Some("author".to_string()));
    assert_eq!(p.mods[1].name, "C");
}

#[test]
fn export_profile_is_stamped() {
    let m = ModManager::new(vec![mod_info("a", "A", Some(("1", "2")), &[])]);
    let p = m.export_profile("Skyrim").unwrap();
    assert_eq!(p.game, "Skyrim");
    assert_eq!(p.mods.len(), 1);
    assert!(p.created_at.len() >= 20);
    assert!(p.created_at.contains('T'));
}

#[test]
fn import_registers_skips_and_downloads() {
    let mut m = ModManager::new(vec![mod_info("a", "A", Some(("1", "1")), &["/g/a"])]);
    let p = profile(vec![
        entry("A", "1", "1", &["/g/a"]),
        entry("B", "2", "1", &["/g/b1", "/g/b2"]),
        entry("C", "3", "1", &["/g/c"]),
        entry("D", "4", "1", &[]),
        entry("B again", "2", "1", &["/g/none"]),
    ]);
    let (registered, download) = m.import_profile(p, "cyberpunk2077".to_string(), &strings(&["/g/b2", "/g/b1", "/g/a"]));
    let reg: Vec<&str> = registered.iter().map(|e| e.name.as_str()).collect();
    let dl: Vec<&str> = download.iter().map(|e| e.name.as_str()).collect();
    assert_eq!(reg, vec!["A", "B", "B again"]);
    assert_eq!(dl, vec!["C", "D"]);
    let mods = m.get_installed_mods();
    assert_eq!(mods.len(), 2);
    let b = &mods[1];
    assert_eq!(b.name, "B");
    assert_eq!(b.version, "2.0");
    assert_eq!(b.mod_id, Some("2".to_string()));
    assert_eq!(b.file_id, Some("1".to_string()));
    assert_eq!(b.files, vec!["/g/b1", "/g/b2"]);
    assert_eq!(b.description, Some("desc".to_string()));
    assert!(b.enabled);
    assert_eq!(b.game_id, "cyberpunk2077");
    assert!(b.file_conflicts.is_empty());
    assert!(b.installed_at.is_some());
    assert_eq!(b.id.len(), 36);
    assert_ne!(b.id, "a");
}

#[test]
fn reimporting_own_profile_changes_nothing() {
    let mut m = ModManager::new(vec![
        mod_info("a", "A", Some(("1", "2")), &["/g/a"]),
        mod_info("b", "B", None, &[]),
        mod_info("c", "C", Some(("3", "4")), &[]),
    ]);
    let p = m.build_profile("Cyberpunk 2077", "T".to_string());
    let (registered, download) = m.import_profile(p, "cyberpunk2077".to_string(), &[]);
    assert_eq!(registered.len(), 2);
    assert!(download.is_empty());
    assert_eq!(ids(&m), vec!["a", "b", "c"]);
}

#[test]
fn registering_an_entry() {
    let e = entry("E", "7", "8", &["/g/e"]);
    let m = register_entry(&e, strings(&["/g/e"]), "skyrim", "ID".to_string(), "NOW".to_string());
    assert_eq!(m.id, "ID");
    assert_eq!(m.name, "E");
    assert_eq!(m.mod_id, Some("7".to_string()));
    assert_eq!(m.file_id, Some("8".to_string()));
    assert_eq!(m.game_id, "skyrim");
    assert_eq!(m.installed_at, Some("NOW".to_string()));
    assert!(m.enabled);
}

fn mod_data(url: Option<&str>) -> ModData {
    ModData {
        name: None,
        version: None,
        download_url: url.map(|u| u.to_string()),
        author: Some("Au".to_string()),
        description: None,
        mod_id: Some("9".to_string()),
        file_id: None,
    }
}

#[test]
fn install_needs_a_download_url() {
    assert_eq!(install_download_url(&mod_data(Some("https://x/y.zip"))), Ok("https://x/y.zip".to_string()));
    assert_eq!(install_download_url(&mod_data(None)), Err("No download URL provided".to_string()));
}

#[test]
fn installed_mod_defaults() {
    let m = installed_mod_info(mod_data(None), "cyberpunk2077".to_string(), strings(&["/g/f"]), "I".to_string(), "T".to_string());
    assert_eq!(m.name, "Unknown Mod");
    assert_eq!(m.version, "1.0.0");
    assert_eq!(m.author, Some("Au".to_string()));
    assert_eq!(m.mod_id, Some("9".to_string()));
    assert_eq!(m.file_id, None);
    assert_eq!(m.files, vec!["/g/f"]);
    assert_eq!(m.id, "I");
    assert_eq!(m.installed_at, Some("T".to_string()));
    let mut d = mod_data(None);
    d.name = Some("Named".to_string());
    d.version = Some("3".to_string());
    let m = installed_mod_info(d, "g".to_string(), Vec::new(), "I".to_string(), "T".to_string());
    assert_eq!(m.name, "Named");
    assert_eq!(m.version, "3");
}

#[test]
fn recording_an_installed_mod() {
    let mut m = ModManager::new(vec![mod_info("a", "A", None, &[])]);
    m.record_installed_mod(mod_data(Some("u")), "cyberpunk2077".to_string(), strings(&["/g/x"]));
    let mods = m.get_installed_mods();
    assert_eq!(mods.len(), 2);
    assert_eq!(mods[1].name, "Unknown Mod");
    assert_eq!(mods[1].files, vec!["/g/x"]);
    assert!(mods[1].installed_at.is_some());
    assert_ne!(mods[1].id, mods[0].id);
}

#[test]
fn install_paths_by_kind() {
    let m = ModManager::new(Vec::new());
    assert_eq!(m.determine_install_path("/game", "mymod/archive/pc/mod/a.archive").unwrap(), "/game/archive/pc/mod/a.archive");
    assert_eq!(m.determine_install_path("/game", "bin/x64/plugins/p.dll").unwrap(), "/game/bin/x64/p.dll");
    assert_eq!(m.determine_install_path("/game", "r6/scripts/s.reds").unwrap(), "/game/r6/scripts/s.reds");
    assert_eq!(m.determine_install_path("/game", "readme.txt").unwrap(), "/game/archive/pc/mod/readme.txt");
    assert_eq!(m.determine_install_path("/game/", "Archives/x.archive").unwrap(), "/game/archive/pc/mod/x.archive");
}

#[test]
fn install_path_judges_in_lower_case() {
    let m = ModManager::new(Vec::new());
    assert_eq!(m.determine_install_path("/game", "BIN/Tool.dll").unwrap(), "/game/bin/x64/Tool.dll");
    assert_eq!(m.determine_install_path("/game", "R6/Scripts/S.reds").unwrap(), "/game/r6/scripts/S.reds");
}

#[test]
fn cyberpunk_files_follow_the_game_layout() {
    let m = ModManager::new(Vec::new());
    let at = |p: &str| m.install_path_for("/game", p).unwrap().unwrap();
    assert_eq!(at("mods/MyMod/info.json"), "/game/mods/MyMod/info.json");
    assert_eq!(at("archive/pc/mod/a.archive"), "/game/archive/pc/mod/a.archive");
    assert_eq!(at("mymod/archive/pc/mod/a.archive"), "/game/archive/pc/mod/a.archive");
    assert_eq!(at("Stuff/b.ARCHIVE"), "/game/archive/pc/mod/b.ARCHIVE");
    assert_eq!(at("scripts/x.reds"), "/game/r6/scripts/x.reds");
    assert_eq!(at("r6/scripts/sub/y.reds"), "/game/r6/scripts/sub/y.reds");
    assert_eq!(at("RED4ext/plugins/p/p.dll"), "/game/RED4ext/plugins/p/p.dll");
    assert_eq!(at("red4ext_plugin/q.dll"), "/game/red4ext/plugins/q.dll");
    assert_eq!(at("bin/a.dll"), "/game/bin/x64/a.dll");
    assert_eq!(at("bin/x64/plugins/cyber_engine_tweaks/mods/m/init.lua"), "/game/bin/x64/plugins/cyber_engine_tweaks/mods/m/init.lua");
    assert_eq!(at("version.dll"), "/game/version.dll");
    assert_eq!(at("bin/x64/version.dll"), "/game/version.dll");
    assert_eq!(at("RED4ext/RED4ext.dll"), "/game/bin/x64/RED4ext.dll");
    assert_eq!(at("engine/config/platform/pc/x.ini"), "/game/engine/config/platform/pc/x.ini");
    assert_eq!(at("readme.txt"), "/game/readme.txt");
}

#[test]
fn backslash_paths_are_read_as_folders() {
    let cp = ModManager::new(Vec::new());
    assert_eq!(cp.install_path_for("/game", "mods\\M\\info.json"), Some(Ok("/game/mods/M/info.json".to_string())));
    assert_eq!(cp.install_path_for("/game", "r6\\scripts\\s.reds"), Some(Ok("/game/r6/scripts/s.reds".to_string())));
    let sk = ModManager::new_for_game("skyrim", Vec::new());
    assert_eq!(sk.install_path_for("/g", "Data\\meshes\\x.nif"), Some(Ok("/g/Data/meshes/x.nif".to_string())));
    assert_eq!(sk.install_path_for("/g", "SKSE\\Plugins\\a.dll"), Some(Ok("/g/Data/SKSE/Plugins/a.dll".to_string())));
    assert_eq!(determine_cyberpunk_install_path("/g", "x\\y.archive"), Some("/g/archive/pc/mod/y.archive".to_string()));
}

#[test]
fn each_game_has_its_own_database_file() {
    let names: Vec<String> = ["cyberpunk2077", "skyrim", "skyrimse"].iter().map(|g| database_file_name(g)).collect();
    assert_ne!(names[0], names[1]);
    assert_ne!(names[1], names[2]);
    assert_ne!(names[0], names[2]);
}

#[test]
fn imported_entries_are_installed_afterwards() {
    let mut m = ModManager::new(vec![mod_info("a", "A", Some(("1", "1")), &[])]);
    let p = profile(vec![entry("A", "1", "1", &[]), entry("N", "8", "9", &["/n"]), entry("M", "7", "7", &["/m"])]);
    let (registered, download) = m.import_profile(p, "skyrim".to_string(), &strings(&["/n"]));
    assert_eq!(registered.len() + download.len(), 3);
    for e in &registered {
        assert!(m.find_existing_mod(&e.mod_id, &e.file_id).is_some());
    }
    assert_eq!(download[0].name, "M");
    assert!(m.find_existing_mod("7", "7").is_none());
}

#[test]
fn profile_restores_a_fresh_install() {
    let mut old = ModManager::new(vec![
        mod_info("a", "A", Some(("1", "1")), &["/g/a1", "/g/a2"]),
        mod_info("b", "B", None, &["/g/b"]),
        mod_info("c", "C", Some(("2", "5")), &["/g/c"]),
    ]);
    assert_eq!(old.deduplicate_mods(), 0);
    let p = old.build_profile("Cyberpunk 2077", "T".to_string());
    let mut fresh = ModManager::new(Vec::new());
    let (registered, download) = fresh.import_profile(p, "cyberpunk2077".to_string(), &strings(&["/g/a1", "/g/a2", "/g/c"]));
    assert_eq!(registered.len(), 2);
    assert!(download.is_empty());
    let mods = fresh.get_installed_mods();
    let names: Vec<&str> = mods.iter().map(|m| m.name.as_str()).collect();
    assert_eq!(names, vec!["A", "C"]);
    assert_eq!(mods[0].files, vec!["/g/a1", "/g/a2"]);
}

#[test]
fn removal_report_splits_deleted_and_failed() {
    let files = strings(&["/g/a", "/g/b", "/g/c"]);
    let outcomes = vec![Ok(()), Err("denied".to_string()), Ok(())];
    let (deleted, failed) = removal_report(&files, outcomes);
    assert_eq!(deleted, strings(&["/g/a", "/g/c"]));
    assert_eq!(failed, strings(&["/g/b: denied"]));
}

#[test]
fn removal_report_of_nothing_is_empty() {
    let (deleted, failed) = removal_report(&Vec::new(), Vec::new());
    assert!(deleted.is_empty());
    assert!(failed.is_empty());
}

#[test]
fn skyrim_files_go_under_data() {
    let m = ModManager::new_for_game("skyrim", Vec::new());
    let at = |p: &str| m.install_path_for("/game", p).unwrap().unwrap();
    assert_eq!(at("Data/meshes/x.nif"), "/game/Data/meshes/x.nif");
    assert_eq!(at("mymod/plugin.esp"), "/game/Data/plugin.esp");
    assert_eq!(at("Master.ESM"), "/game/Data/Master.ESM");
    assert_eq!(at("textures.bsa"), "/game/Data/textures.bsa");
    assert_eq!(at("SKSE/Plugins/a.dll"), "/game/Data/SKSE/Plugins/a.dll");
    assert_eq!(at("tools/x.dll"), "/game/x.dll");
    assert_eq!(at("textures/t.dds"), "/game/Data/textures/t.dds");
}

#[test]
fn skyrim_se_routes_like_skyrim() {
    let m = ModManager::new_for_game("skyrimse", Vec::new());
    assert_eq!(m.install_path_for("/g", "a.esl").unwrap().unwrap(), "/g/Data/a.esl");
    assert_eq!(m.install_path_for("/g", "scripts/s.pex").unwrap().unwrap(), "/g/Data/scripts/s.pex");
}

#[test]
fn data_install_path_directly() {
    assert_eq!(determine_data_install_path("/g", "x.ba2"), Some("/g/Data/x.ba2".to_string()));
    assert_eq!(determine_data_install_path("/g", "data/x.txt"), Some("/g/data/x.txt".to_string()));
}

#[test]
fn unknown_game_cannot_install() {
    let m = ModManager::new_for_game("fallout4", Vec::new());
    assert_eq!(m.install_path_for("/g", "a.esp"), Some(Err("Unknown game: fallout4".to_string())));
}

#[test]
fn cyberpunk_install_path_for_uses_its_routing() {
    let m = ModManager::new(Vec::new());
    assert_eq!(m.install_path_for("/game", "r6/scripts/s.reds"), Some(Ok("/game/r6/scripts/s.reds".to_string())));
}

fn is_hyphenated_uuid(s: &str) -> bool {
    s.len() == 36
        && s.chars().enumerate().all(|(i, c)| {
            if i == 8 || i == 13 || i == 18 || i == 23 {
                c == '-'
            } else {
                c.is_ascii_digit() || ('a'..='f').contains(&c)
            }
        })
}

#[test]
fn installed_mods_get_a_uuid_and_a_utc_time() {
    let mut m = ModManager::new(Vec::new());
    let data = ModData {
        name: Some("N".to_string()),
        version: None,
        download_url: Some("u".to_string()),
        author: None,
        description: None,
        mod_id: Some("1".to_string()),
        file_id: Some("2".to_string()),
    };
    m.record_installed_mod(data, "cyberpunk2077".to_string(), strings(&["/g/f"]));
    let mods = m.get_installed_mods();
    assert!(is_hyphenated_uuid(&mods[0].id), "{}", mods[0].id);
    assert!(mods[0].installed_at.as_ref().unwrap().ends_with("+00:00"));
    assert_eq!(mods[0].version, "1.0.0");
}

#[test]
fn exported_profiles_are_stamped_in_utc() {
    let m = ModManager::new(Vec::new());
    let p = m.export_profile("Cyberpunk 2077").unwrap();
    assert!(p.created_at.ends_with("+00:00"), "{}", p.created_at);
}

#[test]
fn import_keeps_nexus_ids_distinct() {
    let mut m = ModManager::new(vec![mod_info("a", "A", Some(("1", "10")), &["/g/a"])]);
    let p = profile(vec![
        entry("A", "1", "10", &["/g/a"]),
        entry("B", "2", "20", &["/g/b"]),
        entry("B again", "2", "20", &["/g/b"]),
        entry("C", "3", "30", &["/g/c"]),
    ]);
    let (registered, download) = m.import_profile(p, "cyberpunk2077".to_string(), &strings(&["/g/a", "/g/b"]));
    assert_eq!(registered.len(), 3);
    assert_eq!(download.len(), 1);
    let mods = m.get_installed_mods();
    let mut pairs: Vec<(String, String)> = mods
        .iter()
        .filter_map(|m| Some((m.mod_id.clone()?, m.file_id.clone()?)))
        .collect();
    let n = pairs.len();
    pairs.sort();
    pairs.dedup();
    assert_eq!(pairs.len(), n);
    assert_eq!(n, 2);
}

#[test]
fn checked_install_path_needs_a_file_name() {
    let m = ModManager::new(Vec::new());
    assert!(m.determine_install_path_checked("/game", "mods/..").is_none());
    assert!(m.determine_install_path_checked("/game", "").is_none());
    assert_eq!(m.determine_install_path_checked("/game", "bin/a.dll"), Some(Ok("/game/bin/x64/a.dll".to_string())));
}
