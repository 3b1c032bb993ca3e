use crossover_mod_manager::game_definitions::{detect_game_from_path, get_game_by_id, get_supported_games, GameDefinition};

fn strings(v: &[&str]) -> Vec<String> {
    v.iter().map(|s| s.to_string()).collect()
}

#[test]
fn supported_games_are_listed_in_order() {
    let games = get_supported_games();
    let ids: Vec<&str> = games.iter().map(|g| g.id.as_str()).collect();
    assert_eq!(ids, vec!["cyberpunk2077", "skyrim", "skyrimse"]);
}

#[test]
fn cyberpunk_definition() {
    let g = GameDefinition::cyberpunk2077();
    assert_eq!(g.id, "cyberpunk2077");
    assert_eq!(g.name, "Cyberpunk 2077");
    assert_eq!(g.nexus_domain, "cyberpunk2077");
    assert_eq!(g.detection_files, vec!["bin/x64/Cyberpunk2077.exe", "Cyberpunk2077.exe", "engine/config/base/engine.ini"]);
    assert_eq!(g.mod_directories, vec!["archive/pc/mod", "bin/x64/plugins", "r6/scripts", "red4ext/plugins", "mods"]);
    assert!(g.supports_load_order);
}

#[test]
fn skyrim_definitions() {
    let s = GameDefinition::skyrim();
    assert_eq!(s.id, "skyrim");
    assert_eq!(s.name, "Skyrim");
    assert_eq!(s.nexus_domain, "skyrim");
    assert_eq!(s.detection_files, vec!["TESV.exe", "SkyrimLauncher.exe"]);
    assert_eq!(s.mod_directories, vec!["Data"]);
    let se = GameDefinition::skyrim_se();
    assert_eq!(se.id, "skyrimse");
    assert_eq!(se.name, "Skyrim Special Edition");
    assert_eq!(se.nexus_domain, "skyrimspecialedition");
    assert_eq!(se.detection_files, vec!["SkyrimSE.exe", "SkyrimSELauncher.exe"]);
    assert_eq!(se.mod_directories, vec!["Data"]);
    assert!(se.supports_load_order);
}

#[test]
fn game_lookup_by_id() {
    assert_eq!(get_game_by_id("skyrimse").unwrap().name, "Skyrim Special Edition");
    assert_eq!(get_game_by_id("skyrim").unwrap().name, "Skyrim");
    assert_eq!(get_game_by_id("cyberpunk2077").unwrap().name, "Cyberpunk 2077");
    assert!(get_game_by_id("fallout4").is_none());
    assert!(get_game_by_id("").is_none());
}

#[test]
fn every_supported_game_is_found_by_its_id() {
    for g in get_supported_games() {
        let found = get_game_by_id(&g.id).unwrap();
        assert_eq!(found.id, g.id);
        assert_eq!(found.name, g.name);
        assert_eq!(found.detection_files, g.detection_files);
    }
}

#[test]
fn detection_needs_a_folder() {
    assert!(detect_game_from_path(false, &strings(&["TESV.exe"])).is_none());
}

#[test]
fn detection_by_any_detection_file() {
    assert_eq!(detect_game_from_path(true, &strings(&["TESV.exe"])).unwrap().id, "skyrim");
    assert_eq!(detect_game_from_path(true, &strings(&["SkyrimSELauncher.exe"])).unwrap().id, "skyrimse");
    assert_eq!(detect_game_from_path(true, &strings(&["engine/config/base/engine.ini"])).unwrap().id, "cyberpunk2077");
}

#[test]
fn detection_without_known_files() {
    assert!(detect_game_from_path(true, &strings(&[])).is_none());
    assert!(detect_game_from_path(true, &strings(&["tesv.exe", "Fallout4.exe"])).is_none());
}

#[test]
fn detection_prefers_the_first_supported_game() {
    let found = strings(&["SkyrimSE.exe", "Cyberpunk2077.exe"]);
    assert_eq!(detect_game_from_path(true, &found).unwrap().id, "cyberpunk2077");
}
