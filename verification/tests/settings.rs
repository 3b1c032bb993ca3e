use crossover_mod_manager::mod_manager::SaveOutcome;
use crossover_mod_manager::settings::{default_first_run, load_settings, AppSettings, GameConfig, Settings};

fn config(path: &str, id: &str) -> GameConfig {
    GameConfig { game_path: path.to_string(), game_id: id.to_string() }
}

fn legacy(path: &str) -> Settings {
    Settings {
        game_path: path.to_string(),
        mod_storage_path: "/mods".to_string(),
        current_game: String::new(),
        games: Vec::new(),
        first_run: false,
        nexusmods_api_key: "KEY".to_string(),
    }
}

#[test]
fn defaults() {
    assert!(default_first_run());
    let s = Settings::default();
    assert_eq!(s.game_path, "");
    assert_eq!(s.mod_storage_path, "");
    assert_eq!(s.current_game, "");
    assert!(s.games.is_empty());
    assert!(s.first_run);
    assert_eq!(s.nexusmods_api_key, "");
}

#[test]
fn unreadable_settings_give_defaults() {
    let s = load_settings(None);
    assert!(s.first_run);
    assert!(s.games.is_empty());
    assert_eq!(s.current_game, "");
}

#[test]
fn legacy_game_path_becomes_cyberpunk_config() {
    let s = load_settings(Some(legacy("/games/cp2077")));
    assert_eq!(s.game_path, "");
    assert_eq!(s.current_game, "cyberpunk2077");
    assert_eq!(s.games.len(), 1);
    assert_eq!(s.games[0].0, "cyberpunk2077");
    assert_eq!(s.games[0].1.game_path, "/games/cp2077");
    assert_eq!(s.games[0].1.game_id, "cyberpunk2077");
    assert_eq!(s.mod_storage_path, "/mods");
    assert_eq!(s.nexusmods_api_key, "KEY");
    assert!(!s.first_run);
}

#[test]
fn legacy_path_is_kept_when_games_are_configured() {
    let mut s = legacy("/old");
    s.games.push(("skyrim".to_string(), config("/games/skyrim", "skyrim")));
    s.current_game = "skyrim".to_string();
    let t = load_settings(Some(s));
    assert_eq!(t.game_path, "/old");
    assert_eq!(t.games.len(), 1);
    assert_eq!(t.current_game, "skyrim");
}

#[test]
fn first_game_becomes_current() {
    let mut s = legacy("");
    s.games.push(("skyrimse".to_string(), config("/se", "skyrimse")));
    s.games.push(("skyrim".to_string(), config("/le", "skyrim")));
    let t = load_settings(Some(s));
    assert_eq!(t.current_game, "skyrimse");
}

#[test]
fn empty_settings_stay_empty() {
    let t = load_settings(Some(legacy("")));
    assert_eq!(t.current_game, "");
    assert!(t.games.is_empty());
}

#[test]
fn loading_twice_changes_nothing() {
    let once = load_settings(Some(legacy("/games/cp2077")));
    let twice = load_settings(Some(once.clone()));
    assert_eq!(twice.game_path, once.game_path);
    assert_eq!(twice.current_game, once.current_game);
    assert_eq!(twice.games.len(), once.games.len());
    assert_eq!(twice.games[0].0, once.games[0].0);
    assert_eq!(twice.games[0].1.game_path, once.games[0].1.game_path);
}

#[test]
fn app_settings_load_and_get() {
    let app = AppSettings::new("/home/u/.crossover-mod-manager/settings.json".to_string(), Some(legacy("/cp")));
    assert_eq!(app.settings_path(), "/home/u/.crossover-mod-manager/settings.json");
    let s = app.get_settings();
    assert_eq!(s.current_game, "cyberpunk2077");
    assert_eq!(s.games[0].1.game_path, "/cp");
}

#[test]
fn saving_takes_the_new_settings() {
    let mut app = AppSettings::new("settings.json".to_string(), None);
    let mut s = Settings::default();
    s.nexusmods_api_key = "NEW".to_string();
    assert_eq!(app.save_settings(s, SaveOutcome::Written), Ok(()));
    assert_eq!(app.get_settings().nexusmods_api_key, "NEW");
}

#[test]
fn failed_saves_keep_the_old_settings() {
    let mut app = AppSettings::new("settings.json".to_string(), None);
    let mut s = Settings::default();
    s.nexusmods_api_key = "NEW".to_string();
    let r = app.save_settings(s.clone(), SaveOutcome::WriteFailed("disk full".to_string()));
    assert_eq!(r, Err("Failed to write settings: disk full".to_string()));
    let r = app.save_settings(s, SaveOutcome::SerializeFailed("bad".to_string()));
    assert_eq!(r, Err("Failed to serialize settings: bad".to_string()));
    assert_eq!(app.get_settings().nexusmods_api_key, "");
}
