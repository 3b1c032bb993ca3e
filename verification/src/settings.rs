//! The user's settings: defaults, migration from the single-game format, and saving.

use vstd::prelude::*;

use crate::mod_manager::SaveOutcome;
use crate::text::{concat2, owned};

verus! {

/// Where a configured game is installed, and which game it is.
#[derive(Debug)]
pub struct GameConfig {
    pub game_path: String,
    pub game_id: String,
}

/// The mathematical value of a [`GameConfig`].
pub struct GameConfigView {
    pub game_path: Seq<char>,
    pub game_id: Seq<char>,
}

impl View for GameConfig {
    type V = GameConfigView;

    open spec fn view(&self) -> GameConfigView {
        GameConfigView { game_path: self.game_path@, game_id: self.game_id@ }
    }
}

impl Clone for GameConfig {
    fn clone(&self) -> (r: Self)
        ensures
            r@ == self@,
    {
        GameConfig { game_path: self.game_path.clone(), game_id: self.game_id.clone() }
    }
}

/// The user's settings. The configured games are kept as (game ID, configuration) pairs,
/// each game ID at most once.
#[derive(Debug)]
pub struct Settings {
    /// The game folder of the single-game format, kept for migration.
    pub game_path: String,
    pub mod_storage_path: String,
    pub current_game: String,
    pub games: Vec<(String, GameConfig)>,
    pub first_run: bool,
    pub nexusmods_api_key: String,
}

/// The mathematical value of a [`Settings`].
pub struct SettingsView {
    pub game_path: Seq<char>,
    pub mod_storage_path: Seq<char>,
    pub current_game: Seq<char>,
    pub games: Seq<(Seq<char>, GameConfigView)>,
    pub first_run: bool,
    pub nexusmods_api_key: Seq<char>,
}

/// The views of configured games.
pub open spec fn games_view(v: Seq<(String, GameConfig)>) -> Seq<(Seq<char>, GameConfigView)> {
    v.map_values(|e: (String, GameConfig)| (e.0@, e.1@))
}

impl View for Settings {
    type V = SettingsView;

    open spec fn view(&self) -> SettingsView {
        SettingsView {
            game_path: self.game_path@,
            mod_storage_path: self.mod_storage_path@,
            current_game: self.current_game@,
            games: games_view(self.games@),
            first_run: self.first_run,
            nexusmods_api_key: self.nexusmods_api_key@,
        }
    }
}

/// No game ID is configured twice.
pub open spec fn game_ids_distinct(games: Seq<(Seq<char>, GameConfigView)>) -> bool {
    forall|a: int, b: int| 0 <= a < b < games.len() ==> #[trigger] games[a].0 != #[trigger] games[b].0
}

/// The settings of a first launch: nothing configured.
pub open spec fn default_settings() -> SettingsView {
    SettingsView {
        game_path: Seq::empty(),
        mod_storage_path: Seq::empty(),
        current_game: Seq::empty(),
        games: Seq::empty(),
        first_run: true,
        nexusmods_api_key: Seq::empty(),
    }
}

/// Settings of the single-game format turned into the multi-game format: a legacy game
/// folder, when no game is configured, becomes the configuration of Cyberpunk 2077, which
/// becomes the current game, and the legacy field is cleared.
pub open spec fn migrate_legacy_game(s: SettingsView) -> SettingsView {
    if s.game_path.len() > 0 && s.games.len() == 0 {
        SettingsView {
            games: seq![("cyberpunk2077"@, GameConfigView { game_path: s.game_path, game_id: "cyberpunk2077"@ })],
            current_game: "cyberpunk2077"@,
            game_path: Seq::empty(),
            ..s
        }
    } else {
        s
    }
}

/// Settings with a current game chosen where games are configured but none is current: the
/// first configured game.
pub open spec fn choose_current_game(s: SettingsView) -> SettingsView {
    if s.current_game.len() == 0 && s.games.len() > 0 {
        SettingsView { current_game: s.games[0].0, ..s }
    } else {
        s
    }
}

/// The settings that loading makes of what was read: the defaults when nothing could be
/// read, the read settings after migration otherwise.
pub open spec fn loaded_settings(read: Option<SettingsView>) -> SettingsView {
    match read {
        Some(s) => choose_current_game(migrate_legacy_game(s)),
        None => default_settings(),
    }
}

impl Clone for Settings {
    fn clone(&self) -> (r: Self)
        ensures
            r@ == self@,
    {
        let mut games: Vec<(String, GameConfig)> = Vec::new();
        let mut i: usize = 0;
        while i < self.games.len()
            invariant
                i <= self.games.len(),
                games_view(games@) == games_view(self.games@).take(i as int),
            decreases self.games.len() - i,
        {
            let e = (self.games[i].0.clone(), self.games[i].1.clone());
            let ghost prev = games_view(games@);
            games.push(e);
            proof {
                assert(games_view(games@) =~= prev.push(games_view(self.games@)[i as int]));
                assert(games_view(self.games@).take(i + 1) =~= games_view(self.games@).take(i as int).push(
                    games_view(self.games@)[i as int],
                ));
            }
            i = i + 1;
        }
        assert(games_view(self.games@).take(self.games.len() as int) =~= games_view(self.games@));
        Settings {
            game_path: self.game_path.clone(),
            mod_storage_path: self.mod_storage_path.clone(),
            current_game: self.current_game.clone(),
            games,
            first_run: self.first_run,
            nexusmods_api_key: self.nexusmods_api_key.clone(),
        }
    }
}

impl Default for Settings {
    fn default() -> (r: Self)
        ensures
            r@ == default_settings(),
    {
        let games: Vec<(String, GameConfig)> = Vec::new();
        assert(games_view(games@) =~= Seq::empty());
        Settings {
            game_path: String::new(),
            mod_storage_path: String::new(),
            current_game: String::new(),
            games,
            first_run: true,
            nexusmods_api_key: String::new(),
        }
    }
}

/// Whether settings read without a value for first launch count as a first launch.
pub fn default_first_run() -> (r: bool)
    ensures
        r,
{
    true
}

/// The settings that loading makes of what was read (`None` when the file was missing or
/// could not be parsed): see [`loaded_settings`].
pub fn load_settings(read: Option<Settings>) -> (r: Settings)
    ensures
        r@ == loaded_settings(match read {
            Some(s) => Some(s@),
            None => None,
        }),
        (read matches Some(s) ==> game_ids_distinct(s@.games)) ==> game_ids_distinct(r@.games),
{
    proof {
        if read is Some && game_ids_distinct(read->0@.games) {
            lemma_migration_keeps_legacy_path(read->0@);
        }
    }
    match read {
        None => Settings::default(),
        Some(s) => {
            let mut s = s;
            if !s.game_path.as_str().is_empty() && s.games.len() == 0 {
                let game_config = GameConfig { game_path: s.game_path.clone(), game_id: owned("cyberpunk2077") };
                let ghost before = s@;
                s.games.push((owned("cyberpunk2077"), game_config));
                s.current_game = owned("cyberpunk2077");
                s.game_path = String::new();
                proof {
                    assert(games_view(s.games@) =~= migrate_legacy_game(before).games);
                }
            }
            let ghost migrated = s@;
            if s.current_game.as_str().is_empty() && s.games.len() > 0 {
                s.current_game = s.games[0].0.clone();
                proof {
                    assert(games_view(s.games@)[0].0 == migrated.games[0].0);
                }
            }
            s
        },
    }
}

/// The user's settings together with the file they are kept in. No game ID is configured
/// twice.
pub struct AppSettings {
    settings_path: String,
    settings: Settings,
}

/// The mathematical value of an [`AppSettings`].
pub struct AppSettingsView {
    pub settings_path: Seq<char>,
    pub settings: SettingsView,
}

impl View for AppSettings {
    type V = AppSettingsView;

    closed spec fn view(&self) -> AppSettingsView {
        AppSettingsView { settings_path: self.settings_path@, settings: self.settings@ }
    }
}

/// The result that saving settings reports for how writing them ended.
pub open spec fn settings_save_message(outcome: SaveOutcome) -> Result<(), Seq<char>> {
    match outcome {
        SaveOutcome::SerializeFailed(e) => Err("Failed to serialize settings: "@ + e@),
        SaveOutcome::WriteFailed(e) => Err("Failed to write settings: "@ + e@),
        SaveOutcome::Written => Ok(()),
    }
}

impl AppSettings {
    #[verifier::type_invariant]
    spec fn game_ids_are_distinct(self) -> bool {
        game_ids_distinct(self.settings@.games)
    }

    /// The settings kept in `settings_path`, loaded from what was read there (see
    /// [`load_settings`]).
    pub fn new(settings_path: String, read: Option<Settings>) -> (r: Self)
        requires
            read matches Some(s) ==> game_ids_distinct(s@.games),
        ensures
            game_ids_distinct(r@.settings.games),
            r@.settings_path == settings_path@,
            r@.settings == loaded_settings(match read {
                Some(s) => Some(s@),
                None => None,
            }),
    {
        AppSettings { settings_path, settings: load_settings(read) }
    }

    /// The file the settings are kept in.
    pub fn settings_path(&self) -> (r: &str)
        ensures
            r@ == self@.settings_path,
    {
        self.settings_path.as_str()
    }

    /// The current settings.
    pub fn get_settings(&self) -> (r: Settings)
        ensures
            r@ == self@.settings,
            game_ids_distinct(r@.games),
    {
        proof {
            use_type_invariant(self);
        }
        self.settings.clone()
    }

    /// Takes `settings` as the current settings once they are written to the file; when
    /// writing failed the settings stay as they were and the failure is reported.
    pub fn save_settings(&mut self, settings: Settings, outcome: SaveOutcome) -> (r: Result<(), String>)
        requires
            game_ids_distinct(settings@.games),
        ensures
            game_ids_distinct(final(self)@.settings.games),
            final(self)@.settings_path == old(self)@.settings_path,
            match (r, settings_save_message(outcome)) {
                (Ok(()), Ok(())) => final(self)@.settings == settings@,
                (Err(e), Err(m)) => e@ == m && final(self)@.settings == old(self)@.settings,
                _ => false,
            },
    {
        proof {
            use_type_invariant(&*self);
        }
        match outcome {
            SaveOutcome::SerializeFailed(e) => Err(concat2("Failed to serialize settings: ", e.as_str())),
            SaveOutcome::WriteFailed(e) => Err(concat2("Failed to write settings: ", e.as_str())),
            SaveOutcome::Written => {
                self.settings = settings;
                Ok(())
            },
        }
    }
}

/// Law: loading settings a second time changes nothing: migrated settings stay as they are.
pub proof fn lemma_load_settings_idempotent(s: SettingsView)
    ensures
        loaded_settings(Some(loaded_settings(Some(s)))) == loaded_settings(Some(s)),
{
    reveal_strlit("cyberpunk2077");
}

/// Law: migration keeps the legacy game folder as the configuration of Cyberpunk 2077, and
/// keeps the configured game IDs distinct.
pub proof fn lemma_migration_keeps_legacy_path(s: SettingsView)
    requires
        game_ids_distinct(s.games),
    ensures
        game_ids_distinct(loaded_settings(Some(s)).games),
        s.game_path.len() > 0 && s.games.len() == 0 ==> {
            let t = loaded_settings(Some(s));
            &&& t.games == seq![("cyberpunk2077"@, GameConfigView { game_path: s.game_path, game_id: "cyberpunk2077"@ })]
            &&& t.current_game == "cyberpunk2077"@
            &&& t.game_path.len() == 0
        },
        s.games.len() > 0 ==> loaded_settings(Some(s)).games == s.games,
{
    reveal_strlit("cyberpunk2077");
}

} // verus!
