//! The games the manager supports, and finding a game by ID or by what is in its folder.

use vstd::prelude::*;

use crate::text::{owned, same_text};

verus! {

/// A game that the manager supports: how to recognise its folder and where its mods go.
#[derive(Debug)]
pub struct GameDefinition {
    pub id: String,
    pub name: String,
    /// The game's name in NexusMods URLs.
    pub nexus_domain: String,
    /// Files, relative to the game folder, whose presence identifies the game.
    pub detection_files: Vec<String>,
    pub mod_directories: Vec<String>,
    pub supports_load_order: bool,
}

/// The mathematical value of a [`GameDefinition`].
pub struct GameDefinitionView {
    pub id: Seq<char>,
    pub name: Seq<char>,
    pub nexus_domain: Seq<char>,
    pub detection_files: Seq<Seq<char>>,
    pub mod_directories: Seq<Seq<char>>,
    pub supports_load_order: bool,
}

impl View for GameDefinition {
    type V = GameDefinitionView;

    open spec fn view(&self) -> GameDefinitionView {
        GameDefinitionView {
            id: self.id@,
            name: self.name@,
            nexus_domain: self.nexus_domain@,
            detection_files: self.detection_files.deep_view(),
            mod_directories: self.mod_directories.deep_view(),
            supports_load_order: self.supports_load_order,
        }
    }
}

/// The views of a sequence of game definitions.
pub open spec fn games_view(v: Seq<GameDefinition>) -> Seq<GameDefinitionView> {
    v.map_values(|g: GameDefinition| g@)
}

/// Cyberpunk 2077.
pub open spec fn cyberpunk2077_spec() -> GameDefinitionView {
    GameDefinitionView {
        id: "cyberpunk2077"@,
        name: "Cyberpunk 2077"@,
        nexus_domain: "cyberpunk2077"@,
        detection_files: seq!["bin/x64/Cyberpunk2077.exe"@, "Cyberpunk2077.exe"@, "engine/config/base/engine.ini"@],
        mod_directories: seq![
            "archive/pc/mod"@,
            "bin/x64/plugins"@,
            "r6/scripts"@,
            "red4ext/plugins"@,
            "mods"@,
        ],
        supports_load_order: true,
    }
}

/// Skyrim.
pub open spec fn skyrim_spec() -> GameDefinitionView {
    GameDefinitionView {
        id: "skyrim"@,
        name: "Skyrim"@,
        nexus_domain: "skyrim"@,
        detection_files: seq!["TESV.exe"@, "SkyrimLauncher.exe"@],
        mod_directories: seq!["Data"@],
        supports_load_order: true,
    }
}

/// Skyrim Special Edition.
pub open spec fn skyrim_se_spec() -> GameDefinitionView {
    GameDefinitionView {
        id: "skyrimse"@,
        name: "Skyrim Special Edition"@,
        nexus_domain: "skyrimspecialedition"@,
        detection_files: seq!["SkyrimSE.exe"@, "SkyrimSELauncher.exe"@],
        mod_directories: seq!["Data"@],
        supports_load_order: true,
    }
}

/// The supported games, in the order in which detection tries them.
pub open spec fn supported_games() -> Seq<GameDefinitionView> {
    seq![cyberpunk2077_spec(), skyrim_spec(), skyrim_se_spec()]
}

/// The first game of `games` with this ID.
pub open spec fn game_with_id(games: Seq<GameDefinitionView>, id: Seq<char>) -> Option<GameDefinitionView>
    decreases games.len(),
{
    if games.len() == 0 {
        None
    } else if games[0].id == id {
        Some(games[0])
    } else {
        game_with_id(games.drop_first(), id)
    }
}

/// Some detection file of the game is among the files found in a folder.
pub open spec fn detected_in(g: GameDefinitionView, found: Seq<Seq<char>>) -> bool {
    exists|k: int| 0 <= k < g.detection_files.len() && found.contains(#[trigger] g.detection_files[k])
}

/// The first game of `games` that the found files identify.
pub open spec fn first_detected(games: Seq<GameDefinitionView>, found: Seq<Seq<char>>) -> Option<GameDefinitionView>
    decreases games.len(),
{
    if games.len() == 0 {
        None
    } else if detected_in(games[0], found) {
        Some(games[0])
    } else {
        first_detected(games.drop_first(), found)
    }
}

/// A vector of texts from literals.
fn texts(a: &str, b: &str) -> (r: Vec<String>)
    ensures
        r.deep_view() == seq![a@, b@],
{
    let mut r: Vec<String> = Vec::new();
    r.push(owned(a));
    r.push(owned(b));
    assert(r.deep_view() =~= seq![a@, b@]);
    r
}

impl GameDefinition {
    /// Cyberpunk 2077.
    pub fn cyberpunk2077() -> (r: Self)
        ensures
            r@ == cyberpunk2077_spec(),
    {
        let mut detection_files = texts("bin/x64/Cyberpunk2077.exe", "Cyberpunk2077.exe");
        let ghost d0 = detection_files.deep_view();
        detection_files.push(owned("engine/config/base/engine.ini"));
        assert(detection_files.deep_view() =~= d0.push("engine/config/base/engine.ini"@));
        let mut mod_directories = texts("archive/pc/mod", "bin/x64/plugins");
        let ghost m0 = mod_directories.deep_view();
        mod_directories.push(owned("r6/scripts"));
        mod_directories.push(owned("red4ext/plugins"));
        mod_directories.push(owned("mods"));
        assert(mod_directories.deep_view() =~= m0.push("r6/scripts"@).push("red4ext/plugins"@).push("mods"@));
        let r = Self {
            id: owned("cyberpunk2077"),
            name: owned("Cyberpunk 2077"),
            nexus_domain: owned("cyberpunk2077"),
            detection_files,
            mod_directories,
            supports_load_order: true,
        };
        assert(r.detection_files.deep_view() =~= cyberpunk2077_spec().detection_files);
        assert(r.mod_directories.deep_view() =~= cyberpunk2077_spec().mod_directories);
        r
    }

    /// Skyrim.
    pub fn skyrim() -> (r: Self)
        ensures
            r@ == skyrim_spec(),
    {
        let mut mod_directories: Vec<String> = Vec::new();
        mod_directories.push(owned("Data"));
        assert(mod_directories.deep_view() =~= seq!["Data"@]);
        Self {
            id: owned("skyrim"),
            name: owned("Skyrim"),
            nexus_domain: owned("skyrim"),
            detection_files: texts("TESV.exe", "SkyrimLauncher.exe"),
            mod_directories,
            supports_load_order: true,
        }
    }

    /// Skyrim Special Edition.
    pub fn skyrim_se() -> (r: Self)
        ensures
            r@ == skyrim_se_spec(),
    {
        let mut mod_directories: Vec<String> = Vec::new();
        mod_directories.push(owned("Data"));
        assert(mod_directories.deep_view() =~= seq!["Data"@]);
        Self {
            id: owned("skyrimse"),
            name: owned("Skyrim Special Edition"),
            nexus_domain: owned("skyrimspecialedition"),
            detection_files: texts("SkyrimSE.exe", "SkyrimSELauncher.exe"),
            mod_directories,
            supports_load_order: true,
        }
    }
}

/// The supported games, each once.
pub fn get_supported_games() -> (r: Vec<GameDefinition>)
    ensures
        games_view(r@) == supported_games(),
{
    let mut r: Vec<GameDefinition> = Vec::new();
    r.push(GameDefinition::cyberpunk2077());
    r.push(GameDefinition::skyrim());
    r.push(GameDefinition::skyrim_se());
    assert(games_view(r@) =~= supported_games());
    r
}

/// Whether some file of `files` equals `f`.
fn found_in(files: &Vec<String>, f: &String) -> (r: bool)
    ensures
        r == files.deep_view().contains(f@),
{
    let mut i: usize = 0;
    while i < files.len()
        invariant
            i <= files.len(),
            forall|j: int| 0 <= j < i ==> files.deep_view()[j] != f@,
        decreases files.len() - i,
    {
        if files[i] == *f {
            assert(files.deep_view()[i as int] == f@);
            return true;
        }
        i = i + 1;
    }
    false
}

/// The game installed in a folder: `None` when the path is not a folder, otherwise the first
/// supported game (in the order of [`supported_games`]) one of whose detection files is among
/// `found`, the detection files that exist in the folder.
pub fn detect_game_from_path(path_is_dir: bool, found: &Vec<String>) -> (r: Option<GameDefinition>)
    ensures
        match r {
            Some(g) => path_is_dir && first_detected(supported_games(), found.deep_view()) == Some(g@),
            None => !path_is_dir || first_detected(supported_games(), found.deep_view()) is None,
        },
{
    if !path_is_dir {
        return None;
    }
    let games = get_supported_games();
    let ghost all = games_view(games@);
    let mut games = games;
    assert(all.skip(0) =~= all);
    let mut i: usize = 0;
    while i < games.len()
        invariant
            i <= games.len(),
            games.len() == 3,
            all == supported_games(),
            path_is_dir,
            forall|k: int| i <= k < 3 ==> #[trigger] games_view(games@)[k] == all[k],
            first_detected(all, found.deep_view()) == first_detected(all.skip(i as int), found.deep_view()),
        decreases games.len() - i,
    {
        let ghost rest = all.skip(i as int);
        assert(rest.len() == 3 - i);
        assert(rest[0] == all[i as int]);
        assert(rest.drop_first() =~= all.skip(i + 1));
        assert(games_view(games@)[i as int] == games@[i as int]@);
        let g = &games[i];
        assert(g@ == rest[0]);
        let mut hit = false;
        let mut k: usize = 0;
        while k < g.detection_files.len()
            invariant
                k <= g.detection_files.len(),
                hit == exists|j: int| 0 <= j < k && found.deep_view().contains(#[trigger] g@.detection_files[j]),
            decreases g.detection_files.len() - k,
        {
            if found_in(found, &g.detection_files[k]) {
                assert(found.deep_view().contains(g@.detection_files[k as int]));
                hit = true;
            }
            k = k + 1;
        }
        if hit {
            assert(detected_in(g@, found.deep_view()));
            assert(first_detected(rest, found.deep_view()) == Some(rest[0]));
            let chosen = games.remove(i);
            assert(chosen@ == rest[0]);
            return Some(chosen);
        }
        i = i + 1;
    }
    assert(all.skip(3) =~= Seq::<GameDefinitionView>::empty());
    None
}

/// The supported game with this ID, if any.
pub fn get_game_by_id(game_id: &str) -> (r: Option<GameDefinition>)
    ensures
        match r {
            Some(g) => game_with_id(supported_games(), game_id@) == Some(g@),
            None => game_with_id(supported_games(), game_id@) is None,
        },
{
    let mut games = get_supported_games();
    let ghost all = games_view(games@);
    assert(all.skip(0) =~= all);
    let mut i: usize = 0;
    while i < games.len()
        invariant
            i <= games.len(),
            games.len() == 3,
            all == supported_games(),
            forall|k: int| 0 <= k < 3 ==> #[trigger] games_view(games@)[k] == all[k],
            game_with_id(all, game_id@) == game_with_id(all.skip(i as int), game_id@),
        decreases games.len() - i,
    {
        let ghost rest = all.skip(i as int);
        assert(rest.len() == 3 - i);
        assert(rest[0] == all[i as int]);
        assert(rest.drop_first() =~= all.skip(i + 1));
        assert(games_view(games@)[i as int] == games@[i as int]@);
        if same_text(games[i].id.as_str(), game_id) {
            let chosen = games.remove(i);
            return Some(chosen);
        }
        i = i + 1;
    }
    assert(all.skip(3) =~= Seq::<GameDefinitionView>::empty());
    None
}

/// Law: the supported games have distinct IDs, so looking a game up by the ID of a supported
/// game gives that game.
pub proof fn lemma_game_ids_distinct()
    ensures
        forall|a: int, b: int| 0 <= a < b < supported_games().len() ==> #[trigger] supported_games()[a].id != #[trigger] supported_games()[b].id,
        forall|k: int| 0 <= k < supported_games().len() ==> game_with_id(supported_games(), #[trigger] supported_games()[k].id) == Some(supported_games()[k]),
{
    reveal_strlit("cyberpunk2077");
    reveal_strlit("skyrim");
    reveal_strlit("skyrimse");
    assert("cyberpunk2077"@.len() == 13);
    assert("skyrim"@.len() == 6);
    assert("skyrimse"@.len() == 8);
    assert("cyberpunk2077"@ != "skyrim"@);
    assert("cyberpunk2077"@ != "skyrimse"@);
    assert("skyrim"@ != "skyrimse"@);
    let s = supported_games();
    assert(s.drop_first() =~= seq![skyrim_spec(), skyrim_se_spec()]);
    assert(s.drop_first().drop_first() =~= seq![skyrim_se_spec()]);
    reveal_with_fuel(game_with_id, 4);
}

} // verus!
