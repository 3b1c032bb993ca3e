//! Conversations with the NexusMods API: what to ask, and what each answer means.

use vstd::prelude::*;

use crate::external::{status_display, status_text};
use crate::text::{concat2, owned};

verus! {

/// A download link as the NexusMods API lists it.
#[derive(Debug)]
pub struct DownloadLink {
    pub uri: String,
    pub name: String,
}

/// A NexusMods collection.
#[derive(Debug)]
pub struct CollectionInfo {
    pub name: String,
    pub summary: String,
    pub author: String,
    pub total_downloads: u64,
    pub revision_number: u32,
    pub mod_count: u32,
}

/// A mod of a NexusMods collection.
#[derive(Debug)]
pub struct CollectionMod {
    pub mod_id: u64,
    pub file_id: u64,
    pub name: String,
    pub version: String,
    pub is_optional: bool,
}

/// How a NexusMods request starts: answered without the network, or by a GET of this URL
/// (sent with the API key and the manager's user agent).
pub enum ApiStart<R> {
    Done(R),
    Send(String),
}

/// What follows once the response's status is known: the answer, or reading the body as text
/// or as JSON.
pub enum ApiNext<R> {
    Done(R),
    ReadText,
    ReadJson,
}

/// The user agent sent with every request.
pub fn user_agent() -> (r: String)
    ensures
        r@ == "CrossoverModManager/1.1.0"@,
{
    owned("CrossoverModManager/1.1.0")
}

/// A status code in 200..=299.
pub open spec fn is_success(status: u16) -> bool {
    200 <= status < 300
}

/// The text of a digit.
pub open spec fn digit_text(d: nat) -> Seq<char> {
    if d == 0 { "0"@ }
    else if d == 1 { "1"@ }
    else if d == 2 { "2"@ }
    else if d == 3 { "3"@ }
    else if d == 4 { "4"@ }
    else if d == 5 { "5"@ }
    else if d == 6 { "6"@ }
    else if d == 7 { "7"@ }
    else if d == 8 { "8"@ }
    else { "9"@ }
}

/// The decimal text of a number.
pub open spec fn decimal(n: nat) -> Seq<char>
    decreases n,
{
    if n < 10 {
        digit_text(n)
    } else {
        decimal(n / 10) + digit_text(n % 10)
    }
}

fn digit(d: u32) -> (r: &'static str)
    requires
        d < 10,
    ensures
        r@ == digit_text(d as nat),
{
    if d == 0 { "0" }
    else if d == 1 { "1" }
    else if d == 2 { "2" }
    else if d == 3 { "3" }
    else if d == 4 { "4" }
    else if d == 5 { "5" }
    else if d == 6 { "6" }
    else if d == 7 { "7" }
    else if d == 8 { "8" }
    else { "9" }
}

/// The decimal text of a number.
pub fn decimal_text(n: u32) -> (r: String)
    ensures
        r@ == decimal(n as nat),
    decreases n,
{
    if n < 10 {
        owned(digit(n))
    } else {
        let mut r = decimal_text(n / 10);
        r.append(digit(n % 10));
        r
    }
}

/// The number that a text of decimal digits stands for, read in base 10.
pub open spec fn numeral_value(s: Seq<char>) -> int
    decreases s.len(),
{
    if s.len() == 0 {
        0
    } else {
        numeral_value(s.drop_last()) * 10 + (s.last() as int - '0' as int)
    }
}

/// The text is made of decimal digits only.
pub open spec fn all_decimal_digits(s: Seq<char>) -> bool {
    forall|i: int| 0 <= i < s.len() ==> '0' <= #[trigger] s[i] <= '9'
}

/// Each digit below ten is written as the single character that stands for it.
proof fn lemma_digit_text(d: nat)
    requires
        d < 10,
    ensures
        digit_text(d).len() == 1,
        digit_text(d)[0] as int == '0' as int + d,
{
    reveal_strlit("0");
    reveal_strlit("1");
    reveal_strlit("2");
    reveal_strlit("3");
    reveal_strlit("4");
    reveal_strlit("5");
    reveal_strlit("6");
    reveal_strlit("7");
    reveal_strlit("8");
    reveal_strlit("9");
}

/// Law: the decimal text of a number is its base-10 numeral: it is not empty, it is made of
/// digit characters only, it starts with `0` only for zero, and read in base 10 it gives the
/// number back. In particular each digit `d` below ten is the single character `'0' + d`.
pub proof fn lemma_decimal_is_numeral(n: nat)
    ensures
        decimal(n).len() > 0,
        all_decimal_digits(decimal(n)),
        numeral_value(decimal(n)) == n,
        decimal(n)[0] == '0' ==> n == 0,
        n < 10 ==> decimal(n) == seq![decimal(n)[0]] && decimal(n)[0] as int == '0' as int + n,
    decreases n,
{
    if n < 10 {
        lemma_digit_text(n);
        let s = decimal(n);
        assert(s.drop_last() =~= Seq::<char>::empty());
        assert(numeral_value(Seq::<char>::empty()) == 0);
        assert(numeral_value(s) == numeral_value(s.drop_last()) * 10 + (s.last() as int - '0' as int));
        assert(s =~= seq![s[0]]);
    } else {
        lemma_decimal_is_numeral(n / 10);
        lemma_digit_text(n % 10);
        let p = decimal(n / 10);
        let d = digit_text(n % 10);
        let s = decimal(n);
        assert(s == p + d);
        assert(s.drop_last() =~= p);
        assert(s.last() == d[0]);
        assert(s[0] == p[0]);
        assert(numeral_value(s) == numeral_value(p) * 10 + (d[0] as int - '0' as int));
        vstd::arithmetic::div_mod::lemma_fundamental_div_mod(n as int, 10);
        assert forall|i: int| 0 <= i < s.len() implies '0' <= #[trigger] s[i] <= '9' by {
            if i < p.len() {
                assert(s[i] == p[i]);
            } else {
                assert(s[i] == d[0]);
            }
        }
    }
}

/// The message for requests that need an API key when none is configured.
pub open spec fn missing_key_message() -> Seq<char> {
    "NexusMods API key is not configured. Please add your API key in Settings."@
}

fn missing_key() -> (r: String)
    ensures
        r@ == missing_key_message(),
{
    owned("NexusMods API key is not configured. Please add your API key in Settings.")
}

/// The URL that lists the download links of a mod file.
pub open spec fn download_link_url(game_domain: Seq<char>, mod_id: Seq<char>, file_id: Seq<char>) -> Seq<char> {
    "https://api.nexusmods.com/v1/games/"@ + game_domain + "/mods/"@ + mod_id + "/files/"@ + file_id
        + "/download_link.json"@
}

/// Starts asking for the download URL of a mod file: without an API key that fails at once.
pub fn download_link_request(game_domain: &str, mod_id: &str, file_id: &str, api_key: &str)
    -> (r: ApiStart<Result<String, String>>)
    ensures
        match r {
            ApiStart::Done(Err(e)) => api_key@.len() == 0 && e@ == missing_key_message(),
            ApiStart::Send(u) => api_key@.len() > 0 && u@ == download_link_url(game_domain@, mod_id@, file_id@),
            _ => false,
        },
{
    if api_key.is_empty() {
        return ApiStart::Done(Err(missing_key()));
    }
    let mut u = owned("https://api.nexusmods.com/v1/games/");
    u.append(game_domain);
    u.append("/mods/");
    u.append(mod_id);
    u.append("/files/");
    u.append(file_id);
    u.append("/download_link.json");
    ApiStart::Send(u)
}

/// The message when a mod file is not found.
pub open spec fn file_not_found_message(mod_id: Seq<char>, file_id: Seq<char>) -> Seq<char> {
    "Mod file not found (Mod ID: "@ + mod_id + ", File ID: "@ + file_id
        + "). The file may have been removed or the IDs are incorrect."@
}

/// What follows sending the download-link request: the transport error text, or the status.
/// 401 and 404 fail at once, another failing status reads the body as text, success reads
/// the body as JSON.
pub fn download_link_after_send(mod_id: &str, file_id: &str, sent: Result<u16, String>)
    -> (r: ApiNext<Result<String, String>>)
    ensures
        match sent {
            Err(t) => r matches ApiNext::Done(Err(e)) && e@ == "Failed to connect to NexusMods API: "@ + t@,
            Ok(401) => r matches ApiNext::Done(Err(e))
                && e@ == "Invalid API key. Please check your NexusMods API key in Settings."@,
            Ok(404) => r matches ApiNext::Done(Err(e)) && e@ == file_not_found_message(mod_id@, file_id@),
            Ok(s) => if is_success(s) { r is ReadJson } else { r is ReadText },
        },
{
    match sent {
        Err(t) => ApiNext::Done(Err(concat2("Failed to connect to NexusMods API: ", t.as_str()))),
        Ok(s) => {
            if s == 401 {
                ApiNext::Done(Err(owned("Invalid API key. Please check your NexusMods API key in Settings.")))
            } else if s == 404 {
                let mut e = owned("Mod file not found (Mod ID: ");
                e.append(mod_id);
                e.append(", File ID: ");
                e.append(file_id);
                e.append("). The file may have been removed or the IDs are incorrect.");
                ApiNext::Done(Err(e))
            } else if 200 <= s && s < 300 {
                ApiNext::ReadJson
            } else {
                ApiNext::ReadText
            }
        },
    }
}

/// The error for a failing status, with the body's text (`None` when it could not be read).
pub fn download_link_error(status: u16, body: Option<String>) -> (r: String)
    requires
        100 <= status <= 999,
    ensures
        r@ == "NexusMods API error ("@ + status_text(status) + "): "@ + match body {
            Some(b) => b@,
            None => "Unknown error"@,
        },
{
    let mut r = owned("NexusMods API error (");
    let st = status_display(status);
    r.append(st.as_str());
    r.append("): ");
    match body {
        Some(b) => r.append(b.as_str()),
        None => r.append("Unknown error"),
    }
    r
}

/// The download URL from the parsed links (or the parse error text): the first link.
pub fn download_link_from_links(parsed: Result<Vec<DownloadLink>, String>) -> (r: Result<String, String>)
    ensures
        match parsed {
            Err(t) => r matches Err(e) && e@ == "Failed to parse NexusMods API response: "@ + t@,
            Ok(links) => if links.len() > 0 {
                r matches Ok(u) && u@ == links[0].uri@
            } else {
                r matches Err(e) && e@ == "No download links available. You may need a Premium account for this file."@
            },
        },
{
    match parsed {
        Err(t) => Err(concat2("Failed to parse NexusMods API response: ", t.as_str())),
        Ok(links) => {
            if links.len() > 0 {
                Ok(links[0].uri.clone())
            } else {
                Err(owned("No download links available. You may need a Premium account for this file."))
            }
        },
    }
}

/// Starts validating an API key: an empty key fails at once.
pub fn validate_api_key_request(api_key: &str) -> (r: ApiStart<Result<bool, String>>)
    ensures
        match r {
            ApiStart::Done(Err(e)) => api_key@.len() == 0 && e@ == "API key is empty"@,
            ApiStart::Send(u) => api_key@.len() > 0 && u@ == "https://api.nexusmods.com/v1/users/validate.json"@,
            _ => false,
        },
{
    if api_key.is_empty() {
        return ApiStart::Done(Err(owned("API key is empty")));
    }
    ApiStart::Send(owned("https://api.nexusmods.com/v1/users/validate.json"))
}

/// Whether the key is valid, from the transport error text or the status: valid exactly on
/// a success status.
pub fn validate_api_key_after_send(sent: Result<u16, String>) -> (r: Result<bool, String>)
    ensures
        match sent {
            Err(t) => r matches Err(e) && e@ == "Failed to connect to NexusMods API: "@ + t@,
            Ok(s) => r == Ok::<bool, String>(is_success(s)),
        },
{
    match sent {
        Err(t) => Err(concat2("Failed to connect to NexusMods API: ", t.as_str())),
        Ok(s) => Ok(200 <= s && s < 300),
    }
}

/// The name, version and author reported for a mod whose details are unavailable.
pub open spec fn unknown_mod_info(mod_id: Seq<char>) -> (Seq<char>, Seq<char>, Seq<char>) {
    ("Mod_"@ + mod_id, "Unknown"@, "Unknown"@)
}

fn unknown_mod(mod_id: &str) -> (r: (String, String, String))
    ensures
        (r.0@, r.1@, r.2@) == unknown_mod_info(mod_id@),
{
    (concat2("Mod_", mod_id), owned("Unknown"), owned("Unknown"))
}

/// The URL of a mod's details.
pub open spec fn mod_info_url(game_domain: Seq<char>, mod_id: Seq<char>) -> Seq<char> {
    "https://api.nexusmods.com/v1/games/"@ + game_domain + "/mods/"@ + mod_id + ".json"@
}

/// Starts asking for a mod's name, version and author: without an API key the mod is
/// reported as unknown at once.
pub fn mod_info_request(game_domain: &str, mod_id: &str, api_key: &str)
    -> (r: ApiStart<Result<(String, String, String), String>>)
    ensures
        match r {
            ApiStart::Done(Ok(t)) => api_key@.len() == 0 && (t.0@, t.1@, t.2@) == unknown_mod_info(mod_id@),
            ApiStart::Send(u) => api_key@.len() > 0 && u@ == mod_info_url(game_domain@, mod_id@),
            _ => false,
        },
{
    if api_key.is_empty() {
        return ApiStart::Done(Ok(unknown_mod(mod_id)));
    }
    let mut u = owned("https://api.nexusmods.com/v1/games/");
    u.append(game_domain);
    u.append("/mods/");
    u.append(mod_id);
    u.append(".json");
    ApiStart::Send(u)
}

/// What follows sending the mod-details request: a transport error or a failing status
/// fails, success reads the body as JSON.
pub fn mod_info_after_send(sent: Result<u16, String>) -> (r: ApiNext<Result<(String, String, String), String>>)
    requires
        sent matches Ok(s) ==> 100 <= s <= 999,
    ensures
        match sent {
            Err(t) => r matches ApiNext::Done(Err(e)) && e@ == "Failed to get mod info: "@ + t@,
            Ok(s) => if is_success(s) {
                r is ReadJson
            } else {
                r matches ApiNext::Done(Err(e)) && e@ == "Failed to get mod info: HTTP "@ + status_text(s)
            },
        },
{
    match sent {
        Err(t) => ApiNext::Done(Err(concat2("Failed to get mod info: ", t.as_str()))),
        Ok(s) => {
            if 200 <= s && s < 300 {
                ApiNext::ReadJson
            } else {
                let st = status_display(s);
                ApiNext::Done(Err(concat2("Failed to get mod info: HTTP ", st.as_str())))
            }
        },
    }
}

/// The mod's name, version and author from the parsed body (or the parse error text).
pub fn mod_info_from_json(parsed: Result<(String, String, String), String>) -> (r: Result<(String, String, String), String>)
    ensures
        match parsed {
            Err(t) => r matches Err(e) && e@ == "Failed to parse mod info: "@ + t@,
            Ok(t) => r == Ok::<(String, String, String), String>(t),
        },
{
    match parsed {
        Err(t) => Err(concat2("Failed to parse mod info: ", t.as_str())),
        Ok(t) => Ok(t),
    }
}

/// The URL of a collection's details.
pub open spec fn collection_info_url(game_domain: Seq<char>, collection_id: Seq<char>) -> Seq<char> {
    "https://api.nexusmods.com/v1/games/"@ + game_domain + "/collections/"@ + collection_id + ".json"@
}

/// Starts asking for a collection's details: without an API key that fails at once.
pub fn collection_info_request(game_domain: &str, collection_id: &str, api_key: &str)
    -> (r: ApiStart<Result<CollectionInfo, String>>)
    ensures
        match r {
            ApiStart::Done(Err(e)) => api_key@.len() == 0 && e@ == missing_key_message(),
            ApiStart::Send(u) => api_key@.len() > 0 && u@ == collection_info_url(game_domain@, collection_id@),
            _ => false,
        },
{
    if api_key.is_empty() {
        return ApiStart::Done(Err(missing_key()));
    }
    let mut u = owned("https://api.nexusmods.com/v1/games/");
    u.append(game_domain);
    u.append("/collections/");
    u.append(collection_id);
    u.append(".json");
    ApiStart::Send(u)
}

/// What follows sending the collection-details request: a transport error or a failing
/// status fails, success reads the body as JSON.
pub fn collection_info_after_send(sent: Result<u16, String>) -> (r: ApiNext<Result<CollectionInfo, String>>)
    requires
        sent matches Ok(s) ==> 100 <= s <= 999,
    ensures
        match sent {
            Err(t) => r matches ApiNext::Done(Err(e)) && e@ == "Failed to get collection info: "@ + t@,
            Ok(s) => if is_success(s) {
                r is ReadJson
            } else {
                r matches ApiNext::Done(Err(e)) && e@ == "Failed to get collection info: HTTP "@ + status_text(s)
            },
        },
{
    match sent {
        Err(t) => ApiNext::Done(Err(concat2("Failed to get collection info: ", t.as_str()))),
        Ok(s) => {
            if 200 <= s && s < 300 {
                ApiNext::ReadJson
            } else {
                let st = status_display(s);
                ApiNext::Done(Err(concat2("Failed to get collection info: HTTP ", st.as_str())))
            }
        },
    }
}

/// The collection from the parsed body (or the parse error text).
pub fn collection_info_from_json(parsed: Result<CollectionInfo, String>) -> (r: Result<CollectionInfo, String>)
    ensures
        match parsed {
            Err(t) => r matches Err(e) && e@ == "Failed to parse collection info: "@ + t@,
            Ok(c) => r == Ok::<CollectionInfo, String>(c),
        },
{
    match parsed {
        Err(t) => Err(concat2("Failed to parse collection info: ", t.as_str())),
        Ok(c) => Ok(c),
    }
}

/// The URL that lists the mods of a collection revision.
pub open spec fn collection_mods_url(game_domain: Seq<char>, collection_id: Seq<char>, revision_number: u32) -> Seq<char> {
    "https://api.nexusmods.com/v1/games/"@ + game_domain + "/collections/"@ + collection_id + "/revisions/"@
        + decimal(revision_number as nat) + "/download_links.json"@
}

/// Starts asking for the mods of a collection revision: without an API key that fails at
/// once.
pub fn collection_mods_request(game_domain: &str, collection_id: &str, revision_number: u32, api_key: &str)
    -> (r: ApiStart<Result<Vec<CollectionMod>, String>>)
    ensures
        match r {
            ApiStart::Done(Err(e)) => api_key@.len() == 0 && e@ == missing_key_message(),
            ApiStart::Send(u) => api_key@.len() > 0 && u@ == collection_mods_url(game_domain@, collection_id@, revision_number),
            _ => false,
        },
{
    if api_key.is_empty() {
        return ApiStart::Done(Err(missing_key()));
    }
    let mut u = owned("https://api.nexusmods.com/v1/games/");
    u.append(game_domain);
    u.append("/collections/");
    u.append(collection_id);
    u.append("/revisions/");
    let rev = decimal_text(revision_number);
    u.append(rev.as_str());
    u.append("/download_links.json");
    ApiStart::Send(u)
}

/// What follows sending the collection-mods request: a transport error or a failing status
/// fails, success reads the body as JSON.
pub fn collection_mods_after_send(sent: Result<u16, String>) -> (r: ApiNext<Result<Vec<CollectionMod>, String>>)
    requires
        sent matches Ok(s) ==> 100 <= s <= 999,
    ensures
        match sent {
            Err(t) => r matches ApiNext::Done(Err(e)) && e@ == "Failed to get collection mods: "@ + t@,
            Ok(s) => if is_success(s) {
                r is ReadJson
            } else {
                r matches ApiNext::Done(Err(e)) && e@ == "Failed to get collection mods: HTTP "@ + status_text(s)
            },
        },
{
    match sent {
        Err(t) => ApiNext::Done(Err(concat2("Failed to get collection mods: ", t.as_str()))),
        Ok(s) => {
            if 200 <= s && s < 300 {
                ApiNext::ReadJson
            } else {
                let st = status_display(s);
                ApiNext::Done(Err(concat2("Failed to get collection mods: HTTP ", st.as_str())))
            }
        },
    }
}

/// The collection's mods from the parsed body (or the parse error text).
pub fn collection_mods_from_json(parsed: Result<Vec<CollectionMod>, String>) -> (r: Result<Vec<CollectionMod>, String>)
    ensures
        match parsed {
            Err(t) => r matches Err(e) && e@ == "Failed to parse collection mods: "@ + t@,
            Ok(m) => r == Ok::<Vec<CollectionMod>, String>(m),
        },
{
    match parsed {
        Err(t) => Err(concat2("Failed to parse collection mods: ", t.as_str())),
        Ok(m) => Ok(m),
    }
}

} // verus!
