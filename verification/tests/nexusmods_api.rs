use crossover_mod_manager::nexusmods_api::{
    collection_info_after_send, collection_info_from_json, collection_info_request, collection_mods_after_send,
    collection_mods_from_json, collection_mods_request, decimal_text, download_link_after_send, download_link_error,
    download_link_from_links, download_link_request, mod_info_after_send, mod_info_from_json, mod_info_request,
    user_agent, validate_api_key_after_send, validate_api_key_request, ApiNext, ApiStart, CollectionInfo,
    CollectionMod, DownloadLink,
};

const NO_KEY: &str = "NexusMods API key is not configured. Please add your API key in Settings.";

#[test]
fn user_agent_text() {
    assert_eq!(user_agent(), "CrossoverModManager/1.1.0");
}

#[test]
fn decimal_texts() {
    assert_eq!(decimal_text(0), "0");
    assert_eq!(decimal_text(7), "7");
    assert_eq!(decimal_text(10), "10");
    assert_eq!(decimal_text(4294967295), "4294967295");
}

#[test]
fn download_link_needs_a_key() {
    match download_link_request("cyberpunk2077", "107", "1234", "") {
        ApiStart::Done(Err(e)) => assert_eq!(e, NO_KEY),
        other => panic!("unexpected {:?}", matches!(other, ApiStart::Send(_))),
    }
}

#[test]
fn download_link_url() {
    match download_link_request("cyberpunk2077", "107", "1234", "k") {
        ApiStart::Send(u) => assert_eq!(u, "https://api.nexusmods.com/v1/games/cyberpunk2077/mods/107/files/1234/download_link.json"),
        _ => panic!("expected a request"),
    }
}

#[test]
fn download_link_statuses() {
    match download_link_after_send("1", "2", Err("timeout".to_string())) {
        ApiNext::Done(Err(e)) => assert_eq!(e, "Failed to connect to NexusMods API: timeout"),
        _ => panic!(),
    }
    match download_link_after_send("1", "2", Ok(401)) {
        ApiNext::Done(Err(e)) => assert_eq!(e, "Invalid API key. Please check your NexusMods API key in Settings."),
        _ => panic!(),
    }
    match download_link_after_send("1", "2", Ok(404)) {
        ApiNext::Done(Err(e)) => assert_eq!(
            e,
            "Mod file not found (Mod ID: 1, File ID: 2). The file may have been removed or the IDs are incorrect."
        ),
        _ => panic!(),
    }
    assert!(matches!(download_link_after_send("1", "2", Ok(200)), ApiNext::ReadJson));
    assert!(matches!(download_link_after_send("1", "2", Ok(500)), ApiNext::ReadText));
    assert!(matches!(download_link_after_send("1", "2", Ok(302)), ApiNext::ReadText));
}

#[test]
fn download_link_error_texts() {
    assert_eq!(download_link_error(500, Some("boom".to_string())), "NexusMods API error (500 Internal Server Error): boom");
    assert_eq!(download_link_error(403, None), "NexusMods API error (403 Forbidden): Unknown error");
    assert_eq!(download_link_error(599, None), "NexusMods API error (599 <unknown status code>): Unknown error");
}

#[test]
fn download_link_from_parsed_links() {
    let links = vec![
        DownloadLink { uri: "https://cdn/1".to_string(), name: "CDN".to_string() },
        DownloadLink { uri: "https://cdn/2".to_string(), name: "Other".to_string() },
    ];
    assert_eq!(download_link_from_links(Ok(links)), Ok("https://cdn/1".to_string()));
    assert_eq!(
        download_link_from_links(Ok(Vec::new())),
        Err("No download links available. You may need a Premium account for this file.".to_string())
    );
    assert_eq!(
        download_link_from_links(Err("eof".to_string())),
        Err("Failed to parse NexusMods API response: eof".to_string())
    );
}

#[test]
fn validating_keys() {
    match validate_api_key_request("") {
        ApiStart::Done(Err(e)) => assert_eq!(e, "API key is empty"),
        _ => panic!(),
    }
    match validate_api_key_request("k") {
        ApiStart::Send(u) => assert_eq!(u, "https://api.nexusmods.com/v1/users/validate.json"),
        _ => panic!(),
    }
    assert_eq!(validate_api_key_after_send(Ok(200)), Ok(true));
    assert_eq!(validate_api_key_after_send(Ok(401)), Ok(false));
    assert_eq!(
        validate_api_key_after_send(Err("dns".to_string())),
        Err("Failed to connect to NexusMods API: dns".to_string())
    );
}

#[test]
fn mod_info_without_key_is_unknown() {
    match mod_info_request("skyrim", "55", "") {
        ApiStart::Done(Ok((n, v, a))) => {
            assert_eq!(n, "Mod_55");
            assert_eq!(v, "Unknown");
            assert_eq!(a, "Unknown");
        },
        _ => panic!(),
    }
    match mod_info_request("skyrim", "55", "k") {
        ApiStart::Send(u) => assert_eq!(u, "https://api.nexusmods.com/v1/games/skyrim/mods/55.json"),
        _ => panic!(),
    }
}

#[test]
fn mod_info_statuses() {
    match mod_info_after_send(Ok(500)) {
        ApiNext::Done(Err(e)) => assert_eq!(e, "Failed to get mod info: HTTP 500 Internal Server Error"),
        _ => panic!(),
    }
    match mod_info_after_send(Ok(404)) {
        ApiNext::Done(Err(e)) => assert_eq!(e, "Failed to get mod info: HTTP 404 Not Found"),
        _ => panic!(),
    }
    match mod_info_after_send(Err("x".to_string())) {
        ApiNext::Done(Err(e)) => assert_eq!(e, "Failed to get mod info: x"),
        _ => panic!(),
    }
    assert!(matches!(mod_info_after_send(Ok(200)), ApiNext::ReadJson));
    assert_eq!(
        mod_info_from_json(Ok(("N".to_string(), "V".to_string(), "A".to_string()))),
        Ok(("N".to_string(), "V".to_string(), "A".to_string()))
    );
    assert_eq!(mod_info_from_json(Err("bad".to_string())), Err("Failed to parse mod info: bad".to_string()));
}

#[test]
fn collection_info_flow() {
    match collection_info_request("cyberpunk2077", "abc", "") {
        ApiStart::Done(Err(e)) => assert_eq!(e, NO_KEY),
        _ => panic!(),
    }
    match collection_info_request("cyberpunk2077", "abc", "k") {
        ApiStart::Send(u) => assert_eq!(u, "https://api.nexusmods.com/v1/games/cyberpunk2077/collections/abc.json"),
        _ => panic!(),
    }
    match collection_info_after_send(Ok(404)) {
        ApiNext::Done(Err(e)) => assert_eq!(e, "Failed to get collection info: HTTP 404 Not Found"),
        _ => panic!(),
    }
    match collection_info_after_send(Err("x".to_string())) {
        ApiNext::Done(Err(e)) => assert_eq!(e, "Failed to get collection info: x"),
        _ => panic!(),
    }
    assert!(matches!(collection_info_after_send(Ok(200)), ApiNext::ReadJson));
    let info = CollectionInfo {
        name: "C".to_string(),
        summary: "S".to_string(),
        author: "A".to_string(),
        total_downloads: 5,
        revision_number: 2,
        mod_count: 3,
    };
    assert_eq!(collection_info_from_json(Ok(info)).unwrap().mod_count, 3);
    assert_eq!(
        collection_info_from_json(Err("e".to_string())).unwrap_err(),
        "Failed to parse collection info: e"
    );
}

#[test]
fn collection_mods_flow() {
    match collection_mods_request("skyrim", "xyz", 12, "") {
        ApiStart::Done(Err(e)) => assert_eq!(e, NO_KEY),
        _ => panic!(),
    }
    match collection_mods_request("skyrim", "xyz", 12, "k") {
        ApiStart::Send(u) => assert_eq!(
            u,
            "https://api.nexusmods.com/v1/games/skyrim/collections/xyz/revisions/12/download_links.json"
        ),
        _ => panic!(),
    }
    match collection_mods_after_send(Ok(503)) {
        ApiNext::Done(Err(e)) => assert_eq!(e, "Failed to get collection mods: HTTP 503 Service Unavailable"),
        _ => panic!(),
    }
    match collection_mods_after_send(Err("reset".to_string())) {
        ApiNext::Done(Err(e)) => assert_eq!(e, "Failed to get collection mods: reset"),
        _ => panic!(),
    }
    let mods = vec![CollectionMod { mod_id: 1, file_id: 2, name: "M".to_string(), version: "1".to_string(), is_optional: true }];
    assert_eq!(collection_mods_from_json(Ok(mods)).unwrap()[0].file_id, 2);
    assert_eq!(collection_mods_from_json(Err("e".to_string())).unwrap_err(), "Failed to parse collection mods: e");
}
