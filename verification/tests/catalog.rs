use dumpspace_api::{Game, GameList, Json, LoadError, Uploader};

const CATALOG: &str = r#"{
  "games": [
    {"hash":"aaaa0001","name":"First","engine":"Unreal-Engine-4","location":"First-Game",
     "uploaded":1700000000001,"uploader":{"name":"ann","link":"https://example.org/ann"}},
    {"hash":"aaaa0002","name":"Second","engine":"Unreal-Engine-5","location":"Second-Game",
     "uploaded":1700000000002,"uploader":{"name":"bob","link":"https://example.org/bob"}},
    {"hash":"aaaa0001","name":"Second","engine":"Unity","location":"Shadow",
     "uploaded":3,"uploader":{"name":"cy","link":""},"extra":[1,2,3]}
  ]
}"#;

#[test]
fn a_catalog_lists_its_games_in_order() {
    let catalog = GameList::parse(CATALOG).unwrap();
    assert_eq!(catalog.games.len(), 3);
    assert_eq!(
        catalog.games[1],
        Game {
            hash: "aaaa0002".to_string(),
            name: "Second".to_string(),
            engine: "Unreal-Engine-5".to_string(),
            location: "Second-Game".to_string(),
            uploaded: 1700000000002,
            uploader: Uploader {
                name: "bob".to_string(),
                link: "https://example.org/bob".to_string()
            },
        }
    );
    assert_eq!(catalog.games[2].uploader.link, "");
}

#[test]
fn a_game_is_found_by_its_hash() {
    let catalog = GameList::parse(CATALOG).unwrap();
    let game = catalog.get_game_by_hash("aaaa0002").unwrap();
    assert_eq!(game.name, "Second");
    assert_eq!(game.engine, "Unreal-Engine-5");
    assert_eq!(game.location, "Second-Game");
}

#[test]
fn a_game_is_found_by_its_name() {
    let catalog = GameList::parse(CATALOG).unwrap();
    let game = catalog.get_game_by_name("First").unwrap();
    assert_eq!(game.hash, "aaaa0001");
    assert_eq!(game.location, "First-Game");
}

#[test]
fn of_several_matches_the_first_is_given() {
    let catalog = GameList::parse(CATALOG).unwrap();
    assert_eq!(catalog.get_game_by_hash("aaaa0001").unwrap().location, "First-Game");
    assert_eq!(catalog.get_game_by_name("Second").unwrap().location, "Second-Game");
}

#[test]
fn a_game_that_is_not_listed_is_not_found() {
    let catalog = GameList::parse(CATALOG).unwrap();
    assert!(catalog.get_game_by_hash("ffffffff").is_none());
    assert!(catalog.get_game_by_hash("").is_none());
    assert!(catalog.get_game_by_hash("aaaa000").is_none());
    assert!(catalog.get_game_by_hash("AAAA0001").is_none());
    assert!(catalog.get_game_by_hash("First").is_none());
    assert!(catalog.get_game_by_name("aaaa0001").is_none());
    assert!(catalog.get_game_by_name("Third").is_none());
    let empty = GameList { games: vec![] };
    assert!(empty.get_game_by_hash("aaaa0001").is_none());
    assert!(empty.get_game_by_name("First").is_none());
}

#[test]
fn an_empty_catalog_is_well_formed() {
    assert_eq!(GameList::parse(r#"{"games":[]}"#), Ok(GameList { games: vec![] }));
}

#[test]
fn a_text_that_is_no_json_is_refused_for_its_syntax() {
    assert_eq!(GameList::parse(""), Err(LoadError::Syntax));
    assert_eq!(GameList::parse("{\"games\":[}"), Err(LoadError::Syntax));
    assert_eq!(GameList::parse("{\"games\":[]} x"), Err(LoadError::Syntax));
}

#[test]
fn a_document_that_is_no_catalog_is_malformed() {
    for doc in [
        r#"[]"#,
        r#"{}"#,
        r#"{"games":{}}"#,
        r#"{"games":[17]}"#,
        r#"{"games":[{"name":"n","engine":"e","location":"l","uploaded":1,"uploader":{"name":"n","link":"l"}}]}"#,
        r#"{"games":[{"hash":"h","name":"n","engine":"e","location":"l","uploaded":-1,"uploader":{"name":"n","link":"l"}}]}"#,
        r#"{"games":[{"hash":"h","name":"n","engine":"e","location":"l","uploaded":"1","uploader":{"name":"n","link":"l"}}]}"#,
        r#"{"games":[{"hash":"h","name":"n","engine":"e","location":"l","uploaded":1,"uploader":{"name":"n"}}]}"#,
        r#"{"games":[{"hash":"h","name":"n","engine":"e","location":"l","uploaded":1,"uploader":"n"}]}"#,
        r#"{"games":[{"hash":7,"name":"n","engine":"e","location":"l","uploaded":1,"uploader":{"name":"n","link":"l"}}]}"#,
        r#"{"games":[{"hash":"h","name":"n","engine":null,"location":"l","uploaded":1,"uploader":{"name":"n","link":"l"}}]}"#,
    ] {
        assert_eq!(GameList::parse(doc), Err(LoadError::Malformed), "{}", doc);
    }
}

#[test]
fn decoding_a_catalog_written_by_hand() {
    let uploader = Json::Object(vec![
        ("name".to_string(), Json::Text("ann".to_string())),
        ("link".to_string(), Json::Text("here".to_string())),
    ]);
    let game = Json::Object(vec![
        ("hash".to_string(), Json::Text("h".to_string())),
        ("name".to_string(), Json::Text("n".to_string())),
        ("engine".to_string(), Json::Text("e".to_string())),
        ("location".to_string(), Json::Text("l".to_string())),
        ("uploaded".to_string(), Json::Integer(5)),
        ("uploader".to_string(), uploader),
    ]);
    assert_eq!(
        Game::decode(&game),
        Some(Game {
            hash: "h".to_string(),
            name: "n".to_string(),
            engine: "e".to_string(),
            location: "l".to_string(),
            uploaded: 5,
            uploader: Uploader { name: "ann".to_string(), link: "here".to_string() },
        })
    );
    assert_eq!(Game::decode(&Json::Null), None);
    assert_eq!(Uploader::decode(&Json::Array(vec![])), None);
    let catalog = Json::Object(vec![("games".to_string(), Json::Array(vec![game]))]);
    assert_eq!(GameList::decode(&catalog).unwrap().games.len(), 1);
    assert_eq!(GameList::decode(&Json::Bool(true)), Err(LoadError::Malformed));
}

#[test]
fn an_answer_with_success_is_read_as_its_text() {
    for status in [200u16, 204, 299] {
        let catalog = GameList::from_response(status, Some(CATALOG)).unwrap();
        assert_eq!(catalog.games.len(), 3);
        assert_eq!(catalog.get_game_by_hash("aaaa0002").unwrap().name, "Second");
    }
    assert_eq!(GameList::from_response(200, Some(CATALOG)), GameList::parse(CATALOG));
    assert_eq!(GameList::from_response(200, Some("{")), Err(LoadError::Syntax));
    assert_eq!(GameList::from_response(200, Some("{}")), Err(LoadError::Malformed));
    assert_eq!(GameList::from_response(200, None), Err(LoadError::Unreadable));
}

#[test]
fn an_answer_without_success_is_refused_for_its_status() {
    for status in [0u16, 199, 300, 404, 500] {
        assert_eq!(
            GameList::from_response(status, Some(CATALOG)),
            Err(LoadError::Status(status))
        );
        assert_eq!(GameList::from_response(status, Some("{")), Err(LoadError::Status(status)));
        assert_eq!(GameList::from_response(status, Some("")), Err(LoadError::Status(status)));
        assert_eq!(GameList::from_response(status, None), Err(LoadError::Status(status)));
    }
}

#[test]
fn a_body_that_is_no_catalog_is_reported_as_a_parse_failure() {
    for body in [
        "{}",
        "[]",
        "",
        "not json",
        r#"{"games":[{"name":"n","engine":"e","location":"l","uploaded":1,"uploader":{"name":"n","link":"l"}}]}"#,
        r#"{"games":[{"hash":"h","name":"n","engine":"e","location":"l","uploaded":1,"uploader":{"name":"n","link":"l"}},{"hash":"i"}]}"#,
    ] {
        let refused = GameList::from_response(200, Some(body));
        let message = refused.unwrap_err().message();
        assert!(message.starts_with("Failed to parse JSON: "), "{:?}: {}", body, message);
    }
    assert_eq!(
        GameList::from_response(200, Some("{}")).unwrap_err().message(),
        "Failed to parse JSON: the document does not have the shape of its kind"
    );
    assert_eq!(
        GameList::from_response(200, Some("{")).unwrap_err().message(),
        "Failed to parse JSON: the text is not JSON"
    );
    assert_eq!(
        GameList::from_response(404, Some("{}")).unwrap_err().message(),
        "Request failed with status: 404 Not Found"
    );
    assert_eq!(
        GameList::from_response(200, None).unwrap_err().message(),
        "Failed to read response text"
    );
}
