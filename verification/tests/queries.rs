use dumpspace_api::{DocumentKind, GameList, DSAPI};

const CATALOG: &str = r#"{
  "games": [
    {
      "hash": "1a2b3c4d",
      "name": "Other Game",
      "engine": "Unreal-Engine-4",
      "location": "Other-Game",
      "uploaded": 1690000000000,
      "uploader": { "name": "someone", "link": "https://example.org/someone" }
    },
    {
      "hash": "6b77eceb",
      "name": "Fortnite",
      "engine": "Unreal-Engine-5",
      "location": "Fortnite",
      "uploaded": 1700000000000,
      "uploader": { "name": "someone", "link": "https://example.org/someone" }
    }
  ]
}"#;

const CLASSES: &str = r#"{
  "data": [
    {
      "UWorld": [
        { "__InheritInfo": ["UObject"] },
        { "__MDKClassSize": 2536 },
        { "PersistentLevel": [["ULevel", "C", "*", []], 48, 8, 1] },
        { "OwningGameInstance": [["UGameInstance", "C", "*", []], 552, 8, 1] },
        { "bAreConstraintsDirty": [["bool", "D", "", []], 329, 1, 1, 5] }
      ]
    },
    {
      "AActor": [
        { "__InheritInfo": ["UObject"] },
        { "__MDKClassSize": 672 },
        { "RootComponent": [["USceneComponent", "C", "*", []], 408, 8, 1] }
      ]
    }
  ],
  "updated_at": "1700000000000",
  "version": 10202
}"#;

const STRUCTS: &str = r#"{
  "data": [
    {
      "FVector": [
        { "__MDKClassSize": 24 },
        { "X": [["double", "D", "", []], 0, 8, 1] },
        { "Y": [["double", "D", "", []], 8, 8, 1] },
        { "Z": [["double", "D", "", []], 16, 8, 1] }
      ]
    }
  ],
  "updated_at": "1700000000000",
  "version": 10202
}"#;

const ENUMS: &str = r#"{
  "data": [
    {
      "EFortRarity": [
        [
          { "EFortRarity__Common": 0 },
          { "EFortRarity__Uncommon": 1 },
          { "EFortRarity__Rare": 2 }
        ]
      ]
    }
  ],
  "updated_at": "1700000000000",
  "version": 10202
}"#;

const OFFSETS: &str = r#"{
  "credit": { "dumper_used": "a dumper", "dumper_link": "https://example.org" },
  "data": [["OFFSET_GWORLD", 345253952], ["OFFSET_GNAMES", 344130560]],
  "updated_at": "1700000000000",
  "version": 10202
}"#;

fn loaded() -> DSAPI {
    let catalog = GameList::parse(CATALOG).expect("the catalog fixture is well formed");
    let mut dsapi = DSAPI::new(catalog, "6b77eceb");
    dsapi.ingest_text(DocumentKind::Classes, CLASSES).unwrap();
    dsapi.ingest_text(DocumentKind::Structs, STRUCTS).unwrap();
    dsapi.ingest_text(DocumentKind::Enums, ENUMS).unwrap();
    dsapi.ingest_text(DocumentKind::Offsets, OFFSETS).unwrap();
    dsapi
}

#[test]
fn test_new_dsapi() {
    let catalog = GameList::parse(CATALOG).unwrap();
    let dsapi = DSAPI::new(catalog, "6b77eceb");
    assert_eq!(dsapi.engine, "Unreal-Engine-5");
    assert_eq!(dsapi.location, "Fortnite");
}

#[test]
fn test_get_member_offset_some() {
    let dsapi = loaded();
    let info = dsapi.get_member_offset("UWorld", "OwningGameInstance");
    assert!(info.is_some());
    let info = info.unwrap();
    assert_eq!(info.offset, 0x228);
    assert_eq!(info.size, 8);
    assert!(info.valid);
}

#[test]
fn test_get_member_offset_none() {
    let dsapi = loaded();
    assert!(dsapi.get_member_offset("NoClass", "NoMember").is_none());
}

#[test]
fn test_get_class_size_some() {
    let dsapi = loaded();
    assert_eq!(dsapi.get_class_size("UWorld"), Some(2536));
}

#[test]
fn test_get_class_size_none() {
    let dsapi = loaded();
    assert_eq!(dsapi.get_class_size("NoClass"), None);
}

#[test]
#[allow(unreachable_code)]
fn test_get_function_offset_some() {
    // No document fills the function table, so there is nothing to find yet.
    return;
    let dsapi = loaded();
    assert_eq!(dsapi.get_function_offset("TestClass", "TestFunc"), Some(0x1234));
}

#[test]
fn test_get_function_offset_none() {
    let dsapi = loaded();
    assert_eq!(dsapi.get_function_offset("NoClass", "NoFunc"), None);
}

#[test]
fn test_get_enum_name_some() {
    let dsapi = loaded();
    assert_eq!(
        dsapi.get_enum_name("EFortRarity", 1),
        Some("EFortRarity__Uncommon".to_string())
    );
}

#[test]
fn test_get_enum_name_none() {
    let dsapi = loaded();
    assert_eq!(dsapi.get_enum_name("NoEnum", 2), None);
}

#[test]
fn test_get_offset_some() {
    let dsapi = loaded();
    assert_eq!(dsapi.get_offset("OFFSET_GWORLD"), Some(0x14942840));
}

#[test]
fn test_get_offset_none() {
    let dsapi = loaded();
    assert_eq!(dsapi.get_offset("NO_OFFSET"), None);
}

#[test]
fn test_get_member_offset_unchecked() {
    let dsapi = loaded();
    let offset = dsapi.get_member_offset_unchecked("UWorld", "OwningGameInstance");
    assert_eq!(offset, 0x228);
}

#[test]
#[should_panic]
fn test_get_member_offset_unchecked_panic() {
    let dsapi = loaded();
    dsapi.get_member_offset_unchecked("NoClass", "NoMember");
}

#[test]
fn struct_members_share_the_tables_with_class_members() {
    let dsapi = loaded();
    assert_eq!(dsapi.get_class_size("FVector"), Some(24));
    assert_eq!(dsapi.get_member_offset("FVector", "Z").unwrap().offset, 16);
    assert_eq!(dsapi.get_member_offset("AActor", "RootComponent").unwrap().offset, 408);
}

#[test]
fn a_new_value_answers_every_query_with_nothing() {
    let dsapi = DSAPI::new(GameList::parse(CATALOG).unwrap(), "1a2b3c4d");
    assert_eq!(dsapi.engine, "Unreal-Engine-4");
    assert_eq!(dsapi.location, "Other-Game");
    assert_eq!(dsapi.get_member_offset("UWorld", "OwningGameInstance"), None);
    assert_eq!(dsapi.get_class_size("UWorld"), None);
    assert_eq!(dsapi.get_enum_name("EFortRarity", 1), None);
    assert_eq!(dsapi.get_offset("OFFSET_GWORLD"), None);
    assert_eq!(dsapi.get_function_offset("UWorld", "Tick"), None);
}

#[test]
fn absent_keys_give_nothing_and_no_failure() {
    let dsapi = loaded();
    assert_eq!(dsapi.get_member_offset("NoType", "NoMember"), None);
    assert_eq!(dsapi.get_class_size("NoType"), None);
    assert_eq!(dsapi.get_enum_name("NoEnum", 0), None);
    assert_eq!(dsapi.get_offset("NO_OFFSET"), None);
}

#[test]
fn unchecked_offset_is_the_offset_of_the_record() {
    let dsapi = loaded();
    for (owner, member) in [("UWorld", "PersistentLevel"), ("FVector", "Y"), ("AActor", "RootComponent")] {
        let info = dsapi.get_member_offset(owner, member).unwrap();
        assert_eq!(dsapi.get_member_offset_unchecked(owner, member), info.offset);
    }
}

#[test]
fn keys_are_plain_concatenations() {
    let dsapi = loaded();
    // "UWorld" + "OwningGameInstance" and "UWorldOwning" + "GameInstance" are one key.
    assert_eq!(
        dsapi.get_member_offset("UWorldOwning", "GameInstance"),
        dsapi.get_member_offset("UWorld", "OwningGameInstance")
    );
    assert!(dsapi.get_member_offset("UWorldOwning", "GameInstance").is_some());
}
