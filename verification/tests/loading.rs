use dumpspace_api::decimal::unsigned_string;
use dumpspace_api::error::PARSE_FAILURE;
use dumpspace_api::transport::status_text;
use dumpspace_api::{DocumentKind, GameList, LoadError, LoadFailure, Response, DSAPI};
use std::io::Write;

fn gzip(text: &str) -> Vec<u8> {
    let mut encoder = flate2::write::GzEncoder::new(Vec::new(), flate2::Compression::default());
    encoder.write_all(text.as_bytes()).unwrap();
    encoder.finish().unwrap()
}

fn answer(text: &str) -> Response {
    Response { status: 200, body: Some(gzip(text)) }
}

fn fresh() -> DSAPI {
    let catalog = GameList::parse(
        r#"{"games":[{"hash":"abc","name":"Game","engine":"E","location":"L","uploaded":1,
            "uploader":{"name":"n","link":"l"}}]}"#,
    )
    .unwrap();
    DSAPI::new(catalog, "abc")
}

const CLASSES: &str = r#"{"version":10202,"data":[{"AExample":[
    {"__MDKClassSize":64},{"Flags1":[["uint8","D","",[]],16,4,0,2]},{"Shared":["t",1,1,1]}]}]}"#;
const STRUCTS: &str = r#"{"version":10201,"data":[{"FExample":[
    {"__MDKClassSize":12},{"X":["float",0,4]}]},{"AExample":[{"Shared":["t",2,2]}]}]}"#;
const ENUMS: &str = r#"{"version":10202,"data":[{"EColor":[[{"Red":0},{"Green":1}]]}]}"#;
const OFFSETS: &str = r#"{"data":[["OFFSET_X",1000]]}"#;

#[test]
fn four_documents_fill_the_tables() {
    let mut dsapi = fresh();
    assert_eq!(
        dsapi.load(&answer(CLASSES), &answer(STRUCTS), &answer(ENUMS), &answer(OFFSETS)),
        Ok(())
    );
    assert_eq!(dsapi.get_class_size("AExample"), Some(64));
    assert_eq!(dsapi.get_class_size("FExample"), Some(12));
    assert_eq!(dsapi.get_member_offset("AExample", "Flags1").unwrap().bit_offset, 2);
    assert_eq!(dsapi.get_member_offset("FExample", "X").unwrap().size, 4);
    assert_eq!(dsapi.get_enum_name("EColor", 1), Some("Green".to_string()));
    assert_eq!(dsapi.get_offset("OFFSET_X"), Some(1000));
    assert_eq!(dsapi.get_function_offset("AExample", "Tick"), None);
}

#[test]
fn structs_are_merged_after_classes() {
    let mut dsapi = fresh();
    dsapi.load(&answer(CLASSES), &answer(STRUCTS), &answer(ENUMS), &answer(OFFSETS)).unwrap();
    assert_eq!(dsapi.get_member_offset("AExample", "Shared").unwrap().offset, 2);
}

#[test]
fn one_refused_document_leaves_all_tables_empty() {
    let bad_layout = r#"{"version":10202,"data":[{"AExample":[{"m":["t",1]}]}]}"#;
    let cases = [
        (
            [answer(bad_layout), answer(STRUCTS), answer(ENUMS), answer(OFFSETS)],
            LoadFailure { document: DocumentKind::Classes, reason: LoadError::Malformed },
        ),
        (
            [answer(CLASSES), answer(r#"{"version":9,"data":[]}"#), answer(ENUMS), answer(OFFSETS)],
            LoadFailure { document: DocumentKind::Structs, reason: LoadError::UnknownVersion(9) },
        ),
        (
            [answer(CLASSES), answer(STRUCTS), answer("{"), answer(OFFSETS)],
            LoadFailure { document: DocumentKind::Enums, reason: LoadError::Syntax },
        ),
        (
            [
                answer(CLASSES),
                answer(STRUCTS),
                answer(ENUMS),
                Response { status: 200, body: Some(OFFSETS.as_bytes().to_vec()) },
            ],
            LoadFailure { document: DocumentKind::Offsets, reason: LoadError::Encoding },
        ),
        (
            [
                answer(CLASSES),
                answer(STRUCTS),
                answer(ENUMS),
                Response { status: 404, body: Some(gzip(OFFSETS)) },
            ],
            LoadFailure { document: DocumentKind::Offsets, reason: LoadError::Status(404) },
        ),
    ];
    for (answers, failure) in cases {
        let mut dsapi = fresh();
        assert_eq!(dsapi.load(&answers[0], &answers[1], &answers[2], &answers[3]), Err(failure));
        assert_eq!(dsapi.get_class_size("AExample"), None);
        assert_eq!(dsapi.get_class_size("FExample"), None);
        assert_eq!(dsapi.get_member_offset("AExample", "Flags1"), None);
        assert_eq!(dsapi.get_enum_name("EColor", 1), None);
        assert_eq!(dsapi.get_offset("OFFSET_X"), None);
    }
}

#[test]
fn of_several_refused_documents_the_first_is_reported() {
    let mut dsapi = fresh();
    assert_eq!(
        dsapi.load(
            &answer(CLASSES),
            &Response { status: 500, body: None },
            &answer("{"),
            &Response { status: 404, body: Some(vec![]) }
        ),
        Err(LoadFailure { document: DocumentKind::Structs, reason: LoadError::Status(500) })
    );
}

#[test]
fn a_failure_names_its_document_and_its_reason() {
    assert_eq!(
        LoadFailure { document: DocumentKind::Classes, reason: LoadError::UnknownVersion(10203) }
            .message(),
        "ClassesInfo: Unknown version: 10203"
    );
    assert_eq!(
        LoadFailure { document: DocumentKind::Offsets, reason: LoadError::Status(404) }.message(),
        "OffsetsInfo: Request failed with status: 404 Not Found"
    );
    assert_eq!(
        LoadFailure { document: DocumentKind::Enums, reason: LoadError::Syntax }.message(),
        "EnumsInfo: Failed to parse JSON: the text is not JSON"
    );
    assert_eq!(
        LoadFailure { document: DocumentKind::Structs, reason: LoadError::Malformed }.message(),
        "StructsInfo: Failed to parse JSON: the document does not have the shape of its kind"
    );
    assert_eq!(LoadError::Encoding.message(), "Failed to read decompressed data");
    assert_eq!(LoadError::Unreadable.message(), "Failed to read response text");
    assert_eq!(
        LoadError::UnknownVersion(u64::MAX).message(),
        "Unknown version: 18446744073709551615"
    );
}

#[test]
fn a_status_is_written_with_its_reason_phrase() {
    assert_eq!(status_text(200), "200 OK");
    assert_eq!(status_text(404), "404 Not Found");
    assert_eq!(status_text(503), "503 Service Unavailable");
    assert_eq!(status_text(100), "100 Continue");
    assert_eq!(status_text(999), "999 <unknown status code>");
    assert_eq!(LoadError::Status(500).message(), "Request failed with status: 500 Internal Server Error");
    assert_eq!(LoadError::Status(299).message(), "Request failed with status: 299 <unknown status code>");
}

#[test]
fn a_number_that_is_no_status_is_written_in_decimal() {
    assert_eq!(status_text(0), "0");
    assert_eq!(status_text(99), "99");
    assert_eq!(status_text(1000), "1000");
    assert_eq!(status_text(65535), "65535");
    assert_eq!(LoadError::Status(0).message(), "Request failed with status: 0");
}

#[test]
fn every_parse_failure_begins_alike() {
    for reason in [LoadError::Syntax, LoadError::Malformed] {
        let message = reason.message();
        assert!(message.starts_with(PARSE_FAILURE), "{}", message);
        assert!(message.starts_with("Failed to parse JSON: "), "{}", message);
        assert!(message.len() > PARSE_FAILURE.len());
    }
    for reason in [
        LoadError::Status(404),
        LoadError::Unreadable,
        LoadError::Encoding,
        LoadError::UnknownVersion(1),
    ] {
        assert!(!reason.message().starts_with(PARSE_FAILURE));
    }
}

#[test]
fn a_body_that_could_not_be_read_refuses_the_load() {
    let mut dsapi = fresh();
    assert_eq!(
        dsapi.load(
            &answer(CLASSES),
            &answer(STRUCTS),
            &Response { status: 200, body: None },
            &answer(OFFSETS)
        ),
        Err(LoadFailure { document: DocumentKind::Enums, reason: LoadError::Encoding })
    );
    assert_eq!(dsapi.get_class_size("AExample"), None);
    assert_eq!(
        dsapi.load(
            &Response { status: 502, body: None },
            &answer(STRUCTS),
            &answer(ENUMS),
            &answer(OFFSETS)
        ),
        Err(LoadFailure { document: DocumentKind::Classes, reason: LoadError::Status(502) })
    );
}

#[test]
fn natural_numbers_are_written_in_decimal() {
    assert_eq!(unsigned_string(0), "0");
    assert_eq!(unsigned_string(7), "7");
    assert_eq!(unsigned_string(10), "10");
    assert_eq!(unsigned_string(10201), "10201");
    assert_eq!(unsigned_string(u64::MAX), "18446744073709551615");
}
