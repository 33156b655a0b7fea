use panel_firmware::http::{
    check_content_type, settle, BodyRead, Clock, CustomError, JsonBody, Status, MAX_BODY_SIZE,
};
use panel_firmware::storage::{PartitionManager, SlotId, StorageError};

fn parse_error() -> serde_json::Error {
    serde_json::from_str::<u8>("not json").unwrap_err()
}

#[test]
fn json_content_type_is_accepted() {
    assert!(check_content_type(Some("application/json")).is_ok());
}

#[test]
fn other_content_type_is_named_in_the_error() {
    match check_content_type(Some("text/plain")) {
        Err(CustomError::InvalidContentType { expected, received }) => {
            assert_eq!(expected, "application/json");
            assert_eq!(received, "text/plain");
        }
        other => panic!("{other:?}"),
    }
}

#[test]
fn missing_content_type_is_refused() {
    match check_content_type(None) {
        Err(CustomError::InvalidContentType { expected, received }) => {
            assert_eq!(expected, "application/json");
            assert_eq!(received, "");
        }
        other => panic!("{other:?}"),
    }
}

#[test]
fn custom_errors_map_to_their_status() {
    assert_eq!(CustomError::Unknown.status_code(), 500);
    assert_eq!(CustomError::Parsing(parse_error()).status_code(), 400);
    assert_eq!(
        check_content_type(Some("text/html")).unwrap_err().status_code(),
        415
    );
}

#[test]
fn custom_errors_have_their_text() {
    assert_eq!(CustomError::Unknown.message(), "Unknown Error");
    assert_eq!(CustomError::Parsing(parse_error()).message(), "Parsing Error");
    assert_eq!(
        check_content_type(Some("text/plain")).unwrap_err().message(),
        "Content type \"text/plain\" not accepted. Try \"application/json\" instead."
    );
}

#[test]
fn parse_errors_convert_into_custom_errors() {
    let error = CustomError::from(parse_error());
    assert!(matches!(error, CustomError::Parsing(_)));
    assert_eq!(error.status_code(), 400);
}

#[test]
fn settle_answers_success_with_the_body() {
    assert_eq!(settle(Ok(vec![1u8, 2, 3])), (200, Some(vec![1u8, 2, 3])));
    assert_eq!(settle(Ok(Vec::<u8>::new())), (200, Some(Vec::new())));
}

#[test]
fn settle_answers_failure_with_the_status_alone() {
    assert_eq!(settle::<Vec<u8>>(Err(CustomError::Unknown)), (500, None));
    assert_eq!(
        settle::<Vec<u8>>(Err(CustomError::Parsing(parse_error()))),
        (400, None)
    );
    assert_eq!(
        settle::<Vec<u8>>(check_content_type(None).map(|_| Vec::new())),
        (415, None)
    );
}

#[test]
fn body_collects_chunks_in_order() {
    let mut body = JsonBody::new();
    assert_eq!(body.as_slice(), b"");
    assert!(matches!(body.absorb(BodyRead::Data(b"{\"day\"")), Ok(true)));
    assert!(matches!(body.absorb(BodyRead::Data(b":1}")), Ok(true)));
    assert!(matches!(body.absorb(BodyRead::Data(b"")), Ok(false)));
    assert_eq!(body.as_slice(), b"{\"day\":1}");
}

#[test]
fn body_takes_exactly_its_capacity() {
    assert_eq!(MAX_BODY_SIZE, 256);
    let mut body = JsonBody::new();
    assert!(matches!(body.absorb(BodyRead::Data(&[7u8; 128])), Ok(true)));
    assert!(matches!(body.absorb(BodyRead::Data(&[8u8; 128])), Ok(true)));
    assert_eq!(body.as_slice().len(), 256);
    assert_eq!(body.as_slice()[127], 7);
    assert_eq!(body.as_slice()[128], 8);
    assert!(matches!(
        body.absorb(BodyRead::Data(&[9u8; 1])),
        Err(CustomError::Unknown)
    ));
    assert_eq!(body.as_slice().len(), 256);
    assert!(matches!(body.absorb(BodyRead::Data(&[])), Ok(false)));
}

#[test]
fn body_that_does_not_fit_stays_as_it_was() {
    let mut body = JsonBody::new();
    assert!(matches!(body.absorb(BodyRead::Data(&[1u8; 200])), Ok(true)));
    assert!(matches!(
        body.absorb(BodyRead::Data(&[2u8; 57])),
        Err(CustomError::Unknown)
    ));
    assert_eq!(body.as_slice(), &[1u8; 200][..]);
    assert!(matches!(body.absorb(BodyRead::Data(&[3u8; 56])), Ok(true)));
    assert_eq!(body.as_slice().len(), 256);
}

#[test]
fn failed_read_is_unknown() {
    let mut body = JsonBody::new();
    assert!(matches!(body.absorb(BodyRead::Data(b"abc")), Ok(true)));
    assert!(matches!(
        body.absorb(BodyRead::Failed),
        Err(CustomError::Unknown)
    ));
    assert_eq!(body.as_slice(), b"abc");
}

#[test]
fn clock_defaults_to_zero() {
    assert_eq!(
        Clock::default(),
        Clock {
            day: 0,
            hour: 0,
            minute: 0,
            month: 0,
            second: 0,
            year: 0
        }
    );
}

#[test]
fn status_reports_the_running_version() {
    let manager = PartitionManager::new(SlotId::Ota1, String::from("1.4.2"));
    let status = Status::current(String::from("e1p5jo7rq"), &manager).unwrap();
    assert_eq!(status.hostname, "e1p5jo7rq");
    assert_eq!(status.version, "1.4.2");
}

#[test]
fn status_needs_the_storage() {
    let manager = PartitionManager::unavailable();
    assert_eq!(
        Status::current(String::from("e1p5jo7rq"), &manager).err(),
        Some(StorageError::StorageUnavailable)
    );
}
