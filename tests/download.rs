use std::io::{Cursor, Write};

use spring_starter::download::{
    check_transfer, choose_destination, extract_as_directory, filename_from_disposition,
    TransferError, FALLBACK_PATH,
};

fn zip_bytes() -> Vec<u8> {
    let mut writer = zip::ZipWriter::new(Cursor::new(Vec::new()));
    let options = zip::write::SimpleFileOptions::default()
        .compression_method(zip::CompressionMethod::Stored);
    writer.start_file("demo/README.md", options).expect("entry starts");
    writer.write_all(b"hello").expect("entry written");
    writer.finish().expect("archive finished").into_inner()
}

#[test]
fn zip_into_path_without_extension_is_unpacked() {
    let bytes = zip_bytes();
    assert!(extract_as_directory("./out", &bytes));
    assert!(!extract_as_directory("./out.zip", &bytes));
}

#[test]
fn non_zip_bytes_are_written_as_file() {
    let bytes: Vec<u8> = vec![0, 0, 0, 0, 0, 8, 0, 0, 0];
    assert!(!extract_as_directory("./out", &bytes));
    assert!(!extract_as_directory("./out.zip", &bytes));
}

#[test]
fn filename_is_read_from_header() {
    assert_eq!(
        filename_from_disposition("attachment; filename=\"demo.zip\""),
        Some("demo.zip".to_owned())
    );
    assert_eq!(
        filename_from_disposition("attachment; filename=\"my app.zip\"; size=3"),
        Some("my app.zip".to_owned())
    );
}

#[test]
fn malformed_headers_suggest_no_name() {
    assert_eq!(filename_from_disposition("attachment"), None);
    assert_eq!(filename_from_disposition("attachment; filename=demo.zip"), None);
    assert_eq!(filename_from_disposition("attachment; filename=\"demo.zip"), None);
    assert_eq!(filename_from_disposition("attachment; filename=\"\""), None);
    assert_eq!(filename_from_disposition(""), None);
}

#[test]
fn destination_precedence() {
    assert_eq!(
        choose_destination(Some("x/y".to_owned()), Some("demo.zip".to_owned())),
        "x/y"
    );
    assert_eq!(choose_destination(None, Some("demo.zip".to_owned())), "./demo.zip");
    assert_eq!(choose_destination(None, None), FALLBACK_PATH);
    assert_eq!(FALLBACK_PATH, "./spring-app.zip");
}

#[test]
fn transfer_length_is_checked() {
    assert_eq!(check_transfer(Some(10), 10), Ok(()));
    assert_eq!(check_transfer(None, 3), Ok(()));
    assert_eq!(
        check_transfer(Some(10), 7),
        Err(TransferError::IncompleteTransfer { declared: 10, received: 7 })
    );
}
