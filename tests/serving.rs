use fileshare::codec::decode;
use fileshare::response::{serve_static, static_response};
use fileshare::upload::{upload, upload_with_hash, UploadField, UploadOutcome};

#[test]
fn missing_file_is_404_with_empty_body() {
    let r = serve_static("files/doesnotexist.bin", None);
    assert_eq!(r.status, 404);
    assert!(r.body.is_empty());
    assert!(r.content_type.is_none());
}

#[test]
fn found_file_is_200_with_type() {
    let r = serve_static("files/abc_report.pdf", Some(vec![1, 2, 3]));
    assert_eq!(r.status, 200);
    assert_eq!(r.content_type.as_deref(), Some("application/pdf"));
    assert_eq!(r.body, vec![1, 2, 3]);
}

#[test]
fn unknown_extension_is_text_plain() {
    let r = serve_static("files/abc_notes", Some(vec![]));
    assert_eq!(r.content_type.as_deref(), Some("text/plain"));
    let r = serve_static("static/style.css", Some(vec![b'x']));
    assert_eq!(r.content_type.as_deref(), Some("text/css"));
}

#[test]
fn static_response_cases() {
    let r = static_response(String::from("image/png"), Some(vec![9]));
    assert_eq!(r.status, 200);
    assert_eq!(r.content_type.as_deref(), Some("image/png"));
    assert_eq!(r.body, vec![9]);
    let r = static_response(String::from("image/png"), None);
    assert_eq!(r.status, 404);
    assert!(r.content_type.is_none());
    assert!(r.body.is_empty());
}

#[test]
fn upload_then_fetch_report() {
    let data: Vec<u8> = b"%PDF-1.4 hello".to_vec();
    let field = UploadField { file_name: Some(String::from("report.pdf")), size: data.len() as u64 };
    let u = match upload(Some(field)) {
        UploadOutcome::Stored(u) => u,
        _ => panic!("upload was not stored"),
    };
    assert_eq!(u.hash.len(), 16);
    assert_eq!(u.name, "report.pdf");
    assert_eq!(u.stored_name, format!("{}_report.pdf", u.hash));
    assert_eq!(u.size, "14 B");
    assert_eq!(decode(&u.stored_name), Some((u.hash.clone(), String::from("report.pdf"))));
    let r = serve_static(&format!("files/{}", u.stored_name), Some(data.clone()));
    assert_eq!(r.status, 200);
    assert_eq!(r.content_type.as_deref(), Some("application/pdf"));
    assert_eq!(r.body, data);
}

#[test]
fn upload_outcomes() {
    assert!(matches!(upload(None), UploadOutcome::NoField));
    let f = UploadField { file_name: None, size: 3 };
    assert!(matches!(upload(Some(f)), UploadOutcome::MissingName));
    let f = UploadField { file_name: Some(String::from("../etc/passwd")), size: 3 };
    assert!(matches!(upload(Some(f)), UploadOutcome::InvalidName));
    let f = UploadField { file_name: Some(String::from("a\\b")), size: 3 };
    assert!(matches!(upload(Some(f)), UploadOutcome::InvalidName));
}

#[test]
fn upload_with_given_hash() {
    let f = UploadField { file_name: Some(String::from("a_b.txt")), size: 1536 };
    match upload_with_hash(Some(f), String::from("ab12")) {
        UploadOutcome::Stored(u) => {
            assert_eq!(u.hash, "ab12");
            assert_eq!(u.name, "a_b.txt");
            assert_eq!(u.stored_name, "ab12_a_b.txt");
            assert_eq!(u.size, "1.54 kB");
        }
        _ => panic!("upload was not stored"),
    }
}
