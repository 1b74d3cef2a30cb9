use listening::mime::{get_mime_type, MimeError};

#[test]
fn test_mime_type() {
    assert_eq!(get_mime_type("abd.jpg").unwrap(), "image/jpeg".to_string());
    assert!(get_mime_type("fjpg").is_err());
}

#[test]
fn mime_type_of_each_known_extension() {
    assert_eq!(get_mime_type("a.JPG").unwrap(), "image/jpeg");
    assert_eq!(get_mime_type("dir/a.jpeg").unwrap(), "image/jpeg");
    assert_eq!(get_mime_type("x.png").unwrap(), "image/png");
    assert_eq!(get_mime_type(".png").unwrap(), "image/png");
}

#[test]
fn mime_type_error_keeps_the_name() {
    match get_mime_type("picture.gif") {
        Err(MimeError::UnknownExtension(name)) => assert_eq!(name, "picture.gif"),
        Ok(_) => panic!("gif has no known type"),
    }
    let err = get_mime_type("a.PNG").unwrap_err();
    assert_eq!(err.to_string(), "unknow extension a.PNG");
    assert!(get_mime_type("").is_err());
    assert!(get_mime_type("jpg").is_err());
}
