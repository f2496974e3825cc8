use ironpad::assets::{
    check_upload, generate_base_filename, generate_unique_filename, get_content_type,
    is_allowed_content_type, upload_response, validate_path_component, UploadError, UploadQuery,
    MAX_FILE_SIZE,
};
use ironpad::filesystem::{is_ignored, is_note_file, normalize_path};

#[test]
fn path_components_cannot_traverse() {
    assert!(validate_path_component("notes").is_ok());
    assert!(validate_path_component("a.b").is_ok());
    for bad in ["", "..", "a..b", "a/b", "a\\b", "/"] {
        assert_eq!(validate_path_component(bad).unwrap_err(), "Invalid path component");
    }
}

#[test]
fn content_types() {
    for ok in ["image/jpeg", "image/png", "image/gif", "image/webp", "image/svg+xml", "application/pdf"] {
        assert!(is_allowed_content_type(ok));
    }
    assert!(!is_allowed_content_type("text/plain"));
    assert!(!is_allowed_content_type(""));
    assert!(!is_allowed_content_type("IMAGE/PNG"));
    assert_eq!(get_content_type("a.JPG"), "image/jpeg");
    assert_eq!(get_content_type("a.jpeg"), "image/jpeg");
    assert_eq!(get_content_type("a.b.png"), "image/png");
    assert_eq!(get_content_type("x.gif"), "image/gif");
    assert_eq!(get_content_type("x.webp"), "image/webp");
    assert_eq!(get_content_type("x.Svg"), "image/svg+xml");
    assert_eq!(get_content_type("x.pdf"), "application/pdf");
    assert_eq!(get_content_type("pdf"), "application/pdf");
    assert_eq!(get_content_type("x."), "application/octet-stream");
    assert_eq!(get_content_type("x.txt"), "application/octet-stream");
}

#[test]
fn stored_names_are_sanitized() {
    assert_eq!(generate_base_filename("my photo (1).png"), "my_photo__1_.png");
    assert_eq!(generate_base_filename("héllo-wörld_2.JPG"), "héllo-wörld_2.JPG");
    assert_eq!(generate_base_filename("noext"), "noext");
    assert_eq!(generate_base_filename("a.b.c"), "a_b.c");
    assert_eq!(generate_base_filename(".env"), ".env");
    assert_eq!(generate_unique_filename("a b.png", false, "17"), "a_b.png");
    assert_eq!(generate_unique_filename("a b.png", true, "17"), "a_b_17.png");
    assert_eq!(generate_unique_filename("ab", true, "17"), "ab_17");
}

#[test]
fn uploads_are_checked_and_answered() {
    assert_eq!(check_upload("image/png", MAX_FILE_SIZE), Ok(()));
    assert_eq!(check_upload("image/png", MAX_FILE_SIZE + 1), Err(UploadError::TooLarge));
    assert_eq!(check_upload("text/html", 1), Err(UploadError::UnsupportedType));
    assert_eq!(check_upload("text/html", MAX_FILE_SIZE + 1), Err(UploadError::UnsupportedType));
    assert_eq!(MAX_FILE_SIZE, 10_485_760);
    let r = upload_response(&UploadQuery { project: None }, "a.png".to_string(), 3);
    assert_eq!((r.url.as_str(), r.filename.as_str(), r.size), ("/api/assets/notes/a.png", "a.png", 3));
    let r = upload_response(&UploadQuery { project: Some("p1".to_string()) }, "a.png".to_string(), 3);
    assert_eq!(r.url, "/api/assets/p1/a.png");
}

#[test]
fn store_paths() {
    assert_eq!(normalize_path("/r/data", "/r/data/notes/a.md"), "notes/a.md");
    assert_eq!(normalize_path("/srv/pad", "/srv/pad/notes/a.md"), "notes/a.md");
    assert_eq!(normalize_path("..\\data", "..\\data\\\\a.md"), "a.md");
    assert_eq!(
        normalize_path("/r/data", "/r/data/notes/a.md"),
        ironpad::watcher::normalize_path("/r/data", "/r/data/notes/a.md")
    );
    assert!(is_ignored("/r/data/.git/config"));
    assert!(is_ignored("data\\assets\\a.png"));
    assert!(is_ignored("archive"));
    assert!(!is_ignored("/r/data/archived/a.md"));
    assert!(!is_ignored("/r/data/notes/a.md"));
    assert!(is_note_file("/r/data/notes/a.md", "/r/data"));
    assert!(!is_note_file("/r/data/notes/archive/a.md", "/r/data"));
    assert!(is_note_file("/r/data/projects/p/index.md", "/r/data"));
    assert!(!is_note_file("/r/data/projects/p/tasks/t.md", "/r/data"));
    assert!(is_note_file("/r/data/inbox.md", "/r/data"));
    assert!(!is_note_file("/r/data/daily/d.md", "/r/data"));
    assert!(!is_note_file("inbox.md", ""));
}
