use pngme::file_type::FileType;

#[test]
fn handles_local_path() {
    let ft = FileType::from("../local/path".to_string());

    assert!(ft == FileType::Local("../local/path".to_string()))
}

#[test]
fn handles_url() {
    let ft = FileType::from("https://www.rust-lang.org/logos/rust-logo-512x512.png".to_string());

    assert!(
        ft == FileType::Url("https://www.rust-lang.org/logos/rust-logo-512x512.png".to_string())
    )
}

#[test]
fn handles_short_string_as_local() {
    let ft = FileType::from("a.p".to_string());
    assert!(ft == FileType::Local("a.p".to_string()))
}
