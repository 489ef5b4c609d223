use capsule::server::{base_of, choose_server, DEFAULT_SERVER};
use capsule::temp::{download_temp_name, upload_temp_name};

#[test]
fn named_server_comes_first() {
    let named = Some("http://localhost:9001".to_string());
    let saved = Some("http://saved".to_string());
    assert_eq!(choose_server(named.clone(), saved.clone()), "http://localhost:9001");
    assert_eq!(choose_server(named, None), "http://localhost:9001");
    assert_eq!(choose_server(None, saved), "http://saved");
}

#[test]
fn usual_server_comes_last() {
    assert_eq!(DEFAULT_SERVER, "https://send.withcapsule.dev");
    assert_eq!(choose_server(None, None), DEFAULT_SERVER);
    assert_eq!(choose_server(None, Some(" \n".to_string())), DEFAULT_SERVER);
    assert_eq!(choose_server(None, Some("http://saved\n".to_string())), "http://saved");
}

#[test]
fn base_has_no_slash_at_the_end() {
    assert_eq!(base_of("https://h"), "https://h");
    assert_eq!(base_of("https://h/"), "https://h");
    assert_eq!(base_of("https://h/a///"), "https://h/a");
    assert_eq!(base_of("///"), "");
    assert_eq!(base_of(""), "");
}

#[test]
fn temporary_files_are_named_by_time_and_process() {
    assert_eq!(upload_temp_name(1234567890123456789, 42), "capsule-1234567890123456789-42");
    assert_eq!(download_temp_name(0, 0), "capsule-dl-0-0");
    assert_eq!(
        upload_temp_name(u128::MAX, u32::MAX),
        "capsule-340282366920938463463374607431768211455-4294967295"
    );
    assert_ne!(upload_temp_name(1, 23), upload_temp_name(12, 3));
    assert_ne!(upload_temp_name(1, 2), download_temp_name(1, 2));
}
