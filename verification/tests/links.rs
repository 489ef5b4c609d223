use capsule::links::{
    download_url, extract_file_id, extract_id_from_input, ping_url, upload_url,
};

#[test]
fn file_id_ends_at_the_first_other_character() {
    let body = "Upload done.\nFile ID for downloading is aB3xY9.\nBye";
    assert_eq!(extract_file_id(body), Some("aB3xY9".to_string()));
    let body = "File ID for downloading is abc-def";
    assert_eq!(extract_file_id(body), Some("abc".to_string()));
    let body = "File ID for downloading is abc\u{e9}d";
    assert_eq!(extract_file_id(body), Some("abc".to_string()));
}

#[test]
fn file_id_is_taken_from_the_first_marker() {
    let body = "x File ID for downloading is one; File ID for downloading is two";
    assert_eq!(extract_file_id(body), Some("one".to_string()));
    let body = "File ID for downloading is !File ID for downloading is two";
    assert_eq!(extract_file_id(body), None);
}

#[test]
fn file_id_needs_the_marker_and_a_letter_behind_it() {
    assert_eq!(extract_file_id(""), None);
    assert_eq!(extract_file_id("File ID for downloading is"), None);
    assert_eq!(extract_file_id("File ID for downloading is "), None);
    assert_eq!(extract_file_id("file id for downloading is abc"), None);
    assert_eq!(extract_file_id("413 too large"), None);
}

#[test]
fn id_is_taken_from_a_link() {
    assert_eq!(extract_id_from_input("https://send.withcapsule.dev/download/abc"), "abc");
    assert_eq!(extract_id_from_input("https://x/download/abc/"), "abc");
    assert_eq!(extract_id_from_input("https://x/download///abc//"), "abc");
    assert_eq!(extract_id_from_input("/download/a/download/b"), "b");
    assert_eq!(extract_id_from_input("https://\u{fc}.example/download/\u{fc}b"), "\u{fc}b");
}

#[test]
fn other_input_is_the_id() {
    assert_eq!(extract_id_from_input("abc"), "abc");
    assert_eq!(extract_id_from_input(""), "");
    assert_eq!(extract_id_from_input("download/abc"), "download/abc");
    assert_eq!(extract_id_from_input("https://x/download/"), "https://x/download/");
    assert_eq!(extract_id_from_input("https://x/download///"), "https://x/download///");
}

#[test]
fn taking_the_id_twice_changes_nothing() {
    for input in ["abc", "https://x/download/abc/", "/download/", "/download//download/x"] {
        let id = extract_id_from_input(input);
        assert_eq!(extract_id_from_input(&id), id);
    }
}

#[test]
fn link_of_an_uploaded_file_gives_its_id_back() {
    let id = extract_file_id("File ID for downloading is Zz09").unwrap();
    for base in ["https://send.withcapsule.dev", "", "https://x/download", "a/download/b"] {
        assert_eq!(extract_id_from_input(&download_url(base, &id)), id);
    }
}

#[test]
fn link_gives_back_plain_ids_and_no_others() {
    for id in ["abc", "a-b.c", "a b", "\u{fc}", "a/b", "a/download"] {
        assert_eq!(extract_id_from_input(&download_url("http://h", id)), id);
    }
    for id in ["", "/", "/a", "a/", "download/", "download/x", "a/download/b"] {
        assert_ne!(extract_id_from_input(&download_url("http://h", id)), id);
    }
}

#[test]
fn addresses_start_with_the_base() {
    assert_eq!(ping_url("http://localhost:9001"), "http://localhost:9001/ping");
    assert_eq!(upload_url("http://h", false), "http://h/curlup");
    assert_eq!(upload_url("http://h", true), "http://h/curlup?encrypted=true");
    assert_eq!(download_url("http://h", "abc"), "http://h/download/abc");
}
