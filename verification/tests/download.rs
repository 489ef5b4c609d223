use capsule::download::{
    overwrite_options, unopened_options, Download, DownloadAction, DownloadEvent, DownloadPhase,
    DISCARD, KEEP, NO, RETRY, YES,
};
use reqwest::header::{HeaderMap, HeaderName, HeaderValue};

fn headers(fields: &[(&'static str, &'static str)]) -> HeaderMap {
    let mut map = HeaderMap::new();
    for (name, value) in fields {
        map.append(HeaderName::from_static(name), HeaderValue::from_static(value));
    }
    map
}

fn download(output: Option<&str>) -> Download {
    Download::new(
        "http://h".to_string(),
        "https://other/download/abc/",
        output.map(|path| path.to_string()),
    )
}

fn responded(fields: &[(&'static str, &'static str)]) -> DownloadEvent {
    DownloadEvent::Responded { status: 200, headers: headers(fields) }
}

fn picked(option: &str) -> DownloadEvent {
    DownloadEvent::Picked { option: Some(option.to_string()) }
}

fn ask(warning: &str) -> DownloadAction {
    DownloadAction::Ask {
        warning: warning.to_string(),
        prompt: "Decryption mnemonic phrases:",
    }
}

/// An encrypted download whose first phrase is asked for.
fn unlocking() -> Download {
    let mut job = download(None);
    job.step(responded(&[
        ("x-encrypted", "true"),
        ("content-disposition", "attachment; filename=\"a.bin\""),
    ]));
    assert_eq!(job.step(DownloadEvent::Absent), DownloadAction::Store { temporary: true });
    assert_eq!(job.step(DownloadEvent::Stored), ask(""));
    job
}

#[test]
fn id_of_a_link_is_asked_for_at_the_base() {
    let job = download(None);
    assert_eq!(job.id, "abc");
    assert_eq!(job.url(), "http://h/download/abc");
}

#[test]
fn refusal_is_an_error_with_its_status() {
    let mut job = download(None);
    let event = DownloadEvent::Responded { status: 404, headers: headers(&[]) };
    assert_eq!(job.step(event), DownloadAction::ReadRefusal);
    assert_eq!(
        job.step(DownloadEvent::Explained { body: Some("no such file".to_string()) }),
        DownloadAction::Fail {
            message: "Download failed (404 Not Found): no such file".to_string()
        }
    );
    assert_eq!(job.phase, DownloadPhase::Done);
}

#[test]
fn refusal_without_words_is_an_error_too() {
    let mut job = download(None);
    job.step(DownloadEvent::Responded { status: 599, headers: headers(&[]) });
    assert_eq!(
        job.step(DownloadEvent::Explained { body: None }),
        DownloadAction::Fail {
            message: "Download failed (599 <unknown status code>): ".to_string()
        }
    );
}

#[test]
fn only_statuses_from_200_to_299_bring_a_file() {
    for status in [100u16, 199, 300, 999] {
        let mut job = download(None);
        let event = DownloadEvent::Responded { status, headers: headers(&[]) };
        assert_eq!(job.step(event), DownloadAction::ReadRefusal);
    }
    for status in [200u16, 299] {
        let mut job = download(None);
        let event = DownloadEvent::Responded { status, headers: headers(&[]) };
        assert!(matches!(job.step(event), DownloadAction::Probe { .. }));
    }
    for status in [0u16, 99, 1000] {
        let mut job = download(None);
        let event = DownloadEvent::Responded { status, headers: headers(&[]) };
        assert_eq!(job.step(event), DownloadAction::Unexpected);
        assert_eq!(job.phase, DownloadPhase::Requesting);
    }
}

#[test]
fn path_named_by_the_user_comes_first() {
    let mut job = download(Some("out/x.bin"));
    assert_eq!(
        job.step(responded(&[("content-disposition", "attachment; filename=a.bin")])),
        DownloadAction::Probe { target: "out/x.bin".to_string(), named_by_user: true }
    );
}

#[test]
fn name_in_the_headers_comes_next() {
    let mut job = download(None);
    assert_eq!(
        job.step(responded(&[("content-disposition", "attachment; filename=\"../a.bin\"")])),
        DownloadAction::Probe { target: "a.bin".to_string(), named_by_user: false }
    );
    let mut job = download(None);
    assert_eq!(
        job.step(responded(&[("content-disposition", "attachment; filename=\"..\"")])),
        DownloadAction::Probe { target: "download".to_string(), named_by_user: false }
    );
    let mut job = download(None);
    assert_eq!(
        job.step(responded(&[])),
        DownloadAction::Probe { target: "download".to_string(), named_by_user: false }
    );
}

#[test]
fn plain_file_is_saved_under_the_target() {
    let mut job = download(Some("out/x.bin"));
    job.step(responded(&[]));
    assert_eq!(job.step(DownloadEvent::Absent), DownloadAction::Store { temporary: false });
    assert_eq!(
        job.step(DownloadEvent::Stored),
        DownloadAction::Save {
            temporary: false,
            file_name: "x.bin".to_string(),
            file_id: "abc".to_string(),
            encrypted: false,
            message: "\nSaved to: out/x.bin\n\n".to_string(),
        }
    );
    assert_eq!(job.step(DownloadEvent::Stored), DownloadAction::Unexpected);
}

#[test]
fn target_without_a_name_is_recorded_without_one() {
    let mut job = download(Some("out/.."));
    job.step(responded(&[]));
    job.step(DownloadEvent::Absent);
    match job.step(DownloadEvent::Stored) {
        DownloadAction::Save { file_name, message, .. } => {
            assert_eq!(file_name, "");
            assert_eq!(message, "\nSaved to: out/..\n\n");
        }
        other => panic!("{other:?}"),
    }
}

#[test]
fn existing_file_is_overwritten_only_on_yes() {
    let mut job = download(Some("x"));
    job.step(responded(&[]));
    assert_eq!(
        job.step(DownloadEvent::Exists),
        DownloadAction::Confirm {
            question: "File `x` already exists. Overwrite?".to_string(),
            options: vec!["No", "Yes"],
        }
    );
    assert_eq!(job.step(picked(YES)), DownloadAction::Store { temporary: false });

    for event in [picked(NO), picked("yes"), DownloadEvent::Picked { option: None }] {
        let mut job = download(Some("x"));
        job.step(responded(&[]));
        job.step(DownloadEvent::Exists);
        assert_eq!(
            job.step(event),
            DownloadAction::Finish { message: "\nDownload cancelled.\n\n".to_string() }
        );
        assert_eq!(job.phase, DownloadPhase::Done);
    }
}

#[test]
fn opened_file_is_saved_and_the_temporary_one_removed() {
    let mut job = unlocking();
    assert_eq!(
        job.step(DownloadEvent::Opened),
        DownloadAction::Save {
            temporary: true,
            file_name: "a.bin".to_string(),
            file_id: "abc".to_string(),
            encrypted: true,
            message: "\nSaved to: a.bin\n\n".to_string(),
        }
    );
    assert_eq!(job.phase, DownloadPhase::Done);
}

#[test]
fn third_failure_in_a_row_asks_what_to_do() {
    let mut job = unlocking();
    assert_eq!(
        job.step(DownloadEvent::NotOpened),
        ask("\nDecryption failed. 2 attempts remaining.\n\n")
    );
    assert_eq!(
        job.step(DownloadEvent::NotOpened),
        ask("\nDecryption failed. 1 attempt remaining.\n\n")
    );
    assert_eq!(
        job.step(DownloadEvent::NotOpened),
        DownloadAction::Offer {
            warning: "\nDecryption failed after 3 attempts.\n\n".to_string(),
            question: "What would you like to do?",
            options: vec![DISCARD, KEEP, RETRY],
        }
    );
}

#[test]
fn phrase_has_opened_a_file_that_is_complete() {
    assert!(matches!(DownloadEvent::tried(true), DownloadEvent::Opened));
    assert!(matches!(DownloadEvent::tried(false), DownloadEvent::NotOpened));
}

/// A download that three phrases have failed to open.
fn deciding() -> Download {
    let mut job = unlocking();
    for _ in 0..3 {
        job.step(DownloadEvent::NotOpened);
    }
    job
}

#[test]
fn trying_again_allows_three_more_phrases() {
    let mut job = deciding();
    assert_eq!(job.step(picked(RETRY)), ask(""));
    assert_eq!(
        job.step(DownloadEvent::NotOpened),
        ask("\nDecryption failed. 2 attempts remaining.\n\n")
    );
    job.step(DownloadEvent::NotOpened);
    assert!(matches!(job.step(DownloadEvent::NotOpened), DownloadAction::Offer { .. }));
    job.step(picked(RETRY));
    assert!(matches!(job.step(DownloadEvent::Opened), DownloadAction::Save { .. }));
}

#[test]
fn encrypted_file_can_be_kept() {
    let mut job = deciding();
    assert_eq!(
        job.step(picked(KEEP)),
        DownloadAction::Keep { file_name: "a.bin".to_string() }
    );
    assert_eq!(
        job.step(DownloadEvent::Kept { path: "/w/a.bin".to_string() }),
        DownloadAction::Finish { message: "\nEncrypted file kept at: /w/a.bin\n\n".to_string() }
    );
    assert_eq!(job.phase, DownloadPhase::Done);
    for event in [DownloadEvent::Opened, DownloadEvent::Stored, DownloadEvent::Absent] {
        assert_eq!(job.step(event), DownloadAction::Unexpected);
    }
}

#[test]
fn encrypted_file_is_kept_under_the_name_of_the_target() {
    for (target, name) in [("out/x.bin", "x.bin"), ("../y/", "y"), ("..", "..")] {
        let mut job = download(Some(target));
        job.step(responded(&[("x-encrypted", "true")]));
        job.step(DownloadEvent::Absent);
        job.step(DownloadEvent::Stored);
        for _ in 0..3 {
            job.step(DownloadEvent::NotOpened);
        }
        assert_eq!(
            job.step(picked(KEEP)),
            DownloadAction::Keep { file_name: name.to_string() }
        );
    }
}

#[test]
fn encrypted_file_is_discarded_otherwise() {
    for event in [picked(DISCARD), picked("x"), DownloadEvent::Picked { option: None }] {
        let mut job = deciding();
        assert_eq!(
            job.step(event),
            DownloadAction::Discard { message: "\nDownload discarded.\n\n".to_string() }
        );
        assert_eq!(job.phase, DownloadPhase::Done);
    }
}

#[test]
fn event_out_of_turn_changes_no_count() {
    let mut job = unlocking();
    job.step(DownloadEvent::NotOpened);
    assert_eq!(job.step(DownloadEvent::Stored), DownloadAction::Unexpected);
    assert_eq!(job.step(picked(RETRY)), DownloadAction::Unexpected);
    assert_eq!(
        job.phase,
        DownloadPhase::Unlocking { target: "a.bin".to_string(), failures: 1 }
    );
}

#[test]
fn options_are_worded_for_the_user() {
    assert_eq!(overwrite_options(), vec!["No", "Yes"]);
    assert_eq!(
        unopened_options(),
        vec!["Exit (delete downloaded file)", "Keep file and exit", "Try again"]
    );
}
