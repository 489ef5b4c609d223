use capsule::qr::draw;
use capsule::upload::{
    shown, upload_options, Upload, UploadAction, UploadEvent, UploadPhase, UploadSource, EXIT,
    SHOW_BOTH, SHOW_CODE, SHOW_PHRASE,
};
use qrcode::render::unicode;
use qrcode::QrCode;

const BODY: &str = "File ID for downloading is abc1\n";
const LINK: &str = "http://h/download/abc1";

fn upload(path: &str, encrypt: bool) -> Upload {
    Upload::new("http://h".to_string(), path.to_string(), encrypt)
}

fn picture(link: &str) -> String {
    QrCode::new(link)
        .unwrap()
        .render::<unicode::Dense1x2>()
        .quiet_zone(true)
        .module_dimensions(1, 1)
        .build()
}

fn picked(option: &str) -> UploadEvent {
    UploadEvent::Picked { option: Some(option.to_string()) }
}

#[test]
fn missing_file_is_not_uploaded() {
    let mut job = upload("dir/a.txt", false);
    assert_eq!(
        job.step(UploadEvent::Missing),
        UploadAction::Abort {
            message: "\nUpload aborted: file \x1b[94mdir/a.txt\x1b[0m not found\n\n".to_string()
        }
    );
    assert_eq!(job.phase, UploadPhase::Done);
}

#[test]
fn directory_is_not_uploaded() {
    let mut job = upload("dir", true);
    assert_eq!(
        job.step(UploadEvent::Directory),
        UploadAction::Abort {
            message: "\nUpload aborted: \x1b[94mdir\x1b[0m is a directory. Please provide a file path.\n\n"
                .to_string()
        }
    );
}

#[test]
fn plain_file_is_sent_as_it_is() {
    let mut job = upload("dir/a.txt", false);
    assert_eq!(
        job.step(UploadEvent::Found { size: 9 }),
        UploadAction::Send {
            url: "http://h/curlup".to_string(),
            field: "f",
            source: UploadSource::Plain,
            size: 9,
            file_name: "a.txt".to_string(),
        }
    );
    assert_eq!(job.step(UploadEvent::Answered), UploadAction::Read);
    assert_eq!(
        job.step(UploadEvent::Body { body: BODY.to_string() }),
        UploadAction::Offer {
            report: "\n\nDownload Link: \x1b[92mhttp://h/download/abc1\x1b[0m\nFile ID: \x1b[92mabc1\x1b[0m\n\n"
                .to_string(),
            file_name: "a.txt".to_string(),
            file_id: "abc1".to_string(),
            link: LINK.to_string(),
            encrypted: false,
            question: "What would you like to do?",
            options: vec![EXIT, SHOW_CODE],
        }
    );
    assert_eq!(
        job.step(picked(SHOW_CODE)),
        UploadAction::Finish { message: format!("QR Code:\n{}\n\n", picture(LINK)) }
    );
    assert_eq!(job.step(picked(SHOW_CODE)), UploadAction::Unexpected);
}

#[test]
fn encrypted_file_is_sent_in_place_of_the_plain_one() {
    let mut job = upload("a.txt", true);
    let phrase = match job.step(UploadEvent::Found { size: 9 }) {
        UploadAction::Encrypt { phrase } => phrase,
        other => panic!("{other:?}"),
    };
    assert_eq!(phrase.split(' ').count(), 12);
    assert_eq!(
        job.step(UploadEvent::Encrypted { size: 300 }),
        UploadAction::Send {
            url: "http://h/curlup?encrypted=true".to_string(),
            field: "f",
            source: UploadSource::Encrypted,
            size: 300,
            file_name: "a.txt".to_string(),
        }
    );
    assert_eq!(job.step(UploadEvent::Answered), UploadAction::Clear);
    assert_eq!(job.step(UploadEvent::Cleared), UploadAction::Read);
    match job.step(UploadEvent::Body { body: BODY.to_string() }) {
        UploadAction::Offer { encrypted, options, .. } => {
            assert!(encrypted);
            assert_eq!(options, vec![EXIT, SHOW_CODE, SHOW_PHRASE, SHOW_BOTH]);
        }
        other => panic!("{other:?}"),
    }
    assert_eq!(
        job.step(picked(SHOW_BOTH)),
        UploadAction::Finish {
            message: format!("QR Code:\n{}\n\nDecryption Phrases: {phrase}\n\n", picture(LINK))
        }
    );
}

#[test]
fn file_without_a_name_is_sent_as_file() {
    let mut job = upload("..", false);
    assert_eq!(job.name, None);
    match job.step(UploadEvent::Found { size: 1 }) {
        UploadAction::Send { file_name, .. } => assert_eq!(file_name, "file"),
        other => panic!("{other:?}"),
    }
    job.step(UploadEvent::Answered);
    match job.step(UploadEvent::Body { body: BODY.to_string() }) {
        UploadAction::Offer { file_name, .. } => assert_eq!(file_name, ""),
        other => panic!("{other:?}"),
    }
}

#[test]
fn answer_without_a_file_id_is_shown() {
    let mut job = upload("a", false);
    job.step(UploadEvent::Found { size: 1 });
    job.step(UploadEvent::Answered);
    assert_eq!(
        job.step(UploadEvent::Body { body: " too large \u{2003}\n\n".to_string() }),
        UploadAction::Finish { message: "\n too large\n".to_string() }
    );
}

#[test]
fn event_out_of_turn_changes_nothing() {
    let mut job = upload("a", false);
    assert_eq!(job.step(UploadEvent::Answered), UploadAction::Unexpected);
    assert_eq!(job.step(UploadEvent::Encrypted { size: 1 }), UploadAction::Unexpected);
    assert_eq!(job.phase, UploadPhase::Inspecting);
    job.step(UploadEvent::Found { size: 1 });
    assert_eq!(job.step(UploadEvent::Found { size: 2 }), UploadAction::Unexpected);
    assert_eq!(job.phase, UploadPhase::Sending { phrase: None });
}

#[test]
fn phrase_is_encrypted_with_as_given() {
    let mut job = upload("a", true);
    let action = job.encrypt_with("one two".to_string());
    assert_eq!(action, UploadAction::Encrypt { phrase: "one two".to_string() });
    assert_eq!(job.phase, UploadPhase::Encrypting { with: "one two".to_string() });
}

#[test]
fn options_with_the_phrase_need_one() {
    assert_eq!(upload_options(false), vec!["(1) Exit", "(2) Show download link as QR code"]);
    assert_eq!(
        upload_options(true)[2..],
        ["(3) Show decryption mnemonic phrases", "(4) Both 2 and 3"]
    );
}

#[test]
fn shown_is_what_was_picked() {
    let some = |s: &str| Some(s.to_string());
    assert_eq!(shown(some(EXIT), some("P"), some("w")), "");
    assert_eq!(shown(None, some("P"), some("w")), "");
    assert_eq!(shown(some("x"), some("P"), some("w")), "");
    assert_eq!(shown(some(SHOW_CODE), some("P"), some("w")), "QR Code:\nP\n\n");
    assert_eq!(shown(some(SHOW_CODE), None, some("w")), "QR Code:\n");
    assert_eq!(shown(some(SHOW_PHRASE), some("P"), some("w")), "\nDecryption Phrases: w\n\n");
    assert_eq!(shown(some(SHOW_PHRASE), some("P"), None), "");
    assert_eq!(
        shown(some(SHOW_BOTH), some("P"), some("w")),
        "QR Code:\nP\n\nDecryption Phrases: w\n\n"
    );
    assert_eq!(shown(some(SHOW_BOTH), some("P"), None), "QR Code:\nP\n\n");
}

/// What an upload to the base shows for the option.
fn shown_after(base: &str, option: &str) -> String {
    let mut job = Upload::new(base.to_string(), "a".to_string(), false);
    job.step(UploadEvent::Found { size: 1 });
    job.step(UploadEvent::Answered);
    job.step(UploadEvent::Body { body: BODY.to_string() });
    match job.step(picked(option)) {
        UploadAction::Finish { message } => message,
        other => panic!("{other:?}"),
    }
}

#[test]
fn link_of_a_large_code_has_no_picture() {
    // The link has 14 characters behind the base.
    let last = "h".repeat(273);
    let link = format!("{last}/download/abc1");
    assert_eq!(QrCode::new(&link).unwrap().width(), 65);
    assert_eq!(shown_after(&last, SHOW_CODE), format!("QR Code:\n{}\n\n", picture(&link)));
    assert_eq!(shown_after(&"h".repeat(274), SHOW_CODE), "QR Code:\n");
    assert_eq!(shown_after(&"h".repeat(4000), SHOW_CODE), "QR Code:\n");
    assert_eq!(shown_after(&"h".repeat(4000), EXIT), "");
}

#[test]
fn link_beyond_ascii_has_a_picture() {
    let base = "https://\u{fc}\u{65e5}.example";
    let link = format!("{base}/download/abc1");
    assert_eq!(shown_after(base, SHOW_CODE), format!("QR Code:\n{}\n\n", picture(&link)));
}

#[test]
fn picture_is_drawn_up_to_a_width() {
    assert_eq!(draw(LINK), Some(picture(LINK)));
    assert_eq!(draw(""), Some(picture("")));
    assert_eq!(draw(&"a".repeat(287)), Some(picture(&"a".repeat(287))));
    assert_eq!(draw(&"a".repeat(288)), None);
    // Short runs of digits are held apart, and make a larger code.
    assert_eq!(draw(&"a1234".repeat(43)), None);
}
