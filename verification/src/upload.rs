//! An upload, step by step: what is done next after each thing that was done.

use vstd::prelude::*;
use vstd::string::*;
use crate::crypt;
use crate::links;
use crate::paths;
use crate::qr;
use crate::style;
use crate::text;
use crate::text::CharClass;

verus! {

/// The field of the form that a file is sent in.
pub const FIELD: &'static str = "f";

/// What is asked after an upload.
pub const QUESTION: &'static str = "What would you like to do?";

/// The option that shows nothing.
pub const EXIT: &'static str = "(1) Exit";

/// The option that shows a picture of the link.
pub const SHOW_CODE: &'static str = "(2) Show download link as QR code";

/// The option that shows the phrase.
pub const SHOW_PHRASE: &'static str = "(3) Show decryption mnemonic phrases";

/// The option that shows the picture and the phrase.
pub const SHOW_BOTH: &'static str = "(4) Both 2 and 3";

/// How far an upload is.
#[derive(Debug, PartialEq, Eq)]
pub enum UploadPhase {
    /// The file is being looked at.
    Inspecting,
    /// The file is being encrypted with the phrase.
    Encrypting { with: String },
    /// The file is being sent; the phrase is the one that it is encrypted with.
    Sending { phrase: Option<String> },
    /// The encrypted file is being removed.
    Clearing { phrase: Option<String> },
    /// The server's answer is being read.
    Reading { phrase: Option<String> },
    /// The user is choosing what to be shown.
    Choosing { link: String, phrase: Option<String> },
    /// Nothing is left to do.
    Done,
}

/// An upload of the file at `path`, whose name is `name`, to the server at
/// `base`.
pub struct Upload {
    pub base: String,
    pub path: String,
    pub name: Option<String>,
    pub encrypt: bool,
    pub phase: UploadPhase,
}

/// What came of the last action.
pub enum UploadEvent {
    /// There is no such file.
    Missing,
    /// The path is that of a directory.
    Directory,
    /// There is a file of this size.
    Found { size: u64 },
    /// The encrypted file is written and has this size.
    Encrypted { size: u64 },
    /// The file is sent, and the server has begun to answer.
    Answered,
    /// The removal of the encrypted file was tried.
    Cleared,
    /// The server's answer.
    Body { body: String },
    /// The option that the user picked, if any.
    Picked { option: Option<String> },
}

/// Which file is sent.
#[derive(Debug, PartialEq, Eq)]
pub enum UploadSource {
    /// The user's file.
    Plain,
    /// The file that it was encrypted to.
    Encrypted,
}

/// What to do next. Texts are printed as they are.
#[derive(Debug, PartialEq, Eq)]
pub enum UploadAction {
    /// Print the message as an error and end.
    Abort { message: String },
    /// Encrypt the file with the phrase.
    Encrypt { phrase: String },
    /// Send the file in the field of a form, under the name.
    Send {
        url: String,
        field: &'static str,
        source: UploadSource,
        size: u64,
        file_name: String,
    },
    /// Remove the encrypted file.
    Clear,
    /// Read the server's answer.
    Read,
    /// Print the report, record the upload, and ask the question, to which the
    /// user picks an option.
    Offer {
        report: String,
        file_name: String,
        file_id: String,
        link: String,
        encrypted: bool,
        question: &'static str,
        options: Vec<&'static str>,
    },
    /// Print the message and end.
    Finish { message: String },
    /// The event does not fit: nothing was waiting for it.
    Unexpected,
}

/// Why a missing file is not uploaded.
pub open spec fn missing_text(path: Seq<char>) -> Seq<char> {
    "\nUpload aborted: file "@ + style::blue(path) + " not found\n\n"@
}

/// Why a directory is not uploaded.
pub open spec fn directory_text(path: Seq<char>) -> Seq<char> {
    "\nUpload aborted: "@ + style::blue(path)
        + " is a directory. Please provide a file path.\n\n"@
}

/// Where the uploaded file is found.
pub open spec fn report_text(link: Seq<char>, id: Seq<char>) -> Seq<char> {
    "\n\nDownload Link: "@ + style::green(link) + "\nFile ID: "@ + style::green(id) + "\n\n"@
}

/// An answer that names no file, as it is shown.
pub open spec fn answer_text(body: Seq<char>) -> Seq<char> {
    "\n"@ + text::trim_end(body, CharClass::White) + "\n"@
}

/// The options after an upload; those that show the phrase are offered only
/// where there is one.
pub open spec fn offered(encrypted: bool) -> Seq<&'static str> {
    if encrypted {
        seq![EXIT, SHOW_CODE, SHOW_PHRASE, SHOW_BOTH]
    } else {
        seq![EXIT, SHOW_CODE]
    }
}

/// The picture of the link, where there is one.
pub open spec fn code_text(picture: Option<Seq<char>>) -> Seq<char> {
    match picture {
        Some(picture) => "QR Code:\n"@ + picture + "\n\n"@,
        None => "QR Code:\n"@,
    }
}

/// What is shown for an option that was picked.
pub open spec fn shown_text(
    option: Option<Seq<char>>,
    picture: Option<Seq<char>>,
    phrase: Option<Seq<char>>,
) -> Seq<char> {
    if option == Some(SHOW_CODE@) {
        code_text(picture)
    } else if option == Some(SHOW_PHRASE@) {
        match phrase {
            Some(phrase) => "\nDecryption Phrases: "@ + phrase + "\n\n"@,
            None => Seq::empty(),
        }
    } else if option == Some(SHOW_BOTH@) {
        match phrase {
            Some(phrase) => code_text(picture) + "Decryption Phrases: "@ + phrase + "\n\n"@,
            None => code_text(picture),
        }
    } else {
        Seq::empty()
    }
}

/// The two are the same upload, perhaps at different phases.
pub open spec fn same_upload(a: Upload, b: Upload) -> bool {
    a.base == b.base && a.path == b.path && a.name == b.name && a.encrypt == b.encrypt
}

/// The request that sends a file of `size` bytes.
pub open spec fn sends(upload: Upload, plain: bool, size: u64, action: UploadAction) -> bool {
    &&& action matches UploadAction::Send { url, field, source, size: sent, file_name }
    &&& field@ == FIELD@
    &&& url@ == links::upload_address(upload.base@, upload.encrypt)
    &&& (source is Plain <==> plain)
    &&& sent == size
    &&& file_name@ == text::text_or(text::chars_if_any(upload.name), "file"@)
}

/// What is offered once the server has named the file.
pub open spec fn offers(upload: Upload, id: Seq<char>, action: UploadAction) -> bool {
    &&& action matches UploadAction::Offer {
        report,
        file_name,
        file_id,
        link,
        encrypted,
        question,
        options,
    }
    &&& link@ == links::download_address(upload.base@, id)
    &&& report@ == report_text(link@, id)
    &&& file_name@ == text::text_or(text::chars_if_any(upload.name), Seq::empty())
    &&& file_id@ == id
    &&& encrypted == upload.encrypt
    &&& question@ == QUESTION@
    &&& options@ == offered(upload.encrypt)
}

/// One step of an upload: the action after an event, and the phase it leads
/// to.
pub open spec fn upload_step(
    before: Upload,
    event: UploadEvent,
    after: Upload,
    action: UploadAction,
) -> bool {
    &&& same_upload(before, after)
    &&& match (before.phase, event) {
        (UploadPhase::Inspecting, UploadEvent::Missing) => {
            &&& after.phase is Done
            &&& action matches UploadAction::Abort { message }
            &&& message@ == missing_text(before.path@)
        },
        (UploadPhase::Inspecting, UploadEvent::Directory) => {
            &&& after.phase is Done
            &&& action matches UploadAction::Abort { message }
            &&& message@ == directory_text(before.path@)
        },
        (UploadPhase::Inspecting, UploadEvent::Found { size }) => if before.encrypt {
            &&& action matches UploadAction::Encrypt { phrase }
            &&& crypt::is_phrase(phrase@, crypt::PHRASE_WORDS as nat)
            &&& after.phase matches UploadPhase::Encrypting { with: kept }
            &&& kept@ == phrase@
        } else {
            &&& after.phase == (UploadPhase::Sending { phrase: None })
            &&& sends(before, true, size, action)
        },
        (UploadPhase::Encrypting { with: phrase }, UploadEvent::Encrypted { size }) => {
            &&& after.phase == (UploadPhase::Sending { phrase: Some(phrase) })
            &&& sends(before, false, size, action)
        },
        (UploadPhase::Sending { phrase }, UploadEvent::Answered) => if phrase is Some {
            &&& after.phase == (UploadPhase::Clearing { phrase })
            &&& action is Clear
        } else {
            &&& after.phase == (UploadPhase::Reading { phrase })
            &&& action is Read
        },
        (UploadPhase::Clearing { phrase }, UploadEvent::Cleared) => {
            &&& after.phase == (UploadPhase::Reading { phrase })
            &&& action is Read
        },
        (UploadPhase::Reading { phrase }, UploadEvent::Body { body }) => match links::file_id(
            body@,
        ) {
            Some(id) => {
                &&& after.phase matches UploadPhase::Choosing { link, phrase: kept }
                &&& link@ == links::download_address(before.base@, id)
                &&& kept == phrase
                &&& offers(before, id, action)
            },
            None => {
                &&& after.phase is Done
                &&& action matches UploadAction::Finish { message }
                &&& message@ == answer_text(body@)
            },
        },
        (UploadPhase::Choosing { link, phrase }, UploadEvent::Picked { option }) => {
            &&& after.phase is Done
            &&& action matches UploadAction::Finish { message }
            &&& message@ == shown_text(
                text::chars_if_any(option),
                qr::picture(link@),
                text::chars_if_any(phrase),
            )
        },
        _ => after.phase == before.phase && action is Unexpected,
    }
}

/// Writes why a missing file is not uploaded.
fn missing_message(path: &str) -> (r: String)
    ensures
        r@ == missing_text(path@),
{
    "\nUpload aborted: file ".to_owned().concat(style::highlight_path(path).as_str()).concat(
        " not found\n\n",
    )
}

/// Writes why a directory is not uploaded.
fn directory_message(path: &str) -> (r: String)
    ensures
        r@ == directory_text(path@),
{
    "\nUpload aborted: ".to_owned().concat(style::highlight_path(path).as_str()).concat(
        " is a directory. Please provide a file path.\n\n",
    )
}

/// Writes where the uploaded file is found.
fn report(link: &str, id: &str) -> (r: String)
    ensures
        r@ == report_text(link@, id@),
{
    "\n\nDownload Link: ".to_owned().concat(style::highlight_link(link).as_str()).concat(
        "\nFile ID: ",
    ).concat(style::highlight_id(id).as_str()).concat("\n\n")
}

/// Writes an answer that names no file.
fn answer(body: &str) -> (r: String)
    ensures
        r@ == answer_text(body@),
{
    "\n".to_owned().concat(text::trimmed_end(body, CharClass::White).as_str()).concat("\n")
}

/// The options after an upload.
pub fn upload_options(encrypted: bool) -> (r: Vec<&'static str>)
    ensures
        r@ == offered(encrypted),
{
    let mut options: Vec<&'static str> = Vec::new();
    options.push(EXIT);
    options.push(SHOW_CODE);
    if encrypted {
        options.push(SHOW_PHRASE);
        options.push(SHOW_BOTH);
    }
    options
}

/// Writes the picture of the link.
fn code(picture: Option<String>) -> (r: String)
    ensures
        r@ == code_text(text::chars_if_any(picture)),
{
    match picture {
        Some(picture) => "QR Code:\n".to_owned().concat(picture.as_str()).concat("\n\n"),
        None => "QR Code:\n".to_owned(),
    }
}

/// Tests whether the option that was picked shows the picture of the link.
fn shows_code(option: &Option<String>) -> (r: bool)
    ensures
        r == (text::chars_if_any(*option) == Some(SHOW_CODE@) || text::chars_if_any(*option)
            == Some(SHOW_BOTH@)),
{
    match option {
        Some(option) => text::same(option, SHOW_CODE) || text::same(option, SHOW_BOTH),
        None => false,
    }
}

/// Writes what is shown for an option that was picked, where `picture` is the
/// picture of the link.
pub fn shown(option: Option<String>, picture: Option<String>, phrase: Option<String>) -> (r: String)
    ensures
        r@ == shown_text(
            text::chars_if_any(option),
            text::chars_if_any(picture),
            text::chars_if_any(phrase),
        ),
{
    match option {
        Some(option) => {
            if text::same(&option, SHOW_CODE) {
                code(picture)
            } else if text::same(&option, SHOW_PHRASE) {
                match phrase {
                    Some(phrase) => "\nDecryption Phrases: ".to_owned().concat(
                        phrase.as_str(),
                    ).concat("\n\n"),
                    None => String::new(),
                }
            } else if text::same(&option, SHOW_BOTH) {
                match phrase {
                    Some(phrase) => code(picture).concat("Decryption Phrases: ").concat(
                        phrase.as_str(),
                    ).concat("\n\n"),
                    None => code(picture),
                }
            } else {
                String::new()
            }
        },
        None => String::new(),
    }
}

impl Upload {
    /// The name is that of the file at the path.
    pub open spec fn well_formed(self) -> bool {
        paths::is_base_name(self.path@, text::chars_if_any(self.name))
    }

    /// An upload of the file at `path` to the server at `base`; the file is
    /// to be looked at.
    pub fn new(base: String, path: String, encrypt: bool) -> (r: Upload)
        ensures
            r.well_formed(),
            r.base == base,
            r.path == path,
            r.encrypt == encrypt,
            r.phase is Inspecting,
    {
        let name = paths::base_name(path.as_str());
        Upload { base, path, name, encrypt, phase: UploadPhase::Inspecting }
    }

    /// The request that sends a file of `size` bytes.
    fn send(&self, source: UploadSource, size: u64) -> (r: UploadAction)
        ensures
            sends(*self, source is Plain, size, r),
    {
        let file_name = match &self.name {
            Some(name) => name.clone(),
            None => "file".to_owned(),
        };
        UploadAction::Send {
            url: links::upload_url(self.base.as_str(), self.encrypt),
            field: FIELD,
            source,
            size,
            file_name,
        }
    }

    /// Begins to encrypt the file with the phrase.
    pub fn encrypt_with(&mut self, phrase: String) -> (r: UploadAction)
        ensures
            same_upload(*old(self), *final(self)),
            final(self).phase == (UploadPhase::Encrypting { with: phrase }),
            r == (UploadAction::Encrypt { phrase }),
    {
        self.phase = UploadPhase::Encrypting { with: phrase.clone() };
        UploadAction::Encrypt { phrase }
    }

    /// Takes the identifier from the server's answer, and offers what can be
    /// done with it.
    fn answered(&mut self, body: String, phrase: Option<String>) -> (r: UploadAction)
        ensures
            same_upload(*old(self), *final(self)),
            upload_step(
                (Upload { phase: UploadPhase::Reading { phrase }, ..*old(self) }),
                UploadEvent::Body { body },
                *final(self),
                r,
            ),
    {
        match links::extract_file_id(body.as_str()) {
            Some(file_id) => {
                let link = links::download_url(self.base.as_str(), file_id.as_str());
                let report = report(link.as_str(), file_id.as_str());
                let file_name = match &self.name {
                    Some(name) => name.clone(),
                    None => String::new(),
                };
                self.phase = UploadPhase::Choosing { link: link.clone(), phrase };
                UploadAction::Offer {
                    report,
                    file_name,
                    file_id,
                    link,
                    encrypted: self.encrypt,
                    question: QUESTION,
                    options: upload_options(self.encrypt),
                }
            },
            None => {
                self.phase = UploadPhase::Done;
                UploadAction::Finish { message: answer(body.as_str()) }
            },
        }
    }

    /// What to do after an event.
    pub fn step(&mut self, event: UploadEvent) -> (r: UploadAction)
        ensures
            upload_step(*old(self), event, *final(self), r),
    {
        let mut phase = UploadPhase::Done;
        std::mem::swap(&mut self.phase, &mut phase);
        match (phase, event) {
            (UploadPhase::Inspecting, UploadEvent::Missing) => {
                UploadAction::Abort { message: missing_message(self.path.as_str()) }
            },
            (UploadPhase::Inspecting, UploadEvent::Directory) => {
                UploadAction::Abort { message: directory_message(self.path.as_str()) }
            },
            (UploadPhase::Inspecting, UploadEvent::Found { size }) => {
                if self.encrypt {
                    let phrase = crypt::new_phrase();
                    self.encrypt_with(phrase)
                } else {
                    self.phase = UploadPhase::Sending { phrase: None };
                    self.send(UploadSource::Plain, size)
                }
            },
            (UploadPhase::Encrypting { with: phrase }, UploadEvent::Encrypted { size }) => {
                self.phase = UploadPhase::Sending { phrase: Some(phrase) };
                self.send(UploadSource::Encrypted, size)
            },
            (UploadPhase::Sending { phrase }, UploadEvent::Answered) => {
                if phrase.is_some() {
                    self.phase = UploadPhase::Clearing { phrase };
                    UploadAction::Clear
                } else {
                    self.phase = UploadPhase::Reading { phrase };
                    UploadAction::Read
                }
            },
            (UploadPhase::Clearing { phrase }, UploadEvent::Cleared) => {
                self.phase = UploadPhase::Reading { phrase };
                UploadAction::Read
            },
            (UploadPhase::Reading { phrase }, UploadEvent::Body { body }) => {
                self.answered(body, phrase)
            },
            (UploadPhase::Choosing { link, phrase }, UploadEvent::Picked { option }) => {
                let picture = if shows_code(&option) {
                    qr::draw(link.as_str())
                } else {
                    None
                };
                UploadAction::Finish { message: shown(option, picture, phrase) }
            },
            (phase, _) => {
                self.phase = phase;
                UploadAction::Unexpected
            },
        }
    }
}

/// What is shown is what was picked: for the options that show the phrase it
/// holds all of the phrase, for those that show the picture all of that, and
/// for any other option, or none, nothing is shown.
pub proof fn law_shown_is_what_was_picked(
    option: Option<String>,
    picture: Option<String>,
    phrase: Option<String>,
    r: String,
)
    requires
        call_ensures(shown, (option, picture, phrase), r),
    ensures
        shows(r@, text::chars_if_any(option), text::chars_if_any(picture), text::chars_if_any(phrase)),
{
    lemma_shows(
        text::chars_if_any(option),
        text::chars_if_any(picture),
        text::chars_if_any(phrase),
    );
}

/// `s` shows the picture and the phrase as the option asks.
pub open spec fn shows(
    s: Seq<char>,
    option: Option<Seq<char>>,
    picture: Option<Seq<char>>,
    phrase: Option<Seq<char>>,
) -> bool {
    let code = option == Some("(2) Show download link as QR code"@) || option == Some(
        "(4) Both 2 and 3"@,
    );
    let words = option == Some("(3) Show decryption mnemonic phrases"@) || option == Some(
        "(4) Both 2 and 3"@,
    );
    &&& !code && !words ==> s.len() == 0
    &&& code ==> s.take(9) == "QR Code:\n"@
    &&& code && picture is Some ==> text::occurs_at(s, picture->0 + "\n\n"@, 9)
    &&& code && (!words || phrase is None) ==> s == "QR Code:\n"@ + (if picture is Some {
        picture->0 + "\n\n"@
    } else {
        Seq::<char>::empty()
    })
    &&& words && phrase is Some ==> text::occurs_at(
        s,
        "Decryption Phrases: "@ + phrase->0 + "\n\n"@,
        s.len() - phrase->0.len() - 22,
    ) && exists|i: int| #[trigger] text::occurs_at(s, phrase->0, i)
    &&& words && !code && phrase is Some ==> s == "\nDecryption Phrases: "@ + phrase->0 + "\n\n"@
    &&& words && !code && phrase is None ==> s.len() == 0
    &&& words && code && phrase is Some ==> s.len() == 9 + (if picture is Some {
        picture->0.len() + 2
    } else {
        0
    }) + 20 + phrase->0.len() + 2
}

/// The options differ.
proof fn lemma_options_differ()
    ensures
        SHOW_CODE@ != SHOW_PHRASE@,
        SHOW_CODE@ != SHOW_BOTH@,
        SHOW_PHRASE@ != SHOW_BOTH@,
{
    reveal_strlit("(2) Show download link as QR code");
    reveal_strlit("(3) Show decryption mnemonic phrases");
    reveal_strlit("(4) Both 2 and 3");
    assert(SHOW_CODE@[1] == '2');
    assert(SHOW_PHRASE@[1] == '3');
    assert(SHOW_BOTH@[1] == '4');
}

/// What is shown for an option shows what it asks for.
pub proof fn lemma_shows(
    option: Option<Seq<char>>,
    picture: Option<Seq<char>>,
    phrase: Option<Seq<char>>,
)
    ensures
        shows(shown_text(option, picture, phrase), option, picture, phrase),
{
    lemma_options_differ();
    reveal_strlit("QR Code:\n");
    reveal_strlit("\n\n");
    reveal_strlit("Decryption Phrases: ");
    reveal_strlit("\nDecryption Phrases: ");
    let s = shown_text(option, picture, phrase);
    let code = option == Some(SHOW_CODE@) || option == Some(SHOW_BOTH@);
    let words = option == Some(SHOW_PHRASE@) || option == Some(SHOW_BOTH@);
    if code {
        assert(s.take(9) =~= "QR Code:\n"@);
        if picture is Some {
            let part = picture->0 + "\n\n"@;
            assert(s.subrange(9, 9 + part.len() as int) =~= part);
        }
        if !words || phrase is None {
            assert(s =~= "QR Code:\n"@ + (if picture is Some {
                picture->0 + "\n\n"@
            } else {
                Seq::<char>::empty()
            }));
        }
    }
    if words && phrase is Some {
        let p = phrase->0;
        let part = "Decryption Phrases: "@ + p + "\n\n"@;
        let at = s.len() - p.len() - 22;
        assert(s.subrange(at, at + part.len()) =~= part);
        assert(s.subrange(at + 20, at + 20 + p.len()) =~= p);
        assert(text::occurs_at(s, p, at + 20));
    }
}

/// An upload starts with what it was made of.
pub proof fn law_upload_starts_with_what_was_given(
    base: String,
    path: String,
    encrypt: bool,
    r: Upload,
)
    requires
        call_ensures(Upload::new, (base, path, encrypt), r),
    ensures
        r.base@ == base@ && r.path@ == path@ && r.encrypt == encrypt && r.phase is Inspecting,
{
}

/// The name of an upload is the one at the end of its path; there is none
/// where the path ends in `..`.
pub proof fn law_upload_has_the_name_of_its_file(
    base: String,
    path: String,
    encrypt: bool,
    r: Upload,
    directory: Seq<char>,
    name: Seq<char>,
    slashes: Seq<char>,
)
    requires
        call_ensures(Upload::new, (base, path, encrypt), r),
        path@ == directory + name + slashes,
        directory.len() > 0 ==> directory.last() == '/',
        paths::portable(path@),
        name.len() > 0 && !name.contains('/') && name != "."@,
        text::all_are(slashes, '/'),
    ensures
        name != ".."@ ==> (r.name matches Some(n) && n@ == name),
        name == ".."@ ==> r.name is None,
{
    paths::law_name_behind_the_last_slash(
        path@,
        text::chars_if_any(r.name),
        directory,
        name,
        slashes,
    );
}

/// What a call of `step` does is one step of the upload.
pub proof fn law_call_is_an_upload_step(upload: &mut Upload, event: UploadEvent, r: UploadAction)
    requires
        call_ensures(Upload::step, (upload, event), r),
    ensures
        upload_step(*old(upload), event, *final(upload), r),
{
}

/// The file is encrypted with the phrase that was given, which the upload
/// keeps.
pub proof fn law_phrase_is_kept(upload: &mut Upload, phrase: String, r: UploadAction)
    requires
        call_ensures(Upload::encrypt_with, (upload, phrase), r),
    ensures
        r == (UploadAction::Encrypt { phrase }),
        final(upload).phase == (UploadPhase::Encrypting { with: phrase }),
        final(upload).base == old(upload).base,
        final(upload).path == old(upload).path,
        final(upload).name == old(upload).name,
        final(upload).encrypt == old(upload).encrypt,
{
}

} // verus!
