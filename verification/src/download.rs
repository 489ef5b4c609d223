//! A download, step by step: what is done next after each thing that was done.

use reqwest::header::HeaderMap;
use vstd::prelude::*;
use vstd::string::*;
use crate::headers;
use crate::links;
use crate::paths;
use crate::status;
use crate::text;

verus! {

/// How many phrases are tried before the user is asked whether to go on.
pub const MAX_ATTEMPTS: u32 = 3;

/// What is asked for to decrypt a file.
pub const PHRASE_PROMPT: &'static str = "Decryption mnemonic phrases:";

/// The name of a file that has no other.
pub const FALLBACK_NAME: &'static str = "download";

/// The option that leaves a file as it is.
pub const NO: &'static str = "No";

/// The option that overwrites a file.
pub const YES: &'static str = "Yes";

/// What is asked when no phrase has opened the file.
pub const QUESTION: &'static str = "What would you like to do?";

/// The option that removes the encrypted file.
pub const DISCARD: &'static str = "Exit (delete downloaded file)";

/// The option that puts the encrypted file aside.
pub const KEEP: &'static str = "Keep file and exit";

/// The option that asks for more phrases.
pub const RETRY: &'static str = "Try again";

/// How far a download is.
#[derive(Debug, PartialEq, Eq)]
pub enum DownloadPhase {
    /// The server was asked for the file.
    Requesting,
    /// The server has refused; what it says is being read.
    Refused { status: String },
    /// It is being looked whether there is a file under the target.
    Probing { target: String, encrypted: bool },
    /// The user is asked whether that file may be overwritten.
    Confirming { target: String, encrypted: bool },
    /// The file is being received.
    Storing { target: String, encrypted: bool },
    /// A phrase is asked for and tried; so many have failed in a row.
    Unlocking { target: String, failures: u32 },
    /// The user is asked what to do with a file that does not open.
    Deciding { target: String },
    /// The file is being put aside as it is.
    Keeping,
    /// Nothing is left to do.
    Done,
}

/// A download of the file `id` from the server at `base`, to `output` where
/// the user has named a path.
pub struct Download {
    pub base: String,
    pub id: String,
    pub output: Option<String>,
    pub phase: DownloadPhase,
}

/// What came of the last action.
pub enum DownloadEvent {
    /// The server has begun to answer.
    Responded { status: u16, headers: HeaderMap },
    /// What the server says to a request that it refused, if it can be read.
    Explained { body: Option<String> },
    /// There is a file under the target.
    Exists,
    /// There is no file under the target.
    Absent,
    /// What the user picked, if anything.
    Picked { option: Option<String> },
    /// All of the file is received.
    Stored,
    /// The phrase has opened the file, and what was in it is written to the
    /// target.
    Opened,
    /// That has failed.
    NotOpened,
    /// The encrypted file was put here.
    Kept { path: String },
}

/// What to do next. Texts are printed as they are.
#[derive(Debug, PartialEq, Eq)]
pub enum DownloadAction {
    /// Read what the server says.
    ReadRefusal,
    /// End with the error.
    Fail { message: String },
    /// See whether there is a file under the target, which is the path that
    /// the user named or a name in the working directory.
    Probe { target: String, named_by_user: bool },
    /// Let the user pick an option.
    Confirm { question: String, options: Vec<&'static str> },
    /// Receive the file, into a temporary one or into the target.
    Store { temporary: bool },
    /// Print the warning, ask for a phrase with the prompt, and try it.
    Ask { warning: String, prompt: &'static str },
    /// Print the warning, and ask the question, to which the user picks an
    /// option.
    Offer { warning: String, question: &'static str, options: Vec<&'static str> },
    /// Remove the temporary file, if there is one, record the download, and
    /// print the message.
    Save {
        temporary: bool,
        file_name: String,
        file_id: String,
        encrypted: bool,
        message: String,
    },
    /// Move the temporary file to the working directory, under the name.
    Keep { file_name: String },
    /// Remove the temporary file, print the message and end.
    Discard { message: String },
    /// Print the message and end.
    Finish { message: String },
    /// The event does not fit: nothing was waiting for it.
    Unexpected,
}

/// Why a download has failed.
pub open spec fn refusal_text(status: Seq<char>, body: Seq<char>) -> Seq<char> {
    "Download failed ("@ + status + "): "@ + body
}

/// What is asked before a file is overwritten.
pub open spec fn overwrite_text(target: Seq<char>) -> Seq<char> {
    "File `"@ + target + "` already exists. Overwrite?"@
}

/// What is said when a phrase has failed and others can be tried.
pub open spec fn remaining_text(remaining: nat) -> Seq<char> {
    "\nDecryption failed. "@ + text::decimal(remaining) + " attempt"@ + (if remaining == 1 {
        ""@
    } else {
        "s"@
    }) + " remaining.\n\n"@
}

/// What is said when the last phrase has failed.
pub open spec fn exhausted_text() -> Seq<char> {
    "\nDecryption failed after "@ + text::decimal(MAX_ATTEMPTS as nat) + " attempts.\n\n"@
}

/// Where the file is.
pub open spec fn saved_text(target: Seq<char>) -> Seq<char> {
    "\nSaved to: "@ + target + "\n\n"@
}

/// Where the encrypted file is.
pub open spec fn kept_text(path: Seq<char>) -> Seq<char> {
    "\nEncrypted file kept at: "@ + path + "\n\n"@
}

/// What the file is saved as: the path that the user named; without one, the
/// name in the headers; without that, a name for all such files.
pub open spec fn is_target(
    output: Option<Seq<char>>,
    requested: Option<Seq<char>>,
    target: Seq<char>,
) -> bool {
    match (output, requested) {
        (Some(output), _) => target == output,
        (None, Some(name)) if name.len() > 0 => exists|base: Option<Seq<char>>| #[trigger]
            paths::is_base_name(name, base) && target == text::text_or(base, FALLBACK_NAME@),
        _ => target == FALLBACK_NAME@,
    }
}

/// The name that a download to the target is recorded under.
pub open spec fn is_recorded_name(target: Seq<char>, file_name: Seq<char>) -> bool {
    exists|base: Option<Seq<char>>| #[trigger]
        paths::is_base_name(target, base) && file_name == text::text_or(base, Seq::empty())
}

/// The name that an encrypted file is put aside under: that of the target, or
/// the target itself where it has none.
pub open spec fn is_kept_name(target: Seq<char>, file_name: Seq<char>) -> bool {
    exists|base: Option<Seq<char>>| #[trigger]
        paths::is_base_name(target, base) && file_name == text::text_or(base, target)
}

/// The two are the same download, perhaps at different phases.
pub open spec fn same_download(a: Download, b: Download) -> bool {
    a.base == b.base && a.id == b.id && a.output == b.output
}

/// The file is saved and recorded.
pub open spec fn saves(
    download: Download,
    target: Seq<char>,
    encrypted: bool,
    action: DownloadAction,
) -> bool {
    &&& action matches DownloadAction::Save {
        temporary,
        file_name,
        file_id,
        encrypted: marked,
        message,
    }
    &&& temporary == encrypted
    &&& is_recorded_name(target, file_name@)
    &&& file_id@ == download.id@
    &&& marked == encrypted
    &&& message@ == saved_text(target)
}

/// One step of a download: the action after an event, and the phase it leads
/// to.
pub open spec fn download_step(
    before: Download,
    event: DownloadEvent,
    after: Download,
    action: DownloadAction,
) -> bool {
    &&& same_download(before, after)
    &&& match (before.phase, event) {
        (DownloadPhase::Requesting, DownloadEvent::Responded { status, headers }) => {
            if !status::is_status(status) {
                after.phase == before.phase && action is Unexpected
            } else if 200 <= status < 300 {
                &&& after.phase matches DownloadPhase::Probing { target, encrypted }
                &&& encrypted == headers::marked_encrypted(headers)
                &&& is_target(
                    text::chars_if_any(before.output),
                    headers::disposition_filename(headers),
                    target@,
                )
                &&& action matches DownloadAction::Probe { target: probed, named_by_user }
                &&& probed@ == target@
                &&& named_by_user == before.output is Some
            } else {
                &&& after.phase matches DownloadPhase::Refused { status: shown }
                &&& shown@ == status::status_line(status)
                &&& action is ReadRefusal
            }
        },
        (DownloadPhase::Refused { status }, DownloadEvent::Explained { body }) => {
            &&& after.phase is Done
            &&& action matches DownloadAction::Fail { message }
            &&& message@ == refusal_text(
                status@,
                text::text_or(text::chars_if_any(body), Seq::empty()),
            )
        },
        (DownloadPhase::Probing { target, encrypted }, DownloadEvent::Exists) => {
            &&& after.phase == (DownloadPhase::Confirming { target, encrypted })
            &&& action matches DownloadAction::Confirm { question, options }
            &&& question@ == overwrite_text(target@)
            &&& options@ == seq![NO, YES]
        },
        (DownloadPhase::Probing { target, encrypted }, DownloadEvent::Absent) => {
            &&& after.phase == (DownloadPhase::Storing { target, encrypted })
            &&& action == (DownloadAction::Store { temporary: encrypted })
        },
        (DownloadPhase::Confirming { target, encrypted }, DownloadEvent::Picked { option }) => {
            if text::chars_if_any(option) == Some(YES@) {
                &&& after.phase == (DownloadPhase::Storing { target, encrypted })
                &&& action == (DownloadAction::Store { temporary: encrypted })
            } else {
                &&& after.phase is Done
                &&& action matches DownloadAction::Finish { message }
                &&& message@ == "\nDownload cancelled.\n\n"@
            }
        },
        (DownloadPhase::Storing { target, encrypted }, DownloadEvent::Stored) => {
            if encrypted {
                &&& after.phase == (DownloadPhase::Unlocking { target, failures: 0 })
                &&& action matches DownloadAction::Ask { warning, prompt }
                &&& prompt@ == PHRASE_PROMPT@
                &&& warning@ == Seq::<char>::empty()
            } else {
                &&& after.phase is Done
                &&& saves(before, target@, false, action)
            }
        },
        (DownloadPhase::Unlocking { target, .. }, DownloadEvent::Opened) => {
            &&& after.phase is Done
            &&& saves(before, target@, true, action)
        },
        (DownloadPhase::Unlocking { target, failures }, DownloadEvent::NotOpened) => {
            if failures + 1 < MAX_ATTEMPTS {
                &&& after.phase == (DownloadPhase::Unlocking {
                    target,
                    failures: (failures + 1) as u32,
                })
                &&& action matches DownloadAction::Ask { warning, prompt }
                &&& prompt@ == PHRASE_PROMPT@
                &&& warning@ == remaining_text((MAX_ATTEMPTS - failures - 1) as nat)
            } else {
                &&& after.phase == (DownloadPhase::Deciding { target })
                &&& action matches DownloadAction::Offer { warning, question, options }
                &&& question@ == QUESTION@
                &&& warning@ == exhausted_text()
                &&& options@ == seq![DISCARD, KEEP, RETRY]
            }
        },
        (DownloadPhase::Deciding { target }, DownloadEvent::Picked { option }) => {
            if text::chars_if_any(option) == Some(KEEP@) {
                &&& after.phase is Keeping
                &&& action matches DownloadAction::Keep { file_name }
                &&& is_kept_name(target@, file_name@)
            } else if text::chars_if_any(option) == Some(RETRY@) {
                &&& after.phase == (DownloadPhase::Unlocking { target, failures: 0 })
                &&& action matches DownloadAction::Ask { warning, prompt }
                &&& prompt@ == PHRASE_PROMPT@
                &&& warning@ == Seq::<char>::empty()
            } else {
                &&& after.phase is Done
                &&& action matches DownloadAction::Discard { message }
                &&& message@ == "\nDownload discarded.\n\n"@
            }
        },
        (DownloadPhase::Keeping, DownloadEvent::Kept { path }) => {
            &&& after.phase is Done
            &&& action matches DownloadAction::Finish { message }
            &&& message@ == kept_text(path@)
        },
        _ => after.phase == before.phase && action is Unexpected,
    }
}

/// Writes why a download has failed.
fn refusal(status: &str, body: &str) -> (r: String)
    ensures
        r@ == refusal_text(status@, body@),
{
    "Download failed (".to_owned().concat(status).concat("): ").concat(body)
}

/// Writes what is asked before a file is overwritten.
fn overwrite_question(target: &str) -> (r: String)
    ensures
        r@ == overwrite_text(target@),
{
    "File `".to_owned().concat(target).concat("` already exists. Overwrite?")
}

/// Writes what is said when a phrase has failed and others can be tried.
fn remaining_warning(remaining: u32) -> (r: String)
    ensures
        r@ == remaining_text(remaining as nat),
{
    let mut r = "\nDecryption failed. ".to_owned();
    text::push_decimal(&mut r, remaining as u128);
    r.concat(" attempt").concat(
        if remaining == 1 {
            ""
        } else {
            "s"
        },
    ).concat(" remaining.\n\n")
}

/// Writes what is said when the last phrase has failed.
fn exhausted_warning() -> (r: String)
    ensures
        r@ == exhausted_text(),
{
    let mut r = "\nDecryption failed after ".to_owned();
    text::push_decimal(&mut r, MAX_ATTEMPTS as u128);
    r.concat(" attempts.\n\n")
}

/// Writes where the file is.
fn saved_message(target: &str) -> (r: String)
    ensures
        r@ == saved_text(target@),
{
    "\nSaved to: ".to_owned().concat(target).concat("\n\n")
}

/// Writes where the encrypted file is.
fn kept_message(path: &str) -> (r: String)
    ensures
        r@ == kept_text(path@),
{
    "\nEncrypted file kept at: ".to_owned().concat(path).concat("\n\n")
}

/// The options when a file would be overwritten; the first is the harmless
/// one.
pub fn overwrite_options() -> (r: Vec<&'static str>)
    ensures
        r@ == seq![NO, YES],
{
    let mut options: Vec<&'static str> = Vec::new();
    options.push(NO);
    options.push(YES);
    options
}

/// The options when no phrase has opened the file.
pub fn unopened_options() -> (r: Vec<&'static str>)
    ensures
        r@ == seq![DISCARD, KEEP, RETRY],
{
    let mut options: Vec<&'static str> = Vec::new();
    options.push(DISCARD);
    options.push(KEEP);
    options.push(RETRY);
    options
}

/// Tests whether the option was picked.
fn picked(option: &Option<String>, wanted: &str) -> (r: bool)
    ensures
        r == (text::chars_if_any(*option) == Some(wanted@)),
{
    match option {
        Some(option) => text::same(option, wanted),
        None => false,
    }
}

impl DownloadEvent {
    /// What came of trying a phrase, where `complete` tells whether all that
    /// was in the file is written to the target.
    pub fn tried(complete: bool) -> (r: DownloadEvent)
        ensures
            r == (if complete {
                DownloadEvent::Opened
            } else {
                DownloadEvent::NotOpened
            }),
    {
        if complete {
            DownloadEvent::Opened
        } else {
            DownloadEvent::NotOpened
        }
    }
}

impl Download {
    /// A download of what the user typed, an identifier or a link, from the
    /// server at `base`; the server is to be asked.
    pub fn new(base: String, id_or_url: &str, output: Option<String>) -> (r: Download)
        ensures
            r.base == base,
            r.id@ == links::id_of_input(id_or_url@),
            r.output == output,
            r.phase is Requesting,
    {
        let id = links::extract_id_from_input(id_or_url);
        Download { base, id, output, phase: DownloadPhase::Requesting }
    }

    /// The address to ask for the file.
    pub fn url(&self) -> (r: String)
        ensures
            r@ == links::download_address(self.base@, self.id@),
    {
        links::download_url(self.base.as_str(), self.id.as_str())
    }

    /// What the file is saved as.
    fn target(&self, headers: &HeaderMap) -> (r: String)
        ensures
            is_target(
                text::chars_if_any(self.output),
                headers::disposition_filename(*headers),
                r@,
            ),
    {
        if let Some(output) = &self.output {
            return output.clone();
        }
        match headers::filename_from_headers(headers) {
            Some(name) => name,
            None => FALLBACK_NAME.to_owned(),
        }
    }

    /// The file is saved and recorded.
    fn save(&self, target: String, encrypted: bool) -> (r: DownloadAction)
        ensures
            saves(*self, target@, encrypted, r),
    {
        let file_name = match paths::base_name(target.as_str()) {
            Some(name) => name,
            None => String::new(),
        };
        DownloadAction::Save {
            temporary: encrypted,
            file_name,
            file_id: self.id.clone(),
            encrypted,
            message: saved_message(target.as_str()),
        }
    }

    /// What to do after an event.
    pub fn step(&mut self, event: DownloadEvent) -> (r: DownloadAction)
        ensures
            download_step(*old(self), event, *final(self), r),
    {
        let mut phase = DownloadPhase::Done;
        std::mem::swap(&mut self.phase, &mut phase);
        match (phase, event) {
            (DownloadPhase::Requesting, DownloadEvent::Responded { status, headers }) => {
                match status::status_text(status) {
                    None => {
                        self.phase = DownloadPhase::Requesting;
                        DownloadAction::Unexpected
                    },
                    Some(shown) => if status::is_success(status) {
                        let target = self.target(&headers);
                        let encrypted: bool = headers::is_encrypted(&headers);
                        self.phase = DownloadPhase::Probing { target: target.clone(), encrypted };
                        DownloadAction::Probe { target, named_by_user: self.output.is_some() }
                    } else {
                        self.phase = DownloadPhase::Refused { status: shown };
                        DownloadAction::ReadRefusal
                    },
                }
            },
            (DownloadPhase::Refused { status }, DownloadEvent::Explained { body }) => {
                let body = match body {
                    Some(body) => body,
                    None => String::new(),
                };
                DownloadAction::Fail { message: refusal(status.as_str(), body.as_str()) }
            },
            (DownloadPhase::Probing { target, encrypted }, DownloadEvent::Exists) => {
                let question = overwrite_question(target.as_str());
                self.phase = DownloadPhase::Confirming { target, encrypted };
                DownloadAction::Confirm { question, options: overwrite_options() }
            },
            (DownloadPhase::Probing { target, encrypted }, DownloadEvent::Absent) => {
                self.phase = DownloadPhase::Storing { target, encrypted };
                DownloadAction::Store { temporary: encrypted }
            },
            (
                DownloadPhase::Confirming { target, encrypted },
                DownloadEvent::Picked { option },
            ) => {
                if picked(&option, YES) {
                    self.phase = DownloadPhase::Storing { target, encrypted };
                    DownloadAction::Store { temporary: encrypted }
                } else {
                    DownloadAction::Finish { message: "\nDownload cancelled.\n\n".to_owned() }
                }
            },
            (DownloadPhase::Storing { target, encrypted }, DownloadEvent::Stored) => {
                if encrypted {
                    self.phase = DownloadPhase::Unlocking { target, failures: 0 };
                    DownloadAction::Ask { warning: String::new(), prompt: PHRASE_PROMPT }
                } else {
                    self.save(target, false)
                }
            },
            (DownloadPhase::Unlocking { target, .. }, DownloadEvent::Opened) => {
                self.save(target, true)
            },
            (DownloadPhase::Unlocking { target, failures }, DownloadEvent::NotOpened) => {
                if failures < MAX_ATTEMPTS - 1 {
                    self.phase = DownloadPhase::Unlocking { target, failures: failures + 1 };
                    DownloadAction::Ask {
                        warning: remaining_warning(MAX_ATTEMPTS - failures - 1),
                        prompt: PHRASE_PROMPT,
                    }
                } else {
                    self.phase = DownloadPhase::Deciding { target };
                    DownloadAction::Offer {
                        warning: exhausted_warning(),
                        question: QUESTION,
                        options: unopened_options(),
                    }
                }
            },
            (DownloadPhase::Deciding { target }, DownloadEvent::Picked { option }) => {
                if picked(&option, KEEP) {
                    self.phase = DownloadPhase::Keeping;
                    let file_name = match paths::base_name(target.as_str()) {
                        Some(name) => name,
                        None => target,
                    };
                    DownloadAction::Keep { file_name }
                } else if picked(&option, RETRY) {
                    self.phase = DownloadPhase::Unlocking { target, failures: 0 };
                    DownloadAction::Ask { warning: String::new(), prompt: PHRASE_PROMPT }
                } else {
                    DownloadAction::Discard { message: "\nDownload discarded.\n\n".to_owned() }
                }
            },
            (DownloadPhase::Keeping, DownloadEvent::Kept { path }) => {
                DownloadAction::Finish { message: kept_message(path.as_str()) }
            },
            (phase, _) => {
                self.phase = phase;
                DownloadAction::Unexpected
            },
        }
    }
}

/// Where the user names no path, the file is saved under a plain name in the
/// working directory, whatever the server asks for: the name is not empty,
/// not that of a directory above, and holds no slash. Only where the server
/// asks for a name that starts with `\\?\` can it hold one.
pub proof fn law_server_names_no_path(requested: Option<Seq<char>>, target: Seq<char>)
    requires
        is_target(None, requested, target),
    ensures
        target.len() > 0 && target != "."@ && target != ".."@,
        requested matches Some(name) ==> !text::occurs_at(name, "\\\\?\\"@, 0) ==> !target.contains(
            '/',
        ),
        requested is None ==> !target.contains('/'),
{
    reveal_strlit("download");
    reveal_strlit(".");
    reveal_strlit("..");
    assert(FALLBACK_NAME@.len() == 8);
    assert(!FALLBACK_NAME@.contains('/'));
}

/// A download starts with what it was made of: it asks the server for the
/// identifier in what the user typed.
pub proof fn law_download_is_what_was_asked_for(
    base: String,
    typed: &str,
    output: Option<String>,
    r: Download,
    id: String,
    url: String,
)
    requires
        call_ensures(Download::new, (base, typed, output), r),
        call_ensures(links::extract_id_from_input, (typed,), id),
        call_ensures(Download::url, (&r,), url),
    ensures
        r.base@ == base@ && r.id@ == id@ && r.output == output && r.phase is Requesting,
        url@ == base@ + "/download/"@ + id@,
{
}

/// What a call of `step` does is one step of the download.
pub proof fn law_call_is_a_download_step(
    download: &mut Download,
    event: DownloadEvent,
    r: DownloadAction,
)
    requires
        call_ensures(Download::step, (download, event), r),
    ensures
        download_step(*old(download), event, *final(download), r),
{
}

/// A phrase that was tried has opened the file exactly where all of it is
/// written.
pub proof fn law_complete_file_is_opened(complete: bool, r: DownloadEvent)
    requires
        call_ensures(DownloadEvent::tried, (complete,), r),
    ensures
        r is Opened <==> complete,
        r is NotOpened <==> !complete,
{
}

} // verus!
