//! What holds of every run of an upload, whatever the events.

use vstd::prelude::*;
use crate::crypt;
use crate::links;
use crate::qr;
use crate::text;
use crate::upload;
use crate::upload::{Upload, UploadAction, UploadEvent, UploadPhase};

verus! {

/// A run of an upload from its start: `actions[i]` is the action after
/// `events[i]`, which leads from `states[i]` to `states[i + 1]`.
pub open spec fn upload_run(
    states: Seq<Upload>,
    events: Seq<UploadEvent>,
    actions: Seq<UploadAction>,
) -> bool {
    &&& states.len() == events.len() + 1
    &&& actions.len() == events.len()
    &&& states[0].phase is Inspecting
    &&& forall|i: int|
        0 <= i < events.len() ==> upload::upload_step(
            states[i],
            events[i],
            states[i + 1],
            #[trigger] actions[i],
        )
}

/// Among the first `n` actions is one that encrypts with the phrase.
pub open spec fn encrypted_with(actions: Seq<UploadAction>, n: int, phrase: Seq<char>) -> bool {
    exists|j: int|
        0 <= j < n && (#[trigger] actions[j] matches UploadAction::Encrypt { phrase: p } && p@
            == phrase)
}

/// Among the first `n` actions is one that sends the file.
pub open spec fn sent(actions: Seq<UploadAction>, n: int) -> bool {
    exists|j: int| 0 <= j < n && #[trigger] actions[j] is Send
}

/// Among the first `n` actions is one that removes the encrypted file.
pub open spec fn cleared(actions: Seq<UploadAction>, n: int) -> bool {
    exists|j: int| 0 <= j < n && #[trigger] actions[j] is Clear
}

/// There is a phrase exactly where the upload is encrypted, and it is one
/// that was encrypted with.
spec fn phrase_fits(
    upload: Upload,
    phrase: Option<String>,
    actions: Seq<UploadAction>,
    n: int,
) -> bool {
    match phrase {
        Some(phrase) => upload.encrypt && encrypted_with(actions, n, phrase@),
        None => !upload.encrypt,
    }
}

/// What the phase after `n` actions says of them.
spec fn phase_fits(upload: Upload, actions: Seq<UploadAction>, n: int) -> bool {
    match upload.phase {
        UploadPhase::Inspecting => true,
        UploadPhase::Encrypting { with } => upload.encrypt && encrypted_with(actions, n, with@),
        UploadPhase::Sending { phrase } => phrase_fits(upload, phrase, actions, n) && sent(
            actions,
            n,
        ),
        UploadPhase::Clearing { phrase } => phrase_fits(upload, phrase, actions, n) && sent(
            actions,
            n,
        ) && cleared(actions, n),
        UploadPhase::Reading { phrase } => phrase_fits(upload, phrase, actions, n) && sent(
            actions,
            n,
        ) && (upload.encrypt ==> cleared(actions, n)),
        UploadPhase::Choosing { phrase, .. } => phrase_fits(upload, phrase, actions, n) && sent(
            actions,
            n,
        ) && (upload.encrypt ==> cleared(actions, n)),
        UploadPhase::Done => true,
    }
}

proof fn lemma_phase_fits(
    states: Seq<Upload>,
    events: Seq<UploadEvent>,
    actions: Seq<UploadAction>,
    n: int,
)
    requires
        upload_run(states, events, actions),
        0 <= n <= events.len(),
    ensures
        upload::same_upload(states[0], states[n]),
        phase_fits(states[n], actions, n),
    decreases n,
{
    if n > 0 {
        lemma_phase_fits(states, events, actions, n - 1);
        assert(upload::upload_step(states[n - 1], events[n - 1], states[n], actions[n - 1]));
    }
}

/// How far a phase is from the start.
spec fn rank(phase: UploadPhase) -> int {
    match phase {
        UploadPhase::Inspecting => 0,
        UploadPhase::Encrypting { .. } => 1,
        UploadPhase::Sending { .. } => 2,
        UploadPhase::Clearing { .. } => 3,
        UploadPhase::Reading { .. } => 4,
        UploadPhase::Choosing { .. } => 5,
        UploadPhase::Done => 6,
    }
}

proof fn lemma_rank_grows(
    states: Seq<Upload>,
    events: Seq<UploadEvent>,
    actions: Seq<UploadAction>,
    m: int,
    n: int,
)
    requires
        upload_run(states, events, actions),
        0 <= m <= n <= events.len(),
    ensures
        rank(states[m].phase) <= rank(states[n].phase),
        m < n && !(actions[m] is Unexpected) ==> rank(states[m].phase) < rank(states[n].phase),
    decreases n - m,
{
    if m < n {
        assert(upload::upload_step(states[m], events[m], states[m + 1], actions[m]));
        lemma_rank_grows(states, events, actions, m + 1, n);
    }
}

/// Where the user asks for encryption, the file itself is never sent: what is
/// sent is the file that it was encrypted to, after it was encrypted. Where
/// the user does not, the file is sent as it is, and never encrypted. Either
/// way the server is told which.
pub proof fn law_sends_what_was_asked_for(
    states: Seq<Upload>,
    events: Seq<UploadEvent>,
    actions: Seq<UploadAction>,
    i: int,
)
    requires
        upload_run(states, events, actions),
        0 <= i < actions.len(),
    ensures
        actions[i] matches UploadAction::Send { url, source, .. } ==> {
            &&& source is Encrypted <==> states[0].encrypt
            &&& url@ == links::upload_address(states[0].base@, states[0].encrypt)
            &&& states[0].encrypt ==> exists|j: int| 0 <= j < i && #[trigger] actions[j] is Encrypt
        },
        actions[i] is Encrypt ==> states[0].encrypt,
{
    lemma_phase_fits(states, events, actions, i);
    assert(upload::upload_step(states[i], events[i], states[i + 1], actions[i]));
}

/// The phrase that the user can be shown after an encrypted upload is the one
/// that the file was encrypted with; after another upload there is none.
pub proof fn law_shows_the_phrase_that_was_used(
    states: Seq<Upload>,
    events: Seq<UploadEvent>,
    actions: Seq<UploadAction>,
    i: int,
)
    requires
        upload_run(states, events, actions),
        0 <= i < states.len(),
    ensures
        states[i].phase matches UploadPhase::Choosing { phrase, .. } ==> match phrase {
            Some(phrase) => states[0].encrypt && encrypted_with(actions, i, phrase@),
            None => !states[0].encrypt,
        },
{
    lemma_phase_fits(states, events, actions, i);
}

/// An upload is sent once and recorded once at most, and recorded only after
/// it was sent.
pub proof fn law_sent_and_recorded_once(
    states: Seq<Upload>,
    events: Seq<UploadEvent>,
    actions: Seq<UploadAction>,
    i: int,
    j: int,
)
    requires
        upload_run(states, events, actions),
        0 <= i < actions.len(),
        0 <= j < actions.len(),
    ensures
        actions[i] is Send && actions[j] is Send ==> i == j,
        actions[i] is Offer && actions[j] is Offer ==> i == j,
        actions[i] is Encrypt && actions[j] is Encrypt ==> i == j,
        actions[i] is Offer ==> sent(actions, i),
{
    assert(upload::upload_step(states[i], events[i], states[i + 1], actions[i]));
    assert(upload::upload_step(states[j], events[j], states[j + 1], actions[j]));
    lemma_phase_fits(states, events, actions, i);
    if i < j {
        lemma_rank_grows(states, events, actions, i + 1, j);
    } else if j < i {
        lemma_rank_grows(states, events, actions, j + 1, i);
    }
}

/// The link that is offered and recorded after an upload leads a download to
/// the file that the server has named, which is recorded with it.
pub proof fn law_offered_link_leads_to_the_file(
    states: Seq<Upload>,
    events: Seq<UploadEvent>,
    actions: Seq<UploadAction>,
    i: int,
)
    requires
        upload_run(states, events, actions),
        0 <= i < actions.len(),
    ensures
        actions[i] matches UploadAction::Offer { file_id, link, encrypted, .. } ==> {
            &&& links::id_of_input(link@) == file_id@
            &&& link@ == links::download_address(states[0].base@, file_id@)
            &&& encrypted == states[0].encrypt
            &&& events[i] matches UploadEvent::Body { body } && links::file_id(body@) == Some(
                file_id@,
            )
        },
{
    lemma_phase_fits(states, events, actions, i);
    assert(upload::upload_step(states[i], events[i], states[i + 1], actions[i]));
    if let UploadEvent::Body { body } = events[i] {
        if links::file_id(body@) is Some {
            links::law_link_gives_back_its_file_id(states[i].base@, body@);
        }
    }
}

/// The file that an upload was encrypted to is removed before the server's
/// answer is read; where there is no such file, nothing is removed.
pub proof fn law_encrypted_file_is_removed(
    states: Seq<Upload>,
    events: Seq<UploadEvent>,
    actions: Seq<UploadAction>,
    i: int,
)
    requires
        upload_run(states, events, actions),
        0 <= i < actions.len(),
    ensures
        actions[i] is Read && states[0].encrypt ==> cleared(actions, i),
        actions[i] is Clear ==> states[0].encrypt,
{
    lemma_phase_fits(states, events, actions, i);
    assert(upload::upload_step(states[i], events[i], states[i + 1], actions[i]));
}

/// Once an upload has ended, nothing more is done.
pub proof fn law_upload_ends(
    states: Seq<Upload>,
    events: Seq<UploadEvent>,
    actions: Seq<UploadAction>,
    i: int,
    j: int,
)
    requires
        upload_run(states, events, actions),
        0 <= i < j < actions.len(),
        actions[i] is Abort || actions[i] is Finish,
    ensures
        actions[j] is Unexpected,
{
    assert(upload::upload_step(states[i], events[i], states[i + 1], actions[i]));
    assert(upload::upload_step(states[j], events[j], states[j + 1], actions[j]));
    lemma_rank_grows(states, events, actions, i + 1, j);
}

/// The last of the first `n` actions that was taken: what was done last, so
/// that an event is what came of it.
pub open spec fn last_taken(actions: Seq<UploadAction>, n: int) -> Option<UploadAction>
    decreases n,
{
    if n <= 0 {
        None
    } else if actions[n - 1] is Unexpected {
        last_taken(actions, n - 1)
    } else {
        Some(actions[n - 1])
    }
}

/// The phrase of an upload is the one of its action that encrypts.
spec fn keeps_phrase(phrase: Option<String>, encrypt: bool, actions: Seq<UploadAction>, n: int) -> bool {
    match phrase {
        Some(phrase) => encrypt && forall|j: int|
            0 <= j < n ==> (#[trigger] actions[j] matches UploadAction::Encrypt { phrase: p } ==> p@
                == phrase@),
        None => !encrypt,
    }
}

/// The phase after `n` actions is the one in which what came of the last is
/// waited for.
spec fn waits(upload: Upload, actions: Seq<UploadAction>, n: int) -> bool {
    let last = last_taken(actions, n);
    match upload.phase {
        UploadPhase::Inspecting => last is None && forall|j: int|
            0 <= j < n ==> !(#[trigger] actions[j] is Encrypt),
        UploadPhase::Encrypting { with } => {
            &&& last matches Some(UploadAction::Encrypt { phrase })
            &&& phrase@ == with@
            &&& keeps_phrase(Some(with), upload.encrypt, actions, n)
        },
        UploadPhase::Sending { phrase } => last is Some && last->0 is Send && keeps_phrase(
            phrase,
            upload.encrypt,
            actions,
            n,
        ),
        UploadPhase::Clearing { phrase } => last is Some && last->0 is Clear && keeps_phrase(
            phrase,
            upload.encrypt,
            actions,
            n,
        ),
        UploadPhase::Reading { phrase } => last is Some && last->0 is Read && keeps_phrase(
            phrase,
            upload.encrypt,
            actions,
            n,
        ),
        UploadPhase::Choosing { link, phrase } => {
            &&& last matches Some(UploadAction::Offer { link: offered, .. })
            &&& offered@ == link@
            &&& keeps_phrase(phrase, upload.encrypt, actions, n)
        },
        UploadPhase::Done => last is Some && (last->0 is Abort || last->0 is Finish),
    }
}

proof fn lemma_waits(
    states: Seq<Upload>,
    events: Seq<UploadEvent>,
    actions: Seq<UploadAction>,
    n: int,
)
    requires
        upload_run(states, events, actions),
        0 <= n <= events.len(),
    ensures
        upload::same_upload(states[0], states[n]),
        waits(states[n], actions, n),
    decreases n,
{
    if n > 0 {
        lemma_waits(states, events, actions, n - 1);
        assert(upload::upload_step(states[n - 1], events[n - 1], states[n], actions[n - 1]));
    }
}

/// At the start, a file that is not there or is a directory is not uploaded,
/// and the user is told so with the path. A file that is there is sent as it
/// is, all of it, under its name, or encrypted first with a phrase of twelve
/// words where that is asked for.
pub proof fn law_upload_starts(
    states: Seq<Upload>,
    events: Seq<UploadEvent>,
    actions: Seq<UploadAction>,
    i: int,
)
    requires
        upload_run(states, events, actions),
        0 <= i < actions.len(),
        last_taken(actions, i) is None,
    ensures
        events[i] is Missing ==> (actions[i] matches UploadAction::Abort { message } && message@
            == "\nUpload aborted: file "@ + ("\x1b[94m"@ + states[0].path@ + "\x1b[0m"@)
            + " not found\n\n"@),
        events[i] is Directory ==> (actions[i] matches UploadAction::Abort { message } && message@
            == "\nUpload aborted: "@ + ("\x1b[94m"@ + states[0].path@ + "\x1b[0m"@)
            + " is a directory. Please provide a file path.\n\n"@),
        events[i] matches UploadEvent::Found { size } ==> if states[0].encrypt {
            actions[i] matches UploadAction::Encrypt { phrase } && text::split(phrase@, ' ').len()
                == 12
        } else {
            &&& actions[i] matches UploadAction::Send { url, field, source, size: sent, file_name }
            &&& url@ == states[0].base@ + "/curlup"@
            &&& field@ == "f"@
            &&& source is Plain
            &&& sent == size
            &&& file_name@ == (match states[0].name {
                Some(name) => name@,
                None => "file"@,
            })
        },
        !(events[i] is Missing || events[i] is Directory || events[i] is Found) ==> actions[i] is Unexpected,
{
    lemma_waits(states, events, actions, i);
    assert(upload::upload_step(states[i], events[i], states[i + 1], actions[i]));
    if let UploadAction::Encrypt { phrase } = actions[i] {
        crypt::lemma_phrase_words(phrase@, 12);
    }
}

/// Once it is encrypted, the encrypted file is sent, all of it, under the
/// name of the file and marked as encrypted.
pub proof fn law_encrypted_file_is_sent(
    states: Seq<Upload>,
    events: Seq<UploadEvent>,
    actions: Seq<UploadAction>,
    i: int,
)
    requires
        upload_run(states, events, actions),
        0 <= i < actions.len(),
        last_taken(actions, i) matches Some(last) && last is Encrypt,
    ensures
        match events[i] {
            UploadEvent::Encrypted { size } => {
                &&& actions[i] matches UploadAction::Send { url, field, source, size: sent, file_name }
                &&& url@ == states[0].base@ + "/curlup?encrypted=true"@
                &&& field@ == "f"@
                &&& source is Encrypted
                &&& sent == size
                &&& file_name@ == (match states[0].name {
                    Some(name) => name@,
                    None => "file"@,
                })
            },
            _ => actions[i] is Unexpected,
        },
{
    lemma_waits(states, events, actions, i);
    assert(upload::upload_step(states[i], events[i], states[i + 1], actions[i]));
}

/// Once it is sent, the encrypted file is removed, where there is one, and
/// then the answer is read.
pub proof fn law_answer_is_read(
    states: Seq<Upload>,
    events: Seq<UploadEvent>,
    actions: Seq<UploadAction>,
    i: int,
)
    requires
        upload_run(states, events, actions),
        0 <= i < actions.len(),
        last_taken(actions, i) matches Some(last) && (last is Send || last is Clear),
    ensures
        last_taken(actions, i)->0 is Send ==> if events[i] is Answered {
            if states[0].encrypt {
                actions[i] is Clear
            } else {
                actions[i] is Read
            }
        } else {
            actions[i] is Unexpected
        },
        last_taken(actions, i)->0 is Clear ==> if events[i] is Cleared {
            actions[i] is Read
        } else {
            actions[i] is Unexpected
        },
{
    lemma_waits(states, events, actions, i);
    assert(upload::upload_step(states[i], events[i], states[i + 1], actions[i]));
}

/// An answer that names the file, by the marker and letters or digits behind
/// it, leads to its link and its identifier being told and offered for
/// record, with the options that fit.
pub proof fn law_named_file_is_offered(
    states: Seq<Upload>,
    events: Seq<UploadEvent>,
    actions: Seq<UploadAction>,
    i: int,
    body: String,
    pre: Seq<char>,
    id: Seq<char>,
    rest: Seq<char>,
)
    requires
        upload_run(states, events, actions),
        0 <= i < actions.len(),
        last_taken(actions, i) matches Some(last) && last is Read,
        events[i] == (UploadEvent::Body { body }),
        body@ == pre + "File ID for downloading is "@ + id + rest,
        text::first_at(
            pre + "File ID for downloading is "@,
            "File ID for downloading is "@,
            pre.len() as int,
        ),
        id.len() > 0,
        forall|k: int| 0 <= k < id.len() ==> text::ascii_alphanumeric(#[trigger] id[k]),
        rest.len() > 0 ==> !text::ascii_alphanumeric(rest[0]),
    ensures
        ({
            &&& actions[i] matches UploadAction::Offer {
                report,
                file_name,
                file_id,
                link,
                encrypted,
                question,
                options,
            }
            &&& file_id@ == id
            &&& link@ == states[0].base@ + "/download/"@ + id
            &&& report@ == "\n\nDownload Link: "@ + ("\x1b[92m"@ + link@ + "\x1b[0m"@)
                + "\nFile ID: "@ + ("\x1b[92m"@ + id + "\x1b[0m"@) + "\n\n"@
            &&& file_name@ == (match states[0].name {
                Some(name) => name@,
                None => Seq::<char>::empty(),
            })
            &&& encrypted == states[0].encrypt
            &&& question@ == "What would you like to do?"@
            &&& options@.len() == (if states[0].encrypt {
                4int
            } else {
                2
            })
            &&& options@[0]@ == "(1) Exit"@
            &&& options@[1]@ == "(2) Show download link as QR code"@
            &&& states[0].encrypt ==> options@[2]@ == "(3) Show decryption mnemonic phrases"@
                && options@[3]@ == "(4) Both 2 and 3"@
        }),
{
    lemma_waits(states, events, actions, i);
    assert(upload::upload_step(states[i], events[i], states[i + 1], actions[i]));
    links::lemma_file_id_found(body@, pre, id, rest);
}

/// An answer that names no file is shown, all of it but the white space at
/// its end, and nothing is recorded.
pub proof fn law_other_answer_is_shown(
    states: Seq<Upload>,
    events: Seq<UploadEvent>,
    actions: Seq<UploadAction>,
    i: int,
    body: String,
    at: int,
    answer: Seq<char>,
    white: Seq<char>,
)
    requires
        upload_run(states, events, actions),
        0 <= i < actions.len(),
        last_taken(actions, i) matches Some(last) && last is Read,
        events[i] == (UploadEvent::Body { body }),
        links::names_no_file(body@, at),
        body@ == answer + white,
        text::all_white(white),
        answer.len() > 0 ==> !text::white_space(answer.last()),
    ensures
        actions[i] matches UploadAction::Finish { message } && message@ == "\n"@ + answer + "\n"@,
{
    lemma_waits(states, events, actions, i);
    assert(upload::upload_step(states[i], events[i], states[i + 1], actions[i]));
    links::lemma_no_file_id(body@, at);
    let class = text::CharClass::White;
    assert forall|k: int| body@.len() - white.len() <= k < body@.len() implies class.holds(
        #[trigger] body@[k],
    ) by {
        assert(body@[k] == white[k - answer.len()]);
    }
    text::lemma_trail(body@, class, white.len());
    assert(body@.take(answer.len() as int) =~= answer);
}

/// What the user picks after an upload is shown: for the options that show
/// the phrase all of the phrase that the file was encrypted with, and for
/// those that show the link as a code its picture.
pub proof fn law_picked_option_is_shown(
    states: Seq<Upload>,
    events: Seq<UploadEvent>,
    actions: Seq<UploadAction>,
    i: int,
    option: Option<String>,
)
    requires
        upload_run(states, events, actions),
        0 <= i < actions.len(),
        last_taken(actions, i) matches Some(last) && last is Offer,
        events[i] == (UploadEvent::Picked { option }),
    ensures
        actions[i] is Finish,
        forall|phrase: Option<Seq<char>>|
            (match phrase {
                Some(p) => states[0].encrypt && encrypted_with(actions, i, p),
                None => !states[0].encrypt,
            }) ==> #[trigger] upload::shows(
                actions[i]->Finish_message@,
                text::chars_if_any(option),
                qr::picture(last_taken(actions, i)->0->Offer_link@),
                phrase,
            ),
{
    lemma_waits(states, events, actions, i);
    assert(upload::upload_step(states[i], events[i], states[i + 1], actions[i]));
    let link = last_taken(actions, i)->0->Offer_link;
    let kept = states[i].phase->Choosing_phrase;
    assert(states[i].phase is Choosing);
    upload::lemma_shows(
        text::chars_if_any(option),
        qr::picture(link@),
        text::chars_if_any(kept),
    );
    assert forall|phrase: Option<Seq<char>>|
        (match phrase {
            Some(p) => states[0].encrypt && encrypted_with(actions, i, p),
            None => !states[0].encrypt,
        }) implies #[trigger] upload::shows(
        actions[i]->Finish_message@,
        text::chars_if_any(option),
        qr::picture(link@),
        phrase,
    ) by {
        if let Some(p) = phrase {
            let j = choose|j: int|
                0 <= j < i && (#[trigger] actions[j] matches UploadAction::Encrypt { phrase: q } && q@
                    == p);
            assert(actions[j] is Encrypt);
            assert(kept is Some && kept->0@ == p);
        } else {
            assert(kept is None);
        }
        assert(text::chars_if_any(kept) == phrase);
    }
}

/// The phrase that a file was encrypted with can always be seen: where the
/// user picks an option that shows it, the message holds all of it.
pub proof fn law_phrase_is_shown_whole(
    states: Seq<Upload>,
    events: Seq<UploadEvent>,
    actions: Seq<UploadAction>,
    i: int,
    j: int,
    option: String,
)
    requires
        upload_run(states, events, actions),
        0 <= j < i < actions.len(),
        actions[j] is Encrypt,
        last_taken(actions, i) matches Some(last) && last is Offer,
        events[i] == (UploadEvent::Picked { option: Some(option) }),
        option@ == "(3) Show decryption mnemonic phrases"@ || option@ == "(4) Both 2 and 3"@,
    ensures
        actions[i] matches UploadAction::Finish { message } && exists|k: int| #[trigger]
            text::occurs_at(message@, actions[j]->Encrypt_phrase@, k),
{
    let p = actions[j]->Encrypt_phrase@;
    assert(encrypted_with(actions, i, p));
    law_sends_what_was_asked_for(states, events, actions, j);
    law_picked_option_is_shown(states, events, actions, i, Some(option));
    let message = actions[i]->Finish_message;
    assert(upload::shows(
        message@,
        Some(option@),
        qr::picture(last_taken(actions, i)->0->Offer_link@),
        Some(p),
    ));
}

/// After an offer, only what the user picks leads on; after the end, nothing
/// does.
pub proof fn law_upload_waits_for_the_user(
    states: Seq<Upload>,
    events: Seq<UploadEvent>,
    actions: Seq<UploadAction>,
    i: int,
)
    requires
        upload_run(states, events, actions),
        0 <= i < actions.len(),
        last_taken(actions, i) is Some,
    ensures
        last_taken(actions, i)->0 is Offer && !(events[i] is Picked) ==> actions[i] is Unexpected,
        last_taken(actions, i)->0 is Read && !(events[i] is Body) ==> actions[i] is Unexpected,
        last_taken(actions, i)->0 is Abort || last_taken(actions, i)->0 is Finish
            ==> actions[i] is Unexpected,
{
    lemma_waits(states, events, actions, i);
    assert(upload::upload_step(states[i], events[i], states[i + 1], actions[i]));
}

} // verus!
