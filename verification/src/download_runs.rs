//! What holds of every run of a download, whatever the events.

use reqwest::header::HeaderMap;
use vstd::prelude::*;
use crate::download;
use crate::download::{Download, DownloadAction, DownloadEvent, DownloadPhase};
use crate::headers;
use crate::paths;
use crate::status;
use crate::text;

verus! {

/// A run of a download from its start: `actions[i]` is the action after
/// `events[i]`, which leads from `states[i]` to `states[i + 1]`.
pub open spec fn download_run(
    states: Seq<Download>,
    events: Seq<DownloadEvent>,
    actions: Seq<DownloadAction>,
) -> bool {
    &&& states.len() == events.len() + 1
    &&& actions.len() == events.len()
    &&& states[0].phase is Requesting
    &&& forall|i: int|
        0 <= i < events.len() ==> download::download_step(
            states[i],
            events[i],
            states[i + 1],
            #[trigger] actions[i],
        )
}

/// The event is an answer that brings a file, and marks it as encrypted or
/// not.
pub open spec fn brings(event: DownloadEvent, encrypted: bool) -> bool {
    event matches DownloadEvent::Responded { status, headers } && 200 <= status < 300 && encrypted
        == headers::marked_encrypted(headers)
}

/// Among the first `n` events is an answer that brings a file, and marks it
/// as encrypted or not.
pub open spec fn brought(events: Seq<DownloadEvent>, n: int, encrypted: bool) -> bool {
    exists|j: int| 0 <= j < n && brings(#[trigger] events[j], encrypted)
}

/// The event says that the target may be written: there is no file under it,
/// or the user allows it to be overwritten.
pub open spec fn permits(event: DownloadEvent) -> bool {
    ||| event is Absent
    ||| (event matches DownloadEvent::Picked { option } && text::chars_if_any(option) == Some(
        download::YES@,
    ))
}

/// One of the first `n` actions receives the file, after an event that
/// permits it.
pub open spec fn permitted(
    events: Seq<DownloadEvent>,
    actions: Seq<DownloadAction>,
    n: int,
) -> bool {
    exists|j: int| 0 <= j < n && #[trigger] actions[j] is Store && permits(events[j])
}

/// How many phrases have failed in a row before event `n`. Events that
/// nothing was waiting for do not count.
pub open spec fn failed(
    events: Seq<DownloadEvent>,
    actions: Seq<DownloadAction>,
    n: int,
) -> nat
    decreases n,
{
    if n <= 0 {
        0
    } else if actions[n - 1] is Unexpected {
        failed(events, actions, n - 1)
    } else if events[n - 1] is NotOpened {
        failed(events, actions, n - 1) + 1
    } else {
        0
    }
}

/// Every one of the first `n` actions that receives the file does so into a
/// temporary file, or every one into the target.
spec fn stored_only(actions: Seq<DownloadAction>, n: int, temporary: bool) -> bool {
    forall|j: int|
        0 <= j < n && #[trigger] actions[j] is Store ==> actions[j] == (DownloadAction::Store {
            temporary,
        })
}

/// None of the first `n` actions receives the file.
spec fn not_stored(actions: Seq<DownloadAction>, n: int) -> bool {
    forall|j: int| 0 <= j < n ==> !(#[trigger] actions[j] is Store)
}

/// The action is the last that concerns a temporary file: it removes it, or
/// moves it away.
pub open spec fn settles(action: DownloadAction) -> bool {
    ||| action is Discard
    ||| action is Keep
    ||| (action matches DownloadAction::Save { temporary, .. } && temporary)
}

/// One of the first `n` actions settles what becomes of a temporary file.
pub open spec fn settled(actions: Seq<DownloadAction>, n: int) -> bool {
    exists|j: int| 0 <= j < n && settles(#[trigger] actions[j])
}

/// What the phase after `n` events says of them and of the actions.
spec fn phase_fits(
    download: Download,
    events: Seq<DownloadEvent>,
    actions: Seq<DownloadAction>,
    n: int,
) -> bool {
    match download.phase {
        DownloadPhase::Requesting => not_stored(actions, n) && failed(events, actions, n) == 0,
        DownloadPhase::Refused { .. } => not_stored(actions, n) && failed(events, actions, n) == 0,
        DownloadPhase::Probing { encrypted, .. } => {
            &&& not_stored(actions, n)
            &&& brought(events, n, encrypted)
            &&& failed(events, actions, n) == 0
        },
        DownloadPhase::Confirming { encrypted, .. } => {
            &&& not_stored(actions, n)
            &&& brought(events, n, encrypted)
            &&& failed(events, actions, n) == 0
        },
        DownloadPhase::Storing { encrypted, .. } => {
            &&& stored_only(actions, n, encrypted)
            &&& permitted(events, actions, n)
            &&& brought(events, n, encrypted)
            &&& failed(events, actions, n) == 0
        },
        DownloadPhase::Unlocking { failures, .. } => {
            &&& stored_only(actions, n, true)
            &&& permitted(events, actions, n)
            &&& brought(events, n, true)
            &&& failures < download::MAX_ATTEMPTS
            &&& failed(events, actions, n) == failures
        },
        DownloadPhase::Deciding { .. } => {
            &&& stored_only(actions, n, true)
            &&& permitted(events, actions, n)
            &&& brought(events, n, true)
            &&& failed(events, actions, n) == download::MAX_ATTEMPTS
        },
        DownloadPhase::Keeping => settled(actions, n) && failed(events, actions, n) == 0,
        DownloadPhase::Done => {
            &&& failed(events, actions, n) == 0
            &&& stored_only(actions, n, false) || settled(actions, n)
        },
    }
}

proof fn lemma_phase_fits(
    states: Seq<Download>,
    events: Seq<DownloadEvent>,
    actions: Seq<DownloadAction>,
    n: int,
)
    requires
        download_run(states, events, actions),
        0 <= n <= events.len(),
    ensures
        download::same_download(states[0], states[n]),
        phase_fits(states[n], events, actions, n),
    decreases n,
{
    if n > 0 {
        lemma_phase_fits(states, events, actions, n - 1);
        let (before, event, after, action) = (states[n - 1], events[n - 1], states[n], actions[n
            - 1]);
        assert(download::download_step(before, event, after, action));
        assert(brings(event, true) ==> brought(events, n, true));
        assert(brings(event, false) ==> brought(events, n, false));
        assert(settles(action) ==> settled(actions, n));
    }
}

/// How far a phase is from the start. Between a phrase and the next there is
/// no order.
spec fn rank(phase: DownloadPhase) -> int {
    match phase {
        DownloadPhase::Requesting => 0,
        DownloadPhase::Refused { .. } => 1,
        DownloadPhase::Probing { .. } => 1,
        DownloadPhase::Confirming { .. } => 2,
        DownloadPhase::Storing { .. } => 3,
        DownloadPhase::Unlocking { .. } => 4,
        DownloadPhase::Deciding { .. } => 4,
        DownloadPhase::Keeping => 5,
        DownloadPhase::Done => 6,
    }
}

proof fn lemma_rank_grows(
    states: Seq<Download>,
    events: Seq<DownloadEvent>,
    actions: Seq<DownloadAction>,
    m: int,
    n: int,
)
    requires
        download_run(states, events, actions),
        0 <= m <= n <= events.len(),
    ensures
        rank(states[m].phase) <= rank(states[n].phase),
    decreases n - m,
{
    if m < n {
        assert(download::download_step(states[m], events[m], states[m + 1], actions[m]));
        lemma_rank_grows(states, events, actions, m + 1, n);
    }
}

/// A file that is already there is overwritten only where the user has said
/// so: nothing is received, decrypted or saved before there was no file
/// under the target or the user has picked to overwrite it.
pub proof fn law_writes_only_with_permission(
    states: Seq<Download>,
    events: Seq<DownloadEvent>,
    actions: Seq<DownloadAction>,
    i: int,
)
    requires
        download_run(states, events, actions),
        0 <= i < actions.len(),
        actions[i] is Store || actions[i] is Ask || actions[i] is Save,
    ensures
        permitted(events, actions, i + 1),
{
    lemma_phase_fits(states, events, actions, i);
    lemma_phase_fits(states, events, actions, i + 1);
    assert(download::download_step(states[i], events[i], states[i + 1], actions[i]));
    if actions[i] is Store {
        assert(permits(events[i]));
    }
}

/// A file that the server marks as encrypted is received into a temporary
/// file, and any other into the target; and so it is recorded.
pub proof fn law_follows_the_mark(
    states: Seq<Download>,
    events: Seq<DownloadEvent>,
    actions: Seq<DownloadAction>,
    i: int,
)
    requires
        download_run(states, events, actions),
        0 <= i < actions.len(),
    ensures
        actions[i] matches DownloadAction::Store { temporary } ==> brought(events, i, temporary),
        actions[i] matches DownloadAction::Save { temporary, encrypted, .. } ==> temporary
            == encrypted && brought(events, i, encrypted),
        actions[i] is Ask ==> brought(events, i, true),
{
    lemma_phase_fits(states, events, actions, i);
    assert(download::download_step(states[i], events[i], states[i + 1], actions[i]));
}

/// The server brings one file at most, so that a run has one mark.
pub proof fn law_one_mark(
    states: Seq<Download>,
    events: Seq<DownloadEvent>,
    actions: Seq<DownloadAction>,
    i: int,
    j: int,
)
    requires
        download_run(states, events, actions),
        0 <= i < actions.len(),
        0 <= j < actions.len(),
        actions[i] is Probe && actions[j] is Probe,
    ensures
        i == j,
{
    assert(download::download_step(states[i], events[i], states[i + 1], actions[i]));
    assert(download::download_step(states[j], events[j], states[j + 1], actions[j]));
    if i < j {
        lemma_rank_grows(states, events, actions, i + 1, j);
    } else if j < i {
        lemma_rank_grows(states, events, actions, j + 1, i);
    }
}

/// A download is recorded once at most, under the identifier that was asked
/// for, and only when all of it is in the target: when all of it was
/// received, where it is not encrypted, and when a phrase has opened it,
/// where it is.
pub proof fn law_recorded_once_and_complete(
    states: Seq<Download>,
    events: Seq<DownloadEvent>,
    actions: Seq<DownloadAction>,
    i: int,
    j: int,
)
    requires
        download_run(states, events, actions),
        0 <= i < actions.len(),
        0 <= j < actions.len(),
        actions[i] is Save,
    ensures
        actions[j] is Save ==> i == j,
        actions[i] matches DownloadAction::Save { file_id, encrypted, .. } ==> file_id@
            == states[0].id@ && (if encrypted {
            events[i] is Opened
        } else {
            events[i] is Stored
        }),
{
    lemma_phase_fits(states, events, actions, i);
    assert(download::download_step(states[i], events[i], states[i + 1], actions[i]));
    assert(download::download_step(states[j], events[j], states[j + 1], actions[j]));
    if i < j {
        lemma_rank_grows(states, events, actions, i + 1, j);
    } else if j < i {
        lemma_rank_grows(states, events, actions, j + 1, i);
    }
}

/// The user is asked what to do with a file that does not open after three
/// phrases in a row have failed, and not before; as long as fewer have
/// failed, another phrase is asked for.
pub proof fn law_three_phrases_in_a_row(
    states: Seq<Download>,
    events: Seq<DownloadEvent>,
    actions: Seq<DownloadAction>,
    i: int,
)
    requires
        download_run(states, events, actions),
        0 <= i < actions.len(),
    ensures
        failed(events, actions, i) <= download::MAX_ATTEMPTS,
        actions[i] is Offer <==> failed(events, actions, i) < download::MAX_ATTEMPTS && failed(
            events,
            actions,
            i + 1,
        ) == download::MAX_ATTEMPTS,
        actions[i] is Ask ==> failed(events, actions, i + 1) < download::MAX_ATTEMPTS,
{
    lemma_phase_fits(states, events, actions, i);
    lemma_phase_fits(states, events, actions, i + 1);
    assert(download::download_step(states[i], events[i], states[i + 1], actions[i]));
}

/// No temporary file is left behind by a download that has ended: where one
/// was received into, it was removed or moved away.
pub proof fn law_no_temporary_file_is_left(
    states: Seq<Download>,
    events: Seq<DownloadEvent>,
    actions: Seq<DownloadAction>,
    i: int,
)
    requires
        download_run(states, events, actions),
        0 <= i < actions.len(),
        actions[i] == (DownloadAction::Store { temporary: true }),
        states.last().phase is Done,
    ensures
        settled(actions, actions.len() as int),
{
    lemma_phase_fits(states, events, actions, actions.len() as int);
}

/// A file that is put aside encrypted or discarded is never recorded, and
/// after that nothing is received and no phrase is asked for. Where it is put
/// aside, all that follows is that the user is told where.
pub proof fn law_unopened_file_is_not_recorded(
    states: Seq<Download>,
    events: Seq<DownloadEvent>,
    actions: Seq<DownloadAction>,
    i: int,
    j: int,
)
    requires
        download_run(states, events, actions),
        0 <= i < actions.len(),
        0 <= j < actions.len(),
        actions[i] is Keep || actions[i] is Discard,
    ensures
        !(actions[j] is Save),
        i < j ==> !(actions[j] is Store) && !(actions[j] is Ask),
        i < j && actions[i] is Keep ==> actions[j] is Finish || actions[j] is Unexpected,
        i < j && actions[i] is Discard ==> actions[j] is Unexpected,
{
    assert(download::download_step(states[i], events[i], states[i + 1], actions[i]));
    assert(download::download_step(states[j], events[j], states[j + 1], actions[j]));
    if i < j {
        lemma_rank_grows(states, events, actions, i + 1, j);
    } else if j < i {
        lemma_rank_grows(states, events, actions, j + 1, i);
    }
}

/// Once a download has ended, nothing more is done.
pub proof fn law_download_ends(
    states: Seq<Download>,
    events: Seq<DownloadEvent>,
    actions: Seq<DownloadAction>,
    i: int,
    j: int,
)
    requires
        download_run(states, events, actions),
        0 <= i < j < actions.len(),
        actions[i] is Fail || actions[i] is Save || actions[i] is Discard || actions[i] is Finish,
    ensures
        actions[j] is Unexpected,
{
    assert(download::download_step(states[i], events[i], states[i + 1], actions[i]));
    assert(download::download_step(states[j], events[j], states[j + 1], actions[j]));
    lemma_rank_grows(states, events, actions, i + 1, j);
}

/// The last of the first `n` actions that was taken: what was done last, so
/// that an event is what came of it.
pub open spec fn last_taken(actions: Seq<DownloadAction>, n: int) -> Option<DownloadAction>
    decreases n,
{
    if n <= 0 {
        None
    } else if actions[n - 1] is Unexpected {
        last_taken(actions, n - 1)
    } else {
        Some(actions[n - 1])
    }
}

/// The target that was looked for by the first `n` actions.
pub open spec fn probed(actions: Seq<DownloadAction>, n: int) -> Option<Seq<char>>
    decreases n,
{
    if n <= 0 {
        None
    } else {
        match actions[n - 1] {
            DownloadAction::Probe { target, .. } => Some(target@),
            _ => probed(actions, n - 1),
        }
    }
}

/// The status and the headers that the server has answered with, among the
/// first `n` events: those of the event that was taken as its answer.
pub open spec fn answer(
    events: Seq<DownloadEvent>,
    actions: Seq<DownloadAction>,
    n: int,
) -> Option<(u16, HeaderMap)>
    decreases n,
{
    if n <= 0 {
        None
    } else {
        match events[n - 1] {
            DownloadEvent::Responded { status, headers } if !(actions[n - 1] is Unexpected) => Some(
                (status, headers),
            ),
            _ => answer(events, actions, n - 1),
        }
    }
}

/// The status that the server has answered with.
pub open spec fn answered_status(
    events: Seq<DownloadEvent>,
    actions: Seq<DownloadAction>,
    n: int,
) -> u16 {
    match answer(events, actions, n) {
        Some((status, _)) => status,
        None => 0,
    }
}

/// The answer marks the file as encrypted: the header `x-encrypted` is the
/// word `true`, whatever its case.
pub open spec fn mark(events: Seq<DownloadEvent>, actions: Seq<DownloadAction>, n: int) -> bool {
    answer(events, actions, n) matches Some((_, headers)) && headers::header_fields(
        headers,
    ).contains_key("x-encrypted"@) && headers::says_true(
        headers::header_fields(headers)["x-encrypted"@],
    )
}

/// What the phase keeps of the answer and of the target.
spec fn keeps(
    target: String,
    encrypted: bool,
    events: Seq<DownloadEvent>,
    actions: Seq<DownloadAction>,
    n: int,
) -> bool {
    probed(actions, n) == Some(target@) && encrypted == mark(events, actions, n)
}

/// The phase after `n` actions is the one in which what came of the last is
/// waited for.
spec fn waits(
    download: Download,
    events: Seq<DownloadEvent>,
    actions: Seq<DownloadAction>,
    n: int,
) -> bool {
    let last = last_taken(actions, n);
    match download.phase {
        DownloadPhase::Requesting => last is None,
        DownloadPhase::Refused { status } => {
            &&& last is Some && last->0 is ReadRefusal
            &&& answer(events, actions, n) matches Some((code, _))
            &&& status@ == status::status_line(code)
        },
        DownloadPhase::Probing { target, encrypted } => last is Some && last->0 is Probe && keeps(
            target,
            encrypted,
            events,
            actions,
            n,
        ),
        DownloadPhase::Confirming { target, encrypted } => last is Some && last->0 is Confirm
            && keeps(target, encrypted, events, actions, n),
        DownloadPhase::Storing { target, encrypted } => last is Some && last->0 is Store && keeps(
            target,
            encrypted,
            events,
            actions,
            n,
        ),
        DownloadPhase::Unlocking { target, .. } => last is Some && last->0 is Ask && keeps(
            target,
            true,
            events,
            actions,
            n,
        ),
        DownloadPhase::Deciding { target } => last is Some && last->0 is Offer && keeps(
            target,
            true,
            events,
            actions,
            n,
        ),
        DownloadPhase::Keeping => last is Some && last->0 is Keep,
        DownloadPhase::Done => last is Some && (last->0 is Fail || last->0 is Save
            || last->0 is Discard || last->0 is Finish),
    }
}

proof fn lemma_waits(
    states: Seq<Download>,
    events: Seq<DownloadEvent>,
    actions: Seq<DownloadAction>,
    n: int,
)
    requires
        download_run(states, events, actions),
        0 <= n <= events.len(),
    ensures
        download::same_download(states[0], states[n]),
        waits(states[n], events, actions, n),
    decreases n,
{
    if n > 0 {
        lemma_waits(states, events, actions, n - 1);
        assert(download::download_step(states[n - 1], events[n - 1], states[n], actions[n - 1]));
        if let DownloadEvent::Responded { headers, .. } = events[n - 1] {
            headers::lemma_mark(headers);
        }
    }
}

/// A file is looked for under the path that the user named, or without one
/// under the name that the server gives, or without that under `download`;
/// but only where the server's status is from 200 to 299. With any other
/// status what the server says is read.
pub proof fn law_answer_of_the_server(
    states: Seq<Download>,
    events: Seq<DownloadEvent>,
    actions: Seq<DownloadAction>,
    i: int,
)
    requires
        download_run(states, events, actions),
        0 <= i < actions.len(),
        last_taken(actions, i) is None,
    ensures
        match events[i] {
            DownloadEvent::Responded { status, headers } => if 200 <= status <= 299 {
                &&& actions[i] matches DownloadAction::Probe { target, named_by_user }
                &&& match states[0].output {
                    Some(output) => named_by_user && target@ == output@,
                    None => {
                        &&& !named_by_user
                        &&& match headers::disposition_filename(headers) {
                            Some(name) if name.len() > 0 => exists|base: Option<Seq<char>>|
                                #[trigger] paths::is_base_name(name, base) && target@ == (match base {
                                    Some(base) => base,
                                    None => "download"@,
                                }),
                            _ => target@ == "download"@,
                        }
                    },
                }
            } else if 100 <= status <= 999 {
                actions[i] is ReadRefusal
            } else {
                actions[i] is Unexpected
            },
            _ => actions[i] is Unexpected,
        },
{
    lemma_waits(states, events, actions, i);
    assert(download::download_step(states[i], events[i], states[i + 1], actions[i]));
}

/// Where the user names no path, a file that the server calls by a plain name
/// is looked for under that name, whole.
pub proof fn law_saved_under_the_server_name(
    states: Seq<Download>,
    events: Seq<DownloadEvent>,
    actions: Seq<DownloadAction>,
    i: int,
    status: u16,
    headers: HeaderMap,
    value: &str,
    name: Seq<char>,
)
    requires
        download_run(states, events, actions),
        0 <= i < actions.len(),
        last_taken(actions, i) is None,
        states[0].output is None,
        events[i] == (DownloadEvent::Responded { status, headers }),
        200 <= status <= 299,
        headers::header_fields(headers).contains_key("content-disposition"@),
        headers::spells(headers::header_fields(headers)["content-disposition"@], value@),
        value@ == "attachment; filename=\""@ + name + "\""@ || value@ == "attachment; filename="@
            + name,
        name.len() > 0 && name[0] != '"' && name.last() != '"',
        !text::white_space(name[0]) && !text::white_space(name.last()),
        !name.contains(';') && !name.contains('/'),
        name != "."@ && name != ".."@,
        paths::portable(name),
    ensures
        actions[i] matches DownloadAction::Probe { target, .. } && target@ == name,
{
    law_answer_of_the_server(states, events, actions, i);
    headers::lemma_attachment_name(value@, name);
    headers::lemma_disposition(headers, value@);
    let target = actions[i]->Probe_target@;
    let base = choose|base: Option<Seq<char>>| #[trigger]
        paths::is_base_name(name, base) && target == (match base {
            Some(base) => base,
            None => "download"@,
        });
    let none = Seq::<char>::empty();
    assert(name =~= none + name + none);
    paths::law_name_behind_the_last_slash(name, base, none, name, none);
}

/// A download that the server refuses ends with an error that holds the
/// number of the status, its words and all that the server says.
pub proof fn law_refusal_is_told(
    states: Seq<Download>,
    events: Seq<DownloadEvent>,
    actions: Seq<DownloadAction>,
    i: int,
)
    requires
        download_run(states, events, actions),
        0 <= i < actions.len(),
        last_taken(actions, i) matches Some(last) && last is ReadRefusal,
    ensures
        match events[i] {
            DownloadEvent::Explained { body } => {
                &&& answer(events, actions, i) is Some
                &&& actions[i] matches DownloadAction::Fail { message }
                &&& exists|number: Seq<char>| #[trigger]
                    text::is_numeral(number, answered_status(events, actions, i) as nat) && message@
                        == "Download failed ("@ + (number + " "@ + status::status_reason(
                        answered_status(events, actions, i),
                    )) + "): "@ + (match body {
                        Some(body) => body@,
                        None => Seq::<char>::empty(),
                    })
            },
            _ => actions[i] is Unexpected,
        },
{
    lemma_waits(states, events, actions, i);
    assert(download::download_step(states[i], events[i], states[i + 1], actions[i]));
    text::law_decimal_is_the_numeral(answered_status(events, actions, i) as nat);
}

/// Where there is a file under the target, the user is asked, with its name,
/// whether it may be overwritten; where there is none, the file is received,
/// into a temporary file exactly where the server marks it as encrypted.
pub proof fn law_target_is_looked_for(
    states: Seq<Download>,
    events: Seq<DownloadEvent>,
    actions: Seq<DownloadAction>,
    i: int,
)
    requires
        download_run(states, events, actions),
        0 <= i < actions.len(),
        last_taken(actions, i) matches Some(last) && last is Probe,
    ensures
        probed(actions, i) is Some,
        match events[i] {
            DownloadEvent::Exists => {
                &&& actions[i] matches DownloadAction::Confirm { question, options }
                &&& question@ == "File `"@ + probed(actions, i)->0
                    + "` already exists. Overwrite?"@
                &&& options@.len() == 2 && options@[0]@ == "No"@ && options@[1]@ == "Yes"@
            },
            DownloadEvent::Absent => actions[i] == (DownloadAction::Store {
                temporary: mark(events, actions, i),
            }),
            _ => actions[i] is Unexpected,
        },
{
    lemma_waits(states, events, actions, i);
    assert(download::download_step(states[i], events[i], states[i + 1], actions[i]));
}

/// Where the user picks to overwrite, the file is received as if there were
/// none; whatever else the user picks, the download is given up.
pub proof fn law_overwriting_is_confirmed(
    states: Seq<Download>,
    events: Seq<DownloadEvent>,
    actions: Seq<DownloadAction>,
    i: int,
)
    requires
        download_run(states, events, actions),
        0 <= i < actions.len(),
        last_taken(actions, i) matches Some(last) && last is Confirm,
    ensures
        match events[i] {
            DownloadEvent::Picked { option } => if text::chars_if_any(option) == Some("Yes"@) {
                actions[i] == (DownloadAction::Store { temporary: mark(events, actions, i) })
            } else {
                actions[i] matches DownloadAction::Finish { message } && message@
                    == "\nDownload cancelled.\n\n"@
            },
            _ => actions[i] is Unexpected,
        },
{
    lemma_waits(states, events, actions, i);
    assert(download::download_step(states[i], events[i], states[i + 1], actions[i]));
}

/// The file is saved under the target: the user is told so, and it is
/// recorded under the name at the end of the target, with the identifier and
/// whether it was encrypted.
pub open spec fn saved(action: DownloadAction, target: Seq<char>, id: Seq<char>, encrypted: bool) -> bool {
    &&& action matches DownloadAction::Save {
        temporary,
        file_name,
        file_id,
        encrypted: marked,
        message,
    }
    &&& temporary == encrypted
    &&& marked == encrypted
    &&& file_id@ == id
    &&& message@ == "\nSaved to: "@ + target + "\n\n"@
    &&& exists|base: Option<Seq<char>>| #[trigger]
        paths::is_base_name(target, base) && file_name@ == (match base {
            Some(base) => base,
            None => Seq::<char>::empty(),
        })
}

/// A file that is received and not encrypted is saved, and for one that is
/// encrypted a phrase is asked for.
pub proof fn law_received_file(
    states: Seq<Download>,
    events: Seq<DownloadEvent>,
    actions: Seq<DownloadAction>,
    i: int,
)
    requires
        download_run(states, events, actions),
        0 <= i < actions.len(),
        last_taken(actions, i) matches Some(last) && last is Store,
    ensures
        probed(actions, i) is Some,
        if events[i] is Stored {
            if mark(events, actions, i) {
                actions[i] matches DownloadAction::Ask { warning, prompt } && warning@.len() == 0
                    && prompt@ == "Decryption mnemonic phrases:"@
            } else {
                saved(actions[i], probed(actions, i)->0, states[0].id@, false)
            }
        } else {
            actions[i] is Unexpected
        },
{
    lemma_waits(states, events, actions, i);
    assert(download::download_step(states[i], events[i], states[i + 1], actions[i]));
}

/// A phrase that opens the file leads to it being saved and recorded as
/// encrypted, however many phrases have failed before.
pub proof fn law_right_phrase_saves(
    states: Seq<Download>,
    events: Seq<DownloadEvent>,
    actions: Seq<DownloadAction>,
    i: int,
)
    requires
        download_run(states, events, actions),
        0 <= i < actions.len(),
        last_taken(actions, i) matches Some(last) && last is Ask,
        events[i] is Opened,
    ensures
        probed(actions, i) is Some,
        saved(actions[i], probed(actions, i)->0, states[0].id@, true),
{
    lemma_waits(states, events, actions, i);
    assert(download::download_step(states[i], events[i], states[i + 1], actions[i]));
}

/// After a phrase that does not open the file another is asked for, and the
/// user is told how many of three are left; after the third in a row the user
/// is asked what to do. Nothing else leads on.
pub proof fn law_wrong_phrase(
    states: Seq<Download>,
    events: Seq<DownloadEvent>,
    actions: Seq<DownloadAction>,
    i: int,
)
    requires
        download_run(states, events, actions),
        0 <= i < actions.len(),
        last_taken(actions, i) matches Some(last) && last is Ask,
        !(events[i] is Opened),
    ensures
        if events[i] is NotOpened {
            &&& failed(events, actions, i + 1) == failed(events, actions, i) + 1 <= 3
            &&& if failed(events, actions, i + 1) < 3 {
                &&& actions[i] matches DownloadAction::Ask { warning, prompt }
                &&& prompt@ == "Decryption mnemonic phrases:"@
                &&& exists|number: Seq<char>| #[trigger]
                    text::is_numeral(
                        number,
                        (3 - failed(events, actions, i + 1)) as nat,
                    ) && warning@ == "\nDecryption failed. "@ + number + (if failed(
                        events,
                        actions,
                        i + 1,
                    ) == 2 {
                        " attempt remaining.\n\n"@
                    } else {
                        " attempts remaining.\n\n"@
                    })
            } else {
                &&& actions[i] matches DownloadAction::Offer { warning, question, options }
                &&& warning@ == "\nDecryption failed after 3 attempts.\n\n"@
                &&& question@ == "What would you like to do?"@
                &&& options@.len() == 3
                &&& options@[0]@ == "Exit (delete downloaded file)"@
                &&& options@[1]@ == "Keep file and exit"@
                &&& options@[2]@ == "Try again"@
            }
        } else {
            actions[i] is Unexpected
        },
{
    lemma_waits(states, events, actions, i);
    lemma_phase_fits(states, events, actions, i);
    lemma_phase_fits(states, events, actions, i + 1);
    assert(download::download_step(states[i], events[i], states[i + 1], actions[i]));
    let left = (3 - failed(events, actions, i + 1)) as nat;
    text::law_decimal_is_the_numeral(left);
    lemma_warnings(left);
}

/// What is said when a phrase has failed, in one piece behind the number, and
/// when the last has.
proof fn lemma_warnings(left: nat)
    ensures
        download::remaining_text(left) == "\nDecryption failed. "@ + text::decimal(left) + (if left
            == 1 {
            " attempt remaining.\n\n"@
        } else {
            " attempts remaining.\n\n"@
        }),
        download::exhausted_text() == "\nDecryption failed after 3 attempts.\n\n"@,
{
    reveal_strlit("");
    reveal_strlit("s");
    reveal_strlit(" attempt");
    reveal_strlit(" remaining.\n\n");
    reveal_strlit(" attempt remaining.\n\n");
    reveal_strlit(" attempts remaining.\n\n");
    reveal_strlit("\nDecryption failed after ");
    reveal_strlit(" attempts.\n\n");
    reveal_strlit("\nDecryption failed after 3 attempts.\n\n");
    assert(" attempt remaining.\n\n"@ =~= " attempt"@ + ""@ + " remaining.\n\n"@);
    assert(" attempts remaining.\n\n"@ =~= " attempt"@ + "s"@ + " remaining.\n\n"@);
    assert(download::remaining_text(left) =~= "\nDecryption failed. "@ + text::decimal(left) + (if left
        == 1 {
        " attempt remaining.\n\n"@
    } else {
        " attempts remaining.\n\n"@
    }));
    assert(text::decimal(3) =~= seq!['3']);
    assert(download::exhausted_text() =~= "\nDecryption failed after 3 attempts.\n\n"@);
}

/// Of a file that no phrase has opened, the user decides: it is kept under
/// the name of the target, more phrases are asked for, or, with any other
/// choice or none, it is discarded. It is discarded in no other case.
pub proof fn law_user_decides(
    states: Seq<Download>,
    events: Seq<DownloadEvent>,
    actions: Seq<DownloadAction>,
    i: int,
)
    requires
        download_run(states, events, actions),
        0 <= i < actions.len(),
    ensures
        (last_taken(actions, i) matches Some(last) && last is Offer) ==> {
            &&& probed(actions, i) is Some
            &&& match events[i] {
                DownloadEvent::Picked { option } => if text::chars_if_any(option) == Some(
                    "Keep file and exit"@,
                ) {
                    &&& actions[i] matches DownloadAction::Keep { file_name }
                    &&& exists|base: Option<Seq<char>>| #[trigger]
                        paths::is_base_name(probed(actions, i)->0, base) && file_name@ == (match base {
                            Some(base) => base,
                            None => probed(actions, i)->0,
                        })
                } else if text::chars_if_any(option) == Some("Try again"@) {
                    actions[i] matches DownloadAction::Ask { warning, prompt } && warning@.len()
                        == 0 && prompt@ == "Decryption mnemonic phrases:"@
                } else {
                    actions[i] matches DownloadAction::Discard { message } && message@
                        == "\nDownload discarded.\n\n"@
                },
                _ => actions[i] is Unexpected,
            }
        },
        actions[i] is Discard || actions[i] is Keep ==> events[i] is Picked && (last_taken(
            actions,
            i,
        ) matches Some(last) && last is Offer),
{
    lemma_waits(states, events, actions, i);
    assert(download::download_step(states[i], events[i], states[i + 1], actions[i]));
    if let DownloadAction::Keep { file_name } = actions[i] {
        assert(states[i].phase is Deciding);
        let target = states[i].phase->Deciding_target@;
        assert(probed(actions, i) == Some(target));
        assert(download::is_kept_name(target, file_name@));
        let base = choose|base: Option<Seq<char>>| #[trigger]
            paths::is_base_name(target, base) && file_name@ == text::text_or(base, target);
        assert(paths::is_base_name(probed(actions, i)->0, base));
    }
}

/// Where an encrypted file was kept, the user is told where; and after the
/// end of a download nothing is done.
pub proof fn law_kept_file_is_told(
    states: Seq<Download>,
    events: Seq<DownloadEvent>,
    actions: Seq<DownloadAction>,
    i: int,
)
    requires
        download_run(states, events, actions),
        0 <= i < actions.len(),
        last_taken(actions, i) is Some,
    ensures
        last_taken(actions, i)->0 is Keep ==> match events[i] {
            DownloadEvent::Kept { path } => actions[i] matches DownloadAction::Finish { message }
                && message@ == "\nEncrypted file kept at: "@ + path@ + "\n\n"@,
            _ => actions[i] is Unexpected,
        },
        last_taken(actions, i)->0 is Fail || last_taken(actions, i)->0 is Save || last_taken(
            actions,
            i,
        )->0 is Discard || last_taken(actions, i)->0 is Finish ==> actions[i] is Unexpected,
{
    lemma_waits(states, events, actions, i);
    assert(download::download_step(states[i], events[i], states[i + 1], actions[i]));
}

} // verus!
