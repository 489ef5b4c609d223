//! The addresses the client asks for, and the identifiers of files in what a
//! user types and in what the server answers.

use vstd::prelude::*;
use vstd::string::*;
use crate::text;
use crate::text::CharClass;

verus! {

/// What the server writes in front of the identifier of an uploaded file.
pub const ID_MARKER: &'static str = "File ID for downloading is ";

/// What stands in front of the identifier in a download link.
pub const DOWNLOAD_PART: &'static str = "/download/";

/// The letters and digits behind the first marker in `body`, if there are any.
pub open spec fn file_id(body: Seq<char>) -> Option<Seq<char>> {
    match text::first_place(body, ID_MARKER@) {
        Some(i) => {
            let after = body.skip(i + ID_MARKER@.len());
            let n = text::lead(after, CharClass::AsciiAlphanumeric);
            if n > 0 {
                Some(after.take(n as int))
            } else {
                None
            }
        },
        None => None,
    }
}

/// Takes the identifier of an uploaded file out of the server's answer.
pub fn extract_file_id(body: &str) -> (r: Option<String>)
    ensures
        text::chars_if_any(r) == file_id(body@),
{
    let chars = text::chars_of(body);
    let marker = text::chars_of(ID_MARKER);
    let end: usize = chars.len();
    match text::find(&chars, &marker) {
        Some(i) => {
            let start: usize = i + marker.len();
            let n: usize = text::lead_from(&chars, start, CharClass::AsciiAlphanumeric);
            if n == 0 {
                None
            } else {
                assert(start + n <= end);
                assert(chars@.subrange(start as int, start + n) =~= chars@.skip(
                    start as int,
                ).take(n as int));
                Some(text::string_of(&chars, start, start + n))
            }
        },
        None => None,
    }
}

/// The identifier in what a user typed: what stands behind the last
/// `/download/`, without slashes at its ends. Where there is no such part, or
/// nothing behind it, all that was typed is the identifier.
pub open spec fn id_of_input(input: Seq<char>) -> Seq<char> {
    match text::last_place(input, DOWNLOAD_PART@) {
        Some(i) => {
            let id = text::trim(input.skip(i + DOWNLOAD_PART@.len()), CharClass::Only('/'));
            if id.len() == 0 {
                input
            } else {
                id
            }
        },
        None => input,
    }
}

/// Takes the identifier out of an identifier or a download link.
pub fn extract_id_from_input(input: &str) -> (r: String)
    ensures
        r@ == id_of_input(input@),
{
    let chars = text::chars_of(input);
    let part = text::chars_of(DOWNLOAD_PART);
    match text::rfind(&chars, &part) {
        Some(i) => {
            let id = text::trimmed(&chars, i + part.len(), CharClass::Only('/'));
            if id.as_str().is_empty() {
                input.to_owned()
            } else {
                id
            }
        },
        None => input.to_owned(),
    }
}

/// The address that answers a ping.
pub open spec fn ping_address(base: Seq<char>) -> Seq<char> {
    base + "/ping"@
}

/// The address that takes uploads; encrypted ones are marked as such.
pub open spec fn upload_address(base: Seq<char>, encrypted: bool) -> Seq<char> {
    if encrypted {
        base + "/curlup?encrypted=true"@
    } else {
        base + "/curlup"@
    }
}

/// The address of the file `id`.
pub open spec fn download_address(base: Seq<char>, id: Seq<char>) -> Seq<char> {
    base + DOWNLOAD_PART@ + id
}

/// The address that answers a ping.
pub fn ping_url(base: &str) -> (r: String)
    ensures
        r@ == ping_address(base@),
{
    base.to_owned().concat("/ping")
}

/// The address that takes uploads.
pub fn upload_url(base: &str, encrypted: bool) -> (r: String)
    ensures
        r@ == upload_address(base@, encrypted),
{
    if encrypted {
        base.to_owned().concat("/curlup?encrypted=true")
    } else {
        base.to_owned().concat("/curlup")
    }
}

/// The address of the file `id`, which is also the link to hand on.
pub fn download_url(base: &str, id: &str) -> (r: String)
    ensures
        r@ == download_address(base@, id@),
{
    base.to_owned().concat(DOWNLOAD_PART).concat(id)
}

/// An identifier from the server's answer is not empty and made of ASCII
/// letters and digits alone.
pub proof fn law_file_id_is_alphanumeric(body: Seq<char>)
    ensures
        file_id(body) matches Some(id) ==> id.len() > 0 && forall|i: int|
            0 <= i < id.len() ==> text::ascii_alphanumeric(#[trigger] id[i]),
{
    if let Some(i) = text::first_place(body, ID_MARKER@) {
        let after = body.skip(i + ID_MARKER@.len());
        let class = CharClass::AsciiAlphanumeric;
        text::lemma_lead_is(after, class);
        let id = after.take(text::lead(after, class) as int);
        assert forall|k: int| 0 <= k < id.len() implies text::ascii_alphanumeric(
            #[trigger] id[k],
        ) by {
            assert(class.holds(after[k]));
        }
    }
}

/// No character of `s` is a slash.
spec fn slash_free(s: Seq<char>) -> bool {
    forall|i: int| 0 <= i < s.len() ==> #[trigger] s[i] != '/'
}

/// An identifier that can be taken from its link: there is one, no slash
/// stands at its ends, and with a slash in front it holds no `/download/`.
pub open spec fn is_plain_id(id: Seq<char>) -> bool {
    &&& id.len() > 0
    &&& id[0] != '/'
    &&& id.last() != '/'
    &&& forall|j: int| !(#[trigger] text::occurs_at(seq!['/'] + id, DOWNLOAD_PART@, j))
}

/// An identifier without slashes is plain.
proof fn lemma_slash_free_is_plain(id: Seq<char>)
    requires
        id.len() > 0,
        slash_free(id),
    ensures
        is_plain_id(id),
{
    reveal_strlit("/download/");
    let tail = seq!['/'] + id;
    assert forall|j: int| !(#[trigger] text::occurs_at(tail, DOWNLOAD_PART@, j)) by {
        if text::occurs_at(tail, DOWNLOAD_PART@, j) {
            assert(tail.subrange(j, j + 10)[9] == DOWNLOAD_PART@[9]);
            assert(tail[j + 9] == id[j + 8]);
        }
    }
}

/// Trimming slashes leaves a text as it is exactly where it has none at its
/// ends.
proof fn lemma_trim_slashes(s: Seq<char>)
    requires
        s.len() > 0,
    ensures
        text::trim(s, CharClass::Only('/')) == s <==> s[0] != '/' && s.last() != '/',
        text::trim(s, CharClass::Only('/')).len() <= s.len(),
{
    let class = CharClass::Only('/');
    text::lemma_lead_is(s, class);
    let rest = s.skip(text::lead(s, class) as int);
    text::lemma_trail_is(rest, class);
    if s[0] != '/' {
        text::lemma_lead(s, class, 0);
        assert(rest =~= s);
        if s.last() != '/' {
            text::lemma_trail(s, class, 0);
            assert(s.take(s.len() as int) =~= s);
        }
    }
}

/// A pattern that stands in a text stands in it for the last time somewhere.
proof fn lemma_last_place(s: Seq<char>, pattern: Seq<char>, i: int)
    requires
        text::occurs_at(s, pattern, i),
    ensures
        text::last_place(s, pattern) matches Some(last) && text::last_at(s, pattern, last) && i
            <= last,
    decreases s.len() - i,
{
    if exists|j: int| #[trigger] text::occurs_at(s, pattern, j) && i < j {
        let j = choose|j: int| #[trigger] text::occurs_at(s, pattern, j) && i < j;
        lemma_last_place(s, pattern, j);
    } else {
        assert(text::last_at(s, pattern, i));
    }
}

/// In an address of a file the last `/download/` is the one in front of the
/// identifier exactly where there is none in the identifier with a slash in
/// front of it.
proof fn lemma_last_download_part(base: Seq<char>, id: Seq<char>)
    ensures
        text::last_place(download_address(base, id), DOWNLOAD_PART@) matches Some(last)
            && text::last_at(download_address(base, id), DOWNLOAD_PART@, last) && base.len()
            <= last && (last == base.len() <==> forall|j: int|
            !(#[trigger] text::occurs_at(seq!['/'] + id, DOWNLOAD_PART@, j))),
{
    reveal_strlit("/download/");
    let link = download_address(base, id);
    let part = DOWNLOAD_PART@;
    let at = base.len() as int;
    let tail = seq!['/'] + id;
    assert(link.subrange(at, at + part.len()) =~= part);
    lemma_last_place(link, part, at);
    let last = text::last_place(link, part)->0;
    if forall|j: int| !(#[trigger] text::occurs_at(tail, part, j)) {
        if last > at {
            let found = link.subrange(last, last + part.len());
            assert(found[0] == '/');
            assert(link[last] == '/');
            if last < at + 9 {
                assert(link[last] == part[last - at]);
            } else {
                let j = last - at - 9;
                assert(tail.subrange(j, j + part.len()) =~= found);
                assert(text::occurs_at(tail, part, j));
            }
        }
    } else {
        let j = choose|j: int| #[trigger] text::occurs_at(tail, part, j);
        assert(link.subrange(at + 9 + j, at + 9 + j + part.len()) =~= tail.subrange(
            j,
            j + part.len(),
        ));
        assert(text::occurs_at(link, part, at + 9 + j));
    }
}

/// A link gives back the identifier that it was made of exactly where that
/// is plain.
pub proof fn law_link_gives_back_plain_ids(base: Seq<char>, id: Seq<char>)
    ensures
        id_of_input(download_address(base, id)) == id <==> is_plain_id(id),
{
    reveal_strlit("/download/");
    let link = download_address(base, id);
    let class = CharClass::Only('/');
    lemma_last_download_part(base, id);
    let last = text::last_place(link, DOWNLOAD_PART@)->0;
    let after = link.skip(last + DOWNLOAD_PART@.len());
    if after.len() > 0 {
        lemma_trim_slashes(after);
    } else {
        text::lemma_lead(after, class, 0);
        assert(after.skip(0) =~= after);
        text::lemma_trail(after, class, 0);
    }
    if last == base.len() {
        assert(after =~= id);
    }
}

/// A link gives back every identifier without slashes that it was made of.
pub proof fn law_link_gives_back_its_id(base: Seq<char>, id: Seq<char>)
    requires
        id.len() > 0,
        !id.contains('/'),
    ensures
        id_of_input(download_address(base, id)) == id,
{
    assert(slash_free(id));
    lemma_slash_free_is_plain(id);
    law_link_gives_back_plain_ids(base, id);
}

/// The link that is handed on after an upload leads a download to the file
/// that was uploaded: from the link of the identifier in an answer of the
/// server, that identifier is taken again.
pub proof fn law_link_gives_back_its_file_id(base: Seq<char>, body: Seq<char>)
    requires
        file_id(body) is Some,
    ensures
        id_of_input(download_address(base, file_id(body)->0)) == file_id(body)->0,
{
    let id = file_id(body)->0;
    law_file_id_is_alphanumeric(body);
    assert(!id.contains('/')) by {
        assert forall|i: int| 0 <= i < id.len() implies #[trigger] id[i] != '/' by {
            assert(text::ascii_alphanumeric(id[i]));
        }
    }
    law_link_gives_back_its_id(base, id);
}

/// Behind the last place of a pattern the pattern does not stand again, nor
/// does it in any stretch of what is there.
proof fn lemma_none_behind_last(s: Seq<char>, pattern: Seq<char>, from: int, to: int)
    requires
        text::last_place(s, pattern) is Some,
        pattern.len() > 0,
        text::last_place(s, pattern)->0 + pattern.len() <= from <= to <= s.len(),
    ensures
        text::last_place(s.subrange(from, to), pattern) is None,
{
    let last = text::last_place(s, pattern)->0;
    assert(text::last_at(s, pattern, last));
    let stretch = s.subrange(from, to);
    assert forall|j: int| !text::last_at(stretch, pattern, j) by {
        if text::last_at(stretch, pattern, j) {
            assert(s.subrange(from + j, from + j + pattern.len()) =~= stretch.subrange(
                j,
                j + pattern.len(),
            ));
            assert(text::occurs_at(s, pattern, from + j));
        }
    }
}

/// Taking the identifier twice is taking it once: what a download asks for
/// can be typed in place of what it was taken from.
pub proof fn law_id_of_input_is_final(input: Seq<char>)
    ensures
        id_of_input(id_of_input(input)) == id_of_input(input),
{
    reveal_strlit("/download/");
    let part = DOWNLOAD_PART@;
    let class = CharClass::Only('/');
    if let Some(i) = text::last_place(input, part) {
        assert(text::last_at(input, part, i));
        let from = i + part.len();
        let after = input.skip(from);
        text::lemma_lead_is(after, class);
        let skip = text::lead(after, class) as int;
        let rest = after.skip(skip);
        text::lemma_trail_is(rest, class);
        let keep = rest.len() - text::trail(rest, class);
        let id = text::trim(after, class);
        assert(id =~= input.subrange(from + skip, from + skip + keep));
        lemma_none_behind_last(input, part, from + skip, from + skip + keep);
    }
}

/// The identifier behind the first marker is all of the run of letters and
/// digits there.
pub proof fn lemma_file_id_found(
    body: Seq<char>,
    pre: Seq<char>,
    id: Seq<char>,
    rest: Seq<char>,
)
    requires
        body == pre + "File ID for downloading is "@ + id + rest,
        text::first_at(
            pre + "File ID for downloading is "@,
            "File ID for downloading is "@,
            pre.len() as int,
        ),
        id.len() > 0,
        forall|i: int| 0 <= i < id.len() ==> text::ascii_alphanumeric(#[trigger] id[i]),
        rest.len() > 0 ==> !text::ascii_alphanumeric(rest[0]),
    ensures
        file_id(body) == Some(id),
{
    let marker = "File ID for downloading is "@;
    let at = pre.len() as int;
    let head = pre + marker;
    assert(body.subrange(at, at + marker.len()) =~= marker);
    assert forall|j: int| #[trigger] text::occurs_at(body, marker, j) implies at <= j by {
        if j < at {
            assert(head.subrange(j, j + marker.len()) =~= body.subrange(j, j + marker.len()));
            assert(text::occurs_at(head, marker, j));
        }
    }
    assert(text::first_at(body, marker, at));
    let after = body.skip(at + marker.len());
    assert(after =~= id + rest);
    let class = CharClass::AsciiAlphanumeric;
    assert forall|i: int| 0 <= i < id.len() implies class.holds(#[trigger] after[i]) by {
        assert(text::ascii_alphanumeric(id[i]));
    }
    if rest.len() > 0 {
        assert(after[id.len() as int] == rest[0]);
    }
    text::lemma_lead(after, class, id.len());
    assert(after.take(id.len() as int) =~= id);
}

/// Where the marker stands for the first time in front of a run of letters
/// and digits of ASCII, all of that run is the identifier, whatever stands
/// around it.
pub proof fn law_file_id_is_found(
    body: &str,
    r: Option<String>,
    pre: Seq<char>,
    id: Seq<char>,
    rest: Seq<char>,
)
    requires
        call_ensures(extract_file_id, (body,), r),
        body@ == pre + "File ID for downloading is "@ + id + rest,
        text::first_at(
            pre + "File ID for downloading is "@,
            "File ID for downloading is "@,
            pre.len() as int,
        ),
        id.len() > 0,
        forall|i: int| 0 <= i < id.len() ==> text::ascii_alphanumeric(#[trigger] id[i]),
        rest.len() > 0 ==> !text::ascii_alphanumeric(rest[0]),
    ensures
        r matches Some(found) && found@ == id,
{
    lemma_file_id_found(body@, pre, id, rest);
}

/// No file is named: the marker is not there, or behind the first, at `at`,
/// there is no letter or digit of ASCII.
pub open spec fn names_no_file(body: Seq<char>, at: int) -> bool {
    ||| forall|j: int| !(#[trigger] text::occurs_at(body, "File ID for downloading is "@, j))
    ||| text::first_at(body, "File ID for downloading is "@, at) && (body.len() == at + 27
        || !text::ascii_alphanumeric(body[at + 27]))
}

/// There is no identifier where no file is named, and there is one where a
/// letter or a digit stands behind the first marker.
pub proof fn lemma_no_file_id(body: Seq<char>, at: int)
    ensures
        names_no_file(body, at) ==> file_id(body) is None,
        text::first_at(body, "File ID for downloading is "@, at) && !names_no_file(body, at)
            ==> file_id(body) is Some,
{
    reveal_strlit("File ID for downloading is ");
    let marker = "File ID for downloading is "@;
    if text::first_at(body, marker, at) {
        let found = text::first_place(body, marker)->0;
        assert(text::first_at(body, marker, found));
        assert(found == at);
        let after = body.skip(at + 27);
        text::lemma_lead_is(after, CharClass::AsciiAlphanumeric);
        if after.len() > 0 {
            assert(after[0] == body[at + 27]);
        }
    }
}

/// There is no identifier in an answer without the marker, nor in one where
/// behind the first marker there is no letter or digit; in every other there
/// is one.
pub proof fn law_where_there_is_no_file_id(body: &str, r: Option<String>, at: int)
    requires
        call_ensures(extract_file_id, (body,), r),
    ensures
        names_no_file(body@, at) ==> r is None,
        text::first_at(body@, "File ID for downloading is "@, at) && !names_no_file(body@, at)
            ==> r is Some,
{
    lemma_no_file_id(body@, at);
}

/// What was typed is the identifier where it holds no `/download/`, and where
/// nothing but slashes stands behind the last.
pub proof fn law_typed_id_is_taken_as_it_is(
    input: &str,
    r: String,
    pre: Seq<char>,
    slashes: Seq<char>,
)
    requires
        call_ensures(extract_id_from_input, (input,), r),
        (forall|j: int| !(#[trigger] text::occurs_at(input@, "/download/"@, j))) || (input@ == pre
            + "/download/"@ + slashes && text::all_are(slashes, '/')),
    ensures
        r@ == input@,
{
    reveal_strlit("/download/");
    let part = "/download/"@;
    if forall|j: int| !(#[trigger] text::occurs_at(input@, part, j)) {
    } else {
        let tail = seq!['/'] + slashes;
        assert forall|j: int| !(#[trigger] text::occurs_at(tail, part, j)) by {
            if text::occurs_at(tail, part, j) {
                assert(tail.subrange(j, j + 10)[1] == part[1]);
                assert(tail[j + 1] == '/');
            }
        }
        assert(download_address(pre, slashes) =~= input@);
        lemma_last_download_part(pre, slashes);
        assert(input@.skip(pre.len() as int + 10) =~= slashes);
        let none = Seq::<char>::empty();
        text::law_trimming(slashes, none, none, CharClass::Only('/'));
        assert(slashes + none + none =~= slashes);
    }
}

/// From a link the identifier behind the last `/download/` is taken, whole,
/// whatever stands in front and however many slashes stand around it.
pub proof fn law_id_is_taken_from_a_link(
    input: &str,
    r: String,
    pre: Seq<char>,
    before: Seq<char>,
    id: Seq<char>,
    behind: Seq<char>,
)
    requires
        call_ensures(extract_id_from_input, (input,), r),
        input@ == pre + "/download/"@ + (before + id + behind),
        text::all_are(before, '/'),
        text::all_are(behind, '/'),
        id.len() > 0 && id[0] != '/' && id.last() != '/',
        forall|j: int|
            !(#[trigger] text::occurs_at(
                seq!['/'] + (before + id + behind),
                "/download/"@,
                j,
            )),
    ensures
        r@ == id,
{
    reveal_strlit("/download/");
    let tail = before + id + behind;
    assert(download_address(pre, tail) =~= input@);
    lemma_last_download_part(pre, tail);
    assert(input@.skip(pre.len() as int + 10) =~= tail);
    text::law_trimming(before, id, behind, CharClass::Only('/'));
}

/// The addresses on a server are its base and behind it what the server
/// knows each by; an upload is marked exactly where it is encrypted.
pub proof fn law_addresses(
    base: &str,
    id: &str,
    encrypted: bool,
    ping: String,
    upload: String,
    download: String,
)
    requires
        call_ensures(ping_url, (base,), ping),
        call_ensures(upload_url, (base, encrypted), upload),
        call_ensures(download_url, (base, id), download),
    ensures
        ping@ == base@ + "/ping"@,
        !encrypted ==> upload@ == base@ + "/curlup"@,
        encrypted ==> upload@ == base@ + "/curlup?encrypted=true"@,
        download@ == base@ + "/download/"@ + id@,
{
}

/// The link to a file leads back to its identifier, by the two calls that
/// make the one and read the other.
pub proof fn law_link_is_read_as_it_was_made(
    base: &str,
    id: &str,
    link: String,
    typed: &str,
    r: String,
)
    requires
        call_ensures(download_url, (base, id), link),
        typed@ == link@,
        call_ensures(extract_id_from_input, (typed,), r),
        id@.len() > 0,
        !id@.contains('/'),
    ensures
        r@ == id@,
{
    law_link_gives_back_its_id(base@, id@);
}

} // verus!
