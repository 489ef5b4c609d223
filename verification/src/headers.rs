//! What the headers of an answer say of the file in it.

use reqwest::header::HeaderMap;
use vstd::prelude::*;
use vstd::string::*;
use crate::paths;
use crate::text;
use crate::text::CharClass;

verus! {

/// `reqwest::header::HeaderMap`, the headers of an answer.
#[verifier::external_type_specification]
#[verifier::external_body]
#[verifier::reject_recursive_types(T)]
pub struct ExHeaderMap<T>(reqwest::header::HeaderMap<T>);

/// `reqwest::header::HeaderValue`, the value of one header.
#[verifier::external_type_specification]
#[verifier::external_body]
pub struct ExHeaderValue(reqwest::header::HeaderValue);

/// The headers, by name in lower case; of several of one name, the first.
pub uninterp spec fn header_fields(headers: HeaderMap) -> Map<Seq<char>, Seq<u8>>;

/// `c` in lower case, where it is a letter of ASCII.
pub open spec fn ascii_lower_char(c: char) -> char {
    if 'A' <= c <= 'Z' {
        (c as u32 + 32) as char
    } else {
        c
    }
}

/// `s` with the letters of ASCII in lower case.
pub open spec fn ascii_lower(s: Seq<char>) -> Seq<char> {
    s.map_values(|c: char| ascii_lower_char(c))
}

/// The bytes are visible ASCII characters, spaces and tabs.
pub open spec fn visible_ascii(bytes: Seq<u8>) -> bool {
    forall|i: int| 0 <= i < bytes.len() ==> 32 <= #[trigger] bytes[i] < 127 || bytes[i] == 9
}

/// The text of the header `name`, if there is one and it is visible ASCII.
pub open spec fn header_value(fields: Map<Seq<char>, Seq<u8>>, name: Seq<char>) -> Option<
    Seq<char>,
> {
    let key = ascii_lower(name);
    if fields.contains_key(key) && visible_ascii(fields[key]) {
        Some(fields[key].map_values(|b: u8| b as char))
    } else {
        None
    }
}

/// `HeaderMap::get` gives the first value of the header `name`, whose case
/// does not count, and `HeaderValue::to_str` its text, where all of it is
/// visible ASCII.
#[verifier::external_body]
fn header_text(headers: &HeaderMap, name: &str) -> (r: Option<String>)
    ensures
        text::chars_if_any(r) == header_value(header_fields(*headers), name@),
{
    headers.get(name)?.to_str().ok().map(|value| value.to_string())
}

/// `str::eq_ignore_ascii_case` compares two texts as if the ASCII letters in
/// both were in lower case.
pub assume_specification[ str::eq_ignore_ascii_case ](s: &str, other: &str) -> (r: bool)
    ensures
        r == (ascii_lower(s@) == ascii_lower(other@)),
;

/// The server marks the file as encrypted.
pub open spec fn marked_encrypted(headers: HeaderMap) -> bool {
    match header_value(header_fields(headers), "X-Encrypted"@) {
        Some(value) => ascii_lower(value) == ascii_lower("true"@),
        None => false,
    }
}

/// Tests whether the server marks the file as encrypted.
pub fn is_encrypted(headers: &HeaderMap) -> (r: bool)
    ensures
        r == marked_encrypted(*headers),
{
    match header_text(headers, "X-Encrypted") {
        Some(value) => value.as_str().eq_ignore_ascii_case("true"),
        None => false,
    }
}

/// The file name that one part of a `Content-Disposition` header gives, if it
/// is a part that gives one.
pub open spec fn param_filename(part: Seq<char>) -> Option<Seq<char>> {
    let param = text::trim(part, CharClass::White);
    if text::occurs_at(param, "filename="@, 0) {
        Some(text::trim(param.skip("filename="@.len() as int), CharClass::Only('"')))
    } else if text::occurs_at(param, "filename*="@, 0) {
        let value = text::trim(param.skip("filename*="@.len() as int), CharClass::Only('"'));
        match text::first_place(value, "''"@) {
            Some(i) => Some(value.skip(i + "''"@.len())),
            None => Some(value),
        }
    } else {
        None
    }
}

/// The file name of the first of the parts that gives one.
pub open spec fn first_filename(parts: Seq<Seq<char>>) -> Option<Seq<char>>
    decreases parts.len(),
{
    if parts.len() == 0 {
        None
    } else {
        match param_filename(parts[0]) {
            Some(name) => Some(name),
            None => first_filename(parts.skip(1)),
        }
    }
}

/// The file name in one part of a `Content-Disposition` header.
fn filename_of_param(part: &str) -> (r: Option<String>)
    ensures
        text::chars_if_any(r) == param_filename(part@),
{
    let chars = text::chars_of(part);
    assert(chars@.skip(0) =~= chars@);
    let param = text::chars_of(text::trimmed(&chars, 0, CharClass::White).as_str());
    let plain = text::chars_of("filename=");
    let extended = text::chars_of("filename*=");
    if text::matches_at(&param, &plain, 0) {
        Some(text::trimmed(&param, plain.len(), CharClass::Only('"')))
    } else if text::matches_at(&param, &extended, 0) {
        let value = text::trimmed(&param, extended.len(), CharClass::Only('"'));
        let chars = text::chars_of(value.as_str());
        let quotes = text::chars_of("''");
        match text::find(&chars, &quotes) {
            Some(i) => {
                let start: usize = i + quotes.len();
                assert(chars@.subrange(start as int, chars@.len() as int) =~= chars@.skip(
                    start as int,
                ));
                Some(text::string_of(&chars, start, chars.len()))
            },
            None => Some(value),
        }
    } else {
        None
    }
}

/// Takes the file name out of the value of a `Content-Disposition` header.
pub fn parse_filename_param(header_value: &str) -> (r: Option<String>)
    ensures
        text::chars_if_any(r) == first_filename(text::split(header_value@, ';')),
{
    let chars = text::chars_of(header_value);
    let parts = text::split_at_each(&chars, ';');
    let ghost all = text::split(header_value@, ';');
    let mut i: usize = 0;
    assert(all.skip(0) =~= all);
    while i < parts.len()
        invariant
            i <= parts@.len() == all.len(),
            all == text::split(header_value@, ';'),
            forall|k: int| 0 <= k < parts@.len() ==> (#[trigger] parts@[k])@ == all[k],
            first_filename(all) == first_filename(all.skip(i as int)),
        decreases parts@.len() - i,
    {
        assert(all.skip(i as int)[0] == parts@[i as int]@);
        assert(all.skip(i as int).skip(1) =~= all.skip(i + 1));
        if let Some(name) = filename_of_param(parts[i].as_str()) {
            return Some(name);
        }
        i += 1;
    }
    None
}

/// The file name that the headers ask for, as they give it.
pub open spec fn disposition_filename(headers: HeaderMap) -> Option<Seq<char>> {
    match header_value(header_fields(headers), "content-disposition"@) {
        Some(value) => first_filename(text::split(value, ';')),
        None => None,
    }
}

/// The name to save a file under that the headers give: the last component
/// of the file name in them, if they give one and it is not empty.
pub fn filename_from_headers(headers: &HeaderMap) -> (r: Option<String>)
    ensures
        match disposition_filename(*headers) {
            Some(name) if name.len() > 0 => paths::is_base_name(name, text::chars_if_any(r)),
            _ => r is None,
        },
{
    let value = header_text(headers, "content-disposition")?;
    let name = parse_filename_param(value.as_str())?;
    if name.as_str().is_empty() {
        None
    } else {
        paths::base_name(name.as_str())
    }
}

/// Where the first of two runs of parts gives a file name, that is the one of
/// both; where it gives none, the one of the second is.
proof fn lemma_first_filename(a: Seq<Seq<char>>, b: Seq<Seq<char>>)
    ensures
        first_filename(a + b) == match first_filename(a) {
            Some(name) => Some(name),
            None => first_filename(b),
        },
    decreases a.len(),
{
    if a.len() == 0 {
        assert(a + b =~= b);
    } else {
        lemma_first_filename(a.skip(1), b);
        assert((a + b).skip(1) =~= a.skip(1) + b);
        assert((a + b)[0] == a[0]);
    }
}

/// The part of a header is none that gives a file name: behind the white space
/// at its start stands neither of the two keys.
pub open spec fn gives_no_filename(part: Seq<char>) -> bool {
    forall|i: int|
        0 <= i <= part.len() && #[trigger] text::all_white(part.take(i)) ==> !text::occurs_at(
            part,
            "filename="@,
            i,
        ) && !text::occurs_at(part, "filename*="@, i)
}

/// No part of a header gives a file name.
pub open spec fn speaks_of_no_file(value: Seq<char>) -> bool {
    forall|k: int|
        0 <= k < text::split(value, ';').len() ==> gives_no_filename(
            #[trigger] text::split(value, ';')[k],
        )
}

/// From a part that gives no file name none is taken.
proof fn lemma_no_filename_in_part(part: Seq<char>)
    requires
        gives_no_filename(part),
    ensures
        param_filename(part) is None,
{
    let class = CharClass::White;
    text::lemma_lead_is(part, class);
    let skip = text::lead(part, class) as int;
    let rest = part.skip(skip);
    text::lemma_trail_is(rest, class);
    let param = text::trim(part, class);
    assert forall|i: int| 0 <= i < skip implies text::white_space(#[trigger] part.take(skip)[i]) by {
        assert(class.holds(part[i]));
    }
    assert(text::all_white(part.take(skip)));
    let plain = "filename="@;
    let extended = "filename*="@;
    if text::occurs_at(param, plain, 0) {
        assert(param.subrange(0, plain.len() as int) =~= part.subrange(skip, skip + plain.len()));
        assert(text::occurs_at(part, plain, skip));
    }
    if text::occurs_at(param, extended, 0) {
        assert(param.subrange(0, extended.len() as int) =~= part.subrange(
            skip,
            skip + extended.len(),
        ));
        assert(text::occurs_at(part, extended, skip));
    }
}

/// From parts that give no file name none is taken.
proof fn lemma_no_filename(parts: Seq<Seq<char>>)
    requires
        forall|k: int| 0 <= k < parts.len() ==> gives_no_filename(#[trigger] parts[k]),
    ensures
        first_filename(parts) is None,
    decreases parts.len(),
{
    if parts.len() > 0 {
        lemma_no_filename_in_part(parts[0]);
        assert forall|k: int| 0 <= k < parts.skip(1).len() implies gives_no_filename(
            #[trigger] parts.skip(1)[k],
        ) by {
            assert(parts.skip(1)[k] == parts[k + 1]);
        }
        lemma_no_filename(parts.skip(1));
    }
}

/// A parameter stands between others: what is in front ends in a semicolon
/// and gives no file name, and what is behind starts with a semicolon.
pub open spec fn stands_between(before: Seq<char>, param: Seq<char>, behind: Seq<char>) -> bool {
    &&& before.len() > 0 ==> before.last() == ';' && speaks_of_no_file(before.drop_last())
    &&& behind.len() > 0 ==> behind[0] == ';'
    &&& !param.contains(';')
}

/// The file name of a header is that of the first parameter that gives one.
proof fn lemma_param_decides(before: Seq<char>, param: Seq<char>, behind: Seq<char>)
    requires
        stands_between(before, param, behind),
        param_filename(param) is Some,
    ensures
        first_filename(text::split(before + param + behind, ';')) == param_filename(param),
{
    let value = before + param + behind;
    let tail = param + behind;
    text::law_splitting_one_part(param, ';');
    assert(first_filename(seq![param]) == param_filename(param));
    if behind.len() > 0 {
        let rest = behind.skip(1);
        assert(tail =~= param + seq![';'] + rest);
        text::law_splitting_a_join(param, ';', rest);
        lemma_first_filename(seq![param], text::split(rest, ';'));
    } else {
        assert(tail =~= param);
    }
    assert(first_filename(text::split(tail, ';')) == param_filename(param));
    if before.len() > 0 {
        let front = before.drop_last();
        assert(value =~= front + seq![';'] + tail);
        text::law_splitting_a_join(front, ';', tail);
        lemma_no_filename(text::split(front, ';'));
        lemma_first_filename(text::split(front, ';'), text::split(tail, ';'));
    } else {
        assert(value =~= tail);
    }
}

/// A parameter of a header: white space, a key, quotes, a value, quotes and
/// white space. The quotes are those round the value, and the white space is
/// what stands round all of it.
pub open spec fn is_param(
    param: Seq<char>,
    white: Seq<char>,
    key: Seq<char>,
    quotes: Seq<char>,
    value: Seq<char>,
    more_quotes: Seq<char>,
    more_white: Seq<char>,
) -> bool {
    &&& param == white + (key + quotes + value + more_quotes) + more_white
    &&& text::all_white(white)
    &&& text::all_are(quotes, '"')
    &&& value.len() > 0 ==> value[0] != '"' && value.last() != '"'
    &&& text::all_are(more_quotes, '"')
    &&& text::all_white(more_white)
    &&& value.len() > 0 && more_quotes.len() == 0 ==> !text::white_space(value.last())
}

/// Trimming a parameter leaves the key and what stands behind it, and
/// trimming quotes off that leaves the value.
proof fn lemma_param(
    param: Seq<char>,
    white: Seq<char>,
    key: Seq<char>,
    quotes: Seq<char>,
    value: Seq<char>,
    more_quotes: Seq<char>,
    more_white: Seq<char>,
)
    requires
        is_param(param, white, key, quotes, value, more_quotes, more_white),
        key.len() > 0,
        !text::white_space(key[0]),
        !text::white_space(key.last()),
    ensures
        text::trim(param, CharClass::White) == key + quotes + value + more_quotes,
        text::trim(
            text::trim(param, CharClass::White).skip(key.len() as int),
            CharClass::Only('"'),
        ) == value,
{
    let middle = key + quotes + value + more_quotes;
    assert(middle[0] == key[0]);
    assert(!text::white_space(middle.last())) by {
        if more_quotes.len() > 0 {
            assert(middle.last() == more_quotes.last());
        } else if value.len() > 0 {
            assert(middle.last() == value.last());
        } else if quotes.len() > 0 {
            assert(middle.last() == quotes.last());
        } else {
            assert(middle.last() == key.last());
        }
    }
    text::law_trimming(white, middle, more_white, CharClass::White);
    let quoted = quotes + value + more_quotes;
    assert(middle.skip(key.len() as int) =~= quoted);
    text::law_trimming(quotes, value, more_quotes, CharClass::Only('"'));
}

/// The value of a `filename` parameter between others is the file name.
proof fn lemma_filename_found(
    before: Seq<char>,
    param: Seq<char>,
    behind: Seq<char>,
    white: Seq<char>,
    quotes: Seq<char>,
    name: Seq<char>,
    more_quotes: Seq<char>,
    more_white: Seq<char>,
)
    requires
        stands_between(before, param, behind),
        is_param(param, white, "filename="@, quotes, name, more_quotes, more_white),
    ensures
        first_filename(text::split(before + param + behind, ';')) == Some(name),
{
    reveal_strlit("filename=");
    let key = "filename="@;
    lemma_param(param, white, key, quotes, name, more_quotes, more_white);
    let trimmed = text::trim(param, CharClass::White);
    assert(trimmed.subrange(0, 9) =~= key);
    lemma_param_decides(before, param, behind);
}

/// The value of the first `filename` parameter is the file name, whole,
/// without the quotes and the white space round it, whatever other parameters
/// there are.
pub proof fn law_filename_is_found(
    header_value: &str,
    r: Option<String>,
    before: Seq<char>,
    param: Seq<char>,
    behind: Seq<char>,
    white: Seq<char>,
    quotes: Seq<char>,
    name: Seq<char>,
    more_quotes: Seq<char>,
    more_white: Seq<char>,
)
    requires
        call_ensures(parse_filename_param, (header_value,), r),
        header_value@ == before + param + behind,
        stands_between(before, param, behind),
        is_param(param, white, "filename="@, quotes, name, more_quotes, more_white),
    ensures
        r matches Some(found) && found@ == name,
{
    lemma_filename_found(before, param, behind, white, quotes, name, more_quotes, more_white);
}

/// The file name of an attachment, with quotes or without.
pub proof fn lemma_attachment_name(value: Seq<char>, name: Seq<char>)
    requires
        !name.contains(';'),
        name.len() > 0 ==> name[0] != '"' && name.last() != '"',
        value == "attachment; filename=\""@ + name + "\""@ || (value == "attachment; filename="@
            + name && (name.len() > 0 ==> !text::white_space(name[0]) && !text::white_space(
            name.last(),
        ))),
    ensures
        first_filename(text::split(value, ';')) == Some(name),
{
    reveal_strlit("attachment; filename=\"");
    reveal_strlit("attachment; filename=");
    reveal_strlit("attachment;");
    reveal_strlit("filename=");
    reveal_strlit("filename*=");
    reveal_strlit("\"");
    let before = "attachment;"@;
    let white = seq![' '];
    let none = Seq::<char>::empty();
    let quotes = if value == "attachment; filename=\""@ + name + "\""@ {
        seq!['"']
    } else {
        none
    };
    let param = white + ("filename="@ + quotes + name + quotes) + none;
    assert(value =~= before + param + none);
    let front = before.drop_last();
    assert(!front.contains(';')) by {
        assert forall|i: int| 0 <= i < front.len() implies front[i] != ';' by {}
    }
    text::law_splitting_one_part(front, ';');
    assert(front[0] == 'a');
    assert(gives_no_filename(front)) by {
        assert forall|i: int|
            0 <= i <= front.len() && #[trigger] text::all_white(
                front.take(i),
            ) implies !text::occurs_at(front, "filename="@, i) && !text::occurs_at(
            front,
            "filename*="@,
            i,
        ) by {
            if i > 0 {
                assert(front.take(i)[0] == 'a');
            } else {
                if text::occurs_at(front, "filename="@, 0) {
                    assert(front.subrange(0, 9)[0] == 'f');
                }
                if text::occurs_at(front, "filename*="@, 0) {
                    assert(front.subrange(0, 10)[0] == 'f');
                }
            }
        }
    }
    assert(!param.contains(';')) by {
        assert forall|i: int| 0 <= i < param.len() implies param[i] != ';' by {
            let k = 10 + quotes.len();
            if k <= i < k + name.len() {
                assert(param[i] == name[i - k]);
                assert(name.contains(name[i - k]));
            } else if i < 10 {
                assert(param[i] == ' ' || param[i] == "filename="@[i - 1]);
            } else {
                assert(param[i] == '"');
            }
        }
    }
    lemma_filename_found(before, param, none, white, quotes, name, quotes, none);
    assert(value =~= before + param + none);
}

/// A name that is sent in quotes as the file name of an attachment comes back
/// as it is, and so it does without the quotes where no white space stands at
/// its ends.
pub proof fn law_attachment_name(header_value: &str, r: Option<String>, name: Seq<char>)
    requires
        call_ensures(parse_filename_param, (header_value,), r),
        !name.contains(';'),
        name.len() > 0 ==> name[0] != '"' && name.last() != '"',
        header_value@ == "attachment; filename=\""@ + name + "\""@ || (header_value@
            == "attachment; filename="@ + name && (name.len() > 0 ==> !text::white_space(name[0])
            && !text::white_space(name.last()))),
    ensures
        r matches Some(found) && found@ == name,
{
    lemma_attachment_name(header_value@, name);
}

/// The value of the first `filename*` parameter is the file name behind the
/// first two single quotes, where it holds them, and all of it where it does
/// not.
pub proof fn law_extended_filename_is_found(
    header_value: &str,
    r: Option<String>,
    before: Seq<char>,
    param: Seq<char>,
    behind: Seq<char>,
    white: Seq<char>,
    quotes: Seq<char>,
    value: Seq<char>,
    more_quotes: Seq<char>,
    more_white: Seq<char>,
    charset: Seq<char>,
    name: Seq<char>,
)
    requires
        call_ensures(parse_filename_param, (header_value,), r),
        header_value@ == before + param + behind,
        stands_between(before, param, behind),
        is_param(param, white, "filename*="@, quotes, value, more_quotes, more_white),
        (value == charset + "''"@ + name && text::first_at(
            charset + "''"@,
            "''"@,
            charset.len() as int,
        )) || (value == name && forall|j: int| !(#[trigger] text::occurs_at(value, "''"@, j))),
    ensures
        r matches Some(found) && found@ == name,
{
    reveal_strlit("filename=");
    reveal_strlit("filename*=");
    reveal_strlit("''");
    let key = "filename*="@;
    let two = "''"@;
    lemma_param(param, white, key, quotes, value, more_quotes, more_white);
    let trimmed = text::trim(param, CharClass::White);
    assert(trimmed.subrange(0, 10) =~= key);
    if text::occurs_at(trimmed, "filename="@, 0) {
        assert(trimmed.subrange(0, 9)[8] == '=');
        assert(trimmed[8] == '*');
    }
    if forall|j: int| !(#[trigger] text::occurs_at(value, two, j)) {
        assert(text::first_place(value, two) is None);
        if value == charset + two + name {
            assert(value.subrange(charset.len() as int, charset.len() as int + 2) =~= two);
            assert(text::occurs_at(value, two, charset.len() as int));
        }
    } else {
        let at = charset.len() as int;
        let head = charset + two;
        assert(value.subrange(at, at + 2) =~= two);
        assert forall|j: int| #[trigger] text::occurs_at(value, two, j) implies at <= j by {
            if j < at {
                assert(head.subrange(j, j + 2) =~= value.subrange(j, j + 2));
                assert(text::occurs_at(head, two, j));
            }
        }
        assert(text::first_at(value, two, at));
        assert(value.skip(at + 2) =~= name);
    }
    lemma_param_decides(before, param, behind);
}

/// A header of which no part starts with one of the two keys gives no file
/// name.
pub proof fn law_no_filename(header_value: &str, r: Option<String>)
    requires
        call_ensures(parse_filename_param, (header_value,), r),
        speaks_of_no_file(header_value@),
    ensures
        r is None,
{
    lemma_no_filename(text::split(header_value@, ';'));
}

/// The bytes are those of the text, all of it visible ASCII.
pub open spec fn spells(bytes: Seq<u8>, s: Seq<char>) -> bool {
    &&& bytes.len() == s.len()
    &&& forall|i: int|
        0 <= i < bytes.len() ==> (32 <= #[trigger] bytes[i] < 127 || bytes[i] == 9) && bytes[i] as int
            == s[i] as int
}

/// A header that spells a text is read as that text.
proof fn lemma_header_value(fields: Map<Seq<char>, Seq<u8>>, name: Seq<char>, s: Seq<char>)
    requires
        fields.contains_key(ascii_lower(name)),
        spells(fields[ascii_lower(name)], s),
    ensures
        header_value(fields, name) == Some(s),
{
    let bytes = fields[ascii_lower(name)];
    assert(bytes.map_values(|b: u8| b as char) =~= s);
}

/// The names of the headers that are read, in lower case.
proof fn lemma_lower_names()
    ensures
        ascii_lower("content-disposition"@) == "content-disposition"@,
        ascii_lower("X-Encrypted"@) == "x-encrypted"@,
        ascii_lower("true"@) == seq!['t', 'r', 'u', 'e'],
{
    reveal_strlit("content-disposition");
    reveal_strlit("X-Encrypted");
    reveal_strlit("x-encrypted");
    reveal_strlit("true");
    assert(ascii_lower("content-disposition"@) =~= "content-disposition"@);
    assert(('X' as u32 + 32) as char == 'x');
    assert(('E' as u32 + 32) as char == 'e');
    assert(ascii_lower("X-Encrypted"@) =~= "x-encrypted"@);
    assert(ascii_lower("true"@) =~= seq!['t', 'r', 'u', 'e']);
}

/// The file name that headers ask for is that of the header that they spell.
pub proof fn lemma_disposition(headers: HeaderMap, value: Seq<char>)
    requires
        header_fields(headers).contains_key("content-disposition"@),
        spells(header_fields(headers)["content-disposition"@], value),
    ensures
        disposition_filename(headers) == first_filename(text::split(value, ';')),
{
    lemma_lower_names();
    lemma_header_value(header_fields(headers), "content-disposition"@, value);
}

/// The name to save a file under is the last component of the file name that
/// is read from the header `content-disposition`, where there is one and it
/// is not empty.
pub proof fn law_saved_under_the_header_name(
    headers: &HeaderMap,
    r: Option<String>,
    value: &str,
    name: Option<String>,
)
    requires
        call_ensures(filename_from_headers, (headers,), r),
        call_ensures(parse_filename_param, (value,), name),
        header_fields(*headers).contains_key("content-disposition"@),
        spells(header_fields(*headers)["content-disposition"@], value@),
    ensures
        match name {
            Some(name) if name@.len() > 0 => paths::is_base_name(name@, text::chars_if_any(r)),
            _ => r is None,
        },
{
    lemma_lower_names();
    lemma_header_value(header_fields(*headers), "content-disposition"@, value@);
}

/// Without a header `content-disposition` of visible ASCII there is no name
/// to save a file under.
pub proof fn law_no_header_names_no_file(headers: &HeaderMap, r: Option<String>)
    requires
        call_ensures(filename_from_headers, (headers,), r),
        header_fields(*headers).contains_key("content-disposition"@) ==> exists|i: int|
            0 <= i < header_fields(*headers)["content-disposition"@].len() && {
                let byte = #[trigger] header_fields(*headers)["content-disposition"@][i];
                byte != 9 && (byte < 32 || byte >= 127)
            },
    ensures
        r is None,
{
    lemma_lower_names();
}

/// The bytes are the four letters of `true`, each in either case.
pub open spec fn says_true(mark: Seq<u8>) -> bool {
    &&& mark.len() == 4
    &&& mark[0] == 84 || mark[0] == 116
    &&& mark[1] == 82 || mark[1] == 114
    &&& mark[2] == 85 || mark[2] == 117
    &&& mark[3] == 69 || mark[3] == 101
}

/// A byte is a letter in either case.
proof fn lemma_letter(byte: u8, letter: char)
    requires
        'a' <= letter <= 'z',
    ensures
        ascii_lower_char(byte as char) == letter <==> byte as int == letter as int || byte as int
            == letter as int - 32,
{
    let c = byte as char;
    assert(c as int == byte as int);
    if 'A' <= c <= 'Z' {
        assert((c as u32 + 32) as char as int == byte as int + 32);
    }
}

/// A text is the word `true`, whatever its case, exactly where its bytes say
/// so.
proof fn lemma_says_true(mark: Seq<u8>, s: Seq<char>)
    requires
        s.len() == mark.len(),
        forall|i: int| 0 <= i < s.len() ==> #[trigger] s[i] == mark[i] as char,
    ensures
        ascii_lower(s) == ascii_lower("true"@) <==> says_true(mark),
        says_true(mark) ==> visible_ascii(mark),
{
    lemma_lower_names();
    let word = seq!['t', 'r', 'u', 'e'];
    let lower = ascii_lower(s);
    if mark.len() == 4 {
        lemma_letter(mark[0], 't');
        lemma_letter(mark[1], 'r');
        lemma_letter(mark[2], 'u');
        lemma_letter(mark[3], 'e');
        assert(lower[0] == ascii_lower_char(s[0]));
        assert(lower[1] == ascii_lower_char(s[1]));
        assert(lower[2] == ascii_lower_char(s[2]));
        assert(lower[3] == ascii_lower_char(s[3]));
        if says_true(mark) {
            assert(lower =~= word);
        } else if lower == word {
            assert(lower[0] == 't' && lower[1] == 'r' && lower[2] == 'u' && lower[3] == 'e');
        }
    } else {
        assert(lower.len() != word.len());
    }
}

/// A file is encrypted exactly where the header `x-encrypted` is the four
/// letters of `true`, each in either case.
pub proof fn law_encrypted_mark(headers: &HeaderMap, r: bool)
    requires
        call_ensures(is_encrypted, (headers,), r),
    ensures
        r <==> header_fields(*headers).contains_key("x-encrypted"@) && says_true(
            header_fields(*headers)["x-encrypted"@],
        ),
{
    lemma_mark(*headers);
}

/// The mark of a file, by the header that holds it.
pub proof fn lemma_mark(headers: HeaderMap)
    ensures
        marked_encrypted(headers) <==> header_fields(headers).contains_key("x-encrypted"@)
            && says_true(header_fields(headers)["x-encrypted"@]),
{
    lemma_lower_names();
    let fields = header_fields(headers);
    if fields.contains_key("x-encrypted"@) {
        let mark = fields["x-encrypted"@];
        let s = Seq::new(mark.len(), |i: int| mark[i] as char);
        lemma_says_true(mark, s);
        if visible_ascii(mark) {
            assert(mark.map_values(|b: u8| b as char) =~= s);
            assert(header_value(fields, "X-Encrypted"@) == Some(s));
        }
    }
}

} // verus!
