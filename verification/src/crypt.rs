//! Phrases to encrypt with, and encryption with them.

use std::io::{Read, Write};
use vstd::prelude::*;
use crate::text;

verus! {

/// How many words a phrase has.
pub const PHRASE_WORDS: usize = 12;

/// A word of lower case letters of ASCII, at least one.
pub open spec fn is_word(s: Seq<char>) -> bool {
    s.len() > 0 && forall|i: int| 0 <= i < s.len() ==> 'a' <= #[trigger] s[i] <= 'z'
}

/// The words with a space between each two.
pub open spec fn spaced(words: Seq<Seq<char>>) -> Seq<char>
    decreases words.len(),
{
    if words.len() == 0 {
        Seq::empty()
    } else if words.len() == 1 {
        words[0]
    } else {
        spaced(words.drop_last()) + " "@ + words.last()
    }
}

/// The word at `index` in the English list of `bip39::Language::word_list`.
pub uninterp spec fn english_word(index: int) -> Seq<char>;

/// The phrase that `bip39::Mnemonic::from_entropy_in` makes of `entropy` in
/// English, with its checksum.
pub uninterp spec fn entropy_phrase(entropy: Seq<u8>) -> Seq<char>;

/// The English list.
pub open spec fn english_list() -> Seq<Seq<char>> {
    Seq::new(2048, |k: int| english_word(k))
}

/// `s` is a phrase of `words`, which are words of the list.
pub open spec fn phrase_of(
    s: Seq<char>,
    words: Seq<Seq<char>>,
    list: Seq<Seq<char>>,
) -> bool {
    s == spaced(words) && forall|i: int|
        0 <= i < words.len() ==> is_word(#[trigger] words[i]) && list.contains(words[i])
}

/// `s` is a phrase of `count` words of the list.
pub open spec fn is_phrase_from(s: Seq<char>, count: nat, list: Seq<Seq<char>>) -> bool {
    exists|words: Seq<Seq<char>>| words.len() == count && #[trigger] phrase_of(s, words, list)
}

/// `s` is a mnemonic of `count` words: it is made of words of the English
/// list, and it is the phrase of some entropy, four bytes for each three
/// words.
pub open spec fn is_phrase(s: Seq<char>, count: nat) -> bool {
    &&& is_phrase_from(s, count, english_list())
    &&& exists|entropy: Seq<u8>| entropy.len() == count / 3 * 4 && s == #[trigger] entropy_phrase(
        entropy,
    )
}

/// The numbers of words that a mnemonic can have.
pub open spec fn makes_phrases_of(word_count: usize) -> bool {
    12 <= word_count <= 24 && word_count % 3 == 0
}

/// `bip39::Mnemonic::generate_in` draws four bytes for each three words by
/// chance and makes the mnemonic of them as `Mnemonic::from_entropy_in` does,
/// of words of the English list, all of them in lower case letters;
/// `to_string` puts a space between each two. It makes those of 12, 15, 18, 21
/// and 24 words. Which bytes come is left to chance, and nothing is said of
/// it.
#[verifier::external_body]
fn english_mnemonic(word_count: usize) -> (r: Option<String>)
    ensures
        match r {
            Some(phrase) => makes_phrases_of(word_count) && is_phrase_from(
                phrase@,
                word_count as nat,
                Seq::new(2048, |k: int| english_word(k)),
            ),
            None => !makes_phrases_of(word_count),
        },
        r matches Some(phrase) ==> exists|entropy: Seq<u8>|
            entropy.len() == word_count as nat / 3 * 4 && phrase@ == #[trigger] entropy_phrase(
                entropy,
            ),
{
    bip39::Mnemonic::generate_in(bip39::Language::English, word_count).ok().map(
        |mnemonic| mnemonic.to_string(),
    )
}

/// A new phrase to encrypt with.
pub fn new_phrase() -> (r: String)
    ensures
        is_phrase(r@, PHRASE_WORDS as nat),
{
    assert(english_list() =~= Seq::new(2048, |k: int| english_word(k)));
    english_mnemonic(PHRASE_WORDS).unwrap()
}

/// The work factor that every machine accepts in an age file, whatever its
/// speed.
pub const LEAST_LIMIT: u8 = 14;

/// A work factor that no age file exceeds.
pub const MOST_LIMIT: u8 = 255;

/// What is read from an age file with a passphrase, and whether that is all
/// of it, by one who accepts work factors up to `limit`; nothing where the
/// file does not open.
pub uninterp spec fn age_reading(
    sealed: Seq<u8>,
    passphrase: Seq<char>,
    limit: u8,
) -> Option<(Seq<u8>, bool)>;

/// What came of decrypting a file whose header a passphrase opens.
#[derive(Debug, PartialEq, Eq)]
pub enum Decrypted {
    /// All that was encrypted.
    Whole { plain: Vec<u8> },
    /// What could be read before the file turned out to be damaged.
    Broken { part: Vec<u8> },
}

/// `age::Encryptor::with_user_passphrase`, what is written to its output and
/// `StreamWriter::finish` make an age file from which all of `plain` is read
/// with the passphrase, where its work factor is accepted. They fail only
/// where the output does, which memory does not. The bytes of the file depend
/// on chance, and its work factor on the speed of the machine: nothing is said
/// of them.
#[verifier::external_body]
fn age_encrypt(plain: &[u8], passphrase: &str) -> (r: Option<Vec<u8>>)
    ensures
        r is Some,
        r matches Some(sealed) ==> age_reading(sealed@, passphrase@, MOST_LIMIT) == Some(
            (plain@, true),
        ),
{
    let encryptor = age::Encryptor::with_user_passphrase(passphrase.to_string().into());
    let mut writer = encryptor.wrap_output(Vec::new()).ok()?;
    writer.write_all(plain).ok()?;
    writer.finish().ok()
}

/// `age::Decryptor::decrypt` with a `scrypt::Identity` gives a reader of the
/// age file where the passphrase opens it, and an error where it does not, or
/// where the work factor in the file is over a limit. `Identity::new` sets the
/// limit four above the factor that takes the machine about a second, for
/// which it never goes below ten. The reader gives an error where the file is
/// damaged, after what stands before the damage. Whether a file opens whose
/// work factor is between the least limit and the greatest depends on the
/// machine and is not stated.
#[verifier::external_body]
fn age_decrypt(sealed: &[u8], passphrase: &str) -> (r: Option<(Vec<u8>, bool)>)
    ensures
        match r {
            Some((read, whole)) => age_reading(sealed@, passphrase@, MOST_LIMIT) == Some(
                (read@, whole),
            ),
            None => age_reading(sealed@, passphrase@, LEAST_LIMIT) is None,
        },
{
    let identity = age::scrypt::Identity::new(passphrase.to_string().into());
    let identities = std::iter::once(&identity as &dyn age::Identity);
    let mut reader = age::Decryptor::new(sealed).ok()?.decrypt(identities).ok()?;
    let mut read = Vec::new();
    let whole = reader.read_to_end(&mut read).is_ok();
    Some((read, whole))
}

/// `sealed` is a file that `plain` was encrypted to with the phrase.
pub open spec fn encrypts(plain: Seq<u8>, phrase: Seq<char>, sealed: Seq<u8>) -> bool {
    age_reading(sealed, phrase, MOST_LIMIT) == Some((plain, true))
}

/// Encrypts `plain` with a passphrase.
pub fn encrypt(plain: &[u8], passphrase: &str) -> (r: Vec<u8>)
    ensures
        encrypts(plain@, passphrase@, r@),
{
    age_encrypt(plain, passphrase).unwrap()
}

/// `r` is what decrypting the file with the phrase can come to. What is given
/// back is what is read from the file. Nothing comes back where the phrase
/// does not open the file, and something where it opens it with no more work
/// than every machine accepts.
pub open spec fn decrypts_to(sealed: Seq<u8>, phrase: Seq<char>, r: Option<Decrypted>) -> bool {
    match r {
        Some(Decrypted::Whole { plain }) => age_reading(sealed, phrase, MOST_LIMIT) == Some(
            (plain@, true),
        ),
        Some(Decrypted::Broken { part }) => age_reading(sealed, phrase, MOST_LIMIT) == Some(
            (part@, false),
        ),
        None => age_reading(sealed, phrase, LEAST_LIMIT) is None,
    }
}

/// What came of decrypting a file that was opened and of which `read` was
/// read, all of it or not.
pub fn opened(read: Vec<u8>, whole: bool) -> (r: Decrypted)
    ensures
        r == (if whole {
            Decrypted::Whole { plain: read }
        } else {
            Decrypted::Broken { part: read }
        }),
{
    if whole {
        Decrypted::Whole { plain: read }
    } else {
        Decrypted::Broken { part: read }
    }
}

/// Decrypts `sealed` with a passphrase, if it opens with it.
pub fn decrypt(sealed: &[u8], passphrase: &str) -> (r: Option<Decrypted>)
    ensures
        decrypts_to(sealed@, passphrase@, r),
{
    match age_decrypt(sealed, passphrase) {
        Some((read, whole)) => Some(opened(read, whole)),
        None => None,
    }
}

/// What is written to the target after a phrase was tried, if anything, and
/// whether that is all of the file.
pub open spec fn unlocking(r: Option<Decrypted>) -> (Option<Vec<u8>>, bool) {
    match r {
        Some(Decrypted::Whole { plain }) => (Some(plain), true),
        Some(Decrypted::Broken { part }) => (Some(part), false),
        None => (None, false),
    }
}

/// What is to be written to the target after a phrase was tried, if anything,
/// and whether that is all of the file.
pub fn unlocked(r: Option<Decrypted>) -> (out: (Option<Vec<u8>>, bool))
    ensures
        out == unlocking(r),
{
    match r {
        Some(Decrypted::Whole { plain }) => (Some(plain), true),
        Some(Decrypted::Broken { part }) => (Some(part), false),
        None => (None, false),
    }
}

/// A file that was encrypted with a phrase decrypts with it to all of what it
/// was made of, or not at all; and not at all only where it takes more work
/// than every machine accepts.
pub proof fn law_decrypting_undoes_encrypting(
    plain: Seq<u8>,
    phrase: Seq<char>,
    sealed: Seq<u8>,
    r: Option<Decrypted>,
)
    requires
        encrypts(plain, phrase, sealed),
        decrypts_to(sealed, phrase, r),
    ensures
        r matches Some(decrypted) ==> (decrypted matches Decrypted::Whole { plain: read } && read@
            == plain),
        age_reading(sealed, phrase, LEAST_LIMIT) is Some ==> r is Some,
{
}

/// Of a file that was encrypted with a phrase, trying that phrase writes all
/// of what it was made of and counts as opened, or writes nothing and does
/// not.
pub proof fn law_opened_file_is_complete(
    plain: Seq<u8>,
    phrase: Seq<char>,
    sealed: Seq<u8>,
    r: Option<Decrypted>,
)
    requires
        encrypts(plain, phrase, sealed),
        decrypts_to(sealed, phrase, r),
    ensures
        match unlocking(r) {
            (Some(bytes), complete) => complete && bytes@ == plain,
            (None, complete) => !complete,
        },
{
    law_decrypting_undoes_encrypting(plain, phrase, sealed, r);
}

/// A word of letters holds no space.
proof fn lemma_word_holds_no_space(word: Seq<char>)
    requires
        is_word(word),
    ensures
        !word.contains(' '),
{
    assert forall|i: int| 0 <= i < word.len() implies word[i] != ' ' by {}
}

/// Words with spaces between them are split into those words.
proof fn lemma_split_spaced(words: Seq<Seq<char>>)
    requires
        words.len() > 0,
        forall|i: int| 0 <= i < words.len() ==> is_word(#[trigger] words[i]),
    ensures
        text::split(spaced(words), ' ') == words,
    decreases words.len(),
{
    reveal_strlit(" ");
    let last = words.last();
    lemma_word_holds_no_space(last);
    text::law_splitting_one_part(last, ' ');
    if words.len() == 1 {
        assert(seq![last] =~= words);
    } else {
        let before = words.drop_last();
        lemma_split_spaced(before);
        assert(" "@ =~= seq![' ']);
        text::law_splitting_a_join(spaced(before), ' ', last);
        assert(before + seq![last] =~= words);
    }
}

/// A new phrase is twelve words with single spaces between them, each a word
/// of the English list in lower case letters.
pub proof fn law_phrase_is_twelve_words(r: String)
    requires
        call_ensures(new_phrase, (), r),
    ensures
        text::split(r@, ' ').len() == 12,
        forall|i: int|
            0 <= i < 12 ==> {
                let word = #[trigger] text::split(r@, ' ')[i];
                &&& word.len() > 0
                &&& forall|k: int| 0 <= k < word.len() ==> 'a' <= #[trigger] word[k] <= 'z'
                &&& exists|k: int| 0 <= k < 2048 && word == #[trigger] english_word(k)
            },
{
    lemma_phrase_words(r@, 12);
}

/// A phrase is split into words of the list.
pub proof fn lemma_phrase_words(s: Seq<char>, count: nat)
    requires
        is_phrase(s, count),
        count > 0,
    ensures
        text::split(s, ' ').len() == count,
        forall|i: int|
            0 <= i < count ==> {
                let word = #[trigger] text::split(s, ' ')[i];
                &&& word.len() > 0
                &&& forall|k: int| 0 <= k < word.len() ==> 'a' <= #[trigger] word[k] <= 'z'
                &&& exists|k: int| 0 <= k < 2048 && word == #[trigger] english_word(k)
            },
{
    let list = english_list();
    let words = choose|words: Seq<Seq<char>>|
        words.len() == count && #[trigger] phrase_of(s, words, list);
    assert forall|i: int| 0 <= i < words.len() implies is_word(#[trigger] words[i]) by {}
    lemma_split_spaced(words);
    assert forall|i: int| 0 <= i < count implies {
        let word = #[trigger] text::split(s, ' ')[i];
        &&& word.len() > 0
        &&& forall|k: int| 0 <= k < word.len() ==> 'a' <= #[trigger] word[k] <= 'z'
        &&& exists|k: int| 0 <= k < 2048 && word == #[trigger] english_word(k)
    } by {
        let word = words[i];
        assert(is_word(word) && list.contains(word));
        let k = choose|k: int| 0 <= k < list.len() && list[k] == word;
        assert(list[k] == english_word(k));
    }
}

/// What is written to the target after a phrase was tried is what is read
/// from the file with it, and it counts as all of the file exactly where it
/// is; nothing is written where the phrase does not open the file.
pub proof fn law_what_is_read_is_written(
    sealed: &[u8],
    phrase: &str,
    r: Option<Decrypted>,
    out: (Option<Vec<u8>>, bool),
)
    requires
        call_ensures(decrypt, (sealed, phrase), r),
        call_ensures(unlocked, (r,), out),
    ensures
        match out {
            (Some(bytes), complete) => age_reading(sealed@, phrase@, 255) == Some(
                (bytes@, complete),
            ),
            (None, complete) => !complete && age_reading(sealed@, phrase@, 14) is None,
        },
{
}

/// A file that is encrypted and then tried with the phrase that it was
/// encrypted with comes back whole and counts as opened, or nothing comes
/// back and it does not; and it comes back where it takes no more work than
/// every machine accepts.
pub proof fn law_encrypted_file_comes_back(
    plain: &[u8],
    phrase: &str,
    made: Vec<u8>,
    sealed: &[u8],
    r: Option<Decrypted>,
    out: (Option<Vec<u8>>, bool),
)
    requires
        call_ensures(encrypt, (plain, phrase), made),
        sealed@ == made@,
        call_ensures(decrypt, (sealed, phrase), r),
        call_ensures(unlocked, (r,), out),
    ensures
        match out {
            (Some(bytes), complete) => complete && bytes@ == plain@,
            (None, complete) => !complete,
        },
        age_reading(sealed@, phrase@, 14) is Some ==> out.1,
{
}

/// What was read of a file is written as it is, and counts as all of it
/// exactly where it is.
pub proof fn law_read_bytes_are_written(
    read: Vec<u8>,
    whole: bool,
    decrypted: Decrypted,
    out: (Option<Vec<u8>>, bool),
    nothing: (Option<Vec<u8>>, bool),
)
    requires
        call_ensures(opened, (read, whole), decrypted),
        call_ensures(unlocked, (Some(decrypted),), out),
        call_ensures(unlocked, (None,), nothing),
    ensures
        out.0 == Some(read) && out.1 == whole,
        nothing.0 is None && !nothing.1,
{
}

} // verus!
