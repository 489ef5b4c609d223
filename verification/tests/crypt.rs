use std::io::Write;

use capsule::crypt::{decrypt, encrypt, new_phrase, opened, unlocked, Decrypted, LEAST_LIMIT};

#[test]
fn phrase_is_twelve_words() {
    let phrase = new_phrase();
    let words: Vec<&str> = phrase.split(' ').collect();
    assert_eq!(words.len(), 12);
    for word in words {
        assert!(!word.is_empty());
        assert!(word.chars().all(|c| c.is_ascii_lowercase()));
    }
    assert_eq!(bip39::Mnemonic::parse_normalized(&phrase).unwrap().to_string(), phrase);
    assert_ne!(new_phrase(), phrase);
}

#[test]
fn decrypting_undoes_encrypting() {
    let plain: Vec<u8> = (0..200_000u32).map(|n| (n * 7) as u8).collect();
    let sealed = encrypt(&plain, "one two three");
    assert_ne!(sealed, plain);
    assert_eq!(&sealed[..21], &b"age-encryption.org/v1"[..]);
    assert_eq!(decrypt(&sealed, "one two three"), Some(Decrypted::Whole { plain }));
}

#[test]
fn nothing_can_be_encrypted() {
    let sealed = encrypt(&[], "p");
    assert_eq!(decrypt(&sealed, "p"), Some(Decrypted::Whole { plain: vec![] }));
}

#[test]
fn other_phrase_opens_nothing() {
    let sealed = encrypt(b"secret", "right");
    assert_eq!(decrypt(&sealed, "wrong"), None);
    assert_eq!(decrypt(b"secret", "right"), None);
    assert_eq!(decrypt(&[], "right"), None);
}

#[test]
fn damaged_file_is_read_up_to_the_damage() {
    let plain = vec![5u8; 70_000];
    let mut sealed = encrypt(&plain, "p");
    let last = sealed.len() - 1;
    sealed[last] ^= 1;
    match decrypt(&sealed, "p") {
        Some(Decrypted::Broken { part }) => {
            assert!(part.len() < plain.len());
            assert_eq!(part[..], plain[..part.len()]);
        }
        other => panic!("{other:?}"),
    }
}

#[test]
fn what_was_read_is_whole_or_broken() {
    assert_eq!(opened(vec![1, 2], true), Decrypted::Whole { plain: vec![1, 2] });
    assert_eq!(opened(vec![1, 2], false), Decrypted::Broken { part: vec![1, 2] });
}

#[test]
fn only_a_whole_file_is_unlocked() {
    let plain = vec![1, 2];
    assert_eq!(
        unlocked(Some(Decrypted::Whole { plain: plain.clone() })),
        (Some(plain.clone()), true)
    );
    assert_eq!(
        unlocked(Some(Decrypted::Broken { part: plain.clone() })),
        (Some(plain), false)
    );
    assert_eq!(unlocked(None), (None, false));
    let sealed = sealed_with_work(b"secret", "p", LEAST_LIMIT);
    assert_eq!(unlocked(decrypt(&sealed, "p")), (Some(b"secret".to_vec()), true));
    assert_eq!(unlocked(decrypt(&sealed, "q")), (None, false));
}

#[test]
fn phrase_is_the_mnemonic_of_its_entropy() {
    let phrase = new_phrase();
    let mnemonic = bip39::Mnemonic::parse_normalized(&phrase).unwrap();
    let entropy = mnemonic.to_entropy();
    assert_eq!(entropy.len(), 16);
    let english = bip39::Language::English;
    let again = bip39::Mnemonic::from_entropy_in(english, &entropy).unwrap();
    assert_eq!(again.to_string(), phrase);
    for word in phrase.split(' ') {
        assert!(english.word_list().contains(&word));
    }
}

/// An age file with the work factor in its header.
fn sealed_with_work(plain: &[u8], phrase: &str, work: u8) -> Vec<u8> {
    let mut recipient = age::scrypt::Recipient::new(phrase.to_string().into());
    recipient.set_work_factor(work);
    let recipients = std::iter::once(&recipient as &dyn age::Recipient);
    let encryptor = age::Encryptor::with_recipients(recipients).unwrap();
    let mut writer = encryptor.wrap_output(Vec::new()).unwrap();
    writer.write_all(plain).unwrap();
    writer.finish().unwrap()
}

#[test]
fn little_work_is_always_accepted() {
    for work in [1, LEAST_LIMIT] {
        let sealed = sealed_with_work(b"secret", "p", work);
        let plain = b"secret".to_vec();
        assert_eq!(decrypt(&sealed, "p"), Some(Decrypted::Whole { plain }));
        assert_eq!(decrypt(&sealed, "q"), None);
    }
}

#[test]
fn too_much_work_is_not_done() {
    let sealed = sealed_with_work(b"secret", "p", LEAST_LIMIT);
    // The work factor stands at the end of the second line.
    let end = sealed.iter().enumerate().filter(|(_, b)| **b == b'\n').nth(1).unwrap().0;
    let mut greedy = sealed[..end - 2].to_vec();
    greedy.extend_from_slice(b"255");
    greedy.extend_from_slice(&sealed[end..]);
    assert_eq!(decrypt(&greedy, "p"), None);
}

#[test]
fn part_before_the_damage_is_read() {
    let plain: Vec<u8> = (0..70_000u32).map(|n| (n * 7) as u8).collect();
    let mut sealed = sealed_with_work(&plain, "p", LEAST_LIMIT);
    let last = sealed.len() - 1;
    sealed[last] ^= 1;
    let part = plain[..65_536].to_vec();
    assert_eq!(decrypt(&sealed, "p"), Some(Decrypted::Broken { part }));
}
