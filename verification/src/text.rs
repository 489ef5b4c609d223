//! Text as sequences of characters: searching, trimming, splitting and
//! writing numbers.

use vstd::prelude::*;
use vstd::string::*;

verus! {

/// `String::push` puts one character behind the text.
pub assume_specification[ String::push ](s: &mut String, c: char)
    ensures
        final(s)@ == old(s)@.push(c),
;

/// `char::is_whitespace` tells whether a character has the Unicode property
/// `White_Space`; the ranges below are the characters that have it.
pub assume_specification[ char::is_whitespace ](c: char) -> (r: bool)
    ensures
        r == white_space(c),
;

/// `char::is_ascii_alphanumeric` tells whether a character is an ASCII letter
/// or digit.
pub assume_specification[ char::is_ascii_alphanumeric ](c: &char) -> (r: bool)
    ensures
        r == ascii_alphanumeric(*c),
;

/// The characters with the Unicode property `White_Space`.
pub open spec fn white_space(c: char) -> bool {
    ||| 0x09 <= c as u32 <= 0x0d
    ||| c as u32 == 0x20
    ||| c as u32 == 0x85
    ||| c as u32 == 0xa0
    ||| c as u32 == 0x1680
    ||| 0x2000 <= c as u32 <= 0x200a
    ||| c as u32 == 0x2028
    ||| c as u32 == 0x2029
    ||| c as u32 == 0x202f
    ||| c as u32 == 0x205f
    ||| c as u32 == 0x3000
}

/// The letters and digits of ASCII.
pub open spec fn ascii_alphanumeric(c: char) -> bool {
    'a' <= c <= 'z' || 'A' <= c <= 'Z' || '0' <= c <= '9'
}

/// A class of characters to look for.
#[derive(Clone, Copy)]
pub enum CharClass {
    /// One character.
    Only(char),
    /// Every character but one.
    AllBut(char),
    /// White space.
    White,
    /// ASCII letters and digits.
    AsciiAlphanumeric,
}

impl CharClass {
    /// Whether the class holds `c`.
    pub open spec fn holds(self, c: char) -> bool {
        match self {
            CharClass::Only(d) => c == d,
            CharClass::AllBut(d) => c != d,
            CharClass::White => white_space(c),
            CharClass::AsciiAlphanumeric => ascii_alphanumeric(c),
        }
    }

    /// Tests whether the class holds `c`.
    pub fn has(self, c: char) -> (r: bool)
        ensures
            r == self.holds(c),
    {
        match self {
            CharClass::Only(d) => c == d,
            CharClass::AllBut(d) => c != d,
            CharClass::White => c.is_whitespace(),
            CharClass::AsciiAlphanumeric => c.is_ascii_alphanumeric(),
        }
    }
}

/// The characters of an optional text.
pub open spec fn chars_if_any(s: Option<String>) -> Option<Seq<char>> {
    match s {
        Some(s) => Some(s@),
        None => None,
    }
}

/// `s`, or `other` where there is none.
pub open spec fn text_or(s: Option<Seq<char>>, other: Seq<char>) -> Seq<char> {
    match s {
        Some(s) => s,
        None => other,
    }
}

/// The characters of `s`.
pub fn chars_of(s: &str) -> (r: Vec<char>)
    ensures
        r@ == s@,
{
    let mut r: Vec<char> = Vec::new();
    for c in it: s.chars()
        invariant
            it.seq() == s@,
            r@ == s@.take(it.index() as int),
    {
        r.push(c);
    }
    r
}

/// The text made of the characters `chars[from..to]`.
pub fn string_of(chars: &[char], from: usize, to: usize) -> (r: String)
    requires
        from <= to <= chars@.len(),
    ensures
        r@ == chars@.subrange(from as int, to as int),
{
    let mut r = String::new();
    let mut i: usize = from;
    while i < to
        invariant
            from <= i <= to <= chars@.len(),
            r@ == chars@.subrange(from as int, i as int),
        decreases to - i,
    {
        r.push(chars[i]);
        i += 1;
    }
    r
}

/// `pattern` stands in `s` at `i`.
pub open spec fn occurs_at(s: Seq<char>, pattern: Seq<char>, i: int) -> bool {
    0 <= i && i + pattern.len() <= s.len() && s.subrange(i, i + pattern.len()) == pattern
}

/// `i` is the first place of `pattern` in `s`.
pub open spec fn first_at(s: Seq<char>, pattern: Seq<char>, i: int) -> bool {
    occurs_at(s, pattern, i) && forall|j: int| #[trigger] occurs_at(s, pattern, j) ==> i <= j
}

/// `i` is the last place of `pattern` in `s`.
pub open spec fn last_at(s: Seq<char>, pattern: Seq<char>, i: int) -> bool {
    occurs_at(s, pattern, i) && forall|j: int| #[trigger] occurs_at(s, pattern, j) ==> j <= i
}

/// The first place of `pattern` in `s`, if there is one.
pub open spec fn first_place(s: Seq<char>, pattern: Seq<char>) -> Option<int> {
    if exists|i: int| first_at(s, pattern, i) {
        Some(choose|i: int| first_at(s, pattern, i))
    } else {
        None
    }
}

/// The last place of `pattern` in `s`, if there is one.
pub open spec fn last_place(s: Seq<char>, pattern: Seq<char>) -> Option<int> {
    if exists|i: int| last_at(s, pattern, i) {
        Some(choose|i: int| last_at(s, pattern, i))
    } else {
        None
    }
}

/// Tests whether `pattern` stands in `s` at `i`.
pub fn matches_at(s: &[char], pattern: &[char], i: usize) -> (r: bool)
    ensures
        r == occurs_at(s@, pattern@, i as int),
{
    if i > s.len() || pattern.len() > s.len() - i {
        return false;
    }
    let end: usize = s.len();
    let mut k: usize = 0;
    while k < pattern.len()
        invariant
            k <= pattern@.len(),
            i + pattern@.len() <= end == s@.len(),
            forall|j: int| 0 <= j < k ==> s@[i + j] == pattern@[j],
        decreases pattern@.len() - k,
    {
        if s[i + k] != pattern[k] {
            assert(s@.subrange(i as int, i + pattern@.len())[k as int] != pattern@[k as int]);
            return false;
        }
        k += 1;
    }
    assert(s@.subrange(i as int, i + pattern@.len()) =~= pattern@);
    true
}

/// Finds the first place of `pattern` in `s`.
pub fn find(s: &[char], pattern: &[char]) -> (r: Option<usize>)
    ensures
        match r {
            Some(i) => first_place(s@, pattern@) == Some(i as int) && occurs_at(
                s@,
                pattern@,
                i as int,
            ) && i + pattern@.len() <= usize::MAX,
            None => first_place(s@, pattern@) is None,
        },
{
    let end: usize = s.len();
    let mut i: usize = 0;
    while i < end
        invariant
            i <= end == s@.len(),
            forall|j: int| 0 <= j < i ==> !occurs_at(s@, pattern@, j),
        decreases s@.len() - i,
    {
        if matches_at(s, pattern, i) {
            assert(first_at(s@, pattern@, i as int));
            return Some(i);
        }
        i += 1;
    }
    if matches_at(s, pattern, i) {
        assert(first_at(s@, pattern@, i as int));
        return Some(i);
    }
    None
}

/// Finds the last place of `pattern` in `s`.
pub fn rfind(s: &[char], pattern: &[char]) -> (r: Option<usize>)
    ensures
        match r {
            Some(i) => last_place(s@, pattern@) == Some(i as int) && occurs_at(
                s@,
                pattern@,
                i as int,
            ) && i + pattern@.len() <= usize::MAX,
            None => last_place(s@, pattern@) is None,
        },
{
    let end: usize = s.len();
    let mut i: usize = end;
    while i > 0
        invariant
            i <= end == s@.len(),
            forall|j: int| i < j ==> !occurs_at(s@, pattern@, j),
        decreases i,
    {
        if matches_at(s, pattern, i) {
            assert(last_at(s@, pattern@, i as int));
            return Some(i);
        }
        i -= 1;
    }
    if matches_at(s, pattern, i) {
        assert(last_at(s@, pattern@, i as int));
        return Some(i);
    }
    None
}

/// How many characters at the start of `s` are of the class.
pub open spec fn lead(s: Seq<char>, class: CharClass) -> nat
    decreases s.len(),
{
    if s.len() > 0 && class.holds(s[0]) {
        1 + lead(s.skip(1), class)
    } else {
        0
    }
}

/// How many characters at the end of `s` are of the class.
pub open spec fn trail(s: Seq<char>, class: CharClass) -> nat
    decreases s.len(),
{
    if s.len() > 0 && class.holds(s.last()) {
        1 + trail(s.drop_last(), class)
    } else {
        0
    }
}

/// `s` without the characters of the class at its end.
pub open spec fn trim_end(s: Seq<char>, class: CharClass) -> Seq<char> {
    s.take(s.len() - trail(s, class))
}

/// `s` without the characters of the class at its two ends.
pub open spec fn trim(s: Seq<char>, class: CharClass) -> Seq<char> {
    trim_end(s.skip(lead(s, class) as int), class)
}

/// `lead` is the length of the longest start of `s` that is of the class.
pub proof fn lemma_lead(s: Seq<char>, class: CharClass, n: nat)
    requires
        n <= s.len(),
        forall|i: int| 0 <= i < n ==> class.holds(#[trigger] s[i]),
        n < s.len() ==> !class.holds(s[n as int]),
    ensures
        lead(s, class) == n,
    decreases n,
{
    if n > 0 {
        assert forall|i: int| 0 <= i < n - 1 implies class.holds(#[trigger] s.skip(1)[i]) by {
            assert(s.skip(1)[i] == s[i + 1]);
        }
        lemma_lead(s.skip(1), class, (n - 1) as nat);
    }
}

/// `trail` is the length of the longest end of `s` that is of the class.
pub proof fn lemma_trail(s: Seq<char>, class: CharClass, n: nat)
    requires
        n <= s.len(),
        forall|i: int| s.len() - n <= i < s.len() ==> class.holds(#[trigger] s[i]),
        n < s.len() ==> !class.holds(s[s.len() - n - 1]),
    ensures
        trail(s, class) == n,
    decreases n,
{
    if n > 0 {
        assert forall|i: int| s.len() - n <= i < s.len() - 1 implies class.holds(
            #[trigger] s.drop_last()[i],
        ) by {
            assert(s.drop_last()[i] == s[i]);
        }
        lemma_trail(s.drop_last(), class, (n - 1) as nat);
    }
}

/// What `lead` counts is of the class, and what follows it is not.
pub proof fn lemma_lead_is(s: Seq<char>, class: CharClass)
    ensures
        0 <= lead(s, class) <= s.len(),
        forall|i: int| 0 <= i < lead(s, class) ==> class.holds(#[trigger] s[i]),
        lead(s, class) < s.len() ==> !class.holds(s[lead(s, class) as int]),
    decreases s.len(),
{
    if s.len() > 0 && class.holds(s[0]) {
        lemma_lead_is(s.skip(1), class);
        assert forall|i: int| 0 <= i < lead(s, class) implies class.holds(#[trigger] s[i]) by {
            if i > 0 {
                assert(s[i] == s.skip(1)[i - 1]);
            }
        }
    }
}

/// What `trail` counts is of the class, and what precedes it is not.
pub proof fn lemma_trail_is(s: Seq<char>, class: CharClass)
    ensures
        trail(s, class) <= s.len(),
        forall|i: int| s.len() - trail(s, class) <= i < s.len() ==> class.holds(#[trigger] s[i]),
        trail(s, class) < s.len() ==> !class.holds(s[s.len() - trail(s, class) - 1]),
    decreases s.len(),
{
    if s.len() > 0 && class.holds(s.last()) {
        lemma_trail_is(s.drop_last(), class);
        assert forall|i: int| s.len() - trail(s, class) <= i < s.len() implies class.holds(
            #[trigger] s[i],
        ) by {
            if i < s.len() - 1 {
                assert(s[i] == s.drop_last()[i]);
            }
        }
    }
}

/// Counts the characters of the class from `from` on, up to the first that is
/// not of it.
pub fn lead_from(s: &[char], from: usize, class: CharClass) -> (r: usize)
    requires
        from <= s@.len(),
    ensures
        r == lead(s@.skip(from as int), class),
        from + r <= s@.len(),
{
    let mut n: usize = 0;
    while n < s.len() - from && class.has(s[from + n])
        invariant
            from + n <= s@.len(),
            forall|i: int| 0 <= i < n ==> class.holds(#[trigger] s@.skip(from as int)[i]),
        decreases s@.len() - from - n,
    {
        assert(s@.skip(from as int)[n as int] == s@[from + n]);
        n += 1;
    }
    proof {
        if from + n < s@.len() {
            assert(s@.skip(from as int)[n as int] == s@[from + n]);
        }
        lemma_lead(s@.skip(from as int), class, n as nat);
    }
    n
}

/// Counts the characters of the class at the end of `s[from..]`.
pub fn trail_from(s: &[char], from: usize, class: CharClass) -> (r: usize)
    requires
        from <= s@.len(),
    ensures
        r == trail(s@.skip(from as int), class),
        from + r <= s@.len(),
{
    let ghost rest = s@.skip(from as int);
    let mut n: usize = 0;
    while n < s.len() - from && class.has(s[s.len() - 1 - n])
        invariant
            from + n <= s@.len(),
            rest == s@.skip(from as int),
            forall|i: int| rest.len() - n <= i < rest.len() ==> class.holds(#[trigger] rest[i]),
        decreases s@.len() - from - n,
    {
        assert(rest[rest.len() - 1 - n] == s@[s@.len() - 1 - n]);
        n += 1;
    }
    proof {
        if from + n < s@.len() {
            assert(rest[rest.len() - 1 - n] == s@[s@.len() - 1 - n]);
        }
        lemma_trail(rest, class, n as nat);
    }
    n
}

/// `s[from..]` without the characters of the class at its two ends.
pub fn trimmed(s: &[char], from: usize, class: CharClass) -> (r: String)
    requires
        from <= s@.len(),
    ensures
        r@ == trim(s@.skip(from as int), class),
{
    let end: usize = s.len();
    let skip: usize = from + lead_from(s, from, class);
    let keep: usize = end - trail_from(s, skip, class);
    assert(s@.skip(from as int).skip(skip - from) =~= s@.skip(skip as int));
    assert(s@.subrange(skip as int, keep as int) =~= s@.skip(skip as int).take(keep - skip));
    string_of(s, skip, keep)
}

/// `s` without the characters of the class at its end.
pub fn trimmed_end(s: &str, class: CharClass) -> (r: String)
    ensures
        r@ == trim_end(s@, class),
{
    let chars = chars_of(s);
    let keep: usize = chars.len() - trail_from(&chars, 0, class);
    assert(chars@.skip(0) =~= chars@);
    assert(chars@.subrange(0, keep as int) =~= chars@.take(keep as int));
    string_of(&chars, 0, keep)
}

/// The parts of `s` between the occurrences of `sep`, in order.
pub open spec fn split(s: Seq<char>, sep: char) -> Seq<Seq<char>>
    decreases s.len(),
{
    let n = lead(s, CharClass::AllBut(sep));
    if n < s.len() {
        proof {
            lemma_lead_is(s, CharClass::AllBut(sep));
        }
        seq![s.take(n as int)] + split(s.skip(n as int + 1), sep)
    } else {
        seq![s]
    }
}

/// A part of a split text is a stretch of it that does not hold the
/// separator.
pub proof fn lemma_split_part(s: Seq<char>, sep: char, k: int)
    requires
        0 <= k < split(s, sep).len(),
    ensures
        !split(s, sep)[k].contains(sep),
        exists|i: int| occurs_at(s, split(s, sep)[k], i),
    decreases s.len(),
{
    let class = CharClass::AllBut(sep);
    lemma_lead_is(s, class);
    let n = lead(s, class) as int;
    if k == 0 {
        let part = s.take(n);
        assert(split(s, sep)[0] =~= part);
        assert forall|i: int| 0 <= i < part.len() implies part[i] != sep by {
            assert(class.holds(s[i]));
        }
        assert(s.subrange(0, part.len() as int) =~= part);
        assert(occurs_at(s, part, 0));
    } else {
        let rest = s.skip(n + 1);
        lemma_split_part(rest, sep, k - 1);
        let part = split(rest, sep)[k - 1];
        let i = choose|i: int| occurs_at(rest, part, i);
        assert(s.subrange(n + 1 + i, n + 1 + i + part.len()) =~= rest.subrange(
            i,
            i + part.len(),
        ));
        assert(occurs_at(s, part, n + 1 + i));
    }
}

/// Splits `s` at each occurrence of `sep`.
pub fn split_at_each(s: &[char], sep: char) -> (r: Vec<String>)
    ensures
        r@.len() == split(s@, sep).len(),
        forall|i: int| 0 <= i < r@.len() ==> (#[trigger] r@[i])@ == split(s@, sep)[i],
{
    let end: usize = s.len();
    let mut parts: Vec<String> = Vec::new();
    let mut from: usize = 0;
    assert(s@.skip(0) =~= s@);
    loop
        invariant_except_break
            from <= end == s@.len(),
            split(s@, sep) =~= parts@.map_values(|p: String| p@) + split(s@.skip(from as int), sep),
        ensures
            split(s@, sep) =~= parts@.map_values(|p: String| p@),
        decreases s@.len() - from,
    {
        let n: usize = lead_from(s, from, CharClass::AllBut(sep));
        let ghost before = parts@.map_values(|p: String| p@);
        let ghost rest = s@.skip(from as int);
        let part = string_of(s, from, from + n);
        assert(part@ =~= rest.take(n as int));
        parts.push(part);
        assert(parts@.map_values(|p: String| p@) =~= before.push(part@));
        if n < end - from {
            assert(s@.skip(from + n + 1) =~= rest.skip(n + 1));
            from = from + n + 1;
        } else {
            assert(part@ =~= rest);
            break;
        }
    }
    assert forall|i: int| 0 <= i < parts@.len() implies (#[trigger] parts@[i])@ == split(
        s@,
        sep,
    )[i] by {
        assert(parts@.map_values(|p: String| p@)[i] == parts@[i]@);
    }
    parts
}

/// The digit of `d`.
pub open spec fn digit(d: nat) -> char
    recommends
        d < 10,
{
    (48 + d) as char
}

/// The decimal digits of `n`, without leading zeros.
pub open spec fn decimal(n: nat) -> Seq<char>
    decreases n,
{
    if n < 10 {
        seq![digit(n)]
    } else {
        decimal(n / 10).push(digit(n % 10))
    }
}

/// Puts the decimal digits of `n` behind `out`.
pub fn push_decimal(out: &mut String, n: u128)
    ensures
        final(out)@ == old(out)@ + decimal(n as nat),
    decreases n,
{
    if n >= 10 {
        push_decimal(out, n / 10);
    }
    let d: u128 = n % 10;
    let c: char = if d == 0 {
        '0'
    } else if d == 1 {
        '1'
    } else if d == 2 {
        '2'
    } else if d == 3 {
        '3'
    } else if d == 4 {
        '4'
    } else if d == 5 {
        '5'
    } else if d == 6 {
        '6'
    } else if d == 7 {
        '7'
    } else if d == 8 {
        '8'
    } else {
        '9'
    };
    out.push(c);
}

/// Tests whether two texts are the same.
pub fn same(a: &String, b: &str) -> (r: bool)
    ensures
        r == (a@ == b@),
{
    *a == b.to_owned()
}

/// Every character of `s` is white space.
pub open spec fn all_white(s: Seq<char>) -> bool {
    forall|i: int| 0 <= i < s.len() ==> white_space(#[trigger] s[i])
}

/// Every character of `s` is `c`.
pub open spec fn all_are(s: Seq<char>, c: char) -> bool {
    forall|i: int| 0 <= i < s.len() ==> #[trigger] s[i] == c
}

/// The number that decimal digits stand for.
pub open spec fn numeral(digits: Seq<char>) -> int
    decreases digits.len(),
{
    if digits.len() == 0 {
        0
    } else {
        numeral(digits.drop_last()) * 10 + (digits.last() as int - '0' as int)
    }
}

/// The digits are the decimal numeral of `n`: they stand for it, and no zero
/// stands in front but where it is the only digit.
pub open spec fn is_numeral(digits: Seq<char>, n: nat) -> bool {
    &&& digits.len() > 0
    &&& forall|i: int| 0 <= i < digits.len() ==> '0' <= #[trigger] digits[i] <= '9'
    &&& digits.len() > 1 ==> digits[0] != '0'
    &&& numeral(digits) == n
}

/// The decimal digits of a number are its numeral.
pub proof fn law_decimal_is_the_numeral(n: nat)
    ensures
        is_numeral(decimal(n), n),
    decreases n,
{
    assert(digit(n % 10) as int == 48 + n % 10);
    if n >= 10 {
        law_decimal_is_the_numeral(n / 10);
        let before = decimal(n / 10);
        assert(decimal(n).drop_last() =~= before);
        assert(decimal(n)[0] == before[0]);
        if before.len() == 1 {
            assert(before.drop_last() =~= Seq::<char>::empty());
            assert(numeral(before.drop_last()) == 0);
            assert(numeral(before) == before[0] as int - 48);
        }
    } else {
        assert(decimal(n).drop_last() =~= Seq::<char>::empty());
        assert(numeral(decimal(n).drop_last()) == 0);
    }
}

/// What is put behind a text for a number is its numeral, and the text stays.
pub proof fn law_number_is_written(out: &mut String, n: u128)
    requires
        call_ensures(push_decimal, (out, n), ()),
    ensures
        exists|digits: Seq<char>| #[trigger]
            is_numeral(digits, n as nat) && final(out)@ == old(out)@ + digits,
{
    law_decimal_is_the_numeral(n as nat);
}

/// The parts with the separator between each two.
pub open spec fn joined(parts: Seq<Seq<char>>, sep: char) -> Seq<char>
    decreases parts.len(),
{
    if parts.len() == 0 {
        Seq::empty()
    } else if parts.len() == 1 {
        parts[0]
    } else {
        parts[0] + seq![sep] + joined(parts.skip(1), sep)
    }
}

/// Splitting is undone by joining: the parts with the separator between them
/// are the text again, and none of them holds the separator.
pub proof fn law_joining_undoes_splitting(s: Seq<char>, sep: char)
    ensures
        split(s, sep).len() > 0,
        joined(split(s, sep), sep) == s,
        forall|k: int| 0 <= k < split(s, sep).len() ==> !(#[trigger] split(s, sep)[k]).contains(sep),
    decreases s.len(),
{
    let class = CharClass::AllBut(sep);
    lemma_lead_is(s, class);
    let n = lead(s, class) as int;
    if n < s.len() {
        let rest = s.skip(n + 1);
        law_joining_undoes_splitting(rest, sep);
        assert(split(s, sep).skip(1) =~= split(rest, sep));
        assert(split(s, sep)[0] =~= s.take(n));
        assert(s =~= s.take(n) + seq![sep] + rest);
    }
    assert forall|k: int| 0 <= k < split(s, sep).len() implies !(#[trigger] split(s, sep)[k]).contains(
        sep,
    ) by {
        lemma_split_part(s, sep, k);
    }
}

/// A text that is made of two with a separator between them has the parts of
/// the one and then those of the other.
pub proof fn law_splitting_a_join(a: Seq<char>, sep: char, b: Seq<char>)
    ensures
        split(a + seq![sep] + b, sep) == split(a, sep) + split(b, sep),
    decreases a.len(),
{
    let class = CharClass::AllBut(sep);
    let s = a + seq![sep] + b;
    lemma_lead_is(a, class);
    let n = lead(a, class) as int;
    assert forall|i: int| 0 <= i < n implies class.holds(#[trigger] s[i]) by {
        assert(class.holds(a[i]));
    }
    if n < a.len() {
        assert(s[n] == a[n]);
        lemma_lead(s, class, n as nat);
        assert(s.skip(n + 1) =~= a.skip(n + 1) + seq![sep] + b);
        assert(s.take(n) =~= a.take(n));
        law_splitting_a_join(a.skip(n + 1), sep, b);
        assert(split(s, sep) =~= split(a, sep) + split(b, sep));
    } else {
        assert(s[n] == sep);
        lemma_lead(s, class, n as nat);
        assert(s.skip(n + 1) =~= b);
        assert(s.take(n) =~= a);
        assert(split(s, sep) =~= split(a, sep) + split(b, sep));
    }
}

/// A text without the separator is its only part.
pub proof fn law_splitting_one_part(s: Seq<char>, sep: char)
    requires
        !s.contains(sep),
    ensures
        split(s, sep) == seq![s],
{
    assert forall|i: int| 0 <= i < s.len() implies CharClass::AllBut(sep).holds(#[trigger] s[i]) by {
        assert(s.contains(s[i]));
    }
    lemma_lead(s, CharClass::AllBut(sep), s.len());
}

/// What is trimmed off the ends of a text is of the class, and what is left
/// is all that was between.
pub proof fn law_trimming(a: Seq<char>, middle: Seq<char>, b: Seq<char>, class: CharClass)
    requires
        forall|i: int| 0 <= i < a.len() ==> class.holds(#[trigger] a[i]),
        forall|i: int| 0 <= i < b.len() ==> class.holds(#[trigger] b[i]),
        middle.len() > 0 ==> !class.holds(middle[0]) && !class.holds(middle.last()),
    ensures
        trim(a + middle + b, class) == middle,
        trim_end(middle + b, class) == middle,
{
    let s = a + middle + b;
    let tail = middle + b;
    assert forall|i: int| tail.len() - b.len() <= i < tail.len() implies class.holds(
        #[trigger] tail[i],
    ) by {
        assert(tail[i] == b[i - middle.len()]);
    }
    lemma_trail(tail, class, b.len());
    assert(tail.take(middle.len() as int) =~= middle);
    if middle.len() > 0 {
        assert forall|i: int| 0 <= i < a.len() implies class.holds(#[trigger] s[i]) by {
            assert(s[i] == a[i]);
        }
        assert(s[a.len() as int] == middle[0]);
        lemma_lead(s, class, a.len());
        assert(s.skip(a.len() as int) =~= tail);
    } else {
        assert forall|i: int| 0 <= i < s.len() implies class.holds(#[trigger] s[i]) by {
            if i < a.len() {
                assert(s[i] == a[i]);
            } else {
                assert(s[i] == b[i - a.len()]);
            }
        }
        lemma_lead(s, class, s.len());
        assert(s.skip(s.len() as int) =~= Seq::<char>::empty());
        assert(trim(s, class) =~= middle);
    }
}

} // verus!
