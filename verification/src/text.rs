use vstd::prelude::*;

verus! {

broadcast use vstd::string::group_string_axioms;

/// Appends the characters of `tail` to `text`.
pub fn push_text(text: &mut String, tail: &str)
    ensures
        final(text)@ == old(text)@ + tail@,
{
    let chars = crate::text::chars_of(tail);
    let mut i: usize = 0;
    while i < chars.len()
        invariant
            i <= chars@.len(),
            chars@ == tail@,
            text@ == old(text)@ + tail@.take(i as int),
        decreases chars.len() - i,
    {
        text.push(chars[i]);
        proof {
            assert(tail@.take(i + 1) =~= tail@.take(i as int).push(tail@[i as int]));
        }
        i = i + 1;
    }
    proof {
        assert(tail@.take(i as int) =~= tail@);
    }
}

/// `parts` joined with `separator` between each two.
pub open spec fn joined(parts: Seq<Seq<char>>, separator: Seq<char>) -> Seq<char>
    decreases parts.len(),
{
    if parts.len() == 0 {
        seq![]
    } else if parts.len() == 1 {
        parts[0]
    } else {
        joined(parts.drop_last(), separator) + separator + parts.last()
    }
}

/// The views of `texts`.
pub open spec fn texts_view(texts: Seq<String>) -> Seq<Seq<char>> {
    texts.map_values(|text: String| text@)
}

/// `texts` joined with `separator` between each two.
pub fn join_texts(texts: &Vec<String>, separator: &str) -> (message: String)
    ensures
        message@ == joined(texts_view(texts@), separator@),
{
    let ghost parts = texts_view(texts@);
    let mut message = String::new();
    let mut i: usize = 0;
    while i < texts.len()
        invariant
            i <= texts@.len(),
            parts == texts_view(texts@),
            message@ == joined(parts.take(i as int), separator@),
        decreases texts.len() - i,
    {
        if i > 0 {
            push_text(&mut message, separator);
        }
        push_text(&mut message, texts[i].as_str());
        proof {
            assert(parts.take(i + 1).drop_last() =~= parts.take(i as int));
            if i == 0 {
                assert(parts.take(1) =~= seq![parts[0]]);
            }
        }
        i = i + 1;
    }
    proof {
        assert(parts.take(i as int) =~= parts);
    }
    message
}

/// The characters of `s`, in order.
pub fn chars_of(s: &str) -> (chars: Vec<char>)
    ensures
        chars@ == s@,
{
    let mut chars: Vec<char> = Vec::new();
    for c in it: s.chars()
        invariant
            chars@ == it.seq().take(it.index() as int),
    {
        chars.push(c);
    }
    chars
}

} // verus!

verus! {

/// The text that `chars` spells.
pub(crate) fn string_from_chars(chars: &[char]) -> (text: String)
    ensures
        text@ == chars@,
{
    let mut text = String::new();
    let mut at: usize = 0;
    while at < chars.len()
        invariant
            at <= chars@.len(),
            text@ == chars@.subrange(0, at as int),
        decreases chars@.len() - at,
    {
        text.push(chars[at]);
        at = at + 1;
        proof {
            assert(text@ =~= chars@.subrange(0, at as int));
        }
    }
    proof {
        assert(chars@.subrange(0, at as int) =~= chars@);
    }
    text
}

/// What `str::to_lowercase` gives for a text: full Unicode lowercase mapping.
pub uninterp spec fn lowercase_of(text: Seq<char>) -> Seq<char>;

/// `str::to_lowercase`.
#[verifier::external_body]
pub(crate) fn lowercase(text: &str) -> (lowered: String)
    ensures
        lowered@ == lowercase_of(text@),
{
    text.to_lowercase()
}

/// `needle` occurs in `haystack` as a contiguous run (the empty needle occurs everywhere).
pub open spec fn occurs_at(haystack: Seq<char>, needle: Seq<char>, at: int) -> bool {
    &&& 0 <= at
    &&& at + needle.len() <= haystack.len()
    &&& haystack.subrange(at, at + needle.len()) == needle
}

pub open spec fn spec_contains(haystack: Seq<char>, needle: Seq<char>) -> bool {
    exists|at: int| occurs_at(haystack, needle, at)
}

fn matches_at(haystack: &[char], needle: &[char], at: usize) -> (found: bool)
    requires
        at + needle.len() <= haystack.len(),
    ensures
        found == occurs_at(haystack@, needle@, at as int),
{
    let mut k: usize = 0;
    while k < needle.len()
        invariant
            at + needle.len() <= haystack.len(),
            k <= needle.len(),
            forall|j: int| 0 <= j < k ==> haystack@[at + j] == needle@[j],
        decreases needle.len() - k,
    {
        if haystack[at + k] != needle[k] {
            assert(haystack@.subrange(at as int, at + needle.len())[k as int] != needle@[k as int]);
            return false;
        }
        k = k + 1;
    }
    assert(haystack@.subrange(at as int, at + needle.len()) =~= needle@);
    true
}

/// Whether `needle` occurs in `haystack`.
pub fn contains_chars(haystack: &[char], needle: &[char]) -> (found: bool)
    ensures
        found == spec_contains(haystack@, needle@),
{
    if needle.len() > haystack.len() {
        return false;
    }
    let last = haystack.len() - needle.len();
    let mut at: usize = 0;
    while at <= last
        invariant
            last + needle.len() == haystack.len(),
            forall|i: int| 0 <= i < at ==> !occurs_at(haystack@, needle@, i),
        decreases last + 1 - at,
    {
        if matches_at(haystack, needle, at) {
            return true;
        }
        if at == last {
            return false;
        }
        at = at + 1;
    }
    false
}

/// The decimal digit character for `d`.
pub open spec fn digit_char(d: nat) -> char {
    if d == 0 { '0' } else if d == 1 { '1' } else if d == 2 { '2' } else if d == 3 { '3' }
    else if d == 4 { '4' } else if d == 5 { '5' } else if d == 6 { '6' } else if d == 7 { '7' }
    else if d == 8 { '8' } else { '9' }
}

/// The usual decimal notation of `n`: no sign, no leading zero.
pub open spec fn decimal(n: nat) -> Seq<char>
    decreases n,
{
    if n < 10 {
        seq![digit_char(n)]
    } else {
        decimal(n / 10).push(digit_char(n % 10))
    }
}

fn digit(d: u64) -> (c: char)
    requires
        d < 10,
    ensures
        c == digit_char(d as nat),
{
    match d {
        0 => '0',
        1 => '1',
        2 => '2',
        3 => '3',
        4 => '4',
        5 => '5',
        6 => '6',
        7 => '7',
        8 => '8',
        _ => '9',
    }
}

/// Whether `c` is one of the ASCII digits `0` to `9`.
pub open spec fn is_digit(c: char) -> bool {
    '0' as int <= c as int <= '9' as int
}

/// The value of the digit `c`.
pub open spec fn digit_value(c: char) -> nat {
    (c as int - '0' as int) as nat
}

/// The number that the digits `digits` spell, most significant first.
pub open spec fn digits_value(digits: Seq<char>) -> nat
    decreases digits.len(),
{
    if digits.len() == 0 {
        0
    } else {
        digits_value(digits.drop_last()) * 10 + digit_value(digits.last())
    }
}

/// A decimal notation as `decimal` writes it: digits only, at least one, and no leading zero
/// unless the number is zero.
pub open spec fn is_canonical_decimal(text: Seq<char>) -> bool {
    &&& text.len() > 0
    &&& forall|i: int| 0 <= i < text.len() ==> is_digit(#[trigger] text[i])
    &&& (text.len() > 1 ==> text[0] != '0')
}

proof fn lemma_digit_char(d: nat)
    requires
        d < 10,
    ensures
        is_digit(digit_char(d)),
        digit_value(digit_char(d)) == d,
        digit_char(d) == '0' <==> d == 0,
{
}

proof fn lemma_digit_of_value(c: char)
    requires
        is_digit(c),
    ensures
        digit_value(c) < 10,
        digit_char(digit_value(c)) == c,
{
}

/// `decimal` writes the canonical notation of `n`, whose digits spell `n`.
pub proof fn lemma_decimal_canonical(n: nat)
    ensures
        is_canonical_decimal(decimal(n)),
        digits_value(decimal(n)) == n,
        decimal(n).len() == 1 <==> n < 10,
    decreases n,
{
    if n < 10 {
        lemma_digit_char(n);
        assert(decimal(n).drop_last() =~= Seq::<char>::empty());
        assert(digits_value(Seq::<char>::empty()) == 0);
    } else {
        lemma_decimal_canonical(n / 10);
        lemma_digit_char(n % 10);
        let d = decimal(n);
        assert(d.drop_last() =~= decimal(n / 10));
        assert(d[0] == decimal(n / 10)[0]);
        assert forall|i: int| 0 <= i < d.len() implies is_digit(#[trigger] d[i]) by {
            if i < d.len() - 1 {
                assert(d[i] == decimal(n / 10)[i]);
            }
        }
        if n / 10 < 10 {
            assert(decimal(n / 10)[0] == digit_char(n / 10));
            lemma_digit_char(n / 10);
        }
        assert(n == (n / 10) * 10 + n % 10);
    }
}

/// Canonical digits are the notation `decimal` gives for the number they spell.
pub proof fn lemma_canonical_is_decimal(text: Seq<char>)
    requires
        is_canonical_decimal(text),
    ensures
        decimal(digits_value(text)) == text,
    decreases text.len(),
{
    let v = digits_value(text);
    let last = text.last();
    lemma_digit_of_value(last);
    if text.len() == 1 {
        assert(text.drop_last() =~= Seq::<char>::empty());
        assert(digits_value(Seq::<char>::empty()) == 0);
        assert(v == digit_value(last));
        assert(decimal(v) =~= text);
    } else {
        let rest = text.drop_last();
        assert(rest[0] == text[0]);
        assert forall|i: int| 0 <= i < rest.len() implies is_digit(#[trigger] rest[i]) by {
            assert(rest[i] == text[i]);
        }
        lemma_canonical_is_decimal(rest);
        lemma_decimal_canonical(digits_value(rest));
        if digits_value(rest) == 0 {
            assert(decimal(0) =~= seq!['0']);
            assert(rest =~= seq!['0']);
            assert(false);
        }
        vstd::arithmetic::div_mod::lemma_fundamental_div_mod_converse(
            v as int,
            10,
            digits_value(rest) as int,
            digit_value(last) as int,
        );
        assert(decimal(v) =~= decimal(digits_value(rest)).push(digit_char(digit_value(last))));
        assert(text =~= rest.push(last));
    }
}

/// Different numbers have different notations.
pub proof fn lemma_decimal_injective(a: nat, b: nat)
    requires
        decimal(a) == decimal(b),
    ensures
        a == b,
{
    lemma_decimal_canonical(a);
    lemma_decimal_canonical(b);
}

/// The value of `c` if it is an ASCII digit.
fn digit_of(c: char) -> (digit: Option<u64>)
    ensures
        match digit {
            Some(d) => is_digit(c) && d == digit_value(c) && d < 10,
            None => !is_digit(c),
        },
{
    let code = c as u32;
    if 48 <= code && code <= 57 {
        Some((code - 48) as u64)
    } else {
        None
    }
}

/// The number whose canonical decimal notation is `text`, if there is one that fits in `u64`.
pub fn parse_decimal(text: &str) -> (value: Option<u64>)
    ensures
        match value {
            Some(n) => text@ == decimal(n as nat),
            None => forall|n: u64| text@ != decimal(n as nat),
        },
{
    let chars = chars_of(text);
    if chars.len() == 0 {
        proof {
            assert forall|n: u64| text@ != decimal(n as nat) by {
                lemma_decimal_canonical(n as nat);
            }
        }
        return None;
    }
    if chars.len() > 1 && chars[0] == '0' {
        proof {
            assert forall|n: u64| text@ != decimal(n as nat) by {
                lemma_decimal_canonical(n as nat);
            }
        }
        return None;
    }
    let mut value: u64 = 0;
    let mut i: usize = 0;
    while i < chars.len()
        invariant
            chars@ == text@,
            0 < chars@.len(),
            chars@.len() > 1 ==> chars@[0] != '0',
            i <= chars@.len(),
            value == digits_value(text@.take(i as int)),
            forall|k: int| 0 <= k < i ==> is_digit(#[trigger] text@[k]),
        decreases chars.len() - i,
    {
        let c = chars[i];
        let parsed = digit_of(c);
        if parsed.is_none() {
            proof {
                assert(!is_digit(text@[i as int]));
                assert forall|n: u64| text@ != decimal(n as nat) by {
                    lemma_decimal_canonical(n as nat);
                    if text@ == decimal(n as nat) {
                        assert(is_digit(text@[i as int]));
                    }
                }
            }
            return None;
        }
        let digit = parsed.unwrap();
        proof {
            assert(text@.take(i + 1).drop_last() =~= text@.take(i as int));
            assert(text@.take(i + 1).last() == c);
        }
        if value > (u64::MAX - digit) / 10 {
            proof {
                assert(digits_value(text@.take(i + 1)) > u64::MAX) by (nonlinear_arith)
                    requires
                        value > (u64::MAX - digit) / 10,
                        digits_value(text@.take(i + 1)) == value * 10 + digit,
                        digit < 10,
                ;
                assert forall|n: u64| text@ != decimal(n as nat) by {
                    if text@ == decimal(n as nat) {
                        lemma_decimal_canonical(n as nat);
                        lemma_digits_value_prefix(text@, i + 1);
                    }
                }
            }
            return None;
        }
        value = value * 10 + digit;
        i = i + 1;
    }
    proof {
        assert(text@.take(i as int) =~= text@);
        assert(is_canonical_decimal(text@));
        lemma_canonical_is_decimal(text@);
    }
    Some(value)
}

/// The digits of a prefix spell no more than the whole.
proof fn lemma_digits_value_prefix(digits: Seq<char>, k: int)
    requires
        0 <= k <= digits.len(),
    ensures
        digits_value(digits.take(k)) <= digits_value(digits),
    decreases digits.len() - k,
{
    if k < digits.len() {
        lemma_digits_value_prefix(digits, k + 1);
        assert(digits.take(k + 1).drop_last() =~= digits.take(k));
    } else {
        assert(digits.take(k) =~= digits);
    }
}

/// The decimal notation of `n`, as characters.
pub fn decimal_chars(n: u64) -> (chars: Vec<char>)
    ensures
        chars@ == decimal(n as nat),
    decreases n,
{
    if n < 10 {
        let mut chars: Vec<char> = Vec::new();
        chars.push(digit(n));
        chars
    } else {
        let mut chars = decimal_chars(n / 10);
        chars.push(digit(n % 10));
        chars
    }
}

/// The decimal notation of `n`.
pub fn decimal_string(n: u64) -> (text: String)
    ensures
        text@ == decimal(n as nat),
{
    let chars = decimal_chars(n);
    string_from_chars(chars.as_slice())
}

} // verus!

verus! {

/// `String::push` appends one character.
pub assume_specification[ String::push ](string: &mut String, ch: char)
    ensures
        final(string)@ == old(string)@.push(ch),
;

/// `String::pop` removes and returns the last character, or returns `None` for the empty string.
pub assume_specification[ String::pop ](string: &mut String) -> (last: Option<char>)
    ensures
        old(string)@.len() == 0 ==> last is None && final(string)@ == old(string)@,
        old(string)@.len() > 0 ==> last == Some(old(string)@.last()) && final(string)@ == old(
            string,
        )@.drop_last(),
;

} // verus!
