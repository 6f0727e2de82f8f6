//! Text that the control logic reads and writes.

use vstd::prelude::*;
use vstd::string::{StrSliceExecFns, StringExecFns};

verus! {

/// The concatenation of two texts.
pub fn joined(head: &str, tail: &str) -> (text: String)
    ensures
        text@ == head@ + tail@,
{
    let mut text = String::from_str(head);
    text.append(tail);
    text
}

/// The character of a decimal digit.
pub open spec fn digit_char(digit: nat) -> char {
    if digit == 0 { '0' } else if digit == 1 { '1' } else if digit == 2 { '2' }
    else if digit == 3 { '3' } else if digit == 4 { '4' } else if digit == 5 { '5' }
    else if digit == 6 { '6' } else if digit == 7 { '7' } else if digit == 8 { '8' }
    else { '9' }
}

/// The decimal digits of a number, without leading zeros.
pub open spec fn decimal(number: nat) -> Seq<char>
    decreases number,
{
    if number < 10 {
        seq![digit_char(number)]
    } else {
        decimal(number / 10).push(digit_char(number % 10))
    }
}

/// The decimal digits of a number, with a minus sign in front where it is negative.
pub open spec fn signed_decimal(number: int) -> Seq<char> {
    if number < 0 {
        seq!['-'] + decimal((-number) as nat)
    } else {
        decimal(number as nat)
    }
}

fn digit_text(digit: u64) -> (text: &'static str)
    requires
        digit < 10,
    ensures
        text@ == seq![digit_char(digit as nat)],
{
    proof {
        reveal_strlit("0");
        reveal_strlit("1");
        reveal_strlit("2");
        reveal_strlit("3");
        reveal_strlit("4");
        reveal_strlit("5");
        reveal_strlit("6");
        reveal_strlit("7");
        reveal_strlit("8");
        reveal_strlit("9");
    }
    let text = match digit {
        0 => "0",
        1 => "1",
        2 => "2",
        3 => "3",
        4 => "4",
        5 => "5",
        6 => "6",
        7 => "7",
        8 => "8",
        _ => "9",
    };
    assert(text@ =~= seq![digit_char(digit as nat)]);
    text
}

/// Appends the decimal digits of `number` to `text`.
pub fn append_decimal(text: &mut String, number: u64)
    ensures
        final(text)@ == old(text)@ + decimal(number as nat),
    decreases number,
{
    let ghost before = text@;
    if number >= 10 {
        append_decimal(text, number / 10);
    }
    text.append(digit_text(number % 10));
    assert(text@ =~= before + decimal(number as nat));
}

/// Appends `number` to `text`, with its sign where it is negative.
pub fn append_signed(text: &mut String, number: i32)
    ensures
        final(text)@ == old(text)@ + signed_decimal(number as int),
{
    let ghost before = text@;
    if number < 0 {
        proof {
            reveal_strlit("-");
        }
        text.append("-");
        append_decimal(text, (-(number as i64)) as u64);
        assert("-"@ =~= seq!['-']);
        assert(text@ =~= before + signed_decimal(number as int));
    } else {
        append_decimal(text, number as u64);
    }
}

/// Unicode's White_Space property.
pub open spec fn is_white_space(c: char) -> bool {
    let code = c as u32;
    ||| 0x9 <= code <= 0xd
    ||| code == 0x20
    ||| code == 0x85
    ||| code == 0xa0
    ||| code == 0x1680
    ||| 0x2000 <= code <= 0x200a
    ||| code == 0x2028
    ||| code == 0x2029
    ||| code == 0x202f
    ||| code == 0x205f
    ||| code == 0x3000
}

fn white_space(c: char) -> (white: bool)
    ensures
        white == is_white_space(c),
{
    let code: u32 = c as u32;
    (0x9 <= code && code <= 0xd) || code == 0x20 || code == 0x85 || code == 0xa0 || code == 0x1680
        || (0x2000 <= code && code <= 0x200a) || code == 0x2028 || code == 0x2029 || code == 0x202f
        || code == 0x205f || code == 0x3000
}

/// The text without the white space at its start.
pub open spec fn trimmed_start(text: Seq<char>) -> Seq<char>
    decreases text.len(),
{
    if text.len() > 0 && is_white_space(text.first()) {
        trimmed_start(text.drop_first())
    } else {
        text
    }
}

/// The text without the white space at its end.
pub open spec fn trimmed_end(text: Seq<char>) -> Seq<char>
    decreases text.len(),
{
    if text.len() > 0 && is_white_space(text.last()) {
        trimmed_end(text.drop_last())
    } else {
        text
    }
}

/// The text without the white space at either end.
pub open spec fn trimmed(text: Seq<char>) -> Seq<char> {
    trimmed_end(trimmed_start(text))
}

/// Cuts the white space off both ends of `text`.
pub fn trim(text: &str) -> (rest: &str)
    ensures
        rest@ == trimmed(text@),
{
    let mut end: usize = text.unicode_len();
    let mut start: usize = 0;
    assert(text@.skip(0) =~= text@);
    while start < end && white_space(text.get_char(start))
        invariant
            start <= end == text@.len(),
            trimmed_start(text@) == trimmed_start(text@.skip(start as int)),
        decreases end - start,
    {
        assert(text@.skip(start as int).drop_first() =~= text@.skip(start + 1));
        start = start + 1;
    }
    assert(trimmed_start(text@) == text@.subrange(start as int, end as int)) by {
        assert(text@.skip(start as int) =~= text@.subrange(start as int, end as int));
    }
    while start < end && white_space(text.get_char(end - 1))
        invariant
            start <= end <= text@.len(),
            trimmed(text@) == trimmed_end(text@.subrange(start as int, end as int)),
        decreases end - start,
    {
        assert(text@.subrange(start as int, end as int).drop_last() =~= text@.subrange(
            start as int,
            end - 1,
        ));
        end = end - 1;
    }
    text.substring_char(start, end)
}

/// The code of a character, an ASCII capital taken as its small letter.
pub open spec fn ascii_folded(c: char) -> u32 {
    let code = c as u32;
    if 0x41 <= code <= 0x5a {
        (code + 0x20) as u32
    } else {
        code
    }
}

fn fold_ascii(c: char) -> (code: u32)
    ensures
        code == ascii_folded(c),
{
    let code: u32 = c as u32;
    if 0x41 <= code && code <= 0x5a {
        code + 0x20
    } else {
        code
    }
}

/// Whether two texts are equal once ASCII capitals are taken as small letters.
pub open spec fn equal_ignoring_ascii_case(a: Seq<char>, b: Seq<char>) -> bool {
    &&& a.len() == b.len()
    &&& forall|i: int| 0 <= i < a.len() ==> #[trigger] ascii_folded(a[i]) == ascii_folded(b[i])
}

pub fn eq_ignore_ascii_case(a: &str, b: &str) -> (equal: bool)
    ensures
        equal == equal_ignoring_ascii_case(a@, b@),
{
    let len: usize = a.unicode_len();
    if len != b.unicode_len() {
        return false;
    }
    let mut i: usize = 0;
    while i < len
        invariant
            i <= len == a@.len() == b@.len(),
            forall|j: int| 0 <= j < i ==> #[trigger] ascii_folded(a@[j]) == ascii_folded(b@[j]),
        decreases len - i,
    {
        if fold_ascii(a.get_char(i)) != fold_ascii(b.get_char(i)) {
            assert(ascii_folded(a@[i as int]) != ascii_folded(b@[i as int]));
            return false;
        }
        i = i + 1;
    }
    true
}

/// Whether two texts are the same.
pub fn same_text(a: &str, b: &str) -> (same: bool)
    ensures
        same == (a@ == b@),
{
    String::from_str(a) == String::from_str(b)
}

/// The white space that is cut off is Unicode's: tab, line feed, the two tabulations after
/// it, carriage return and space; the next line and the no-break space; and the spaces and
/// separators of the higher planes. Nothing else is.
pub proof fn law_white_space_is_unicodes(c: char)
    ensures
        is_white_space(c) <==> seq![
            0x9int, 0xa, 0xb, 0xc, 0xd, 0x20, 0x85, 0xa0, 0x1680, 0x2000, 0x2001, 0x2002, 0x2003,
            0x2004, 0x2005, 0x2006, 0x2007, 0x2008, 0x2009, 0x200a, 0x2028, 0x2029, 0x202f, 0x205f,
            0x3000,
        ].contains(c as int),
{
    let codes = seq![
        0x9int, 0xa, 0xb, 0xc, 0xd, 0x20, 0x85, 0xa0, 0x1680, 0x2000, 0x2001, 0x2002, 0x2003,
        0x2004, 0x2005, 0x2006, 0x2007, 0x2008, 0x2009, 0x200a, 0x2028, 0x2029, 0x202f, 0x205f,
        0x3000,
    ];
    assert(codes[0] == 0x9 && codes[1] == 0xa && codes[2] == 0xb && codes[3] == 0xc && codes[4]
        == 0xd);
    assert(codes[5] == 0x20 && codes[6] == 0x85 && codes[7] == 0xa0 && codes[8] == 0x1680);
    assert(codes[9] == 0x2000 && codes[10] == 0x2001 && codes[11] == 0x2002 && codes[12] == 0x2003);
    assert(codes[13] == 0x2004 && codes[14] == 0x2005 && codes[15] == 0x2006 && codes[16]
        == 0x2007);
    assert(codes[17] == 0x2008 && codes[18] == 0x2009 && codes[19] == 0x200a && codes[20]
        == 0x2028);
    assert(codes[21] == 0x2029 && codes[22] == 0x202f && codes[23] == 0x205f && codes[24]
        == 0x3000);
}

/// Whether a text is white space throughout.
pub open spec fn all_white(text: Seq<char>) -> bool {
    forall|i: int| 0 <= i < text.len() ==> is_white_space(#[trigger] text[i])
}

proof fn lemma_trimmed_start_cuts_white_space(text: Seq<char>) -> (lead: Seq<char>)
    ensures
        text == lead + trimmed_start(text),
        all_white(lead),
        trimmed_start(text).len() > 0 ==> !is_white_space(trimmed_start(text).first()),
    decreases text.len(),
{
    if text.len() > 0 && is_white_space(text.first()) {
        let rest = lemma_trimmed_start_cuts_white_space(text.drop_first());
        let lead = seq![text.first()] + rest;
        assert(text =~= seq![text.first()] + text.drop_first());
        assert(text =~= lead + trimmed_start(text));
        assert forall|i: int| 0 <= i < lead.len() implies is_white_space(#[trigger] lead[i]) by {
            if i > 0 {
                assert(lead[i] == rest[i - 1]);
            }
        }
        lead
    } else {
        assert(text =~= Seq::<char>::empty() + trimmed_start(text));
        Seq::empty()
    }
}

proof fn lemma_trimmed_end_cuts_white_space(text: Seq<char>) -> (trail: Seq<char>)
    ensures
        text == trimmed_end(text) + trail,
        all_white(trail),
        trimmed_end(text).len() > 0 ==> !is_white_space(trimmed_end(text).last()),
        trimmed_end(text).len() > 0 ==> trimmed_end(text).first() == text.first(),
    decreases text.len(),
{
    if text.len() > 0 && is_white_space(text.last()) {
        let rest = lemma_trimmed_end_cuts_white_space(text.drop_last());
        let trail = rest.push(text.last());
        assert(text =~= text.drop_last().push(text.last()));
        assert(text =~= trimmed_end(text) + trail);
        assert forall|i: int| 0 <= i < trail.len() implies is_white_space(#[trigger] trail[i]) by {
            if i < rest.len() {
                assert(trail[i] == rest[i]);
            }
        }
        trail
    } else {
        assert(text =~= trimmed_end(text) + Seq::<char>::empty());
        Seq::empty()
    }
}

/// Whether a text is that rest, with white space in front of it and behind it.
pub open spec fn is_wrapped(text: Seq<char>, lead: Seq<char>, rest: Seq<char>, trail: Seq<char>) -> bool {
    &&& text == lead + rest + trail
    &&& all_white(lead)
    &&& all_white(trail)
}

/// Trimming cuts all the white space off both ends, and nothing else: what is left begins and
/// ends with something else, and with the white space back in place it is the text again.
pub proof fn law_trimming_cuts_white_space_alone(text: Seq<char>)
    ensures
        exists|lead: Seq<char>, trail: Seq<char>| #[trigger]
            is_wrapped(text, lead, trimmed(text), trail),
        trimmed(text).len() > 0 ==> !is_white_space(trimmed(text).first()) && !is_white_space(
            trimmed(text).last(),
        ),
{
    let lead = lemma_trimmed_start_cuts_white_space(text);
    let trail = lemma_trimmed_end_cuts_white_space(trimmed_start(text));
    assert(text =~= lead + trimmed(text) + trail);
    assert(is_wrapped(text, lead, trimmed(text), trail));
}

/// Two texts are equal but for the case of ASCII letters exactly when they have the same
/// length and the characters at each place are the same, or the capital and the small form of
/// one of the letters from A to Z.
pub proof fn law_case_is_all_that_is_ignored(a: Seq<char>, b: Seq<char>)
    ensures
        equal_ignoring_ascii_case(a, b) <==> a.len() == b.len() && forall|i: int|
            0 <= i < a.len() ==> same_letter(#[trigger] a[i], b[i]),
{
    if equal_ignoring_ascii_case(a, b) {
        assert forall|i: int| 0 <= i < a.len() implies same_letter(#[trigger] a[i], b[i]) by {
            assert(ascii_folded(a[i]) == ascii_folded(b[i]));
            lemma_folded_are_the_same_letter(a[i], b[i]);
        }
    }
    if a.len() == b.len() && forall|i: int|
        0 <= i < a.len() ==> same_letter(#[trigger] a[i], b[i]) {
        assert forall|i: int| 0 <= i < a.len() implies #[trigger] ascii_folded(a[i])
            == ascii_folded(b[i]) by {
            assert(same_letter(a[i], b[i]));
            lemma_folded_are_the_same_letter(a[i], b[i]);
        }
    }
}

proof fn lemma_folded_are_the_same_letter(a: char, b: char)
    ensures
        ascii_folded(a) == ascii_folded(b) <==> same_letter(a, b),
{
}

/// Whether two characters are the same, or one letter from A to Z in its two forms.
pub open spec fn same_letter(a: char, b: char) -> bool {
    ||| a == b
    ||| 'A' <= a <= 'Z' && b as int == a as int + 32
    ||| 'A' <= b <= 'Z' && a as int == b as int + 32
}

} // verus!
