//! Decimal numbers, substrings and concatenation over character sequences.

use vstd::prelude::*;

verus! {

/// The character of a decimal digit.
pub open spec fn digit_char(d: nat) -> char {
    (48 + d) as char
}

/// The shortest decimal rendering of a natural number.
pub open spec fn decimal(n: nat) -> Seq<char>
    decreases n,
{
    if n < 10 {
        seq![digit_char(n)]
    } else {
        decimal(n / 10).push(digit_char(n % 10))
    }
}

/// The decimal rendering of an integer, with a minus sign where it is negative.
pub open spec fn signed_decimal(n: int) -> Seq<char> {
    if n < 0 {
        seq!['-'] + decimal((-n) as nat)
    } else {
        decimal(n as nat)
    }
}

/// Whether `needle` occurs in `text` at position `at`.
pub open spec fn occurs_at(text: Seq<char>, needle: Seq<char>, at: int) -> bool {
    &&& 0 <= at
    &&& at + needle.len() <= text.len()
    &&& text.subrange(at, at + needle.len()) == needle
}

/// Whether `needle` occurs anywhere in `text`.
pub open spec fn holds_text(text: Seq<char>, needle: Seq<char>) -> bool {
    exists|at: int| occurs_at(text, needle, at)
}

fn digit_text(d: u64) -> (text: &'static str)
    requires
        d < 10,
    ensures
        text@ == seq![digit_char(d as nat)],
{
    proof {
        reveal_strlit("0");
        reveal_strlit("1");
        reveal_strlit("2");
        reveal_strlit("3");
        reveal_strlit("4");
        reveal_strlit("5");
        reveal_strlit("6");
        reveal_strlit("7");
        reveal_strlit("8");
        reveal_strlit("9");
    }
    match d {
        0 => "0",
        1 => "1",
        2 => "2",
        3 => "3",
        4 => "4",
        5 => "5",
        6 => "6",
        7 => "7",
        8 => "8",
        _ => "9",
    }
}

/// Appends the decimal rendering of `n`.
pub fn push_decimal(out: &mut String, n: u64)
    ensures
        final(out)@ == old(out)@ + decimal(n as nat),
    decreases n,
{
    let ghost before = out@;
    if n >= 10 {
        push_decimal(out, n / 10);
    }
    out.append(digit_text(n % 10));
    proof {
        if n < 10 {
            assert(n % 10 == n);
        }
        assert(out@ =~= before + decimal(n as nat));
    }
}

/// Appends the decimal rendering of `n`, with its sign.
pub fn push_signed_decimal(out: &mut String, n: i64)
    ensures
        final(out)@ == old(out)@ + signed_decimal(n as int),
{
    if n < 0 {
        proof {
            reveal_strlit("-");
        }
        let ghost before = out@;
        out.append("-");
        let magnitude: u64 = if n == i64::MIN { 9_223_372_036_854_775_808u64 } else { (-n) as u64 };
        push_decimal(out, magnitude);
        assert(out@ =~= before + signed_decimal(n as int));
    } else {
        push_decimal(out, n as u64);
    }
}

/// A text between two others.
pub fn framed(before: &str, inner: &str, after: &str) -> (text: String)
    ensures
        text@ == before@ + inner@ + after@,
{
    let mut text = before.to_owned();
    text.append(inner);
    text.append(after);
    text
}

/// A number between two texts.
pub fn counted(before: &str, n: usize, after: &str) -> (text: String)
    ensures
        text@ == before@ + decimal(n as nat) + after@,
{
    let mut text = before.to_owned();
    push_decimal(&mut text, n as u64);
    text.append(after);
    text
}

/// A number behind a text.
pub fn labelled(before: &str, n: usize) -> (text: String)
    ensures
        text@ == before@ + decimal(n as nat),
{
    let mut text = before.to_owned();
    push_decimal(&mut text, n as u64);
    text
}

/// The characters of a text, by position.
pub fn characters(text: &str) -> (chars: Vec<char>)
    ensures
        chars@ == text@,
{
    let mut chars: Vec<char> = Vec::new();
    for c in it: text.chars()
        invariant
            chars@ == it.seq().take(it.index() as int),
            it.seq() == text@,
    {
        chars.push(c);
    }
    chars
}

/// Whether two texts hold the same characters.
pub fn same_text(a: &str, b: &str) -> (same: bool)
    ensures
        same == (a@ == b@),
{
    let left = characters(a);
    let right = characters(b);
    if left.len() != right.len() {
        return false;
    }
    let mut i: usize = 0;
    while i < left.len()
        invariant
            i <= left.len(),
            left.len() == right.len(),
            left@ == a@,
            right@ == b@,
            forall|j: int| 0 <= j < i ==> a@[j] == b@[j],
        decreases left.len() - i,
    {
        if left[i] != right[i] {
            return false;
        }
        i = i + 1;
    }
    assert(a@ =~= b@);
    true
}

fn occurs_here(text: &Vec<char>, needle: &Vec<char>, at: usize) -> (found: bool)
    requires
        at + needle.len() <= text.len(),
    ensures
        found == occurs_at(text@, needle@, at as int),
{
    let mut j: usize = 0;
    while j < needle.len()
        invariant
            j <= needle.len(),
            at + needle.len() <= text.len(),
            forall|k: int| 0 <= k < j ==> text@[at + k] == #[trigger] needle@[k],
        decreases needle.len() - j,
    {
        if text[at + j] != needle[j] {
            assert(text@.subrange(at as int, at + needle@.len())[j as int] != needle@[j as int]);
            return false;
        }
        j = j + 1;
    }
    assert(text@.subrange(at as int, at + needle@.len()) =~= needle@);
    true
}

/// Whether `needle` occurs anywhere in `text`.
pub fn contains_text(text: &str, needle: &str) -> (found: bool)
    ensures
        found == holds_text(text@, needle@),
{
    let hay = characters(text);
    let pin = characters(needle);
    if pin.len() > hay.len() {
        assert forall|at: int| !occurs_at(text@, needle@, at) by {}
        return false;
    }
    let last: usize = hay.len() - pin.len();
    let mut at: usize = 0;
    while at <= last
        invariant
            at <= last + 1,
            last + pin.len() == hay.len(),
            hay@ == text@,
            pin@ == needle@,
            forall|a: int| 0 <= a < at ==> !occurs_at(text@, needle@, a),
        decreases last + 1 - at,
    {
        if occurs_here(&hay, &pin, at) {
            return true;
        }
        if at == last {
            assert forall|a: int| !occurs_at(text@, needle@, a) by {}
            return false;
        }
        at = at + 1;
    }
    assert forall|a: int| !occurs_at(text@, needle@, a) by {}
    false
}

/// A text that holds a character which the haystack lacks does not occur in it.
pub proof fn lemma_foreign_character(text: Seq<char>, needle: Seq<char>, at: int)
    requires
        0 <= at < needle.len(),
        forall|i: int| 0 <= i < text.len() ==> text[i] != needle[at],
    ensures
        !holds_text(text, needle),
{
    assert forall|p: int| !occurs_at(text, needle, p) by {
        if occurs_at(text, needle, p) {
            assert(text.subrange(p, p + needle.len())[at] == text[p + at]);
        }
    }
}

/// A decimal rendering consists of digits.
pub proof fn lemma_decimal_digits(n: nat)
    ensures
        decimal(n).len() > 0,
        forall|i: int| 0 <= i < decimal(n).len() ==> '0' <= #[trigger] decimal(n)[i] <= '9',
    decreases n,
{
    if n >= 10 {
        lemma_decimal_digits(n / 10);
    }
}

/// The number that a row of decimal digits stands for.
pub open spec fn decimal_value(text: Seq<char>) -> int
    decreases text.len(),
{
    if text.len() == 0 {
        0
    } else {
        decimal_value(text.drop_last()) * 10 + (text.last() as int - '0' as int)
    }
}

/// A decimal rendering reads back as the number, consists of digits, and has no zero in
/// front unless it is the zero itself.
pub proof fn law_decimal_reads_back(n: nat)
    ensures
        decimal_value(decimal(n)) == n,
        decimal(n).len() > 0,
        forall|i: int| 0 <= i < decimal(n).len() ==> '0' <= #[trigger] decimal(n)[i] <= '9',
        decimal(n).len() > 1 ==> decimal(n)[0] != '0',
    decreases n,
{
    lemma_decimal_digits(n);
    if n >= 10 {
        law_decimal_reads_back(n / 10);
        assert(decimal(n).drop_last() =~= decimal(n / 10));
        assert(decimal(n)[0] == decimal(n / 10)[0]);
        if decimal(n / 10).len() == 1 {
            let front = decimal(n / 10);
            assert(front.drop_last() =~= Seq::empty());
            assert(decimal_value(front.drop_last()) == 0);
            assert(front[0] != '0');
        }
    } else {
        assert(decimal(n).drop_last() =~= Seq::empty());
        assert(decimal_value(decimal(n).drop_last()) == 0);
    }
}

/// A signed rendering is the rendering of the magnitude, with a minus sign in front
/// exactly where the number is negative.
pub proof fn law_signed_decimal_reads_back(n: int)
    ensures
        n < 0 <==> signed_decimal(n)[0] == '-',
        n < 0 ==> decimal_value(signed_decimal(n).skip(1)) == -n,
        n >= 0 ==> decimal_value(signed_decimal(n)) == n,
        signed_decimal(n).len() > 0,
{
    if n < 0 {
        law_decimal_reads_back((-n) as nat);
        assert(signed_decimal(n).skip(1) =~= decimal((-n) as nat));
    } else {
        law_decimal_reads_back(n as nat);
        assert('0' <= decimal(n as nat)[0]);
    }
}

/// A text holds another exactly if it is made of something before, that other text, and
/// something behind.
pub proof fn law_holding_is_being_made_of(text: Seq<char>, needle: Seq<char>)
    ensures
        holds_text(text, needle) <==> exists|before: Seq<char>, after: Seq<char>|
            text == #[trigger] between(before, needle, after),
{
    if holds_text(text, needle) {
        let at = choose|at: int| occurs_at(text, needle, at);
        let before = text.take(at);
        let after = text.skip(at + needle.len());
        assert(text =~= between(before, needle, after)) by {
            assert forall|i: int| 0 <= i < text.len() implies text[i] == between(
                before,
                needle,
                after,
            )[i] by {
                if at <= i < at + needle.len() {
                    assert(text.subrange(at, at + needle.len())[i - at] == text[i]);
                }
            }
        }
    }
    if exists|before: Seq<char>, after: Seq<char>|
        text == #[trigger] between(before, needle, after) {
        let (before, after) = choose|before: Seq<char>, after: Seq<char>|
            text == #[trigger] between(before, needle, after);
        assert(text.subrange(before.len() as int, (before.len() + needle.len()) as int) =~= needle);
        assert(occurs_at(text, needle, before.len() as int));
    }
}

/// A text between two others.
pub open spec fn between(before: Seq<char>, inner: Seq<char>, after: Seq<char>) -> Seq<char> {
    before + inner + after
}

/// Whether two texts are the same but for one place, at which the one has `inner` and the
/// other has `other_inner`.
pub open spec fn same_around(
    text: Seq<char>,
    inner: Seq<char>,
    other: Seq<char>,
    other_inner: Seq<char>,
) -> bool {
    exists|before: Seq<char>, after: Seq<char>|
        text == #[trigger] between(before, inner, after) && other == between(
            before,
            other_inner,
            after,
        )
}

/// Texts that are made of the same parts but for one are the same around it.
pub proof fn lemma_same_around(
    text: Seq<char>,
    inner: Seq<char>,
    other: Seq<char>,
    other_inner: Seq<char>,
    before: Seq<char>,
    after: Seq<char>,
)
    requires
        text =~= before + inner + after,
        other =~= before + other_inner + after,
    ensures
        same_around(text, inner, other, other_inner),
{
    assert(text == between(before, inner, after));
}

/// Whether a text ends in another.
pub open spec fn ends_in(text: Seq<char>, end: Seq<char>) -> bool {
    text.len() >= end.len() && text.skip(text.len() - end.len()) == end
}

/// What follows anything is the end of the whole.
pub proof fn lemma_ends_in(before: Seq<char>, end: Seq<char>)
    ensures
        ends_in(before + end, end),
{
    assert((before + end).skip(before.len() as int) =~= end);
}

} // verus!
