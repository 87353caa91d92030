//! Text helpers over the sequence of characters that a string holds.

use vstd::prelude::*;
use vstd::string::*;
use vstd::utf8::*;

verus! {

/// `pattern` stands somewhere in `text`, character for character.
pub open spec fn occurs_in(pattern: Seq<char>, text: Seq<char>) -> bool {
    exists|at: int| #[trigger] occurs_at(pattern, text, at)
}

/// `pattern` stands in `text` from position `at` on.
pub open spec fn occurs_at(pattern: Seq<char>, text: Seq<char>, at: int) -> bool {
    &&& 0 <= at
    &&& at + pattern.len() <= text.len()
    &&& text.subrange(at, at + pattern.len()) == pattern
}

/// The decimal digits of `n`, most significant first.
pub open spec fn decimal(n: nat) -> Seq<char>
    decreases n,
{
    if n < 10 {
        seq![digit(n)]
    } else {
        decimal(n / 10).push(digit(n % 10))
    }
}

/// The character of a single decimal digit.
pub open spec fn digit(d: nat) -> char
    recommends
        d < 10,
{
    ('0' as u32 + d) as char
}

/// The decimal digits of `n`, after a minus sign where it is below zero.
pub open spec fn signed_decimal(n: int) -> Seq<char> {
    if n < 0 {
        seq!['-'] + decimal((-n) as nat)
    } else {
        decimal(n as nat)
    }
}

/// The characters of a text, in order.
pub fn to_chars(text: &str) -> (chars: Vec<char>)
    ensures
        chars@ == text@,
{
    let mut chars: Vec<char> = Vec::new();
    for c in it: text.chars()
        invariant
            chars@ == it.seq().take(it.index()),
            it.seq() == text@,
    {
        chars.push(c);
    }
    chars
}

/// Whether two texts hold the same characters.
pub fn same_text(a: &str, b: &str) -> (same: bool)
    ensures
        same == (a@ == b@),
{
    let x = a.as_bytes();
    let y = b.as_bytes();
    proof {
        encode_utf8_decode_utf8(a@);
        encode_utf8_decode_utf8(b@);
    }
    if x.len() != y.len() {
        return false;
    }
    let mut i: usize = 0;
    while i < x.len()
        invariant
            i <= x.len(),
            x.len() == y.len(),
            x@ == a.spec_bytes(),
            y@ == b.spec_bytes(),
            x@.take(i as int) == y@.take(i as int),
        decreases x.len() - i,
    {
        if x[i] != y[i] {
            assert(x@[i as int] != y@[i as int]);
            return false;
        }
        assert(x@.take(i + 1) == x@.take(i as int).push(x@[i as int]));
        assert(y@.take(i + 1) == y@.take(i as int).push(y@[i as int]));
        i = i + 1;
    }
    assert(x@ == x@.take(i as int));
    assert(y@ == y@.take(i as int));
    true
}

/// Whether `pattern` stands in `text` from position `at` on.
fn matches_at(pattern: &Vec<char>, text: &Vec<char>, at: usize) -> (found: bool)
    requires
        at + pattern.len() <= text.len(),
    ensures
        found == occurs_at(pattern@, text@, at as int),
{
    let mut i: usize = 0;
    let ghost window = text@.subrange(at as int, at + pattern@.len());
    while i < pattern.len()
        invariant
            i <= pattern.len(),
            at + pattern.len() <= text.len(),
            window == text@.subrange(at as int, at + pattern@.len()),
            forall|j: int| 0 <= j < i ==> window[j] == pattern@[j],
        decreases pattern@.len() - i,
    {
        if text[at + i] != pattern[i] {
            assert(window[i as int] != pattern@[i as int]);
            return false;
        }
        i = i + 1;
    }
    assert(window == pattern@);
    true
}

/// Whether `pattern` stands somewhere in `text`.
pub fn contains(text: &str, pattern: &str) -> (found: bool)
    ensures
        found == occurs_in(pattern@, text@),
{
    let haystack = to_chars(text);
    let needle = to_chars(pattern);
    if needle.len() > haystack.len() {
        return false;
    }
    let last: usize = haystack.len() - needle.len();
    let mut at: usize = 0;
    while at <= last
        invariant
            haystack@ == text@,
            needle@ == pattern@,
            last + needle@.len() == haystack@.len(),
            at <= last + 1,
            forall|j: int| 0 <= j < at ==> !occurs_at(pattern@, text@, j),
        decreases last + 1 - at,
    {
        if matches_at(&needle, &haystack, at) {
            assert(occurs_at(pattern@, text@, at as int));
            return true;
        }
        if at == last {
            return false;
        }
        at = at + 1;
    }
    false
}

// ---------------------------------------------------------------------------
// Laws
// ---------------------------------------------------------------------------

/// A text contains whatever it was put together around.
pub proof fn law_contains_its_parts(before: Seq<char>, pattern: Seq<char>, after: Seq<char>)
    ensures
        occurs_in(pattern, before + pattern + after),
{
    let text = before + pattern + after;
    let at = before.len() as int;
    assert(text.subrange(at, at + pattern.len()) =~= pattern);
    assert(occurs_at(pattern, text, at));
}

/// A text that contains a pattern is that pattern with something before and
/// something after it.
pub proof fn law_containing_text_splits(pattern: Seq<char>, text: Seq<char>)
    requires
        occurs_in(pattern, text),
    ensures
        exists|at: int|
            0 <= at && at + pattern.len() <= text.len() && text == #[trigger] text.take(at)
                + pattern + text.skip(at + pattern.len()),
{
    let at = choose|at: int| #[trigger] occurs_at(pattern, text, at);
    let whole = text.take(at) + pattern + text.skip(at + pattern.len());
    assert forall|i: int| 0 <= i < text.len() implies text[i] == whole[i] by {
        if at <= i < at + pattern.len() {
            assert(text.subrange(at, at + pattern.len())[i - at] == text[i]);
        }
    }
    assert(text =~= whole);
}

/// The number that a text of decimal digits stands for.
pub open spec fn decimal_value(digits: Seq<char>) -> int
    decreases digits.len(),
{
    if digits.len() == 0 {
        0
    } else {
        10 * decimal_value(digits.drop_last()) + (digits.last() as int - '0' as int)
    }
}

/// The decimal digits of a number stand for that number, and are no more than
/// it takes.
pub proof fn law_decimal_stands_for_its_number(n: nat)
    ensures
        decimal_value(decimal(n)) == n,
        forall|i: int| 0 <= i < decimal(n).len() ==> '0' <= #[trigger] decimal(n)[i] <= '9',
        decimal(n).len() > 0,
        decimal(n).len() > 1 ==> decimal(n)[0] != '0',
    decreases n,
{
    if n < 10 {
        assert(decimal(n).drop_last() =~= Seq::empty());
        assert(decimal_value(Seq::<char>::empty()) == 0);
        assert(decimal(n).last() == digit(n));
    } else {
        law_decimal_stands_for_its_number(n / 10);
        assert(decimal(n).drop_last() =~= decimal(n / 10));
        assert(decimal(n).last() == digit(n % 10));
        if n / 10 < 10 {
            assert(n / 10 > 0);
            assert(decimal(n / 10)[0] == digit(n / 10));
        } else {
            assert(decimal(n / 10).len() == decimal(n / 10 / 10).len() + 1);
            law_decimal_stands_for_its_number(n / 10 / 10);
        }
        assert(decimal(n)[0] == decimal(n / 10)[0]);
        assert forall|i: int| 0 <= i < decimal(n).len() implies '0' <= #[trigger] decimal(n)[i]
            <= '9' by {
            if i < decimal(n / 10).len() {
                assert(decimal(n)[i] == decimal(n / 10)[i]);
            }
        }
    }
}

/// A number below zero is written with a minus sign before the digits of its
/// size, and any other with its digits alone.
pub proof fn law_sign_comes_first(n: nat)
    ensures
        signed_decimal(n as int) == decimal(n),
        n > 0 ==> signed_decimal(-n) == seq!['-'] + decimal(n),
{
}

} // verus!
