//! Text as sequences of characters: building it, writing numbers in it and
//! comparing it.

use vstd::prelude::*;
use vstd::string::*;

verus! {

/// `String::push` appends the character to the end of the text and leaves the
/// rest of it as it was.
pub assume_specification[ String::push ](text: &mut String, c: char)
    ensures
        final(text)@ == old(text)@.push(c),
;

pub open spec fn text_of(text: Option<String>) -> Option<Seq<char>> {
    match text {
        Some(text) => Some(text@),
        None => None,
    }
}

/// The characters of a text.
pub fn chars_of(text: &str) -> (chars: Vec<char>)
    ensures
        chars@ == text@,
{
    let mut chars: Vec<char> = Vec::new();
    for c in it: text.chars()
        invariant
            it.seq() == text@,
            chars@ == text@.take(it.index()),
    {
        chars.push(c);
    }
    assert(text@.take(text@.len() as int) == text@);
    chars
}

/// The text made of the given characters.
pub fn string_of(chars: &[char]) -> (text: String)
    ensures
        text@ == chars@,
{
    let mut text = String::new();
    for i in 0..chars.len()
        invariant
            text@ == chars@.take(i as int),
    {
        text.push(chars[i]);
        assert(chars@.take(i as int).push(chars@[i as int]) == chars@.take(i + 1));
    }
    assert(chars@.take(chars@.len() as int) == chars@);
    text
}

/// The decimal digit of a number below ten.
pub open spec fn digit(d: nat) -> char {
    (0x30 + d) as char
}

/// A natural number in decimal, without leading zeros.
pub open spec fn digits(n: nat) -> Seq<char>
    decreases n,
{
    if n < 10 {
        seq![digit(n)]
    } else {
        digits(n / 10).push(digit(n % 10))
    }
}

/// An integer in decimal, a negative one behind a minus sign.
pub open spec fn decimal(n: int) -> Seq<char> {
    if n < 0 {
        seq!['-'] + digits((-n) as nat)
    } else {
        digits(n as nat)
    }
}

/// Appends a natural number in decimal.
pub fn push_digits(text: &mut String, n: u64)
    ensures
        final(text)@ == old(text)@ + digits(n as nat),
    decreases n,
{
    if n >= 10 {
        push_digits(text, n / 10);
    }
    let d: u8 = (n % 10) as u8;
    text.push((0x30 + d) as char);
}

/// Appends a number in decimal.
pub fn push_decimal(text: &mut String, n: i64)
    ensures
        final(text)@ == old(text)@ + decimal(n as int),
{
    if n < 0 {
        text.push('-');
        push_digits(text, (-(n as i128)) as u64);
    } else {
        push_digits(text, n as u64);
    }
}

/// A letter of the ASCII alphabet in its small form; any other character as it
/// is.
pub open spec fn ascii_lower(c: char) -> char {
    if 'A' <= c <= 'Z' {
        (c as u32 + 0x20) as char
    } else {
        c
    }
}

/// Two texts that differ at most in the case of ASCII letters.
pub open spec fn same_ignoring_ascii_case(a: Seq<char>, b: Seq<char>) -> bool {
    &&& a.len() == b.len()
    &&& forall|i: int| 0 <= i < a.len() ==> ascii_lower(#[trigger] a[i]) == ascii_lower(b[i])
}

fn lower(c: char) -> (l: char)
    ensures
        l == ascii_lower(c),
{
    if 'A' <= c && c <= 'Z' {
        (c as u8 + 0x20) as char
    } else {
        c
    }
}

/// Compares two texts without regard to the case of ASCII letters.
pub fn eq_ignore_ascii_case(a: &str, b: &str) -> (same: bool)
    ensures
        same == same_ignoring_ascii_case(a@, b@),
{
    let x = chars_of(a);
    let y = chars_of(b);
    if x.len() != y.len() {
        return false;
    }
    for i in 0..x.len()
        invariant
            x@ == a@,
            y@ == b@,
            x@.len() == y@.len(),
            forall|j: int| 0 <= j < i ==> ascii_lower(#[trigger] a@[j]) == ascii_lower(b@[j]),
    {
        if lower(x[i]) != lower(y[i]) {
            assert(ascii_lower(a@[i as int]) != ascii_lower(b@[i as int]));
            return false;
        }
    }
    true
}

/// The number that a run of decimal digits stands for.
pub open spec fn read_digits(text: Seq<char>) -> int
    decreases text.len(),
{
    if text.len() == 0 {
        0
    } else {
        read_digits(text.drop_last()) * 10 + (text.last() as int - '0' as int)
    }
}

/// A natural number is written in decimal digits alone, without a leading zero
/// unless it is zero, and reads back as itself.
pub proof fn digits_read_back(n: nat)
    ensures
        read_digits(digits(n)) == n,
        digits(n).len() > 0,
        forall|i: int| 0 <= i < digits(n).len() ==> '0' <= #[trigger] digits(n)[i] <= '9',
        n > 0 ==> digits(n)[0] != '0',
        n == 0 ==> digits(n) == seq!['0'],
    decreases n,
{
    if n < 10 {
        assert(digits(n).drop_last() =~= Seq::empty());
        assert(read_digits(Seq::empty()) == 0);
    } else {
        digits_read_back(n / 10);
        assert(digits(n).drop_last() =~= digits(n / 10));
        assert forall|i: int| 0 <= i < digits(n).len() implies '0' <= #[trigger] digits(n)[i]
            <= '9' by {
            if i < digits(n / 10).len() {
                assert(digits(n)[i] == digits(n / 10)[i]);
            }
        }
        assert(digits(n)[0] == digits(n / 10)[0]);
    }
}

/// A number is written as the digits of its size, behind a minus sign exactly
/// where it is negative.
pub proof fn decimal_reads_back(n: int)
    ensures
        n >= 0 ==> read_digits(decimal(n)) == n && decimal(n)[0] != '-',
        n < 0 ==> decimal(n).len() > 1 && decimal(n)[0] == '-' && read_digits(decimal(n).skip(1))
            == -n,
        forall|i: int|
            (if n < 0 {
                1
            } else {
                0int
            }) <= i < decimal(n).len() ==> '0' <= #[trigger] decimal(n)[i] <= '9',
        n != 0 ==> decimal(n)[if n < 0 {
            1
        } else {
            0
        }] != '0',
{
    if n < 0 {
        let size = (-n) as nat;
        digits_read_back(size);
        assert(decimal(n).skip(1) =~= digits(size));
        assert(forall|i: int|
            1 <= i < decimal(n).len() ==> #[trigger] decimal(n)[i] == digits(size)[i - 1]);
    } else {
        digits_read_back(n as nat);
    }
}

/// Two texts compare as the same where they are of one length and every two
/// characters in the same place are the same, or are the two forms of one ASCII
/// letter.
pub proof fn same_but_for_case(a: Seq<char>, b: Seq<char>)
    ensures
        same_ignoring_ascii_case(a, b) <==> a.len() == b.len() && forall|i: int|
            0 <= i < a.len() ==> {
                let (x, y) = (#[trigger] a[i], b[i]);
                ||| x == y
                ||| 'A' <= x <= 'Z' && y as int == x as int + 32
                ||| 'A' <= y <= 'Z' && x as int == y as int + 32
            },
        same_ignoring_ascii_case(a, a),
        same_ignoring_ascii_case(a, b) <==> same_ignoring_ascii_case(b, a),
{
    if a.len() == b.len() {
        assert forall|i: int| 0 <= i < a.len() implies ((ascii_lower(#[trigger] a[i])
            == ascii_lower(b[i])) <==> {
            let (x, y) = (a[i], b[i]);
            ||| x == y
            ||| 'A' <= x <= 'Z' && y as int == x as int + 32
            ||| 'A' <= y <= 'Z' && x as int == y as int + 32
        }) by {
            letters_meet(a[i], b[i]);
        }
    }
    assert(forall|i: int| 0 <= i < a.len() ==> ascii_lower(#[trigger] a[i]) == ascii_lower(a[i]));
    if same_ignoring_ascii_case(a, b) {
        assert(forall|i: int|
            0 <= i < b.len() ==> ascii_lower(a[i]) == ascii_lower(#[trigger] b[i]));
    }
    if same_ignoring_ascii_case(b, a) {
        assert(forall|i: int|
            0 <= i < a.len() ==> ascii_lower(#[trigger] a[i]) == ascii_lower(b[i]));
    }
}

proof fn letters_meet(x: char, y: char)
    ensures
        ascii_lower(x) == ascii_lower(y) <==> (x == y || ('A' <= x <= 'Z' && y as int == x as int
            + 32) || ('A' <= y <= 'Z' && x as int == y as int + 32)),
{
}

} // verus!
