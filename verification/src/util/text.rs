use vstd::prelude::*;
use vstd::string::*;

verus! {

/// The character of a decimal digit.
pub open spec fn digit_char(d: nat) -> char {
    if d == 0 {
        '0'
    } else if d == 1 {
        '1'
    } else if d == 2 {
        '2'
    } else if d == 3 {
        '3'
    } else if d == 4 {
        '4'
    } else if d == 5 {
        '5'
    } else if d == 6 {
        '6'
    } else if d == 7 {
        '7'
    } else if d == 8 {
        '8'
    } else {
        '9'
    }
}

/// The digit that a character stands for, if it is a decimal digit.
pub open spec fn digit_value(c: char) -> Option<nat> {
    if c == '0' {
        Some(0nat)
    } else if c == '1' {
        Some(1nat)
    } else if c == '2' {
        Some(2nat)
    } else if c == '3' {
        Some(3nat)
    } else if c == '4' {
        Some(4nat)
    } else if c == '5' {
        Some(5nat)
    } else if c == '6' {
        Some(6nat)
    } else if c == '7' {
        Some(7nat)
    } else if c == '8' {
        Some(8nat)
    } else if c == '9' {
        Some(9nat)
    } else {
        None
    }
}

/// A natural number written in decimal, without leading zeros.
pub open spec fn decimal(n: nat) -> Seq<char>
    decreases n,
{
    if n < 10 {
        seq![digit_char(n)]
    } else {
        decimal(n / 10).push(digit_char(n % 10))
    }
}

/// The number that a non-empty run of decimal digits stands for; `None`
/// where the text is empty or holds another character.
pub open spec fn decimal_value(s: Seq<char>) -> Option<nat>
    decreases s.len(),
{
    if s.len() == 0 {
        None
    } else if s.len() == 1 {
        digit_value(s[0])
    } else {
        match (decimal_value(s.drop_last()), digit_value(s.last())) {
            (Some(high), Some(low)) => Some(high * 10 + low),
            _ => None,
        }
    }
}

/// Reading a number back from its decimal form gives the number.
pub proof fn lemma_decimal_round_trip(n: nat)
    ensures
        decimal(n).len() >= 1,
        decimal_value(decimal(n)) == Some(n),
    decreases n,
{
    if n < 10 {
        assert(decimal(n)[0] == digit_char(n));
    } else {
        lemma_decimal_round_trip(n / 10);
        let s = decimal(n);
        let high = decimal(n / 10);
        assert(s.drop_last() =~= high);
        assert(s.last() == digit_char(n % 10));
        assert(digit_value(digit_char(n % 10)) == Some(n % 10));
    }
}

/// Two numbers with the same decimal form are the same number.
pub proof fn lemma_decimal_injective(a: nat, b: nat)
    requires
        decimal(a) == decimal(b),
    ensures
        a == b,
{
    lemma_decimal_round_trip(a);
    lemma_decimal_round_trip(b);
}

/// Every character of a decimal form is a digit.
pub proof fn lemma_decimal_digits(n: nat, i: int)
    requires
        0 <= i < decimal(n).len(),
    ensures
        digit_value(decimal(n)[i]) is Some,
    decreases n,
{
    if n >= 10 {
        if i < decimal(n / 10).len() {
            lemma_decimal_digits(n / 10, i);
        }
    }
}

fn digit_str(d: u128) -> (r: &'static str)
    requires
        d < 10,
    ensures
        r@ == seq![digit_char(d as nat)],
{
    proof {
        reveal_strlit("0");
        reveal_strlit("1");
        reveal_strlit("2");
        reveal_strlit("3");
        reveal_strlit("4");
        reveal_strlit("5");
        reveal_strlit("6");
        reveal_strlit("7");
        reveal_strlit("8");
        reveal_strlit("9");
    }
    let r = if d == 0 {
        "0"
    } else if d == 1 {
        "1"
    } else if d == 2 {
        "2"
    } else if d == 3 {
        "3"
    } else if d == 4 {
        "4"
    } else if d == 5 {
        "5"
    } else if d == 6 {
        "6"
    } else if d == 7 {
        "7"
    } else if d == 8 {
        "8"
    } else {
        "9"
    };
    assert(r@ =~= seq![digit_char(d as nat)]);
    r
}

/// Writes a number in decimal.
pub fn decimal_string(n: u128) -> (r: String)
    ensures
        r@ == decimal(n as nat),
    decreases n,
{
    if n < 10 {
        String::from_str(digit_str(n))
    } else {
        let mut r = decimal_string(n / 10);
        r.append(digit_str(n % 10));
        r
    }
}

/// Where the first hyphen of a text at or after `from` stands; the length
/// of the text where there is none.
pub open spec fn hyphen_from(text: Seq<char>, from: int) -> int
    decreases text.len() - from,
{
    if from < 0 || from >= text.len() {
        text.len() as int
    } else if text[from] == '-' {
        from
    } else {
        hyphen_from(text, from + 1)
    }
}

/// Whether a text holds a hyphen.
pub open spec fn has_hyphen(text: Seq<char>) -> bool {
    hyphen_from(text, 0) < text.len()
}

/// What stands before the first hyphen of a text: the whole text where it
/// has none.
pub open spec fn before_hyphen(text: Seq<char>) -> Seq<char> {
    text.take(hyphen_from(text, 0))
}

/// What stands behind the first hyphen of a text: the whole text where it
/// has none.
pub open spec fn after_hyphen(text: Seq<char>) -> Seq<char> {
    if has_hyphen(text) {
        text.skip(hyphen_from(text, 0) + 1)
    } else {
        text
    }
}

proof fn lemma_hyphen_from(text: Seq<char>, from: int)
    requires
        0 <= from <= text.len(),
    ensures
        from <= hyphen_from(text, from) <= text.len(),
        hyphen_from(text, from) < text.len() ==> text[hyphen_from(text, from)] == '-',
        forall|i: int| from <= i < hyphen_from(text, from) ==> text[i] != '-',
    decreases text.len() - from,
{
    if from < text.len() && text[from] != '-' {
        lemma_hyphen_from(text, from + 1);
    }
}

/// A text split at its first hyphen: whether it has one, what stands before
/// it and what stands behind it.
pub fn split_at_hyphen(text: &str) -> (r: (bool, String, String))
    ensures
        r.0 == has_hyphen(text@),
        r.1@ == before_hyphen(text@),
        r.2@ == after_hyphen(text@),
{
    let len: usize = text.unicode_len();
    let mut at: usize = 0;
    while at < len && text.get_char(at) != '-'
        invariant
            at <= len,
            len == text@.len(),
            hyphen_from(text@, 0) == hyphen_from(text@, at as int),
        decreases len - at,
    {
        at += 1;
    }
    proof {
        lemma_hyphen_from(text@, at as int);
    }
    if at < len {
        let before = text.substring_char(0, at).to_owned();
        let after = text.substring_char(at + 1, len).to_owned();
        assert(before@ =~= before_hyphen(text@));
        assert(after@ =~= after_hyphen(text@));
        (true, before, after)
    } else {
        let before = text.to_owned();
        let after = text.to_owned();
        assert(before@ =~= before_hyphen(text@));
        (false, before, after)
    }
}

/// The texts of a list one after the other, with `separator` between each
/// two of them.
pub open spec fn joined(parts: Seq<Seq<char>>, separator: Seq<char>) -> Seq<char>
    decreases parts.len(),
{
    if parts.len() == 0 {
        Seq::empty()
    } else if parts.len() == 1 {
        parts[0]
    } else {
        joined(parts.drop_last(), separator) + separator + parts.last()
    }
}

/// The texts of a list of strings.
pub open spec fn texts(parts: Seq<String>) -> Seq<Seq<char>> {
    parts.map_values(|part: String| part@)
}

/// Joins the texts of a list, with `separator` between each two of them.
pub fn join(parts: &Vec<String>, separator: &str) -> (r: String)
    ensures
        r@ == joined(texts(parts@), separator@),
{
    let mut r = String::new();
    let mut i: usize = 0;
    while i < parts.len()
        invariant
            i <= parts@.len(),
            r@ == joined(texts(parts@).take(i as int), separator@),
        decreases parts@.len() - i,
    {
        let ghost so_far = texts(parts@).take(i as int);
        let ghost next = texts(parts@).take(i + 1);
        assert(next.drop_last() =~= so_far);
        assert(next.last() == parts@[i as int]@);
        if i > 0 {
            r.append(separator);
        }
        r.append(parts[i].as_str());
        assert(r@ =~= joined(next, separator@));
        i += 1;
    }
    assert(texts(parts@).take(parts@.len() as int) =~= texts(parts@));
    r
}

/// Whether two texts are the same.
pub fn str_equal(a: &str, b: &str) -> (r: bool)
    ensures
        r == (a@ == b@),
{
    let left = a.to_owned();
    let right = b.to_owned();
    left == right
}

} // verus!
