//! Text helpers: decimal numbers as characters, and comparisons of strings
//! by their characters.

use vstd::prelude::*;
use vstd::string::*;
use vstd::utf8::*;

verus! {

/// The character of a decimal digit.
pub open spec fn digit_char(d: nat) -> char
    recommends
        d < 10,
{
    if d == 0 {
        '0'
    } else if d == 1 {
        '1'
    } else if d == 2 {
        '2'
    } else if d == 3 {
        '3'
    } else if d == 4 {
        '4'
    } else if d == 5 {
        '5'
    } else if d == 6 {
        '6'
    } else if d == 7 {
        '7'
    } else if d == 8 {
        '8'
    } else {
        '9'
    }
}

/// Whether `c` is one of the ten ASCII digits.
pub open spec fn is_digit(c: char) -> bool {
    '0' <= c && c <= '9'
}

/// The number that the digit `c` stands for.
pub open spec fn digit_value(c: char) -> nat
    recommends
        is_digit(c),
{
    (c as u32 - '0' as u32) as nat
}

/// `n` written in decimal, without a sign and without leading zeros.
pub open spec fn decimal(n: nat) -> Seq<char>
    decreases n,
{
    if n < 10 {
        seq![digit_char(n)]
    } else {
        decimal(n / 10).push(digit_char(n % 10))
    }
}

/// `n` written in decimal with at least `width` digits, zeros in front.
pub open spec fn decimal_padded(n: nat, width: nat) -> Seq<char>
    decreases width,
{
    if width <= 1 {
        decimal(n)
    } else {
        decimal_padded(n / 10, (width - 1) as nat).push(digit_char(n % 10))
    }
}

/// Whether every character of `s` is an ASCII digit.
pub open spec fn all_digits(s: Seq<char>) -> bool {
    forall|i: int| 0 <= i < s.len() ==> is_digit(#[trigger] s[i])
}

/// The number that a run of digits spells. The empty run spells zero.
pub open spec fn decimal_value(s: Seq<char>) -> nat
    decreases s.len(),
{
    if s.len() == 0 {
        0
    } else {
        decimal_value(s.drop_last()) * 10 + digit_value(s.last())
    }
}

/// Every character of a decimal rendering is a digit, and the rendering
/// spells the number it was made from.
pub proof fn lemma_decimal_round_trip(n: nat)
    ensures
        decimal(n).len() >= 1,
        all_digits(decimal(n)),
        decimal_value(decimal(n)) == n,
    decreases n,
{
    if n < 10 {
        let s = decimal(n);
        assert(s.drop_last() =~= Seq::<char>::empty());
        assert(decimal_value(s.drop_last()) == 0);
        assert(digit_value(s.last()) == n);
    } else {
        lemma_decimal_round_trip(n / 10);
        let s = decimal(n);
        assert(s.drop_last() =~= decimal(n / 10));
        assert(digit_value(s.last()) == n % 10);
    }
}

/// The one-character string of a digit.
fn digit_literal(d: u64) -> (r: &'static str)
    requires
        d < 10,
    ensures
        r@ == seq![digit_char(d as nat)],
{
    proof {
        reveal_strlit("0");
        reveal_strlit("1");
        reveal_strlit("2");
        reveal_strlit("3");
        reveal_strlit("4");
        reveal_strlit("5");
        reveal_strlit("6");
        reveal_strlit("7");
        reveal_strlit("8");
        reveal_strlit("9");
    }
    let r = if d == 0 {
        "0"
    } else if d == 1 {
        "1"
    } else if d == 2 {
        "2"
    } else if d == 3 {
        "3"
    } else if d == 4 {
        "4"
    } else if d == 5 {
        "5"
    } else if d == 6 {
        "6"
    } else if d == 7 {
        "7"
    } else if d == 8 {
        "8"
    } else {
        "9"
    };
    assert(r@ =~= seq![digit_char(d as nat)]);
    r
}

/// Appends `n` in decimal to `out`.
pub fn push_decimal(out: &mut String, n: u64)
    ensures
        final(out)@ == old(out)@ + decimal(n as nat),
    decreases n,
{
    if n >= 10 {
        push_decimal(out, n / 10);
    }
    out.append(digit_literal(n % 10));
    assert(out@ =~= old(out)@ + decimal(n as nat));
}

/// Appends `n` in decimal to `out`, with at least `width` digits.
pub fn push_decimal_padded(out: &mut String, n: u64, width: u32)
    ensures
        final(out)@ == old(out)@ + decimal_padded(n as nat, width as nat),
    decreases width,
{
    if width <= 1 {
        push_decimal(out, n);
    } else {
        push_decimal_padded(out, n / 10, width - 1);
        out.append(digit_literal(n % 10));
        assert(out@ =~= old(out)@ + decimal_padded(n as nat, width as nat));
    }
}

/// `n` in decimal, as a string of its own.
pub fn decimal_string(n: u64) -> (r: String)
    ensures
        r@ == decimal(n as nat),
{
    let mut r = String::new();
    push_decimal(&mut r, n);
    assert(r@ =~= decimal(n as nat));
    r
}

/// The characters of `s`, one by one.
pub fn to_chars(s: &str) -> (v: Vec<char>)
    ensures
        v@ == s@,
{
    let mut v: Vec<char> = Vec::new();
    for c in it: s.chars()
        invariant
            it.seq() == s@,
            v@ == s@.take(it.index() as int),
    {
        v.push(c);
        assert(v@ =~= s@.take(it.index() + 1));
    }
    assert(s@.take(s@.len() as int) =~= s@);
    v
}

/// Whether two strings hold the same characters.
pub fn str_eq(a: &str, b: &str) -> (r: bool)
    ensures
        r == (a@ == b@),
{
    let x = a.as_bytes();
    let y = b.as_bytes();
    proof {
        encode_utf8_decode_utf8(a@);
        encode_utf8_decode_utf8(b@);
    }
    if x.len() != y.len() {
        return false;
    }
    let mut i: usize = 0;
    while i < x.len()
        invariant
            i <= x.len(),
            x.len() == y.len(),
            x@ == a.spec_bytes(),
            y@ == b.spec_bytes(),
            forall|j: int| 0 <= j < i ==> x@[j] == y@[j],
        decreases x.len() - i,
    {
        if x[i] != y[i] {
            return false;
        }
        i += 1;
    }
    proof {
        assert(x@ =~= y@);
        encode_utf8_decode_utf8(a@);
        encode_utf8_decode_utf8(b@);
    }
    true
}

/// Whether `needle` stands in `hay` at position `at`.
pub open spec fn occurs_at(hay: Seq<char>, needle: Seq<char>, at: int) -> bool {
    &&& 0 <= at
    &&& at + needle.len() <= hay.len()
    &&& hay.subrange(at, at + needle.len()) == needle
}

/// Whether `needle` stands somewhere in `hay`.
pub open spec fn contains_text(hay: Seq<char>, needle: Seq<char>) -> bool {
    exists|at: int| occurs_at(hay, needle, at)
}

/// Whether `needle` stands in `hay` at position `at`.
pub fn starts_at(hay: &Vec<char>, needle: &Vec<char>, at: usize) -> (r: bool)
    ensures
        r == occurs_at(hay@, needle@, at as int),
{
    if needle.len() > hay.len() || at > hay.len() - needle.len() {
        return false;
    }
    let mut k: usize = 0;
    while k < needle.len()
        invariant
            k <= needle.len(),
            at + needle.len() <= hay.len(),
            forall|j: int| 0 <= j < k ==> hay@[at + j] == needle@[j],
        decreases needle.len() - k,
    {
        if hay[at + k] != needle[k] {
            assert(hay@.subrange(at as int, at + needle.len())[k as int] != needle@[k as int]);
            return false;
        }
        k += 1;
    }
    assert(hay@.subrange(at as int, at + needle.len()) =~= needle@);
    true
}

/// The first position from `from` on at which `needle` stands in `hay`.
pub fn find_from(hay: &Vec<char>, needle: &Vec<char>, from: usize) -> (r: Option<usize>)
    ensures
        match r {
            Some(at) => from <= at && occurs_at(hay@, needle@, at as int) && forall|j: int|
                from <= j < at ==> !occurs_at(hay@, needle@, j),
            None => forall|j: int| from <= j ==> !occurs_at(hay@, needle@, j),
        },
{
    let mut at: usize = from;
    while at < hay.len()
        invariant
            from <= at,
            forall|j: int| from <= j < at ==> !occurs_at(hay@, needle@, j),
        decreases hay.len() - at,
    {
        if starts_at(hay, needle, at) {
            return Some(at);
        }
        at += 1;
    }
    if starts_at(hay, needle, at) {
        return Some(at);
    }
    None
}

/// Whether `needle` stands somewhere in `hay`.
pub fn str_contains(hay: &str, needle: &str) -> (r: bool)
    ensures
        r == contains_text(hay@, needle@),
{
    let h = to_chars(hay);
    let n = to_chars(needle);
    match find_from(&h, &n, 0) {
        Some(at) => {
            assert(occurs_at(hay@, needle@, at as int));
            true
        },
        None => false,
    }
}

/// Whether `s` ends with `suffix`.
pub fn str_ends_with(s: &str, suffix: &str) -> (r: bool)
    ensures
        r == (suffix@.len() <= s@.len() && s@.subrange(s@.len() - suffix@.len(), s@.len() as int)
            == suffix@),
{
    let h = to_chars(s);
    let n = to_chars(suffix);
    if n.len() > h.len() {
        return false;
    }
    starts_at(&h, &n, h.len() - n.len())
}

/// The character sequences of a list of strings, in order.
pub open spec fn string_views(v: Seq<String>) -> Seq<Seq<char>> {
    Seq::new(v.len(), |i: int| v[i]@)
}

/// A time in seconds with three decimals, as the encoder reads it: `us`
/// microseconds rounded to the nearest millisecond, halves up.
pub open spec fn seconds_text(us: nat) -> Seq<char> {
    let ms = (us + 500) / 1000;
    decimal(ms / 1000) + "."@ + decimal_padded(ms % 1000, 3)
}

/// The time `us` in seconds with three decimals, as a string of its own.
pub fn seconds_string(us: u64) -> (r: String)
    ensures
        r@ == seconds_text(us as nat),
{
    let ms: u64 = if us % 1000 >= 500 {
        us / 1000 + 1
    } else {
        us / 1000
    };
    assert(ms == (us + 500) / 1000);
    let mut r = String::new();
    push_decimal(&mut r, ms / 1000);
    r.append(".");
    push_decimal_padded(&mut r, ms % 1000, 3);
    assert(r@ =~= seconds_text(us as nat));
    r
}

/// Appends the text `s` to the list `list`.
pub fn push_text(list: &mut Vec<String>, s: &str)
    ensures
        string_views(final(list)@) == string_views(old(list)@).push(s@),
{
    list.push(String::from_str(s));
    assert(string_views(list@) =~= string_views(old(list)@).push(s@));
}

/// Appends the string `s` to the list `list`.
pub fn push_string(list: &mut Vec<String>, s: String)
    ensures
        string_views(final(list)@) == string_views(old(list)@).push(s@),
{
    list.push(s);
    assert(string_views(list@) =~= string_views(old(list)@).push(s@));
}

/// The character sequences of a list of string slices, in order.
pub open spec fn str_views(v: Seq<&'static str>) -> Seq<Seq<char>> {
    Seq::new(v.len(), |i: int| v[i]@)
}

/// Appends the texts `items` to the list `list`, in order.
pub fn push_texts(list: &mut Vec<String>, items: Vec<&'static str>)
    ensures
        string_views(final(list)@) == string_views(old(list)@) + str_views(items@),
{
    let mut i: usize = 0;
    assert(string_views(list@) =~= string_views(old(list)@) + str_views(items@).take(0));
    while i < items.len()
        invariant
            i <= items.len(),
            string_views(list@) == string_views(old(list)@) + str_views(items@).take(i as int),
        decreases items.len() - i,
    {
        let ghost before = string_views(list@);
        push_text(list, items[i]);
        assert(before.push(items@[i as int]@) =~= string_views(old(list)@) + str_views(
            items@,
        ).take(i + 1));
        i += 1;
    }
    assert(str_views(items@).take(items.len() as int) =~= str_views(items@));
}

/// One more digit behind a run: ten times the number, and the digit.
pub proof fn lemma_decimal_value_push(s: Seq<char>, c: char)
    ensures
        decimal_value(s.push(c)) == decimal_value(s) * 10 + digit_value(c),
{
    assert(s.push(c).drop_last() =~= s);
}

/// What a run of characters is, read as a number.
#[derive(Clone, Copy, Debug, PartialEq, Eq, Structural)]
pub enum Digits {
    /// Some character is no digit.
    NotDigits,
    /// All are digits, and this is the number they spell. The empty run
    /// spells zero.
    Value(u64),
    /// All are digits, and the number they spell is too large for 64 bits.
    TooLarge,
}

/// Reads a run of characters as a number.
pub fn read_digits(s: &Vec<char>) -> (r: Digits)
    ensures
        match r {
            Digits::NotDigits => !all_digits(s@),
            Digits::Value(v) => all_digits(s@) && v == decimal_value(s@),
            Digits::TooLarge => all_digits(s@) && decimal_value(s@) > u64::MAX,
        },
{
    let mut value: u64 = 0;
    let mut beyond = false;
    let mut i: usize = 0;
    assert(s@.take(0) =~= Seq::<char>::empty());
    while i < s.len()
        invariant
            i <= s.len(),
            all_digits(s@.take(i as int)),
            !beyond ==> value == decimal_value(s@.take(i as int)),
            beyond ==> decimal_value(s@.take(i as int)) > u64::MAX,
        decreases s.len() - i,
    {
        let c = s[i];
        proof {
            assert(s@.take(i + 1) =~= s@.take(i as int).push(c));
            lemma_decimal_value_push(s@.take(i as int), c);
        }
        if !(c >= '0' && c <= '9') {
            assert(!is_digit(s@[i as int]));
            return Digits::NotDigits;
        }
        let d = (c as u32 - '0' as u32) as u64;
        if !beyond {
            if value > (u64::MAX - d) / 10 {
                beyond = true;
            } else {
                value = value * 10 + d;
            }
        }
        i += 1;
    }
    assert(s@.take(s.len() as int) =~= s@);
    if beyond {
        Digits::TooLarge
    } else {
        Digits::Value(value)
    }
}

/// The pieces of `s` between the separators `sep`, in order. There is
/// always at least one piece; pieces may be empty.
pub open spec fn split(s: Seq<char>, sep: char) -> Seq<Seq<char>>
    decreases s.len(),
{
    if s.len() == 0 {
        seq![Seq::empty()]
    } else {
        let before = split(s.drop_last(), sep);
        if s.last() == sep {
            before.push(Seq::empty())
        } else {
            before.drop_last().push(before.last().push(s.last()))
        }
    }
}

/// There is always at least one piece, and no piece holds the separator.
pub proof fn lemma_split(s: Seq<char>, sep: char)
    ensures
        split(s, sep).len() >= 1,
        forall|i: int, j: int|
            0 <= i < split(s, sep).len() && 0 <= j < split(s, sep)[i].len() ==> split(
                s,
                sep,
            )[i][j] != sep,
    decreases s.len(),
{
    if s.len() > 0 {
        lemma_split(s.drop_last(), sep);
    }
}

/// The views of a list of character lists, in order.
pub open spec fn char_views(v: Seq<Vec<char>>) -> Seq<Seq<char>> {
    Seq::new(v.len(), |i: int| v[i]@)
}

/// Cuts `s` into its pieces between the separators `sep`.
pub fn split_chars(s: &Vec<char>, sep: char) -> (pieces: Vec<Vec<char>>)
    ensures
        char_views(pieces@) == split(s@, sep),
        pieces.len() >= 1,
{
    let mut pieces: Vec<Vec<char>> = Vec::new();
    let mut current: Vec<char> = Vec::new();
    let mut i: usize = 0;
    assert(s@.take(0) =~= Seq::<char>::empty());
    assert(char_views(pieces@).push(current@) =~= split(s@.take(0), sep));
    while i < s.len()
        invariant
            i <= s.len(),
            char_views(pieces@).push(current@) == split(s@.take(i as int), sep),
        decreases s.len() - i,
    {
        let c = s[i];
        let ghost before = split(s@.take(i as int), sep);
        proof {
            assert(s@.take(i + 1).drop_last() =~= s@.take(i as int));
            assert(before.drop_last() =~= char_views(pieces@));
        }
        if c == sep {
            let mut done: Vec<char> = Vec::new();
            std::mem::swap(&mut done, &mut current);
            pieces.push(done);
            assert(char_views(pieces@) =~= before);
            assert(char_views(pieces@).push(current@) =~= before.push(Seq::empty()));
        } else {
            current.push(c);
            assert(char_views(pieces@).push(current@) =~= before.drop_last().push(
                before.last().push(c),
            ));
        }
        i += 1;
    }
    assert(s@.take(s.len() as int) =~= s@);
    let ghost head = char_views(pieces@);
    pieces.push(current);
    assert(char_views(pieces@) =~= head.push(current@));
    pieces
}

/// Whether `c` is white space.
pub open spec fn is_space(c: char) -> bool {
    ||| c == ' '
    ||| ('\t' <= c && c <= '\r')
    ||| c == '\u{85}'
    ||| c == '\u{a0}'
    ||| c == '\u{1680}'
    ||| ('\u{2000}' <= c && c <= '\u{200a}')
    ||| c == '\u{2028}'
    ||| c == '\u{2029}'
    ||| c == '\u{202f}'
    ||| c == '\u{205f}'
    ||| c == '\u{3000}'
}

/// Whether `c` is white space.
pub fn char_is_space(c: char) -> (r: bool)
    ensures
        r == is_space(c),
{
    c == ' ' || ('\t' <= c && c <= '\r') || c == '\u{85}' || c == '\u{a0}' || c == '\u{1680}' || (
    '\u{2000}' <= c && c <= '\u{200a}') || c == '\u{2028}' || c == '\u{2029}' || c == '\u{202f}'
        || c == '\u{205f}' || c == '\u{3000}'
}

/// `s` without the white space at its start.
pub open spec fn trim_start(s: Seq<char>) -> Seq<char>
    decreases s.len(),
{
    if s.len() > 0 && is_space(s.first()) {
        trim_start(s.drop_first())
    } else {
        s
    }
}

/// `s` without the white space at its end.
pub open spec fn trim_end(s: Seq<char>) -> Seq<char>
    decreases s.len(),
{
    if s.len() > 0 && is_space(s.last()) {
        trim_end(s.drop_last())
    } else {
        s
    }
}

/// `s` without the white space at its start and at its end.
pub open spec fn trimmed(s: Seq<char>) -> Seq<char> {
    trim_end(trim_start(s))
}

proof fn lemma_trim_start(s: Seq<char>, a: int)
    requires
        0 <= a <= s.len(),
        forall|i: int| 0 <= i < a ==> is_space(#[trigger] s[i]),
        a == s.len() || !is_space(s[a]),
    ensures
        trim_start(s) == s.skip(a),
    decreases a,
{
    if a == 0 {
        assert(s.skip(0) =~= s);
    } else {
        assert(is_space(s[0]));
        let rest = s.drop_first();
        assert forall|i: int| 0 <= i < a - 1 implies is_space(#[trigger] rest[i]) by {
            assert(rest[i] == s[i + 1]);
        }
        lemma_trim_start(rest, a - 1);
        assert(rest.skip(a - 1) =~= s.skip(a));
    }
}

proof fn lemma_trim_end(s: Seq<char>, b: int)
    requires
        0 <= b <= s.len(),
        forall|i: int| b <= i < s.len() ==> is_space(#[trigger] s[i]),
        b == 0 || !is_space(s[b - 1]),
    ensures
        trim_end(s) == s.take(b),
    decreases s.len() - b,
{
    if b == s.len() {
        assert(s.take(b) =~= s);
    } else {
        assert(is_space(s[s.len() - 1]));
        let rest = s.drop_last();
        lemma_trim_end(rest, b);
        assert(rest.take(b) =~= s.take(b));
    }
}

/// The characters of `s` without the white space at its start and at its
/// end.
pub fn trim_chars(s: &Vec<char>) -> (r: Vec<char>)
    ensures
        r@ == trimmed(s@),
{
    let mut a: usize = 0;
    while a < s.len() && char_is_space(s[a])
        invariant
            a <= s.len(),
            forall|i: int| 0 <= i < a ==> is_space(#[trigger] s@[i]),
        decreases s.len() - a,
    {
        a += 1;
    }
    let mut b: usize = s.len();
    while b > a && char_is_space(s[b - 1])
        invariant
            a <= b <= s.len(),
            forall|i: int| b <= i < s.len() ==> is_space(#[trigger] s@[i]),
        decreases b,
    {
        b -= 1;
    }
    let mut r: Vec<char> = Vec::new();
    let mut i: usize = a;
    while i < b
        invariant
            a <= i <= b <= s.len(),
            r@ == s@.subrange(a as int, i as int),
        decreases b - i,
    {
        r.push(s[i]);
        assert(r@ =~= s@.subrange(a as int, i + 1));
        i += 1;
    }
    proof {
        lemma_trim_start(s@, a as int);
        let front = s@.skip(a as int);
        assert forall|k: int| b - a <= k < front.len() implies is_space(#[trigger] front[k]) by {
            assert(front[k] == s@[k + a]);
        }
        if b > a {
            assert(front[b - a - 1] == s@[b - 1]);
        }
        lemma_trim_end(front, b - a);
        assert(front.take(b - a) =~= s@.subrange(a as int, b as int));
    }
    r
}

/// The view of an optional text.
pub open spec fn text_view(text: Option<String>) -> Option<Seq<char>> {
    match text {
        Some(t) => Some(t@),
        None => None,
    }
}

/// A copy of an optional text.
pub fn clone_text(text: &Option<String>) -> (r: Option<String>)
    ensures
        text_view(r) == text_view(*text),
{
    match text {
        Some(t) => Some(t.clone()),
        None => None,
    }
}

/// The number that `s` spells: digits, with or without a plus sign in
/// front. There is none where `s` holds anything else, or no digit.
pub open spec fn unsigned_of_text(s: Seq<char>) -> Option<nat> {
    let body = if s.len() > 0 && s[0] == '+' {
        s.skip(1)
    } else {
        s
    };
    if body.len() > 0 && all_digits(body) {
        Some(decimal_value(body))
    } else {
        None
    }
}

/// The number that `s` spells, where it fits 64 bits.
pub open spec fn u64_of_text(s: Seq<char>) -> Option<u64> {
    match unsigned_of_text(s) {
        Some(n) => if n <= u64::MAX {
            Some(n as u64)
        } else {
            None
        },
        None => None,
    }
}

/// The number that `s` spells, where it fits 32 bits.
pub open spec fn u32_of_text(s: Seq<char>) -> Option<u32> {
    match unsigned_of_text(s) {
        Some(n) => if n <= u32::MAX {
            Some(n as u32)
        } else {
            None
        },
        None => None,
    }
}

/// Reads a number; see [`u64_of_text`].
pub fn parse_u64(field: &Vec<char>) -> (r: Option<u64>)
    ensures
        r == u64_of_text(field@),
{
    let mut body: Vec<char> = Vec::new();
    let from: usize = if field.len() > 0 && field[0] == '+' {
        1
    } else {
        0
    };
    let mut i: usize = from;
    while i < field.len()
        invariant
            from <= i <= field.len(),
            body@ == field@.subrange(from as int, i as int),
        decreases field.len() - i,
    {
        body.push(field[i]);
        assert(body@ =~= field@.subrange(from as int, i + 1));
        i += 1;
    }
    assert(body@ =~= field@.skip(from as int));
    assert(field@.skip(0) =~= field@);
    if body.len() == 0 {
        return None;
    }
    match read_digits(&body) {
        Digits::Value(v) => Some(v),
        _ => None,
    }
}

/// Reads a number; see [`u32_of_text`].
pub fn parse_u32(field: &Vec<char>) -> (r: Option<u32>)
    ensures
        r == u32_of_text(field@),
{
    match parse_u64(field) {
        Some(v) => if v <= u32::MAX as u64 {
            Some(v as u32)
        } else {
            None
        },
        None => None,
    }
}

} // verus!
