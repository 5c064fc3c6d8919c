use vstd::prelude::*;

verus! {

/// Unicode's White_Space property, the set of code points that std's string
/// functions treat as white space.
pub open spec fn is_white(c: char) -> bool {
    ('\t' <= c && c <= '\r') || c == ' ' || c == '\u{85}' || c == '\u{a0}' || c == '\u{1680}'
        || ('\u{2000}' <= c && c <= '\u{200a}') || c == '\u{2028}' || c == '\u{2029}'
        || c == '\u{202f}' || c == '\u{205f}' || c == '\u{3000}'
}

/// The words of `s` after the pending word `cur`: a word is a maximal run of
/// characters that are not white space.
pub open spec fn words_after(s: Seq<char>, cur: Seq<char>) -> Seq<Seq<char>>
    decreases s.len(),
{
    let done: Seq<Seq<char>> = if cur.len() > 0 { seq![cur] } else { seq![] };
    if s.len() == 0 {
        done
    } else if is_white(s[0]) {
        done + words_after(s.drop_first(), seq![])
    } else {
        words_after(s.drop_first(), cur.push(s[0]))
    }
}

/// The white-space separated words of `s`, in order.
pub open spec fn words(s: Seq<char>) -> Seq<Seq<char>> {
    words_after(s, seq![])
}

/// `s` without its leading white space.
pub open spec fn trim_start(s: Seq<char>) -> Seq<char>
    decreases s.len(),
{
    if s.len() > 0 && is_white(s[0]) {
        trim_start(s.drop_first())
    } else {
        s
    }
}

/// `s` without its trailing white space.
pub open spec fn trim_end(s: Seq<char>) -> Seq<char>
    decreases s.len(),
{
    if s.len() > 0 && is_white(s.last()) {
        trim_end(s.drop_last())
    } else {
        s
    }
}

/// `s` without leading and trailing white space.
pub open spec fn trimmed(s: Seq<char>) -> Seq<char> {
    trim_end(trim_start(s))
}

/// The texts `ws` joined with `sep` between neighbours.
pub open spec fn joined_by(sep: Seq<char>, ws: Seq<Seq<char>>) -> Seq<char>
    decreases ws.len(),
{
    if ws.len() == 0 {
        seq![]
    } else if ws.len() == 1 {
        ws[0]
    } else {
        joined_by(sep, ws.drop_last()) + sep + ws.last()
    }
}

/// The words `ws` joined with one space between neighbours.
pub open spec fn joined(ws: Seq<Seq<char>>) -> Seq<char> {
    joined_by(seq![' '], ws)
}

/// The character views of a sequence of strings.
pub open spec fn views(v: Seq<String>) -> Seq<Seq<char>> {
    v.map_values(|w: String| w@)
}

/// An ASCII decimal digit.
pub open spec fn is_digit(c: char) -> bool {
    '0' <= c && c <= '9'
}

/// The number written by the decimal digits `s` (most significant first).
pub open spec fn digits_value(s: Seq<char>) -> nat
    decreases s.len(),
{
    if s.len() == 0 {
        0
    } else {
        digits_value(s.drop_last()) * 10 + ((s.last() as int - '0' as int) as nat)
    }
}

/// Every character of `s` is a decimal digit.
pub open spec fn all_digits(s: Seq<char>) -> bool {
    forall|i: int| 0 <= i < s.len() ==> is_digit(#[trigger] s[i])
}

/// The number that `s` writes as bare base-10 digits: one or more decimal
/// digits and nothing else, with a value that fits in a `u32`.
pub open spec fn digits_of(s: Seq<char>) -> Option<u32> {
    if s.len() > 0 && all_digits(s) && digits_value(s) <= u32::MAX {
        Some(digits_value(s) as u32)
    } else {
        None
    }
}

/// The number that `s` writes as std reads a `u32`: an optional `+`
/// followed by bare base-10 digits.
pub open spec fn unsigned_of(s: Seq<char>) -> Option<u32> {
    if s.len() > 0 && s[0] == '+' {
        digits_of(s.drop_first())
    } else {
        digits_of(s)
    }
}

/// Text with a character that is not a digit does not read as bare digits.
pub proof fn lemma_non_digit_not_digits(s: Seq<char>, i: int)
    requires
        0 <= i < s.len(),
        !is_digit(s[i]),
    ensures
        digits_of(s) is None,
{
}

/// Text with a character that is not a digit, other than a leading `+`, does
/// not read as a `u32`.
pub proof fn lemma_non_digit_not_unsigned(s: Seq<char>, i: int)
    requires
        0 <= i < s.len(),
        !is_digit(s[i]),
        !(i == 0 && s[0] == '+'),
    ensures
        unsigned_of(s) is None,
{
    if s.len() > 0 && s[0] == '+' {
        assert(s.drop_first()[i - 1] == s[i]);
    }
}

/// Bare digits read the same with or without the optional `+`.
pub proof fn lemma_digits_are_unsigned(s: Seq<char>)
    requires
        s.len() > 0,
        all_digits(s),
    ensures
        unsigned_of(s) == digits_of(s),
{
    assert(is_digit(s[0]));
}

/// A lowercase form of `s`, as std's Unicode case mapping gives it.
pub uninterp spec fn lower_of(s: Seq<char>) -> Seq<char>;

/// The character that writes the decimal digit `d`.
pub open spec fn digit_char(d: nat) -> char {
    ((d + 48) as u8) as char
}

/// The decimal numeral of `n`, without leading zeros.
pub open spec fn decimal_of(n: nat) -> Seq<char>
    decreases n,
{
    if n < 10 {
        seq![digit_char(n)]
    } else {
        decimal_of(n / 10).push(digit_char(n % 10))
    }
}

/// The decimal numeral of `n`, padded with a zero to at least two digits.
pub open spec fn two_digits_of(n: nat) -> Seq<char> {
    if n < 10 {
        seq!['0'] + decimal_of(n)
    } else {
        decimal_of(n)
    }
}

/// Relies on `str::split_whitespace`: the maximal runs of characters that are
/// not White_Space, in order.
#[verifier::external_body]
pub(crate) fn split_words(s: &str) -> (r: Vec<String>)
    ensures
        views(r@) == words(s@),
{
    s.split_whitespace().map(String::from).collect()
}

/// Relies on `str::trim`: the slice without leading and trailing White_Space.
#[verifier::external_body]
pub(crate) fn trim_white<'a>(s: &'a str) -> (r: &'a str)
    ensures
        r@ == trimmed(s@),
{
    s.trim()
}

/// Relies on `str::to_lowercase`: its result depends on the characters alone.
#[verifier::external_body]
pub(crate) fn lowercase(s: &str) -> (r: String)
    ensures
        r@ == lower_of(s@),
{
    s.to_lowercase()
}

/// Relies on `u32::from_str` (through `str::parse`): an optional `+` and one
/// or more ASCII digits whose value fits in a `u32`, and nothing else.
#[verifier::external_body]
pub(crate) fn parse_unsigned(s: &str) -> (r: Option<u32>)
    ensures
        r == unsigned_of(s@),
{
    s.parse::<u32>().ok()
}

/// Relies on `String::push`: appends one character.
#[verifier::external_body]
pub(crate) fn push_char(s: &mut String, c: char)
    ensures
        final(s)@ == old(s)@.push(c),
{
    s.push(c)
}

/// Whether every character of `s` is a decimal digit.
pub fn is_all_digits(s: &str) -> (r: bool)
    ensures
        r == all_digits(s@),
{
    let len = s.unicode_len();
    let mut i: usize = 0;
    while i < len
        invariant
            len == s@.len(),
            i <= len,
            forall|j: int| 0 <= j < i ==> is_digit(#[trigger] s@[j]),
        decreases len - i,
    {
        let c = s.get_char(i);
        if !('0' <= c && c <= '9') {
            assert(!is_digit(s@[i as int]));
            return false;
        }
        i = i + 1;
    }
    true
}

/// Joins `ws[from..]` with `sep` between neighbours.
pub fn join_from(ws: &Vec<String>, from: usize, sep: &str) -> (r: String)
    requires
        from <= ws.len(),
    ensures
        r@ == joined_by(sep@, views(ws@).subrange(from as int, ws@.len() as int)),
{
    let mut acc = String::new();
    let mut i: usize = from;
    while i < ws.len()
        invariant
            from <= i <= ws.len(),
            acc@ == joined_by(sep@, views(ws@).subrange(from as int, i as int)),
        decreases ws.len() - i,
    {
        let ghost before = views(ws@).subrange(from as int, i as int);
        let ghost after = views(ws@).subrange(from as int, i + 1);
        assert(after.drop_last() =~= before);
        if i > from {
            acc.append(sep);
        }
        acc.append(ws[i].as_str());
        i = i + 1;
        proof {
            assert(after.last() == ws@[i - 1]@);
            assert(acc@ =~= joined_by(sep@, after));
        }
    }
    acc
}

/// The text `a` followed by the text `b`.
pub fn cat(a: &str, b: &str) -> (r: String)
    ensures
        r@ == a@ + b@,
{
    let mut r = a.to_owned();
    r.append(b);
    r
}

/// The decimal numeral of `n`.
pub fn decimal(n: u32) -> (r: String)
    ensures
        r@ == decimal_of(n as nat),
    decreases n,
{
    let d: u32 = n % 10;
    let c = ((d as u8) + 48u8) as char;
    let mut s = if n < 10 {
        String::new()
    } else {
        decimal(n / 10)
    };
    push_char(&mut s, c);
    proof {
        if n < 10 {
            assert(s@ =~= seq![digit_char(n as nat)]);
        }
    }
    s
}

/// The decimal numeral of `n`, padded with a zero to at least two digits.
pub fn two_digits(n: u32) -> (r: String)
    ensures
        r@ == two_digits_of(n as nat),
{
    let mut s = String::new();
    if n < 10 {
        push_char(&mut s, '0');
    }
    let d = decimal(n);
    s.append(d.as_str());
    proof {
        if n < 10 {
            assert(s@ =~= seq!['0'] + decimal_of(n as nat));
        } else {
            assert(s@ =~= decimal_of(n as nat));
        }
    }
    s
}

} // verus!
