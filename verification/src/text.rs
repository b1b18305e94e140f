use vstd::prelude::*;
use vstd::string::*;

verus! {

/// The characters of a string slice, in order.
pub fn chars_of(s: &str) -> (v: Vec<char>)
    ensures
        v@ == s@,
{
    let mut v: Vec<char> = Vec::new();
    for c in it: s.chars()
        invariant
            v@ == it.seq().take(it.index() as int),
            it.seq() == s@,
    {
        v.push(c);
    }
    v
}

/// The character of a decimal digit.
pub open spec fn digit_char(d: int) -> char {
    (48 + d) as char
}

/// The decimal rendering of a natural number, as `to_string` gives it.
pub open spec fn decimal(n: nat) -> Seq<char>
    decreases n,
{
    if n < 10 {
        seq![digit_char(n as int)]
    } else {
        decimal(n / 10).push(digit_char((n % 10) as int))
    }
}

fn digit_str(d: u64) -> (s: &'static str)
    requires
        d < 10,
    ensures
        s@ == seq![digit_char(d as int)],
{
    proof {
        reveal_strlit("0");
        reveal_strlit("1");
        reveal_strlit("2");
        reveal_strlit("3");
        reveal_strlit("4");
        reveal_strlit("5");
        reveal_strlit("6");
        reveal_strlit("7");
        reveal_strlit("8");
        reveal_strlit("9");
    }
    match d {
        0 => "0",
        1 => "1",
        2 => "2",
        3 => "3",
        4 => "4",
        5 => "5",
        6 => "6",
        7 => "7",
        8 => "8",
        _ => "9",
    }
}

/// Renders `n` in decimal, as `n.to_string()` does.
pub fn to_decimal(n: u64) -> (s: String)
    ensures
        s@ == decimal(n as nat),
    decreases n,
{
    if n < 10 {
        String::from_str(digit_str(n))
    } else {
        let mut s = to_decimal(n / 10);
        s.append(digit_str(n % 10));
        s
    }
}


/// What `formatMemory` shows for a byte count: whole mebibytes with `M`,
/// or, below one mebibyte, whole kibibytes with `K`.
pub open spec fn memory_label(bytes: nat) -> Seq<char> {
    let kb = bytes / 1024;
    let mb = kb / 1024;
    if mb > 0 {
        decimal(mb).push('M')
    } else {
        decimal(kb).push('K')
    }
}

/// Formats a byte count for display, e.g. `3145728` as `3M` and `2048` as `2K`.
#[allow(non_snake_case)]
pub fn formatMemory(bytes: u64) -> (s: String)
    ensures
        s@ == memory_label(bytes as nat),
{
    proof {
        reveal_strlit("M");
        reveal_strlit("K");
    }
    let kb = bytes / 1024;
    let mb = kb / 1024;
    if mb > 0 {
        let mut s = to_decimal(mb);
        s.append("M");
        s
    } else {
        let mut s = to_decimal(kb);
        s.append("K");
        s
    }
}

/// The ellipsis that marks a shortened text.
pub open spec fn ellipsis() -> char {
    '\u{2026}'
}

/// A text shortened to at most `width` characters: unchanged when it fits,
/// otherwise its first `width - 1` characters followed by an ellipsis.
pub open spec fn truncated(text: Seq<char>, width: nat) -> Seq<char> {
    if width == 0 {
        Seq::empty()
    } else if text.len() <= width {
        text
    } else {
        text.take(width - 1).push(ellipsis())
    }
}

/// Shortens `text` to at most `max_width` characters, ending a shortened
/// text with an ellipsis.
#[allow(non_snake_case)]
pub fn truncateWithEllipsis(text: &str, max_width: usize) -> (s: String)
    ensures
        s@ == truncated(text@, max_width as nat),
        s@.len() <= max_width,
{
    proof {
        reveal_strlit("\u{2026}");
    }
    if max_width == 0 {
        return String::new();
    }
    let char_count = text.unicode_len();
    if char_count <= max_width {
        return String::from_str(text);
    }
    if max_width == 1 {
        let s = String::from_str("\u{2026}");
        assert(text@.take(0) =~= Seq::<char>::empty());
        assert(s@ =~= truncated(text@, 1));
        return s;
    }
    let keep = max_width - 1;
    let mut s = String::from_str(text.substring_char(0, keep));
    s.append("\u{2026}");
    s
}


/// The lower-case form of a text under Unicode case mapping, as
/// `str::to_lowercase` computes it.
pub uninterp spec fn lowercase(s: Seq<char>) -> Seq<char>;

/// Calls `str::to_lowercase`. Claimed: the result is `lowercase` of the
/// text, a function of the text alone (std's fixed Unicode tables), and it
/// is empty exactly when the text is, since std maps every character to one
/// or more characters; nothing more is stated of the mapping.
#[verifier::external_body]
pub(crate) fn to_lowercase(s: &str) -> (r: String)
    ensures
        r@ == lowercase(s@),
        (r@.len() == 0) == (s@.len() == 0),
{
    s.to_lowercase()
}

/// Calls `String::push`. Claimed, as std documents it: the character is
/// appended at the end.
#[verifier::external_body]
pub(crate) fn push_char(s: &mut String, c: char)
    ensures
        final(s)@ == old(s)@.push(c),
{
    s.push(c)
}

/// Removes the last character of `s` and returns it; an empty string is
/// left alone with `None`, as `String::pop` does.
pub(crate) fn pop_char(s: &mut String) -> (r: Option<char>)
    ensures
        old(s)@.len() == 0 ==> r is None && final(s)@ == old(s)@,
        old(s)@.len() > 0 ==> r == Some(old(s)@.last()) && final(s)@ == old(s)@.drop_last(),
{
    let n = s.as_str().unicode_len();
    if n == 0 {
        return None;
    }
    let c = s.as_str().get_char(n - 1);
    let rest = String::from_str(s.as_str().substring_char(0, n - 1));
    *s = rest;
    Some(c)
}

/// A string of the given characters.
pub fn string_of(v: &Vec<char>) -> (s: String)
    ensures
        s@ == v@,
{
    let mut s = String::new();
    let n = v.len();
    let mut i: usize = 0;
    while i < n
        invariant
            n == v@.len(),
            i <= n,
            s@ == v@.take(i as int),
        decreases n - i,
    {
        push_char(&mut s, v[i]);
        assert(v@.take(i + 1) =~= v@.take(i as int).push(v@[i as int]));
        i = i + 1;
    }
    assert(v@.take(n as int) =~= v@);
    s
}

} // verus!
