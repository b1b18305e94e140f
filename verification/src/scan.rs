use vstd::prelude::*;

verus! {

/// The contents of a list of character buffers.
pub open spec fn views(v: Seq<Vec<char>>) -> Seq<Seq<char>> {
    v.map_values(|x: Vec<char>| x@)
}

/// Unicode `White_Space`, the set that `char::is_whitespace` tests.
pub open spec fn is_space(c: char) -> bool {
    let u = c as u32;
    ||| u == 9 || u == 10 || u == 11 || u == 12 || u == 13 || u == 32
    ||| u == 0x85 || u == 0xA0 || u == 0x1680
    ||| (0x2000 <= u && u <= 0x200A)
    ||| u == 0x2028 || u == 0x2029 || u == 0x202F || u == 0x205F || u == 0x3000
}

/// Tests whether `c` is white space, as `char::is_whitespace` does.
pub fn is_space_char(c: char) -> (b: bool)
    ensures
        b == is_space(c),
{
    let u = c as u32;
    u == 9 || u == 10 || u == 11 || u == 12 || u == 13 || u == 32 || u == 0x85 || u == 0xA0
        || u == 0x1680 || (0x2000 <= u && u <= 0x200A) || u == 0x2028 || u == 0x2029 || u
        == 0x202F || u == 0x205F || u == 0x3000
}

/// The maximal runs of non-space characters of `s`, in order: what
/// `str::split_whitespace` yields.
pub open spec fn words(s: Seq<char>) -> Seq<Seq<char>>
    decreases s.len(),
{
    if s.len() == 0 {
        Seq::empty()
    } else {
        let prev = words(s.drop_last());
        let c = s.last();
        if is_space(c) {
            prev
        } else if s.len() >= 2 && !is_space(s[s.len() - 2]) && prev.len() > 0 {
            prev.update(prev.len() - 1, prev.last().push(c))
        } else {
            prev.push(seq![c])
        }
    }
}

/// The pieces of `s` between occurrences of `sep`: what `str::split` yields
/// for a character pattern (always at least one piece).
pub open spec fn split(s: Seq<char>, sep: char) -> Seq<Seq<char>>
    decreases s.len(),
{
    if s.len() == 0 {
        seq![Seq::empty()]
    } else {
        let prev = split(s.drop_last(), sep);
        if s.last() == sep {
            prev.push(Seq::empty())
        } else {
            prev.update(prev.len() - 1, prev.last().push(s.last()))
        }
    }
}

/// A line with the carriage return of a `\r\n` ending removed.
pub open spec fn strip_cr(l: Seq<char>) -> Seq<char> {
    if l.len() > 0 && l.last() == '\r' {
        l.drop_last()
    } else {
        l
    }
}

/// The lines of `s`, as `str::lines` yields them: split at `\n`, with a
/// `\r` before a `\n` removed, and no empty line after a final `\n`.
pub open spec fn lines(s: Seq<char>) -> Seq<Seq<char>> {
    let p = split(s, '\n');
    let ended = p.drop_last().map_values(|l: Seq<char>| strip_cr(l));
    if p.last().len() == 0 {
        ended
    } else {
        ended.push(p.last())
    }
}

pub proof fn lemma_split_len(s: Seq<char>, sep: char)
    ensures
        1 <= split(s, sep).len() <= s.len() + 1,
    decreases s.len(),
{
    if s.len() > 0 {
        lemma_split_len(s.drop_last(), sep);
    }
}

/// Splits `s` at every `sep`, as `str::split` with a character pattern does.
pub fn split_chars(s: &Vec<char>, sep: char) -> (out: Vec<Vec<char>>)
    ensures
        views(out@) == split(s@, sep),
{
    let mut out: Vec<Vec<char>> = Vec::new();
    let mut cur: Vec<char> = Vec::new();
    let n = s.len();
    let mut i: usize = 0;
    while i < n
        invariant
            n == s@.len(),
            i <= n,
            views(out@).push(cur@) == split(s@.take(i as int), sep),
        decreases n - i,
    {
        let c = s[i];
        let ghost prev = split(s@.take(i as int), sep);
        proof {
            assert(s@.take(i + 1).drop_last() =~= s@.take(i as int));
            lemma_split_len(s@.take(i as int), sep);
        }
        if c == sep {
            out.push(cur);
            cur = Vec::new();
            assert(views(out@).push(cur@) =~= prev.push(Seq::empty()));
        } else {
            let ghost old_out = views(out@);
            cur.push(c);
            assert(views(out@).push(cur@) =~= prev.update(prev.len() - 1, prev.last().push(c)));
        }
        i = i + 1;
    }
    out.push(cur);
    assert(s@.take(n as int) =~= s@);
    out
}

/// Splits `s` into its runs of non-space characters, as
/// `str::split_whitespace` does.
pub fn words_of(s: &Vec<char>) -> (out: Vec<Vec<char>>)
    ensures
        views(out@) == words(s@),
{
    let mut out: Vec<Vec<char>> = Vec::new();
    let mut cur: Vec<char> = Vec::new();
    let mut in_word = false;
    let n = s.len();
    let mut i: usize = 0;
    while i < n
        invariant
            n == s@.len(),
            i <= n,
            in_word == (i > 0 && !is_space(s@[i - 1])),
            in_word ==> cur@.len() > 0 && views(out@).push(cur@) == words(s@.take(i as int)),
            !in_word ==> cur@.len() == 0 && views(out@) == words(s@.take(i as int)),
        decreases n - i,
    {
        let c = s[i];
        let ghost prev = words(s@.take(i as int));
        proof {
            assert(s@.take(i + 1).drop_last() =~= s@.take(i as int));
            assert(s@.take(i + 1).last() == c);
            if i > 0 {
                assert(s@.take(i + 1)[i - 1] == s@[i - 1]);
            }
        }
        if is_space_char(c) {
            if in_word {
                out.push(cur);
                cur = Vec::new();
            }
            in_word = false;
        } else {
            if in_word {
                cur.push(c);
                assert(views(out@).push(cur@) =~= prev.update(prev.len() - 1, prev.last().push(c)));
            } else {
                cur.push(c);
                assert(cur@ =~= seq![c]);
                assert(views(out@).push(cur@) =~= prev.push(seq![c]));
            }
            in_word = true;
        }
        i = i + 1;
    }
    if in_word {
        out.push(cur);
    }
    assert(s@.take(n as int) =~= s@);
    out
}

/// Splits `s` into lines, as `str::lines` does.
pub fn lines_of(s: &Vec<char>) -> (out: Vec<Vec<char>>)
    ensures
        views(out@) == lines(s@),
{
    let pieces = split_chars(s, '\n');
    proof {
        lemma_split_len(s@, '\n');
    }
    let ghost p = split(s@, '\n');
    let k = pieces.len();
    let mut out: Vec<Vec<char>> = Vec::new();
    let mut i: usize = 0;
    while i + 1 < k
        invariant
            k == pieces@.len(),
            k >= 1,
            views(pieces@) == p,
            i + 1 <= k,
            views(out@) == p.take(i as int).map_values(|l: Seq<char>| strip_cr(l)),
        decreases k - i,
    {
        let mut line: Vec<char> = pieces[i].clone();
        assert(line@ == p[i as int]);
        let len = line.len();
        if len > 0 && line[len - 1] == '\r' {
            line.pop();
        }
        assert(line@ == strip_cr(p[i as int]));
        let ghost before = views(out@);
        out.push(line);
        assert(views(out@) =~= before.push(strip_cr(p[i as int])));
        assert(p.take(i + 1).map_values(|l: Seq<char>| strip_cr(l)) =~= p.take(i as int).map_values(
            |l: Seq<char>| strip_cr(l),
        ).push(strip_cr(p[i as int])));
        i = i + 1;
    }
    assert(p.take(i as int) =~= p.drop_last());
    let last: Vec<char> = pieces[k - 1].clone();
    assert(last@ == p.last());
    if last.len() > 0 {
        out.push(last);
        assert(views(out@) =~= lines(s@));
    } else {
        assert(views(out@) =~= lines(s@));
    }
    out
}


/// A decimal digit character.
pub open spec fn is_digit(c: char) -> bool {
    48 <= (c as u32) && (c as u32) <= 57
}

/// The value of a decimal digit character.
pub open spec fn digit_value(c: char) -> nat {
    ((c as u32) - 48) as nat
}

/// The value of a string of decimal digits.
pub open spec fn digits_value(s: Seq<char>) -> nat
    decreases s.len(),
{
    if s.len() == 0 {
        0
    } else {
        digits_value(s.drop_last()) * 10 + digit_value(s.last())
    }
}

pub open spec fn all_digits(s: Seq<char>) -> bool {
    forall|i: int| 0 <= i < s.len() ==> is_digit(#[trigger] s[i])
}

/// The digits of an unsigned number: the text without one leading `+`.
pub open spec fn unsigned_digits(s: Seq<char>) -> Seq<char> {
    if s.len() > 0 && s[0] == '+' {
        s.drop_first()
    } else {
        s
    }
}

/// What `str::parse` gives for an unsigned integer type whose largest value
/// is `max`: the value of the text, which is an optional `+` and one or
/// more decimal digits, when it is at most `max`.
pub open spec fn parse_unsigned(s: Seq<char>, max: nat) -> Option<nat> {
    let d = unsigned_digits(s);
    if d.len() > 0 && all_digits(d) && digits_value(d) <= max {
        Some(digits_value(d))
    } else {
        None
    }
}

proof fn lemma_prefix_value_le(s: Seq<char>, i: int)
    requires
        all_digits(s),
        0 <= i <= s.len(),
    ensures
        digits_value(s.take(i)) <= digits_value(s),
    decreases s.len() - i,
{
    if i < s.len() {
        lemma_prefix_value_le(s, i + 1);
        assert(s.take(i + 1).drop_last() =~= s.take(i));
    } else {
        assert(s.take(i) =~= s);
    }
}

/// Parses an unsigned number of at most `max`, as `str::parse` does for the
/// integer type whose largest value is `max`.
fn parse_bounded(s: &Vec<char>, max: u64) -> (r: Option<u64>)
    requires
        max <= u32::MAX,
    ensures
        match r {
            Some(v) => parse_unsigned(s@, max as nat) == Some(v as nat),
            None => parse_unsigned(s@, max as nat) is None,
        },
{
    let n = s.len();
    let start: usize = if n > 0 && s[0] == '+' { 1 } else { 0 };
    let ghost d = unsigned_digits(s@);
    assert(d =~= s@.skip(start as int));
    if start == n {
        return None;
    }
    let mut acc: u64 = 0;
    let mut i: usize = start;
    while i < n
        invariant
            n == s@.len(),
            start <= i <= n,
            d == s@.skip(start as int),
            d == unsigned_digits(s@),
            max <= u32::MAX,
            acc <= max,
            all_digits(d.take(i - start)),
            acc == digits_value(d.take(i - start)),
        decreases n - i,
    {
        let c = s[i];
        let u = c as u32;
        if u < 48 || u > 57 {
            assert(d[i - start] == c);
            assert(!is_digit(c));
            assert(!all_digits(d));
            assert(parse_unsigned(s@, max as nat) is None);
            return None;
        }
        let ghost k = i - start;
        assert(d[k] == c);
        assert(d.take(k + 1).drop_last() =~= d.take(k));
        assert(d.take(k + 1).last() == c);
        assert(digit_value(c) == u - 48);
        let ghost before = acc;
        acc = acc * 10 + (u - 48) as u64;
        i = i + 1;
        assert(acc == digits_value(d.take(k + 1)));
        assert(all_digits(d.take(i - start))) by {
            assert forall|j: int| 0 <= j < d.take(k + 1).len() implies is_digit(
                #[trigger] d.take(k + 1)[j],
            ) by {
                if j < k {
                    assert(d.take(k + 1)[j] == d.take(k)[j]);
                }
            }
        }
        if acc > max {
            proof {
                if all_digits(d) {
                    lemma_prefix_value_le(d, i - start);
                }
            }
            return None;
        }
    }
    assert(d.take(n - start) =~= d);
    Some(acc)
}

/// Parses a `u32` as `str::parse::<u32>` does.
pub fn parse_u32(s: &Vec<char>) -> (r: Option<u32>)
    ensures
        match r {
            Some(v) => parse_unsigned(s@, u32::MAX as nat) == Some(v as nat),
            None => parse_unsigned(s@, u32::MAX as nat) is None,
        },
{
    match parse_bounded(s, u32::MAX as u64) {
        Some(v) => Some(v as u32),
        None => None,
    }
}

/// Parses a `u16` as `str::parse::<u16>` does.
pub fn parse_u16(s: &Vec<char>) -> (r: Option<u16>)
    ensures
        match r {
            Some(v) => parse_unsigned(s@, u16::MAX as nat) == Some(v as nat),
            None => parse_unsigned(s@, u16::MAX as nat) is None,
        },
{
    match parse_bounded(s, u16::MAX as u64) {
        Some(v) => Some(v as u16),
        None => None,
    }
}

/// `needle` occurs in `hay` at position `i`.
pub open spec fn occurs_at(hay: Seq<char>, needle: Seq<char>, i: int) -> bool {
    0 <= i && i + needle.len() <= hay.len() && hay.subrange(i, i + needle.len()) == needle
}

/// `needle` occurs somewhere in `hay`, as `str::contains` tests.
pub open spec fn contains(hay: Seq<char>, needle: Seq<char>) -> bool {
    exists|i: int| occurs_at(hay, needle, i)
}

fn occurs_at_exec(hay: &Vec<char>, needle: &Vec<char>, i: usize) -> (b: bool)
    requires
        i + needle@.len() <= hay@.len(),
    ensures
        b == occurs_at(hay@, needle@, i as int),
{
    let n = hay.len();
    let m = needle.len();
    let mut j: usize = 0;
    while j < m
        invariant
            m == needle@.len(),
            n == hay@.len(),
            i + m <= hay@.len(),
            j <= m,
            forall|k: int| 0 <= k < j ==> hay@[i + k] == needle@[k],
        decreases m - j,
    {
        assert(i + j < hay@.len());
        if hay[i + j] != needle[j] {
            assert(hay@.subrange(i as int, i + m)[j as int] != needle@[j as int]);
            return false;
        }
        j = j + 1;
    }
    assert(hay@.subrange(i as int, i + m) =~= needle@);
    true
}

/// Tests whether `needle` occurs in `hay`, as `str::contains` does.
pub fn contains_chars(hay: &Vec<char>, needle: &Vec<char>) -> (b: bool)
    ensures
        b == contains(hay@, needle@),
{
    let n = hay.len();
    let m = needle.len();
    if m == 0 {
        assert(hay@.subrange(0, 0) =~= needle@);
        assert(occurs_at(hay@, needle@, 0));
        return true;
    }
    if m > n {
        return false;
    }
    let mut i: usize = 0;
    while i <= n - m
        invariant
            n == hay@.len(),
            m == needle@.len(),
            1 <= m <= n,
            i <= n - m + 1,
            forall|k: int| 0 <= k < i ==> !occurs_at(hay@, needle@, k),
        decreases n - i,
    {
        if occurs_at_exec(hay, needle, i) {
            return true;
        }
        i = i + 1;
    }
    false
}

} // verus!
