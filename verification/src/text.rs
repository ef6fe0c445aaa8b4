//! Text as sequences of characters: the few string operations that the rest of
//! the library needs, each with its meaning over `Seq<char>`.

use vstd::prelude::*;
use vstd::string::*;

verus! {

/// The texts of a sequence of strings.
pub open spec fn texts(strings: Seq<String>) -> Seq<Seq<char>> {
    strings.map_values(|s: String| s@)
}

/// `text` without `prefix` at its front, where it starts with it.
pub open spec fn without_prefix(text: Seq<char>, prefix: Seq<char>) -> Option<Seq<char>> {
    if prefix.is_prefix_of(text) {
        Some(text.skip(prefix.len() as int))
    } else {
        None
    }
}

/// `part` occurs somewhere in `text`.
pub open spec fn occurs_in(part: Seq<char>, text: Seq<char>) -> bool {
    exists|i: int|
        0 <= i <= text.len() - part.len() && #[trigger] text.subrange(i, i + part.len()) == part
}

/// The parts in order, with `separator` between neighbours.
pub open spec fn joined(parts: Seq<Seq<char>>, separator: Seq<char>) -> Seq<char>
    decreases parts.len(),
{
    if parts.len() == 0 {
        Seq::empty()
    } else if parts.len() == 1 {
        parts[0]
    } else {
        joined(parts.drop_last(), separator) + separator + parts.last()
    }
}

/// The place of the first line feed in `text`, or its length if it has none.
pub open spec fn line_end(text: Seq<char>) -> nat
    decreases text.len(),
{
    if text.len() == 0 || text[0] == '\n' {
        0
    } else {
        1 + line_end(text.skip(1))
    }
}

/// A line that a line feed ended, without the carriage return that belonged to
/// that line ending.
pub open spec fn without_return(line: Seq<char>) -> Seq<char> {
    if line.len() > 0 && line.last() == '\r' {
        line.drop_last()
    } else {
        line
    }
}

/// The lines of `text`: `\n` and `\r\n` both end a line, and the ending of the
/// last line is optional.
pub open spec fn lines(text: Seq<char>) -> Seq<Seq<char>>
    decreases text.len(),
{
    if text.len() == 0 {
        Seq::empty()
    } else if line_end(text) >= text.len() {
        seq![text]
    } else {
        seq![without_return(text.take(line_end(text) as int))] + lines(text.skip(line_end(text) as int + 1))
    }
}

pub proof fn lemma_line_end(text: Seq<char>)
    ensures
        0 <= line_end(text) <= text.len(),
        line_end(text) < text.len() ==> text[line_end(text) as int] == '\n',
        forall|i: int| 0 <= i < line_end(text) ==> text[i] != '\n',
    decreases text.len(),
{
    if text.len() > 0 && text[0] != '\n' {
        lemma_line_end(text.skip(1));
        assert forall|i: int| 0 <= i < line_end(text) implies text[i] != '\n' by {
            if i > 0 {
                assert(text.skip(1)[i - 1] == text[i]);
            }
        }
    }
}

/// A line end is found by its two properties.
pub proof fn lemma_line_end_is(text: Seq<char>, n: int)
    requires
        0 <= n <= text.len(),
        n < text.len() ==> text[n] == '\n',
        forall|i: int| 0 <= i < n ==> text[i] != '\n',
    ensures
        line_end(text) == n,
{
    lemma_line_end(text);
}

/// The characters of a string.
pub fn chars_of(text: &str) -> (chars: Vec<char>)
    ensures
        chars@ == text@,
{
    let mut chars: Vec<char> = Vec::new();
    for c in it: text.chars()
        invariant
            it.seq() == text@,
            chars@ == it.seq().take(it.index()),
    {
        chars.push(c);
    }
    chars
}

/// Whether two strings hold the same text.
pub fn same_text(a: &str, b: &str) -> (same: bool)
    ensures
        same == (a@ == b@),
{
    let x = a.as_bytes();
    let y = b.as_bytes();
    proof {
        vstd::utf8::encode_utf8_decode_utf8(a@);
        vstd::utf8::encode_utf8_decode_utf8(b@);
    }
    if x.len() != y.len() {
        return false;
    }
    let mut i: usize = 0;
    while i < x.len()
        invariant
            i <= x.len() == y.len(),
            x@ == a.spec_bytes(),
            y@ == b.spec_bytes(),
            x@.take(i as int) =~= y@.take(i as int),
        decreases x.len() - i,
    {
        if x[i] != y[i] {
            return false;
        }
        i += 1;
    }
    assert(x@.take(i as int) =~= x@);
    assert(y@.take(i as int) =~= y@);
    true
}

/// The rest of `text` after `prefix`, where it starts with it.
pub fn strip_prefix<'a>(text: &'a str, prefix: &str) -> (rest: Option<&'a str>)
    ensures
        match rest {
            Some(r) => without_prefix(text@, prefix@) == Some(r@),
            None => without_prefix(text@, prefix@) is None,
        },
{
    let t = chars_of(text);
    let p = chars_of(prefix);
    if p.len() > t.len() {
        return None;
    }
    let mut i: usize = 0;
    while i < p.len()
        invariant
            i <= p.len() <= t.len(),
            t@ == text@,
            p@ == prefix@,
            forall|j: int| 0 <= j < i ==> t@[j] == p@[j],
        decreases p.len() - i,
    {
        if t[i] != p[i] {
            return None;
        }
        i += 1;
    }
    Some(text.substring_char(p.len(), t.len()))
}

/// The lines of `text`.
pub fn lines_of(text: &str) -> (r: Vec<String>)
    ensures
        texts(r@) == lines(text@),
{
    let chars = chars_of(text);
    let mut r: Vec<String> = Vec::new();
    let mut start: usize = 0;
    proof {
        assert(text@.skip(0) =~= text@);
    }
    while start < chars.len()
        invariant
            start <= chars.len(),
            chars@ == text@,
            texts(r@) + lines(text@.skip(start as int)) =~= lines(text@),
        decreases chars.len() - start,
    {
        let mut end: usize = start;
        while end < chars.len() && chars[end] != '\n'
            invariant
                start <= end <= chars.len(),
                forall|i: int| start <= i < end ==> chars@[i] != '\n',
            decreases chars.len() - end,
        {
            end += 1;
        }
        let ghost rest = text@.skip(start as int);
        let ghost before = r@;
        proof {
            lemma_line_end_is(rest, end - start);
        }
        if end == chars.len() {
            r.push(text.substring_char(start, end).to_owned());
            assert(lines(rest) == seq![rest]);
            assert(r@.last()@ =~= rest);
            assert(texts(r@) =~= lines(text@));
            return r;
        }
        let stop: usize = if end > start && chars[end - 1] == '\r' { end - 1 } else { end };
        r.push(text.substring_char(start, stop).to_owned());
        proof {
            assert(r@.last()@ =~= without_return(rest.take(end - start)));
            assert(rest.skip(end - start + 1) =~= text@.skip(end + 1));
            assert(lines(rest) == seq![r@.last()@] + lines(text@.skip(end + 1)));
            assert(texts(r@) =~= texts(before).push(r@.last()@));
        }
        start = end + 1;
    }
    assert(lines(text@.skip(start as int)) =~= Seq::empty());
    r
}

/// The parts in order, with `separator` between neighbours.
pub fn join(parts: &Vec<String>, separator: &str) -> (r: String)
    ensures
        r@ == joined(texts(parts@), separator@),
{
    let mut r = String::new();
    let ghost all = texts(parts@);
    let mut i: usize = 0;
    while i < parts.len()
        invariant
            i <= parts.len(),
            all == texts(parts@),
            r@ == joined(all.take(i as int), separator@),
        decreases parts.len() - i,
    {
        proof {
            assert(all.take(i + 1).drop_last() =~= all.take(i as int));
        }
        if i > 0 {
            r.append(separator);
        }
        r.append(parts[i].as_str());
        proof {
            assert(all.take(i + 1).last() == parts@[i as int]@);
            if i == 0 {
                assert(r@ =~= parts@[0]@);
            }
        }
        i += 1;
    }
    assert(all.take(i as int) =~= all);
    r
}

/// Whether `part` occurs in `text`.
pub fn contains(text: &str, part: &str) -> (r: bool)
    ensures
        r == occurs_in(part@, text@),
{
    let t = chars_of(text);
    let p = chars_of(part);
    if p.len() > t.len() {
        return false;
    }
    let mut i: usize = 0;
    while i <= t.len() - p.len()
        invariant
            p.len() <= t.len(),
            i <= t.len() - p.len() + 1,
            t@ == text@,
            p@ == part@,
            forall|k: int| 0 <= k < i ==> #[trigger] t@.subrange(k, k + p@.len()) != p@,
        decreases t.len() - p.len() + 1 - i,
    {
        let mut j: usize = 0;
        while j < p.len() && t[i + j] == p[j]
            invariant
                p.len() <= t.len(),
                i <= t.len() - p.len(),
                j <= p.len(),
                forall|k: int| 0 <= k < j ==> t@[i + k] == p@[k],
            decreases p.len() - j,
        {
            j += 1;
        }
        if j == p.len() {
            assert(t@.subrange(i as int, i + p@.len()) =~= p@);
            return true;
        }
        assert(t@.subrange(i as int, i + p@.len())[j as int] != p@[j as int]);
        if i == t.len() - p.len() {
            assert(forall|k: int| 0 <= k <= t@.len() - p@.len() ==> #[trigger] t@.subrange(k, k + p@.len()) != p@);
            return false;
        }
        i += 1;
    }
    false
}

/// One decimal digit.
pub open spec fn digit(d: nat) -> Seq<char> {
    if d == 0 {
        "0"@
    } else if d == 1 {
        "1"@
    } else if d == 2 {
        "2"@
    } else if d == 3 {
        "3"@
    } else if d == 4 {
        "4"@
    } else if d == 5 {
        "5"@
    } else if d == 6 {
        "6"@
    } else if d == 7 {
        "7"@
    } else if d == 8 {
        "8"@
    } else {
        "9"@
    }
}

/// A natural number in decimal notation.
pub open spec fn decimal_of(n: nat) -> Seq<char>
    decreases n,
{
    if n < 10 {
        digit(n)
    } else {
        decimal_of(n / 10) + digit(n % 10)
    }
}

/// An integer in decimal notation.
pub open spec fn integer_text(i: int) -> Seq<char> {
    if i < 0 {
        "-"@ + decimal_of((-i) as nat)
    } else {
        decimal_of(i as nat)
    }
}

/// A natural number in decimal notation.
pub fn decimal(n: u64) -> (r: String)
    ensures
        r@ == decimal_of(n as nat),
    decreases n,
{
    let last: u64 = n % 10;
    let d: &str = if last == 0 {
        "0"
    } else if last == 1 {
        "1"
    } else if last == 2 {
        "2"
    } else if last == 3 {
        "3"
    } else if last == 4 {
        "4"
    } else if last == 5 {
        "5"
    } else if last == 6 {
        "6"
    } else if last == 7 {
        "7"
    } else if last == 8 {
        "8"
    } else {
        "9"
    };
    if n < 10 {
        d.to_owned()
    } else {
        let mut r = decimal(n / 10);
        r.append(d);
        r
    }
}

/// An integer in decimal notation.
pub fn integer_string(i: i64) -> (r: String)
    ensures
        r@ == integer_text(i as int),
{
    if i >= 0 {
        decimal(i as u64)
    } else {
        let mut r = "-".to_owned();
        let magnitude: u64 = (-(i as i128)) as u64;
        r.append(decimal(magnitude).as_str());
        r
    }
}

/// Two texts one after the other.
pub fn append2(a: &str, b: &str) -> (r: String)
    ensures
        r@ == a@ + b@,
{
    let mut r = a.to_owned();
    r.append(b);
    r
}

/// Three texts one after the other.
pub fn append3(a: &str, b: &str, c: &str) -> (r: String)
    ensures
        r@ == a@ + b@ + c@,
{
    let mut r = append2(a, b);
    r.append(c);
    r
}

/// A character with the upper case of ASCII turned into lower case.
pub open spec fn ascii_lower(c: char) -> char {
    if 'A' <= c <= 'Z' {
        (c as u8 + 32) as char
    } else {
        c
    }
}

/// The two texts are equal up to the case of ASCII letters.
pub open spec fn same_ignoring_ascii_case(a: Seq<char>, b: Seq<char>) -> bool {
    a.map_values(|c: char| ascii_lower(c)) == b.map_values(|c: char| ascii_lower(c))
}

/// A character with the upper case of ASCII turned into lower case.
fn lower_char(c: char) -> (r: char)
    ensures
        r == ascii_lower(c),
{
    if 'A' <= c && c <= 'Z' {
        (c as u8 + 32) as char
    } else {
        c
    }
}

/// Whether two texts are equal up to the case of ASCII letters.
pub fn eq_ignore_ascii_case(a: &str, b: &str) -> (r: bool)
    ensures
        r == same_ignoring_ascii_case(a@, b@),
{
    let x = chars_of(a);
    let y = chars_of(b);
    let ghost lower_a = a@.map_values(|c: char| ascii_lower(c));
    let ghost lower_b = b@.map_values(|c: char| ascii_lower(c));
    if x.len() != y.len() {
        assert(lower_a.len() != lower_b.len());
        return false;
    }
    let mut i: usize = 0;
    while i < x.len()
        invariant
            i <= x.len() == y.len(),
            x@ == a@,
            y@ == b@,
            lower_a == a@.map_values(|c: char| ascii_lower(c)),
            lower_b == b@.map_values(|c: char| ascii_lower(c)),
            forall|j: int| 0 <= j < i ==> lower_a[j] == lower_b[j],
        decreases x.len() - i,
    {
        if lower_char(x[i]) != lower_char(y[i]) {
            assert(lower_a[i as int] != lower_b[i as int]);
            return false;
        }
        i += 1;
    }
    assert(lower_a =~= lower_b);
    true
}

} // verus!
