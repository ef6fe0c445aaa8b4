//! What the operations on texts come to.

use vstd::prelude::*;

use crate::text::{
    ascii_lower, decimal_of, digit, integer_text, joined, lemma_line_end_is, lines,
    same_ignoring_ascii_case, without_prefix,
};

verus! {

/// Joined parts are the parts of both sides with the separator between them.
pub proof fn law_joined_parts(a: Seq<Seq<char>>, b: Seq<Seq<char>>, separator: Seq<char>)
    requires
        a.len() > 0,
        b.len() > 0,
    ensures
        joined(a + b, separator) == joined(a, separator) + separator + joined(b, separator),
    decreases b.len(),
{
    assert((a + b).drop_last() =~= a + b.drop_last());
    if b.len() == 1 {
        assert(a + b.drop_last() =~= a);
    } else {
        law_joined_parts(a, b.drop_last(), separator);
    }
    assert(joined(a + b, separator) =~= joined(a, separator) + separator + joined(b, separator));
}

/// One part joins to itself, and none to nothing.
pub proof fn law_joined_single(part: Seq<char>, separator: Seq<char>)
    ensures
        joined(seq![part], separator) == part,
        joined(Seq::empty(), separator) == Seq::<char>::empty(),
{
}

/// The number that decimal digits stand for.
pub open spec fn value_of(digits: Seq<char>) -> int
    decreases digits.len(),
{
    if digits.len() == 0 {
        0
    } else {
        value_of(digits.drop_last()) * 10 + (digits.last() as int - '0' as int)
    }
}

/// The decimal notation of a number stands for the number, in digits only and
/// without a zero in front.
pub proof fn law_decimal(n: nat)
    ensures
        value_of(decimal_of(n)) == n,
        decimal_of(n).len() > 0,
        forall|i: int| 0 <= i < decimal_of(n).len() ==> '0' <= #[trigger] decimal_of(n)[i] <= '9',
        n > 0 ==> decimal_of(n)[0] != '0',
        n == 0 ==> decimal_of(n) == seq!['0'],
    decreases n,
{
    reveal_strlit("0");
    reveal_strlit("1");
    reveal_strlit("2");
    reveal_strlit("3");
    reveal_strlit("4");
    reveal_strlit("5");
    reveal_strlit("6");
    reveal_strlit("7");
    reveal_strlit("8");
    reveal_strlit("9");
    let last = digit(n % 10);
    assert(last.len() == 1);
    assert(last[0] as int - '0' as int == n % 10);
    if n < 10 {
        assert(decimal_of(n) == last);
        assert(last.drop_last() =~= Seq::<char>::empty());
        assert(value_of(last.drop_last()) == 0);
        assert(n == 0 ==> decimal_of(n) =~= seq!['0']);
    } else {
        law_decimal(n / 10);
        let front = decimal_of(n / 10);
        let all = decimal_of(n);
        assert(all == front + last);
        assert(all.drop_last() =~= front);
        assert(all.last() == last[0]);
        assert forall|i: int| 0 <= i < all.len() implies '0' <= #[trigger] all[i] <= '9' by {
            if i < front.len() {
                assert(all[i] == front[i]);
            }
        }
        assert(all[0] == front[0]);
    }
}

/// A negative integer has a minus in front of its magnitude.
pub proof fn law_integer(i: int)
    ensures
        i >= 0 ==> integer_text(i) == decimal_of(i as nat),
        i < 0 ==> integer_text(i) == seq!['-'] + decimal_of((-i) as nat),
{
    reveal_strlit("-");
    assert("-"@ =~= seq!['-']);
}

/// A line up to a line feed is a line of the text, without one carriage return at
/// its end, and is followed by the lines of the rest.
pub proof fn law_line_up_to_line_feed(line: Seq<char>, rest: Seq<char>)
    requires
        forall|i: int| 0 <= i < line.len() ==> #[trigger] line[i] != '\n',
    ensures
        lines(line + seq!['\n'] + rest) == (if line.len() > 0 && line.last() == '\r' {
            seq![line.drop_last()]
        } else {
            seq![line]
        }) + lines(rest),
{
    let text = line + seq!['\n'] + rest;
    lemma_line_end_is(text, line.len() as int);
    assert(text.take(line.len() as int) =~= line);
    assert(text.skip(line.len() as int + 1) =~= rest);
}

/// A text without a line feed is one line as it is, and no text is no line.
pub proof fn law_last_line(line: Seq<char>)
    requires
        forall|i: int| 0 <= i < line.len() ==> #[trigger] line[i] != '\n',
    ensures
        lines(line) == (if line.len() == 0 {
            Seq::<Seq<char>>::empty()
        } else {
            seq![line]
        }),
{
    lemma_line_end_is(line, line.len() as int);
}

/// What follows a prefix comes back whole, and nothing comes back without it.
pub proof fn law_prefix(prefix: Seq<char>, rest: Seq<char>, text: Seq<char>)
    ensures
        without_prefix(prefix + rest, prefix) == Some(rest),
        without_prefix(text, prefix) is Some ==> prefix + without_prefix(text, prefix)->0 == text,
{
    assert(prefix.is_prefix_of(prefix + rest));
    assert((prefix + rest).skip(prefix.len() as int) =~= rest);
    if prefix.is_prefix_of(text) {
        assert(prefix + text.skip(prefix.len() as int) =~= text);
    }
}

/// The two characters are equal up to the case of ASCII letters.
pub open spec fn same_letter(a: char, b: char) -> bool {
    ||| a == b
    ||| 'A' <= a <= 'Z' && b as int == a as int + 32
    ||| 'A' <= b <= 'Z' && a as int == b as int + 32
}

/// Texts that are equal up to case have the same letters in the same places.
pub proof fn law_case_of_letters_only(a: Seq<char>, b: Seq<char>)
    ensures
        same_ignoring_ascii_case(a, b) <==> a.len() == b.len() && forall|i: int|
            0 <= i < a.len() ==> same_letter(#[trigger] a[i], b[i]),
{
    let x = a.map_values(|c: char| ascii_lower(c));
    let y = b.map_values(|c: char| ascii_lower(c));
    assert(forall|c: char| ('A' <= c <= 'Z') ==> #[trigger] ascii_lower(c) as int == c as int + 32);
    assert(forall|c: char| !('A' <= c <= 'Z') ==> #[trigger] ascii_lower(c) == c);
    if same_ignoring_ascii_case(a, b) {
        assert(x.len() == y.len());
        assert forall|i: int| 0 <= i < a.len() implies same_letter(#[trigger] a[i], b[i]) by {
            assert(x[i] == ascii_lower(a[i]));
            assert(y[i] == ascii_lower(b[i]));
        }
    }
    if a.len() == b.len() && forall|i: int| 0 <= i < a.len() ==> same_letter(#[trigger] a[i], b[i]) {
        assert forall|i: int| 0 <= i < a.len() implies x[i] == y[i] by {
            assert(same_letter(a[i], b[i]));
        }
        assert(x =~= y);
    }
}

} // verus!
