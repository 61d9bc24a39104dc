//! What searching, trimming and writing numbers come to, for every text.
use vstd::prelude::*;

use crate::text::{
    contains, decimal, decimal_digits, digit, holds_part, is_last_occurrence, is_white_space,
    join_words, joined, last_occurrence, occurs_at, option_view, result_view, same_text,
    starts_with, texts, trim, trimmed, white_space, Text,
};

verus! {

/// A part stands where the text splits into what is before it, the part, and what is behind it;
/// and the text splits so wherever the part is said to stand.
pub proof fn law_part_stands_between(text: Text, part: Text, i: int)
    ensures
        occurs_at(text, part, i) <==> exists|a: Text, b: Text|
            a.len() == i && text == #[trigger] (a + part + b),
{
    if occurs_at(text, part, i) {
        let a = text.take(i);
        let b = text.skip(i + part.len());
        assert(text =~= a + text.subrange(i, i + part.len()) + b);
        assert(a.len() == i && text == a + part + b);
    }
    if exists|a: Text, b: Text| a.len() == i && text == #[trigger] (a + part + b) {
        let (a, b) = choose|a: Text, b: Text| a.len() == i && text == #[trigger] (a + part + b);
        assert(text.subrange(i, i + part.len()) =~= part);
    }
}

/// A text holds a part exactly where it is something, the part, and something.
pub proof fn law_held_part_splits_the_text(text: Text, part: Text)
    ensures
        holds_part(text, part) <==> exists|a: Text, b: Text| text == #[trigger] (a + part + b),
{
    if holds_part(text, part) {
        let i = choose|i: int| occurs_at(text, part, i);
        law_part_stands_between(text, part, i);
        let (a, b) = choose|a: Text, b: Text| a.len() == i && text == #[trigger] (a + part + b);
        assert(text == a + part + b);
    }
    if exists|a: Text, b: Text| text == #[trigger] (a + part + b) {
        let (a, b) = choose|a: Text, b: Text| text == #[trigger] (a + part + b);
        let n = a.len() as int;
        law_part_stands_between(text, part, n);
        assert(a.len() == n && text == a + part + b);
        assert(occurs_at(text, part, n));
    }
}

/// The three searches answer by how the text splits at the part.
pub proof fn law_searches_find_the_part(
    text: &str,
    part: &str,
    begins: bool,
    holds: bool,
    last: Option<usize>,
)
    requires
        call_ensures(starts_with, (text, part), begins),
        call_ensures(contains, (text, part), holds),
        call_ensures(last_occurrence, (text, part), last),
    ensures
        begins <==> exists|b: Text| text@ == #[trigger] (part@ + b),
        holds <==> exists|a: Text, b: Text| text@ == #[trigger] (a + part@ + b),
        last is Some <==> holds,
        last matches Some(i) ==> {
            &&& exists|a: Text, b: Text| a.len() == i && text@ == #[trigger] (a + part@ + b)
            &&& forall|a: Text, b: Text| text@ == #[trigger] (a + part@ + b) ==> a.len() <= i
        },
{
    let t = text@;
    let p = part@;
    law_held_part_splits_the_text(t, p);
    law_part_stands_between(t, p, 0);
    if begins {
        let (a, b) = choose|a: Text, b: Text| a.len() == 0 && t == #[trigger] (a + p + b);
        assert(a + p + b =~= p + b);
    }
    if exists|b: Text| t == #[trigger] (p + b) {
        let b = choose|b: Text| t == #[trigger] (p + b);
        let a = Seq::<char>::empty();
        assert(a + p + b =~= p + b);
        assert(a.len() == 0 && t == a + p + b);
    }
    if let Some(i) = last {
        law_part_stands_between(t, p, i as int);
        assert(holds_part(t, p));
        assert forall|a: Text, b: Text| t == #[trigger] (a + p + b) implies a.len() <= i by {
            law_part_stands_between(t, p, a.len() as int);
            assert(is_last_occurrence(t, p, i as int));
        }
    }
}

/// The white space of Unicode, character by character.
pub open spec fn white() -> Seq<char> {
    seq![
        '\t', '\n', '\u{b}', '\u{c}', '\r', ' ', '\u{85}', '\u{a0}', '\u{1680}', '\u{2000}',
        '\u{2001}', '\u{2002}', '\u{2003}', '\u{2004}', '\u{2005}', '\u{2006}', '\u{2007}',
        '\u{2008}', '\u{2009}', '\u{200a}', '\u{2028}', '\u{2029}', '\u{202f}', '\u{205f}',
        '\u{3000}',
    ]
}

/// White space is the twenty-five characters that Unicode says, and no other.
pub proof fn law_white_space_is_that_of_unicode(c: char, r: bool)
    requires
        call_ensures(white_space, (c,), r),
    ensures
        r <==> white().contains(c),
        is_white_space(c) <==> white().contains(c),
{
    let w = white();
    if is_white_space(c) {
        let n = c as u32;
        let i: int = if n <= 0x0d {
            n - 0x09
        } else if n == 0x20 {
            5
        } else if n == 0x85 {
            6
        } else if n == 0xa0 {
            7
        } else if n == 0x1680 {
            8
        } else if n <= 0x200a {
            9 + (n - 0x2000)
        } else if n == 0x2028 {
            20
        } else if n == 0x2029 {
            21
        } else if n == 0x202f {
            22
        } else if n == 0x205f {
            23
        } else {
            24
        };
        assert(w[i] == c);
    }
}

/// Every character of the text is white space.
pub open spec fn all_white(t: Text) -> bool {
    forall|i: int| 0 <= i < t.len() ==> is_white_space(#[trigger] t[i])
}

/// Trimming takes the white space off both ends and nothing else: what stands between white space
/// and neither begins nor ends with any is what is left.
pub proof fn law_trimming_leaves_what_is_between(before: Text, kept: Text, after: Text)
    requires
        all_white(before),
        all_white(after),
        kept.len() > 0 ==> !is_white_space(kept.first()) && !is_white_space(kept.last()),
    ensures
        trimmed(before + kept + after) == kept,
    decreases before.len() + after.len(),
{
    let text = before + kept + after;
    if before.len() > 0 {
        assert(text.first() == before[0]);
        assert(text.drop_first() =~= before.drop_first() + kept + after);
        law_trimming_leaves_what_is_between(before.drop_first(), kept, after);
    } else if after.len() > 0 {
        if kept.len() == 0 {
            assert(text.first() == after[0]);
            assert(text.drop_first() =~= before + kept + after.drop_first());
            law_trimming_leaves_what_is_between(before, kept, after.drop_first());
        } else {
            assert(text.first() == kept.first());
            assert(text.last() == after.last());
            assert(text.drop_last() =~= before + kept + after.drop_last());
            law_trimming_leaves_what_is_between(before, kept, after.drop_last());
        }
    } else {
        assert(text =~= kept);
    }
}

/// The executable trimming does so too.
pub proof fn law_trim_leaves_what_is_between(
    text: &str,
    r: &str,
    before: Text,
    kept: Text,
    after: Text,
)
    requires
        call_ensures(trim, (text,), r),
        text@ == before + kept + after,
        all_white(before),
        all_white(after),
        kept.len() > 0 ==> !is_white_space(kept.first()) && !is_white_space(kept.last()),
    ensures
        r@ == kept,
{
    law_trimming_leaves_what_is_between(before, kept, after);
}

/// The number that a row of decimal digits stands for.
pub open spec fn value_of_digits(t: Text) -> int
    decreases t.len(),
{
    if t.len() == 0 {
        0
    } else {
        10 * value_of_digits(t.drop_last()) + (t.last() as u32 - '0' as u32)
    }
}

proof fn lemma_digits(n: nat)
    ensures
        decimal_digits(n).len() > 0,
        value_of_digits(decimal_digits(n)) == n,
        forall|i: int|
            0 <= i < decimal_digits(n).len() ==> '0' <= #[trigger] decimal_digits(n)[i] <= '9',
        n > 0 ==> decimal_digits(n)[0] != '0',
    decreases n,
{
    let t = decimal_digits(n);
    assert(digit(n % 10) as u32 == 48 + n % 10);
    if n < 10 {
        assert(digit(n) as u32 == 48 + n);
        assert(t.drop_last() =~= Seq::<char>::empty());
        assert(value_of_digits(t.drop_last()) == 0);
    } else {
        lemma_digits(n / 10);
        assert(t.drop_last() =~= decimal_digits(n / 10));
    }
}

/// A number in decimal reads back as that number, and has no zero in front: `0` is its own digit.
pub proof fn law_decimal_reads_back(n: u16, r: String)
    requires
        call_ensures(decimal, (n,), r),
    ensures
        r@ == decimal_digits(n as nat),
        value_of_digits(r@) == n,
        forall|i: int| 0 <= i < r@.len() ==> '0' <= #[trigger] r@[i] <= '9',
        r@.len() > 0,
        r@[0] == '0' ==> r@.len() == 1,
{
    lemma_digits(n as nat);
}

/// Joining takes the words apart from each other by the gap, and puts nothing else in.
pub proof fn law_joining_puts_gaps_between(left: Seq<Text>, right: Seq<Text>, gap: Text)
    requires
        left.len() > 0,
        right.len() > 0,
    ensures
        joined(left + right, gap) == joined(left, gap) + gap + joined(right, gap),
        joined(seq![left[0]], gap) == left[0],
        joined(Seq::empty(), gap) == Seq::<char>::empty(),
    decreases right.len(),
{
    let all = left + right;
    if right.len() == 1 {
        assert(all.drop_last() =~= left);
        assert(joined(right, gap) == right[0]);
    } else {
        assert(all.drop_last() =~= left + right.drop_last());
        law_joining_puts_gaps_between(left, right.drop_last(), gap);
        assert(joined(all, gap) =~= joined(left, gap) + gap + (joined(right.drop_last(), gap) + gap
            + right.last()));
    }
}

/// The executable joining is that of the words' characters.
pub proof fn law_words_are_joined(words: &Vec<String>, gap: &str, r: String)
    requires
        call_ensures(join_words, (words, gap), r),
    ensures
        r@ == joined(texts(words@), gap@),
        texts(words@).len() == words@.len(),
        forall|i: int| 0 <= i < words@.len() ==> #[trigger] texts(words@)[i] == words@[i]@,
{
}

/// Two strings are the same exactly where their characters are.
pub proof fn law_same_text_is_equality(a: &str, b: &str, r: bool)
    requires
        call_ensures(same_text, (a, b), r),
    ensures
        r <==> a@ == b@,
{
}

/// The model of a result or of an option keeps which of the two it is, and what it holds.
pub proof fn law_results_keep_their_values<T: View>(v: T, m: String)
    ensures
        result_view(Ok::<T, String>(v)) == Ok::<T::V, Text>(v@),
        result_view(Err::<T, String>(m)) == Err::<T::V, Text>(m@),
        option_view(Some(v)) == Some(v@),
        option_view(None::<T>) == None::<T::V>,
{
}

} // verus!
