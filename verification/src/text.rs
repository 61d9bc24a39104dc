//! Plain-text helpers: searching, trimming and decimal numbers.
use vstd::prelude::*;

verus! {

/// The mathematical model of every string: its sequence of characters.
pub type Text = Seq<char>;

/// An option with the view of its value.
pub open spec fn option_view<T: View>(o: Option<T>) -> Option<T::V> {
    match o {
        Some(v) => Some(v@),
        None => None,
    }
}

/// A result with the views of its value and of its message.
pub open spec fn result_view<T: View>(r: Result<T, String>) -> Result<T::V, Text> {
    match r {
        Ok(v) => Ok(v@),
        Err(m) => Err(m@),
    }
}

/// `part` stands in `text` from position `i` on.
pub open spec fn occurs_at(text: Text, part: Text, i: int) -> bool {
    &&& 0 <= i
    &&& i + part.len() <= text.len()
    &&& text.subrange(i, i + part.len()) == part
}

/// `part` stands somewhere in `text`.
pub open spec fn holds_part(text: Text, part: Text) -> bool {
    exists|i: int| occurs_at(text, part, i)
}

/// `i` is the last position at which `part` stands in `text`.
pub open spec fn is_last_occurrence(text: Text, part: Text, i: int) -> bool {
    &&& occurs_at(text, part, i)
    &&& forall|j: int| i < j ==> !occurs_at(text, part, j)
}

/// The characters with the Unicode property `White_Space`.
pub open spec fn is_white_space(c: char) -> bool {
    let n: u32 = c as u32;
    ||| 0x09 <= n <= 0x0d
    ||| n == 0x20
    ||| n == 0x85
    ||| n == 0xa0
    ||| n == 0x1680
    ||| 0x2000 <= n <= 0x200a
    ||| n == 0x2028
    ||| n == 0x2029
    ||| n == 0x202f
    ||| n == 0x205f
    ||| n == 0x3000
}

/// `text` without the white space at its two ends.
pub open spec fn trimmed(text: Text) -> Text
    decreases text.len(),
{
    if text.len() > 0 && is_white_space(text.first()) {
        trimmed(text.drop_first())
    } else if text.len() > 0 && is_white_space(text.last()) {
        trimmed(text.drop_last())
    } else {
        text
    }
}

/// The decimal digits of `n`, without leading zeros.
pub open spec fn decimal_digits(n: nat) -> Text
    decreases n,
{
    if n < 10 {
        seq![digit(n)]
    } else {
        decimal_digits(n / 10).push(digit(n % 10))
    }
}

/// The character of a number below ten.
pub open spec fn digit(n: nat) -> char {
    (('0' as u32) + n) as char
}

/// The words one after the other, with `gap` between each two.
pub open spec fn joined(words: Seq<Text>, gap: Text) -> Text
    decreases words.len(),
{
    if words.len() == 0 {
        Seq::empty()
    } else if words.len() == 1 {
        words[0]
    } else {
        joined(words.drop_last(), gap) + gap + words.last()
    }
}

/// The characters of `s`.
pub fn to_chars(s: &str) -> (r: Vec<char>)
    ensures
        r@ == s@,
{
    let mut r: Vec<char> = Vec::new();
    for c in it: s.chars()
        invariant
            it.seq() == s@,
            r@ == s@.take(it.index() as int),
    {
        r.push(c);
        assert(s@.take(it.index() + 1) =~= s@.take(it.index() as int).push(c));
    }
    assert(s@.take(s@.len() as int) =~= s@);
    r
}

/// Whether `part` stands in `text` from position `i` on.
fn matches_at(text: &Vec<char>, part: &Vec<char>, i: usize) -> (r: bool)
    ensures
        r == occurs_at(text@, part@, i as int),
{
    if i > text.len() || part.len() > text.len() - i {
        return false;
    }
    let size: usize = text.len();
    let mut k: usize = 0;
    while k < part.len()
        invariant
            size == text@.len(),
            i + part@.len() <= size,
            k <= part@.len(),
            forall|j: int| 0 <= j < k ==> text@[i + j] == part@[j],
        decreases part.len() - k,
    {
        if text[i + k] != part[k] {
            assert(text@.subrange(i as int, i + part@.len())[k as int] != part@[k as int]);
            return false;
        }
        k += 1;
    }
    assert(text@.subrange(i as int, i + part@.len()) =~= part@);
    true
}

/// Whether `text` begins with `part`.
pub fn starts_with(text: &str, part: &str) -> (r: bool)
    ensures
        r == occurs_at(text@, part@, 0),
{
    matches_at(&to_chars(text), &to_chars(part), 0)
}

/// The last position, counted in characters, at which `part` stands in `text`.
pub fn last_occurrence(text: &str, part: &str) -> (r: Option<usize>)
    ensures
        match r {
            Some(i) => is_last_occurrence(text@, part@, i as int),
            None => !holds_part(text@, part@),
        },
{
    let t = to_chars(text);
    let p = to_chars(part);
    let mut n: usize = t.len();
    if matches_at(&t, &p, n) {
        return Some(n);
    }
    while n > 0
        invariant
            t@ == text@,
            p@ == part@,
            n <= t@.len(),
            forall|j: int| n <= j ==> !occurs_at(text@, part@, j),
        decreases n,
    {
        n -= 1;
        if matches_at(&t, &p, n) {
            return Some(n);
        }
    }
    None
}

/// Whether `part` stands somewhere in `text`.
pub fn contains(text: &str, part: &str) -> (r: bool)
    ensures
        r == holds_part(text@, part@),
{
    match last_occurrence(text, part) {
        Some(_) => true,
        None => false,
    }
}

/// Whether `c` has the Unicode property `White_Space`.
pub fn white_space(c: char) -> (r: bool)
    ensures
        r == is_white_space(c),
{
    let n: u32 = c as u32;
    (0x09 <= n && n <= 0x0d) || n == 0x20 || n == 0x85 || n == 0xa0 || n == 0x1680 || (0x2000 <= n
        && n <= 0x200a) || n == 0x2028 || n == 0x2029 || n == 0x202f || n == 0x205f || n == 0x3000
}

/// `text` without the white space at its two ends.
pub fn trim(text: &str) -> (r: &str)
    ensures
        r@ == trimmed(text@),
{
    let t = to_chars(text);
    let mut a: usize = 0;
    let mut b: usize = t.len();
    assert(text@.subrange(0, b as int) =~= text@);
    while a < b && white_space(t[a])
        invariant
            t@ == text@,
            a <= b == text@.len(),
            trimmed(text@) == trimmed(text@.subrange(a as int, b as int)),
        decreases b - a,
    {
        assert(text@.subrange(a as int, b as int).drop_first() =~= text@.subrange(a + 1, b as int));
        a += 1;
    }
    while a < b && white_space(t[b - 1])
        invariant
            t@ == text@,
            a <= b <= text@.len(),
            a < b ==> !is_white_space(text@[a as int]),
            trimmed(text@) == trimmed(text@.subrange(a as int, b as int)),
        decreases b - a,
    {
        assert(text@.subrange(a as int, b as int).drop_last() =~= text@.subrange(a as int, b - 1));
        b -= 1;
    }
    text.substring_char(a, b)
}

/// Whether the two strings hold the same characters.
pub fn same_text(a: &str, b: &str) -> (r: bool)
    ensures
        r == (a@ == b@),
{
    a.to_owned() == b.to_owned()
}

/// The one-character string of a number below ten.
fn digit_text(n: u16) -> (r: &'static str)
    requires
        n < 10,
    ensures
        r@ == seq![digit(n as nat)],
{
    proof {
        reveal_strlit("0");
        reveal_strlit("1");
        reveal_strlit("2");
        reveal_strlit("3");
        reveal_strlit("4");
        reveal_strlit("5");
        reveal_strlit("6");
        reveal_strlit("7");
        reveal_strlit("8");
        reveal_strlit("9");
    }
    let r = match n {
        0 => "0",
        1 => "1",
        2 => "2",
        3 => "3",
        4 => "4",
        5 => "5",
        6 => "6",
        7 => "7",
        8 => "8",
        _ => "9",
    };
    assert(r@ =~= seq![digit(n as nat)]);
    r
}

/// `n` in decimal.
pub fn decimal(n: u16) -> (r: String)
    ensures
        r@ == decimal_digits(n as nat),
    decreases n,
{
    if n < 10 {
        digit_text(n).to_owned()
    } else {
        let r = decimal(n / 10).concat(digit_text(n % 10));
        assert(r@ =~= decimal_digits(n as nat));
        r
    }
}

/// The views of a list of strings.
pub open spec fn texts(words: Seq<String>) -> Seq<Text> {
    words.map_values(|w: String| w@)
}

/// The words one after the other, with `gap` between each two.
pub fn join_words(words: &Vec<String>, gap: &str) -> (r: String)
    ensures
        r@ == joined(texts(words@), gap@),
{
    let mut r = String::new();
    let mut i: usize = 0;
    let ghost all = texts(words@);
    assert(r@ =~= joined(all.take(0), gap@));
    while i < words.len()
        invariant
            i <= words@.len(),
            all == texts(words@),
            r@ == joined(all.take(i as int), gap@),
        decreases words.len() - i,
    {
        assert(all.take(i + 1).drop_last() =~= all.take(i as int));
        assert(all.take(i + 1).last() == words@[i as int]@);
        if i > 0 {
            r.append(gap);
        }
        r.append(words[i].as_str());
        i += 1;
        assert(r@ =~= joined(all.take(i as int), gap@));
    }
    assert(all.take(words@.len() as int) =~= all);
    r
}

/// A trimmed text has no white space at its ends, and trimming it again changes nothing.
pub proof fn law_trimming_is_complete(text: Text)
    ensures
        trimmed(trimmed(text)) == trimmed(text),
        trimmed(text).len() > 0 ==> !is_white_space(trimmed(text).first()) && !is_white_space(
            trimmed(text).last(),
        ),
    decreases text.len(),
{
    if text.len() > 0 && is_white_space(text.first()) {
        law_trimming_is_complete(text.drop_first());
    } else if text.len() > 0 && is_white_space(text.last()) {
        law_trimming_is_complete(text.drop_last());
    }
}

} // verus!
