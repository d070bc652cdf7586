//! Reading and building text, character by character.

use vstd::prelude::*;

verus! {

/// The Unicode property White_Space.
pub open spec fn is_white_space(c: char) -> bool {
    ||| '\u{9}' <= c <= '\u{d}'
    ||| c == '\u{20}'
    ||| c == '\u{85}'
    ||| c == '\u{a0}'
    ||| c == '\u{1680}'
    ||| '\u{2000}' <= c <= '\u{200a}'
    ||| c == '\u{2028}'
    ||| c == '\u{2029}'
    ||| c == '\u{202f}'
    ||| c == '\u{205f}'
    ||| c == '\u{3000}'
}

/// `s` without its leading white space.
pub open spec fn trimmed_start(s: Seq<char>) -> Seq<char>
    decreases s.len(),
{
    if s.len() > 0 && is_white_space(s.first()) {
        trimmed_start(s.drop_first())
    } else {
        s
    }
}

/// `s` without its trailing white space.
pub open spec fn trimmed_end(s: Seq<char>) -> Seq<char>
    decreases s.len(),
{
    if s.len() > 0 && is_white_space(s.last()) {
        trimmed_end(s.drop_last())
    } else {
        s
    }
}

/// `s` without the white space around it.
pub open spec fn trimmed(s: Seq<char>) -> Seq<char> {
    trimmed_end(trimmed_start(s))
}

/// Whether `c` has the Unicode property White_Space.
pub(crate) fn white_space(c: char) -> (r: bool)
    ensures
        r == is_white_space(c),
{
    ('\u{9}' <= c && c <= '\u{d}') || c == '\u{20}' || c == '\u{85}' || c == '\u{a0}' || c
        == '\u{1680}' || ('\u{2000}' <= c && c <= '\u{200a}') || c == '\u{2028}' || c == '\u{2029}'
        || c == '\u{202f}' || c == '\u{205f}' || c == '\u{3000}'
}

/// The characters of `text`, in order.
pub(crate) fn chars_of(text: &str) -> (chars: Vec<char>)
    ensures
        chars@ == text@,
{
    let mut chars: Vec<char> = Vec::new();
    for c in it: text.chars()
        invariant
            it.seq() == text@,
            chars@ == it.seq().take(it.index()),
    {
        chars.push(c);
    }
    chars
}

/// `text` without the white space around it.
pub(crate) fn trim(text: &str) -> (r: &str)
    ensures
        r@ == trimmed(text@),
{
    let chars = chars_of(text);
    let mut start: usize = 0;
    assert(chars@.skip(0) == text@);
    while start < chars.len() && white_space(chars[start])
        invariant
            start <= chars.len(),
            chars@ == text@,
            trimmed_start(text@) == trimmed_start(chars@.skip(start as int)),
        decreases chars.len() - start,
    {
        assert(chars@.skip(start as int).drop_first() == chars@.skip(start + 1));
        start = start + 1;
    }
    let mut end: usize = chars.len();
    assert(chars@.subrange(start as int, end as int) == chars@.skip(start as int));
    while end > start && white_space(chars[end - 1])
        invariant
            start <= end <= chars.len(),
            chars@ == text@,
            trimmed(text@) == trimmed_end(chars@.subrange(start as int, end as int)),
        decreases end,
    {
        assert(chars@.subrange(start as int, end as int).drop_last() == chars@.subrange(
            start as int,
            end - 1,
        ));
        end = end - 1;
    }
    text.substring_char(start, end)
}

/// Whether `chars` begins with `prefix`.
pub(crate) fn begins_with(chars: &Vec<char>, prefix: &str) -> (r: bool)
    ensures
        r == prefix@.is_prefix_of(chars@),
{
    let wanted = chars_of(prefix);
    if wanted.len() > chars.len() {
        return false;
    }
    let mut i: usize = 0;
    while i < wanted.len()
        invariant
            i <= wanted.len() <= chars.len(),
            wanted@ == prefix@,
            forall|j: int| 0 <= j < i ==> wanted@[j] == chars@[j],
        decreases wanted.len() - i,
    {
        if wanted[i] != chars[i] {
            return false;
        }
        i = i + 1;
    }
    true
}

/// Whether `chars` ends with `suffix`.
pub(crate) fn finishes_with(chars: &Vec<char>, suffix: &str) -> (r: bool)
    ensures
        r == suffix@.is_suffix_of(chars@),
{
    let wanted = chars_of(suffix);
    if wanted.len() > chars.len() {
        return false;
    }
    let from: usize = chars.len() - wanted.len();
    let mut i: usize = 0;
    while i < wanted.len()
        invariant
            i <= wanted.len() <= chars.len(),
            from == chars.len() - wanted.len(),
            wanted@ == suffix@,
            forall|j: int| 0 <= j < i ==> wanted@[j] == chars@[from + j],
        decreases wanted.len() - i,
    {
        if wanted[i] != chars[from + i] {
            assert(chars@.subrange(from as int, chars@.len() as int)[i as int] == chars@[from + i]);
            return false;
        }
        i = i + 1;
    }
    true
}

/// What is left at the start of a text whose leading white space is gone.
proof fn lemma_trimmed_start(s: Seq<char>)
    ensures
        trimmed_start(s).len() > 0 ==> !is_white_space(trimmed_start(s).first()),
    decreases s.len(),
{
    if s.len() > 0 && is_white_space(s.first()) {
        lemma_trimmed_start(s.drop_first());
    }
}

/// What is left of a text whose trailing white space is gone.
proof fn lemma_trimmed_end(s: Seq<char>)
    ensures
        trimmed_end(s).len() > 0 ==> !is_white_space(trimmed_end(s).last()),
        trimmed_end(s).len() > 0 ==> trimmed_end(s).first() == s.first(),
    decreases s.len(),
{
    if s.len() > 0 && is_white_space(s.last()) {
        lemma_trimmed_end(s.drop_last());
    }
}

/// No white space stands at either end of a trimmed text.
pub proof fn law_trimmed_ends(s: Seq<char>)
    ensures
        trimmed(s).len() > 0 ==> !is_white_space(trimmed(s).first()) && !is_white_space(
            trimmed(s).last(),
        ),
{
    lemma_trimmed_start(s);
    lemma_trimmed_end(trimmed_start(s));
}

/// A text without white space at its ends is its own trimmed form.
pub proof fn law_trimmed_fixed(s: Seq<char>)
    requires
        s.len() > 0 ==> !is_white_space(s.first()) && !is_white_space(s.last()),
    ensures
        trimmed(s) == s,
{
}

/// Trimming twice is trimming once.
pub proof fn law_trimmed_idempotent(s: Seq<char>)
    ensures
        trimmed(trimmed(s)) == trimmed(s),
{
    law_trimmed_ends(s);
    law_trimmed_fixed(trimmed(s));
}

/// A text without its leading white space is an end of it.
proof fn lemma_trimmed_start_is_suffix(s: Seq<char>)
    ensures
        trimmed_start(s).len() <= s.len(),
        trimmed_start(s) == s.skip(s.len() - trimmed_start(s).len()),
    decreases s.len(),
{
    if s.len() > 0 && is_white_space(s.first()) {
        let rest = s.drop_first();
        let gone = rest.len() - trimmed_start(rest).len();
        lemma_trimmed_start_is_suffix(rest);
        assert(rest.skip(gone) == s.skip(gone + 1));
    } else {
        assert(s.skip(0) == s);
    }
}

/// A text that ends without white space, trimmed, is an end of it.
pub(crate) proof fn lemma_trimmed_is_suffix(s: Seq<char>)
    requires
        s.len() > 0,
        !is_white_space(s.last()),
    ensures
        0 < trimmed(s).len() <= s.len(),
        trimmed(s) == s.skip(s.len() - trimmed(s).len()),
    decreases s.len(),
{
    lemma_trimmed_start_is_suffix(s);
    if is_white_space(s.first()) {
        lemma_trimmed_is_suffix(s.drop_first());
    }
}

/// Whether `a` stands before `b` in the order of code points, character by
/// character.
pub open spec fn text_less(a: Seq<char>, b: Seq<char>) -> bool
    decreases a.len(),
{
    if b.len() == 0 {
        false
    } else if a.len() == 0 {
        true
    } else if a.first() != b.first() {
        a.first() < b.first()
    } else {
        text_less(a.drop_first(), b.drop_first())
    }
}

/// No text stands before itself.
pub proof fn law_text_less_irreflexive(a: Seq<char>)
    ensures
        !text_less(a, a),
    decreases a.len(),
{
    if a.len() > 0 {
        law_text_less_irreflexive(a.drop_first());
    }
}

/// Of two texts that differ, one stands before the other.
pub proof fn law_text_less_total(a: Seq<char>, b: Seq<char>)
    ensures
        text_less(a, b) || text_less(b, a) || a == b,
    decreases a.len(),
{
    if a.len() > 0 && b.len() > 0 && a.first() == b.first() {
        law_text_less_total(a.drop_first(), b.drop_first());
        if a.drop_first() == b.drop_first() {
            assert(a == seq![a.first()] + a.drop_first());
            assert(b == seq![b.first()] + b.drop_first());
        }
    } else if a.len() == 0 && b.len() == 0 {
        assert(a == b);
    }
}

/// The order of texts is transitive.
pub proof fn law_text_less_transitive(a: Seq<char>, b: Seq<char>, c: Seq<char>)
    requires
        text_less(a, b),
        text_less(b, c),
    ensures
        text_less(a, c),
    decreases a.len(),
{
    if a.len() > 0 && a.first() == b.first() && b.first() == c.first() {
        law_text_less_transitive(a.drop_first(), b.drop_first(), c.drop_first());
    }
}

/// Whether `a` stands before `b` in the order of code points.
pub(crate) fn is_less(a: &str, b: &str) -> (r: bool)
    ensures
        r == text_less(a@, b@),
{
    let left = chars_of(a);
    let right = chars_of(b);
    let mut i: usize = 0;
    assert(left@.skip(0) == a@);
    assert(right@.skip(0) == b@);
    while i < left.len() && i < right.len()
        invariant
            i <= left.len(),
            i <= right.len(),
            left@ == a@,
            right@ == b@,
            text_less(a@, b@) == text_less(left@.skip(i as int), right@.skip(i as int)),
        decreases left.len() - i,
    {
        if left[i] != right[i] {
            return left[i] < right[i];
        }
        assert(left@.skip(i as int).drop_first() == left@.skip(i + 1));
        assert(right@.skip(i as int).drop_first() == right@.skip(i + 1));
        i = i + 1;
    }
    i < right.len()
}

/// The decimal digit of a number below ten.
pub open spec fn digit(d: nat) -> Seq<char> {
    if d == 0 {
        "0"@
    } else if d == 1 {
        "1"@
    } else if d == 2 {
        "2"@
    } else if d == 3 {
        "3"@
    } else if d == 4 {
        "4"@
    } else if d == 5 {
        "5"@
    } else if d == 6 {
        "6"@
    } else if d == 7 {
        "7"@
    } else if d == 8 {
        "8"@
    } else {
        "9"@
    }
}

/// A number in decimal digits.
pub open spec fn decimal(n: nat) -> Seq<char>
    decreases n,
{
    if n < 10 {
        digit(n)
    } else {
        decimal(n / 10) + digit(n % 10)
    }
}

/// The decimal digit of a number below ten.
fn digit_text(d: usize) -> (r: &'static str)
    requires
        d < 10,
    ensures
        r@ == digit(d as nat),
{
    match d {
        0 => "0",
        1 => "1",
        2 => "2",
        3 => "3",
        4 => "4",
        5 => "5",
        6 => "6",
        7 => "7",
        8 => "8",
        _ => "9",
    }
}

/// A number in decimal digits.
pub(crate) fn decimal_text(n: usize) -> (r: String)
    ensures
        r@ == decimal(n as nat),
    decreases n,
{
    if n < 10 {
        digit_text(n).to_owned()
    } else {
        let mut r = decimal_text(n / 10);
        r.append(digit_text(n % 10));
        r
    }
}

/// `parts`, with `separator` between each and the next.
pub open spec fn joined(parts: Seq<Seq<char>>, separator: Seq<char>) -> Seq<char>
    decreases parts.len(),
{
    if parts.len() == 0 {
        Seq::empty()
    } else if parts.len() == 1 {
        parts[0]
    } else {
        joined(parts.drop_last(), separator) + separator + parts.last()
    }
}

/// The views of `texts`.
pub open spec fn views(texts: Seq<String>) -> Seq<Seq<char>> {
    Seq::new(texts.len(), |i: int| texts[i]@)
}

/// `parts`, with `separator` between each and the next.
pub(crate) fn join(parts: &Vec<String>, separator: &str) -> (r: String)
    ensures
        r@ == joined(views(parts@), separator@),
{
    let mut r = String::new();
    let mut i: usize = 0;
    let ghost all = views(parts@);
    while i < parts.len()
        invariant
            i <= parts.len(),
            all == views(parts@),
            r@ == joined(all.take(i as int), separator@),
        decreases parts.len() - i,
    {
        if i > 0 {
            r.append(separator);
        }
        r.append(parts[i].as_str());
        assert(all.take(i + 1).drop_last() == all.take(i as int));
        assert(all.take(i + 1).last() == parts@[i as int]@);
        i = i + 1;
    }
    assert(all.take(i as int) == all);
    r
}

} // verus!
