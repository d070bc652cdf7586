//! Laws of text.

use crate::text;
use vstd::prelude::*;

verus! {

/// Whether `s` is white space from end to end.
pub open spec fn is_blank(s: Seq<char>) -> bool {
    forall|i: int| 0 <= i < s.len() ==> text::is_white_space(#[trigger] s[i])
}

/// Whether `s` has no white space at either end.
pub open spec fn has_bare_ends(s: Seq<char>) -> bool {
    s.len() > 0 ==> !text::is_white_space(s[0]) && !text::is_white_space(s[s.len() - 1])
}

/// Whether `padded` is `core` between two stretches of white space.
pub open spec fn is_padded(
    padded: Seq<char>,
    before: Seq<char>,
    core: Seq<char>,
    after: Seq<char>,
) -> bool {
    padded == before + core + after && is_blank(before) && is_blank(after) && has_bare_ends(core)
}

/// White space is what breaks a line and what leaves a gap within one, and nothing
/// else is.
pub proof fn law_white_space(c: char)
    ensures
        text::is_white_space(c) <==> {
            let breaks = 0xa <= c as int <= 0xd || c as int == 0x85 || c as int == 0x2028
                || c as int == 0x2029;
            let gaps = c as int == 0x9 || c as int == 0x20 || c as int == 0xa0 || c as int == 0x1680
                || 0x2000 <= c as int <= 0x200a || c as int == 0x202f || c as int == 0x205f
                || c as int == 0x3000;
            breaks || gaps
        },
{
}

/// Leading white space goes, however much of it there is.
proof fn lemma_trimmed_start(before: Seq<char>, rest: Seq<char>)
    requires
        is_blank(before),
        rest.len() > 0 ==> !text::is_white_space(rest[0]),
    ensures
        text::trimmed_start(before + rest) == rest,
    decreases before.len(),
{
    if before.len() > 0 {
        assert(text::is_white_space(before[0]));
        assert((before + rest).drop_first() == before.drop_first() + rest);
        assert forall|i: int| 0 <= i < before.drop_first().len() implies text::is_white_space(
            #[trigger] before.drop_first()[i],
        ) by {
            assert(text::is_white_space(before[i + 1]));
        }
        lemma_trimmed_start(before.drop_first(), rest);
    } else {
        assert(before + rest == rest);
    }
}

/// Trailing white space goes, however much of it there is.
proof fn lemma_trimmed_end(rest: Seq<char>, after: Seq<char>)
    requires
        is_blank(after),
        rest.len() > 0 ==> !text::is_white_space(rest[rest.len() - 1]),
    ensures
        text::trimmed_end(rest + after) == rest,
    decreases after.len(),
{
    if after.len() > 0 {
        assert(text::is_white_space(after[after.len() - 1]));
        assert((rest + after).drop_last() == rest + after.drop_last());
        assert forall|i: int| 0 <= i < after.drop_last().len() implies text::is_white_space(
            #[trigger] after.drop_last()[i],
        ) by {
            assert(text::is_white_space(after[i]));
        }
        lemma_trimmed_end(rest, after.drop_last());
    } else {
        assert(rest + after == rest);
    }
}

/// Whatever white space is put around a text, trimming takes just that away.
pub proof fn law_trimmed_takes_padding_away(
    padded: Seq<char>,
    before: Seq<char>,
    core: Seq<char>,
    after: Seq<char>,
)
    requires
        is_padded(padded, before, core, after),
    ensures
        text::trimmed(padded) == core,
{
    if core.len() > 0 {
        assert(padded == before + (core + after));
        assert((core + after)[0] == core[0]);
        lemma_trimmed_start(before, core + after);
        lemma_trimmed_end(core, after);
    } else {
        assert forall|i: int| 0 <= i < padded.len() implies text::is_white_space(
            #[trigger] padded[i],
        ) by {
            if i < before.len() {
                assert(text::is_white_space(before[i]));
            } else {
                assert(text::is_white_space(after[i - before.len()]));
            }
        }
        assert(padded == padded + core);
        lemma_trimmed_start(padded, core);
        assert(text::trimmed_end(core) == core);
    }
}

/// One text stands before another if it is the beginning of that, or if its
/// character is the lower one where the two first differ.
pub proof fn law_text_less_goes_by_first_difference(a: Seq<char>, b: Seq<char>)
    ensures
        text::text_less(a, b) <==> exists|k: int|
            0 <= k <= a.len() && k < b.len() && #[trigger] a.take(k) == b.take(k) && (k == a.len()
                || a[k] < b[k]),
    decreases a.len(),
{
    if a.len() > 0 && b.len() > 0 && a[0] == b[0] {
        let a2 = a.drop_first();
        let b2 = b.drop_first();
        law_text_less_goes_by_first_difference(a2, b2);
        if text::text_less(a2, b2) {
            let k = choose|k: int|
                0 <= k <= a2.len() && k < b2.len() && #[trigger] a2.take(k) == b2.take(k) && (k
                    == a2.len() || a2[k] < b2[k]);
            assert forall|i: int| 0 <= i < k + 1 implies #[trigger] a[i] == b[i] by {
                if i > 0 {
                    assert(a2.take(k)[i - 1] == b2.take(k)[i - 1]);
                }
            }
            assert(a.take(k + 1) == b.take(k + 1));
        }
        assert forall|k: int|
            0 <= k <= a.len() && k < b.len() && #[trigger] a.take(k) == b.take(k) && (k == a.len()
                || a[k] < b[k]) implies text::text_less(a2, b2) by {
            assert(k > 0);
            assert forall|i: int| 0 <= i < k - 1 implies #[trigger] a2[i] == b2[i] by {
                assert(a.take(k)[i + 1] == b.take(k)[i + 1]);
            }
            assert(a2.take(k - 1) == b2.take(k - 1));
        }
    } else if b.len() > 0 {
        assert(a.take(0) == b.take(0));
        assert forall|k: int|
            0 <= k <= a.len() && k < b.len() && #[trigger] a.take(k) == b.take(k) && (k == a.len()
                || a[k] < b[k]) implies text::text_less(a, b) by {
            if k > 0 {
                assert(a.take(k)[0] == b.take(k)[0]);
            }
        }
    }
}

/// The number that decimal digits stand for.
pub open spec fn number_of(digits: Seq<char>) -> int
    decreases digits.len(),
{
    if digits.len() == 0 {
        0
    } else {
        10 * number_of(digits.drop_last()) + (digits.last() as int - '0' as int)
    }
}

/// A digit is one character, and stands for its number.
proof fn lemma_digit(d: nat)
    requires
        d < 10,
    ensures
        text::digit(d).len() == 1,
        text::digit(d)[0] as int == '0' as int + d,
{
    reveal_strlit("0");
    reveal_strlit("1");
    reveal_strlit("2");
    reveal_strlit("3");
    reveal_strlit("4");
    reveal_strlit("5");
    reveal_strlit("6");
    reveal_strlit("7");
    reveal_strlit("8");
    reveal_strlit("9");
}

/// A number in decimal reads back as that number. It is made of digits, and
/// begins with a zero only if it is zero.
pub proof fn law_decimal_reads_back(n: nat)
    ensures
        number_of(text::decimal(n)) == n,
        text::decimal(n).len() > 0,
        forall|i: int|
            0 <= i < text::decimal(n).len() ==> '0' <= #[trigger] text::decimal(n)[i] <= '9',
        n > 0 ==> text::decimal(n)[0] != '0',
    decreases n,
{
    let all = text::decimal(n);
    if n < 10 {
        lemma_digit(n);
        reveal_with_fuel(number_of, 2);
        assert(all.drop_last().len() == 0);
    } else {
        lemma_digit(n % 10);
        law_decimal_reads_back(n / 10);
        assert(all.drop_last() == text::decimal(n / 10));
        assert(all.last() == text::digit(n % 10)[0]);
        assert(all[0] == text::decimal(n / 10)[0]);
        assert forall|i: int| 0 <= i < all.len() implies '0' <= #[trigger] all[i] <= '9' by {
            if i < all.len() - 1 {
                assert(all[i] == text::decimal(n / 10)[i]);
            }
        }
    }
}

/// Joined texts stand in their order, and the separator just between them.
pub proof fn law_joined(a: Seq<Seq<char>>, b: Seq<Seq<char>>, one: Seq<char>, separator: Seq<char>)
    ensures
        text::joined(Seq::empty(), separator).len() == 0,
        text::joined(seq![one], separator) == one,
        a.len() > 0 && b.len() > 0 ==> text::joined(a + b, separator) == text::joined(a, separator)
            + separator + text::joined(b, separator),
    decreases b.len(),
{
    if a.len() > 0 && b.len() > 0 {
        assert((a + b).drop_last() == a + b.drop_last());
        assert((a + b).last() == b.last());
        if b.len() == 1 {
            assert(a + b.drop_last() == a);
        } else {
            law_joined(a, b.drop_last(), one, separator);
        }
        assert(text::joined(a + b, separator) == text::joined(a, separator) + separator
            + text::joined(b, separator));
    }
}

} // verus!
