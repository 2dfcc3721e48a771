//! Laws of text.

use crate::text;
use vstd::prelude::*;

verus! {

/// Nothing but white space.
pub open spec fn blank(s: Seq<char>) -> bool {
    forall|i: int| 0 <= i < s.len() ==> text::white_space(#[trigger] s[i])
}

/// Not empty, and without white space at either end.
pub open spec fn unpadded(s: Seq<char>) -> bool {
    &&& s.len() > 0
    &&& !text::white_space(s[0])
    &&& !text::white_space(s.last())
}

/// The characters that Unicode calls white space, one by one.
pub proof fn white_space_is_that_of_unicode(c: char)
    ensures
        text::white_space(c) <==> {
            ||| c == '\u{9}' || c == '\u{a}' || c == '\u{b}' || c == '\u{c}' || c == '\u{d}'
            ||| c == '\u{20}' || c == '\u{85}' || c == '\u{a0}' || c == '\u{1680}'
            ||| c == '\u{2000}' || c == '\u{2001}' || c == '\u{2002}' || c == '\u{2003}'
            ||| c == '\u{2004}' || c == '\u{2005}' || c == '\u{2006}' || c == '\u{2007}'
            ||| c == '\u{2008}' || c == '\u{2009}' || c == '\u{200a}' || c == '\u{2028}'
            ||| c == '\u{2029}' || c == '\u{202f}' || c == '\u{205f}' || c == '\u{3000}'
        },
{
}

proof fn lemma_start(before: Seq<char>, rest: Seq<char>)
    requires
        blank(before),
        rest.len() == 0 || !text::white_space(rest[0]),
    ensures
        text::trimmed_start(before + rest) == rest,
    decreases before.len(),
{
    let s = before + rest;
    if before.len() > 0 {
        assert(s[0] == before[0]);
        assert(s.drop_first() =~= before.drop_first() + rest);
        lemma_start(before.drop_first(), rest);
    } else {
        assert(s =~= rest);
    }
}

proof fn lemma_end(rest: Seq<char>, after: Seq<char>)
    requires
        blank(after),
        rest.len() == 0 || !text::white_space(rest.last()),
    ensures
        text::trimmed_end(rest + after) == rest,
    decreases after.len(),
{
    let s = rest + after;
    if after.len() > 0 {
        assert(s.last() == after.last());
        assert(s.drop_last() =~= rest + after.drop_last());
        lemma_end(rest, after.drop_last());
    } else {
        assert(s =~= rest);
    }
}

/// White space around a text is taken off, and nothing else.
pub proof fn padding_is_trimmed_away(before: Seq<char>, inner: Seq<char>, after: Seq<char>)
    requires
        blank(before),
        blank(after),
        inner.len() == 0 || unpadded(inner),
    ensures
        text::trimmed(before + inner + after) == inner,
{
    if inner.len() == 0 {
        assert(before + inner + after =~= (before + after) + Seq::<char>::empty());
        lemma_start(before + after, Seq::empty());
    } else {
        assert(before + inner + after =~= before + (inner + after));
        lemma_start(before, inner + after);
        lemma_end(inner, after);
    }
}

proof fn lemma_start_splits(s: Seq<char>) -> (before: Seq<char>)
    ensures
        blank(before),
        s == before + text::trimmed_start(s),
        text::trimmed_start(s).len() == 0 || !text::white_space(text::trimmed_start(s)[0]),
    decreases s.len(),
{
    if s.len() > 0 && text::white_space(s[0]) {
        let rest = lemma_start_splits(s.drop_first());
        let before = seq![s[0]] + rest;
        assert(s =~= seq![s[0]] + s.drop_first());
        assert(text::trimmed_start(s) == text::trimmed_start(s.drop_first()));
        assert(s =~= before + text::trimmed_start(s));
        before
    } else {
        assert(s =~= Seq::<char>::empty() + s);
        Seq::empty()
    }
}

proof fn lemma_end_splits(s: Seq<char>) -> (after: Seq<char>)
    ensures
        blank(after),
        s == text::trimmed_end(s) + after,
        text::trimmed_end(s).len() == 0 || !text::white_space(text::trimmed_end(s).last()),
    decreases s.len(),
{
    if s.len() > 0 && text::white_space(s.last()) {
        let rest = lemma_end_splits(s.drop_last());
        let after = rest.push(s.last());
        assert(s =~= s.drop_last().push(s.last()));
        assert(text::trimmed_end(s) == text::trimmed_end(s.drop_last()));
        assert(s =~= text::trimmed_end(s) + after);
        after
    } else {
        assert(s =~= s + Seq::<char>::empty());
        Seq::empty()
    }
}

/// Every text is its trimmed part with white space around it.
pub proof fn trimmed_part_is_inside(s: Seq<char>) -> (around: (Seq<char>, Seq<char>))
    ensures
        blank(around.0),
        blank(around.1),
        s == around.0 + text::trimmed(s) + around.1,
        text::trimmed(s).len() == 0 || unpadded(text::trimmed(s)),
{
    let before = lemma_start_splits(s);
    let after = lemma_end_splits(text::trimmed_start(s));
    let inner = text::trimmed(s);
    assert(s =~= before + inner + after);
    if inner.len() > 0 {
        assert(inner[0] == text::trimmed_start(s)[0]);
    }
    (before, after)
}

/// A blank text trims to nothing, and only a blank one does.
pub proof fn only_blank_text_trims_to_nothing(s: Seq<char>)
    ensures
        text::trimmed(s).len() == 0 <==> blank(s),
{
    if blank(s) {
        padding_is_trimmed_away(s, Seq::empty(), Seq::empty());
        assert(s + Seq::<char>::empty() + Seq::<char>::empty() =~= s);
    }
    if text::trimmed(s).len() == 0 {
        let around = trimmed_part_is_inside(s);
        assert forall|i: int| 0 <= i < s.len() implies text::white_space(#[trigger] s[i]) by {
            if i < around.0.len() {
                assert(s[i] == around.0[i]);
            } else {
                assert(s[i] == around.1[i - around.0.len()]);
            }
        }
    }
}

/// A prefix starts the text and is as long as asked for, where the text is that long.
pub proof fn prefix_starts_the_text(s: Seq<char>, n: nat)
    ensures
        text::prefix(s, n).len() == (if s.len() < n { s.len() } else { n }),
        forall|i: int| 0 <= i < text::prefix(s, n).len() ==> #[trigger] text::prefix(s, n)[i] == s[i],
{
}

/// What stands in neither of two texts does not stand in both together.
pub proof fn lemma_lacks_both(one: Seq<char>, other: Seq<char>, c: char)
    requires
        !one.contains(c),
        !other.contains(c),
    ensures
        !(one + other).contains(c),
{
    let s = one + other;
    assert forall|i: int| 0 <= i < s.len() implies #[trigger] s[i] != c by {
        if i < one.len() {
            assert(one.contains(one[i]));
            assert(s[i] == one[i]);
        } else {
            assert(other.contains(other[i - one.len()]));
            assert(s[i] == other[i - one.len()]);
        }
    }
}

/// What stands before the first `c`, `c` itself, and whatever else: the position of `c` is the
/// length of what stands before.
pub proof fn first_index_is_behind_what_lacks_it(before: Seq<char>, c: char, after: Seq<char>)
    requires
        !before.contains(c),
    ensures
        text::first_index(before + seq![c] + after, c) == before.len(),
        text::first_index(before, c) == before.len(),
{
    let s = before + seq![c] + after;
    assert forall|i: int| 0 <= i < before.len() implies #[trigger] s[i] != c by {
        assert(before.contains(before[i]));
    }
    assert forall|i: int| 0 <= i < before.len() implies #[trigger] before[i] != c by {
        assert(before.contains(before[i]));
    }
    text::lemma_first_index_unique(s, c, before.len());
    text::lemma_first_index_unique(before, c, before.len());
}

/// One part stands for itself, and no parts give nothing.
pub proof fn joined_parts_stand_for_themselves(part: Seq<char>, separator: Seq<char>)
    ensures
        text::joined(seq![part], separator) == part,
        text::joined(Seq::<Seq<char>>::empty(), separator) == Seq::<char>::empty(),
{
}

/// Two lists of parts are joined by one separator between them.
pub proof fn joined_lists_have_one_separator_between(
    one: Seq<Seq<char>>,
    other: Seq<Seq<char>>,
    separator: Seq<char>,
)
    requires
        one.len() > 0,
        other.len() > 0,
    ensures
        text::joined(one + other, separator) == text::joined(one, separator) + separator
            + text::joined(other, separator),
    decreases other.len(),
{
    let all = one + other;
    assert(all.drop_last() =~= one + other.drop_last());
    assert(all.last() == other.last());
    if other.len() == 1 {
        assert(one + other.drop_last() =~= one);
    } else {
        joined_lists_have_one_separator_between(one, other.drop_last(), separator);
        assert(text::joined(all, separator) =~= text::joined(one, separator) + separator
            + text::joined(other, separator));
    }
}

/// The character that writes a number below ten.
pub open spec fn digit(n: nat) -> char {
    if n == 0 { '0' } else if n == 1 { '1' } else if n == 2 { '2' } else if n == 3 { '3' }
    else if n == 4 { '4' } else if n == 5 { '5' } else if n == 6 { '6' } else if n == 7 { '7' }
    else if n == 8 { '8' } else { '9' }
}

/// A number, written in decimal digits.
pub open spec fn written(n: nat) -> Seq<char>
    decreases n,
{
    if n < 10 {
        seq![digit(n)]
    } else {
        written(n / 10).push(digit(n % 10))
    }
}

/// Every character of a written number is a digit, and its digits have its value.
pub proof fn lemma_written(n: nat)
    ensures
        written(n).len() > 0,
        forall|i: int| 0 <= i < written(n).len() ==> text::is_digit(#[trigger] written(n)[i]),
        text::decimal_value(written(n)) == n,
    decreases n,
{
    reveal_with_fuel(text::decimal_value, 2);
    if n < 10 {
        assert(written(n).drop_last() =~= Seq::<char>::empty());
    } else {
        lemma_written(n / 10);
        assert(written(n).drop_last() =~= written(n / 10));
        assert(written(n).last() == digit(n % 10));
    }
}

/// Every number that fits reads back from its decimal digits, and one that does not fit is no
/// number.
pub proof fn number_reads_back(n: nat)
    ensures
        text::parsed_u64(written(n)) == if n <= u64::MAX {
            Some(n as u64)
        } else {
            None
        },
{
    lemma_written(n);
}

/// What is read as a number is made of decimal digits alone, and one more digit at the end makes
/// it ten times as large and adds the digit.
pub proof fn numbers_are_decimal_digits(s: Seq<char>, d: nat)
    requires
        d < 10,
    ensures
        text::parsed_u64(s) is Some ==> s.len() > 0 && forall|i: int|
            0 <= i < s.len() ==> '0' <= #[trigger] s[i] <= '9',
        text::parsed_u64(s) matches Some(v) ==> text::parsed_u64(s.push(digit(d))) == (if 10 * v + d
            <= u64::MAX {
            Some((10 * v + d) as u64)
        } else {
            None
        }),
        text::parsed_u64(seq![digit(d)]) == Some(d as u64),
{
    reveal_with_fuel(text::decimal_value, 2);
    let t = s.push(digit(d));
    if text::parsed_u64(s) is Some {
        assert forall|i: int| 0 <= i < s.len() implies '0' <= #[trigger] s[i] <= '9' by {
            assert(text::is_digit(s[i]));
        }
        assert forall|i: int| 0 <= i < t.len() implies text::is_digit(#[trigger] t[i]) by {
            if i < s.len() {
                assert(t[i] == s[i]);
            }
        }
        assert(t.drop_last() =~= s);
    }
    assert(seq![digit(d)].drop_last() =~= Seq::<char>::empty());
    assert(text::decimal_value(seq![digit(d)]) == d);
}

/// The view of an optional text is the text, and a list of texts is viewed text by text.
pub proof fn views_of_text_are_the_text(some: String, list: Seq<String>)
    ensures
        text::text_of(Some(some)) == Some(some@),
        text::text_of(None::<String>) is None,
        text::texts(list).len() == list.len(),
        forall|i: int| 0 <= i < list.len() ==> #[trigger] text::texts(list)[i] == list[i]@,
{
}

} // verus!
