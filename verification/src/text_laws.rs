//! What the texts of the crate say: numbers can be read back from them, and names have the
//! order of their bytes.
use vstd::prelude::*;
use vstd::utf8::*;
use crate::names;
use crate::text;

verus! {

/// Whether a text is made of decimal digits.
pub open spec fn all_digits(s: Seq<char>) -> bool {
    forall|i: int| 0 <= i < s.len() ==> '0' <= #[trigger] s[i] <= '9'
}

/// The number that a text of digits stands for.
pub open spec fn number_in(s: Seq<char>) -> int
    decreases s.len(),
{
    if s.len() == 0 {
        0
    } else {
        number_in(s.drop_last()) * 10 + (s.last() as u32 - '0' as u32)
    }
}

proof fn lemma_digit(d: nat)
    requires
        d < 10,
    ensures
        text::digit_char(d) as u32 == 48 + d,
        '0' <= text::digit_char(d) <= '9',
{
    if d == 0 {
    } else if d == 1 {
    } else if d == 2 {
    } else if d == 3 {
    } else if d == 4 {
    } else if d == 5 {
    } else if d == 6 {
    } else if d == 7 {
    } else if d == 8 {
    } else {
        assert(d == 9);
    }
}

proof fn lemma_append_digit(s: Seq<char>, d: nat)
    requires
        d < 10,
        all_digits(s),
    ensures
        all_digits(s + seq![text::digit_char(d)]),
        number_in(s + seq![text::digit_char(d)]) == number_in(s) * 10 + d,
{
    let t = s + seq![text::digit_char(d)];
    lemma_digit(d);
    assert(t.drop_last() =~= s);
    assert(t.last() == text::digit_char(d));
}

/// A number can be read back from its decimal form, which is all digits and, but for zero
/// itself, begins with none that is zero.
pub proof fn law_decimals_read_back(n: nat)
    ensures
        text::decimal(n).len() > 0,
        all_digits(text::decimal(n)),
        number_in(text::decimal(n)) == n,
        n > 0 ==> text::decimal(n)[0] != '0',
        n == 0 ==> text::decimal(n).len() == 1,
    decreases n,
{
    if n < 10 {
        let none = Seq::<char>::empty();
        lemma_append_digit(none, n);
        assert(none + seq![text::digit_char(n)] =~= text::decimal(n));
        lemma_digit(n);
    } else {
        law_decimals_read_back(n / 10);
        lemma_append_digit(text::decimal(n / 10), n % 10);
        assert(text::decimal(n)[0] == text::decimal(n / 10)[0]);
    }
}

/// Ten to the power of `width`.
pub open spec fn power_of_ten(width: nat) -> nat
    decreases width,
{
    if width == 0 {
        1
    } else {
        10 * power_of_ten((width - 1) as nat)
    }
}

/// A padded number has the width that it is padded to, and can be read back.
pub proof fn law_padded_numbers_read_back(n: nat, width: nat)
    requires
        n < power_of_ten(width),
    ensures
        text::zero_padded(n, width).len() == width,
        all_digits(text::zero_padded(n, width)),
        number_in(text::zero_padded(n, width)) == n,
    decreases width,
{
    if width > 0 {
        let less = (width - 1) as nat;
        law_padded_numbers_read_back(n / 10, less);
        lemma_append_digit(text::zero_padded(n / 10, less), n % 10);
    }
}

/// A coordinate can be read back from the form in which it is shown: a minus sign exactly
/// for negative ones, whole degrees, a point, and seven decimals.
pub proof fn law_coordinates_read_back(v: int)
    ensures
        ({
            let shown = text::fixed_1e7(v);
            let digits = if v < 0 {
                shown.drop_first()
            } else {
                shown
            };
            let point = digits.len() - 8;
            let size = if v < 0 {
                -v
            } else {
                v
            };
            &&& v < 0 ==> shown.len() > 0 && shown[0] == '-'
            &&& point > 0
            &&& digits[point] == '.'
            &&& all_digits(digits.take(point))
            &&& all_digits(digits.skip(point + 1))
            &&& number_in(digits.take(point)) * 10_000_000 + number_in(digits.skip(point + 1))
                == size
        }),
{
    let size: nat = if v < 0 {
        (-v) as nat
    } else {
        v as nat
    };
    let whole = text::decimal(size / 10_000_000);
    let rest = text::zero_padded(size % 10_000_000, 7);
    assert(power_of_ten(7) == 10_000_000) by {
        reveal_with_fuel(power_of_ten, 8);
    }
    law_decimals_read_back(size / 10_000_000);
    law_padded_numbers_read_back(size % 10_000_000, 7);
    reveal_strlit(".");
    reveal_strlit("-");
    let digits = text::fixed_1e7_magnitude(size);
    assert(digits =~= whole + "."@ + rest);
    if v < 0 {
        assert(text::fixed_1e7(v).drop_first() =~= digits);
    }
    let point = digits.len() - 8;
    assert(digits.take(point) =~= whole);
    assert(digits.skip(point + 1) =~= rest);
}

/// Joining: nothing gives nothing, one part gives itself, and two lists that have parts are
/// joined by joining each, with the separator between.
pub proof fn law_joining_lists(a: Seq<Seq<char>>, b: Seq<Seq<char>>, separator: Seq<char>)
    ensures
        a.len() == 0 ==> text::joined(a, separator).len() == 0,
        a.len() == 1 ==> text::joined(a, separator) == a[0],
        a.len() > 0 && b.len() > 0 ==> text::joined(a + b, separator) == text::joined(a, separator)
            + separator + text::joined(b, separator),
    decreases b.len(),
{
    if a.len() > 0 && b.len() > 0 {
        let front = b.drop_last();
        assert((a + b).drop_last() =~= a + front);
        assert((a + b).last() == b.last());
        if front.len() == 0 {
            assert(a + front =~= a);
        } else {
            law_joining_lists(a, front, separator);
            assert(text::joined(a + b, separator) =~= text::joined(a, separator) + separator
                + text::joined(b, separator));
        }
    }
}

/// The texts of strings are those of each string, in order.
pub proof fn law_texts_are_those_of_the_strings(strings: Seq<String>, i: int)
    requires
        0 <= i < strings.len(),
    ensures
        text::texts(strings).len() == strings.len(),
        text::texts(strings)[i] == strings[i]@,
{
}

proof fn lemma_trim_start(s: Seq<char>) -> (before: Seq<char>)
    ensures
        s == before + text::trimmed_start(s),
        text::all_white_space(before),
        text::trimmed_start(s).len() > 0 ==> !text::is_white_space(text::trimmed_start(s)[0]),
    decreases s.len(),
{
    if s.len() > 0 && text::is_white_space(s.first()) {
        let rest = lemma_trim_start(s.drop_first());
        let before = seq![s[0]] + rest;
        let left = text::trimmed_start(s.drop_first());
        assert(s =~= seq![s[0]] + (rest + left));
        assert(s =~= before + left);
        before
    } else {
        assert(s =~= Seq::<char>::empty() + s);
        Seq::empty()
    }
}

proof fn lemma_trim_end(s: Seq<char>) -> (after: Seq<char>)
    ensures
        s == text::trimmed_end(s) + after,
        text::all_white_space(after),
        text::trimmed_end(s).len() > 0 ==> !text::is_white_space(text::trimmed_end(s).last()),
    decreases s.len(),
{
    if s.len() > 0 && text::is_white_space(s.last()) {
        let rest = lemma_trim_end(s.drop_last());
        let after = rest + seq![s.last()];
        let left = text::trimmed_end(s.drop_last());
        assert(s =~= (left + rest) + seq![s.last()]);
        assert(s =~= left + after);
        after
    } else {
        assert(s =~= s + Seq::<char>::empty());
        Seq::empty()
    }
}

/// Trimming takes off nothing but white space at the two ends, and all of it. The results
/// are what it took off.
pub proof fn law_trimming_takes_off_white_space(s: Seq<char>) -> (ends: (Seq<char>, Seq<char>))
    ensures
        s == ends.0 + text::trimmed(s) + ends.1,
        text::all_white_space(ends.0),
        text::all_white_space(ends.1),
        text::trimmed(s).len() > 0 ==> !text::is_white_space(text::trimmed(s)[0])
            && !text::is_white_space(text::trimmed(s).last()),
{
    let before = lemma_trim_start(s);
    let middle = text::trimmed_start(s);
    let after = lemma_trim_end(middle);
    assert(s =~= before + text::trimmed(s) + after);
    if text::trimmed(s).len() > 0 {
        assert(text::trimmed(s)[0] == middle[0]);
    }
    (before, after)
}

/// Lowering changes ASCII capitals into the letters that stand 32 places behind them, and
/// nothing else.
pub proof fn law_lowering_changes_capitals_only(s: Seq<char>, i: int)
    requires
        0 <= i < s.len(),
    ensures
        text::ascii_lower(s).len() == s.len(),
        'A' <= s[i] <= 'Z' ==> text::ascii_lower(s)[i] as u32 == s[i] as u32 + 32,
        !('A' <= s[i] <= 'Z') ==> text::ascii_lower(s)[i] == s[i],
{
}

/// Whether `a` is before `b` because they agree in their first `k` bytes, and `a` then ends
/// or goes on with the smaller byte.
pub open spec fn before_at(a: Seq<u8>, b: Seq<u8>, k: int) -> bool {
    &&& 0 <= k <= a.len()
    &&& k < b.len()
    &&& forall|i: int| 0 <= i < k ==> a[i] == b[i]
    &&& (k == a.len() || a[k] < b[k])
}

/// Names are ordered by the first of their bytes in which they differ, the smaller one
/// first; a name that the other one begins with is before it.
pub proof fn law_names_are_ordered_by_their_bytes(a: Seq<char>, b: Seq<char>)
    ensures
        names::name_lt(a, b) <==> exists|k: int| before_at(encode_utf8(a), encode_utf8(b), k),
{
    lemma_bytes_order(encode_utf8(a), encode_utf8(b));
}

proof fn lemma_bytes_order(a: Seq<u8>, b: Seq<u8>)
    ensures
        names::bytes_lt(a, b) <==> exists|k: int| before_at(a, b, k),
    decreases a.len(),
{
    if b.len() > 0 {
        if a.len() == 0 {
            assert(before_at(a, b, 0));
        } else {
            let x = a.drop_first();
            let y = b.drop_first();
            lemma_bytes_order(x, y);
            if a[0] < b[0] {
                assert(before_at(a, b, 0));
            } else if a[0] == b[0] && names::bytes_lt(x, y) {
                let k = choose|k: int| before_at(x, y, k);
                assert forall|i: int| 0 <= i < k + 1 implies a[i] == b[i] by {
                    if i > 0 {
                        assert(x[i - 1] == y[i - 1]);
                    }
                }
                if k < x.len() {
                    assert(a[k + 1] == x[k] && b[k + 1] == y[k]);
                }
                assert(before_at(a, b, k + 1));
            }
            if exists|k: int| before_at(a, b, k) {
                let k = choose|k: int| before_at(a, b, k);
                if k > 0 {
                    assert(a[0] == b[0]);
                    assert forall|i: int| 0 <= i < k - 1 implies x[i] == y[i] by {
                        assert(a[i + 1] == b[i + 1]);
                    }
                    if k < a.len() {
                        assert(a[k] == x[k - 1] && b[k] == y[k - 1]);
                    }
                    assert(before_at(x, y, k - 1));
                }
            }
        }
    }
}

/// The sorted order of a finite set of names holds each of them once, and of any two the one
/// that is before the other first.
pub proof fn law_sorted_names_are_in_order(set: Set<Seq<char>>, i: int, j: int)
    requires
        set.finite(),
        0 <= i < j < names::sorted_names(set).len(),
    ensures
        names::sorted_names(set).to_set() == set,
        names::sorted_names(set).len() == set.len(),
        exists|k: int|
            before_at(
                encode_utf8(names::sorted_names(set)[i]),
                encode_utf8(names::sorted_names(set)[j]),
                k,
            ),
{
    names::lemma_sorted_names(set);
    let sorted = names::sorted_names(set);
    assert(names::name_lt(sorted[i], sorted[j]));
    law_names_are_ordered_by_their_bytes(sorted[i], sorted[j]);
}

} // verus!
