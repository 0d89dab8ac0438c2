//! Laws of texts and numbers.

use crate::calendar::time_pattern;
use crate::cli::grouped;
use crate::date::{
    day_number, iso_text, month_length, month_text, slashed_text, weekday_text, CalendarDate,
};
use crate::text::{
    before, char_from, contains, decimal, digit_run, digit_value, digits_value, index_from,
    index_from_is_first, joined, last_index, last_index_from, left_aligned, padded, parsed_int,
    parsed_nat, replaced, second_piece, signed_decimal, split, split_once, trim_end, trim_start,
    trimmed, whitespace, words, words_from, zeros,
};
use vstd::prelude::*;

verus! {

// ---------------------------------------------------------------------------
// Numbers
// ---------------------------------------------------------------------------

/// The number that a list of digits stands for.
pub open spec fn number_of(digits: Seq<char>) -> int
    decreases digits.len(),
{
    if digits.len() == 0 {
        0
    } else {
        number_of(digits.drop_last()) * 10 + (digits.last() as int - '0' as int)
    }
}

/// Whether a text is made of decimal digits alone.
pub open spec fn all_digits(text: Seq<char>) -> bool {
    forall|i: int| 0 <= i < text.len() ==> '0' <= #[trigger] text[i] <= '9'
}

proof fn digits_behind(text: Seq<char>, value: nat)
    requires
        text.len() > 0,
        all_digits(text),
    ensures
        digits_value(text, value) is Some,
        digits_value(text.drop_last(), value) is Some,
        digits_value(text, value)->Some_0 == digits_value(text.drop_last(), value)->Some_0 * 10 + (
        text.last() as int - '0' as int),
    decreases text.len(),
{
    reveal_with_fuel(digits_value, 2);
    assert('0' <= text[0] <= '9');
    if text.len() > 1 {
        let rest = text.skip(1);
        assert forall|i: int| 0 <= i < rest.len() implies '0' <= #[trigger] rest[i] <= '9' by {
            assert(rest[i] == text[i + 1]);
        }
        let digit = (text[0] as int - '0' as int) as nat;
        digits_behind(rest, value * 10 + digit);
        assert(rest.drop_last() == text.drop_last().skip(1));
        assert(rest.last() == text.last());
        assert(text.drop_last()[0] == text[0]);
    } else {
        assert(text.skip(1).len() == 0);
        assert(text.drop_last().len() == 0);
    }
}

/// A text of digits is read as the number that it stands for.
pub proof fn digits_are_read_as_their_number(text: Seq<char>)
    requires
        all_digits(text),
    ensures
        digits_value(text, 0) matches Some(value) && value == number_of(text),
        text.len() > 0 ==> (parsed_nat(text) matches Some(value) && value == number_of(text)),
    decreases text.len(),
{
    if text.len() > 0 {
        let front = text.drop_last();
        assert forall|i: int| 0 <= i < front.len() implies '0' <= #[trigger] front[i] <= '9' by {
            assert(front[i] == text[i]);
        }
        digits_are_read_as_their_number(front);
        digits_behind(text, 0);
        assert('0' <= text[0] <= '9');
    }
}

/// The decimal form of a number is made of digits and stands for it, and has no
/// zero in front but that of zero itself.
pub proof fn a_number_is_written_by_its_digits(n: nat)
    ensures
        all_digits(decimal(n)),
        decimal(n).len() > 0,
        number_of(decimal(n)) == n,
        n > 0 ==> decimal(n)[0] != '0',
    decreases n,
{
    reveal_with_fuel(number_of, 2);
    if n >= 10 {
        a_number_is_written_by_its_digits(n / 10);
        let front = decimal(n / 10);
        let text = decimal(n);
        assert(text.drop_last() == front);
        assert forall|i: int| 0 <= i < text.len() implies '0' <= #[trigger] text[i] <= '9' by {
            if i < front.len() {
                assert(text[i] == front[i]);
            }
        }
        assert(text[0] == front[0]);
    } else {
        let text = decimal(n);
        assert(text.drop_last().len() == 0);
    }
}

/// What is written of a number is read as that number.
pub proof fn a_written_number_is_read_back(n: nat)
    ensures
        parsed_nat(decimal(n)) == Some(n),
        n <= i64::MAX ==> parsed_int(decimal(n)) == Some(n as int),
{
    a_number_is_written_by_its_digits(n);
    digits_are_read_as_their_number(decimal(n));
    assert('0' <= decimal(n)[0] <= '9');
}

/// A number below zero is written with a minus before its size, and read back.
pub proof fn a_number_below_zero_is_read_back(n: int)
    requires
        -0x8000_0000_0000_0000 <= n < 0,
    ensures
        signed_decimal(n)[0] == '-',
        parsed_int(signed_decimal(n)) == Some(n),
{
    reveal_strlit("-");
    let size = (-n) as nat;
    a_number_is_written_by_its_digits(size);
    digits_are_read_as_their_number(decimal(size));
    assert(signed_decimal(n).skip(1) == decimal(size));
}

/// Zeros in front keep a number, and fill the width where the number does not.
pub proof fn padding_keeps_a_number(n: nat, width: nat)
    ensures
        padded(n, width).len() >= width,
        decimal(n).len() <= width ==> padded(n, width).len() == width,
        all_digits(padded(n, width)),
        number_of(padded(n, width)) == n,
{
    a_number_is_written_by_its_digits(n);
    let count = (if decimal(n).len() < width {
        width - decimal(n).len()
    } else {
        0
    }) as nat;
    zeros_in_front(count, decimal(n));
    assert(zeros(0) + decimal(n) == decimal(n));
}

proof fn zeros_in_front(count: nat, text: Seq<char>)
    requires
        all_digits(text),
    ensures
        all_digits(zeros(count) + text),
        number_of(zeros(count) + text) == number_of(text),
    decreases text.len(), count,
{
    let whole = zeros(count) + text;
    assert forall|i: int| 0 <= i < whole.len() implies '0' <= #[trigger] whole[i] <= '9' by {
        if i >= count {
            assert(whole[i] == text[i - count]);
        }
    }
    if text.len() > 0 {
        let front = text.drop_last();
        assert forall|i: int| 0 <= i < front.len() implies '0' <= #[trigger] front[i] <= '9' by {
            assert(front[i] == text[i]);
        }
        zeros_in_front(count, front);
        assert(whole.drop_last() == zeros(count) + front);
    } else if count > 0 {
        zeros_in_front((count - 1) as nat, text);
        assert(whole.drop_last() == zeros((count - 1) as nat) + text);
    }
}

/// A text begins with as many digits as are counted, and with no more.
pub proof fn digits_in_front_are_counted(text: Seq<char>)
    ensures
        digit_run(text) <= text.len(),
        all_digits(text.take(digit_run(text) as int)),
        digit_run(text) < text.len() ==> !('0' <= text[digit_run(text) as int] <= '9'),
    decreases text.len(),
{
    if text.len() > 0 && digit_value(text[0]) is Some {
        digits_in_front_are_counted(text.skip(1));
        let run = text.take(digit_run(text) as int);
        assert forall|i: int| 0 <= i < run.len() implies '0' <= #[trigger] run[i] <= '9' by {
            if i > 0 {
                assert(run[i] == text.skip(1).take(digit_run(text.skip(1)) as int)[i - 1]);
            }
        }
    }
}

// ---------------------------------------------------------------------------
// Times
// ---------------------------------------------------------------------------

proof fn no_mark_before(text: Seq<char>, c: char, from: int)
    requires
        0 <= from <= text.len(),
    ensures
        match char_from(text, c, from) {
            Some(at) => from <= at < text.len() && text[at] == c && forall|i: int|
                from <= i < at ==> #[trigger] text[i] != c,
            None => forall|i: int| from <= i < text.len() ==> #[trigger] text[i] != c,
        },
    decreases text.len() - from,
{
    if from < text.len() && text[from] != c {
        no_mark_before(text, c, from + 1);
    }
}

/// Two pairs of digits with a colon between them are a time exactly where the
/// first is below 24 and the second below 60.
pub proof fn a_time_has_its_hour_and_minute(text: Seq<char>)
    requires
        text.len() == 5,
        text[2] == ':',
        '0' <= text[0] <= '9',
        '0' <= text[1] <= '9',
        '0' <= text[3] <= '9',
        '0' <= text[4] <= '9',
    ensures
        time_pattern(text) <==> {
            &&& (text[0] as int - '0' as int) * 10 + (text[1] as int - '0' as int) < 24
            &&& (text[3] as int - '0' as int) * 10 + (text[4] as int - '0' as int) < 60
        },
{
    reveal_with_fuel(split, 3);
    reveal_with_fuel(number_of, 3);
    no_mark_before(text, ':', 0);
    assert(char_from(text, ':', 0) == Some(2int));
    let hour = text.take(2);
    let minute = text.skip(3);
    no_mark_before(minute, ':', 0);
    assert(char_from(minute, ':', 0) is None) by {
        if let Some(at) = char_from(minute, ':', 0) {
            assert(minute[at] == text[at + 3]);
        }
    }
    assert(split(minute, ':') == seq![minute]);
    assert(split(text, ':') == seq![hour] + seq![minute]);
    assert(split(text, ':').len() == 2);
    assert(split(text, ':')[0] == hour && split(text, ':')[1] == minute);
    assert forall|i: int| 0 <= i < hour.len() implies '0' <= #[trigger] hour[i] <= '9' by {
        assert(hour[i] == text[i]);
    }
    assert forall|i: int| 0 <= i < minute.len() implies '0' <= #[trigger] minute[i] <= '9' by {
        assert(minute[i] == text[i + 3]);
    }
    digits_are_read_as_their_number(hour);
    digits_are_read_as_their_number(minute);
    assert(hour.drop_last().drop_last().len() == 0);
    assert(hour.drop_last().last() == text[0] && hour.last() == text[1]);
    assert(number_of(hour.drop_last()) == text[0] as int - '0' as int);
    assert(minute.drop_last().drop_last().len() == 0);
    assert(minute.drop_last().last() == text[3] && minute.last() == text[4]);
    assert(number_of(minute.drop_last()) == text[3] as int - '0' as int);
}

/// A text without a colon is no time.
pub proof fn a_time_has_a_colon(text: Seq<char>)
    requires
        forall|i: int| 0 <= i < text.len() ==> #[trigger] text[i] != ':',
    ensures
        !time_pattern(text),
{
    no_mark_before(text, ':', 0);
    assert(split(text, ':') == seq![text]);
}

// ---------------------------------------------------------------------------
// Pieces of texts
// ---------------------------------------------------------------------------

/// A text is parted at the first mark: what stands before it holds none, and
/// the parts with the mark between them are the text.
pub proof fn a_text_is_parted_at_the_first_mark(text: Seq<char>, c: char)
    ensures
        match split_once(text, c) {
            Some(parts) => !parts.0.contains(c) && parts.0 + seq![c] + parts.1 == text,
            None => !text.contains(c),
        },
{
    no_mark_before(text, c, 0);
    match char_from(text, c, 0) {
        Some(at) => {
            assert(text.take(at) + seq![c] + text.skip(at + 1) == text);
            assert forall|i: int| 0 <= i < at implies text.take(at)[i] != c by {
                assert(text.take(at)[i] == text[i]);
            }
        },
        None => {},
    }
}

/// The pieces of a text hold no mark, and with marks between them they are the
/// text.
pub proof fn the_pieces_make_up_the_text(text: Seq<char>, c: char)
    ensures
        split(text, c).len() >= 1,
        joined(split(text, c), seq![c]) == text,
        forall|i: int| 0 <= i < split(text, c).len() ==> !(#[trigger] split(text, c)[i]).contains(c),
    decreases text.len(),
{
    no_mark_before(text, c, 0);
    match char_from(text, c, 0) {
        Some(at) => {
            let rest = text.skip(at + 1);
            the_pieces_make_up_the_text(rest, c);
            let pieces = split(text, c);
            assert(pieces == seq![text.take(at)] + split(rest, c));
            joined_in_front(text.take(at), split(rest, c), seq![c]);
            assert(text.take(at) + seq![c] + rest == text);
            assert forall|i: int| 0 <= i < pieces.len() implies !(#[trigger] pieces[i]).contains(
                c,
            ) by {
                if i == 0 {
                    assert forall|j: int| 0 <= j < at implies text.take(at)[j] != c by {
                        assert(text.take(at)[j] == text[j]);
                    }
                } else {
                    assert(pieces[i] == split(rest, c)[i - 1]);
                }
            }
        },
        None => {
            assert(split(text, c) == seq![text]);
            assert(joined(seq![text], seq![c]) == text);
        },
    }
}

proof fn joined_in_front(first: Seq<char>, rest: Seq<Seq<char>>, separator: Seq<char>)
    requires
        rest.len() >= 1,
    ensures
        joined(seq![first] + rest, separator) == first + separator + joined(rest, separator),
    decreases rest.len(),
{
    reveal_with_fuel(joined, 2);
    let whole = seq![first] + rest;
    if rest.len() == 1 {
        assert(whole.drop_last() == seq![first]);
        assert(joined(whole.drop_last(), separator) == first);
        assert(whole.last() == rest[0]);
    } else {
        joined_in_front(first, rest.drop_last(), separator);
        assert(whole.drop_last() == seq![first] + rest.drop_last());
        assert(whole.last() == rest.last());
        assert(joined(whole, separator) == first + separator + (joined(rest.drop_last(), separator)
            + separator + rest.last()));
    }
}

/// A text without the whitespace around it begins and ends with no whitespace,
/// and only whitespace is left out.
pub proof fn only_whitespace_around_a_text_goes(text: Seq<char>)
    ensures
        trimmed(text).len() > 0 ==> !whitespace(trimmed(text)[0]) && !whitespace(
            trimmed(text).last(),
        ),
        exists|from: int, to: int|
            0 <= from <= to <= text.len() && #[trigger] text.subrange(from, to) == trimmed(text) && (
            forall|i: int| 0 <= i < from || to <= i < text.len() ==> whitespace(#[trigger] text[i])),
{
    let from = front_goes(text);
    let rest = trim_start(text);
    let len = back_goes(rest);
    assert(rest == text.skip(from));
    assert(text.subrange(from, from + len) == trimmed(text));
    assert forall|i: int| 0 <= i < from || from + len <= i < text.len() implies whitespace(
        #[trigger] text[i],
    ) by {
        if i >= from + len {
            assert(rest[i - from] == text[i]);
        }
    }
    if trimmed(text).len() > 0 {
        assert(trimmed(text)[0] == rest[0]);
    }
}

proof fn front_goes(text: Seq<char>) -> (from: int)
    ensures
        0 <= from <= text.len(),
        trim_start(text) == text.skip(from),
        forall|i: int| 0 <= i < from ==> whitespace(#[trigger] text[i]),
        from < text.len() ==> !whitespace(text[from]),
    decreases text.len(),
{
    if text.len() > 0 && whitespace(text[0]) {
        let behind = front_goes(text.skip(1));
        assert(text.skip(1).skip(behind) == text.skip(behind + 1));
        assert forall|i: int| 0 <= i < behind + 1 implies whitespace(#[trigger] text[i]) by {
            if i > 0 {
                assert(text[i] == text.skip(1)[i - 1]);
            }
        }
        behind + 1
    } else {
        assert(text.skip(0) == text);
        0
    }
}

proof fn back_goes(text: Seq<char>) -> (to: int)
    ensures
        0 <= to <= text.len(),
        trim_end(text) == text.take(to),
        forall|i: int| to <= i < text.len() ==> whitespace(#[trigger] text[i]),
        to > 0 ==> !whitespace(text[to - 1]),
    decreases text.len(),
{
    if text.len() > 0 && whitespace(text.last()) {
        let to = back_goes(text.drop_last());
        assert(text.drop_last().take(to) == text.take(to));
        assert forall|i: int| to <= i < text.len() implies whitespace(#[trigger] text[i]) by {
            if i < text.len() - 1 {
                assert(text[i] == text.drop_last()[i]);
            }
        }
        to
    } else {
        assert(text.take(text.len() as int) == text);
        text.len() as int
    }
}

/// Whether a text is one word: not empty, and without whitespace.
pub open spec fn is_word(text: Seq<char>) -> bool {
    text.len() > 0 && forall|i: int| 0 <= i < text.len() ==> !whitespace(#[trigger] text[i])
}

/// No word of a text is empty or holds whitespace.
pub proof fn words_hold_no_whitespace(text: Seq<char>)
    ensures
        forall|i: int| 0 <= i < words(text).len() ==> is_word(#[trigger] words(text)[i]),
{
    words_from_hold_no_whitespace(text, seq![]);
}

proof fn words_from_hold_no_whitespace(text: Seq<char>, word: Seq<char>)
    requires
        word.len() > 0 ==> is_word(word),
    ensures
        forall|i: int|
            0 <= i < words_from(text, word).len() ==> is_word(#[trigger] words_from(text, word)[i]),
    decreases text.len(),
{
    if text.len() > 0 {
        if whitespace(text[0]) {
            let rest = words_from(text.skip(1), seq![]);
            words_from_hold_no_whitespace(text.skip(1), seq![]);
            if word.len() > 0 {
                let all = words_from(text, word);
                assert(all == seq![word] + rest);
                assert forall|i: int| 0 <= i < all.len() implies is_word(#[trigger] all[i]) by {
                    if i > 0 {
                        assert(all[i] == rest[i - 1]);
                    }
                }
            } else {
                assert(words_from(text, word) == rest);
            }
        } else {
            let longer = word.push(text[0]);
            assert forall|i: int| 0 <= i < longer.len() implies !whitespace(
                #[trigger] longer[i],
            ) by {
                if i < word.len() {
                    assert(longer[i] == word[i]);
                }
            }
            words_from_hold_no_whitespace(text.skip(1), longer);
            assert(words_from(text, word) == words_from(text.skip(1), longer));
        }
    } else if word.len() > 0 {
        assert(words_from(text, word) == seq![word]);
    }
}

/// The characters of a text that are not whitespace.
pub open spec fn ink(text: Seq<char>) -> Seq<char>
    decreases text.len(),
{
    if text.len() == 0 {
        seq![]
    } else if whitespace(text[0]) {
        ink(text.skip(1))
    } else {
        seq![text[0]] + ink(text.skip(1))
    }
}

/// The words of a text, one behind the other, are all of it but whitespace.
pub proof fn the_words_are_all_but_whitespace(text: Seq<char>)
    ensures
        words(text).fold_left(Seq::<char>::empty(), |all: Seq<char>, word: Seq<char>| all + word)
            == ink(text),
{
    words_from_are_all(text, seq![], seq![]);
    assert(Seq::<char>::empty() + ink(text) == ink(text));
}

proof fn words_from_are_all(text: Seq<char>, word: Seq<char>, before: Seq<char>)
    ensures
        words_from(text, word).fold_left(before, |all: Seq<char>, word: Seq<char>| all + word)
            == before + word + ink(text),
    decreases text.len(),
{
    let f = |all: Seq<char>, word: Seq<char>| all + word;
    reveal_with_fuel(Seq::fold_left, 2);
    if text.len() == 0 {
        if word.len() > 0 {
            assert(seq![word].drop_last() == Seq::<Seq<char>>::empty());
        }
        assert(before + word + ink(text) == before + word);
        if word.len() == 0 {
            assert(before + word == before);
        }
    } else if whitespace(text[0]) {
        if word.len() == 0 {
            words_from_are_all(text.skip(1), seq![], before);
            assert(before + Seq::<char>::empty() + ink(text.skip(1)) == before + word + ink(text));
        } else {
            let rest = words_from(text.skip(1), seq![]);
            words_from_are_all(text.skip(1), seq![], before + word);
            (seq![word] + rest).lemma_fold_left_split(before, f, 1);
            assert((seq![word] + rest).subrange(0, 1) == seq![word]);
            assert((seq![word] + rest).subrange(1, (seq![word] + rest).len() as int) == rest);
            assert(seq![word].drop_last() == Seq::<Seq<char>>::empty());
            assert(seq![word].fold_left(before, f) == before + word);
            assert(before + word + Seq::<char>::empty() + ink(text.skip(1)) == before + word + ink(
                text,
            ));
        }
    } else {
        words_from_are_all(text.skip(1), word.push(text[0]), before);
        assert(before + word.push(text[0]) + ink(text.skip(1)) == before + word + ink(text));
    }
}

/// A text is filled up with spaces behind it, and is never cut.
pub proof fn a_text_is_filled_up_behind(text: Seq<char>, width: nat)
    ensures
        left_aligned(text, width).len() == (if text.len() < width {
            width
        } else {
            text.len()
        }),
        left_aligned(text, width).take(text.len() as int) == text,
        forall|i: int|
            text.len() <= i < width ==> (#[trigger] left_aligned(text, width)[i]) == ' ',
{
}

/// One character takes the place of another, and no other changes.
pub proof fn one_character_takes_anothers_place(text: Seq<char>, from: char, to: char)
    ensures
        replaced(text, from, to).len() == text.len(),
        forall|i: int|
            0 <= i < text.len() ==> (#[trigger] replaced(text, from, to)[i]) == (if text[i]
                == from {
                to
            } else {
                text[i]
            }),
{
}

// ---------------------------------------------------------------------------
// Dates
// ---------------------------------------------------------------------------

/// A date is written with its year, month and day in this order, or the other
/// way round with strokes between them.
pub proof fn a_date_is_written_by_its_parts(date: CalendarDate)
    requires
        date.year >= 1000,
        date.year <= 9999,
    ensures
        iso_text(date) == decimal(date.year as nat) + "-"@ + padded(date.month as nat, 2) + "-"@
            + padded(date.day as nat, 2),
        month_text(date) == decimal(date.year as nat) + "-"@ + padded(date.month as nat, 2),
        slashed_text(date) == padded(date.day as nat, 2) + "/"@ + padded(date.month as nat, 2)
            + "/"@ + decimal(date.year as nat),
{
    four_digits(date.year as nat);
}

proof fn four_digits(n: nat)
    requires
        1000 <= n <= 9999,
    ensures
        decimal(n).len() == 4,
{
    reveal_with_fuel(decimal, 4);
}

/// The months have the lengths that they have, and February one day more in a
/// year that four divides, but for a hundredth year that four hundred does not.
pub proof fn months_have_their_lengths(year: int, month: int)
    requires
        1 <= month <= 12,
    ensures
        month == 4 || month == 6 || month == 9 || month == 11 ==> month_length(year, month) == 30,
        month == 2 ==> month_length(year, month) == (if year % 400 == 0 || (year % 4 == 0 && year
            % 100 != 0) {
            29int
        } else {
            28
        }),
        month != 2 && month != 4 && month != 6 && month != 9 && month != 11 ==> month_length(
            year,
            month,
        ) == 31,
{
}

/// The names of the days come in their order, one after the other.
pub proof fn days_are_named_in_order(date: CalendarDate)
    ensures
        weekday_text(date) == seq!["Sun"@, "Mon"@, "Tue"@, "Wed"@, "Thu"@, "Fri"@, "Sat"@][day_number(
            date,
        ) % 7],
{
}

// ---------------------------------------------------------------------------
// Order and places
// ---------------------------------------------------------------------------

/// A text stands before another where it is a part of its beginning, or where
/// at the first place at which they differ its character is the smaller.
pub proof fn texts_are_in_the_order_of_their_characters(a: Seq<char>, b: Seq<char>, k: int)
    requires
        0 <= k <= a.len(),
        k <= b.len(),
        forall|i: int| 0 <= i < k ==> #[trigger] a[i] == b[i],
    ensures
        k == a.len() && k < b.len() ==> before(a, b),
        k == b.len() ==> !before(a, b),
        k < a.len() && k < b.len() && a[k] < b[k] ==> before(a, b),
        k < a.len() && k < b.len() && a[k] > b[k] ==> !before(a, b),
    decreases k,
{
    if k > 0 {
        assert(a[0] == b[0]);
        let x = a.skip(1);
        let y = b.skip(1);
        assert forall|i: int| 0 <= i < k - 1 implies #[trigger] x[i] == y[i] by {
            assert(a[i + 1] == b[i + 1]);
        }
        texts_are_in_the_order_of_their_characters(x, y, k - 1);
    }
}

/// The last place of a pattern is one at which it stands, and it stands at none
/// behind.
pub proof fn the_last_place_is_the_last(text: Seq<char>, pattern: Seq<char>)
    ensures
        match last_index(text, pattern) {
            Some(at) => 0 <= at && at + pattern.len() <= text.len() && text.subrange(
                at,
                at + pattern.len(),
            ) == pattern && forall|i: int|
                at < i && i + pattern.len() <= text.len() ==> #[trigger] text.subrange(
                    i,
                    i + pattern.len(),
                ) != pattern,
            None => forall|i: int|
                0 <= i && i + pattern.len() <= text.len() ==> #[trigger] text.subrange(
                    i,
                    i + pattern.len(),
                ) != pattern,
        },
{
    the_last_place_from(text, pattern, text.len() as int);
}

proof fn the_last_place_from(text: Seq<char>, pattern: Seq<char>, from: int)
    requires
        from <= text.len(),
    ensures
        match last_index_from(text, pattern, from) {
            Some(at) => 0 <= at <= from && at + pattern.len() <= text.len() && text.subrange(
                at,
                at + pattern.len(),
            ) == pattern && forall|i: int|
                at < i <= from && i + pattern.len() <= text.len() ==> #[trigger] text.subrange(
                    i,
                    i + pattern.len(),
                ) != pattern,
            None => forall|i: int|
                0 <= i <= from && i + pattern.len() <= text.len() ==> #[trigger] text.subrange(
                    i,
                    i + pattern.len(),
                ) != pattern,
        },
    decreases from + 1,
{
    if from >= 0 && !(from + pattern.len() <= text.len() && text.subrange(
        from,
        from + pattern.len(),
    ) == pattern) {
        the_last_place_from(text, pattern, from - 1);
    }
}

/// What stands behind the first mark goes up to the second, where there is one.
pub proof fn a_piece_stands_between_its_marks(text: Seq<char>, mark: Seq<char>)
    requires
        mark.len() > 0,
    ensures
        match second_piece(text, mark) {
            Some(piece) => exists|at: int|
                0 <= at && at + mark.len() + piece.len() <= text.len() && #[trigger] text.subrange(
                    at,
                    at + mark.len(),
                ) == mark && text.subrange(
                    at + mark.len() as int,
                    at + mark.len() + piece.len(),
                ) == piece && (at + mark.len() + piece.len() == text.len() || (at + 2 * mark.len()
                    + piece.len() <= text.len() && text.subrange(
                    at + mark.len() + piece.len(),
                    at + 2 * mark.len() + piece.len(),
                ) == mark)),
            None => !contains(text, mark),
        },
{
    index_from_is_first(text, mark, 0);
    if let Some(at) = index_from(text, mark, 0) {
        let start = at + mark.len() as int;
        index_from_is_first(text, mark, start);
        let piece = second_piece(text, mark)->Some_0;
        assert(text.subrange(at, at + mark.len()) == mark);
        match index_from(text, mark, start) {
            Some(end) => {
                assert(piece == text.subrange(start, end));
                assert(start + piece.len() == end);
                assert(text.subrange(end, end + mark.len()) == mark);
            },
            None => {
                assert(piece == text.skip(start));
                assert(text.subrange(start, start + piece.len()) == piece);
            },
        }
    }
}

/// A number below a thousand has no comma; a greater one has a comma before its
/// last three digits.
pub proof fn commas_stand_before_three_digits(n: nat)
    ensures
        n < 1000 ==> grouped(n) == decimal(n),
        n >= 1000 ==> grouped(n).len() > 4 && grouped(n)[grouped(n).len() - 4] == ',' && grouped(
            n,
        ).take(grouped(n).len() - 4) == grouped(n / 1000) && number_of(
            grouped(n).skip(grouped(n).len() - 3),
        ) == n % 1000,
{
    if n >= 1000 {
        reveal_strlit(",");
        padding_keeps_a_number(n % 1000, 3);
        three_digits_at_most(n % 1000);
        let head = grouped(n / 1000);
        let tail = padded(n % 1000, 3);
        assert(grouped(n) == head + ","@ + tail);
        assert(tail.len() == 3);
        some_digits(n / 1000);
        assert(grouped(n).take(grouped(n).len() - 4) == head);
        assert(grouped(n).skip(grouped(n).len() - 3) == tail);
    }
}

proof fn three_digits_at_most(n: nat)
    requires
        n < 1000,
    ensures
        decimal(n).len() <= 3,
{
    reveal_with_fuel(decimal, 4);
}

proof fn some_digits(n: nat)
    ensures
        grouped(n).len() > 0,
    decreases n,
{
    a_number_is_written_by_its_digits(n);
    if n >= 1000 {
        some_digits(n / 1000);
    }
}

} // verus!
