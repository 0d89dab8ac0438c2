//! Strings as sequences of characters: searching, splitting, trimming,
//! decimal numbers, and the code-point order of keys.

use vstd::prelude::*;

verus! {

/// The characters of an optional string.
pub open spec fn opt_text(value: Option<String>) -> Option<Seq<char>> {
    match value {
        Some(text) => Some(text@),
        None => None,
    }
}

/// The characters of an optional borrowed string.
pub open spec fn opt_str(value: Option<&str>) -> Option<Seq<char>> {
    match value {
        Some(text) => Some(text@),
        None => None,
    }
}

/// The characters of each string of a list.
pub open spec fn texts(values: Seq<String>) -> Seq<Seq<char>> {
    values.map_values(|text: String| text@)
}

/// A copy of an optional string.
pub fn copy_opt(value: &Option<String>) -> (copy: Option<String>)
    ensures
        opt_text(copy) == opt_text(*value),
        copy == *value,
{
    match value {
        Some(text) => Some(text.clone()),
        None => None,
    }
}

/// Compares two strings; calls `str`'s `PartialEq::eq`, which holds exactly
/// when both have the same characters.
#[verifier::external_body]
pub(crate) fn same(a: &str, b: &str) -> (equal: bool)
    ensures
        equal == (a@ == b@),
{
    a == b
}

/// The string made of the given characters; calls `String::from_iter`.
#[verifier::external_body]
pub(crate) fn string_of(chars: &Vec<char>) -> (text: String)
    ensures
        text@ == chars@,
{
    String::from_iter(chars)
}

/// Appends one character; calls `String::push`.
#[verifier::external_body]
pub(crate) fn push_char(text: &mut String, c: char)
    ensures
        final(text)@ == old(text)@.push(c),
{
    text.push(c)
}

/// Whether a character has the Unicode property `White_Space`.
pub open spec fn whitespace(c: char) -> bool {
    let n = c as u32;
    ||| 9 <= n <= 13
    ||| n == 0x20
    ||| n == 0x85
    ||| n == 0xA0
    ||| n == 0x1680
    ||| 0x2000 <= n <= 0x200A
    ||| n == 0x2028
    ||| n == 0x2029
    ||| n == 0x202F
    ||| n == 0x205F
    ||| n == 0x3000
}

/// Calls `char::is_whitespace`, which answers by the Unicode property
/// `White_Space`.
#[verifier::external_body]
pub(crate) fn is_whitespace(c: char) -> (answer: bool)
    ensures
        answer == whitespace(c),
{
    c.is_whitespace()
}

/// What `str::to_lowercase` returns: the Unicode lowercase of a text.
pub uninterp spec fn lowercased(text: Seq<char>) -> Seq<char>;

/// Calls `str::to_lowercase`.
#[verifier::external_body]
pub(crate) fn to_lowercase(text: &str) -> (lower: String)
    ensures
        lower@ == lowercased(text@),
{
    text.to_lowercase()
}

/// The characters of a string.
pub fn chars_of(text: &str) -> (chars: Vec<char>)
    ensures
        chars@ == text@,
{
    let mut chars: Vec<char> = Vec::new();
    for c in it: text.chars()
        invariant
            it.seq() == text@,
            chars@ == text@.take(it.index() as int),
    {
        chars.push(c);
        assert(chars@ == text@.take(it.index() as int + 1));
    }
    assert(text@.take(text@.len() as int) == text@);
    chars
}

/// The part of a character list from `from` up to `to`, as a string.
pub fn slice_text(chars: &Vec<char>, from: usize, to: usize) -> (text: String)
    requires
        from <= to <= chars.len(),
    ensures
        text@ == chars@.subrange(from as int, to as int),
{
    let mut text = String::new();
    let mut i: usize = from;
    while i < to
        invariant
            from <= i <= to <= chars.len(),
            text@ == chars@.subrange(from as int, i as int),
        decreases to - i,
    {
        push_char(&mut text, chars[i]);
        i = i + 1;
        assert(text@ == chars@.subrange(from as int, i as int));
    }
    text
}

/// The first of two values that there is.
pub open spec fn or_else<A>(first: Option<A>, second: Option<A>) -> Option<A> {
    match first {
        Some(value) => Some(value),
        None => second,
    }
}

/// An optional string, borrowed.
pub fn borrow_opt(value: &Option<String>) -> (text: Option<&str>)
    ensures
        opt_str(text) == opt_text(*value),
{
    match value {
        Some(text) => Some(text.as_str()),
        None => None,
    }
}

// ---------------------------------------------------------------------------
// Searching
// ---------------------------------------------------------------------------

/// The first position at or after `from` where `pattern` occurs in `text`.
pub open spec fn index_from(text: Seq<char>, pattern: Seq<char>, from: int) -> Option<int>
    decreases text.len() - from,
{
    if from < 0 || from + pattern.len() > text.len() {
        None
    } else if text.subrange(from, from + pattern.len()) == pattern {
        Some(from)
    } else if from >= text.len() {
        None
    } else {
        index_from(text, pattern, from + 1)
    }
}

/// Whether `pattern` occurs somewhere in `text`.
pub open spec fn contains(text: Seq<char>, pattern: Seq<char>) -> bool {
    index_from(text, pattern, 0) is Some
}

/// Whether `text` begins with `prefix`.
pub open spec fn starts_with(text: Seq<char>, prefix: Seq<char>) -> bool {
    prefix.len() <= text.len() && text.take(prefix.len() as int) == prefix
}

/// Whether `text` ends with `suffix`.
pub open spec fn ends_with(text: Seq<char>, suffix: Seq<char>) -> bool {
    suffix.len() <= text.len() && text.skip(text.len() - suffix.len()) == suffix
}

/// `contains` holds exactly when the pattern stands at some position, and the
/// position that `index_from` gives is the first such at or after `from`.
pub proof fn index_from_is_first(text: Seq<char>, pattern: Seq<char>, from: int)
    requires
        0 <= from,
    ensures
        match index_from(text, pattern, from) {
            Some(at) => {
                &&& from <= at
                &&& at + pattern.len() <= text.len()
                &&& text.subrange(at, at + pattern.len()) == pattern
                &&& forall|i: int|
                    from <= i < at ==> #[trigger] text.subrange(i, i + pattern.len()) != pattern
            },
            None => forall|i: int|
                from <= i && i + pattern.len() <= text.len() ==> #[trigger] text.subrange(
                    i,
                    i + pattern.len(),
                ) != pattern,
        },
    decreases text.len() - from,
{
    if from + pattern.len() > text.len() {
    } else if text.subrange(from, from + pattern.len()) == pattern {
    } else if from >= text.len() {
    } else {
        index_from_is_first(text, pattern, from + 1);
        assert forall|i: int|
            from <= i && i + pattern.len() <= text.len() && (index_from(text, pattern, from + 1)
                is None || i < index_from(text, pattern, from + 1)->0) implies #[trigger] text.subrange(
            i,
            i + pattern.len(),
        ) != pattern by {
            if i == from {
            } else {
                assert(from + 1 <= i);
            }
        }
    }
}

fn matches_at(text: &Vec<char>, pattern: &Vec<char>, at: usize) -> (found: bool)
    requires
        at + pattern.len() <= text.len(),
    ensures
        found == (text@.subrange(at as int, at + pattern.len()) == pattern@),
{
    let mut i: usize = 0;
    while i < pattern.len()
        invariant
            i <= pattern.len(),
            at + pattern.len() <= text.len(),
            forall|j: int| 0 <= j < i ==> text@[at + j] == pattern@[j],
        decreases pattern.len() - i,
    {
        if text[at + i] != pattern[i] {
            assert(text@.subrange(at as int, at + pattern.len())[i as int] != pattern@[i as int]);
            return false;
        }
        i = i + 1;
    }
    assert(text@.subrange(at as int, at + pattern.len()) == pattern@);
    true
}

/// Finds the first occurrence of `pattern` at or after `from`.
pub fn find_from(text: &Vec<char>, pattern: &Vec<char>, from: usize) -> (found: Option<usize>)
    requires
        from <= text.len(),
    ensures
        match found {
            Some(at) => index_from(text@, pattern@, from as int) == Some(at as int) && from <= at
                && at + pattern.len() <= text.len(),
            None => index_from(text@, pattern@, from as int) is None,
        },
{
    let mut at: usize = from;
    while at <= text.len() && pattern.len() <= text.len() - at
        invariant
            from <= at <= text.len(),
            index_from(text@, pattern@, from as int) == index_from(text@, pattern@, at as int),
        decreases text.len() - at,
    {
        if matches_at(text, pattern, at) {
            return Some(at);
        }
        if at == text.len() {
            return None;
        }
        at = at + 1;
    }
    None
}

/// Whether `pattern` occurs in `text`.
pub fn contains_text(text: &str, pattern: &str) -> (found: bool)
    ensures
        found == contains(text@, pattern@),
{
    let text = chars_of(text);
    let pattern = chars_of(pattern);
    find_from(&text, &pattern, 0).is_some()
}

/// Whether `text` begins with `prefix`.
pub fn starts_with_text(text: &str, prefix: &str) -> (answer: bool)
    ensures
        answer == starts_with(text@, prefix@),
{
    let text = chars_of(text);
    let prefix = chars_of(prefix);
    if prefix.len() > text.len() {
        return false;
    }
    assert(text@.subrange(0, 0 + prefix.len()) == text@.take(prefix.len() as int));
    matches_at(&text, &prefix, 0)
}

/// Whether `text` ends with `suffix`.
pub fn ends_with_text(text: &str, suffix: &str) -> (answer: bool)
    ensures
        answer == ends_with(text@, suffix@),
{
    let text = chars_of(text);
    let suffix = chars_of(suffix);
    if suffix.len() > text.len() {
        return false;
    }
    let at: usize = text.len() - suffix.len();
    assert(text@.subrange(at as int, at + suffix.len()) == text@.skip(at as int));
    matches_at(&text, &suffix, at)
}

/// The position of the first `c` at or after `from`.
pub open spec fn char_from(text: Seq<char>, c: char, from: int) -> Option<int>
    decreases text.len() - from,
{
    if from < 0 || from >= text.len() {
        None
    } else if text[from] == c {
        Some(from)
    } else {
        char_from(text, c, from + 1)
    }
}

/// Finds the first `c` at or after `from`.
pub fn find_char(text: &Vec<char>, c: char, from: usize) -> (found: Option<usize>)
    requires
        from <= text.len(),
    ensures
        match found {
            Some(at) => char_from(text@, c, from as int) == Some(at as int) && from <= at
                < text.len() && text@[at as int] == c,
            None => char_from(text@, c, from as int) is None,
        },
{
    let mut at: usize = from;
    while at < text.len()
        invariant
            from <= at <= text.len(),
            char_from(text@, c, from as int) == char_from(text@, c, at as int),
        decreases text.len() - at,
    {
        if text[at] == c {
            return Some(at);
        }
        at = at + 1;
    }
    None
}

/// The parts of `text` before and after the first `c`.
pub open spec fn split_once(text: Seq<char>, c: char) -> Option<(Seq<char>, Seq<char>)> {
    match char_from(text, c, 0) {
        Some(at) => Some((text.take(at), text.skip(at + 1))),
        None => None,
    }
}

/// Splits `text` at the first `c`.
pub fn split_once_at(text: &str, c: char) -> (parts: Option<(String, String)>)
    ensures
        match parts {
            Some(pair) => split_once(text@, c) == Some((pair.0@, pair.1@)),
            None => split_once(text@, c) is None,
        },
{
    let chars = chars_of(text);
    match find_char(&chars, c, 0) {
        Some(at) => {
            let before = slice_text(&chars, 0, at);
            let after = slice_text(&chars, at + 1, chars.len());
            assert(before@ == text@.take(at as int));
            assert(after@ == text@.skip(at + 1));
            Some((before, after))
        },
        None => None,
    }
}

/// The pieces of `text` between the occurrences of `c`, empty ones kept.
pub open spec fn split(text: Seq<char>, c: char) -> Seq<Seq<char>>
    decreases text.len(),
{
    match char_from(text, c, 0) {
        Some(at) => if 0 <= at < text.len() {
            seq![text.take(at)] + split(text.skip(at + 1), c)
        } else {
            seq![text]
        },
        None => seq![text],
    }
}

proof fn char_from_shift(text: Seq<char>, c: char, from: int, base: int)
    requires
        0 <= base <= from <= text.len(),
    ensures
        match char_from(text, c, from) {
            Some(at) => char_from(text.skip(base), c, from - base) == Some(at - base) && from <= at
                < text.len(),
            None => char_from(text.skip(base), c, from - base) is None,
        },
    decreases text.len() - from,
{
    if from < text.len() {
        assert(text.skip(base)[from - base] == text[from]);
        if text[from] != c {
            char_from_shift(text, c, from + 1, base);
        }
    }
}

/// Splits `text` at every `c`.
pub fn split_at_char(text: &str, c: char) -> (parts: Vec<String>)
    ensures
        texts(parts@) == split(text@, c),
        parts.len() >= 1,
{
    let chars = chars_of(text);
    let mut parts: Vec<String> = Vec::new();
    let mut start: usize = 0;
    assert(text@.skip(0) == text@);
    assert(texts(parts@) + split(text@.skip(0), c) == split(text@, c));
    loop
        invariant
            chars@ == text@,
            start <= chars.len(),
            texts(parts@) + split(text@.skip(start as int), c) == split(text@, c),
        decreases chars.len() - start,
    {
        proof {
            char_from_shift(text@, c, start as int, start as int);
        }
        let ghost rest = text@.skip(start as int);
        let ghost done = texts(parts@);
        match find_char(&chars, c, start) {
            Some(at) => {
                let piece = slice_text(&chars, start, at);
                assert(piece@ == rest.take(at - start));
                assert(rest.skip(at - start + 1) == text@.skip(at + 1));
                parts.push(piece);
                assert(texts(parts@) == done.push(piece@));
                assert(split(rest, c) == seq![piece@] + split(text@.skip(at + 1), c));
                assert(done.push(piece@) + split(text@.skip(at + 1), c) == done + split(rest, c));
                start = at + 1;
            },
            None => {
                let piece = slice_text(&chars, start, chars.len());
                assert(piece@ == rest);
                parts.push(piece);
                assert(texts(parts@) == done + split(rest, c));
                return parts;
            },
        }
    }
}

/// The last position at or before `from` where `pattern` occurs in `text`.
pub open spec fn last_index_from(text: Seq<char>, pattern: Seq<char>, from: int) -> Option<int>
    decreases from + 1,
{
    if from < 0 {
        None
    } else if from + pattern.len() <= text.len() && text.subrange(from, from + pattern.len())
        == pattern {
        Some(from)
    } else {
        last_index_from(text, pattern, from - 1)
    }
}

/// The last position where `pattern` occurs in `text`.
pub open spec fn last_index(text: Seq<char>, pattern: Seq<char>) -> Option<int> {
    last_index_from(text, pattern, text.len() as int)
}

/// Finds the last occurrence of `pattern`.
pub fn find_last(text: &Vec<char>, pattern: &Vec<char>) -> (found: Option<usize>)
    ensures
        match found {
            Some(at) => last_index(text@, pattern@) == Some(at as int) && at + pattern.len()
                <= text.len(),
            None => last_index(text@, pattern@) is None,
        },
{
    let mut at: usize = text.len();
    loop
        invariant
            at <= text.len(),
            last_index(text@, pattern@) == last_index_from(text@, pattern@, at as int),
        decreases at,
    {
        if pattern.len() <= text.len() - at && matches_at(text, pattern, at) {
            return Some(at);
        }
        if at == 0 {
            return None;
        }
        at = at - 1;
    }
}

/// The piece of `text` between the first and the second occurrence of
/// `pattern`, or behind the first where there is no second.
pub open spec fn second_piece(text: Seq<char>, pattern: Seq<char>) -> Option<Seq<char>> {
    match index_from(text, pattern, 0) {
        Some(at) => {
            let start = at + pattern.len() as int;
            match index_from(text, pattern, start) {
                Some(end) => Some(text.subrange(start, end)),
                None => Some(text.skip(start)),
            }
        },
        None => None,
    }
}

/// The piece of `text` behind the first occurrence of `pattern`.
pub fn second_piece_of(text: &str, pattern: &str) -> (piece: Option<String>)
    ensures
        opt_text(piece) == second_piece(text@, pattern@),
{
    let chars = chars_of(text);
    let pattern = chars_of(pattern);
    let at: usize = match find_from(&chars, &pattern, 0) {
        Some(at) => at,
        None => {
            return None;
        },
    };
    let start: usize = at + pattern.len();
    match find_from(&chars, &pattern, start) {
        Some(end) => Some(slice_text(&chars, start, end)),
        None => {
            let piece = slice_text(&chars, start, chars.len());
            assert(piece@ == text@.skip(start as int));
            Some(piece)
        },
    }
}

/// `text` with one character in place of another.
pub open spec fn replaced(text: Seq<char>, from: char, to: char) -> Seq<char> {
    text.map_values(
        |c: char|
            if c == from {
                to
            } else {
                c
            },
    )
}

/// Puts one character in place of another.
pub fn replace_char(text: &str, from: char, to: char) -> (result: String)
    ensures
        result@ == replaced(text@, from, to),
{
    let chars = chars_of(text);
    let mut result = String::new();
    let mut i: usize = 0;
    while i < chars.len()
        invariant
            i <= chars.len(),
            chars@ == text@,
            result@ == replaced(text@, from, to).take(i as int),
        decreases chars.len() - i,
    {
        if chars[i] == from {
            push_char(&mut result, to);
        } else {
            push_char(&mut result, chars[i]);
        }
        i = i + 1;
        assert(result@ == replaced(text@, from, to).take(i as int));
    }
    assert(result@ == replaced(text@, from, to));
    result
}

// ---------------------------------------------------------------------------
// Trimming
// ---------------------------------------------------------------------------

/// `text` without its leading whitespace.
pub open spec fn trim_start(text: Seq<char>) -> Seq<char>
    decreases text.len(),
{
    if text.len() > 0 && whitespace(text[0]) {
        trim_start(text.skip(1))
    } else {
        text
    }
}

/// `text` without its trailing whitespace.
pub open spec fn trim_end(text: Seq<char>) -> Seq<char>
    decreases text.len(),
{
    if text.len() > 0 && whitespace(text.last()) {
        trim_end(text.drop_last())
    } else {
        text
    }
}

/// `text` without leading and trailing whitespace.
pub open spec fn trimmed(text: Seq<char>) -> Seq<char> {
    trim_end(trim_start(text))
}

/// Removes leading and trailing whitespace.
pub fn trim(text: &str) -> (result: String)
    ensures
        result@ == trimmed(text@),
{
    let chars = chars_of(text);
    let mut start: usize = 0;
    assert(text@.skip(0) == text@);
    while start < chars.len() && is_whitespace(chars[start])
        invariant
            chars@ == text@,
            start <= chars.len(),
            trim_start(text@.skip(start as int)) == trim_start(text@),
        decreases chars.len() - start,
    {
        assert(text@.skip(start as int).skip(1) == text@.skip(start + 1));
        start = start + 1;
    }
    let ghost body = text@.skip(start as int);
    assert(trim_start(text@) == body);
    let mut end: usize = chars.len();
    assert(chars@.subrange(start as int, end as int) == body);
    while end > start && is_whitespace(chars[end - 1])
        invariant
            start <= end <= chars.len(),
            trim_end(chars@.subrange(start as int, end as int)) == trim_end(body),
        decreases end - start,
    {
        assert(chars@.subrange(start as int, end as int).drop_last() == chars@.subrange(
            start as int,
            end - 1,
        ));
        end = end - 1;
    }
    slice_text(&chars, start, end)
}

/// The words of `text`: its longest runs of characters that are not
/// whitespace, where `word` is what was read of the current one.
pub open spec fn words_from(text: Seq<char>, word: Seq<char>) -> Seq<Seq<char>>
    decreases text.len(),
{
    if text.len() == 0 {
        if word.len() == 0 {
            seq![]
        } else {
            seq![word]
        }
    } else if whitespace(text[0]) {
        if word.len() == 0 {
            words_from(text.skip(1), seq![])
        } else {
            seq![word] + words_from(text.skip(1), seq![])
        }
    } else {
        words_from(text.skip(1), word.push(text[0]))
    }
}

/// The words of `text`, split at whitespace.
pub open spec fn words(text: Seq<char>) -> Seq<Seq<char>> {
    words_from(text, seq![])
}

/// Splits `text` into its words.
pub fn split_words(text: &str) -> (parts: Vec<String>)
    ensures
        texts(parts@) == words(text@),
{
    let chars = chars_of(text);
    let mut parts: Vec<String> = Vec::new();
    let mut word = String::new();
    let mut i: usize = 0;
    assert(text@.skip(0) == text@);
    assert(texts(parts@) + words_from(text@.skip(0), word@) == words(text@));
    while i < chars.len()
        invariant
            chars@ == text@,
            i <= chars.len(),
            texts(parts@) + words_from(text@.skip(i as int), word@) == words(text@),
        decreases chars.len() - i,
    {
        let c = chars[i];
        let ghost done = texts(parts@);
        let ghost rest = text@.skip(i as int);
        assert(rest.skip(1) == text@.skip(i + 1));
        if is_whitespace(c) {
            if word.as_str().is_empty() {
                assert(word@ == Seq::<char>::empty());
            } else {
                let ghost finished = word@;
                parts.push(word);
                assert(texts(parts@) == done.push(finished));
                assert(done.push(finished) + words_from(rest.skip(1), seq![]) == done + words_from(
                    rest,
                    finished,
                ));
            }
            word = String::new();
        } else {
            push_char(&mut word, c);
        }
        i = i + 1;
    }
    let ghost done = texts(parts@);
    if !word.as_str().is_empty() {
        let ghost finished = word@;
        parts.push(word);
        assert(texts(parts@) == done + seq![finished]);
    } else {
        assert(done + Seq::<Seq<char>>::empty() == done);
    }
    parts
}

/// The strings of a list put together with `separator` between them.
pub open spec fn joined(parts: Seq<Seq<char>>, separator: Seq<char>) -> Seq<char>
    decreases parts.len(),
{
    if parts.len() == 0 {
        seq![]
    } else if parts.len() == 1 {
        parts[0]
    } else {
        joined(parts.drop_last(), separator) + separator + parts.last()
    }
}

/// Puts strings together with `separator` between them.
pub fn join(parts: &Vec<String>, separator: &str) -> (text: String)
    ensures
        text@ == joined(texts(parts@), separator@),
{
    let mut text = String::new();
    let mut i: usize = 0;
    while i < parts.len()
        invariant
            i <= parts.len(),
            text@ == joined(texts(parts@).take(i as int), separator@),
        decreases parts.len() - i,
    {
        let ghost before = texts(parts@).take(i as int);
        let ghost after = texts(parts@).take(i + 1);
        assert(after.drop_last() == before);
        if i == 0 {
            text = parts[i].clone();
        } else {
            text.append(separator);
            text.append(parts[i].as_str());
        }
        i = i + 1;
    }
    assert(texts(parts@).take(parts.len() as int) == texts(parts@));
    text
}

// ---------------------------------------------------------------------------
// Decimal numbers
// ---------------------------------------------------------------------------

/// The character of a decimal digit.
pub open spec fn digit_char(digit: nat) -> char {
    if digit == 0 {
        '0'
    } else if digit == 1 {
        '1'
    } else if digit == 2 {
        '2'
    } else if digit == 3 {
        '3'
    } else if digit == 4 {
        '4'
    } else if digit == 5 {
        '5'
    } else if digit == 6 {
        '6'
    } else if digit == 7 {
        '7'
    } else if digit == 8 {
        '8'
    } else {
        '9'
    }
}

/// The value of a decimal digit.
pub open spec fn digit_value(c: char) -> Option<nat> {
    if '0' <= c && c <= '9' {
        Some((c as int - '0' as int) as nat)
    } else {
        None
    }
}

/// The decimal form of a number.
pub open spec fn decimal(n: nat) -> Seq<char>
    decreases n,
{
    if n < 10 {
        seq![digit_char(n)]
    } else {
        decimal(n / 10).push(digit_char(n % 10))
    }
}

/// `count` zeros.
pub open spec fn zeros(count: nat) -> Seq<char> {
    Seq::new(count, |i: int| '0')
}

/// The decimal form of a number, with zeros in front up to `width` characters.
pub open spec fn padded(n: nat, width: nat) -> Seq<char> {
    if decimal(n).len() < width {
        zeros((width - decimal(n).len()) as nat) + decimal(n)
    } else {
        decimal(n)
    }
}

fn digit(value: u64) -> (c: char)
    requires
        value < 10,
    ensures
        c == digit_char(value as nat),
{
    if value == 0 {
        '0'
    } else if value == 1 {
        '1'
    } else if value == 2 {
        '2'
    } else if value == 3 {
        '3'
    } else if value == 4 {
        '4'
    } else if value == 5 {
        '5'
    } else if value == 6 {
        '6'
    } else if value == 7 {
        '7'
    } else if value == 8 {
        '8'
    } else {
        '9'
    }
}

fn decimal_chars(n: u64) -> (chars: Vec<char>)
    ensures
        chars@ == decimal(n as nat),
    decreases n,
{
    if n < 10 {
        let mut chars: Vec<char> = Vec::new();
        chars.push(digit(n));
        assert(chars@ == decimal(n as nat));
        chars
    } else {
        let mut chars = decimal_chars(n / 10);
        chars.push(digit(n % 10));
        chars
    }
}

/// Writes a number in decimal.
pub fn decimal_text(n: u64) -> (text: String)
    ensures
        text@ == decimal(n as nat),
{
    let chars = decimal_chars(n);
    string_of(&chars)
}

/// Writes a number in decimal, with zeros in front up to `width` characters.
pub fn padded_text(n: u64, width: usize) -> (text: String)
    ensures
        text@ == padded(n as nat, width as nat),
{
    let chars = decimal_chars(n);
    let mut text = String::new();
    let mut i: usize = chars.len();
    assert(text@ == zeros(0));
    let ghost have = chars.len();
    while i < width
        invariant
            have <= i,
            have == chars.len(),
            have < width ==> i <= width,
            have >= width ==> i == have,
            text@ == zeros((i - have) as nat),
        decreases width - i,
    {
        push_char(&mut text, '0');
        i = i + 1;
        assert(text@ == zeros((i - have) as nat));
    }
    let digits = string_of(&chars);
    text.append(digits.as_str());
    assert(zeros(0) + decimal(n as nat) == decimal(n as nat));
    text
}

/// The decimal form of a number that can be negative.
pub open spec fn signed_decimal(n: int) -> Seq<char> {
    if n >= 0 {
        decimal(n as nat)
    } else {
        "-"@ + decimal((-n) as nat)
    }
}

/// The decimal form of a number that can be negative, with zeros in front up
/// to `width` characters, the sign counted.
pub open spec fn signed_padded(n: int, width: nat) -> Seq<char> {
    if n >= 0 {
        padded(n as nat, width)
    } else {
        "-"@ + padded((-n) as nat, (width - 1) as nat)
    }
}

/// Writes a number that can be negative.
pub fn signed_text(n: i64) -> (text: String)
    requires
        n > i64::MIN,
    ensures
        text@ == signed_decimal(n as int),
{
    if n >= 0 {
        decimal_text(n as u64)
    } else {
        let mut text = "-".to_owned();
        let digits = decimal_text((-n) as u64);
        text.append(digits.as_str());
        text
    }
}

/// Writes a number that can be negative, with zeros in front.
pub fn signed_padded_text(n: i64, width: usize) -> (text: String)
    requires
        n > i64::MIN,
        width > 0,
    ensures
        text@ == signed_padded(n as int, width as nat),
{
    if n >= 0 {
        padded_text(n as u64, width)
    } else {
        let mut text = "-".to_owned();
        let digits = padded_text((-n) as u64, width - 1);
        text.append(digits.as_str());
        text
    }
}

/// The number that a run of decimal digits stands for, after `value`.
pub open spec fn digits_value(text: Seq<char>, value: nat) -> Option<nat>
    decreases text.len(),
{
    if text.len() == 0 {
        Some(value)
    } else {
        match digit_value(text[0]) {
            Some(digit) => digits_value(text.skip(1), value * 10 + digit),
            None => None,
        }
    }
}

/// The number that `text` stands for: an optional plus sign and at least one
/// decimal digit.
pub open spec fn parsed_nat(text: Seq<char>) -> Option<nat> {
    let digits = if text.len() > 0 && text[0] == '+' {
        text.skip(1)
    } else {
        text
    };
    if digits.len() == 0 {
        None
    } else {
        digits_value(digits, 0)
    }
}

/// The number that `text` stands for, where it is at most `max`.
pub open spec fn parsed_up_to(text: Seq<char>, max: nat) -> Option<nat> {
    match parsed_nat(text) {
        Some(value) => if value <= max {
            Some(value)
        } else {
            None
        },
        None => None,
    }
}

proof fn digits_value_grows(text: Seq<char>, value: nat)
    ensures
        digits_value(text, value) matches Some(total) ==> value <= total,
    decreases text.len(),
{
    if text.len() > 0 {
        if let Some(digit) = digit_value(text[0]) {
            digits_value_grows(text.skip(1), value * 10 + digit);
        }
    }
}

/// Reads a number of at most `max`: an optional plus sign and decimal digits.
pub fn parse_up_to(text: &str, max: u64) -> (number: Option<u64>)
    ensures
        match number {
            Some(value) => parsed_up_to(text@, max as nat) == Some(value as nat),
            None => parsed_up_to(text@, max as nat) is None,
        },
{
    let chars = chars_of(text);
    let mut i: usize = 0;
    if chars.len() > 0 && chars[0] == '+' {
        i = 1;
    }
    if i == chars.len() {
        return None;
    }
    let ghost digits = text@.skip(i as int);
    assert(i == 0 ==> digits == text@);
    let mut value: u64 = 0;
    while i < chars.len()
        invariant
            chars@ == text@,
            i <= chars.len(),
            value <= max,
            digits_value(text@.skip(i as int), value as nat) == digits_value(digits, 0),
            parsed_nat(text@) == digits_value(digits, 0),
        decreases chars.len() - i,
    {
        let ghost rest = text@.skip(i as int);
        assert(rest.skip(1) == text@.skip(i + 1));
        let c = chars[i];
        if !('0' <= c && c <= '9') {
            return None;
        }
        let d: u64 = c as u64 - '0' as u64;
        proof {
            digits_value_grows(rest.skip(1), (value * 10 + d) as nat);
        }
        if value > u64::MAX / 10 || value * 10 > max || d > max - value * 10 {
            return None;
        }
        value = value * 10 + d;
        i = i + 1;
    }
    Some(value)
}

/// The whole number that `text` stands for: an optional sign and at least one
/// decimal digit, in the range of 64 bits.
pub open spec fn parsed_int(text: Seq<char>) -> Option<int> {
    if text.len() > 1 && text[0] == '-' {
        match digits_value(text.skip(1), 0) {
            Some(value) => if value <= 0x8000_0000_0000_0000 {
                Some(-(value as int))
            } else {
                None
            },
            None => None,
        }
    } else {
        match parsed_up_to(text, i64::MAX as nat) {
            Some(value) => Some(value as int),
            None => None,
        }
    }
}

/// Reads a whole number: an optional sign and decimal digits.
pub fn parse_int(text: &str) -> (number: Option<i64>)
    ensures
        match number {
            Some(value) => parsed_int(text@) == Some(value as int),
            None => parsed_int(text@) is None,
        },
{
    let chars = chars_of(text);
    if chars.len() > 1 && chars[0] == '-' {
        let rest = slice_text(&chars, 1, chars.len());
        assert(rest@ == text@.skip(1));
        if chars[1] == '+' {
            assert(rest@[0] == '+');
            return None;
        }
        assert(rest@[0] == chars@[1]);
        match parse_up_to(rest.as_str(), 0x8000_0000_0000_0000) {
            Some(value) => {
                if value == 0x8000_0000_0000_0000 {
                    Some(i64::MIN)
                } else {
                    Some(-(value as i64))
                }
            },
            None => None,
        }
    } else {
        match parse_up_to(text, i64::MAX as u64) {
            Some(value) => Some(value as i64),
            None => None,
        }
    }
}

/// The number of decimal digits that `text` begins with.
pub open spec fn digit_run(text: Seq<char>) -> nat
    decreases text.len(),
{
    if text.len() > 0 && digit_value(text[0]) is Some {
        1 + digit_run(text.skip(1))
    } else {
        0
    }
}

/// Counts the decimal digits that a character list begins with.
pub fn count_digits(chars: &Vec<char>) -> (count: usize)
    ensures
        count == digit_run(chars@),
        count <= chars.len(),
{
    let mut count: usize = 0;
    assert(chars@.skip(0) == chars@);
    while count < chars.len() && '0' <= chars[count] && chars[count] <= '9'
        invariant
            count <= chars.len(),
            digit_run(chars@) == count + digit_run(chars@.skip(count as int)),
        decreases chars.len() - count,
    {
        assert(chars@.skip(count as int).skip(1) == chars@.skip(count + 1));
        count = count + 1;
    }
    count
}

/// Whether some pattern of a list occurs in `text`.
pub open spec fn contains_any(text: Seq<char>, patterns: Seq<Seq<char>>) -> bool {
    exists|i: int| 0 <= i < patterns.len() && contains(text, #[trigger] patterns[i])
}

/// The characters of each borrowed string of a list.
pub open spec fn strs(values: Seq<&str>) -> Seq<Seq<char>> {
    values.map_values(|text: &str| text@)
}

/// Whether some pattern of a list occurs in `text`.
pub fn contains_any_text(text: &str, patterns: &Vec<&str>) -> (found: bool)
    ensures
        found == contains_any(text@, strs(patterns@)),
{
    let mut i: usize = 0;
    while i < patterns.len()
        invariant
            i <= patterns.len(),
            forall|j: int| 0 <= j < i ==> !contains(text@, #[trigger] strs(patterns@)[j]),
        decreases patterns.len() - i,
    {
        if contains_text(text, patterns[i]) {
            assert(contains(text@, strs(patterns@)[i as int]));
            return true;
        }
        i = i + 1;
    }
    false
}

// ---------------------------------------------------------------------------
// Layout
// ---------------------------------------------------------------------------

/// A character repeated.
pub open spec fn repeated(c: char, count: nat) -> Seq<char> {
    Seq::new(count, |i: int| c)
}

/// `text` with spaces behind it up to `width` characters.
pub open spec fn left_aligned(text: Seq<char>, width: nat) -> Seq<char> {
    if text.len() < width {
        text + repeated(' ', (width - text.len()) as nat)
    } else {
        text
    }
}

/// A character repeated.
pub fn repeat(c: char, count: usize) -> (text: String)
    ensures
        text@ == repeated(c, count as nat),
{
    let mut text = String::new();
    let mut i: usize = 0;
    assert(text@ == repeated(c, 0));
    while i < count
        invariant
            i <= count,
            text@ == repeated(c, i as nat),
        decreases count - i,
    {
        push_char(&mut text, c);
        i = i + 1;
        assert(text@ == repeated(c, i as nat));
    }
    text
}

/// Puts spaces behind `text` up to `width` characters.
pub fn left_align(text: &str, width: usize) -> (aligned: String)
    ensures
        aligned@ == left_aligned(text@, width as nat),
{
    let count: usize = text.unicode_len();
    let mut aligned = text.to_owned();
    if count < width {
        let spaces = repeat(' ', width - count);
        aligned.append(spaces.as_str());
    }
    aligned
}

// ---------------------------------------------------------------------------
// Order
// ---------------------------------------------------------------------------

/// Whether `a` stands before `b` in the order of code points, which is the
/// order of `String`.
pub open spec fn before(a: Seq<char>, b: Seq<char>) -> bool
    decreases a.len(),
{
    if b.len() == 0 {
        false
    } else if a.len() == 0 {
        true
    } else if a[0] == b[0] {
        before(a.skip(1), b.skip(1))
    } else {
        a[0] < b[0]
    }
}

/// The order is total.
pub proof fn before_total(a: Seq<char>, b: Seq<char>)
    ensures
        before(a, b) || before(b, a) || a == b,
        !(before(a, b) && before(b, a)),
        !before(a, a),
    decreases a.len(),
{
    if a.len() > 0 && b.len() > 0 {
        if a[0] == b[0] {
            before_total(a.skip(1), b.skip(1));
            if a.skip(1) == b.skip(1) {
                assert(a == b) by {
                    assert(a.len() == b.len());
                    assert forall|i: int| 0 <= i < a.len() implies a[i] == b[i] by {
                        if i > 0 {
                            assert(a.skip(1)[i - 1] == b.skip(1)[i - 1]);
                        }
                    }
                }
            }
        }
        before_total(a.skip(1), a.skip(1));
    } else if a.len() > 0 {
        before_total(a.skip(1), a.skip(1));
    } else if b.len() == 0 {
        assert(a == b);
    }
}

/// The order is transitive.
pub proof fn before_transitive(a: Seq<char>, b: Seq<char>, c: Seq<char>)
    requires
        before(a, b),
        before(b, c),
    ensures
        before(a, c),
    decreases a.len(),
{
    if a.len() > 0 && b.len() > 0 && c.len() > 0 && a[0] == b[0] && b[0] == c[0] {
        before_transitive(a.skip(1), b.skip(1), c.skip(1));
    }
}

/// Whether `a` stands before `b` in the order of code points.
pub fn is_before(a: &str, b: &str) -> (answer: bool)
    ensures
        answer == before(a@, b@),
{
    let first = chars_of(a);
    let second = chars_of(b);
    let mut i: usize = 0;
    assert(a@.skip(0) == a@);
    assert(b@.skip(0) == b@);
    while i < first.len() && i < second.len()
        invariant
            first@ == a@,
            second@ == b@,
            i <= first.len(),
            i <= second.len(),
            before(a@.skip(i as int), b@.skip(i as int)) == before(a@, b@),
        decreases first.len() - i,
    {
        assert(a@.skip(i as int).skip(1) == a@.skip(i + 1));
        assert(b@.skip(i as int).skip(1) == b@.skip(i + 1));
        let x = first[i];
        let y = second[i];
        if x != y {
            return x < y;
        }
        i = i + 1;
    }
    i < second.len()
}

/// The characters of an answer.
pub open spec fn reply_view(reply: Result<String, String>) -> Result<Seq<char>, Seq<char>> {
    match reply {
        Ok(html) => Ok(html@),
        Err(message) => Err(message@),
    }
}

} // verus!
