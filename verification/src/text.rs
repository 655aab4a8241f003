//! Character sequences: the model that every contract on text is stated over,
//! and the executable routines that work on it.

use vstd::prelude::*;

verus! {

/// `String::push` appends one character and changes nothing else.
pub assume_specification[ String::push ](text: &mut String, ch: char)
    ensures
        final(text)@ == old(text)@.push(ch),
;

/// `==` on string slices holds exactly of slices with the same characters.
pub assume_specification[ <str as PartialEq>::eq ](a: &str, b: &str) -> (same: bool)
    ensures
        same == (a@ == b@),
;

/// Tells whether `a` comes before `b` in the order of the dictionary.
pub fn comes_before(a: &str, b: &str) -> (less: bool)
    ensures
        less == precedes(a@, b@),
{
    let left = chars_of(a);
    let right = chars_of(b);
    let mut i: usize = 0;
    assert(left@.skip(0) == left@);
    assert(right@.skip(0) == right@);
    loop
        invariant
            i <= left.len(),
            i <= right.len(),
            left@ == a@,
            right@ == b@,
            precedes(a@, b@) == precedes(left@.skip(i as int), right@.skip(i as int)),
        decreases left.len() - i,
    {
        if i >= right.len() {
            return false;
        }
        if i >= left.len() {
            return true;
        }
        assert(left@.skip(i as int)[0] == left@[i as int]);
        assert(right@.skip(i as int)[0] == right@[i as int]);
        if left[i] != right[i] {
            return (left[i] as u32) < (right[i] as u32);
        }
        assert(left@.skip(i as int).skip(1) == left@.skip(i + 1));
        assert(right@.skip(i as int).skip(1) == right@.skip(i + 1));
        i += 1;
    }
}

/// The text that std's `str::to_lowercase` gives for `text`.
pub uninterp spec fn lowercase(text: Seq<char>) -> Seq<char>;

/// `true` for a text of ASCII characters alone.
pub open spec fn is_ascii_text(text: Seq<char>) -> bool {
    forall|i: int| 0 <= i < text.len() ==> (#[trigger] text[i] as u32) < 128
}

/// The small letter for a capital letter of ASCII; every other character as it is.
pub open spec fn ascii_lower(c: char) -> char {
    if 'A' <= c && c <= 'Z' {
        ((c as u32 + 32) as u8) as char
    } else {
        c
    }
}

/// `text` with its capital letters of ASCII made small.
pub open spec fn ascii_lowered(text: Seq<char>) -> Seq<char> {
    text.map_values(|c: char| ascii_lower(c))
}

/// `str::to_lowercase` maps each character by the Unicode tables that std was
/// built with: its result is a function of the text. Of ASCII it makes the
/// capital letters small and leaves the rest, as `str::to_ascii_lowercase`
/// does, whose documentation sends to it for the characters beyond ASCII.
pub assume_specification[ str::to_lowercase ](text: &str) -> (lower: String)
    ensures
        lower@ == lowercase(text@),
        is_ascii_text(text@) ==> lower@ == ascii_lowered(text@),
;

/// `true` when `a` comes before `b` in the order of the dictionary, characters
/// being ordered by their code points.
pub open spec fn precedes(a: Seq<char>, b: Seq<char>) -> bool
    decreases a.len(),
{
    if b.len() == 0 {
        false
    } else if a.len() == 0 {
        true
    } else if a[0] != b[0] {
        (a[0] as u32) < (b[0] as u32)
    } else {
        precedes(a.skip(1), b.skip(1))
    }
}

/// `true` when `pattern` stands in `text` at position `at`.
pub open spec fn occurs_at(text: Seq<char>, pattern: Seq<char>, at: int) -> bool {
    &&& 0 <= at
    &&& at + pattern.len() <= text.len()
    &&& text.subrange(at, at + pattern.len()) == pattern
}

/// `true` when `text` begins with `prefix`.
pub open spec fn starts_with(text: Seq<char>, prefix: Seq<char>) -> bool {
    occurs_at(text, prefix, 0)
}

/// `true` when `pattern` stands somewhere in `text`.
pub open spec fn contains(text: Seq<char>, pattern: Seq<char>) -> bool {
    exists|at: int| occurs_at(text, pattern, at)
}

/// `text` with every occurrence of `from` replaced by `to`, scanning from the
/// left and resuming behind each occurrence that was replaced.
pub open spec fn replace_all(text: Seq<char>, from: Seq<char>, to: Seq<char>) -> Seq<char>
    recommends
        from.len() > 0,
    decreases text.len(),
{
    if from.len() == 0 || text.len() < from.len() {
        text
    } else if occurs_at(text, from, 0) {
        to + replace_all(text.skip(from.len() as int), from, to)
    } else {
        seq![text[0]] + replace_all(text.skip(1), from, to)
    }
}

/// `true` for the characters that numbers, dates and times of day are written
/// with: the decimal digits and the two signs.
pub open spec fn is_stamp_char(c: char) -> bool {
    ('0' <= c && c <= '9') || c == '-' || c == '+'
}

/// `true` for a text that is not empty and written with digits and signs alone.
pub open spec fn is_stamp_text(text: Seq<char>) -> bool {
    &&& text.len() > 0
    &&& forall|i: int| 0 <= i < text.len() ==> is_stamp_char(#[trigger] text[i])
}

/// The character that writes the decimal digit `d`.
pub open spec fn digit_char(d: int) -> char
    recommends
        0 <= d < 10,
{
    ((48 + d) as u8) as char
}

/// The decimal digits of `n`, most significant first, without leading zeros.
pub open spec fn decimal_nat(n: nat) -> Seq<char>
    decreases n,
{
    if n < 10 {
        seq![digit_char(n as int)]
    } else {
        decimal_nat(n / 10).push(digit_char((n % 10) as int))
    }
}

/// The decimal notation of `n`, with a leading minus sign when it is negative.
pub open spec fn decimal(n: int) -> Seq<char> {
    if n < 0 {
        seq!['-'] + decimal_nat((-n) as nat)
    } else {
        decimal_nat(n as nat)
    }
}

/// The decimal digits of `n`, filled up with zeros on the left to `width` characters.
pub open spec fn zero_padded(n: nat, width: nat) -> Seq<char> {
    let digits = decimal_nat(n);
    if digits.len() >= width {
        digits
    } else {
        Seq::new((width - digits.len()) as nat, |i: int| '0') + digits
    }
}

/// The characters of `text`, in order.
pub fn chars_of(text: &str) -> (out: Vec<char>)
    ensures
        out@ == text@,
{
    let mut out: Vec<char> = Vec::new();
    for c in it: text.chars()
        invariant
            out@ == it.seq().take(it.index() as int),
            it.seq() == text@,
    {
        out.push(c);
    }
    out
}

/// The string that holds `chars`, in order.
pub fn string_of(chars: &Vec<char>) -> (out: String)
    ensures
        out@ == chars@,
{
    let mut out = String::new();
    let mut i: usize = 0;
    while i < chars.len()
        invariant
            i <= chars.len(),
            out@ == chars@.take(i as int),
        decreases chars.len() - i,
    {
        out.push(chars[i]);
        i += 1;
    }
    out
}

/// Appends the characters of `tail` to `out`.
pub fn append_chars(out: &mut Vec<char>, tail: &Vec<char>)
    ensures
        final(out)@ == old(out)@ + tail@,
{
    let mut i: usize = 0;
    while i < tail.len()
        invariant
            i <= tail.len(),
            out@ == old(out)@ + tail@.take(i as int),
        decreases tail.len() - i,
    {
        out.push(tail[i]);
        i += 1;
    }
}

/// Tells whether `pattern` stands in `text` at position `at`.
pub fn matches_at(text: &Vec<char>, pattern: &Vec<char>, at: usize) -> (found: bool)
    ensures
        found == occurs_at(text@, pattern@, at as int),
{
    if pattern.len() > text.len() || at > text.len() - pattern.len() {
        return false;
    }
    let mut i: usize = 0;
    while i < pattern.len()
        invariant
            i <= pattern.len(),
            at + pattern.len() <= text.len(),
            text@.subrange(at as int, at + i) == pattern@.take(i as int),
        decreases pattern.len() - i,
    {
        if text[at + i] != pattern[i] {
            assert(text@.subrange(at as int, at + pattern.len())[i as int] != pattern@[i as int]);
            return false;
        }
        assert(text@.subrange(at as int, at + i + 1) == text@.subrange(at as int, at + i).push(
            text@[at + i],
        ));
        assert(pattern@.take(i + 1) == pattern@.take(i as int).push(pattern@[i as int]));
        i += 1;
    }
    assert(pattern@.take(pattern.len() as int) == pattern@);
    true
}

proof fn lemma_replace_all_step(text: Seq<char>, from: Seq<char>, to: Seq<char>, at: int)
    requires
        from.len() > 0,
        0 <= at <= text.len(),
    ensures
        text.len() - at < from.len() ==> replace_all(text.skip(at), from, to) == text.skip(at),
        occurs_at(text, from, at) ==> replace_all(text.skip(at), from, to) == to + replace_all(
            text.skip(at + from.len()),
            from,
            to,
        ),
        text.len() - at >= from.len() && !occurs_at(text, from, at) ==> replace_all(
            text.skip(at),
            from,
            to,
        ) == seq![text[at]] + replace_all(text.skip(at + 1), from, to),
{
    let rest = text.skip(at);
    if text.len() - at >= from.len() {
        assert(rest.subrange(0, from.len() as int) == text.subrange(at, at + from.len()));
        assert(occurs_at(rest, from, 0) == occurs_at(text, from, at));
        assert(rest.skip(from.len() as int) == text.skip(at + from.len()));
        assert(rest.skip(1) == text.skip(at + 1));
    }
}

/// Replaces every occurrence of `from` in `text` by `to`.
pub fn replace(text: &Vec<char>, from: &Vec<char>, to: &Vec<char>) -> (out: Vec<char>)
    requires
        from@.len() > 0,
    ensures
        out@ == replace_all(text@, from@, to@),
{
    let mut out: Vec<char> = Vec::new();
    let mut i: usize = 0;
    assert(text@.skip(0) == text@);
    while i < text.len() && text.len() - i >= from.len()
        invariant
            from@.len() > 0,
            i <= text.len(),
            replace_all(text@, from@, to@) == out@ + replace_all(text@.skip(i as int), from@, to@),
        decreases text.len() - i,
    {
        proof {
            lemma_replace_all_step(text@, from@, to@, i as int);
        }
        if matches_at(text, from, i) {
            append_chars(&mut out, to);
            i += from.len();
        } else {
            out.push(text[i]);
            i += 1;
        }
    }
    proof {
        lemma_replace_all_step(text@, from@, to@, i as int);
    }
    while i < text.len()
        invariant
            from@.len() > 0,
            i <= text.len(),
            replace_all(text@, from@, to@) == out@ + text@.skip(i as int),
        decreases text.len() - i,
    {
        assert(text@.skip(i as int) == seq![text@[i as int]] + text@.skip(i + 1));
        out.push(text[i]);
        i += 1;
    }
    out
}

fn push_decimal(out: &mut Vec<char>, n: u64)
    ensures
        final(out)@ == old(out)@ + decimal_nat(n as nat),
    decreases n,
{
    if n >= 10 {
        push_decimal(out, n / 10);
    }
    let d: u8 = (n % 10) as u8;
    out.push((48 + d) as char);
}

/// The decimal digits of `n`.
pub fn decimal_of(n: u64) -> (out: Vec<char>)
    ensures
        out@ == decimal_nat(n as nat),
{
    let mut out: Vec<char> = Vec::new();
    push_decimal(&mut out, n);
    out
}

/// The decimal notation of `n`.
pub fn signed_decimal_of(n: i64) -> (out: Vec<char>)
    ensures
        out@ == decimal(n as int),
{
    let mut out: Vec<char> = Vec::new();
    if n < 0 {
        out.push('-');
        let magnitude: u64 = if n == i64::MIN {
            9_223_372_036_854_775_808u64
        } else {
            (-n) as u64
        };
        push_decimal(&mut out, magnitude);
    } else {
        push_decimal(&mut out, n as u64);
    }
    out
}

/// A text in which `from` does not occur is left as it is.
pub proof fn lemma_replace_all_without_occurrence(text: Seq<char>, from: Seq<char>, to: Seq<char>)
    requires
        from.len() > 0,
        !contains(text, from),
    ensures
        replace_all(text, from, to) == text,
    decreases text.len(),
{
    if text.len() >= from.len() {
        assert(!occurs_at(text, from, 0));
        let rest = text.skip(1);
        assert(!contains(rest, from)) by {
            if contains(rest, from) {
                let at = choose|at: int| occurs_at(rest, from, at);
                assert(rest.subrange(at, at + from.len()) == text.subrange(at + 1, at + 1 + from.len()));
                assert(occurs_at(text, from, at + 1));
            }
        }
        lemma_replace_all_without_occurrence(rest, from, to);
        assert(seq![text[0]] + rest == text);
    }
}

/// Where the replaced text begins with the end of `word`, so did the text
/// before: no replacement can stand in for the end of a word that holds no
/// replacement and whose last character no replacement holds.
proof fn lemma_prefix_was_there(text: Seq<char>, from: Seq<char>, to: Seq<char>, word: Seq<char>, j: int)
    requires
        from.len() > 0,
        word.len() > 0,
        0 <= j <= word.len(),
        !to.contains(word.last()),
        !contains(word, to),
        occurs_at(replace_all(text, from, to), word.skip(j), 0),
    ensures
        occurs_at(text, word.skip(j), 0),
    decreases text.len(),
{
    let end = word.skip(j);
    let replaced = replace_all(text, from, to);
    if end.len() == 0 {
        assert(text.subrange(0, 0) == end);
    } else if text.len() < from.len() {
    } else if occurs_at(text, from, 0) {
        let tail = replace_all(text.skip(from.len() as int), from, to);
        assert(replaced == to + tail);
        assert(replaced.subrange(0, end.len() as int) == end);
        if end.len() <= to.len() {
            assert(replaced.subrange(0, end.len() as int)[end.len() - 1] == to[end.len() - 1]);
            assert(end[end.len() - 1] == word.last());
            assert(to.contains(word.last()));
        } else {
            let covered = word.subrange(j, j + to.len());
            assert(covered == to) by {
                assert forall|i: int| 0 <= i < to.len() implies #[trigger] covered[i] == to[i] by {
                    assert(replaced.subrange(0, end.len() as int)[i] == to[i]);
                    assert(end[i] == word[j + i]);
                }
            }
            assert(occurs_at(word, to, j));
        }
    } else {
        let rest = text.skip(1);
        let tail = replace_all(rest, from, to);
        assert(replaced == seq![text[0]] + tail);
        assert(replaced.subrange(0, end.len() as int) == end);
        assert(replaced.subrange(0, end.len() as int)[0] == text[0]);
        assert(end[0] == word[j]);
        let shorter = word.skip(j + 1);
        let begun = tail.subrange(0, shorter.len() as int);
        assert(begun == shorter) by {
            assert forall|i: int| 0 <= i < shorter.len() implies #[trigger] begun[i] == shorter[i] by {
                assert(replaced.subrange(0, end.len() as int)[i + 1] == tail[i]);
                assert(end[i + 1] == word[j + 1 + i]);
            }
        }
        assert(occurs_at(tail, shorter, 0));
        lemma_prefix_was_there(rest, from, to, word, j + 1);
        let before = text.subrange(0, end.len() as int);
        assert(before == end) by {
            assert forall|i: int| 0 <= i < end.len() implies #[trigger] before[i] == end[i] by {
                if i > 0 {
                    assert(rest.subrange(0, shorter.len() as int)[i - 1] == shorter[i - 1]);
                }
            }
        }
    }
}

proof fn lemma_occurrence_was_there(text: Seq<char>, from: Seq<char>, to: Seq<char>, word: Seq<char>, at: int)
    requires
        from.len() > 0,
        word.len() > 0,
        !to.contains(word.first()),
        !to.contains(word.last()),
        !contains(word, to),
        occurs_at(replace_all(text, from, to), word, at),
    ensures
        contains(text, word),
    decreases text.len(),
{
    let replaced = replace_all(text, from, to);
    if text.len() < from.len() {
        assert(occurs_at(text, word, at));
    } else if occurs_at(text, from, 0) {
        let rest = text.skip(from.len() as int);
        let tail = replace_all(rest, from, to);
        assert(replaced == to + tail);
        if at < to.len() {
            assert(replaced.subrange(at, at + word.len())[0] == to[at]);
            assert(to.contains(word.first()));
        } else {
            assert(tail.subrange(at - to.len(), at - to.len() + word.len()) == replaced.subrange(
                at,
                at + word.len(),
            ));
            assert(occurs_at(tail, word, at - to.len()));
            lemma_occurrence_was_there(rest, from, to, word, at - to.len());
            let found = choose|found: int| occurs_at(rest, word, found);
            assert(text.subrange(found + from.len(), found + from.len() + word.len())
                == rest.subrange(found, found + word.len()));
            assert(occurs_at(text, word, found + from.len()));
        }
    } else {
        let rest = text.skip(1);
        let tail = replace_all(rest, from, to);
        assert(replaced == seq![text[0]] + tail);
        if at == 0 {
            assert(word.skip(0) == word);
            lemma_prefix_was_there(text, from, to, word, 0);
            assert(occurs_at(text, word, 0));
        } else {
            assert(tail.subrange(at - 1, at - 1 + word.len()) == replaced.subrange(
                at,
                at + word.len(),
            ));
            assert(occurs_at(tail, word, at - 1));
            lemma_occurrence_was_there(rest, from, to, word, at - 1);
            let found = choose|found: int| occurs_at(rest, word, found);
            assert(text.subrange(found + 1, found + 1 + word.len()) == rest.subrange(
                found,
                found + word.len(),
            ));
            assert(occurs_at(text, word, found + 1));
        }
    }
}

/// Replacing makes no new occurrence of `word`: where `word` did not occur
/// before, it does not occur afterwards, provided that the replacement holds
/// neither the first nor the last character of `word`, and that `word` does
/// not hold the replacement.
pub proof fn lemma_replace_all_makes_none(text: Seq<char>, from: Seq<char>, to: Seq<char>, word: Seq<char>)
    requires
        from.len() > 0,
        word.len() > 0,
        !to.contains(word.first()),
        !to.contains(word.last()),
        !contains(word, to),
        !contains(text, word),
    ensures
        !contains(replace_all(text, from, to), word),
{
    if contains(replace_all(text, from, to), word) {
        let at = choose|at: int| occurs_at(replace_all(text, from, to), word, at);
        lemma_occurrence_was_there(text, from, to, word, at);
    }
}

proof fn lemma_none_left_at(text: Seq<char>, from: Seq<char>, to: Seq<char>, at: int)
    requires
        from.len() > 0,
        !to.contains(from.first()),
        !to.contains(from.last()),
        !contains(from, to),
    ensures
        !occurs_at(replace_all(text, from, to), from, at),
    decreases text.len(),
{
    let replaced = replace_all(text, from, to);
    if occurs_at(replaced, from, at) {
        if text.len() < from.len() {
        } else if occurs_at(text, from, 0) {
            let rest = text.skip(from.len() as int);
            let tail = replace_all(rest, from, to);
            assert(replaced == to + tail);
            if at < to.len() {
                assert(replaced.subrange(at, at + from.len())[0] == to[at]);
                assert(to.contains(from.first()));
            } else {
                assert(tail.subrange(at - to.len(), at - to.len() + from.len())
                    == replaced.subrange(at, at + from.len()));
                lemma_none_left_at(rest, from, to, at - to.len());
            }
        } else {
            let rest = text.skip(1);
            let tail = replace_all(rest, from, to);
            assert(replaced == seq![text[0]] + tail);
            if at == 0 {
                assert(from.skip(0) == from);
                lemma_prefix_was_there(text, from, to, from, 0);
            } else {
                assert(tail.subrange(at - 1, at - 1 + from.len()) == replaced.subrange(
                    at,
                    at + from.len(),
                ));
                lemma_none_left_at(rest, from, to, at - 1);
            }
        }
    }
}

/// Replacing leaves no occurrence of what is replaced, provided that the
/// replacement holds neither the first nor the last character of it, and that
/// it does not hold the replacement.
pub proof fn lemma_replace_all_leaves_none(text: Seq<char>, from: Seq<char>, to: Seq<char>)
    requires
        from.len() > 0,
        !to.contains(from.first()),
        !to.contains(from.last()),
        !contains(from, to),
    ensures
        !contains(replace_all(text, from, to), from),
{
    assert forall|at: int| !occurs_at(replace_all(text, from, to), from, at) by {
        lemma_none_left_at(text, from, to, at);
    }
}

/// A word does not hold a text that holds a character foreign to the word.
pub proof fn lemma_foreign_character(word: Seq<char>, text: Seq<char>, k: int)
    requires
        0 <= k < text.len(),
        !word.contains(text[k]),
    ensures
        !contains(word, text),
{
    if contains(word, text) {
        let at = choose|at: int| occurs_at(word, text, at);
        assert(word.subrange(at, at + text.len())[k] == text[k]);
        assert(word[at + k] == text[k]);
    }
}

/// The decimal notation of a number is written with digits and signs alone.
pub proof fn lemma_decimal_is_stamp_text(n: int)
    ensures
        is_stamp_text(decimal(n)),
{
    if n < 0 {
        lemma_digits_are_stamp_text((-n) as nat);
        let digits = decimal_nat((-n) as nat);
        assert forall|i: int| 0 <= i < decimal(n).len() implies is_stamp_char(
            #[trigger] decimal(n)[i],
        ) by {
            if i > 0 {
                assert(decimal(n)[i] == digits[i - 1]);
            }
        }
    } else {
        lemma_digits_are_stamp_text(n as nat);
    }
}

proof fn lemma_digits_are_stamp_text(n: nat)
    ensures
        is_stamp_text(decimal_nat(n)),
    decreases n,
{
    if n >= 10 {
        lemma_digits_are_stamp_text(n / 10);
        let front = decimal_nat(n / 10);
        assert forall|i: int| 0 <= i < decimal_nat(n).len() implies is_stamp_char(
            #[trigger] decimal_nat(n)[i],
        ) by {
            if i < front.len() {
                assert(decimal_nat(n)[i] == front[i]);
            }
        }
    }
}

/// Of two texts at most one comes before the other.
pub proof fn lemma_precedes_is_asymmetric(a: Seq<char>, b: Seq<char>)
    requires
        precedes(a, b),
    ensures
        !precedes(b, a),
    decreases a.len(),
{
    if a.len() > 0 && b.len() > 0 && a[0] == b[0] {
        lemma_precedes_is_asymmetric(a.skip(1), b.skip(1));
    }
}

/// What comes before a text comes before all that the text comes before.
pub proof fn lemma_precedes_is_transitive(a: Seq<char>, b: Seq<char>, c: Seq<char>)
    requires
        precedes(a, b),
        precedes(b, c),
    ensures
        precedes(a, c),
    decreases a.len(),
{
    if a.len() > 0 && b.len() > 0 && c.len() > 0 && a[0] == b[0] && b[0] == c[0] {
        lemma_precedes_is_transitive(a.skip(1), b.skip(1), c.skip(1));
    }
}

} // verus!
