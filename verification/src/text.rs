//! Questions about text that the browser asks in more than one place.

use vstd::prelude::*;

verus! {

/// Whether a character is white space: whether it has Unicode's `White_Space` property.
pub open spec fn is_white_space(character: char) -> bool {
    ||| '\u{9}' <= character <= '\u{d}'
    ||| character == ' '
    ||| character == '\u{85}'
    ||| character == '\u{a0}'
    ||| character == '\u{1680}'
    ||| '\u{2000}' <= character <= '\u{200a}'
    ||| character == '\u{2028}'
    ||| character == '\u{2029}'
    ||| character == '\u{202f}'
    ||| character == '\u{205f}'
    ||| character == '\u{3000}'
}

/// Whether a character is white space.
fn white_space(character: char) -> (answer: bool)
    ensures
        answer == is_white_space(character),
{
    ('\u{9}' <= character && character <= '\u{d}') || character == ' ' || character == '\u{85}'
        || character == '\u{a0}' || character == '\u{1680}' || ('\u{2000}' <= character
        && character <= '\u{200a}') || character == '\u{2028}' || character == '\u{2029}'
        || character == '\u{202f}' || character == '\u{205f}' || character == '\u{3000}'
}

/// What `str::to_lowercase` makes of a text: each character's Unicode lower case.
pub uninterp spec fn lowercase(text: Seq<char>) -> Seq<char>;

/// `str::to_lowercase`, which answers from the text alone.
#[verifier::external_body]
pub(crate) fn to_lowercase(text: &str) -> (lower: String)
    ensures
        lower@ == lowercase(text@),
{
    text.to_lowercase()
}

/// Whether a text holds nothing but white space.
pub open spec fn blank(text: Seq<char>) -> bool {
    forall|i: int| 0 <= i < text.len() ==> is_white_space(#[trigger] text[i])
}

/// A text without the white space it begins with.
pub open spec fn without_leading(text: Seq<char>) -> Seq<char>
    decreases text.len(),
{
    if text.len() > 0 && is_white_space(text.first()) {
        without_leading(text.drop_first())
    } else {
        text
    }
}

/// A text without the white space it ends with.
pub open spec fn without_trailing(text: Seq<char>) -> Seq<char>
    decreases text.len(),
{
    if text.len() > 0 && is_white_space(text.last()) {
        without_trailing(text.drop_last())
    } else {
        text
    }
}

/// A text without the white space at either end.
pub open spec fn trimmed(text: Seq<char>) -> Seq<char> {
    without_trailing(without_leading(text))
}

/// Whether `needle` stands somewhere in `text`.
pub open spec fn holds(text: Seq<char>, needle: Seq<char>) -> bool {
    exists|at: int| #[trigger] stands_at(text, needle, at)
}

/// Whether `needle` stands in `text` from the character at `at` on.
pub open spec fn stands_at(text: Seq<char>, needle: Seq<char>, at: int) -> bool {
    0 <= at && at + needle.len() <= text.len() && text.subrange(at, at + needle.len()) == needle
}

/// A text trimmed to nothing held nothing but white space, and the other way round.
pub proof fn trimmed_to_nothing_was_blank(text: Seq<char>)
    ensures
        trimmed(text).len() == 0 <==> blank(text),
{
    without_leading_is_a_tail(text);
    let tail = without_leading(text);
    without_trailing_keeps_what_counts(tail);
    if tail.len() > 0 {
        assert(text[text.len() - tail.len()] == tail[0]);
    }
}

proof fn without_leading_is_a_tail(text: Seq<char>)
    ensures
        without_leading(text).len() <= text.len(),
        without_leading(text) == text.skip(text.len() - without_leading(text).len()),
        forall|i: int|
            0 <= i < text.len() - without_leading(text).len() ==> is_white_space(
                #[trigger] text[i],
            ),
        without_leading(text).len() > 0 ==> !is_white_space(without_leading(text)[0]),
    decreases text.len(),
{
    if text.len() > 0 && is_white_space(text.first()) {
        let rest = text.drop_first();
        without_leading_is_a_tail(rest);
        let k = rest.len() - without_leading(rest).len();
        assert(rest.skip(k) == text.skip(k + 1));
        assert forall|i: int| 0 <= i < text.len() - without_leading(text).len() implies is_white_space(
            #[trigger] text[i],
        ) by {
            if i > 0 {
                assert(rest[i - 1] == text[i]);
            }
        }
    } else {
        assert(text.skip(0) == text);
    }
}

proof fn without_trailing_keeps_what_counts(text: Seq<char>)
    ensures
        without_trailing(text).len() <= text.len(),
        without_trailing(text) == text.take(without_trailing(text).len() as int),
        forall|i: int|
            without_trailing(text).len() <= i < text.len() ==> is_white_space(#[trigger] text[i]),
        without_trailing(text).len() > 0 ==> !is_white_space(without_trailing(text).last()),
    decreases text.len(),
{
    if text.len() > 0 && is_white_space(text.last()) {
        let rest = text.drop_last();
        without_trailing_keeps_what_counts(rest);
        let k = without_trailing(rest).len() as int;
        assert(rest.take(k) == text.take(k));
        assert forall|i: int| without_trailing(text).len() <= i < text.len() implies is_white_space(
            #[trigger] text[i],
        ) by {
            if i < rest.len() {
                assert(rest[i] == text[i]);
            }
        }
    } else {
        assert(text.take(text.len() as int) == text);
    }
}

/// Whether there is nothing in `text` but white space.
pub fn is_blank(text: &str) -> (answer: bool)
    ensures
        answer == blank(text@),
{
    for character in it: text.chars()
        invariant
            it.seq() == text@,
            forall|i: int| 0 <= i < it.index() ==> is_white_space(#[trigger] text@[i]),
    {
        if !white_space(character) {
            assert(text@[it.index()] == character);
            return false;
        }
    }
    true
}

/// `text` without the white space at either end.
pub fn trim(text: &str) -> (out: String)
    ensures
        out@ == trimmed(text@),
{
    let length: usize = text.unicode_len();
    let mut from: usize = 0;
    assert(text@.skip(0) == text@);
    while from < length && white_space(text.get_char(from))
        invariant
            length == text@.len(),
            from <= length,
            without_leading(text@) == without_leading(text@.skip(from as int)),
        decreases length - from,
    {
        proof {
            assert(text@.skip(from as int).drop_first() == text@.skip(from + 1));
            assert(text@.skip(from as int).first() == text@[from as int]);
        }
        from = from + 1;
    }
    let ghost tail = text@.skip(from as int);
    proof {
        if from < length {
            assert(tail.first() == text@[from as int]);
        }
        assert(without_leading(tail) == tail);
    }
    let mut to: usize = length;
    assert(tail.take(tail.len() as int) == tail);
    while to > from && white_space(text.get_char(to - 1))
        invariant
            length == text@.len(),
            from <= to <= length,
            tail == text@.skip(from as int),
            without_trailing(tail) == without_trailing(tail.take(to - from)),
        decreases to,
    {
        proof {
            let kept = tail.take(to - from);
            assert(kept.drop_last() == tail.take(to - 1 - from));
            assert(kept.last() == text@[to - 1]);
        }
        to = to - 1;
    }
    proof {
        let kept = tail.take(to - from);
        if to > from {
            assert(kept.last() == text@[to - 1]);
        }
        assert(without_trailing(kept) == kept);
        assert(kept == text@.subrange(from as int, to as int));
    }
    text.substring_char(from, to).to_owned()
}

/// The characters of `text`, one by one.
fn characters(text: &str) -> (out: Vec<char>)
    ensures
        out@ == text@,
{
    let mut out: Vec<char> = Vec::new();
    for character in it: text.chars()
        invariant
            it.seq() == text@,
            out@ == text@.take(it.index()),
    {
        out.push(character);
        assert(text@.take(it.index() + 1) == text@.take(it.index()).push(character));
    }
    assert(text@.take(text@.len() as int) == text@);
    out
}

/// Whether `needle` stands somewhere in `text`.
pub fn contains(text: &str, needle: &str) -> (answer: bool)
    ensures
        answer == holds(text@, needle@),
{
    let whole = characters(text);
    let part = characters(needle);
    if part.len() > whole.len() {
        assert forall|at: int| !stands_at(text@, needle@, at) by {}
        return false;
    }
    let last: usize = whole.len() - part.len();
    let mut at: usize = 0;
    while at <= last
        invariant
            whole@ == text@,
            part@ == needle@,
            last == whole.len() - part.len(),
            at <= last + 1,
            forall|k: int| 0 <= k < at ==> !#[trigger] stands_at(text@, needle@, k),
        decreases last + 1 - at,
    {
        let mut i: usize = 0;
        while i < part.len() && whole[at + i] == part[i]
            invariant
                whole@ == text@,
                part@ == needle@,
                last == whole.len() - part.len(),
                at <= last,
                i <= part.len(),
                forall|k: int| 0 <= k < i ==> whole@[at + k] == #[trigger] part@[k],
            decreases part.len() - i,
        {
            i = i + 1;
        }
        if i == part.len() {
            assert(text@.subrange(at as int, at + needle@.len()) == needle@);
            assert(stands_at(text@, needle@, at as int));
            return true;
        }
        proof {
            let part_seen = text@.subrange(at as int, at + needle@.len());
            assert(part_seen[i as int] == whole@[at + i]);
            assert(part_seen != needle@);
            assert(!stands_at(text@, needle@, at as int));
        }
        at = at + 1;
    }
    assert forall|k: int| !stands_at(text@, needle@, k) by {}
    false
}

/// Trimming takes white space from both ends and nothing else: what is left stands in the text
/// as it stood, with nothing but white space round it, and neither begins nor ends with any.
pub proof fn trimming_takes_only_white_space(text: Seq<char>) -> (from: int)
    ensures
        0 <= from <= from + trimmed(text).len() <= text.len(),
        trimmed(text) == text.subrange(from, from + trimmed(text).len()),
        forall|i: int| 0 <= i < from ==> is_white_space(#[trigger] text[i]),
        forall|i: int|
            from + trimmed(text).len() <= i < text.len() ==> is_white_space(#[trigger] text[i]),
        trimmed(text).len() > 0 ==> !is_white_space(trimmed(text)[0]) && !is_white_space(
            trimmed(text).last(),
        ),
{
    without_leading_is_a_tail(text);
    let tail = without_leading(text);
    without_trailing_keeps_what_counts(tail);
    let from = text.len() - tail.len();
    assert(trimmed(text) =~= text.subrange(from, from + trimmed(text).len()));
    assert forall|i: int| from + trimmed(text).len() <= i < text.len() implies is_white_space(
        #[trigger] text[i],
    ) by {
        assert(text[i] == tail[i - from]);
    }
    from
}

} // verus!
