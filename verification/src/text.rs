//! Text as sequences of characters: searching, splitting and trimming.
use vstd::prelude::*;

verus! {

/// `String::push` puts one character behind the text.
pub assume_specification[ String::push ](string: &mut String, character: char)
    ensures
        final(string)@ == old(string)@.push(character),
;

/// The characters of a text.
pub fn chars_of(text: &str) -> (result: Vec<char>)
    ensures
        result@ == text@,
{
    let mut result: Vec<char> = Vec::new();
    for character in iter: text.chars()
        invariant
            result@ == iter.seq().take(iter.index() as int),
            iter.seq() == text@,
    {
        result.push(character);
    }
    result
}

/// The text made of some characters.
pub fn text_of(chars: &[char]) -> (result: String)
    ensures
        result@ == chars@,
{
    let mut result = String::new();
    let mut i: usize = 0;
    while i < chars.len()
        invariant
            i <= chars@.len(),
            result@ == chars@.take(i as int),
        decreases chars@.len() - i,
    {
        result.push(chars[i]);
        i += 1;
    }
    result
}

/// Whether two character sequences are the same.
pub fn same_chars(left: &[char], right: &[char]) -> (result: bool)
    ensures
        result == (left@ == right@),
{
    if left.len() != right.len() {
        return false;
    }
    let mut i: usize = 0;
    while i < left.len()
        invariant
            i <= left@.len(),
            left@.len() == right@.len(),
            forall|j: int| 0 <= j < i ==> left@[j] == right@[j],
        decreases left@.len() - i,
    {
        if left[i] != right[i] {
            return false;
        }
        i += 1;
    }
    assert(left@ =~= right@);
    true
}

/// Whether two texts are the same.
pub fn same_text(left: &str, right: &str) -> (result: bool)
    ensures
        result == (left@ == right@),
{
    same_chars(chars_of(left).as_slice(), chars_of(right).as_slice())
}

/// Whether a character sequence begins with another.
pub fn begins_with(chars: &[char], prefix: &[char]) -> (result: bool)
    ensures
        result == prefix@.is_prefix_of(chars@),
{
    if chars.len() < prefix.len() {
        return false;
    }
    let mut i: usize = 0;
    while i < prefix.len()
        invariant
            i <= prefix@.len() <= chars@.len(),
            forall|j: int| 0 <= j < i ==> chars@[j] == prefix@[j],
        decreases prefix@.len() - i,
    {
        if chars[i] != prefix[i] {
            assert(chars@.subrange(0, prefix@.len() as int)[i as int] != prefix@[i as int]);
            return false;
        }
        i += 1;
    }
    assert(prefix@ =~= chars@.subrange(0, prefix@.len() as int));
    true
}

/// Whether a text begins with another.
pub fn text_begins_with(text: &str, prefix: &str) -> (result: bool)
    ensures
        result == prefix@.is_prefix_of(text@),
{
    begins_with(chars_of(text).as_slice(), chars_of(prefix).as_slice())
}

/// A copy of the characters from `start` up to `end`.
pub fn slice_chars(chars: &[char], start: usize, end: usize) -> (result: Vec<char>)
    requires
        start <= end <= chars@.len(),
    ensures
        result@ == chars@.subrange(start as int, end as int),
{
    let mut result: Vec<char> = Vec::new();
    let mut i: usize = start;
    while i < end
        invariant
            start <= i <= end <= chars@.len(),
            result@ == chars@.subrange(start as int, i as int),
        decreases end - i,
    {
        result.push(chars[i]);
        i += 1;
    }
    result
}

/// Puts a text behind the characters collected so far.
pub fn push_text(chars: &mut Vec<char>, text: &str)
    ensures
        final(chars)@ == old(chars)@ + text@,
{
    let mut added = chars_of(text);
    chars.append(&mut added);
}

/// Whether `pattern` stands in `items` at position `at`.
pub open spec fn occurs_at<T>(items: Seq<T>, pattern: Seq<T>, at: int) -> bool {
    &&& 0 <= at
    &&& at + pattern.len() <= items.len()
    &&& items.subrange(at, at + pattern.len()) == pattern
}

/// Whether `at` is the leftmost position at which `pattern` stands in `items`.
pub open spec fn occurs_first_at<T>(items: Seq<T>, pattern: Seq<T>, at: int) -> bool {
    &&& occurs_at(items, pattern, at)
    &&& forall|before: int| 0 <= before < at ==> !occurs_at(items, pattern, before)
}

/// The leftmost position at which `pattern` stands in `items`.
pub open spec fn first_occurrence<T>(items: Seq<T>, pattern: Seq<T>) -> Option<int> {
    if exists|at: int| occurs_first_at(items, pattern, at) {
        Some(choose|at: int| occurs_first_at(items, pattern, at))
    } else {
        None
    }
}

/// The leftmost position is unique.
pub proof fn lemma_first_occurrence<T>(items: Seq<T>, pattern: Seq<T>, at: int)
    requires
        occurs_first_at(items, pattern, at),
    ensures
        first_occurrence(items, pattern) == Some(at),
{
    let found = choose|at: int| occurs_first_at(items, pattern, at);
    assert(occurs_first_at(items, pattern, found));
    if found < at {
        assert(!occurs_at(items, pattern, found));
    }
    if at < found {
        assert(!occurs_at(items, pattern, at));
    }
}

/// A pattern that stands nowhere has no leftmost position.
pub proof fn lemma_no_occurrence<T>(items: Seq<T>, pattern: Seq<T>)
    requires
        forall|at: int| !occurs_at(items, pattern, at),
    ensures
        first_occurrence(items, pattern) is None,
{
}

/// Where a pattern stands at all, it has a leftmost position.
pub proof fn lemma_some_occurrence<T>(items: Seq<T>, pattern: Seq<T>, at: int)
    requires
        occurs_at(items, pattern, at),
    ensures
        first_occurrence(items, pattern) is Some,
        first_occurrence(items, pattern)->0 <= at,
        occurs_first_at(items, pattern, first_occurrence(items, pattern)->0),
    decreases at,
{
    if exists|before: int| 0 <= before < at && occurs_at(items, pattern, before) {
        let before = choose|before: int| 0 <= before < at && occurs_at(items, pattern, before);
        lemma_some_occurrence(items, pattern, before);
    } else {
        assert(occurs_first_at(items, pattern, at));
        lemma_first_occurrence(items, pattern, at);
    }
}

/// Searches for the leftmost occurrence of some characters.
pub fn find_chars(chars: &[char], pattern: &[char]) -> (result: Option<usize>)
    ensures
        match result {
            Some(at) => first_occurrence(chars@, pattern@) == Some(at as int)
                && at + pattern@.len() <= chars@.len() <= usize::MAX,
            None => first_occurrence(chars@, pattern@) is None,
        },
{
    let size: usize = chars.len();
    let mut at: usize = 0;
    while at <= size && size - at >= pattern.len()
        invariant
            size == chars@.len(),
            at <= chars@.len() + 1,
            forall|before: int| 0 <= before < at ==> !occurs_at(chars@, pattern@, before),
        decreases chars@.len() + 1 - at,
    {
        let mut i: usize = 0;
        while i < pattern.len() && chars[at + i] == pattern[i]
            invariant
                size == chars@.len(),
                at + pattern@.len() <= chars@.len(),
                i <= pattern@.len(),
                forall|j: int| 0 <= j < i ==> chars@[at + j] == pattern@[j],
            decreases pattern@.len() - i,
        {
            i += 1;
        }
        if i == pattern.len() {
            proof {
                assert(chars@.subrange(at as int, at + pattern@.len()) =~= pattern@);
                lemma_first_occurrence(chars@, pattern@, at as int);
            }
            return Some(at);
        }
        assert(chars@.subrange(at as int, at + pattern@.len())[i as int] != pattern@[i as int]);
        at += 1;
    }
    None
}

/// Searches for the leftmost occurrence of some bytes.
pub fn find_bytes(bytes: &[u8], pattern: &[u8]) -> (result: Option<usize>)
    ensures
        match result {
            Some(at) => first_occurrence(bytes@, pattern@) == Some(at as int)
                && at + pattern@.len() <= bytes@.len() <= usize::MAX,
            None => first_occurrence(bytes@, pattern@) is None,
        },
{
    let size: usize = bytes.len();
    let mut at: usize = 0;
    while at <= size && size - at >= pattern.len()
        invariant
            size == bytes@.len(),
            at <= bytes@.len() + 1,
            forall|before: int| 0 <= before < at ==> !occurs_at(bytes@, pattern@, before),
        decreases bytes@.len() + 1 - at,
    {
        let mut i: usize = 0;
        while i < pattern.len() && bytes[at + i] == pattern[i]
            invariant
                size == bytes@.len(),
                at + pattern@.len() <= bytes@.len(),
                i <= pattern@.len(),
                forall|j: int| 0 <= j < i ==> bytes@[at + j] == pattern@[j],
            decreases pattern@.len() - i,
        {
            i += 1;
        }
        if i == pattern.len() {
            proof {
                assert(bytes@.subrange(at as int, at + pattern@.len()) =~= pattern@);
                lemma_first_occurrence(bytes@, pattern@, at as int);
            }
            return Some(at);
        }
        assert(bytes@.subrange(at as int, at + pattern@.len())[i as int] != pattern@[i as int]);
        at += 1;
    }
    None
}

/// Whether a character is white space by the Unicode property `White_Space`.
pub open spec fn is_white(character: char) -> bool {
    ||| '\u{9}' <= character <= '\u{d}'
    ||| character == '\u{20}'
    ||| character == '\u{85}'
    ||| character == '\u{a0}'
    ||| character == '\u{1680}'
    ||| '\u{2000}' <= character <= '\u{200a}'
    ||| character == '\u{2028}'
    ||| character == '\u{2029}'
    ||| character == '\u{202f}'
    ||| character == '\u{205f}'
    ||| character == '\u{3000}'
}

/// Whether a character is white space.
pub fn white(character: char) -> (result: bool)
    ensures
        result == is_white(character),
{
    ('\u{9}' <= character && character <= '\u{d}') || character == '\u{20}' || character
        == '\u{85}' || character == '\u{a0}' || character == '\u{1680}' || ('\u{2000}' <= character
        && character <= '\u{200a}') || character == '\u{2028}' || character == '\u{2029}'
        || character == '\u{202f}' || character == '\u{205f}' || character == '\u{3000}'
}

/// A text without the white space at its start.
pub open spec fn trimmed_start(text: Seq<char>) -> Seq<char>
    decreases text.len(),
{
    if text.len() > 0 && is_white(text.first()) {
        trimmed_start(text.drop_first())
    } else {
        text
    }
}

/// A text without the white space at its end.
pub open spec fn trimmed_end(text: Seq<char>) -> Seq<char>
    decreases text.len(),
{
    if text.len() > 0 && is_white(text.last()) {
        trimmed_end(text.drop_last())
    } else {
        text
    }
}

/// A text without the white space around it.
pub open spec fn trimmed(text: Seq<char>) -> Seq<char> {
    trimmed_end(trimmed_start(text))
}

/// Trimming does not lengthen a text and leaves no white space at its start.
pub proof fn lemma_trimmed_start_length(text: Seq<char>)
    ensures
        trimmed_start(text).len() <= text.len(),
        trimmed_start(text).len() > 0 ==> !is_white(trimmed_start(text).first()),
    decreases text.len(),
{
    if text.len() > 0 && is_white(text.first()) {
        lemma_trimmed_start_length(text.drop_first());
    }
}

/// The position of the first character that is not white space from `start` on.
pub fn skip_white(chars: &[char], start: usize) -> (result: usize)
    requires
        start <= chars@.len(),
    ensures
        start <= result <= chars@.len(),
        trimmed_start(chars@.skip(start as int)) == chars@.skip(result as int),
        result < chars@.len() ==> !is_white(chars@[result as int]),
{
    let mut i: usize = start;
    while i < chars.len() && white(chars[i])
        invariant
            start <= i <= chars@.len(),
            trimmed_start(chars@.skip(start as int)) == trimmed_start(chars@.skip(i as int)),
        decreases chars@.len() - i,
    {
        assert(chars@.skip(i as int).drop_first() =~= chars@.skip(i + 1));
        i += 1;
    }
    i
}

/// The text without the white space around it.
pub fn trim(chars: &[char]) -> (result: Vec<char>)
    ensures
        result@ == trimmed(chars@),
{
    let start: usize = skip_white(chars, 0);
    assert(chars@.skip(0) =~= chars@);
    let mut end: usize = chars.len();
    assert(chars@.skip(start as int) =~= chars@.subrange(start as int, end as int));
    while start < end && white(chars[end - 1])
        invariant
            start <= end <= chars@.len(),
            trimmed(chars@) == trimmed_end(chars@.subrange(start as int, end as int)),
        decreases end,
    {
        assert(chars@.subrange(start as int, end as int).drop_last() =~= chars@.subrange(
            start as int,
            end - 1,
        ));
        end -= 1;
    }
    slice_chars(chars, start, end)
}

/// The number of characters before the first white space.
pub open spec fn word_length(text: Seq<char>) -> nat
    decreases text.len(),
{
    if text.len() > 0 && !is_white(text.first()) {
        1 + word_length(text.drop_first())
    } else {
        0
    }
}

/// A word fits in its text, and a text that begins with a character of a word begins with a word.
pub proof fn lemma_word_length(text: Seq<char>)
    ensures
        word_length(text) <= text.len(),
        text.len() > 0 && !is_white(text.first()) ==> word_length(text) > 0,
    decreases text.len(),
{
    if text.len() > 0 && !is_white(text.first()) {
        lemma_word_length(text.drop_first());
    }
}

/// The longest runs of characters that hold no white space.
pub open spec fn words(text: Seq<char>) -> Seq<Seq<char>>
    decreases text.len(),
{
    let rest = trimmed_start(text);
    if rest.len() == 0 {
        Seq::empty()
    } else {
        proof {
            lemma_trimmed_start_length(text);
            lemma_word_length(rest);
        }
        seq![rest.take(word_length(rest) as int)] + words(rest.skip(word_length(rest) as int))
    }
}

/// The views of some character vectors.
pub open spec fn views(parts: Seq<Vec<char>>) -> Seq<Seq<char>> {
    parts.map_values(|part: Vec<char>| part@)
}

/// Splits a text at white space.
pub fn split_words(chars: &[char]) -> (result: Vec<Vec<char>>)
    ensures
        views(result@) == words(chars@),
{
    let mut result: Vec<Vec<char>> = Vec::new();
    let mut at: usize = skip_white(chars, 0);
    proof {
        assert(chars@.skip(0) =~= chars@);
        lemma_trimmed_idempotent(chars@);
        lemma_words_trimmed(chars@);
        assert(views(result@) + words(chars@.skip(at as int)) =~= words(chars@));
    }
    while at < chars.len()
        invariant
            at <= chars@.len(),
            at < chars@.len() ==> !is_white(chars@[at as int]),
            views(result@) + words(chars@.skip(at as int)) == words(chars@),
        decreases chars@.len() - at,
    {
        let ghost rest = chars@.skip(at as int);
        let mut end: usize = at;
        assert(chars@.skip(end as int) =~= rest);
        while end < chars.len() && !white(chars[end])
            invariant
                at <= end <= chars@.len(),
                rest == chars@.skip(at as int),
                word_length(rest) == end - at + word_length(chars@.skip(end as int)),
            decreases chars@.len() - end,
        {
            assert(chars@.skip(end as int).drop_first() =~= chars@.skip(end + 1));
            end += 1;
        }
        proof {
            assert(word_length(chars@.skip(end as int)) == 0);
            lemma_word_length(rest);
            assert(trimmed_start(rest) == rest);
            assert(chars@.subrange(at as int, end as int) =~= rest.take(word_length(rest) as int));
            assert(rest.skip(word_length(rest) as int) =~= chars@.skip(end as int));
        }
        let word = slice_chars(chars, at, end);
        let ghost before = result@;
        result.push(word);
        let next: usize = skip_white(chars, end);
        proof {
            lemma_words_trimmed(chars@.skip(end as int));
            assert(views(result@) =~= views(before).push(word@));
            assert(views(result@) + words(chars@.skip(next as int)) =~= views(before) + words(rest));
        }
        at = next;
    }
    proof {
        assert(chars@.skip(at as int) =~= Seq::<char>::empty());
        assert(words(Seq::<char>::empty()) =~= Seq::<Seq<char>>::empty());
        assert(views(result@) =~= words(chars@));
    }
    result
}

proof fn lemma_trimmed_idempotent(text: Seq<char>)
    ensures
        trimmed_start(trimmed_start(text)) == trimmed_start(text),
{
    lemma_trimmed_start_length(text);
}

/// White space at the start of a text adds no word.
pub proof fn lemma_words_trimmed(text: Seq<char>)
    ensures
        words(trimmed_start(text)) == words(text),
{
    lemma_trimmed_idempotent(text);
}

/// Where a leftmost position is given, the pattern stands there.
pub proof fn lemma_first_occurrence_bounds<T>(items: Seq<T>, pattern: Seq<T>)
    ensures
        first_occurrence(items, pattern) matches Some(at) ==> occurs_first_at(items, pattern, at),
{
}

/// The pieces of a text between the occurrences of a separator, taken from the left.
pub open spec fn pieces(text: Seq<char>, separator: Seq<char>) -> Seq<Seq<char>>
    decreases text.len(),
{
    match first_occurrence(text, separator) {
        Some(at) => if separator.len() > 0 {
            proof {
                lemma_first_occurrence_bounds(text, separator);
            }
            seq![text.take(at)] + pieces(text.skip(at + separator.len()), separator)
        } else {
            seq![text]
        },
        None => seq![text],
    }
}

/// Splits a text at each occurrence of a separator.
pub fn split_pieces(chars: &[char], separator: &[char]) -> (result: Vec<Vec<char>>)
    requires
        separator@.len() > 0,
    ensures
        views(result@) == pieces(chars@, separator@),
{
    let mut result: Vec<Vec<char>> = Vec::new();
    let mut rest: Vec<char> = slice_chars(chars, 0, chars.len());
    proof {
        assert(rest@ =~= chars@);
        assert(views(result@) + pieces(rest@, separator@) =~= pieces(chars@, separator@));
    }
    loop
        invariant
            separator@.len() > 0,
            views(result@) + pieces(rest@, separator@) == pieces(chars@, separator@),
        ensures
            views(result@) == pieces(chars@, separator@),
        decreases rest@.len(),
    {
        let ghost before = result@;
        match find_chars(rest.as_slice(), separator) {
            Some(at) => {
                let piece = slice_chars(rest.as_slice(), 0, at);
                let next = slice_chars(rest.as_slice(), at + separator.len(), rest.len());
                result.push(piece);
                proof {
                    assert(piece@ =~= rest@.take(at as int));
                    assert(next@ =~= rest@.skip(at + separator@.len()));
                    assert(views(result@) =~= views(before).push(piece@));
                    assert(views(result@) + pieces(next@, separator@) =~= views(before) + pieces(
                        rest@,
                        separator@,
                    ));
                }
                rest = next;
            },
            None => {
                let ghost last = rest@;
                result.push(rest);
                proof {
                    assert(views(result@) =~= views(before).push(last));
                    assert(views(result@) =~= views(before) + pieces(last, separator@));
                }
                return result;
            },
        }
    }
}

/// A line without the carriage return at its end.
pub open spec fn without_return(line: Seq<char>) -> Seq<char> {
    if line.len() > 0 && line.last() == '\r' {
        line.drop_last()
    } else {
        line
    }
}

/// The lines of a text. A line ends with a line feed, or with a carriage return and a line feed;
/// the last one may end with the text.
pub open spec fn text_lines(text: Seq<char>) -> Seq<Seq<char>>
    decreases text.len(),
{
    if text.len() == 0 {
        Seq::empty()
    } else {
        match first_occurrence(text, seq!['\n']) {
            Some(at) => {
                proof {
                    lemma_first_occurrence_bounds(text, seq!['\n']);
                }
                seq![without_return(text.take(at))] + text_lines(text.skip(at + 1))
            },
            None => seq![text],
        }
    }
}

/// Splits a text into its lines.
pub fn split_lines(chars: &[char]) -> (result: Vec<Vec<char>>)
    ensures
        views(result@) == text_lines(chars@),
{
    let line_feed: Vec<char> = vec!['\n'];
    assert(line_feed@ =~= seq!['\n']);
    let mut result: Vec<Vec<char>> = Vec::new();
    let mut rest: Vec<char> = slice_chars(chars, 0, chars.len());
    proof {
        assert(rest@ =~= chars@);
        assert(views(result@) + text_lines(rest@) =~= text_lines(chars@));
    }
    while rest.len() > 0
        invariant
            line_feed@ == seq!['\n'],
            views(result@) + text_lines(rest@) == text_lines(chars@),
        decreases rest@.len(),
    {
        let ghost before = result@;
        match find_chars(rest.as_slice(), line_feed.as_slice()) {
            Some(at) => {
                let mut end: usize = at;
                if end > 0 && rest[end - 1] == '\r' {
                    end -= 1;
                }
                let line = slice_chars(rest.as_slice(), 0, end);
                let next = slice_chars(rest.as_slice(), at + 1, rest.len());
                result.push(line);
                proof {
                    assert(line@ =~= without_return(rest@.take(at as int)));
                    assert(next@ =~= rest@.skip(at + 1));
                    assert(views(result@) =~= views(before).push(line@));
                    assert(views(result@) + text_lines(next@) =~= views(before) + text_lines(rest@));
                }
                rest = next;
            },
            None => {
                let ghost last = rest@;
                result.push(rest);
                proof {
                    assert(views(result@) =~= views(before).push(last));
                    assert(views(result@) =~= views(before) + text_lines(last));
                }
                return result;
            },
        }
    }
    proof {
        assert(text_lines(rest@) =~= Seq::<Seq<char>>::empty());
        assert(views(result@) =~= text_lines(chars@));
    }
    result
}

/// A character in which an ASCII capital letter is made small.
pub open spec fn lower_char(character: char) -> char {
    if 'A' <= character <= 'Z' {
        (character as u32 + 32) as char
    } else {
        character
    }
}

/// A text in which ASCII capital letters are made small.
pub open spec fn lowered(text: Seq<char>) -> Seq<char> {
    text.map_values(|character: char| lower_char(character))
}

/// The character with an ASCII capital letter made small.
pub fn to_lower(character: char) -> (result: char)
    ensures
        result == lower_char(character),
{
    if 'A' <= character && character <= 'Z' {
        (character as u8 + 32) as char
    } else {
        character
    }
}

/// The text with ASCII capital letters made small.
pub fn lower_chars(chars: &[char]) -> (result: Vec<char>)
    ensures
        result@ == lowered(chars@),
{
    let mut result: Vec<char> = Vec::new();
    let mut i: usize = 0;
    while i < chars.len()
        invariant
            i <= chars@.len(),
            result@ == lowered(chars@.take(i as int)),
        decreases chars@.len() - i,
    {
        result.push(to_lower(chars[i]));
        i += 1;
        assert(result@ =~= lowered(chars@.take(i as int)));
    }
    assert(chars@.take(i as int) =~= chars@);
    result
}

/// The part before and the part behind the first colon of a line.
pub open spec fn header_field(line: Seq<char>) -> Option<(Seq<char>, Seq<char>)> {
    match first_occurrence(line, seq![':']) {
        Some(at) => Some((line.take(at), line.skip(at + 1))),
        None => None,
    }
}

/// Splits a header line at its first colon.
pub fn split_header(line: &[char]) -> (result: Option<(Vec<char>, Vec<char>)>)
    ensures
        match result {
            Some(field) => header_field(line@) == Some((field.0@, field.1@)),
            None => header_field(line@) is None,
        },
{
    let colon: Vec<char> = vec![':'];
    assert(colon@ =~= seq![':']);
    match find_chars(line, colon.as_slice()) {
        Some(at) => {
            let name = slice_chars(line, 0, at);
            let value = slice_chars(line, at + 1, line.len());
            proof {
                assert(name@ =~= line@.take(at as int));
                assert(value@ =~= line@.skip(at + 1));
            }
            Some((name, value))
        },
        None => None,
    }
}

/// A pattern that stands behind a text without its first character stands there first.
pub proof fn lemma_occurs_behind(piece: Seq<char>, pattern: Seq<char>, rest: Seq<char>)
    requires
        pattern.len() > 0,
        !piece.contains(pattern[0]),
    ensures
        first_occurrence(piece + pattern + rest, pattern) == Some(piece.len() as int),
{
    let text = piece + pattern + rest;
    let at = piece.len() as int;
    assert(text.subrange(at, at + pattern.len()) =~= pattern);
    assert forall|before: int| 0 <= before < at implies !occurs_at(text, pattern, before) by {
        if occurs_at(text, pattern, before) {
            assert(text.subrange(before, before + pattern.len())[0] == text[before]);
            assert(piece[before] == pattern[0]);
        }
    }
    lemma_first_occurrence(text, pattern, at);
}

/// A separator that stands behind a piece of a text ends it.
pub proof fn lemma_pieces_step(piece: Seq<char>, separator: Seq<char>, rest: Seq<char>)
    requires
        separator.len() > 0,
        !piece.contains(separator[0]),
    ensures
        pieces(piece + separator + rest, separator) == seq![piece] + pieces(rest, separator),
{
    let text = piece + separator + rest;
    let at = piece.len() as int;
    lemma_occurs_behind(piece, separator, rest);
    assert(text.take(at) =~= piece);
    assert(text.skip(at + separator.len()) =~= rest);
}

/// Whether a text is one word.
pub open spec fn is_word(text: Seq<char>) -> bool {
    &&& text.len() > 0
    &&& forall|i: int| 0 <= i < text.len() ==> !is_white(#[trigger] text[i])
}

proof fn lemma_word_length_of(word: Seq<char>, rest: Seq<char>)
    requires
        forall|i: int| 0 <= i < word.len() ==> !is_white(#[trigger] word[i]),
        rest.len() > 0 ==> is_white(rest[0]),
    ensures
        word_length(word + rest) == word.len(),
    decreases word.len(),
{
    if word.len() > 0 {
        assert((word + rest).drop_first() =~= word.drop_first() + rest);
        assert forall|i: int| 0 <= i < word.drop_first().len() implies !is_white(
            #[trigger] word.drop_first()[i],
        ) by {
            assert(!is_white(word[i + 1]));
        }
        lemma_word_length_of(word.drop_first(), rest);
        assert(!is_white(word[0]));
    } else {
        assert(word + rest =~= rest);
    }
}

/// A word and one space in front of a text are one word more.
pub proof fn lemma_words_step(word: Seq<char>, rest: Seq<char>)
    requires
        is_word(word),
    ensures
        words(word + seq![' '] + rest) == seq![word] + words(rest),
{
    let behind = seq![' '] + rest;
    let text = word + behind;
    assert(word + seq![' '] + rest =~= text);
    assert(!is_white(word[0]));
    lemma_word_length_of(word, behind);
    assert(trimmed_start(text) == text);
    assert(text.take(word.len() as int) =~= word);
    assert(text.skip(word.len() as int) =~= behind);
    assert(behind.drop_first() =~= rest);
    assert(trimmed_start(behind) == trimmed_start(rest));
    lemma_words_trimmed(behind);
    lemma_words_trimmed(rest);
}

proof fn lemma_word_length_front(word: Seq<char>, rest: Seq<char>)
    requires
        forall|i: int| 0 <= i < word.len() ==> !is_white(#[trigger] word[i]),
    ensures
        word_length(word + rest) == word.len() + word_length(rest),
    decreases word.len(),
{
    if word.len() > 0 {
        assert((word + rest).drop_first() =~= word.drop_first() + rest);
        assert forall|i: int| 0 <= i < word.drop_first().len() implies !is_white(
            #[trigger] word.drop_first()[i],
        ) by {
            assert(!is_white(word[i + 1]));
        }
        lemma_word_length_front(word.drop_first(), rest);
        assert(!is_white(word[0]));
    } else {
        assert(word + rest =~= rest);
    }
}

/// A word in front of a text makes one word with the characters before its first white space.
pub proof fn lemma_words_front(word: Seq<char>, rest: Seq<char>)
    requires
        is_word(word),
    ensures
        words(word + rest) == seq![word + rest.take(word_length(rest) as int)] + words(
            rest.skip(word_length(rest) as int),
        ),
{
    let text = word + rest;
    assert(!is_white(word[0]));
    lemma_word_length(rest);
    lemma_word_length_front(word, rest);
    assert(trimmed_start(text) == text);
    assert(text.take(word_length(text) as int) =~= word + rest.take(word_length(rest) as int));
    assert(text.skip(word_length(text) as int) =~= rest.skip(word_length(rest) as int));
}

/// What is in front of a text without the first character of a pattern moves the first occurrence of
/// the pattern back, and nothing else.
pub proof fn lemma_first_occurrence_front<T>(front: Seq<T>, rest: Seq<T>, pattern: Seq<T>)
    requires
        pattern.len() > 0,
        !front.contains(pattern[0]),
    ensures
        first_occurrence(front + rest, pattern) == match first_occurrence(rest, pattern) {
            Some(at) => Some(front.len() + at),
            None => None,
        },
{
    let whole = front + rest;
    let size = front.len() as int;
    assert forall|at: int| occurs_at(whole, pattern, at) implies at >= size && occurs_at(
        rest,
        pattern,
        at - size,
    ) by {
        assert(whole.subrange(at, at + pattern.len())[0] == whole[at]);
        if at < size {
            assert(front[at] == pattern[0]);
        }
        assert(rest.subrange(at - size, at - size + pattern.len()) =~= whole.subrange(
            at,
            at + pattern.len(),
        ));
    }
    assert forall|at: int| occurs_at(rest, pattern, at) implies occurs_at(
        whole,
        pattern,
        at + size,
    ) by {
        assert(whole.subrange(at + size, at + size + pattern.len()) =~= rest.subrange(
            at,
            at + pattern.len(),
        ));
    }
    if exists|at: int| occurs_at(rest, pattern, at) {
        let at = choose|at: int| occurs_at(rest, pattern, at);
        lemma_some_occurrence(rest, pattern, at);
        let first = first_occurrence(rest, pattern)->0;
        assert(occurs_first_at(whole, pattern, first + size));
        lemma_first_occurrence(whole, pattern, first + size);
    } else {
        lemma_no_occurrence(rest, pattern);
        lemma_no_occurrence(whole, pattern);
    }
}

/// What is in front of a text without the first character of the separator goes to its first piece.
pub proof fn lemma_pieces_front(front: Seq<char>, rest: Seq<char>, separator: Seq<char>)
    requires
        separator.len() > 0,
        !front.contains(separator[0]),
    ensures
        pieces(rest, separator).len() > 0,
        pieces(front + rest, separator) == seq![front + pieces(rest, separator)[0]] + pieces(
            rest,
            separator,
        ).drop_first(),
{
    let whole = front + rest;
    lemma_first_occurrence_front(front, rest, separator);
    lemma_first_occurrence_bounds(rest, separator);
    match first_occurrence(rest, separator) {
        Some(at) => {
            assert(whole.take(front.len() + at) =~= front + rest.take(at));
            assert(whole.skip(front.len() + at + separator.len()) =~= rest.skip(
                at + separator.len(),
            ));
            assert(pieces(rest, separator).drop_first() =~= pieces(
                rest.skip(at + separator.len()),
                separator,
            ));
        },
        None => {
            assert(pieces(rest, separator).drop_first() =~= Seq::empty());
        },
    }
}

/// A word is a text of one word.
pub proof fn lemma_words_last(word: Seq<char>)
    requires
        is_word(word),
    ensures
        words(word) == seq![word],
{
    let none = Seq::<char>::empty();
    assert(word + none =~= word);
    assert(!is_white(word[0]));
    lemma_word_length_of(word, none);
    assert(trimmed_start(word) == word);
    assert(word.take(word.len() as int) =~= word);
    assert(word.skip(word.len() as int) =~= none);
    assert(words(none) =~= Seq::empty());
}

/// A space in front of a word is trimmed away.
pub proof fn lemma_trimmed_word(word: Seq<char>)
    requires
        is_word(word),
    ensures
        trimmed(seq![' '] + word) == word,
{
    assert((seq![' '] + word).drop_first() =~= word);
    assert(!is_white(word[0]));
    assert(!is_white(word[word.len() - 1]));
    assert(trimmed_start(word) == word);
    assert(trimmed_end(word) == word);
}

/// Some texts with a separator between them.
pub open spec fn joined(parts: Seq<Seq<char>>, separator: Seq<char>) -> Seq<char>
    decreases parts.len(),
{
    if parts.len() == 0 {
        Seq::empty()
    } else if parts.len() == 1 {
        parts[0]
    } else {
        parts[0] + separator + joined(parts.drop_first(), separator)
    }
}

/// The views of some strings.
pub open spec fn string_views(strings: Seq<String>) -> Seq<Seq<char>> {
    strings.map_values(|string: String| string@)
}

/// Puts a separator between some texts.
pub fn join_texts(parts: &[String], separator: &str) -> (result: String)
    ensures
        result@ == joined(string_views(parts@), separator@),
{
    let ghost all = string_views(parts@);
    let mut text: Vec<char> = Vec::new();
    let mut i: usize = 0;
    assert(all.skip(0) =~= all);
    while i < parts.len()
        invariant
            i <= parts@.len(),
            all == string_views(parts@),
            i < parts@.len() ==> text@ + (if i > 0 {
                separator@
            } else {
                Seq::empty()
            }) + joined(all.skip(i as int), separator@) == joined(all, separator@),
            i == parts@.len() ==> text@ == joined(all, separator@),
        decreases parts@.len() - i,
    {
        let ghost rest = all.skip(i as int);
        if i > 0 {
            push_text(&mut text, separator);
        }
        push_text(&mut text, parts[i].as_str());
        proof {
            assert(rest[0] == parts@[i as int]@);
            assert(rest.drop_first() =~= all.skip(i + 1));
            if i + 1 < parts@.len() {
                assert(joined(rest, separator@) == rest[0] + separator@ + joined(
                    rest.drop_first(),
                    separator@,
                ));
                assert(text@ + separator@ + joined(all.skip(i + 1), separator@) =~= joined(
                    all,
                    separator@,
                ));
            } else {
                assert(joined(rest, separator@) == rest[0]);
                assert(text@ =~= joined(all, separator@));
            }
        }
        i += 1;
    }
    text_of(text.as_slice())
}

/// Copies some texts.
pub fn copy_texts(texts: &[String]) -> (result: Vec<String>)
    ensures
        string_views(result@) == string_views(texts@),
{
    let mut copies: Vec<String> = Vec::new();
    let mut i: usize = 0;
    while i < texts.len()
        invariant
            i <= texts@.len(),
            copies@.len() == i,
            forall|j: int| 0 <= j < i ==> (#[trigger] copies@[j])@ == texts@[j]@,
        decreases texts@.len() - i,
    {
        copies.push(texts[i].clone());
        i += 1;
    }
    assert(string_views(copies@) =~= string_views(texts@));
    copies
}

/// White space is what the Unicode property `White_Space` names, by the codes of its characters.
pub proof fn white_space_is_that_of_unicode(character: char, found: bool)
    requires
        call_ensures(white, (character,), found),
    ensures
        ({
            let code = character as int;
            found <==> code == 0x9 || code == 0xa || code == 0xb || code == 0xc || code == 0xd
                || code == 0x20 || code == 0x85 || code == 0xa0 || code == 0x1680 || 0x2000 <= code
                <= 0x200a || code == 0x2028 || code == 0x2029 || code == 0x202f || code == 0x205f
                || code == 0x3000
        }),
{
}

/// Whether a text is made of white space.
pub open spec fn all_white(text: Seq<char>) -> bool {
    forall|i: int| 0 <= i < text.len() ==> is_white(#[trigger] text[i])
}

proof fn lemma_trimmed_start_of(gap: Seq<char>, rest: Seq<char>)
    requires
        all_white(gap),
        rest.len() > 0 ==> !is_white(rest[0]),
    ensures
        trimmed_start(gap + rest) == rest,
    decreases gap.len(),
{
    if gap.len() > 0 {
        assert(is_white(gap[0]));
        assert((gap + rest).drop_first() =~= gap.drop_first() + rest);
        assert forall|i: int| 0 <= i < gap.drop_first().len() implies is_white(
            #[trigger] gap.drop_first()[i],
        ) by {
            assert(is_white(gap[i + 1]));
        }
        lemma_trimmed_start_of(gap.drop_first(), rest);
    } else {
        assert(gap + rest =~= rest);
    }
}

proof fn lemma_trimmed_end_of(rest: Seq<char>, gap: Seq<char>)
    requires
        all_white(gap),
        rest.len() > 0 ==> !is_white(rest.last()),
    ensures
        trimmed_end(rest + gap) == rest,
    decreases gap.len(),
{
    if gap.len() > 0 {
        assert(is_white(gap[gap.len() - 1]));
        assert((rest + gap).last() == gap.last());
        assert((rest + gap).drop_last() =~= rest + gap.drop_last());
        lemma_trimmed_end_of(rest, gap.drop_last());
    } else {
        assert(rest + gap =~= rest);
    }
}

/// White space around a text that neither begins nor ends with it is trimmed away.
pub proof fn lemma_trimmed_core(before: Seq<char>, core: Seq<char>, behind: Seq<char>)
    requires
        all_white(before),
        all_white(behind),
        core.len() > 0 ==> !is_white(core[0]) && !is_white(core.last()),
    ensures
        trimmed(before + core + behind) == core,
{
    let text = before + core + behind;
    if core.len() > 0 {
        assert(text =~= before + (core + behind));
        lemma_trimmed_start_of(before, core + behind);
        lemma_trimmed_end_of(core, behind);
    } else {
        let gap = before + behind;
        assert forall|i: int| 0 <= i < gap.len() implies is_white(#[trigger] gap[i]) by {
            if i < before.len() {
                assert(is_white(before[i]));
            } else {
                assert(is_white(behind[i - before.len()]));
            }
        }
        assert(text =~= gap + core);
        lemma_trimmed_start_of(gap, core);
    }
}

/// Trimming takes the white space around a text away, and nothing else.
pub proof fn trimming_takes_white_space_alone(
    before: Seq<char>,
    core: Seq<char>,
    behind: Seq<char>,
    chars: &[char],
    result: Vec<char>,
)
    requires
        call_ensures(trim, (chars,), result),
        chars@ == before + core + behind,
        all_white(before),
        all_white(behind),
        core.len() > 0 ==> !is_white(core[0]) && !is_white(core.last()),
    ensures
        result@ == core,
{
    lemma_trimmed_core(before, core, behind);
}

/// A text splits into the words between its white space, whatever white space that is and however
/// much of it.
pub proof fn words_are_split_at_white_space(
    gap: Seq<char>,
    word: Seq<char>,
    rest: Seq<char>,
    chars: &[char],
    others: &[char],
    result: Vec<Vec<char>>,
    other_result: Vec<Vec<char>>,
)
    requires
        call_ensures(split_words, (chars,), result),
        call_ensures(split_words, (others,), other_result),
        all_white(gap),
        is_word(word),
        rest.len() > 0 ==> is_white(rest[0]),
        chars@ == gap + word + rest,
        others@ == rest,
    ensures
        views(result@) == seq![word] + views(other_result@),
{
    let text = word + rest;
    assert(chars@ =~= gap + text);
    assert(!is_white(word[0]));
    lemma_trimmed_start_of(gap, text);
    lemma_words_trimmed(chars@);
    lemma_word_length_of(word, rest);
    assert(trimmed_start(text) == text);
    assert(text.take(word.len() as int) =~= word);
    assert(text.skip(word.len() as int) =~= rest);
}

/// White space alone holds no word.
pub proof fn white_space_holds_no_word(chars: &[char], result: Vec<Vec<char>>)
    requires
        call_ensures(split_words, (chars,), result),
        all_white(chars@),
    ensures
        result@.len() == 0,
{
    let none = Seq::<char>::empty();
    assert(chars@ + none =~= chars@);
    lemma_trimmed_start_of(chars@, none);
    assert(views(result@).len() == result@.len());
}

/// The pieces of a text, with the separator between them, are the text, and none of them holds the
/// separator.
pub proof fn pieces_join_to_the_text(text: Seq<char>, separator: Seq<char>)
    requires
        separator.len() > 0,
    ensures
        pieces(text, separator).len() > 0,
        joined(pieces(text, separator), separator) == text,
        forall|i: int, at: int|
            0 <= i < pieces(text, separator).len() ==> !#[trigger] occurs_at(
                pieces(text, separator)[i],
                separator,
                at,
            ),
    decreases text.len(),
{
    let all = pieces(text, separator);
    lemma_first_occurrence_bounds(text, separator);
    match first_occurrence(text, separator) {
        Some(at) => {
            let first = text.take(at);
            let rest = text.skip(at + separator.len());
            pieces_join_to_the_text(rest, separator);
            let others = pieces(rest, separator);
            assert(all =~= seq![first] + others);
            assert(all.drop_first() =~= others);
            assert(text.subrange(at, at + separator.len()) =~= separator);
            assert(joined(all, separator) =~= text);
            assert forall|i: int, position: int| 0 <= i < all.len() implies !#[trigger] occurs_at(
                all[i],
                separator,
                position,
            ) by {
                if i == 0 {
                    if occurs_at(first, separator, position) {
                        assert(text.subrange(position, position + separator.len())
                            =~= first.subrange(position, position + separator.len()));
                        assert(occurs_at(text, separator, position));
                    }
                } else {
                    assert(all[i] == others[i - 1]);
                }
            }
        },
        None => {
            assert forall|position: int| !occurs_at(text, separator, position) by {
                if occurs_at(text, separator, position) {
                    lemma_some_occurrence(text, separator, position);
                }
            }
        },
    }
}

/// A line of a text ends with a line feed, which a carriage return may stand before; neither is part
/// of the line, and the next line begins behind them.
pub proof fn lines_end_with_a_line_feed(
    line: Seq<char>,
    rest: Seq<char>,
    chars: &[char],
    others: &[char],
    result: Vec<Vec<char>>,
    other_result: Vec<Vec<char>>,
)
    requires
        call_ensures(split_lines, (chars,), result),
        call_ensures(split_lines, (others,), other_result),
        !line.contains('\n'),
        line.len() > 0 ==> line.last() != '\r',
        chars@ == line + seq!['\n'] + rest || chars@ == line + seq!['\r', '\n'] + rest,
        others@ == rest,
    ensures
        views(result@) == seq![line] + views(other_result@),
{
    lemma_lines_step(line, rest);
}

/// A line without its end in front of a text is one line more.
pub proof fn lemma_lines_step(line: Seq<char>, rest: Seq<char>)
    requires
        !line.contains('\n'),
        line.len() > 0 ==> line.last() != '\r',
    ensures
        text_lines(line + seq!['\n'] + rest) == seq![line] + text_lines(rest),
        text_lines(line + seq!['\r', '\n'] + rest) == seq![line] + text_lines(rest),
{
    let feed = seq!['\n'];
    lemma_occurs_behind(line, feed, rest);
    let plain = line + feed + rest;
    assert(plain.take(line.len() as int) =~= line);
    assert(plain.skip(line.len() as int + 1) =~= rest);
    let longer = line.push('\r');
    assert forall|i: int| 0 <= i < longer.len() implies #[trigger] longer[i] != '\n' by {
        if i < line.len() {
            assert(line.contains(line[i]));
        }
    }
    lemma_occurs_behind(longer, feed, rest);
    let returned = line + seq!['\r', '\n'] + rest;
    assert(returned =~= longer + feed + rest);
    assert(returned.take(longer.len() as int) =~= longer);
    assert(returned.skip(longer.len() as int + 1) =~= rest);
    assert(longer.drop_last() =~= line);
}

/// A text without a line feed is one line as it stands, and an empty text has no line.
pub proof fn lemma_last_line(line: Seq<char>)
    requires
        !line.contains('\n'),
    ensures
        line.len() > 0 ==> text_lines(line) == seq![line],
        line.len() == 0 ==> text_lines(line) == Seq::<Seq<char>>::empty(),
{
    assert forall|at: int| !occurs_at(line, seq!['\n'], at) by {
        if occurs_at(line, seq!['\n'], at) {
            assert(line.subrange(at, at + 1)[0] == line[at]);
        }
    }
    lemma_no_occurrence(line, seq!['\n']);
}

/// The last line of a text need not end, and an empty text has no line.
pub proof fn last_line_ends_with_the_text(chars: &[char], result: Vec<Vec<char>>)
    requires
        call_ensures(split_lines, (chars,), result),
        !chars@.contains('\n'),
    ensures
        chars@.len() > 0 ==> views(result@) == seq![chars@],
        chars@.len() == 0 ==> result@.len() == 0,
{
    lemma_last_line(chars@);
    assert(views(result@).len() == result@.len());
}

/// A capital letter of the Latin alphabet becomes the small one, and no other character changes.
pub proof fn lowering_changes_capitals_alone(
    character: char,
    lower: char,
    chars: &[char],
    result: Vec<char>,
    at: int,
)
    requires
        call_ensures(to_lower, (character,), lower),
        call_ensures(lower_chars, (chars,), result),
        0 <= at < chars@.len(),
        chars@[at] == character,
    ensures
        0x41 <= character as int <= 0x5a ==> lower as int == character as int + 0x20,
        !(0x41 <= character as int <= 0x5a) ==> lower == character,
        result@.len() == chars@.len(),
        result@[at] == lower,
{
}

/// A header line is split at its first colon, and a line without one is no header.
pub proof fn header_is_split_at_its_first_colon(
    name: Seq<char>,
    value: Seq<char>,
    line: &[char],
    field: Option<(Vec<char>, Vec<char>)>,
)
    requires
        call_ensures(split_header, (line,), field),
        !name.contains(':'),
    ensures
        line@ == name + seq![':'] + value ==> (field matches Some(parts) && parts.0@ == name
            && parts.1@ == value),
        line@ == name ==> field is None,
{
    lemma_header(name, value);
}

/// What stands before and behind the first colon of a line.
pub proof fn lemma_header(name: Seq<char>, value: Seq<char>)
    requires
        !name.contains(':'),
    ensures
        header_field(name + seq![':'] + value) == Some((name, value)),
        header_field(name) is None,
{
    let line = name + seq![':'] + value;
    lemma_occurs_behind(name, seq![':'], value);
    assert(line.take(name.len() as int) =~= name);
    assert(line.skip(name.len() as int + 1) =~= value);
    assert forall|at: int| !occurs_at(name, seq![':'], at) by {
        if occurs_at(name, seq![':'], at) {
            assert(name.subrange(at, at + 1)[0] == name[at]);
        }
    }
    lemma_no_occurrence(name, seq![':']);
}

/// Some characters, or some bytes, are found at the first place where all of them stand one after
/// the other, and only there.
pub proof fn pattern_is_found_at_its_first_place(
    chars: &[char],
    pattern: &[char],
    found: Option<usize>,
    bytes: &[u8],
    byte_pattern: &[u8],
    byte_found: Option<usize>,
)
    requires
        call_ensures(find_chars, (chars, pattern), found),
        call_ensures(find_bytes, (bytes, byte_pattern), byte_found),
    ensures
        found is None <==> forall|at: int|
            0 <= at <= chars@.len() - pattern@.len() ==> #[trigger] chars@.subrange(
                at,
                at + pattern@.len(),
            ) != pattern@,
        found matches Some(at) ==> at + pattern@.len() <= chars@.len() && chars@.subrange(
            at as int,
            at + pattern@.len(),
        ) == pattern@ && forall|before: int|
            0 <= before < at ==> #[trigger] chars@.subrange(before, before + pattern@.len())
                != pattern@,
        byte_found is None <==> forall|at: int|
            0 <= at <= bytes@.len() - byte_pattern@.len() ==> #[trigger] bytes@.subrange(
                at,
                at + byte_pattern@.len(),
            ) != byte_pattern@,
        byte_found matches Some(at) ==> at + byte_pattern@.len() <= bytes@.len() && bytes@.subrange(
            at as int,
            at + byte_pattern@.len(),
        ) == byte_pattern@ && forall|before: int|
            0 <= before < at ==> #[trigger] bytes@.subrange(before, before + byte_pattern@.len())
                != byte_pattern@,
{
    lemma_found(chars@, pattern@);
    lemma_found(bytes@, byte_pattern@);
}

proof fn lemma_found<T>(items: Seq<T>, pattern: Seq<T>)
    ensures
        first_occurrence(items, pattern) is None <==> forall|at: int|
            0 <= at <= items.len() - pattern.len() ==> #[trigger] items.subrange(
                at,
                at + pattern.len(),
            ) != pattern,
        first_occurrence(items, pattern) matches Some(at) ==> 0 <= at && at + pattern.len()
            <= items.len() && items.subrange(at, at + pattern.len()) == pattern && forall|
            before: int,
        |
            0 <= before < at ==> #[trigger] items.subrange(before, before + pattern.len())
                != pattern,
{
    lemma_first_occurrence_bounds(items, pattern);
    match first_occurrence(items, pattern) {
        Some(at) => {
            assert(items.subrange(at, at + pattern.len()) == pattern);
            assert forall|before: int| 0 <= before < at implies #[trigger] items.subrange(
                before,
                before + pattern.len(),
            ) != pattern by {
                assert(!occurs_at(items, pattern, before));
            }
        },
        None => {
            assert forall|at: int| 0 <= at <= items.len() - pattern.len() implies #[trigger] items.subrange(
                at,
                at + pattern.len(),
            ) != pattern by {
                if occurs_at(items, pattern, at) {
                    lemma_some_occurrence(items, pattern, at);
                }
            }
        },
    }
}

/// A text begins with another where it is that text with something behind it, and only there.
pub proof fn beginning_is_what_comes_first(
    text: &str,
    prefix: &str,
    rest: Seq<char>,
    begins: bool,
)
    requires
        call_ensures(text_begins_with, (text, prefix), begins),
    ensures
        text@ == prefix@ + rest ==> begins,
        begins ==> prefix@.len() <= text@.len() && text@ == prefix@ + text@.skip(
            prefix@.len() as int,
        ),
{
    if text@ == prefix@ + rest {
        assert(prefix@ =~= text@.subrange(0, prefix@.len() as int));
    }
    if begins {
        assert(text@ =~= prefix@ + text@.skip(prefix@.len() as int));
    }
}

/// Texts are joined with the separator between each two of them, and with nothing before the first
/// or behind the last.
pub proof fn texts_are_joined_by_their_separator(
    parts: &[String],
    separator: &str,
    text: String,
    first: Seq<char>,
    second: Seq<char>,
    others: Seq<Seq<char>>,
)
    requires
        call_ensures(join_texts, (parts, separator), text),
    ensures
        parts@.len() == 0 ==> text@.len() == 0,
        string_views(parts@) == seq![first] ==> text@ == first,
        string_views(parts@) == seq![first, second] + others ==> text@ == first + separator@
            + joined(seq![second] + others, separator@),
{
    if parts@.len() == 0 {
        assert(string_views(parts@) =~= Seq::empty());
    }
    if string_views(parts@) == seq![first, second] + others {
        assert((seq![first, second] + others).drop_first() =~= seq![second] + others);
    }
}

} // verus!
