//! The dates in a property list that is written in XML, before it is read: which texts stand in
//! them, and whether such a date leaves the calendar in universal time.
use vstd::prelude::*;

use crate::bytes::slice_bytes;
use crate::text::{find_bytes, first_occurrence, lemma_no_occurrence, occurs_at};

verus! {

/// What stands at the start of a property list that is not written in text.
pub open spec fn binary_start() -> Seq<u8> {
    seq![98u8, 112u8, 108u8, 105u8, 115u8, 116u8, 48u8, 48u8]
}

/// The position behind the first place of a pattern, from a position on.
pub open spec fn behind(bytes: Seq<u8>, pattern: Seq<u8>, from: int) -> Option<int>
    decreases bytes.len() + 1 - from,
{
    if from + pattern.len() > bytes.len() {
        None
    } else if occurs_at(bytes, pattern, from) {
        Some(from + pattern.len())
    } else {
        behind(bytes, pattern, from + 1)
    }
}

/// The end of a tag whose text goes on at a position: the first closing bracket that does not stand
/// between quotes.
pub open spec fn tag_end(bytes: Seq<u8>, at: int, quote: Option<u8>) -> Option<int>
    decreases bytes.len() - at,
{
    if at >= bytes.len() {
        None
    } else {
        match quote {
            Some(mark) => tag_end(
                bytes,
                at + 1,
                if bytes[at] == mark {
                    None
                } else {
                    quote
                },
            ),
            None => if bytes[at] == 62 {
                Some(at)
            } else if bytes[at] == 34 || bytes[at] == 39 {
                tag_end(bytes, at + 1, Some(bytes[at]))
            } else {
                tag_end(bytes, at + 1, None)
            },
        }
    }
}

/// The position behind a tag whose text goes on at a position.
pub open spec fn behind_tag(bytes: Seq<u8>, at: int) -> Option<int> {
    match tag_end(bytes, at, None) {
        Some(end) => Some(end + 1),
        None => None,
    }
}

/// The position of the first bracket, of either shape, that does not stand between quotes in a
/// document type whose text goes on at a position: it closes the document type or opens a list of
/// declarations.
pub open spec fn doctype_turn(bytes: Seq<u8>, at: int, quote: Option<u8>) -> Option<int>
    decreases bytes.len() - at,
{
    if at >= bytes.len() {
        None
    } else {
        match quote {
            Some(mark) => doctype_turn(
                bytes,
                at + 1,
                if bytes[at] == mark {
                    None
                } else {
                    quote
                },
            ),
            None => if bytes[at] == 62 || bytes[at] == 91 {
                Some(at)
            } else if bytes[at] == 34 || bytes[at] == 39 {
                doctype_turn(bytes, at + 1, Some(bytes[at]))
            } else {
                doctype_turn(bytes, at + 1, None)
            },
        }
    }
}

/// `<!--` and `-->`.
pub open spec fn comment_start() -> Seq<u8> {
    seq![60u8, 33u8, 45u8, 45u8]
}

pub open spec fn comment_end() -> Seq<u8> {
    seq![45u8, 45u8, 62u8]
}

/// `<![CDATA[` and `]]>`.
pub open spec fn verbatim_start() -> Seq<u8> {
    seq![60u8, 33u8, 91u8, 67u8, 68u8, 65u8, 84u8, 65u8, 91u8]
}

pub open spec fn verbatim_end() -> Seq<u8> {
    seq![93u8, 93u8, 62u8]
}

/// `<?` and `?>`.
pub open spec fn instruction_start() -> Seq<u8> {
    seq![60u8, 63u8]
}

pub open spec fn instruction_end() -> Seq<u8> {
    seq![63u8, 62u8]
}

/// `<!ENTITY`, `<!ATTLIST` and `<!NOTATION`.
pub open spec fn entity_start() -> Seq<u8> {
    seq![60u8, 33u8, 69u8, 78u8, 84u8, 73u8, 84u8, 89u8]
}

pub open spec fn attributes_start() -> Seq<u8> {
    seq![60u8, 33u8, 65u8, 84u8, 84u8, 76u8, 73u8, 83u8, 84u8]
}

pub open spec fn notation_start() -> Seq<u8> {
    seq![60u8, 33u8, 78u8, 79u8, 84u8, 65u8, 84u8, 73u8, 79u8, 78u8]
}

/// The position behind a declaration in a document type.
pub open spec fn behind_declaration(bytes: Seq<u8>, at: int) -> Option<int> {
    if occurs_at(bytes, instruction_start(), at) {
        behind(bytes, instruction_end(), at + 2)
    } else if occurs_at(bytes, comment_start(), at) {
        behind(bytes, comment_end(), at + 4)
    } else if occurs_at(bytes, entity_start(), at) {
        behind_tag(bytes, at + 8)
    } else if occurs_at(bytes, attributes_start(), at) {
        behind_tag(bytes, at + 9)
    } else if occurs_at(bytes, notation_start(), at) {
        behind_tag(bytes, at + 10)
    } else {
        behind(bytes, seq![62u8], at + 1)
    }
}

/// The position behind a document type whose list of declarations goes on at a position.
pub open spec fn behind_declarations(bytes: Seq<u8>, at: int) -> Option<int>
    decreases bytes.len() - at,
{
    if at < 0 || at >= bytes.len() {
        None
    } else if bytes[at] == 93 {
        behind(bytes, seq![62u8], at + 1)
    } else if bytes[at] == 60 {
        match behind_declaration(bytes, at) {
            Some(next) => {
                proof {
                    lemma_behind_declaration(bytes, at);
                }
                behind_declarations(bytes, next)
            },
            None => None,
        }
    } else {
        behind_declarations(bytes, at + 1)
    }
}

/// The position behind a document type.
pub open spec fn behind_doctype(bytes: Seq<u8>, at: int) -> Option<int> {
    match doctype_turn(bytes, at + 2, None) {
        Some(turn) => if bytes[turn] == 62 {
            Some(turn + 1)
        } else {
            behind_declarations(bytes, turn + 1)
        },
        None => None,
    }
}

/// The position behind the markup that begins at a position: a comment, verbatim text, a document
/// type, an instruction or a tag. There is none where the markup is not of these or has no end.
pub open spec fn behind_markup(bytes: Seq<u8>, at: int) -> Option<int> {
    if occurs_at(bytes, comment_start(), at) {
        behind(bytes, comment_end(), at + 4)
    } else if occurs_at(bytes, verbatim_start(), at) {
        behind(bytes, verbatim_end(), at + 9)
    } else if occurs_at(bytes, seq![60u8, 33u8], at) {
        if at + 2 < bytes.len() && (bytes[at + 2] == 68 || bytes[at + 2] == 100) {
            behind_doctype(bytes, at)
        } else {
            None
        }
    } else if occurs_at(bytes, instruction_start(), at) {
        if occurs_at(bytes, instruction_end(), at + 1) {
            None
        } else {
            behind(bytes, instruction_end(), at + 2)
        }
    } else {
        behind_tag(bytes, at + 1)
    }
}

proof fn lemma_behind(bytes: Seq<u8>, pattern: Seq<u8>, from: int)
    requires
        from >= 0,
    ensures
        behind(bytes, pattern, from) matches Some(next) ==> from + pattern.len() <= next
            <= bytes.len(),
    decreases bytes.len() + 1 - from,
{
    if from + pattern.len() <= bytes.len() && !occurs_at(bytes, pattern, from) {
        lemma_behind(bytes, pattern, from + 1);
    }
}

proof fn lemma_tag_end(bytes: Seq<u8>, at: int, quote: Option<u8>)
    ensures
        tag_end(bytes, at, quote) matches Some(end) ==> at <= end < bytes.len(),
    decreases bytes.len() - at,
{
    if at < bytes.len() {
        match quote {
            Some(mark) => {
                lemma_tag_end(
                    bytes,
                    at + 1,
                    if bytes[at] == mark {
                        None
                    } else {
                        quote
                    },
                );
            },
            None => {
                if bytes[at] == 34 || bytes[at] == 39 {
                    lemma_tag_end(bytes, at + 1, Some(bytes[at]));
                } else {
                    lemma_tag_end(bytes, at + 1, None);
                }
            },
        }
    }
}

proof fn lemma_doctype_turn(bytes: Seq<u8>, at: int, quote: Option<u8>)
    ensures
        doctype_turn(bytes, at, quote) matches Some(turn) ==> at <= turn < bytes.len(),
    decreases bytes.len() - at,
{
    if at < bytes.len() {
        match quote {
            Some(mark) => {
                lemma_doctype_turn(
                    bytes,
                    at + 1,
                    if bytes[at] == mark {
                        None
                    } else {
                        quote
                    },
                );
            },
            None => {
                if bytes[at] == 34 || bytes[at] == 39 {
                    lemma_doctype_turn(bytes, at + 1, Some(bytes[at]));
                } else {
                    lemma_doctype_turn(bytes, at + 1, None);
                }
            },
        }
    }
}

/// A declaration ends behind its start.
pub proof fn lemma_behind_declaration(bytes: Seq<u8>, at: int)
    requires
        at >= 0,
    ensures
        behind_declaration(bytes, at) matches Some(next) ==> at < next <= bytes.len(),
{
    lemma_behind(bytes, instruction_end(), at + 2);
    lemma_behind(bytes, comment_end(), at + 4);
    lemma_behind(bytes, seq![62u8], at + 1);
    lemma_tag_end(bytes, at + 8, None);
    lemma_tag_end(bytes, at + 9, None);
    lemma_tag_end(bytes, at + 10, None);
}

proof fn lemma_behind_declarations(bytes: Seq<u8>, at: int)
    requires
        at >= 0,
    ensures
        behind_declarations(bytes, at) matches Some(next) ==> at < next <= bytes.len(),
    decreases bytes.len() - at,
{
    if at < bytes.len() {
        lemma_behind(bytes, seq![62u8], at + 1);
        lemma_behind_declaration(bytes, at);
        if bytes[at] == 60 {
            if let Some(next) = behind_declaration(bytes, at) {
                lemma_behind_declarations(bytes, next);
            }
        } else if bytes[at] != 93 {
            lemma_behind_declarations(bytes, at + 1);
        }
    }
}

/// Markup ends behind its start.
pub proof fn lemma_behind_markup(bytes: Seq<u8>, at: int)
    requires
        at >= 0,
    ensures
        behind_markup(bytes, at) matches Some(next) ==> at < next <= bytes.len(),
{
    lemma_behind(bytes, comment_end(), at + 4);
    lemma_behind(bytes, verbatim_end(), at + 9);
    lemma_behind(bytes, instruction_end(), at + 2);
    lemma_tag_end(bytes, at + 1, None);
    lemma_doctype_turn(bytes, at + 2, None);
    if let Some(turn) = doctype_turn(bytes, at + 2, None) {
        lemma_behind_declarations(bytes, turn + 1);
    }
}


/// The end of the text that goes on at a position: the next markup or reference, or the end of all.
pub open spec fn text_end(bytes: Seq<u8>, at: int) -> int
    decreases bytes.len() - at,
{
    if at >= bytes.len() || bytes[at] == 60 || bytes[at] == 38 {
        at
    } else {
        text_end(bytes, at + 1)
    }
}

/// The end of the reference whose name goes on at a position: a semicolon before any other reference
/// or markup.
pub open spec fn reference_end(bytes: Seq<u8>, at: int) -> Option<int>
    decreases bytes.len() - at,
{
    if at >= bytes.len() || bytes[at] == 60 || bytes[at] == 38 {
        None
    } else if bytes[at] == 59 {
        Some(at)
    } else {
        reference_end(bytes, at + 1)
    }
}

/// A text ends behind its start.
pub proof fn lemma_text_end(bytes: Seq<u8>, at: int)
    requires
        at <= bytes.len(),
    ensures
        at <= text_end(bytes, at) <= bytes.len(),
        at < bytes.len() && bytes[at] != 60 && bytes[at] != 38 ==> at < text_end(bytes, at),
    decreases bytes.len() - at,
{
    if at < bytes.len() && bytes[at] != 60 && bytes[at] != 38 {
        lemma_text_end(bytes, at + 1);
    }
}

/// A reference ends behind its start.
pub proof fn lemma_reference_end(bytes: Seq<u8>, at: int)
    ensures
        reference_end(bytes, at) matches Some(end) ==> at <= end < bytes.len(),
    decreases bytes.len() - at,
{
    if at < bytes.len() && bytes[at] != 60 && bytes[at] != 38 && bytes[at] != 59 {
        lemma_reference_end(bytes, at + 1);
    }
}

/// The value of a digit to the base of ten or sixteen; the base itself for what is no digit.
pub open spec fn digit_value(byte: u8, base: nat) -> nat {
    if 48 <= byte <= 57 {
        (byte - 48) as nat
    } else if base == 16 && 97 <= byte <= 102 {
        (byte - 87) as nat
    } else if base == 16 && 65 <= byte <= 70 {
        (byte - 55) as nat
    } else {
        base
    }
}

/// The number that some digits stand for, up to 128, which also stands for what is no number.
pub open spec fn small_number(digits: Seq<u8>, base: nat) -> nat
    decreases digits.len(),
{
    if digits.len() == 0 {
        0
    } else {
        let front = small_number(digits.drop_last(), base);
        let digit = digit_value(digits.last(), base);
        if front >= 128 || digit >= base || front * base + digit >= 128 {
            128
        } else {
            front * base + digit
        }
    }
}

/// The number of the character that a numeric reference refers to, where it is an ASCII character
/// other than zero.
pub open spec fn referred_number(name: Seq<u8>) -> Option<u8> {
    let number = if name.len() > 1 && name[1] == 120 {
        small_number(name.skip(2), 16)
    } else {
        small_number(name.skip(1), 10)
    };
    if 0 < number < 128 {
        Some(number as u8)
    } else {
        None
    }
}

/// What a reference refers to: an ASCII character by its number or by one of five names, some other
/// character, for which two bytes stand that are no text, or nothing.
pub open spec fn reference_text(name: Seq<u8>) -> Seq<u8> {
    if name.len() > 0 && name[0] == 35 {
        match referred_number(name) {
            Some(byte) => seq![byte],
            None => seq![255u8, 255u8],
        }
    } else if name == seq![108u8, 116u8] {
        seq![60u8]
    } else if name == seq![103u8, 116u8] {
        seq![62u8]
    } else if name == seq![97u8, 109u8, 112u8] {
        seq![38u8]
    } else if name == seq![97u8, 112u8, 111u8, 115u8] {
        seq![39u8]
    } else if name == seq![113u8, 117u8, 111u8, 116u8] {
        seq![34u8]
    } else {
        Seq::empty()
    }
}

/// The text of an element whose text so far is given and which goes on at a position, and the
/// position behind its closing tag. Comments, verbatim text and instructions do not count. There is
/// none where another element begins in it or it has no end.
pub open spec fn element_text(bytes: Seq<u8>, at: int, text: Seq<u8>) -> Option<(Seq<u8>, int)>
    decreases bytes.len() - at,
{
    if at < 0 || at >= bytes.len() {
        None
    } else if bytes[at] == 60 {
        match behind_markup(bytes, at) {
            Some(next) => {
                proof {
                    lemma_behind_markup(bytes, at);
                }
                if bytes[at + 1] == 47 {
                    Some((text, next))
                } else if bytes[at + 1] == 33 || bytes[at + 1] == 63 {
                    element_text(bytes, next, text)
                } else {
                    None
                }
            },
            None => None,
        }
    } else if bytes[at] == 38 {
        match reference_end(bytes, at + 1) {
            Some(end) => {
                proof {
                    lemma_reference_end(bytes, at + 1);
                }
                element_text(bytes, end + 1, text + reference_text(bytes.subrange(at + 1, end)))
            },
            None => None,
        }
    } else {
        let end = text_end(bytes, at);
        proof {
            lemma_text_end(bytes, at);
        }
        element_text(bytes, end, text + bytes.subrange(at, end))
    }
}

/// Whether a byte is white space between the parts of a tag.
pub open spec fn is_tag_space(byte: u8) -> bool {
    byte == 32 || byte == 13 || byte == 10 || byte == 9
}

/// The end of the name of a tag whose text stands between two positions.
pub open spec fn name_end(bytes: Seq<u8>, at: int, end: int) -> int
    decreases end - at,
{
    if at >= end || is_tag_space(bytes[at]) {
        at
    } else {
        name_end(bytes, at + 1, end)
    }
}

/// A name without the prefix in front of its first colon.
pub open spec fn local_name(name: Seq<u8>) -> Seq<u8> {
    match first_occurrence(name, seq![58u8]) {
        Some(colon) => name.skip(colon + 1),
        None => name,
    }
}

/// `date`.
pub open spec fn date_name() -> Seq<u8> {
    seq![100u8, 97u8, 116u8, 101u8]
}

/// Whether a name is that of an element with a text: `key`, `data`, `date`, `integer`, `real` or
/// `string`.
pub open spec fn names_text(name: Seq<u8>) -> bool {
    ||| name == seq![107u8, 101u8, 121u8]
    ||| name == seq![100u8, 97u8, 116u8, 97u8]
    ||| name == date_name()
    ||| name == seq![105u8, 110u8, 116u8, 101u8, 103u8, 101u8, 114u8]
    ||| name == seq![114u8, 101u8, 97u8, 108u8]
    ||| name == seq![115u8, 116u8, 114u8, 105u8, 110u8, 103u8]
}

/// The name of the element that begins with the tag between two positions. There is none where the
/// tag is a closing one, closes itself, or is no tag.
pub open spec fn opened_name(bytes: Seq<u8>, at: int, next: int) -> Option<Seq<u8>> {
    if bytes[at + 1] == 33 || bytes[at + 1] == 47 || bytes[at + 1] == 63 || bytes[next - 2] == 47 {
        None
    } else {
        Some(local_name(bytes.subrange(at + 1, name_end(bytes, at + 1, next - 1))))
    }
}

/// Whether some bytes hold an ASCII character that is not white space.
pub open spec fn is_visible(bytes: Seq<u8>) -> bool {
    exists|i: int| 0 <= i < bytes.len() && is_visible_byte(#[trigger] bytes[i])
}

/// Whether a byte is an ASCII character that is not white space.
pub open spec fn is_visible_byte(byte: u8) -> bool {
    byte < 128 && byte != 32 && !(9 <= byte <= 13)
}

/// The texts of the dates from a position on, in order. They end where the bytes are no property
/// list: at markup or a reference without an end, at an element within a text, or at text outside of
/// the elements that have one.
pub open spec fn date_texts_from(bytes: Seq<u8>, at: int) -> Seq<Seq<u8>>
    decreases bytes.len() - at,
{
    if at < 0 || at >= bytes.len() {
        Seq::empty()
    } else if bytes[at] == 60 {
        match behind_markup(bytes, at) {
            Some(next) => {
                proof {
                    lemma_behind_markup(bytes, at);
                }
                match opened_name(bytes, at, next) {
                    Some(name) => if names_text(name) {
                        match element_text(bytes, next, Seq::empty()) {
                            Some((text, rest)) => {
                                proof {
                                    lemma_element_text(bytes, next, Seq::empty());
                                }
                                if name == date_name() {
                                    seq![text] + date_texts_from(bytes, rest)
                                } else {
                                    date_texts_from(bytes, rest)
                                }
                            },
                            None => Seq::empty(),
                        }
                    } else {
                        date_texts_from(bytes, next)
                    },
                    None => date_texts_from(bytes, next),
                }
            },
            None => Seq::empty(),
        }
    } else if bytes[at] == 38 {
        match reference_end(bytes, at + 1) {
            Some(end) => {
                proof {
                    lemma_reference_end(bytes, at + 1);
                }
                date_texts_from(bytes, end + 1)
            },
            None => Seq::empty(),
        }
    } else {
        let end = text_end(bytes, at);
        proof {
            lemma_text_end(bytes, at);
        }
        if is_visible(bytes.subrange(at, end)) {
            Seq::empty()
        } else {
            date_texts_from(bytes, end)
        }
    }
}

/// An element with a text ends behind its start.
pub proof fn lemma_element_text(bytes: Seq<u8>, at: int, text: Seq<u8>)
    ensures
        element_text(bytes, at, text) matches Some((_, next)) ==> 0 <= at < next <= bytes.len(),
    decreases bytes.len() - at,
{
    if 0 <= at < bytes.len() {
        lemma_behind_markup(bytes, at);
        lemma_reference_end(bytes, at + 1);
        lemma_text_end(bytes, at);
        if bytes[at] == 60 {
            if let Some(next) = behind_markup(bytes, at) {
                lemma_element_text(bytes, next, text);
            }
        } else if bytes[at] == 38 {
            if let Some(end) = reference_end(bytes, at + 1) {
                lemma_element_text(
                    bytes,
                    end + 1,
                    text + reference_text(bytes.subrange(at + 1, end)),
                );
            }
        } else {
            let end = text_end(bytes, at);
            lemma_element_text(bytes, end, text + bytes.subrange(at, end));
        }
    }
}

/// The texts of the dates in a property list that is written in XML, as far as some bytes are one.
pub open spec fn date_texts(bytes: Seq<u8>) -> Seq<Seq<u8>> {
    if occurs_at(bytes, binary_start(), 0) {
        Seq::empty()
    } else {
        date_texts_from(bytes, 0)
    }
}

/// The number that two decimal digits stand for.
pub open spec fn two_digits(text: Seq<u8>, at: int) -> Option<int> {
    if 0 <= at && at + 1 < text.len() && 48 <= text[at] <= 57 && 48 <= text[at + 1] <= 57 {
        Some((text[at] - 48) * 10 + (text[at + 1] - 48))
    } else {
        None
    }
}

/// The end of the decimal digits from a position on.
pub open spec fn digits_end(text: Seq<u8>, at: int) -> int
    decreases text.len() - at,
{
    if at >= text.len() || !(48 <= text[at] <= 57) {
        at
    } else {
        digits_end(text, at + 1)
    }
}

/// The last day of the calendar, `9999-12-31`.
pub open spec fn last_day() -> Seq<u8> {
    seq![57u8, 57u8, 57u8, 57u8, 45u8, 49u8, 50u8, 45u8, 51u8, 49u8]
}

/// The position behind the fraction of a second that may stand at a position.
pub open spec fn behind_fraction(text: Seq<u8>, at: int) -> Option<int> {
    if at < text.len() && text[at] == 46 {
        if digits_end(text, at + 1) == at + 1 {
            None
        } else {
            Some(digits_end(text, at + 1))
        }
    } else {
        Some(at)
    }
}

/// Whether two numbers of a time are in range.
pub open spec fn is_time(hour: Option<int>, minute: Option<int>) -> bool {
    hour is Some && minute is Some && hour->0 <= 23 && minute->0 <= 59
}

/// Whether a text is a date that leaves the calendar in universal time: a time of its last day, such
/// as `9999-12-31T23:59:59-00:01`, at an offset behind the universal time that takes it into the
/// day behind.
pub open spec fn leaves_calendar(text: Seq<u8>) -> bool {
    let hour = two_digits(text, 11);
    let minute = two_digits(text, 14);
    let second = two_digits(text, 17);
    &&& last_day().is_prefix_of(text)
    &&& is_time(hour, minute)
    &&& text[13] == 58
    &&& text[16] == 58
    &&& second is Some && second->0 <= 59
    &&& behind_fraction(text, 19) matches Some(sign) && {
        let offset_hour = two_digits(text, sign + 1);
        let offset_minute = two_digits(text, sign + 4);
        &&& text.len() == sign + 6
        &&& text[sign] == 45
        &&& text[sign + 3] == 58
        &&& is_time(offset_hour, offset_minute)
        &&& (hour->0 + offset_hour->0) * 60 + minute->0 + offset_minute->0 >= 1440
    }
}

/// Whether no date in a property list leaves the calendar in universal time.
pub open spec fn dates_are_readable(bytes: Seq<u8>) -> bool {
    forall|i: int|
        0 <= i < date_texts(bytes).len() ==> !leaves_calendar(#[trigger] date_texts(bytes)[i])
}

fn stands_at(bytes: &[u8], pattern: &[u8], at: usize) -> (result: bool)
    requires
        at <= bytes@.len(),
    ensures
        result == occurs_at(bytes@, pattern@, at as int),
{
    let size: usize = bytes.len();
    if size - at < pattern.len() {
        return false;
    }
    let mut i: usize = 0;
    while i < pattern.len()
        invariant
            size == bytes@.len(),
            at + pattern@.len() <= size,
            i <= pattern@.len(),
            forall|j: int| 0 <= j < i ==> bytes@[at + j] == pattern@[j],
        decreases pattern@.len() - i,
    {
        if bytes[at + i] != pattern[i] {
            assert(bytes@.subrange(at as int, at + pattern@.len())[i as int] != pattern@[i as int]);
            return false;
        }
        i += 1;
    }
    assert(bytes@.subrange(at as int, at + pattern@.len()) =~= pattern@);
    true
}

fn find_behind(bytes: &[u8], pattern: &[u8], from: usize) -> (result: Option<usize>)
    requires
        from <= bytes@.len(),
    ensures
        match result {
            Some(next) => behind(bytes@, pattern@, from as int) == Some(next as int) && from
                + pattern@.len() <= next <= bytes@.len(),
            None => behind(bytes@, pattern@, from as int) is None,
        },
{
    let size: usize = bytes.len();
    let mut at: usize = from;
    while at < size && size - at >= pattern.len()
        invariant
            size == bytes@.len(),
            from <= at <= size,
            behind(bytes@, pattern@, from as int) == behind(bytes@, pattern@, at as int),
        decreases size - at,
    {
        if stands_at(bytes, pattern, at) {
            return Some(at + pattern.len());
        }
        at += 1;
    }
    if at == size && pattern.len() == 0 {
        assert(occurs_at(bytes@, pattern@, at as int)) by {
            assert(bytes@.subrange(at as int, at as int) =~= pattern@);
        }
        return Some(at);
    }
    None
}

fn find_tag_end(bytes: &[u8], start: usize) -> (result: Option<usize>)
    requires
        start <= bytes@.len(),
    ensures
        match result {
            Some(end) => tag_end(bytes@, start as int, None) == Some(end as int) && start <= end
                < bytes@.len(),
            None => tag_end(bytes@, start as int, None) is None,
        },
{
    let mut at: usize = start;
    let mut quote: Option<u8> = None;
    while at < bytes.len()
        invariant
            start <= at <= bytes@.len(),
            tag_end(bytes@, start as int, None) == tag_end(bytes@, at as int, quote),
        decreases bytes@.len() - at,
    {
        let byte: u8 = bytes[at];
        match quote {
            Some(mark) => {
                if byte == mark {
                    quote = None;
                }
            },
            None => {
                if byte == 62 {
                    return Some(at);
                }
                if byte == 34 || byte == 39 {
                    quote = Some(byte);
                }
            },
        }
        at += 1;
    }
    None
}

fn find_behind_tag(bytes: &[u8], start: usize) -> (result: Option<usize>)
    requires
        start <= bytes@.len(),
    ensures
        match result {
            Some(next) => behind_tag(bytes@, start as int) == Some(next as int) && start < next
                <= bytes@.len(),
            None => behind_tag(bytes@, start as int) is None,
        },
{
    let size: usize = bytes.len();
    match find_tag_end(bytes, start) {
        Some(end) => {
            assert(end < size);
            Some(end + 1)
        },
        None => None,
    }
}

fn find_doctype_turn(bytes: &[u8], start: usize) -> (result: Option<usize>)
    requires
        start <= bytes@.len(),
    ensures
        match result {
            Some(turn) => doctype_turn(bytes@, start as int, None) == Some(turn as int) && start
                <= turn < bytes@.len(),
            None => doctype_turn(bytes@, start as int, None) is None,
        },
{
    let mut at: usize = start;
    let mut quote: Option<u8> = None;
    while at < bytes.len()
        invariant
            start <= at <= bytes@.len(),
            doctype_turn(bytes@, start as int, None) == doctype_turn(bytes@, at as int, quote),
        decreases bytes@.len() - at,
    {
        let byte: u8 = bytes[at];
        match quote {
            Some(mark) => {
                if byte == mark {
                    quote = None;
                }
            },
            None => {
                if byte == 62 || byte == 91 {
                    return Some(at);
                }
                if byte == 34 || byte == 39 {
                    quote = Some(byte);
                }
            },
        }
        at += 1;
    }
    None
}

fn find_behind_declaration(bytes: &[u8], at: usize) -> (result: Option<usize>)
    requires
        at < bytes@.len(),
    ensures
        match result {
            Some(next) => behind_declaration(bytes@, at as int) == Some(next as int) && at < next
                <= bytes@.len(),
            None => behind_declaration(bytes@, at as int) is None,
        },
{
    let size: usize = bytes.len();
    let instruction: Vec<u8> = vec![60u8, 63u8];
    assert(instruction@ =~= instruction_start());
    if stands_at(bytes, instruction.as_slice(), at) {
        let end: Vec<u8> = vec![63u8, 62u8];
        assert(end@ =~= instruction_end());
        return find_behind(bytes, end.as_slice(), at + 2);
    }
    let comment: Vec<u8> = vec![60u8, 33u8, 45u8, 45u8];
    assert(comment@ =~= comment_start());
    if stands_at(bytes, comment.as_slice(), at) {
        let end: Vec<u8> = vec![45u8, 45u8, 62u8];
        assert(end@ =~= comment_end());
        return find_behind(bytes, end.as_slice(), at + 4);
    }
    let entity: Vec<u8> = vec![60u8, 33u8, 69u8, 78u8, 84u8, 73u8, 84u8, 89u8];
    assert(entity@ =~= entity_start());
    if stands_at(bytes, entity.as_slice(), at) {
        return find_behind_tag(bytes, at + 8);
    }
    let attributes: Vec<u8> = vec![60u8, 33u8, 65u8, 84u8, 84u8, 76u8, 73u8, 83u8, 84u8];
    assert(attributes@ =~= attributes_start());
    if stands_at(bytes, attributes.as_slice(), at) {
        return find_behind_tag(bytes, at + 9);
    }
    let notation: Vec<u8> = vec![60u8, 33u8, 78u8, 79u8, 84u8, 65u8, 84u8, 73u8, 79u8, 78u8];
    assert(notation@ =~= notation_start());
    if stands_at(bytes, notation.as_slice(), at) {
        return find_behind_tag(bytes, at + 10);
    }
    let bracket: Vec<u8> = vec![62u8];
    assert(bracket@ =~= seq![62u8]);
    assert(at < size);
    find_behind(bytes, bracket.as_slice(), at + 1)
}

fn find_behind_declarations(bytes: &[u8], start: usize) -> (result: Option<usize>)
    requires
        start <= bytes@.len(),
    ensures
        match result {
            Some(next) => behind_declarations(bytes@, start as int) == Some(next as int) && start
                < next <= bytes@.len(),
            None => behind_declarations(bytes@, start as int) is None,
        },
{
    let size: usize = bytes.len();
    let mut at: usize = start;
    while at < size
        invariant
            size == bytes@.len(),
            start <= at <= size,
            behind_declarations(bytes@, start as int) == behind_declarations(bytes@, at as int),
        decreases size - at,
    {
        if bytes[at] == 93 {
            let bracket: Vec<u8> = vec![62u8];
            assert(bracket@ =~= seq![62u8]);
            return find_behind(bytes, bracket.as_slice(), at + 1);
        }
        if bytes[at] == 60 {
            match find_behind_declaration(bytes, at) {
                Some(next) => {
                    at = next;
                },
                None => {
                    return None;
                },
            }
        } else {
            at += 1;
        }
    }
    None
}

fn find_behind_markup(bytes: &[u8], at: usize) -> (result: Option<usize>)
    requires
        at < bytes@.len(),
    ensures
        match result {
            Some(next) => behind_markup(bytes@, at as int) == Some(next as int) && at + 1 < next
                <= bytes@.len(),
            None => behind_markup(bytes@, at as int) is None,
        },
{
    let size: usize = bytes.len();
    let comment: Vec<u8> = vec![60u8, 33u8, 45u8, 45u8];
    assert(comment@ =~= comment_start());
    if stands_at(bytes, comment.as_slice(), at) {
        let end: Vec<u8> = vec![45u8, 45u8, 62u8];
        assert(end@ =~= comment_end());
        return find_behind(bytes, end.as_slice(), at + 4);
    }
    let verbatim: Vec<u8> = vec![60u8, 33u8, 91u8, 67u8, 68u8, 65u8, 84u8, 65u8, 91u8];
    assert(verbatim@ =~= verbatim_start());
    if stands_at(bytes, verbatim.as_slice(), at) {
        let end: Vec<u8> = vec![93u8, 93u8, 62u8];
        assert(end@ =~= verbatim_end());
        return find_behind(bytes, end.as_slice(), at + 9);
    }
    let bang: Vec<u8> = vec![60u8, 33u8];
    assert(bang@ =~= seq![60u8, 33u8]);
    if stands_at(bytes, bang.as_slice(), at) {
        if size - at > 2 && (bytes[at + 2] == 68 || bytes[at + 2] == 100) {
            return match find_doctype_turn(bytes, at + 2) {
                Some(turn) => {
                    if bytes[turn] == 62 {
                        Some(turn + 1)
                    } else {
                        find_behind_declarations(bytes, turn + 1)
                    }
                },
                None => None,
            };
        }
        return None;
    }
    let instruction: Vec<u8> = vec![60u8, 63u8];
    assert(instruction@ =~= instruction_start());
    if stands_at(bytes, instruction.as_slice(), at) {
        let end: Vec<u8> = vec![63u8, 62u8];
        assert(end@ =~= instruction_end());
        if stands_at(bytes, end.as_slice(), at + 1) {
            return None;
        }
        return find_behind(bytes, end.as_slice(), at + 2);
    }
    assert(at < size);
    find_behind_tag(bytes, at + 1)
}

fn find_text_end(bytes: &[u8], start: usize) -> (result: usize)
    requires
        start <= bytes@.len(),
    ensures
        result == text_end(bytes@, start as int),
        start <= result <= bytes@.len(),
{
    let mut at: usize = start;
    while at < bytes.len() && bytes[at] != 60 && bytes[at] != 38
        invariant
            start <= at <= bytes@.len(),
            text_end(bytes@, start as int) == text_end(bytes@, at as int),
        decreases bytes@.len() - at,
    {
        at += 1;
    }
    at
}

fn find_reference_end(bytes: &[u8], start: usize) -> (result: Option<usize>)
    requires
        start <= bytes@.len(),
    ensures
        match result {
            Some(end) => reference_end(bytes@, start as int) == Some(end as int) && start <= end
                < bytes@.len(),
            None => reference_end(bytes@, start as int) is None,
        },
{
    let mut at: usize = start;
    while at < bytes.len() && bytes[at] != 60 && bytes[at] != 38
        invariant
            start <= at <= bytes@.len(),
            reference_end(bytes@, start as int) == reference_end(bytes@, at as int),
        decreases bytes@.len() - at,
    {
        if bytes[at] == 59 {
            return Some(at);
        }
        at += 1;
    }
    None
}

fn read_small_number(name: &[u8], start: usize, base: u32) -> (result: u32)
    requires
        start <= name@.len(),
        base == 10 || base == 16,
    ensures
        result == small_number(name@.skip(start as int), base as nat),
{
    let ghost digits = name@.skip(start as int);
    let mut number: u32 = 0;
    let mut at: usize = start;
    assert(digits.take(0) =~= Seq::empty());
    while at < name.len()
        invariant
            start <= at <= name@.len(),
            base == 10 || base == 16,
            digits == name@.skip(start as int),
            number <= 128,
            number == small_number(digits.take(at - start), base as nat),
        decreases name@.len() - at,
    {
        let byte: u8 = name[at];
        let digit: u32 = if 48 <= byte && byte <= 57 {
            byte as u32 - 48
        } else if base == 16 && 97 <= byte && byte <= 102 {
            byte as u32 - 87
        } else if base == 16 && 65 <= byte && byte <= 70 {
            byte as u32 - 55
        } else {
            base
        };
        assert(digit == digit_value(byte, base as nat));
        let ghost longer = digits.take(at + 1 - start);
        assert(longer.drop_last() =~= digits.take(at - start));
        assert(longer.last() == byte);
        assert(number * base <= 128 * 16) by (nonlinear_arith)
            requires
                number <= 128,
                base <= 16,
        ;
        if number >= 128 || digit >= base || number * base + digit >= 128 {
            number = 128;
        } else {
            number = number * base + digit;
        }
        at += 1;
    }
    assert(digits.take(at - start) =~= digits);
    number
}

fn same_bytes(left: &[u8], right: &[u8]) -> (result: bool)
    ensures
        result == (left@ == right@),
{
    if left.len() != right.len() {
        return false;
    }
    let result = stands_at(left, right, 0);
    assert(left@.subrange(0, left@.len() as int) =~= left@);
    result
}

fn read_reference(name: &[u8]) -> (result: Vec<u8>)
    ensures
        result@ == reference_text(name@),
{
    if name.len() > 0 && name[0] == 35 {
        let number: u32 = if name.len() > 1 && name[1] == 120 {
            read_small_number(name, 2, 16)
        } else {
            read_small_number(name, 1, 10)
        };
        let referred: Vec<u8> = if 0 < number && number < 128 {
            vec![number as u8]
        } else {
            vec![255u8, 255u8]
        };
        assert(referred@ =~= reference_text(name@));
        return referred;
    }
    let less: Vec<u8> = vec![108u8, 116u8];
    let greater: Vec<u8> = vec![103u8, 116u8];
    let ampersand: Vec<u8> = vec![97u8, 109u8, 112u8];
    let apostrophe: Vec<u8> = vec![97u8, 112u8, 111u8, 115u8];
    let quotation: Vec<u8> = vec![113u8, 117u8, 111u8, 116u8];
    assert(less@ =~= seq![108u8, 116u8]);
    assert(greater@ =~= seq![103u8, 116u8]);
    assert(ampersand@ =~= seq![97u8, 109u8, 112u8]);
    assert(apostrophe@ =~= seq![97u8, 112u8, 111u8, 115u8]);
    assert(quotation@ =~= seq![113u8, 117u8, 111u8, 116u8]);
    let mut referred: Vec<u8> = Vec::new();
    if same_bytes(name, less.as_slice()) {
        referred.push(60);
    } else if same_bytes(name, greater.as_slice()) {
        referred.push(62);
    } else if same_bytes(name, ampersand.as_slice()) {
        referred.push(38);
    } else if same_bytes(name, apostrophe.as_slice()) {
        referred.push(39);
    } else if same_bytes(name, quotation.as_slice()) {
        referred.push(34);
    }
    assert(referred@ =~= reference_text(name@));
    referred
}

fn read_element_text(bytes: &[u8], start: usize) -> (result: Option<(Vec<u8>, usize)>)
    requires
        start <= bytes@.len(),
    ensures
        match result {
            Some((text, next)) => element_text(bytes@, start as int, Seq::empty()) == Some(
                (text@, next as int),
            ) && start < next <= bytes@.len(),
            None => element_text(bytes@, start as int, Seq::empty()) is None,
        },
{
    let size: usize = bytes.len();
    let mut text: Vec<u8> = Vec::new();
    let mut at: usize = start;
    while at < size
        invariant
            size == bytes@.len(),
            start <= at <= size,
            element_text(bytes@, start as int, Seq::empty()) == element_text(
                bytes@,
                at as int,
                text@,
            ),
        decreases size - at,
    {
        if bytes[at] == 60 {
            let next: usize = match find_behind_markup(bytes, at) {
                Some(next) => next,
                None => {
                    return None;
                },
            };
            if bytes[at + 1] == 47 {
                return Some((text, next));
            }
            if bytes[at + 1] != 33 && bytes[at + 1] != 63 {
                return None;
            }
            at = next;
        } else if bytes[at] == 38 {
            match find_reference_end(bytes, at + 1) {
                Some(end) => {
                    let name = slice_bytes(bytes, at + 1, end);
                    let mut referred = read_reference(name.as_slice());
                    text.append(&mut referred);
                    at = end + 1;
                },
                None => {
                    return None;
                },
            }
        } else {
            let end: usize = find_text_end(bytes, at);
            proof {
                lemma_text_end(bytes@, at as int);
            }
            let mut chunk = slice_bytes(bytes, at, end);
            text.append(&mut chunk);
            at = end;
        }
    }
    None
}

fn find_name_end(bytes: &[u8], start: usize, end: usize) -> (result: usize)
    requires
        start <= end <= bytes@.len(),
    ensures
        result == name_end(bytes@, start as int, end as int),
        start <= result <= end,
{
    let mut at: usize = start;
    while at < end && !(bytes[at] == 32 || bytes[at] == 13 || bytes[at] == 10 || bytes[at] == 9)
        invariant
            start <= at <= end <= bytes@.len(),
            name_end(bytes@, start as int, end as int) == name_end(bytes@, at as int, end as int),
        decreases end - at,
    {
        at += 1;
    }
    at
}

fn read_opened_name(bytes: &[u8], at: usize, next: usize) -> (result: Option<Vec<u8>>)
    requires
        at + 1 < next <= bytes@.len(),
    ensures
        match result {
            Some(name) => opened_name(bytes@, at as int, next as int) == Some(name@),
            None => opened_name(bytes@, at as int, next as int) is None,
        },
{
    if bytes[at + 1] == 33 || bytes[at + 1] == 47 || bytes[at + 1] == 63 || bytes[next - 2] == 47 {
        return None;
    }
    let name = slice_bytes(bytes, at + 1, find_name_end(bytes, at + 1, next - 1));
    let colon: Vec<u8> = vec![58u8];
    assert(colon@ =~= seq![58u8]);
    match find_bytes(name.as_slice(), colon.as_slice()) {
        Some(prefix) => {
            let local = slice_bytes(name.as_slice(), prefix + 1, name.len());
            assert(local@ =~= name@.skip(prefix + 1));
            Some(local)
        },
        None => Some(name),
    }
}

fn is_date_name(name: &[u8]) -> (result: bool)
    ensures
        result == (name@ == date_name()),
{
    let date: Vec<u8> = vec![100u8, 97u8, 116u8, 101u8];
    assert(date@ =~= date_name());
    same_bytes(name, date.as_slice())
}

fn is_text_name(name: &[u8]) -> (result: bool)
    ensures
        result == names_text(name@),
{
    let key: Vec<u8> = vec![107u8, 101u8, 121u8];
    let data: Vec<u8> = vec![100u8, 97u8, 116u8, 97u8];
    let integer: Vec<u8> = vec![105u8, 110u8, 116u8, 101u8, 103u8, 101u8, 114u8];
    let fractional: Vec<u8> = vec![114u8, 101u8, 97u8, 108u8];
    let string: Vec<u8> = vec![115u8, 116u8, 114u8, 105u8, 110u8, 103u8];
    assert(key@ =~= seq![107u8, 101u8, 121u8]);
    assert(data@ =~= seq![100u8, 97u8, 116u8, 97u8]);
    assert(integer@ =~= seq![105u8, 110u8, 116u8, 101u8, 103u8, 101u8, 114u8]);
    assert(fractional@ =~= seq![114u8, 101u8, 97u8, 108u8]);
    assert(string@ =~= seq![115u8, 116u8, 114u8, 105u8, 110u8, 103u8]);
    same_bytes(name, key.as_slice()) || same_bytes(name, data.as_slice()) || is_date_name(name)
        || same_bytes(name, integer.as_slice()) || same_bytes(name, fractional.as_slice()) || same_bytes(
        name,
        string.as_slice(),
    )
}

fn shows_text(bytes: &[u8], start: usize, end: usize) -> (result: bool)
    requires
        start <= end <= bytes@.len(),
    ensures
        result == is_visible(bytes@.subrange(start as int, end as int)),
{
    let ghost chunk = bytes@.subrange(start as int, end as int);
    let mut at: usize = start;
    while at < end
        invariant
            start <= at <= end <= bytes@.len(),
            chunk == bytes@.subrange(start as int, end as int),
            forall|i: int| 0 <= i < at - start ==> !is_visible_byte(#[trigger] chunk[i]),
        decreases end - at,
    {
        let byte: u8 = bytes[at];
        assert(chunk[at - start] == byte);
        if byte < 128 && byte != 32 && !(9 <= byte && byte <= 13) {
            return true;
        }
        at += 1;
    }
    false
}

/// The views of some texts of bytes.
pub open spec fn byte_views(texts: Seq<Vec<u8>>) -> Seq<Seq<u8>> {
    texts.map_values(|text: Vec<u8>| text@)
}

/// The texts of the dates in a property list that is written in XML.
pub fn find_date_texts(bytes: &[u8]) -> (result: Vec<Vec<u8>>)
    ensures
        byte_views(result@) == date_texts(bytes@),
{
    let size: usize = bytes.len();
    let mut texts: Vec<Vec<u8>> = Vec::new();
    assert(byte_views(texts@) =~= Seq::empty());
    let binary: Vec<u8> = vec![98u8, 112u8, 108u8, 105u8, 115u8, 116u8, 48u8, 48u8];
    assert(binary@ =~= binary_start());
    if stands_at(bytes, binary.as_slice(), 0) {
        return texts;
    }
    let ghost all = date_texts_from(bytes@, 0);
    let mut at: usize = 0;
    assert(byte_views(texts@) + all =~= all);
    while at < size
        invariant
            size == bytes@.len(),
            at <= size,
            all == date_texts(bytes@),
            byte_views(texts@) + date_texts_from(bytes@, at as int) == all,
        decreases size - at,
    {
        let ghost found = byte_views(texts@);
        assert(found + Seq::<Seq<u8>>::empty() =~= found);
        if bytes[at] == 60 {
            let next: usize = match find_behind_markup(bytes, at) {
                Some(next) => next,
                None => {
                    return texts;
                },
            };
            at = match read_opened_name(bytes, at, next) {
                Some(name) => {
                    if is_text_name(name.as_slice()) {
                        match read_element_text(bytes, next) {
                            Some((text, rest)) => {
                                if is_date_name(name.as_slice()) {
                                    let ghost read = text@;
                                    texts.push(text);
                                    assert(byte_views(texts@) =~= found.push(read));
                                    assert(byte_views(texts@) + date_texts_from(
                                        bytes@,
                                        rest as int,
                                    ) =~= found + (seq![read] + date_texts_from(
                                        bytes@,
                                        rest as int,
                                    )));
                                }
                                rest
                            },
                            None => {
                                return texts;
                            },
                        }
                    } else {
                        next
                    }
                },
                None => next,
            };
        } else if bytes[at] == 38 {
            at = match find_reference_end(bytes, at + 1) {
                Some(end) => end + 1,
                None => {
                    return texts;
                },
            };
        } else {
            let end: usize = find_text_end(bytes, at);
            proof {
                lemma_text_end(bytes@, at as int);
            }
            if shows_text(bytes, at, end) {
                return texts;
            }
            at = end;
        }
    }
    assert(byte_views(texts@) + Seq::<Seq<u8>>::empty() =~= byte_views(texts@));
    texts
}

fn read_two_digits(text: &[u8], at: usize) -> (result: Option<u32>)
    requires
        at <= text@.len(),
    ensures
        match result {
            Some(number) => two_digits(text@, at as int) == Some(number as int),
            None => two_digits(text@, at as int) is None,
        },
{
    let size: usize = text.len();
    if size - at < 2 {
        return None;
    }
    let tens: u8 = text[at];
    let ones: u8 = text[at + 1];
    if 48 <= tens && tens <= 57 && 48 <= ones && ones <= 57 {
        Some((tens as u32 - 48) * 10 + (ones as u32 - 48))
    } else {
        None
    }
}

fn read_time(text: &[u8], at: usize) -> (result: Option<u32>)
    requires
        at + 5 <= text@.len(),
    ensures
        ({
            let hour = two_digits(text@, at as int);
            let minute = two_digits(text@, at + 3);
            match result {
                Some(minutes) => is_time(hour, minute) && text@[at + 2] == 58 && minutes == hour->0
                    * 60 + minute->0,
                None => !is_time(hour, minute) || text@[at + 2] != 58,
            }
        }),
{
    let size: usize = text.len();
    assert(at + 5 <= size);
    match (read_two_digits(text, at), read_two_digits(text, at + 3)) {
        (Some(hour), Some(minute)) => {
            if text[at + 2] == 58 && hour <= 23 && minute <= 59 {
                Some(hour * 60 + minute)
            } else {
                None
            }
        },
        _ => None,
    }
}

fn find_behind_fraction(text: &[u8], at: usize) -> (result: Option<usize>)
    requires
        at <= text@.len(),
    ensures
        match result {
            Some(next) => behind_fraction(text@, at as int) == Some(next as int) && at <= next
                <= text@.len(),
            None => behind_fraction(text@, at as int) is None,
        },
{
    let size: usize = text.len();
    if at == size || text[at] != 46 {
        return Some(at);
    }
    let mut next: usize = at + 1;
    while next < size && 48 <= text[next] && text[next] <= 57
        invariant
            size == text@.len(),
            at < next <= size,
            digits_end(text@, at + 1) == digits_end(text@, next as int),
        decreases size - next,
    {
        next += 1;
    }
    if next == at + 1 {
        None
    } else {
        Some(next)
    }
}

fn is_beyond_calendar(text: &[u8]) -> (result: bool)
    ensures
        result == leaves_calendar(text@),
{
    let size: usize = text.len();
    let day: Vec<u8> = vec![57u8, 57u8, 57u8, 57u8, 45u8, 49u8, 50u8, 45u8, 51u8, 49u8];
    assert(day@ =~= last_day());
    if !stands_at(text, day.as_slice(), 0) {
        return false;
    }
    assert(last_day().is_prefix_of(text@));
    if size < 19 {
        return false;
    }
    let time: u32 = match read_time(text, 11) {
        Some(time) => time,
        None => {
            return false;
        },
    };
    match read_two_digits(text, 17) {
        Some(second) => {
            if text[16] != 58 || second > 59 {
                return false;
            }
        },
        None => {
            return false;
        },
    }
    match find_behind_fraction(text, 19) {
        Some(sign) => {
            if size - sign != 6 || text[sign] != 45 {
                return false;
            }
            match read_time(text, sign + 1) {
                Some(offset) => time + offset >= 1440,
                None => false,
            }
        },
        None => false,
    }
}

/// Whether no date in a property list leaves the calendar in universal time.
pub fn reads_dates(bytes: &[u8]) -> (result: bool)
    ensures
        result == dates_are_readable(bytes@),
{
    let texts = find_date_texts(bytes);
    let ghost all = date_texts(bytes@);
    let mut i: usize = 0;
    while i < texts.len()
        invariant
            i <= texts@.len(),
            all == date_texts(bytes@),
            byte_views(texts@) == all,
            forall|j: int| 0 <= j < i ==> !leaves_calendar(#[trigger] all[j]),
        decreases texts@.len() - i,
    {
        assert(all[i as int] == texts@[i as int]@);
        if is_beyond_calendar(texts[i].as_slice()) {
            return false;
        }
        i += 1;
    }
    true
}

/// A number below a hundred in two decimal digits.
pub open spec fn in_two_digits(number: int) -> Seq<u8> {
    seq![(48 + number / 10) as u8, (48 + number % 10) as u8]
}

/// A time of the last day of the calendar, in a time zone on one side of the universal time.
pub open spec fn last_day_at(
    hour: int,
    minute: int,
    second: int,
    sign: u8,
    offset_hour: int,
    offset_minute: int,
) -> Seq<u8> {
    seq![57u8, 57u8, 57u8, 57u8, 45u8, 49u8, 50u8, 45u8, 51u8, 49u8, 84u8] + in_two_digits(hour)
        + seq![58u8] + in_two_digits(minute) + seq![58u8] + in_two_digits(second) + seq![sign]
        + in_two_digits(offset_hour) + seq![58u8] + in_two_digits(offset_minute)
}

proof fn lemma_two_digits(text: Seq<u8>, at: int, number: int)
    requires
        0 <= number < 100,
        0 <= at,
        at + 1 < text.len(),
        text[at] == in_two_digits(number)[0],
        text[at + 1] == in_two_digits(number)[1],
    ensures
        two_digits(text, at) == Some(number),
{
    assert(0 <= number / 10 < 10);
    assert(0 <= number % 10 < 10);
    assert((number / 10) * 10 + number % 10 == number);
}

/// A time of the last day of the calendar leaves it exactly where the time zone is behind the
/// universal time and the time that is left of the day is no longer than it is behind.
pub proof fn last_day_ends_with_its_time_zone(
    hour: int,
    minute: int,
    second: int,
    sign: u8,
    offset_hour: int,
    offset_minute: int,
)
    requires
        0 <= hour < 24,
        0 <= minute < 60,
        0 <= second < 60,
        0 <= offset_hour < 24,
        0 <= offset_minute < 60,
        sign == 43 || sign == 45,
    ensures
        leaves_calendar(last_day_at(hour, minute, second, sign, offset_hour, offset_minute))
            <==> sign == 45 && 24 * 60 - (hour * 60 + minute) <= offset_hour * 60 + offset_minute,
{
    let text = last_day_at(hour, minute, second, sign, offset_hour, offset_minute);
    assert(text.len() == 25);
    assert(last_day() =~= text.subrange(0, 10));
    lemma_two_digits(text, 11, hour);
    lemma_two_digits(text, 14, minute);
    lemma_two_digits(text, 17, second);
    lemma_two_digits(text, 20, offset_hour);
    lemma_two_digits(text, 23, offset_minute);
    assert(text[13] == 58 && text[16] == 58 && text[19] == sign && text[22] == 58);
    assert(behind_fraction(text, 19) == Some(19int));
}

/// A date before the last day of the calendar does not leave it.
pub proof fn earlier_day_stays_in_the_calendar(text: Seq<u8>, at: int)
    requires
        0 <= at < 10,
        at < text.len() ==> text[at] != seq![
            57u8,
            57u8,
            57u8,
            57u8,
            45u8,
            49u8,
            50u8,
            45u8,
            51u8,
            49u8,
        ][at],
    ensures
        !leaves_calendar(text),
{
    if last_day().is_prefix_of(text) {
        assert(text.subrange(0, 10)[at] == last_day()[at]);
    }
}

proof fn lemma_plain_text_end(bytes: Seq<u8>, at: int, end: int)
    requires
        0 <= at <= end < bytes.len(),
        forall|i: int| at <= i < end ==> #[trigger] bytes[i] != 60 && bytes[i] != 38,
        bytes[end] == 60,
    ensures
        text_end(bytes, at) == end,
    decreases end - at,
{
    if at < end {
        lemma_plain_text_end(bytes, at + 1, end);
    }
}

proof fn lemma_no_declaration(bytes: Seq<u8>, at: int)
    requires
        0 <= at,
        at + 1 < bytes.len(),
        bytes[at + 1] != 33,
        bytes[at + 1] != 63,
    ensures
        behind_markup(bytes, at) == behind_tag(bytes, at + 1),
{
    if occurs_at(bytes, comment_start(), at) {
        assert(bytes.subrange(at, at + 4)[1] == bytes[at + 1]);
    }
    if occurs_at(bytes, verbatim_start(), at) {
        assert(bytes.subrange(at, at + 9)[1] == bytes[at + 1]);
    }
    if occurs_at(bytes, seq![60u8, 33u8], at) {
        assert(bytes.subrange(at, at + 2)[1] == bytes[at + 1]);
    }
    if occurs_at(bytes, instruction_start(), at) {
        assert(bytes.subrange(at, at + 2)[1] == bytes[at + 1]);
    }
}

/// Whether a text of an element has neither markup nor references in it.
pub open spec fn is_bare(text: Seq<u8>) -> bool {
    forall|i: int| 0 <= i < text.len() ==> #[trigger] text[i] != 60 && text[i] != 38
}

/// `<date>`, a text, and `</date>`.
pub open spec fn date_element(text: Seq<u8>) -> Seq<u8> {
    seq![60u8, 100u8, 97u8, 116u8, 101u8, 62u8] + text + seq![
        60u8,
        47u8,
        100u8,
        97u8,
        116u8,
        101u8,
        62u8,
    ]
}

proof fn lemma_date_tags(bytes: Seq<u8>, at: int, end: int)
    requires
        0 <= at,
        at + 6 <= end,
        end + 7 <= bytes.len(),
        bytes.subrange(at, at + 6) == seq![60u8, 100u8, 97u8, 116u8, 101u8, 62u8],
        bytes.subrange(end, end + 7) == seq![60u8, 47u8, 100u8, 97u8, 116u8, 101u8, 62u8],
    ensures
        bytes[at] == 60,
        bytes[end] == 60,
        bytes[end + 1] == 47,
        behind_markup(bytes, at) == Some(at + 6),
        behind_markup(bytes, end) == Some(end + 7),
        opened_name(bytes, at, at + 6) == Some(date_name()),
{
    let open = bytes.subrange(at, at + 6);
    let close = bytes.subrange(end, end + 7);
    assert(open[0] == bytes[at] && open[1] == bytes[at + 1] && open[2] == bytes[at + 2] && open[3]
        == bytes[at + 3] && open[4] == bytes[at + 4] && open[5] == bytes[at + 5]);
    assert(close[0] == bytes[end] && close[1] == bytes[end + 1] && close[2] == bytes[end + 2]
        && close[3] == bytes[end + 3] && close[4] == bytes[end + 4] && close[5] == bytes[end + 5]
        && close[6] == bytes[end + 6]);
    lemma_no_declaration(bytes, at);
    lemma_no_declaration(bytes, end);
    reveal_with_fuel(tag_end, 7);
    assert(tag_end(bytes, at + 1, None) == Some(at + 5));
    assert(tag_end(bytes, end + 1, None) == Some(end + 6));
    reveal_with_fuel(name_end, 6);
    assert(name_end(bytes, at + 1, at + 5) == at + 5);
    let name = bytes.subrange(at + 1, at + 5);
    assert(name =~= date_name());
    assert forall|i: int| !occurs_at(name, seq![58u8], i) by {
        if occurs_at(name, seq![58u8], i) {
            assert(name.subrange(i, i + 1)[0] == name[i]);
        }
    }
    lemma_no_occurrence(name, seq![58u8]);
}

/// A date element gives its text as the text of a date, wherever it stands, and then the dates
/// behind it follow.
pub proof fn date_element_gives_its_text(bytes: Seq<u8>, at: int, text: Seq<u8>)
    requires
        0 <= at,
        at + 13 + text.len() <= bytes.len(),
        bytes.subrange(at, at + 13 + text.len()) == date_element(text),
        is_bare(text),
    ensures
        date_texts_from(bytes, at) == seq![text] + date_texts_from(bytes, at + 13 + text.len()),
{
    let whole = bytes.subrange(at, at + 13 + text.len());
    let end = at + 6 + text.len();
    assert(bytes.subrange(at, at + 6) =~= whole.subrange(0, 6));
    assert(whole.subrange(0, 6) =~= seq![60u8, 100u8, 97u8, 116u8, 101u8, 62u8]);
    assert(bytes.subrange(end, end + 7) =~= whole.subrange(
        6 + text.len() as int,
        13 + text.len() as int,
    ));
    assert(whole.subrange(6 + text.len() as int, 13 + text.len() as int) =~= seq![
        60u8,
        47u8,
        100u8,
        97u8,
        116u8,
        101u8,
        62u8,
    ]);
    assert(bytes.subrange(at + 6, end) =~= text) by {
        assert forall|i: int| 0 <= i < text.len() implies bytes[at + 6 + i] == #[trigger] text[i] by {
            assert(whole[6 + i] == text[i]);
        }
    }
    lemma_date_tags(bytes, at, end);
    assert forall|i: int| at + 6 <= i < end implies #[trigger] bytes[i] != 60 && bytes[i] != 38 by {
        assert(bytes[i] == bytes.subrange(at + 6, end)[i - at - 6]);
    }
    let none = Seq::<u8>::empty();
    lemma_plain_text_end(bytes, at + 6, end);
    lemma_behind_markup(bytes, end);
    assert(none + text =~= text);
    assert(element_text(bytes, end, text) == Some((text, end + 7)));
    if text.len() == 0 {
        assert(text =~= none);
    } else {
        assert(bytes[at + 6] == text[0]) by {
            assert(bytes.subrange(at + 6, end)[0] == text[0]);
        }
        assert(element_text(bytes, at + 6, none) == element_text(bytes, end, none + text));
    }
}

/// A property list that is one date is read exactly where that date does not leave the calendar.
pub proof fn single_date_decides(text: Seq<u8>, bytes: &[u8], readable: bool)
    requires
        call_ensures(reads_dates, (bytes,), readable),
        bytes@ == date_element(text),
        is_bare(text),
    ensures
        readable <==> !leaves_calendar(text),
{
    assert(bytes@.subrange(0, bytes@.len() as int) =~= bytes@);
    date_element_gives_its_text(bytes@, 0, text);
    if occurs_at(bytes@, binary_start(), 0) {
        assert(bytes@.subrange(0, 8)[0] == bytes@[0]);
    }
    let all = date_texts(bytes@);
    assert(date_texts_from(bytes@, bytes@.len() as int) =~= Seq::empty());
    assert(all =~= seq![text]);
    assert(all[0] == text);
}

/// Bytes without markup and references hold no date.
pub proof fn plain_bytes_hold_no_date(bytes: &[u8], readable: bool)
    requires
        call_ensures(reads_dates, (bytes,), readable),
        is_bare(bytes@),
    ensures
        readable,
{
    lemma_bare_end(bytes@, 0);
    reveal_with_fuel(date_texts_from, 2);
}

proof fn lemma_bare_end(bytes: Seq<u8>, at: int)
    requires
        is_bare(bytes),
        0 <= at <= bytes.len(),
    ensures
        text_end(bytes, at) == bytes.len(),
    decreases bytes.len() - at,
{
    if at < bytes.len() {
        assert(bytes[at] != 60);
        lemma_bare_end(bytes, at + 1);
    }
}

proof fn lemma_behind_pattern(bytes: Seq<u8>, pattern: Seq<u8>, from: int, at: int)
    requires
        pattern.len() > 0,
        0 <= from <= at,
        occurs_at(bytes, pattern, at),
        forall|before: int| from <= before < at ==> !occurs_at(bytes, pattern, before),
    ensures
        behind(bytes, pattern, from) == Some(at + pattern.len()),
    decreases at - from,
{
    if from < at {
        assert(!occurs_at(bytes, pattern, from));
        lemma_behind_pattern(bytes, pattern, from + 1, at);
    }
}

/// A comment, whatever it holds, gives no date: the dates behind it follow.
pub proof fn comment_gives_no_date(bytes: Seq<u8>, at: int, end: int)
    requires
        0 <= at,
        at + 4 <= end,
        end + 3 <= bytes.len(),
        bytes.subrange(at, at + 4) == seq![60u8, 33u8, 45u8, 45u8],
        bytes.subrange(end, end + 3) == seq![45u8, 45u8, 62u8],
        forall|before: int|
            at + 4 <= before < end ==> !(#[trigger] bytes[before] == 45 && bytes[before + 1] == 45
                && bytes[before + 2] == 62),
    ensures
        date_texts_from(bytes, at) == date_texts_from(bytes, end + 3),
{
    assert(bytes[at] == bytes.subrange(at, at + 4)[0]);
    assert(bytes[at + 1] == bytes.subrange(at, at + 4)[1]);
    assert(occurs_at(bytes, comment_start(), at));
    assert(occurs_at(bytes, comment_end(), end));
    assert forall|before: int| at + 4 <= before < end implies !occurs_at(
        bytes,
        comment_end(),
        before,
    ) by {
        if occurs_at(bytes, comment_end(), before) {
            assert(bytes.subrange(before, before + 3)[0] == bytes[before]);
            assert(bytes.subrange(before, before + 3)[1] == bytes[before + 1]);
            assert(bytes.subrange(before, before + 3)[2] == bytes[before + 2]);
        }
    }
    lemma_behind_pattern(bytes, comment_end(), at + 4, end);
    lemma_behind_markup(bytes, at);
    assert(opened_name(bytes, at, end + 3) is None);
}

/// White space between elements gives no date, and other text there ends the list.
pub proof fn text_between_elements_gives_no_date(bytes: Seq<u8>, at: int, end: int, shown: int)
    requires
        0 <= at < end < bytes.len(),
        bytes[end] == 60,
        forall|i: int| at <= i < end ==> #[trigger] bytes[i] != 60 && bytes[i] != 38,
    ensures
        (forall|i: int|
            at <= i < end ==> #[trigger] bytes[i] == 32 || 9 <= bytes[i] <= 13 || bytes[i] >= 128)
            ==> date_texts_from(bytes, at) == date_texts_from(bytes, end),
        at <= shown < end && 33 <= bytes[shown] < 127 ==> date_texts_from(bytes, at).len() == 0,
{
    lemma_plain_text_end(bytes, at, end);
    let text = bytes.subrange(at, end);
    assert(bytes[at] != 60 && bytes[at] != 38);
    if forall|i: int|
        at <= i < end ==> #[trigger] bytes[i] == 32 || 9 <= bytes[i] <= 13 || bytes[i] >= 128 {
        assert forall|i: int| 0 <= i < text.len() implies !is_visible_byte(#[trigger] text[i]) by {
            assert(text[i] == bytes[at + i]);
        }
    }
    if at <= shown < end && 33 <= bytes[shown] < 127 {
        assert(text[shown - at] == bytes[shown]);
        assert(is_visible_byte(text[shown - at]));
    }
}

} // verus!
