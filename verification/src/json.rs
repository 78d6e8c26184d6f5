//! JSON as the crate `serde_json` reads and writes it.
use vstd::prelude::*;

use crate::decimal::decimal;
use crate::token::hex_digit;

verus! {

/// A JSON value of `serde_json`.
#[verifier::external_type_specification]
#[verifier::external_body]
pub struct ExternalValue(serde_json::Value);

/// What a JSON value holds. A number has its printed form and, where it is a whole number from
/// zero to `u64::MAX` that was not written as a float, its value.
pub enum JsonTree {
    Null,
    Bool(bool),
    Number(Option<u64>, Seq<char>),
    Text(Seq<char>),
    List(Seq<JsonTree>),
    Object(Map<Seq<char>, JsonTree>),
}

impl JsonTree {
    /// The member of an object under a key.
    pub open spec fn member(self, key: Seq<char>) -> Option<JsonTree> {
        match self {
            JsonTree::Object(members) => if members.contains_key(key) {
                Some(members[key])
            } else {
                None
            },
            _ => None,
        }
    }
}

/// What a value of `serde_json` holds.
pub uninterp spec fn json_tree(value: serde_json::Value) -> JsonTree;

/// What `serde_json::from_str` reads in a text: a value, or the message of an error.
pub uninterp spec fn json_parsed(text: Seq<char>) -> Result<JsonTree, Seq<char>>;

/// Whether a text reads as a JSON value.
pub open spec fn reads_as(text: Seq<char>, tree: JsonTree) -> bool {
    json_parsed(text) == Ok::<JsonTree, Seq<char>>(tree)
}

/// The compact form in which a `serde_json::Value` prints.
pub uninterp spec fn json_printed(tree: JsonTree) -> Seq<char>;

/// Whether a value is made of texts, truth values and whole numbers in lists and objects that are
/// nested no deeper than a given depth.
pub open spec fn json_is_plain(tree: JsonTree, depth: nat) -> bool
    decreases depth,
{
    match tree {
        JsonTree::Null => true,
        JsonTree::Bool(_) => true,
        JsonTree::Number(whole, text) => whole matches Some(number) && text == decimal(
            number as nat,
        ),
        JsonTree::Text(_) => true,
        JsonTree::List(items) => depth > 0 && forall|i: int|
            0 <= i < items.len() ==> json_is_plain(#[trigger] items[i], (depth - 1) as nat),
        JsonTree::Object(members) => depth > 0 && forall|key: Seq<char>|
            members.contains_key(key) ==> json_is_plain(
                #[trigger] members[key],
                (depth - 1) as nat,
            ),
    }
}

/// A character as it stands inside a JSON string: quotes, backslashes and control characters are
/// escaped.
pub open spec fn json_escaped(character: char) -> Seq<char> {
    let code = character as int;
    if character == '"' || character == '\\' {
        seq!['\\', character]
    } else if code == 0x08 {
        seq!['\\', 'b']
    } else if code == 0x09 {
        seq!['\\', 't']
    } else if code == 0x0a {
        seq!['\\', 'n']
    } else if code == 0x0c {
        seq!['\\', 'f']
    } else if code == 0x0d {
        seq!['\\', 'r']
    } else if code < 0x20 {
        seq!['\\', 'u', '0', '0', hex_digit(code / 16), hex_digit(code % 16)]
    } else {
        seq![character]
    }
}

/// The characters of a text as they stand inside a JSON string.
pub open spec fn json_escaped_text(text: Seq<char>) -> Seq<char>
    decreases text.len(),
{
    if text.len() == 0 {
        Seq::empty()
    } else {
        json_escaped(text[0]) + json_escaped_text(text.drop_first())
    }
}

/// A text as a JSON string.
pub open spec fn json_quoted(text: Seq<char>) -> Seq<char> {
    seq!['"'] + json_escaped_text(text) + seq!['"']
}

/// The members of an object that is made of keys and values.
pub open spec fn members_of(pairs: Seq<(String, serde_json::Value)>) -> Map<Seq<char>, JsonTree>
    decreases pairs.len(),
{
    if pairs.len() == 0 {
        Map::empty()
    } else {
        members_of(pairs.drop_last()).insert(pairs.last().0@, json_tree(pairs.last().1))
    }
}

/// `serde_json::to_string` of a text gives the text as a JSON string. It writes to memory and
/// does not fail.
#[verifier::external_body]
pub(crate) fn quote_json(text: &str) -> (result: Result<String, String>)
    ensures
        result is Ok,
        result->Ok_0@ == json_quoted(text@),
{
    serde_json::to_string(text).map_err(|error| error.to_string())
}

/// `serde_json::from_str` reads a text as one JSON value.
#[verifier::external_body]
pub(crate) fn parse_json(text: &str) -> (result: Result<serde_json::Value, String>)
    ensures
        match result {
            Ok(value) => json_parsed(text@) == Ok::<JsonTree, Seq<char>>(json_tree(value)),
            Err(message) => json_parsed(text@) == Err::<JsonTree, Seq<char>>(message@),
        },
{
    serde_json::from_str(text).map_err(|error| error.to_string())
}

/// `serde_json::Value` prints its compact form. What a value without floats prints, nested less
/// deep than the reader goes, `serde_json::from_str` reads back as the same value.
#[verifier::external_body]
pub(crate) fn print_json(value: &serde_json::Value) -> (result: String)
    ensures
        result@ == json_printed(json_tree(*value)),
        json_is_plain(json_tree(*value), 100) ==> reads_as(result@, json_tree(*value)),
{
    value.to_string()
}

/// `serde_json::Value::clone` gives a value that holds the same.
#[verifier::external_body]
pub(crate) fn clone_json(value: &serde_json::Value) -> (result: serde_json::Value)
    ensures
        json_tree(result) == json_tree(*value),
{
    value.clone()
}

/// `serde_json::Value::get` with a key gives the member of an object under the key.
#[verifier::external_body]
pub(crate) fn json_member<'a>(value: &'a serde_json::Value, key: &str) -> (result: Option<
    &'a serde_json::Value,
>)
    ensures
        match result {
            Some(member) => json_tree(*value).member(key@) == Some(json_tree(*member)),
            None => json_tree(*value).member(key@) is None,
        },
{
    value.get(key)
}

/// `serde_json::Value::as_u64` gives a number that is a `u64`.
#[verifier::external_body]
pub(crate) fn json_u64(value: &serde_json::Value) -> (result: Option<u64>)
    ensures
        result == match json_tree(*value) {
            JsonTree::Number(whole, _) => whole,
            _ => None,
        },
{
    value.as_u64()
}

/// `serde_json::Value::as_bool` gives a truth value.
#[verifier::external_body]
pub(crate) fn json_bool(value: &serde_json::Value) -> (result: Option<bool>)
    ensures
        result == match json_tree(*value) {
            JsonTree::Bool(flag) => Some(flag),
            _ => None,
        },
{
    value.as_bool()
}

/// `serde_json::Value::as_str` gives the contents of a string.
#[verifier::external_body]
pub(crate) fn json_str(value: &serde_json::Value) -> (result: Option<&str>)
    ensures
        match result {
            Some(text) => json_tree(*value) == JsonTree::Text(text@),
            None => !(json_tree(*value) is Text),
        },
{
    value.as_str()
}

/// `serde_json::Value::as_array` gives the items of an array.
#[verifier::external_body]
pub(crate) fn json_items(value: &serde_json::Value) -> (result: Option<&Vec<serde_json::Value>>)
    ensures
        match result {
            Some(items) => json_tree(*value) == JsonTree::List(json_trees(items@)),
            None => !(json_tree(*value) is List),
        },
{
    value.as_array()
}

/// What some values hold.
pub open spec fn json_trees(values: Seq<serde_json::Value>) -> Seq<JsonTree> {
    values.map_values(|value: serde_json::Value| json_tree(value))
}

/// `serde_json::Value::from` of a `u64` is that number, which prints in decimal.
#[verifier::external_body]
pub(crate) fn json_from_u64(number: u64) -> (result: serde_json::Value)
    ensures
        json_tree(result) == JsonTree::Number(Some(number), decimal(number as nat)),
{
    serde_json::Value::from(number)
}

/// `serde_json::Value::from` of a `bool` is that truth value.
#[verifier::external_body]
pub(crate) fn json_from_bool(flag: bool) -> (result: serde_json::Value)
    ensures
        json_tree(result) == JsonTree::Bool(flag),
{
    serde_json::Value::from(flag)
}

/// `serde_json::Value::from` of a text is a string with that text.
#[verifier::external_body]
pub(crate) fn json_from_str(text: &str) -> (result: serde_json::Value)
    ensures
        json_tree(result) == JsonTree::Text(text@),
{
    serde_json::Value::from(text)
}

/// Whether no two members have the same key.
pub open spec fn keys_are_distinct(pairs: Seq<(String, serde_json::Value)>) -> bool {
    forall|i: int, j: int|
        0 <= i < j < pairs.len() ==> (#[trigger] pairs[i]).0@ != (#[trigger] pairs[j]).0@
}

/// `serde_json::Map::from_iter` collects keys and values; as a `serde_json::Value` it is the
/// object with these members.
#[verifier::external_body]
pub(crate) fn json_from_members(pairs: Vec<(String, serde_json::Value)>) -> (result:
    serde_json::Value)
    requires
        keys_are_distinct(pairs@),
    ensures
        json_tree(result) == JsonTree::Object(members_of(pairs@)),
{
    serde_json::Value::Object(serde_json::Map::from_iter(pairs))
}

/// The value under a pointer of keys such as `/result/value`.
pub open spec fn pointed(tree: JsonTree, path: Seq<char>) -> Option<JsonTree>
    decreases path.len(),
{
    if path.len() == 0 {
        Some(tree)
    } else {
        let rest = path.drop_first();
        match tree.member(rest.take(key_length(rest) as int)) {
            Some(member) => {
                proof {
                    lemma_key_length(rest);
                }
                pointed(member, rest.skip(key_length(rest) as int))
            },
            None => None,
        }
    }
}

/// The size of the key at the start of the rest of a pointer.
pub open spec fn key_length(rest: Seq<char>) -> nat
    decreases rest.len(),
{
    if rest.len() == 0 || rest[0] == '/' {
        0
    } else {
        1 + key_length(rest.drop_first())
    }
}

pub proof fn lemma_key_length(rest: Seq<char>)
    ensures
        key_length(rest) <= rest.len(),
    decreases rest.len(),
{
    if rest.len() > 0 && rest[0] != '/' {
        lemma_key_length(rest.drop_first());
    }
}

/// Whether a text is a pointer whose keys are made of letters: such a key is neither escaped nor
/// the index of an array.
pub open spec fn is_key_pointer(path: Seq<char>) -> bool {
    &&& path.len() > 0 ==> path[0] == '/'
    &&& forall|i: int|
        0 <= i < path.len() ==> path[i] == '/' || 'a' <= #[trigger] path[i] <= 'z' || 'A' <= path[i]
            <= 'Z'
}

/// `serde_json::Value::pointer` with a pointer of keys walks from member to member.
#[verifier::external_body]
pub(crate) fn json_at<'a>(value: &'a serde_json::Value, path: &str) -> (result: Option<
    &'a serde_json::Value,
>)
    requires
        is_key_pointer(path@),
    ensures
        match result {
            Some(found) => pointed(json_tree(*value), path@) == Some(json_tree(*found)),
            None => pointed(json_tree(*value), path@) is None,
        },
{
    value.pointer(path)
}

/// A pointer with one key more at its front walks to the member under that key first.
pub proof fn lemma_pointed(tree: JsonTree, key: Seq<char>, path: Seq<char>)
    requires
        !key.contains('/'),
        path.len() > 0 ==> path[0] == '/',
    ensures
        pointed(tree, seq!['/'] + key + path) == match tree.member(key) {
            Some(member) => pointed(member, path),
            None => None,
        },
{
    let whole = seq!['/'] + key + path;
    let rest = whole.drop_first();
    assert(rest =~= key + path);
    lemma_key_length_of(key, path);
    assert(rest.take(key.len() as int) =~= key);
    assert(rest.skip(key.len() as int) =~= path);
}

proof fn lemma_key_length_of(key: Seq<char>, path: Seq<char>)
    requires
        !key.contains('/'),
        path.len() > 0 ==> path[0] == '/',
    ensures
        key_length(key + path) == key.len(),
    decreases key.len(),
{
    if key.len() > 0 {
        assert(key.contains(key[0]));
        assert forall|character: char| !key.contains(character) implies !key.drop_first().contains(
            character,
        ) by {
            if key.drop_first().contains(character) {
                let i = choose|i: int|
                    0 <= i < key.drop_first().len() && key.drop_first()[i] == character;
                assert(key[i + 1] == character);
            }
        }
        assert((key + path).drop_first() =~= key.drop_first() + path);
        lemma_key_length_of(key.drop_first(), path);
    } else {
        assert(key + path =~= path);
    }
}

/// The value of a lower-case hexadecimal digit.
pub open spec fn hex_value(character: char) -> int {
    if '0' <= character <= '9' {
        character as int - '0' as int
    } else {
        character as int - 'a' as int + 10
    }
}

/// The character that a backslash and a letter stand for.
pub open spec fn json_unescaped(letter: char) -> char {
    if letter == 'b' {
        0x08int as char
    } else if letter == 't' {
        0x09int as char
    } else if letter == 'n' {
        0x0aint as char
    } else if letter == 'f' {
        0x0cint as char
    } else if letter == 'r' {
        0x0dint as char
    } else {
        letter
    }
}

/// What a reader of JSON takes from the text behind the opening quote of a string: the contents
/// of the string, and what follows its closing quote.
pub open spec fn json_string_read(text: Seq<char>) -> Option<(Seq<char>, Seq<char>)>
    decreases text.len(),
{
    if text.len() == 0 {
        None
    } else if text[0] == '"' {
        Some((Seq::empty(), text.drop_first()))
    } else if text[0] != '\\' {
        with_first(text[0], json_string_read(text.drop_first()))
    } else if text.len() < 2 {
        None
    } else if text[1] != 'u' {
        with_first(json_unescaped(text[1]), json_string_read(text.skip(2)))
    } else if text.len() < 6 {
        None
    } else {
        with_first(
            (4096 * hex_value(text[2]) + 256 * hex_value(text[3]) + 16 * hex_value(text[4])
                + hex_value(text[5])) as char,
            json_string_read(text.skip(6)),
        )
    }
}

/// What was read, with one character more at its front.
pub open spec fn with_first(
    character: char,
    read: Option<(Seq<char>, Seq<char>)>,
) -> Option<(Seq<char>, Seq<char>)> {
    match read {
        Some((contents, rest)) => Some((seq![character] + contents, rest)),
        None => None,
    }
}

/// A text that is quoted as a JSON string reads back as itself, and what follows the string stays
/// outside it.
pub proof fn quoted_text_reads_back(text: Seq<char>, rest: Seq<char>)
    ensures
        json_quoted(text)[0] == '"',
        json_string_read((json_quoted(text) + rest).drop_first()) == Some((text, rest)),
{
    lemma_escaped_text_reads_back(text, rest);
    assert((json_quoted(text) + rest).drop_first() =~= json_escaped_text(text) + seq!['"'] + rest);
}

proof fn lemma_code_is_natural(character: char)
    ensures
        0 <= character as int,
{
}

proof fn lemma_escaped_text_reads_back(text: Seq<char>, rest: Seq<char>)
    ensures
        json_string_read(json_escaped_text(text) + seq!['"'] + rest) == Some((text, rest)),
    decreases text.len(),
{
    let written = json_escaped_text(text) + seq!['"'] + rest;
    if text.len() == 0 {
        assert(written.drop_first() =~= rest);
        assert(text =~= Seq::<char>::empty());
    } else {
        let first = text[0];
        let code = first as int;
        let remaining = json_escaped_text(text.drop_first()) + seq!['"'] + rest;
        lemma_escaped_text_reads_back(text.drop_first(), rest);
        assert(written =~= json_escaped(first) + remaining);
        assert(seq![first] + text.drop_first() =~= text);
        if json_escaped(first).len() == 1 {
            assert(written.drop_first() =~= remaining);
        } else if json_escaped(first).len() == 2 {
            assert(written.skip(2) =~= remaining);
            assert(json_unescaped(written[1]) == first);
        } else {
            assert(written.skip(6) =~= remaining);
            lemma_code_is_natural(first);
            assert(0 <= code / 16 < 2 && 0 <= code % 16 < 16);
            assert(hex_value(written[4]) == code / 16);
            assert(hex_value(written[5]) == code % 16);
            assert(code as char == first);
        }
    }
}

} // verus!
