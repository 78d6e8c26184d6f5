//! Property lists as the crate `plist` reads them.
use vstd::prelude::*;

use crate::clock::ClockRange;
use crate::xml_date::dates_are_readable;

verus! {

/// A value of a property list.
#[verifier::external_type_specification]
#[verifier::external_body]
pub struct ExternalPlistValue(plist::Value);

/// A dictionary of a property list.
#[verifier::external_type_specification]
#[verifier::external_body]
pub struct ExternalPlistDictionary(plist::Dictionary);

/// What a value of a property list holds, as far as it is a text or a dictionary.
pub enum PlistTree {
    Text(Seq<char>),
    Dictionary(Map<Seq<char>, PlistTree>),
    Other,
}

/// What a value of a property list holds.
pub uninterp spec fn plist_tree(value: plist::Value) -> PlistTree;

/// What a dictionary of a property list holds.
pub uninterp spec fn plist_entries(dictionary: plist::Dictionary) -> Map<Seq<char>, PlistTree>;

/// What `plist::Value::from_reader` reads in some bytes: a value, or the message of an error.
pub uninterp spec fn plist_parsed(bytes: Seq<u8>) -> Result<PlistTree, Seq<char>>;

/// `plist::Value::from_reader` reads bytes as a property list of any encoding. It panics on a date
/// in XML that lies, in universal time, behind the year 9999, and on one before what the clock of
/// the system holds; such a date in a binary list is refused. On a clock that holds the whole
/// calendar the result rests on the bytes alone.
#[verifier::external_body]
pub(crate) fn parse_plist(bytes: &[u8], clock: &ClockRange) -> (result: Result<
    plist::Value,
    String,
>)
    requires
        dates_are_readable(bytes@),
        clock.spans_calendar(),
    ensures
        match result {
            Ok(value) => plist_parsed(bytes@) == Ok::<PlistTree, Seq<char>>(plist_tree(value)),
            Err(message) => plist_parsed(bytes@) == Err::<PlistTree, Seq<char>>(message@),
        },
{
    plist::Value::from_reader(std::io::Cursor::new(bytes)).map_err(|error| error.to_string())
}

/// `plist::Value::as_dictionary` gives a dictionary.
#[verifier::external_body]
pub(crate) fn plist_dictionary(value: &plist::Value) -> (result: Option<&plist::Dictionary>)
    ensures
        match result {
            Some(dictionary) => plist_tree(*value) == PlistTree::Dictionary(
                plist_entries(*dictionary),
            ),
            None => !(plist_tree(*value) is Dictionary),
        },
{
    value.as_dictionary()
}

/// `plist::Dictionary::get` gives the value under a key.
#[verifier::external_body]
pub(crate) fn plist_entry<'a>(dictionary: &'a plist::Dictionary, key: &str) -> (result: Option<
    &'a plist::Value,
>)
    ensures
        match result {
            Some(value) => plist_entries(*dictionary).contains_key(key@) && plist_entries(
                *dictionary,
            )[key@] == plist_tree(*value),
            None => !plist_entries(*dictionary).contains_key(key@),
        },
{
    dictionary.get(key)
}

/// `plist::Value::as_string` gives the contents of a text.
#[verifier::external_body]
pub(crate) fn plist_text(value: &plist::Value) -> (result: Option<&str>)
    ensures
        match result {
            Some(text) => plist_tree(*value) == PlistTree::Text(text@),
            None => !(plist_tree(*value) is Text),
        },
{
    value.as_string()
}

} // verus!
