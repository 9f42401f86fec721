//! Rows of the store as the library sees them: a map from attribute names to
//! attribute values, of which it reads the string and the number.

use crate::string_map::StringMap;
use crate::text::{option_ref_text, option_text};
use vstd::prelude::*;

verus! {

/// One attribute of a row. The store tags each value with its kind; the
/// library reads two kinds, the string (`s`) and the number (`n`), which the
/// store also hands over as text. A value of any other kind has neither.
#[derive(Debug)]
pub struct AttributeValue {
    pub s: Option<String>,
    pub n: Option<String>,
}

/// An attribute as contracts speak of it.
pub struct AttributeValueView {
    pub s: Option<Seq<char>>,
    pub n: Option<Seq<char>>,
}

impl View for AttributeValue {
    type V = AttributeValueView;

    open spec fn view(&self) -> AttributeValueView {
        AttributeValueView { s: option_text(self.s), n: option_text(self.n) }
    }
}

/// The string attribute that holds `text`.
pub open spec fn string_attribute(text: Seq<char>) -> AttributeValueView {
    AttributeValueView { s: Some(text), n: None }
}

/// The number attribute whose digits are `text`.
pub open spec fn number_attribute(text: Seq<char>) -> AttributeValueView {
    AttributeValueView { s: None, n: Some(text) }
}

impl AttributeValue {
    /// A string attribute.
    pub fn string(text: String) -> (value: Self)
        ensures
            value@ == string_attribute(text@),
    {
        AttributeValue { s: Some(text), n: None }
    }

    /// A number attribute, from the number's text.
    pub fn number(text: String) -> (value: Self)
        ensures
            value@ == number_attribute(text@),
    {
        AttributeValue { s: None, n: Some(text) }
    }
}

/// A row: attribute values by attribute name.
pub type Item = StringMap<AttributeValue>;

/// A row as contracts speak of it.
pub type ItemView = Map<Seq<char>, AttributeValueView>;

/// The string stored under `name`, where the row has that attribute and it is
/// a string.
pub open spec fn string_of(item: ItemView, name: Seq<char>) -> Option<Seq<char>> {
    if item.contains_key(name) {
        item[name].s
    } else {
        None
    }
}

/// The text of the number stored under `name`, where the row has that
/// attribute and it is a number.
pub open spec fn number_of(item: ItemView, name: Seq<char>) -> Option<Seq<char>> {
    if item.contains_key(name) {
        item[name].n
    } else {
        None
    }
}

/// Reads a string attribute of a row.
pub fn get_string<'a>(item: &'a Item, name: &str) -> (found: Option<&'a String>)
    ensures
        option_ref_text(found) == string_of(item@, name@),
{
    match item.get(name) {
        Some(value) => value.s.as_ref(),
        None => None,
    }
}

/// Reads the text of a number attribute of a row.
pub fn get_number<'a>(item: &'a Item, name: &str) -> (found: Option<&'a String>)
    ensures
        option_ref_text(found) == number_of(item@, name@),
{
    match item.get(name) {
        Some(value) => value.n.as_ref(),
        None => None,
    }
}

/// The views of a list of rows.
pub open spec fn items_view(items: Seq<Item>) -> Seq<ItemView> {
    items.map_values(|item: Item| item@)
}

} // verus!
