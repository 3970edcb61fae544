//! Reading the answers of read-only contract calls.
use vstd::prelude::*;
use crate::felt::{Felt, short_string_of};
use crate::metadata::{JsonValue, field_of, find_field};

verus! {

pub open spec fn is_owner_of_name(s: Seq<char>) -> bool {
    s == "ownerOf"@ || s == "owner_of"@
}

/// A contract is taken for a single-owner token contract when its ABI has a
/// function `ownerOf` or `owner_of`; `function_names` are the names of the
/// ABI's function entries.
pub fn is_erc721_abi(function_names: &Vec<String>) -> (r: bool)
    ensures
        r == exists|i: int| 0 <= i < function_names@.len() && is_owner_of_name(#[trigger] function_names@[i]@),
{
    let camel = "ownerOf".to_owned();
    let snake = "owner_of".to_owned();
    let mut i: usize = 0;
    while i < function_names.len()
        invariant
            i <= function_names@.len(),
            camel@ == "ownerOf"@,
            snake@ == "owner_of"@,
            forall|j: int| 0 <= j < i ==> !is_owner_of_name(#[trigger] function_names@[j]@),
        decreases function_names@.len() - i,
    {
        if function_names[i] == camel || function_names[i] == snake {
            return true;
        }
        i = i + 1;
    }
    false
}

/// The member `key` of object members `fs` is the string `text`.
pub open spec fn member_is(fs: Seq<crate::metadata::JsonField>, key: Seq<char>, text: Seq<char>) -> bool {
    match field_of(fs, key) {
        Some(JsonValue::Str(s)) => s@ == text,
        _ => false,
    }
}

/// An ABI entry `{"type": "function", "name": "ownerOf" | "owner_of", ...}`.
pub open spec fn is_owner_of_entry(v: JsonValue) -> bool {
    match v {
        JsonValue::Object(fs) => member_is(fs@, "type"@, "function"@) && match field_of(fs@, "name"@) {
            Some(JsonValue::Str(n)) => is_owner_of_name(n@),
            _ => false,
        },
        _ => false,
    }
}

/// An ABI entry that is such a function, or an interface
/// (`{"type": "interface", "items": [...]}`) listing one.
pub open spec fn declares_owner_of(v: JsonValue) -> bool {
    is_owner_of_entry(v) || match v {
        JsonValue::Object(fs) => member_is(fs@, "type"@, "interface"@) && match field_of(fs@, "items"@) {
            Some(JsonValue::Array(items)) => exists|j: int|
                0 <= j < items@.len() && is_owner_of_entry(#[trigger] items@[j]),
            _ => false,
        },
        _ => false,
    }
}

fn string_member_is(fs: &Vec<crate::metadata::JsonField>, key: &str, text: &str) -> (r: bool)
    ensures
        r == member_is(fs@, key@, text@),
{
    match find_field(fs, &key.to_owned()) {
        Some(i) => match &fs[i].value {
            JsonValue::Str(s) => *s == text.to_owned(),
            _ => false,
        },
        None => false,
    }
}

fn owner_of_entry(v: &JsonValue) -> (r: bool)
    ensures
        r == is_owner_of_entry(*v),
{
    match v {
        JsonValue::Object(fs) => {
            if !string_member_is(fs, "type", "function") {
                return false;
            }
            match find_field(fs, &"name".to_owned()) {
                Some(i) => match &fs[i].value {
                    JsonValue::Str(n) => *n == "ownerOf".to_owned() || *n == "owner_of".to_owned(),
                    _ => false,
                },
                None => false,
            }
        },
        _ => false,
    }
}

fn any_owner_of_entry(items: &Vec<JsonValue>) -> (r: bool)
    ensures
        r == exists|j: int| 0 <= j < items@.len() && is_owner_of_entry(#[trigger] items@[j]),
{
    let mut i: usize = 0;
    while i < items.len()
        invariant
            i <= items@.len(),
            forall|j: int| 0 <= j < i ==> !is_owner_of_entry(#[trigger] items@[j]),
        decreases items@.len() - i,
    {
        if owner_of_entry(&items[i]) {
            return true;
        }
        i = i + 1;
    }
    false
}

fn entry_declares_owner_of(v: &JsonValue) -> (r: bool)
    ensures
        r == declares_owner_of(*v),
{
    if owner_of_entry(v) {
        return true;
    }
    match v {
        JsonValue::Object(fs) => {
            if !string_member_is(fs, "type", "interface") {
                return false;
            }
            match find_field(fs, &"items".to_owned()) {
                Some(i) => match &fs[i].value {
                    JsonValue::Array(items) => any_owner_of_entry(items),
                    _ => false,
                },
                None => false,
            }
        },
        _ => false,
    }
}

/// The Sierra-class form of the same test, on the class's ABI document: an
/// array of entries one of which declares `ownerOf` or `owner_of`, at top
/// level or inside an interface.
pub fn is_erc721_sierra_abi(abi: &JsonValue) -> (r: bool)
    ensures
        r == (abi matches JsonValue::Array(entries) && exists|i: int|
            0 <= i < entries@.len() && declares_owner_of(#[trigger] entries@[i])),
{
    match abi {
        JsonValue::Array(entries) => {
            let mut i: usize = 0;
            while i < entries.len()
                invariant
                    i <= entries@.len(),
                    abi matches JsonValue::Array(e) && e@ == entries@,
                    forall|j: int| 0 <= j < i ==> !declares_owner_of(#[trigger] entries@[j]),
                decreases entries@.len() - i,
            {
                if entry_declares_owner_of(&entries[i]) {
                    assert(declares_owner_of(entries@[i as int]));
                    return true;
                }
                i = i + 1;
            }
            false
        },
        _ => false,
    }
}

/// The text a view call (`name`, `symbol`, token URI) answered: its first
/// word read as a short string, or the empty string when it answered nothing.
pub fn text_of_call_result(words: &Vec<Felt>) -> (r: String)
    ensures
        words@.len() == 0 ==> r@ == Seq::<char>::empty(),
        words@.len() > 0 ==> r@ == short_string_of(words@[0].spec_bytes_be()),
{
    if words.len() == 0 {
        String::new()
    } else {
        words[0].to_ascii()
    }
}

} // verus!
