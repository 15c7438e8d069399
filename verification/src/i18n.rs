//! Translations that are looked up while the program runs.

use vstd::prelude::*;
use vstd::string::*;

use crate::json;
use crate::json::{Json, JsonModel};

verus! {

/// The table of translations, as a JSON object of texts. It is empty in English
/// builds.
pub const TRANSLATIONS: &'static str = "{}";

/// The table is usable: an object with texts only.
pub open spec fn is_table(t: JsonModel) -> bool {
    match t {
        JsonModel::Object(m) => forall|k: Seq<char>|
            #![trigger m[k]]
            m.contains_key(k) ==> m[k].text() is Some,
        _ => false,
    }
}

/// The translation that a table holds; one that is not usable holds none.
pub open spec fn translation(t: Option<JsonModel>, english: Seq<char>) -> Option<Seq<char>> {
    match t {
        Some(m) => if is_table(m) {
            m.text_field(english)
        } else {
            None
        },
        None => None,
    }
}

fn holds_texts_only(table: &Json) -> (r: bool)
    ensures
        r == is_table(table@),
{
    match table {
        Json::Object(entries) => {
            let ghost m = json::entries_model(entries@);
            assert(table@ == JsonModel::Object(m));
            let mut i: usize = 0;
            while i < entries.len()
                invariant
                    i <= entries.len(),
                    *table == Json::Object(*entries),
                    m == json::entries_model(entries@),
                    table@ == JsonModel::Object(m),
                    forall|j: int|
                        0 <= j < i ==> m.contains_key((#[trigger] entries[j]).0@) ==> m[(
                        entries[j]).0@].text() is Some,
                decreases entries.len() - i,
            {
                match table.get(entries[i].0.as_str()) {
                    Some(v) => if v.as_str().is_none() {
                        assert(m.contains_key(entries[i as int].0@));
                        assert(m[entries[i as int].0@].text() is None);
                        return false;
                    },
                    None => {},
                }
                i += 1;
            }
            proof {
                assert forall|k: Seq<char>|
                    #![trigger m[k]]
                    m.contains_key(k) implies m[k].text() is Some by {
                    json::lemma_some_entry(entries@, k);
                    let j = choose|j: int|
                        0 <= j < entries@.len() && (#[trigger] entries@[j]).0@ == k;
                    assert(entries[j].0@ == k);
                }
            }
            true
        },
        _ => false,
    }
}

/// The translation that a table holds; one that is not usable holds none.
pub fn translation_in(table: Option<&Json>, english: &str) -> (r: Option<String>)
    ensures
        crate::lists::text_of(r) == translation(
            match table {
                Some(t) => Some(t@),
                None => None,
            },
            english@,
        ),
{
    match table {
        Some(t) => if holds_texts_only(t) {
            match t.get_str(english) {
                Some(s) => Some(s.to_owned()),
                None => None,
            }
        } else {
            None
        },
        None => None,
    }
}

/// The translation of an English text; `None` leaves it as it is. An English build
/// leaves every text as it is.
pub fn tr(english: &str) -> (r: Option<String>)
    ensures
        crate::lists::text_of(r) == translation(json::parsed(TRANSLATIONS@), english@),
        TRANSLATIONS@ == "{}"@ ==> r is None,
{
    let table = Json::parse(TRANSLATIONS);
    translation_in(table.as_ref(), english)
}

/// A text is translated as the table has it, and left as it is where the table does not have
/// it. A table that holds anything but texts translates nothing.
pub proof fn law_table_translates(
    m: Map<Seq<char>, JsonModel>,
    english: Seq<char>,
    translated: Seq<char>,
    other: Seq<char>,
)
    ensures
        (forall|k: Seq<char>| #[trigger] m.contains_key(k) ==> m[k] is Str) && m.contains_key(
            english,
        ) && m[english] == JsonModel::Str(translated) ==> translation(
            Some(JsonModel::Object(m)),
            english,
        ) == Some(translated),
        !m.contains_key(english) ==> translation(Some(JsonModel::Object(m)), english) is None,
        m.contains_key(other) && !(m[other] is Str) ==> translation(
            Some(JsonModel::Object(m)),
            english,
        ) is None,
        translation(None, english) is None,
        translation(Some(JsonModel::Null), english) is None,
{
    if m.contains_key(other) && !(m[other] is Str) {
        assert(m[other].text() is None);
    }
}

} // verus!
