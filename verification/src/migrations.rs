//! Migrations of one settings object.
//!
//! Each function brings one object of settings from an older form to the current
//! one. `path` tells where the object stands in its file and is used in error
//! messages only. An object that a migration refuses is left as it is.

use vstd::prelude::*;
use vstd::string::*;

use crate::json;
use crate::json::Json;
use crate::json::JsonModel;
use crate::json::Written;
use crate::lists;
use crate::text;

verus! {

/// Why a migration refuses an object. The texts are the paths of settings.
#[derive(Debug, PartialEq, Eq)]
pub enum MigrationError {
    /// A formatter stands under both keys.
    FormatterSetTwice { from: String, to: String },
    /// `code_actions_on_format` is no object.
    CodeActionsNotMap(String),
    /// A `code_action` is no text.
    CodeActionNotText(String),
    /// `file_finder` is no object.
    FileFinderNotObject,
    /// `include_ignored` is neither a boolean, nor null, nor one of the new names.
    IncludeIgnoredInvalid,
}

impl MigrationError {
    /// The error in words.
    pub fn message(&self) -> (r: String)
        ensures
            r@ == (match *self {
                MigrationError::FormatterSetTwice { from, to } =>
                    "在 \"format_on_save\" 和 \"formatter\" 中同时设置格式化工具已弃用。请将格式化工具从 "@
                    + from@ + " 迁移到 "@ + to@,
                MigrationError::CodeActionsNotMap(path) =>
                    "`code_actions_on_format` 处于无效状态,无法在 "@ + path@
                    + " 处迁移。请确保 code_actions_on_format 设置为 Map<String, bool>"@,
                MigrationError::CodeActionNotText(path) =>
                    "`code_action` 处于无效状态,无法在 "@ + path@
                    + " 处迁移。请确保 code_action 设置为 String"@,
                MigrationError::FileFinderNotObject => "file_finder 应为一个对象"@,
                MigrationError::IncludeIgnoredInvalid =>
                    "include_ignored 应为布尔值或 null"@,
            }),
    {
        match self {
            MigrationError::FormatterSetTwice { from, to } => {
                let mut s = text::join(
                    "在 \"format_on_save\" 和 \"formatter\" 中同时设置格式化工具已弃用。请将格式化工具从 ",
                    from.as_str(),
                );
                s.append(" 迁移到 ");
                s.append(to.as_str());
                s
            },
            MigrationError::CodeActionsNotMap(path) => {
                let mut s = text::join(
                    "`code_actions_on_format` 处于无效状态,无法在 ",
                    path.as_str(),
                );
                s.append(" 处迁移。请确保 code_actions_on_format 设置为 Map<String, bool>");
                s
            },
            MigrationError::CodeActionNotText(path) => {
                let mut s = text::join(
                    "`code_action` 处于无效状态,无法在 ",
                    path.as_str(),
                );
                s.append(" 处迁移。请确保 code_action 设置为 String");
                s
            },
            MigrationError::FileFinderNotObject => "file_finder 应为一个对象".to_owned(),
            MigrationError::IncludeIgnoredInvalid =>
                "include_ignored 应为布尔值或 null".to_owned(),
        }
    }
}

/// The path of a key: the path of its object and the key, joined by dots.
pub open spec fn key_path(path: Seq<Seq<char>>, key: Seq<char>) -> Seq<char>
    decreases path.len(),
{
    if path.len() == 0 {
        key
    } else {
        path[0] + seq!['.'] + key_path(path.skip(1), key)
    }
}

fn fmt_path(path: &Vec<String>, key: &str) -> (r: String)
    ensures
        r@ == key_path(lists::texts(path@), key@),
{
    let ghost all = lists::texts(path@);
    let mut r = key.to_owned();
    let mut i: usize = path.len();
    assert(all.skip(all.len() as int) =~= Seq::empty());
    while i > 0
        invariant
            i <= path.len(),
            all == lists::texts(path@),
            r@ == key_path(all.skip(i as int), key@),
        decreases i,
    {
        i -= 1;
        let mut s = path[i].clone();
        text::push_char(&mut s, '.');
        s.append(r.as_str());
        assert(all.skip(i as int).skip(1) =~= all.skip(i + 1));
        assert(s@ =~= path@[i as int]@ + seq!['.'] + r@);
        r = s;
    }
    assert(all.skip(0) =~= all);
    r
}

// ---------------------------------------------------------------------------
// Formatters under `format_on_save`
// ---------------------------------------------------------------------------

/// `format_on_save` holds a formatter: it is something other than the texts `on`
/// and `off`.
pub open spec fn names_formatter(v: JsonModel) -> bool {
    v != JsonModel::Str("on"@) && v != JsonModel::Str("off"@)
}

/// The object with the formatter moved to a key of its own; `None` where that key
/// is taken.
pub open spec fn formatter_moved(v: JsonModel) -> Option<JsonModel> {
    match v.field("format_on_save"@) {
        Some(f) => if !names_formatter(f) {
            Some(v)
        } else if v.field("formatter"@) is Some {
            None
        } else {
            Some(
                JsonModel::Object(
                    v->Object_0.insert("format_on_save"@, JsonModel::Str("on"@)).insert(
                        "formatter"@,
                        f,
                    ),
                ),
            )
        },
        None => Some(v),
    }
}

/// The entries of an object whose formatter is moved: `format_on_save` keeps its
/// place, and `formatter` comes last.
pub open spec fn formatter_put(w: Written) -> Seq<(Seq<char>, Written)> {
    json::put(
        json::put(w->Object_0, "format_on_save"@, Written::Str("on"@)),
        "formatter"@,
        w.entry("format_on_save"@)->0,
    )
}

/// Moves a formatter from `format_on_save` to `formatter`, and sets the former to
/// `on`. It is an error where both hold one.
pub fn remove_formatters_on_save(value: &mut Json, path: &Vec<String>) -> (r: Result<
    (),
    MigrationError,
>)
    ensures
        match formatter_moved(old(value)@) {
            Some(v) => r is Ok && final(value)@ == v && (if v == old(value)@ {
                *final(value) == *old(value)
            } else {
                final(value).written() == Written::Object(
                    formatter_put(old(value).written()),
                )
            }),
            None => *final(value) == *old(value) && (r matches Err(
                MigrationError::FormatterSetTwice { from, to },
            ) && from@ == key_path(lists::texts(path@), "format_on_save"@) && to@ == key_path(
                lists::texts(path@),
                "formatter"@,
            )),
        },
{
    let formatter = match value.get("format_on_save") {
        Some(f) => {
            if let Some(s) = f.as_str() {
                if text::same(s, "on") || text::same(s, "off") {
                    return Ok(());
                }
            }
            f.duplicate()
        },
        None => return Ok(()),
    };
    if value.get("formatter").is_some() {
        return Err(
            MigrationError::FormatterSetTwice {
                from: fmt_path(path, "format_on_save"),
                to: fmt_path(path, "formatter"),
            },
        );
    }
    let ghost before = value@;
    value.set("format_on_save", Json::Str("on".to_owned()));
    value.set("formatter", formatter);
    assert(value@.field("formatter"@) != before.field("formatter"@));
    Ok(())
}

// ---------------------------------------------------------------------------
// Code actions under `formatter`
// ---------------------------------------------------------------------------

/// The formatters of an object: the elements of an array, or a single one.
pub open spec fn formatters(f: JsonModel) -> Seq<JsonModel> {
    match f {
        JsonModel::Array(items) => items,
        _ => seq![f],
    }
}

/// What a list of formatters amounts to.
pub ghost enum CodeActions {
    /// One of them is no code action, before any bad one.
    Mixed,
    /// One of them is a code action without a name, before any other kind.
    Bad,
    /// All of them are code actions, with these names.
    Names(Seq<Seq<char>>),
}

/// The first `n` formatters, seen in order: the first that is no code action, or
/// is one without a name, decides.
pub open spec fn code_actions(items: Seq<JsonModel>, n: int) -> CodeActions
    decreases n,
{
    if n <= 0 || n > items.len() {
        CodeActions::Names(Seq::empty())
    } else {
        match code_actions(items, n - 1) {
            CodeActions::Names(names) => match items[n - 1].field("code_action"@) {
                None => CodeActions::Mixed,
                Some(v) => match v.text() {
                    None => CodeActions::Bad,
                    Some(name) => CodeActions::Names(names.push(name)),
                },
            },
            decided => decided,
        }
    }
}

/// The map with every name set to true, the last name first.
pub open spec fn all_enabled(m: Map<Seq<char>, JsonModel>, names: Seq<Seq<char>>) -> Map<
    Seq<char>,
    JsonModel,
>
    decreases names.len(),
{
    if names.len() == 0 {
        m
    } else {
        all_enabled(m, names.skip(1)).insert(names[0], JsonModel::Bool(true))
    }
}

/// The `code_actions_on_format` of an object; an empty one where there is none.
pub open spec fn on_format(v: JsonModel) -> JsonModel {
    match v.field("code_actions_on_format"@) {
        Some(c) => c,
        None => JsonModel::Object(Map::empty()),
    }
}

/// What the migration makes of an object.
pub ghost enum Restored {
    NotMap,
    NotText,
    To(JsonModel),
}

/// The object with its code actions in their own map, where all its formatters are
/// code actions.
pub open spec fn code_actions_restored(v: JsonModel) -> Restored {
    if !(v is Object) {
        Restored::To(v)
    } else if !(on_format(v) is Object) {
        Restored::NotMap
    } else {
        match v.field("formatter"@) {
            None => Restored::To(v),
            Some(f) => {
                let items = formatters(f);
                if items.len() == 0 {
                    Restored::To(v)
                } else {
                    match code_actions(items, items.len() as int) {
                        CodeActions::Mixed => Restored::To(v),
                        CodeActions::Bad => Restored::NotText,
                        CodeActions::Names(names) => Restored::To(
                            JsonModel::Object(
                                v->Object_0.insert(
                                    "formatter"@,
                                    JsonModel::Array(Seq::empty()),
                                ).insert(
                                    "code_actions_on_format"@,
                                    JsonModel::Object(all_enabled(on_format(v)->Object_0, names)),
                                ),
                            ),
                        ),
                    }
                }
            },
        }
    }
}

/// The names that the migration moves out of an object, if it moves any.
pub open spec fn moved_names(v: JsonModel) -> Option<Seq<Seq<char>>> {
    match v.field("formatter"@) {
        Some(f) => {
            let items = formatters(f);
            if items.len() == 0 || !(on_format(v) is Object) {
                None
            } else {
                match code_actions(items, items.len() as int) {
                    CodeActions::Names(names) => Some(names),
                    _ => None,
                }
            }
        },
        None => None,
    }
}

/// The entries with every name set to true, the last name first: a name that is
/// there keeps its place, and a new one comes last.
pub open spec fn enabled_in_order(
    es: Seq<(Seq<char>, Written)>,
    names: Seq<Seq<char>>,
) -> Seq<(Seq<char>, Written)>
    decreases names.len(),
{
    if names.len() == 0 {
        es
    } else {
        json::put(enabled_in_order(es, names.skip(1)), names[0], Written::Bool(true))
    }
}

/// The entries of the `code_actions_on_format` of an object, in their order.
pub open spec fn on_format_entries(w: Written) -> Seq<(Seq<char>, Written)> {
    match w.entry("code_actions_on_format"@) {
        Some(Written::Object(es)) => es,
        _ => Seq::empty(),
    }
}

/// The entries of an object whose code actions are moved: `formatter` keeps its
/// place, and so does `code_actions_on_format` where there is one.
pub open spec fn code_actions_put(w: Written, names: Seq<Seq<char>>) -> Seq<
    (Seq<char>, Written),
> {
    json::put(
        json::put(w->Object_0, "formatter"@, Written::Array(Seq::empty())),
        "code_actions_on_format"@,
        Written::Object(enabled_in_order(on_format_entries(w), names)),
    )
}

/// The names of a list of code actions, or what kind of list it is instead.
enum Collected {
    Mixed,
    Bad,
    Names(Vec<String>),
}

fn collect_code_actions(items: &Vec<Json>) -> (r: Collected)
    ensures
        match code_actions(json::elements_model(items@), items@.len() as int) {
            CodeActions::Mixed => r is Mixed,
            CodeActions::Bad => r is Bad,
            CodeActions::Names(names) => r matches Collected::Names(v) && lists::texts(v@) == names,
        },
{
    let ghost all = json::elements_model(items@);
    proof {
        json::lemma_elements(items@);
    }
    let mut names: Vec<String> = Vec::new();
    let mut i: usize = 0;
    assert(lists::texts(names@) =~= Seq::empty());
    while i < items.len()
        invariant
            i <= items.len(),
            all == json::elements_model(items@),
            all.len() == items.len(),
            forall|k: int| 0 <= k < items.len() ==> #[trigger] all[k] == items@[k].model(),
            code_actions(all, i as int) == CodeActions::Names(lists::texts(names@)),
        decreases items.len() - i,
    {
        assert(all[i as int] == items@[i as int]@);
        match items[i].get("code_action") {
            None => {
                proof {
                    lemma_decided(all, i + 1, all.len() as int);
                }
                return Collected::Mixed;
            },
            Some(v) => match v.as_str() {
                None => {
                    proof {
                        lemma_decided(all, i + 1, all.len() as int);
                    }
                    return Collected::Bad;
                },
                Some(name) => {
                    let ghost before = names@;
                    names.push(name.to_owned());
                    assert(lists::texts(names@) =~= lists::texts(before).push(name@));
                },
            },
        }
        i += 1;
    }
    Collected::Names(names)
}

/// Once a formatter has decided, the later ones do not matter.
proof fn lemma_decided(items: Seq<JsonModel>, from: int, to: int)
    requires
        0 <= from <= to <= items.len(),
        !(code_actions(items, from) is Names),
    ensures
        code_actions(items, to) == code_actions(items, from),
    decreases to - from,
{
    if from < to {
        lemma_decided(items, from, to - 1);
    }
}

fn enable_all(map: &mut Json, names: &Vec<String>)
    requires
        old(map)@ is Object,
    ensures
        final(map)@ == JsonModel::Object(
            all_enabled(old(map)@->Object_0, lists::texts(names@)),
        ),
        final(map).written() == Written::Object(
            enabled_in_order(old(map).written()->Object_0, lists::texts(names@)),
        ),
{
    let ghost all = lists::texts(names@);
    let ghost before = map@->Object_0;
    let ghost entries = map.written()->Object_0;
    let mut i: usize = names.len();
    assert(all.skip(all.len() as int) =~= Seq::empty());
    while i > 0
        invariant
            i <= names.len(),
            all == lists::texts(names@),
            map@ == JsonModel::Object(all_enabled(before, all.skip(i as int))),
            map.written() == Written::Object(enabled_in_order(entries, all.skip(i as int))),
        decreases i,
    {
        i -= 1;
        map.set(names[i].as_str(), Json::Bool(true));
        assert(all.skip(i as int).skip(1) =~= all.skip(i + 1));
        assert(all.skip(i as int)[0] == names@[i as int]@);
    }
    assert(all.skip(0) =~= all);
}

/// Moves the formatters that are code actions to `code_actions_on_format`, where
/// all of them are. It is an error where that is no object, or a code action has
/// no name.
pub fn restore_code_actions_on_format(value: &mut Json, path: &Vec<String>) -> (r: Result<
    (),
    MigrationError,
>)
    ensures
        match code_actions_restored(old(value)@) {
            Restored::To(v) => r is Ok && final(value)@ == v && (match moved_names(old(value)@) {
                Some(names) => final(value).written() == Written::Object(
                    code_actions_put(old(value).written(), names),
                ),
                None => *final(value) == *old(value),
            }),
            Restored::NotMap => *final(value) == *old(value) && (r matches Err(
                MigrationError::CodeActionsNotMap(at),
            ) && at@ == key_path(lists::texts(path@), "code_actions_on_format"@)),
            Restored::NotText => *final(value) == *old(value) && (r matches Err(
                MigrationError::CodeActionNotText(at),
            ) && at@ == key_path(lists::texts(path@), "formatter"@)),
        },
{
    if !value.is_object() {
        return Ok(());
    }
    let mut map = match value.get("code_actions_on_format") {
        Some(c) => c.duplicate(),
        None => {
            let empty = Json::Object(Vec::new());
            assert(empty@ == JsonModel::Object(Map::empty()));
            assert(empty.written() == Written::Object(Seq::empty()));
            empty
        },
    };
    if !map.is_object() {
        return Err(MigrationError::CodeActionsNotMap(fmt_path(path, "code_actions_on_format")));
    }
    let items: Vec<Json> = match value.get("formatter") {
        None => return Ok(()),
        Some(f) => match f.as_array() {
            Some(items) => {
                if items.len() == 0 {
                    return Ok(());
                }
                proof {
                    json::lemma_elements(items@);
                }
                json::duplicate_all(items)
            },
            None => {
                let mut one: Vec<Json> = Vec::new();
                one.push(f.duplicate());
                proof {
                    json::lemma_elements(one@);
                    assert(json::elements_model(one@) =~= seq![f@]);
                }
                one
            },
        },
    };
    proof {
        json::lemma_elements(items@);
    }
    match collect_code_actions(&items) {
        Collected::Mixed => Ok(()),
        Collected::Bad => Err(MigrationError::CodeActionNotText(fmt_path(path, "formatter"))),
        Collected::Names(names) => {
            enable_all(&mut map, &names);
            let none = Json::Array(Vec::new());
            assert(none@ == JsonModel::Array(Seq::empty()));
            assert(none.written() == Written::Array(Seq::empty()));
            value.set("formatter", none);
            value.set("code_actions_on_format", map);
            Ok(())
        },
    }
}

// ---------------------------------------------------------------------------
// `include_ignored` of the file finder
// ---------------------------------------------------------------------------

/// The new name of an old value of `include_ignored`; a new name stays, and
/// anything else has none.
pub open spec fn ignored_name(v: JsonModel) -> Option<JsonModel> {
    if v == JsonModel::Bool(true) {
        Some(JsonModel::Str("all"@))
    } else if v == JsonModel::Bool(false) {
        Some(JsonModel::Str("indexed"@))
    } else if v == JsonModel::Null {
        Some(JsonModel::Str("smart"@))
    } else if v == JsonModel::Str("all"@) || v == JsonModel::Str("indexed"@) || v
        == JsonModel::Str("smart"@) {
        Some(v)
    } else {
        None
    }
}

/// What the migration makes of an object.
pub ghost enum FinderResult {
    NotObject,
    Invalid,
    To(JsonModel),
}

/// The object with the new name of `include_ignored`.
pub open spec fn finder_migrated(v: JsonModel) -> FinderResult {
    match v.field("file_finder"@) {
        None => FinderResult::To(v),
        Some(finder) => match finder {
            JsonModel::Object(m) => match finder.field("include_ignored"@) {
                None => FinderResult::To(v),
                Some(ignored) => match ignored_name(ignored) {
                    None => FinderResult::Invalid,
                    Some(name) => FinderResult::To(
                        JsonModel::Object(
                            v->Object_0.insert(
                                "file_finder"@,
                                JsonModel::Object(m.insert("include_ignored"@, name)),
                            ),
                        ),
                    ),
                },
            },
            _ => FinderResult::NotObject,
        },
    }
}

/// The new name that the migration gives to the `include_ignored` of an object.
pub open spec fn finder_name(v: JsonModel) -> Option<Seq<char>> {
    match v.field("file_finder"@) {
        Some(finder) => match finder.field("include_ignored"@) {
            Some(ignored) => match ignored_name(ignored) {
                Some(name) => name.text(),
                None => None,
            },
            None => None,
        },
        None => None,
    }
}

/// The entries of an object whose `include_ignored` has a new name: each entry
/// keeps its place.
pub open spec fn finder_put(w: Written, name: Seq<char>) -> Seq<(Seq<char>, Written)> {
    let finder = json::put(
        w.entry("file_finder"@)->0->Object_0,
        "include_ignored"@,
        Written::Str(name),
    );
    json::put(w->Object_0, "file_finder"@, Written::Object(finder))
}

fn new_ignored_name(v: &Json) -> (r: Option<Json>)
    ensures
        match r {
            Some(name) => ignored_name(v@) == Some(name@) && name.written() == Written::Str(
                name@->Str_0,
            ),
            None => ignored_name(v@) is None,
        },
{
    match v {
        Json::Bool(b) => if *b {
            Some(Json::Str("all".to_owned()))
        } else {
            Some(Json::Str("indexed".to_owned()))
        },
        Json::Null => Some(Json::Str("smart".to_owned())),
        Json::Str(s) => if text::same(s.as_str(), "all") || text::same(s.as_str(), "indexed")
            || text::same(s.as_str(), "smart") {
            Some(Json::Str(s.clone()))
        } else {
            None
        },
        _ => None,
    }
}

/// Gives `file_finder.include_ignored` its new name: `all` for true, `indexed` for
/// false, `smart` for null.
pub fn make_file_finder_include_ignored_an_enum(value: &mut Json) -> (r: Result<
    (),
    MigrationError,
>)
    ensures
        match finder_migrated(old(value)@) {
            FinderResult::To(v) => r is Ok && final(value)@ == v && (match finder_name(
                old(value)@,
            ) {
                Some(name) => final(value).written() == Written::Object(
                    finder_put(old(value).written(), name),
                ),
                None => *final(value) == *old(value),
            }),
            FinderResult::NotObject => *final(value) == *old(value) && r == Err::<
                (),
                MigrationError,
            >(MigrationError::FileFinderNotObject),
            FinderResult::Invalid => *final(value) == *old(value) && r == Err::<
                (),
                MigrationError,
            >(MigrationError::IncludeIgnoredInvalid),
        },
{
    let mut finder = match value.get("file_finder") {
        None => return Ok(()),
        Some(f) => f.duplicate(),
    };
    if !finder.is_object() {
        return Err(MigrationError::FileFinderNotObject);
    }
    let name = match finder.get("include_ignored") {
        None => return Ok(()),
        Some(v) => match new_ignored_name(v) {
            Some(name) => name,
            None => return Err(MigrationError::IncludeIgnoredInvalid),
        },
    };
    finder.set("include_ignored", name);
    value.set("file_finder", finder);
    Ok(())
}

// ---------------------------------------------------------------------------
// A registry entry in the place of the built-in agent
// ---------------------------------------------------------------------------

/// The entry shadows the built-in agent: it refers to a registry or has no type,
/// and gives no command of its own.
pub open spec fn shadows_builtin(entry: JsonModel) -> bool {
    entry is Object && (entry.text_field("type"@) == Some("registry"@) || entry.field(
        "type"@,
    ) is None) && entry.field("command"@) is None
}

/// The entry of the built-in agent, where there is one.
pub open spec fn vibedev_entry(v: JsonModel) -> Option<JsonModel> {
    match v.field("agent_servers"@) {
        Some(servers) => servers.field("VibeDev"@),
        None => None,
    }
}

/// The object without an entry that shadows the built-in agent, and without a map
/// of agents that is empty for that.
pub open spec fn healed(v: JsonModel) -> JsonModel {
    match vibedev_entry(v) {
        Some(entry) => if shadows_builtin(entry) {
            let rest = v.field("agent_servers"@)->0->Object_0.remove("VibeDev"@);
            if rest == Map::<Seq<char>, JsonModel>::empty() {
                JsonModel::Object(v->Object_0.remove("agent_servers"@))
            } else {
                JsonModel::Object(
                    v->Object_0.insert("agent_servers"@, JsonModel::Object(rest)),
                )
            }
        } else {
            v
        },
        None => v,
    }
}

fn is_shadow(entry: &Json) -> (r: bool)
    ensures
        r == shadows_builtin(entry@),
{
    if !entry.is_object() {
        return false;
    }
    let from_registry = match entry.get_str("type") {
        Some(t) => text::same(t, "registry"),
        None => false,
    };
    (from_registry || entry.get("type").is_none()) && entry.get("command").is_none()
}

/// The entries of an object without the entry of the built-in agent. In either
/// object, the last entry takes the place of the one that goes.
pub open spec fn agent_taken(w: Written) -> Seq<(Seq<char>, Written)> {
    let rest = json::taken(w.entry("agent_servers"@)->0->Object_0, "VibeDev"@);
    if rest.len() == 0 {
        json::taken(w->Object_0, "agent_servers"@)
    } else {
        json::put(w->Object_0, "agent_servers"@, Written::Object(rest))
    }
}

/// Takes out an entry that shadows the built-in agent. It never fails.
pub fn heal_vibedev_registry_override(value: &mut Json) -> (r: Result<(), MigrationError>)
    ensures
        r is Ok,
        final(value)@ == healed(old(value)@),
        match vibedev_entry(old(value)@) {
            Some(entry) => if shadows_builtin(entry) {
                old(value).written().keyed() ==> final(value).written() == Written::Object(
                    agent_taken(old(value).written()),
                )
            } else {
                *final(value) == *old(value)
            },
            None => *final(value) == *old(value),
        },
{
    let mut servers = match value.get("agent_servers") {
        None => return Ok(()),
        Some(s) => {
            let strip = match s.get("VibeDev") {
                Some(entry) => is_shadow(entry),
                None => false,
            };
            if !strip {
                return Ok(());
            }
            s.duplicate()
        },
    };
    proof {
        if value.written().keyed() {
            json::lemma_entry_keyed(value.written(), "agent_servers"@);
        }
    }
    servers.remove("VibeDev");
    if servers.is_empty_object() {
        value.remove("agent_servers");
    } else {
        value.set("agent_servers", servers);
    }
    Ok(())
}

// ---------------------------------------------------------------------------
// Laws
// ---------------------------------------------------------------------------

/// Enabling names moves no entry: each key that was there stays where it was. Names
/// that are new follow the others, the last name first.
pub proof fn law_new_names_follow_last_first(
    es: Seq<(Seq<char>, Written)>,
    names: Seq<Seq<char>>,
)
    ensures
        enabled_in_order(es, names).len() >= es.len(),
        forall|i: int|
            0 <= i < es.len() ==> (#[trigger] enabled_in_order(es, names)[i]).0 == es[i].0,
        names.no_duplicates() && (forall|i: int|
            0 <= i < names.len() ==> json::last_place(es, #[trigger] names[i]) is None)
            ==> enabled_in_order(es, names) == es + Seq::new(
            names.len(),
            |i: int| (names[names.len() - 1 - i], Written::Bool(true)),
        ),
    decreases names.len(),
{
    if names.len() > 0 {
        let rest = names.skip(1);
        let before = enabled_in_order(es, rest);
        let after = enabled_in_order(es, names);
        law_new_names_follow_last_first(es, rest);
        json::lemma_last_place(before, names[0]);
        assert forall|i: int| 0 <= i < es.len() implies (#[trigger] after[i]).0 == es[i].0 by {
            assert(before[i].0 == es[i].0);
        }
        if names.no_duplicates() && (forall|i: int|
            0 <= i < names.len() ==> json::last_place(es, #[trigger] names[i]) is None) {
            assert forall|i: int| 0 <= i < rest.len() implies json::last_place(
                es,
                #[trigger] rest[i],
            ) is None by {
                assert(rest[i] == names[i + 1]);
            }
            assert(json::last_place(es, names[0]) is None);
            json::lemma_last_place(es, names[0]);
            assert forall|j: int| 0 <= j < before.len() implies (#[trigger] before[j]).0
                != names[0] by {
                if j < es.len() {
                    assert(before[j].0 == es[j].0);
                } else {
                    assert(before[j].0 == rest[rest.len() - 1 - (j - es.len())]);
                }
            }
            assert(after =~= es + Seq::new(
                names.len(),
                |i: int| (names[names.len() - 1 - i], Written::Bool(true)),
            ));
        }
    } else {
        assert(es + Seq::new(
            0,
            |i: int| (names[names.len() - 1 - i], Written::Bool(true)),
        ) =~= es);
    }
}

/// A migrated object is a fixed point: migrating it again changes nothing.
pub proof fn law_migrations_are_idempotent(v: JsonModel)
    ensures
        formatter_moved(v) matches Some(w) ==> formatter_moved(w) == Some(w),
        code_actions_restored(v) matches Restored::To(w) ==> code_actions_restored(w)
            == Restored::To(w),
        finder_migrated(v) matches FinderResult::To(w) ==> finder_migrated(w) == FinderResult::To(
            w,
        ),
        healed(healed(v)) == healed(v),
{
    lemma_keys_differ();
    if formatter_moved(v) is Some {
        let w = formatter_moved(v)->0;
        if w != v {
            assert(w.field("format_on_save"@) == Some(JsonModel::Str("on"@)));
        }
    }
    match code_actions_restored(v) {
        Restored::To(w) => {
            if w != v {
                assert(w.field("formatter"@) == Some(JsonModel::Array(Seq::empty())));
                assert(formatters(JsonModel::Array(Seq::empty())).len() == 0);
            }
        },
        _ => {},
    }
    match finder_migrated(v) {
        FinderResult::To(w) => {
            if v.field("file_finder"@) is Some {
                let finder = v.field("file_finder"@)->0;
                if finder.field("include_ignored"@) is Some {
                    let name = ignored_name(finder.field("include_ignored"@)->0)->0;
                    let m = finder->Object_0.insert("include_ignored"@, name);
                    assert(w.field("file_finder"@) == Some(JsonModel::Object(m)));
                    assert(JsonModel::Object(m).field("include_ignored"@) == Some(name));
                    assert(ignored_name(name) == Some(name));
                    assert(m.insert("include_ignored"@, name) =~= m);
                    assert(w->Object_0.insert("file_finder"@, JsonModel::Object(m))
                        =~= w->Object_0);
                }
            }
        },
        _ => {},
    }
    if healed(v) != v {
        assert(vibedev_entry(healed(v)) is None);
    }
}

proof fn lemma_keys_differ()
    ensures
        "format_on_save"@ != "formatter"@,
        "formatter"@ != "code_actions_on_format"@,
        "on"@ != "off"@,
        "all"@ != "indexed"@,
        "all"@ != "smart"@,
        "indexed"@ != "smart"@,
{
    reveal_strlit("format_on_save");
    reveal_strlit("formatter");
    reveal_strlit("code_actions_on_format");
    reveal_strlit("on");
    reveal_strlit("off");
    reveal_strlit("all");
    reveal_strlit("indexed");
    reveal_strlit("smart");
    assert("format_on_save"@.len() == 14 && "formatter"@.len() == 9);
    assert("code_actions_on_format"@.len() == 22);
    assert("on"@[1] != "off"@[1]);
    assert("all"@.len() == 3 && "indexed"@.len() == 7 && "smart"@.len() == 5);
}

/// Healing touches nothing but the entry of the built-in agent: every other
/// setting and every other agent is kept, and so is an entry with a command of its
/// own.
pub proof fn law_healing_keeps_the_rest(v: JsonModel, key: Seq<char>, agent: Seq<char>)
    ensures
        key != "agent_servers"@ ==> healed(v).field(key) == v.field(key),
        agent != "VibeDev"@ ==> (match (
            v.field("agent_servers"@),
            healed(v).field("agent_servers"@),
        ) {
            (Some(before), Some(after)) => after.field(agent) == before.field(agent),
            (Some(before), None) => before.field(agent) is None,
            (None, after) => after is None,
        }),
        vibedev_entry(v) matches Some(entry) && entry.field("command"@) is Some ==> healed(v) == v,
        vibedev_entry(healed(v)) matches Some(entry) ==> !shadows_builtin(entry),
{
    if healed(v) != v {
        let before = v.field("agent_servers"@)->0->Object_0;
        let rest = before.remove("VibeDev"@);
        if agent != "VibeDev"@ && before.contains_key(agent) {
            assert(rest.contains_key(agent));
        }
    }
}

proof fn lemma_code_actions(items: Seq<JsonModel>, n: int)
    requires
        0 <= n <= items.len(),
    ensures
        match code_actions(items, n) {
            CodeActions::Names(names) => names.len() == n && forall|i: int|
                0 <= i < n ==> (#[trigger] items[i]).field("code_action"@) == Some(
                    JsonModel::Str(names[i]),
                ),
            CodeActions::Mixed => exists|k: int|
                0 <= k < n && (#[trigger] items[k]).field("code_action"@) is None && named_before(
                    items,
                    k,
                ),
            CodeActions::Bad => exists|k: int|
                0 <= k < n && (#[trigger] items[k]).field("code_action"@) is Some && !((items[k].field(
                    "code_action"@,
                )->0) is Str) && named_before(items, k),
        },
    decreases n,
{
    if n > 0 {
        lemma_code_actions(items, n - 1);
        if code_actions(items, n - 1) is Names {
            assert(named_before(items, n - 1)) by {
                let names = code_actions(items, n - 1)->Names_0;
                assert forall|j: int| 0 <= j < n - 1 implies (#[trigger] items[j]).field(
                    "code_action"@,
                ) is Some && (items[j].field("code_action"@)->0) is Str by {
                    assert(items[j].field("code_action"@) == Some(JsonModel::Str(names[j])));
                }
            }
            assert(items[n - 1] == items[n - 1]);
        }
    }
}

/// The formatters before this one all are code actions with names.
pub open spec fn named_before(items: Seq<JsonModel>, k: int) -> bool {
    forall|j: int|
        0 <= j < k ==> (#[trigger] items[j]).field("code_action"@) is Some && (items[j].field(
            "code_action"@,
        )->0) is Str
}

proof fn lemma_enabled(m: Map<Seq<char>, JsonModel>, names: Seq<Seq<char>>, key: Seq<char>)
    ensures
        names.contains(key) ==> all_enabled(m, names).contains_key(key) && all_enabled(
            m,
            names,
        )[key] == JsonModel::Bool(true),
        !names.contains(key) ==> (all_enabled(m, names).contains_key(key) <==> m.contains_key(key))
            && (m.contains_key(key) ==> all_enabled(m, names)[key] == m[key]),
    decreases names.len(),
{
    if names.len() > 0 {
        let rest = names.skip(1);
        lemma_enabled(m, rest, key);
        if names.contains(key) && names[0] != key {
            let i = choose|i: int| 0 <= i < names.len() && names[i] == key;
            assert(rest[i - 1] == key);
        }
        if rest.contains(key) {
            let i = choose|i: int| 0 <= i < rest.len() && rest[i] == key;
            assert(names[i + 1] == key);
        }
    }
}

/// A list of formatters with one that is no code action, before any code action without
/// a name, is left as it is.
pub proof fn law_other_formatters_are_kept(v: JsonModel, items: Seq<JsonModel>, k: int)
    requires
        v.field("formatter"@) == Some(JsonModel::Array(items)) || (items.len() == 1 && !(items[0]
            is Array) && v.field("formatter"@) == Some(items[0])),
        v.field("code_actions_on_format"@) matches Some(m) ==> m is Object,
        0 <= k < items.len(),
        items[k].field("code_action"@) is None,
        forall|j: int|
            0 <= j < k ==> (#[trigger] items[j]).field("code_action"@) is Some && (items[j].field(
                "code_action"@,
            )->0) is Str,
    ensures
        code_actions_restored(v) == Restored::To(v),
        moved_names(v) is None,
{
    lemma_code_actions(items, items.len() as int);
    assert(formatters(v.field("formatter"@)->0) =~= items);
    match code_actions(items, items.len() as int) {
        CodeActions::Names(names) => {
            assert(items[k].field("code_action"@) == Some(JsonModel::Str(names[k])));
        },
        CodeActions::Mixed => {},
        CodeActions::Bad => {
            let b = choose|b: int|
                0 <= b < items.len() && (#[trigger] items[b]).field("code_action"@) is Some && !((
                items[b].field("code_action"@)->0) is Str) && named_before(items, b);
            assert(b > k);
            assert(items[k].field("code_action"@) is Some);
        },
    }
}

/// A list of formatters that all are code actions with names is emptied, each of the names
/// is enabled, and everything else stays.
pub proof fn law_code_actions_are_moved(
    v: JsonModel,
    items: Seq<JsonModel>,
    names: Seq<Seq<char>>,
    key: Seq<char>,
)
    requires
        v.field("formatter"@) == Some(JsonModel::Array(items)) || (items.len() == 1 && !(items[0]
            is Array) && v.field("formatter"@) == Some(items[0])),
        v.field("code_actions_on_format"@) matches Some(m) ==> m is Object,
        items.len() > 0,
        names.len() == items.len(),
        forall|i: int|
            0 <= i < items.len() ==> (#[trigger] items[i]).field("code_action"@) == Some(
                JsonModel::Str(names[i]),
            ),
    ensures
        moved_names(v) == Some(names),
        code_actions_restored(v) matches Restored::To(w) && w.field("formatter"@) == Some(
            JsonModel::Array(Seq::empty()),
        ) && (key != "formatter"@ && key != "code_actions_on_format"@ ==> w.field(key) == v.field(
            key,
        )) && (w.field("code_actions_on_format"@) matches Some(after) && (if names.contains(key) {
            after.field(key) == Some(JsonModel::Bool(true))
        } else {
            after.field(key) == (match v.field("code_actions_on_format"@) {
                Some(before) => before.field(key),
                None => None,
            })
        })),
{
    lemma_keys_differ();
    lemma_code_actions(items, items.len() as int);
    assert(formatters(v.field("formatter"@)->0) =~= items);
    match code_actions(items, items.len() as int) {
        CodeActions::Names(found) => {
            assert forall|i: int| 0 <= i < names.len() implies found[i] == names[i] by {
                assert(items[i].field("code_action"@) == Some(JsonModel::Str(found[i])));
            }
            assert(found =~= names);
        },
        CodeActions::Mixed => {
            let k = choose|k: int|
                0 <= k < items.len() && (#[trigger] items[k]).field("code_action"@) is None
                    && named_before(items, k);
            assert(items[k].field("code_action"@) == Some(JsonModel::Str(names[k])));
        },
        CodeActions::Bad => {
            let b = choose|b: int|
                0 <= b < items.len() && (#[trigger] items[b]).field("code_action"@) is Some && !((
                items[b].field("code_action"@)->0) is Str) && named_before(items, b);
            assert(items[b].field("code_action"@) == Some(JsonModel::Str(names[b])));
        },
    }
    lemma_enabled(on_format(v)->Object_0, names, key);
}

/// No formatter is taken out of an object unless its name is enabled afterwards, and no
/// other setting is touched.
pub proof fn law_no_formatter_is_lost(v: JsonModel, key: Seq<char>, i: int)
    requires
        code_actions_restored(v) is To,
    ensures
        ({
            let w = code_actions_restored(v)->To_0;
            let items = match v.field("formatter"@) {
                Some(JsonModel::Array(items)) => items,
                Some(f) => seq![f],
                None => Seq::empty(),
            };
            &&& key != "formatter"@ && key != "code_actions_on_format"@ ==> w.field(key)
                == v.field(key)
            &&& w.field("formatter"@) != v.field("formatter"@) && 0 <= i < items.len() ==> (
            items[i].field("code_action"@) matches Some(JsonModel::Str(name)) && w.field(
                "code_actions_on_format"@,
            ) matches Some(after) && after.field(name) == Some(JsonModel::Bool(true)))
            &&& w == v || w.field("formatter"@) == Some(JsonModel::Array(Seq::empty()))
        }),
{
    lemma_keys_differ();
    let w = code_actions_restored(v)->To_0;
    if w != v {
        let items = formatters(v.field("formatter"@)->0);
        lemma_code_actions(items, items.len() as int);
        let names = code_actions(items, items.len() as int)->Names_0;
        if 0 <= i < items.len() {
            assert(items[i].field("code_action"@) == Some(JsonModel::Str(names[i])));
            assert(names.contains(names[i]));
            lemma_enabled(on_format(v)->Object_0, names, names[i]);
        }
    }
}

/// A code action without a name is an error where everything before it has one, and so is
/// a `code_actions_on_format` that is no object.
pub proof fn law_bad_code_actions_are_refused(v: JsonModel, items: Seq<JsonModel>, k: int)
    requires
        v is Object,
    ensures
        (v.field("code_actions_on_format"@) matches Some(m) && !(m is Object))
            ==> code_actions_restored(v) == Restored::NotMap,
        (v.field("code_actions_on_format"@) matches Some(m) ==> m is Object) && v.field(
            "formatter"@,
        ) == Some(JsonModel::Array(items)) && 0 <= k < items.len() && (items[k].field(
            "code_action"@,
        ) matches Some(a) && !(a is Str)) && (forall|j: int|
            0 <= j < k ==> (#[trigger] items[j]).field("code_action"@) is Some && (items[j].field(
                "code_action"@,
            )->0) is Str) ==> code_actions_restored(v) == Restored::NotText,
        v.field("formatter"@) is None && (v.field("code_actions_on_format"@) matches Some(m)
            ==> m is Object) ==> code_actions_restored(v) == Restored::To(v),
{
    if (v.field("code_actions_on_format"@) matches Some(m) ==> m is Object) && v.field(
        "formatter"@,
    ) == Some(JsonModel::Array(items)) && 0 <= k < items.len() && (items[k].field(
        "code_action"@,
    ) matches Some(a) && !(a is Str)) && (forall|j: int|
        0 <= j < k ==> (#[trigger] items[j]).field("code_action"@) is Some && (items[j].field(
            "code_action"@,
        )->0) is Str) {
        lemma_code_actions(items, items.len() as int);
        match code_actions(items, items.len() as int) {
            CodeActions::Names(names) => {
                assert(items[k].field("code_action"@) == Some(JsonModel::Str(names[k])));
            },
            CodeActions::Mixed => {
                let m = choose|m: int|
                    0 <= m < items.len() && (#[trigger] items[m]).field("code_action"@) is None
                        && named_before(items, m);
                assert(items[m].field("code_action"@) is None);
                assert(m > k);
                assert((items[k].field("code_action"@)->0) is Str);
            },
            CodeActions::Bad => {},
        }
    }
}

/// A formatter that stands under `format_on_save` is found under `formatter` afterwards, and
/// saving still formats. The texts `on` and `off` name no formatter; a formatter that is
/// there is never overwritten; and no other setting is touched.
pub proof fn law_formatter_on_save_is_moved(v: JsonModel, f: JsonModel, key: Seq<char>)
    requires
        v is Object,
    ensures
        v.field("format_on_save"@) is None ==> formatter_moved(v) == Some(v),
        v.field("format_on_save"@) == Some(JsonModel::Str("on"@)) ==> formatter_moved(v)
            == Some(v),
        v.field("format_on_save"@) == Some(JsonModel::Str("off"@)) ==> formatter_moved(v)
            == Some(v),
        v.field("format_on_save"@) == Some(f) && f != JsonModel::Str("on"@) && f
            != JsonModel::Str("off"@) && v.field("formatter"@) is Some ==> formatter_moved(v)
            is None,
        v.field("format_on_save"@) == Some(f) && f != JsonModel::Str("on"@) && f
            != JsonModel::Str("off"@) && v.field("formatter"@) is None ==> (formatter_moved(
            v,
        ) matches Some(w) && w.field("formatter"@) == Some(f) && w.field("format_on_save"@) == Some(
            JsonModel::Str("on"@),
        ) && (key != "formatter"@ && key != "format_on_save"@ ==> w.field(key) == v.field(key))),
{
    lemma_keys_differ();
}

/// The three old values of `include_ignored` get their names, names stay, and anything else
/// is refused. No other setting is touched, of the finder or beside it.
pub proof fn law_include_ignored_is_named(v: JsonModel, finder: JsonModel, key: Seq<char>)
    requires
        v.field("file_finder"@) == Some(finder),
    ensures
        ({
            let old = finder.field("include_ignored"@);
            let named = |name: Seq<char>|
                finder_migrated(v) matches FinderResult::To(w) && (w.field(
                    "file_finder"@,
                ) matches Some(f) && f.field("include_ignored"@) == Some(JsonModel::Str(name)));
            &&& old == Some(JsonModel::Bool(true)) ==> named("all"@)
            &&& old == Some(JsonModel::Bool(false)) ==> named("indexed"@)
            &&& old == Some(JsonModel::Null) ==> named("smart"@)
            &&& (old == Some(JsonModel::Str("all"@)) || old == Some(JsonModel::Str("indexed"@))
                || old == Some(JsonModel::Str("smart"@))) ==> named((old->0)->Str_0)
            &&& finder is Object && old is None ==> finder_migrated(v) == FinderResult::To(v)
            &&& !(finder is Object) ==> finder_migrated(v) == FinderResult::NotObject
            &&& (old is Some && ((old->0) is Number || (old->0) is Array || (old->0) is Object))
                ==> finder_migrated(v) == FinderResult::Invalid
            &&& (old is Some && (old->0) is Str && (old->0)->Str_0 != "all"@ && (old->0)->Str_0
                != "indexed"@ && (old->0)->Str_0 != "smart"@) ==> finder_migrated(v)
                == FinderResult::Invalid
            &&& finder_migrated(v) is To && key != "file_finder"@ ==> (finder_migrated(
                v,
            )->To_0).field(key) == v.field(key)
            &&& finder_migrated(v) is To && key != "include_ignored"@ ==> ((finder_migrated(
                v,
            )->To_0).field("file_finder"@)->0).field(key) == finder.field(key)
        }),
{
    lemma_keys_differ();
}

/// An entry of the built-in agent is taken out exactly where it is an object without a
/// command that refers to a registry or has no type.
pub proof fn law_shadowing_entry_is_taken_out(v: JsonModel, entry: JsonModel)
    requires
        v.field("agent_servers"@) is Some,
        (v.field("agent_servers"@)->0).field("VibeDev"@) == Some(entry),
    ensures
        ({
            let gone = match healed(v).field("agent_servers"@) {
                Some(servers) => servers.field("VibeDev"@) is None,
                None => true,
            };
            &&& entry.field("command"@) is None && entry.field("type"@) == Some(
                JsonModel::Str("registry"@),
            ) ==> gone
            &&& entry is Object && entry.field("command"@) is None && entry.field("type"@) is None
                ==> gone
            &&& entry.field("command"@) is Some ==> healed(v) == v
            &&& !(entry is Object) ==> healed(v) == v
            &&& (entry.field("type"@) matches Some(t) && t != JsonModel::Str("registry"@))
                ==> healed(v) == v
            &&& healed(v).field("agent_servers"@) != Some(JsonModel::Object(Map::empty()))
        }),
{
}

/// Written out, a formatter that was set for saving stands under `formatter`, saving is told
/// to format, and everything else is written as before.
pub proof fn law_formatter_is_written_in_its_place(
    es: Seq<(Seq<char>, Written)>,
    formatter: Written,
    key: Seq<char>,
)
    requires
        Written::Object(es).entry("format_on_save"@) == Some(formatter),
    ensures
        Written::Object(formatter_put(Written::Object(es))).entry("formatter"@) == Some(formatter),
        Written::Object(formatter_put(Written::Object(es))).entry("format_on_save"@) == Some(
            Written::Str("on"@),
        ),
        key != "formatter"@ && key != "format_on_save"@ ==> Written::Object(
            formatter_put(Written::Object(es)),
        ).entry(key) == Written::Object(es).entry(key),
{
    reveal_strlit("formatter");
    reveal_strlit("format_on_save");
    let on = json::put(es, "format_on_save"@, Written::Str("on"@));
    json::law_putting_keeps_the_rest(es, "format_on_save"@, Written::Str("on"@), key, 0);
    json::law_putting_keeps_the_rest(on, "formatter"@, formatter, key, 0);
    assert("formatter"@.len() != "format_on_save"@.len());
    json::law_putting_keeps_the_rest(on, "formatter"@, formatter, "format_on_save"@, 0);
}

/// Written out, moved code actions leave an empty list of formatters, and everything but the
/// two settings as before.
pub proof fn law_code_actions_are_written_in_their_place(
    es: Seq<(Seq<char>, Written)>,
    names: Seq<Seq<char>>,
    key: Seq<char>,
)
    ensures
        Written::Object(code_actions_put(Written::Object(es), names)).entry("formatter"@) == Some(
            Written::Array(Seq::empty()),
        ),
        (Written::Object(code_actions_put(Written::Object(es), names)).entry(
            "code_actions_on_format"@,
        ) matches Some(w) && w is Object),
        (Written::Object(es).entry("code_actions_on_format"@) matches Some(Written::Object(before))
            ==> Written::Object(code_actions_put(Written::Object(es), names)).entry(
            "code_actions_on_format"@,
        ) == Some(Written::Object(enabled_in_order(before, names)))),
        key != "formatter"@ && key != "code_actions_on_format"@ ==> Written::Object(
            code_actions_put(Written::Object(es), names),
        ).entry(key) == Written::Object(es).entry(key),
{
    reveal_strlit("formatter");
    reveal_strlit("code_actions_on_format");
    let w = Written::Object(es);
    let none = Written::Array(Seq::empty());
    let new = Written::Object(enabled_in_order(on_format_entries(w), names));
    let emptied = json::put(es, "formatter"@, none);
    json::law_putting_keeps_the_rest(es, "formatter"@, none, key, 0);
    json::law_putting_keeps_the_rest(emptied, "code_actions_on_format"@, new, key, 0);
    assert("formatter"@.len() != "code_actions_on_format"@.len());
    json::law_putting_keeps_the_rest(emptied, "code_actions_on_format"@, new, "formatter"@, 0);
}

/// Written out, the finder's setting has its new name, and the finder's other settings and the
/// rest of the file are written as before.
pub proof fn law_finder_is_written_in_its_place(
    es: Seq<(Seq<char>, Written)>,
    finder: Seq<(Seq<char>, Written)>,
    name: Seq<char>,
    key: Seq<char>,
)
    requires
        Written::Object(es).entry("file_finder"@) == Some(Written::Object(finder)),
    ensures
        key != "file_finder"@ ==> Written::Object(finder_put(Written::Object(es), name)).entry(key)
            == Written::Object(es).entry(key),
        (Written::Object(finder_put(Written::Object(es), name)).entry("file_finder"@) matches Some(
            f,
        ) && f.entry("include_ignored"@) == Some(Written::Str(name)) && (key
            != "include_ignored"@ ==> f.entry(key) == Written::Object(finder).entry(key))),
{
    let set = json::put(finder, "include_ignored"@, Written::Str(name));
    json::law_putting_keeps_the_rest(finder, "include_ignored"@, Written::Str(name), key, 0);
    json::law_putting_keeps_the_rest(es, "file_finder"@, Written::Object(set), key, 0);
}

/// Only `true`, `false` and nothing at all are given a name, each its own.
pub proof fn law_finder_names(v: JsonModel, finder: JsonModel)
    requires
        v.field("file_finder"@) == Some(finder),
    ensures
        finder.field("include_ignored"@) == Some(JsonModel::Bool(true)) ==> finder_name(v) == Some(
            "all"@,
        ),
        finder.field("include_ignored"@) == Some(JsonModel::Bool(false)) ==> finder_name(v)
            == Some("indexed"@),
        finder.field("include_ignored"@) == Some(JsonModel::Null) ==> finder_name(v) == Some(
            "smart"@,
        ),
        finder.field("include_ignored"@) is None ==> finder_name(v) is None,
{
}

/// Written out, a settings file without the entry that is taken out names no other agent less:
/// where it was the only one, the whole setting goes, else the others stay.
pub proof fn law_last_agent_takes_the_setting_with_it(
    es: Seq<(Seq<char>, Written)>,
    servers: Seq<(Seq<char>, Written)>,
    at: int,
    i: int,
    key: Seq<char>,
)
    requires
        Written::Object(es).entry("agent_servers"@) == Some(Written::Object(servers)),
        forall|a: int, b: int|
            #![trigger servers[a], servers[b]]
            0 <= a < b < servers.len() ==> servers[a].0 != servers[b].0,
        forall|a: int, b: int|
            #![trigger es[a], es[b]]
            0 <= a < b < es.len() ==> es[a].0 != es[b].0,
        0 <= at < servers.len(),
        servers[at].0 == "VibeDev"@,
    ensures
        servers.len() == 1 ==> Written::Object(agent_taken(Written::Object(es))).entry(
            "agent_servers"@,
        ) is None,
        servers.len() > 1 ==> (Written::Object(agent_taken(Written::Object(es))).entry(
            "agent_servers"@,
        ) matches Some(Written::Object(rest)) && Written::Object(rest).entry("VibeDev"@) is None
            && rest.len() == servers.len() - 1),
        servers.len() > 1 && key != "agent_servers"@ ==> Written::Object(
            agent_taken(Written::Object(es)),
        ).entry(key) == Written::Object(es).entry(key),
{
    json::law_taking_leaves_the_rest(servers, "VibeDev"@, at, i);
    json::lemma_last_place(es, "agent_servers"@);
    let place = json::last_place(es, "agent_servers"@)->0;
    json::law_taking_leaves_the_rest(es, "agent_servers"@, place, i);
    let rest = json::taken(servers, "VibeDev"@);
    json::law_putting_keeps_the_rest(es, "agent_servers"@, Written::Object(rest), key, 0);
}

/// A setting is named by the keys that lead to it, with dots between them.
pub proof fn law_settings_are_named_by_their_keys(
    first: Seq<char>,
    path: Seq<Seq<char>>,
    key: Seq<char>,
)
    ensures
        key_path(Seq::empty(), key) == key,
        key_path(seq![first] + path, key) == first + seq!['.'] + key_path(path, key),
{
    let all = seq![first] + path;
    assert(all.skip(1) =~= path);
    assert(all[0] == first);
}

} // verus!
