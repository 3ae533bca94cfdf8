//! JSON text components and the component tree whose network NBT form
//! Minecraft 1.20.5+ expects in place of a JSON chat string.
//!
//! A JSON component is mapped to an [`NbtComponent`]: strings become plain
//! text, arrays become an empty text with the items as `extra`, objects
//! carry over the styling keys they hold, and any other value becomes its
//! JSON text.

use vstd::prelude::*;

verus! {

/// A parsed JSON value. An object keeps its entries in order; a key is
/// looked up by its first occurrence. A number is held as its JSON text.
#[derive(Debug)]
pub enum JsonValue {
    Null,
    Bool(bool),
    Number(String),
    Text(String),
    Array(Vec<JsonValue>),
    Object(Vec<(String, JsonValue)>),
}

/// The click event of a component.
#[derive(Debug)]
pub struct NbtClickEvent {
    pub action: String,
    pub value: String,
    pub url: String,
    pub command: String,
}

/// The hover event of a component.
#[derive(Debug)]
pub struct NbtHoverEvent {
    pub action: String,
    pub contents: Option<Box<NbtComponent>>,
    pub value: Option<Box<NbtComponent>>,
}

/// A text component as it is written in network NBT. `None` fields and an
/// empty `extra` are left out of the serialised form.
#[derive(Debug)]
pub struct NbtComponent {
    pub text: String,
    pub color: Option<String>,
    pub bold: Option<bool>,
    pub italic: Option<bool>,
    pub underlined: Option<bool>,
    pub strikethrough: Option<bool>,
    pub obfuscated: Option<bool>,
    pub insertion: Option<String>,
    pub extra: Vec<NbtComponent>,
    pub click_event: Option<NbtClickEvent>,
    pub hover_event: Option<NbtHoverEvent>,
}

/// Index of the first entry at or after `from` whose key is `key`, or the
/// number of entries when there is none.
pub open spec fn key_pos(entries: Seq<(String, JsonValue)>, key: Seq<char>, from: int) -> int
    decreases entries.len() - from,
{
    if from < 0 || from >= entries.len() {
        entries.len() as int
    } else if entries[from].0@ == key {
        from
    } else {
        key_pos(entries, key, from + 1)
    }
}

/// Index of the entry under `key`, or of the one under `fallback` when
/// `key` is absent (`map.get(key).or_else(|| map.get(fallback))`).
pub open spec fn either_pos(entries: Seq<(String, JsonValue)>, key: Seq<char>, fallback: Seq<char>) -> int {
    if key_pos(entries, key, 0) < entries.len() {
        key_pos(entries, key, 0)
    } else {
        key_pos(entries, fallback, 0)
    }
}

/// The value under `key`, if any.
pub open spec fn entry(entries: Seq<(String, JsonValue)>, key: Seq<char>) -> Option<JsonValue> {
    let p = key_pos(entries, key, 0);
    if 0 <= p < entries.len() {
        Some(entries[p].1)
    } else {
        None
    }
}

/// The text of a string value, or `default` for anything else.
pub open spec fn text_or(v: Option<JsonValue>, default: Seq<char>) -> Seq<char> {
    match v {
        Some(JsonValue::Text(s)) => s@,
        _ => default,
    }
}

/// The text of a string value, if it is one.
pub open spec fn text_field(v: Option<JsonValue>) -> Option<Seq<char>> {
    match v {
        Some(JsonValue::Text(s)) => Some(s@),
        _ => None,
    }
}

/// The flag of a boolean value, if it is one.
pub open spec fn bool_field(v: Option<JsonValue>) -> Option<bool> {
    match v {
        Some(JsonValue::Bool(b)) => Some(b),
        _ => None,
    }
}

/// The view of an optional string.
pub open spec fn opt_view(s: Option<String>) -> Option<Seq<char>> {
    match s {
        Some(t) => Some(t@),
        None => None,
    }
}

/// The JSON text of a value that is neither a string, an array nor an
/// object.
pub open spec fn scalar_text(v: JsonValue) -> Seq<char> {
    match v {
        JsonValue::Null => "null"@,
        JsonValue::Bool(b) => if b { "true"@ } else { "false"@ },
        JsonValue::Number(n) => n@,
        _ => Seq::empty(),
    }
}

/// A component with no styling and no events.
pub open spec fn is_bare(c: NbtComponent) -> bool {
    &&& c.color is None
    &&& c.bold is None
    &&& c.italic is None
    &&& c.underlined is None
    &&& c.strikethrough is None
    &&& c.obfuscated is None
    &&& c.insertion is None
    &&& c.click_event is None
    &&& c.hover_event is None
}

/// A component with the given text and nothing else.
pub open spec fn is_plain(c: NbtComponent, text: Seq<char>) -> bool {
    &&& c.text@ == text
    &&& is_bare(c)
    &&& c.extra@.len() == 0
}

/// The click event that an object's entry describes: an object gives one
/// whose fields are its string entries (empty where absent); anything else
/// gives none.
pub open spec fn click_renders(v: Option<JsonValue>, e: Option<NbtClickEvent>) -> bool {
    match v {
        Some(JsonValue::Object(o)) => match e {
            Some(ev) => {
                &&& ev.action@ == text_or(entry(o@, "action"@), Seq::empty())
                &&& ev.value@ == text_or(entry(o@, "value"@), Seq::empty())
                &&& ev.url@ == text_or(entry(o@, "url"@), Seq::empty())
                &&& ev.command@ == text_or(entry(o@, "command"@), Seq::empty())
            },
            None => false,
        },
        _ => e is None,
    }
}

/// The styling fields of a component made from an object's entries.
pub open spec fn styled(entries: Seq<(String, JsonValue)>, c: NbtComponent) -> bool {
    &&& c.text@ == text_or(entry(entries, "text"@), Seq::empty())
    &&& opt_view(c.color) == text_field(entry(entries, "color"@))
    &&& c.bold == bool_field(entry(entries, "bold"@))
    &&& c.italic == bool_field(entry(entries, "italic"@))
    &&& c.underlined == bool_field(entry(entries, "underlined"@))
    &&& c.strikethrough == bool_field(entry(entries, "strikethrough"@))
    &&& c.obfuscated == bool_field(entry(entries, "obfuscated"@))
    &&& opt_view(c.insertion) == text_field(entry(entries, "insertion"@))
    &&& click_renders(
        {
            let p = either_pos(entries, "click_event"@, "clickEvent"@);
            if 0 <= p < entries.len() { Some(entries[p].1) } else { None }
        },
        c.click_event,
    )
}

/// `c` is the component that the JSON value `v` maps to.
pub open spec fn renders(v: JsonValue, c: NbtComponent) -> bool
    decreases v, 0int,
{
    match v {
        JsonValue::Text(s) => is_plain(c, s@),
        JsonValue::Array(items) => {
            &&& c.text@ == Seq::<char>::empty()
            &&& is_bare(c)
            &&& c.extra@.len() == items@.len()
            &&& forall|i: int| 0 <= i < items@.len() ==> renders(#[trigger] items@[i], c.extra@[i])
        },
        JsonValue::Object(entries) => object_renders(entries, c),
        _ => is_plain(c, scalar_text(v)),
    }
}

/// `c` is the component that an object with these entries maps to.
pub open spec fn object_renders(entries: Vec<(String, JsonValue)>, c: NbtComponent) -> bool
    decreases entries, 0int,
{
    let es = entries@;
    let p = key_pos(es, "extra"@, 0);
    let h = either_pos(es, "hover_event"@, "hoverEvent"@);
    &&& styled(es, c)
    &&& if 0 <= p < es.len() && es[p].1 is Array {
        let items = es[p].1->Array_0;
        &&& c.extra@.len() == items@.len()
        &&& forall|i: int| 0 <= i < items@.len() ==> renders(#[trigger] items@[i], c.extra@[i])
    } else {
        c.extra@.len() == 0
    }
    &&& if 0 <= h < es.len() {
        hover_renders(es[h].1, c.hover_event)
    } else {
        c.hover_event is None
    }
}

/// `e` is the hover event that the JSON value `v` describes: an object
/// gives one whose action is its `action` string (`show_text` where
/// absent) and whose value is the component of its `value` entry, or of
/// its `contents` entry where `value` is absent; anything else gives none.
pub open spec fn hover_renders(v: JsonValue, e: Option<NbtHoverEvent>) -> bool
    decreases v, 1int,
{
    match v {
        JsonValue::Object(o) => {
            let os = o@;
            let q = either_pos(os, "value"@, "contents"@);
            match e {
                Some(ev) => {
                    &&& ev.action@ == text_or(entry(os, "action"@), "show_text"@)
                    &&& ev.contents is None
                    &&& if 0 <= q < os.len() {
                        match ev.value {
                            Some(b) => renders(os[q].1, *b),
                            None => false,
                        }
                    } else {
                        ev.value is None
                    }
                },
                None => false,
            }
        },
        _ => e is None,
    }
}

/// Position of the first entry under `key`, or the number of entries.
fn key_position(entries: &Vec<(String, JsonValue)>, key: &str) -> (p: usize)
    ensures
        p == key_pos(entries@, key@, 0),
{
    let k = key.to_string();
    let mut i: usize = 0;
    while i < entries.len()
        invariant
            i <= entries@.len(),
            k@ == key@,
            key_pos(entries@, key@, 0) == key_pos(entries@, key@, i as int),
        decreases entries@.len() - i,
    {
        if entries[i].0 == k {
            return i;
        }
        i = i + 1;
    }
    i
}

/// Position of the entry under `key`, or under `fallback` where `key` is
/// absent; the number of entries where neither is present.
fn either_position(entries: &Vec<(String, JsonValue)>, key: &str, fallback: &str) -> (p: usize)
    ensures
        p == either_pos(entries@, key@, fallback@),
{
    let p = key_position(entries, key);
    if p < entries.len() {
        p
    } else {
        key_position(entries, fallback)
    }
}

/// The string under `key`, or `default`.
fn text_or_default(entries: &Vec<(String, JsonValue)>, key: &str, default: &str) -> (r: String)
    ensures
        r@ == text_or(entry(entries@, key@), default@),
{
    let p = key_position(entries, key);
    if p < entries.len() {
        if let JsonValue::Text(s) = &entries[p].1 {
            return s.clone();
        }
    }
    default.to_string()
}

/// The string under `key`, if the entry is one.
fn text_entry(entries: &Vec<(String, JsonValue)>, key: &str) -> (r: Option<String>)
    ensures
        opt_view(r) == text_field(entry(entries@, key@)),
{
    let p = key_position(entries, key);
    if p < entries.len() {
        if let JsonValue::Text(s) = &entries[p].1 {
            return Some(s.clone());
        }
    }
    None
}

/// The flag under `key`, if the entry is one.
fn bool_entry(entries: &Vec<(String, JsonValue)>, key: &str) -> (r: Option<bool>)
    ensures
        r == bool_field(entry(entries@, key@)),
{
    let p = key_position(entries, key);
    if p < entries.len() {
        if let JsonValue::Bool(b) = &entries[p].1 {
            return Some(*b);
        }
    }
    None
}

/// The click event that a JSON value describes: `None` unless it is an
/// object; its string fields default to empty.
fn parse_click(value: &JsonValue) -> (e: Option<NbtClickEvent>)
    ensures
        click_renders(Some(*value), e),
{
    proof {
        reveal_strlit("");
        assert(""@ =~= Seq::<char>::empty());
    }
    match value {
        JsonValue::Object(obj) => {
            let action = text_or_default(obj, "action", "");
            let val = text_or_default(obj, "value", "");
            let url = text_or_default(obj, "url", "");
            let command = text_or_default(obj, "command", "");
            Some(NbtClickEvent { action, value: val, url, command })
        },
        _ => None,
    }
}

/// A component with the given text and nothing else.
fn plain(text: String) -> (c: NbtComponent)
    ensures
        is_plain(c, text@),
{
    NbtComponent {
        text,
        color: None,
        bold: None,
        italic: None,
        underlined: None,
        strikethrough: None,
        obfuscated: None,
        insertion: None,
        extra: Vec::new(),
        click_event: None,
        hover_event: None,
    }
}

/// The component that a JSON value maps to: a string gives its text, an
/// array an empty text with its items' components as `extra`, an object
/// its styling entries, and any other value its JSON text.
pub fn value_to_nbt(value: &JsonValue) -> (c: NbtComponent)
    ensures
        renders(*value, c),
    decreases value,
{
    proof {
        reveal_strlit("null");
        reveal_strlit("true");
        reveal_strlit("false");
    }
    match value {
        JsonValue::Text(s) => plain(s.clone()),
        JsonValue::Array(items) => {
            proof {
                assert(decreases_to!(*value => (*value)->Array_0));
            }
            let extra = components_of(items);
            NbtComponent {
                text: String::new(),
                color: None,
                bold: None,
                italic: None,
                underlined: None,
                strikethrough: None,
                obfuscated: None,
                insertion: None,
                extra,
                click_event: None,
                hover_event: None,
            }
        },
        JsonValue::Object(map) => {
            proof {
                assert(decreases_to!(*value => (*value)->Object_0));
            }
            object_to_nbt(map)
        },
        JsonValue::Null => plain("null".to_string()),
        JsonValue::Bool(b) => {
            if *b {
                plain("true".to_string())
            } else {
                plain("false".to_string())
            }
        },
        JsonValue::Number(n) => plain(n.clone()),
    }
}

/// The components of a JSON array's items, in order.
fn components_of(items: &Vec<JsonValue>) -> (out: Vec<NbtComponent>)
    ensures
        out@.len() == items@.len(),
        forall|i: int| 0 <= i < items@.len() ==> renders(#[trigger] items@[i], out@[i]),
    decreases items,
{
    let mut out: Vec<NbtComponent> = Vec::new();
    let mut i: usize = 0;
    while i < items.len()
        invariant
            i <= items@.len(),
            out@.len() == i,
            forall|k: int| 0 <= k < i ==> renders(#[trigger] items@[k], out@[k]),
        decreases items@.len() - i,
    {
        proof {
            let ghost v: Vec<JsonValue> = *items;
            assert(decreases_to!(v => v@));
            assert(decreases_to!(v@ => v@[i as int]));
        }
        let c = value_to_nbt(&items[i]);
        out.push(c);
        i = i + 1;
    }
    out
}

/// The component that a JSON object maps to.
fn object_to_nbt(map: &Vec<(String, JsonValue)>) -> (c: NbtComponent)
    ensures
        object_renders(*map, c),
    decreases map,
{
    proof {
        reveal_strlit("");
        assert(""@ =~= Seq::<char>::empty());
    }
    let text = text_or_default(map, "text", "");
    let color = text_entry(map, "color");
    let bold = bool_entry(map, "bold");
    let italic = bool_entry(map, "italic");
    let underlined = bool_entry(map, "underlined");
    let strikethrough = bool_entry(map, "strikethrough");
    let obfuscated = bool_entry(map, "obfuscated");
    let insertion = text_entry(map, "insertion");
    let p = key_position(map, "extra");
    let mut extra: Vec<NbtComponent> = Vec::new();
    if p < map.len() {
        if let JsonValue::Array(items) = &map[p].1 {
            proof {
                let ghost v: Vec<(String, JsonValue)> = *map;
                assert(decreases_to!(v => v@));
                assert(decreases_to!(v@ => v@[p as int]));
                assert(decreases_to!(v@[p as int] => v@[p as int].1));
                assert(decreases_to!(v@[p as int].1 => v@[p as int].1->Array_0));
            }
            extra = components_of(items);
        }
    }
    let cp = either_position(map, "click_event", "clickEvent");
    let click_event = if cp < map.len() {
        parse_click(&map[cp].1)
    } else {
        None
    };
    let hp = either_position(map, "hover_event", "hoverEvent");
    let hover_event = if hp < map.len() {
        proof {
            let ghost v: Vec<(String, JsonValue)> = *map;
            assert(decreases_to!(v => v@));
            assert(decreases_to!(v@ => v@[hp as int]));
            assert(decreases_to!(v@[hp as int] => v@[hp as int].1));
        }
        parse_hover(&map[hp].1)
    } else {
        None
    };
    NbtComponent {
        text,
        color,
        bold,
        italic,
        underlined,
        strikethrough,
        obfuscated,
        insertion,
        extra,
        click_event,
        hover_event,
    }
}

/// The hover event that a JSON value describes: `None` unless it is an
/// object; its action defaults to `show_text`, and its value is the
/// component of the `value` entry, or of `contents` where `value` is absent.
fn parse_hover(value: &JsonValue) -> (e: Option<NbtHoverEvent>)
    ensures
        hover_renders(*value, e),
    decreases value,
{
    match value {
        JsonValue::Object(obj) => {
            let action = text_or_default(obj, "action", "show_text");
            let q = either_position(obj, "value", "contents");
            let nested = if q < obj.len() {
                proof {
                    let ghost v: Vec<(String, JsonValue)> = *obj;
                    assert(decreases_to!(*value => (*value)->Object_0));
                    assert(decreases_to!(v => v@));
                    assert(decreases_to!(v@ => v@[q as int]));
                    assert(decreases_to!(v@[q as int] => v@[q as int].1));
                }
                Some(Box::new(value_to_nbt(&obj[q].1)))
            } else {
                None
            };
            Some(NbtHoverEvent { action, contents: None, value: nested })
        },
        _ => None,
    }
}

/// The component for a serialised text component: the one its parsed
/// value maps to, or, where the text did not parse as JSON, a plain
/// component holding the raw text so that it still reads.
pub fn component_for(parsed: Option<JsonValue>, raw: &str) -> (c: NbtComponent)
    ensures
        match parsed {
            Some(v) => renders(v, c),
            None => is_plain(c, raw@),
        },
{
    match parsed {
        Some(v) => value_to_nbt(&v),
        None => plain(raw.to_string()),
    }
}

/// The JSON value that `serde_json::from_str::<serde_json::Value>` reads
/// from `text`, in the library's form, or `None` when it refuses the text.
pub uninterp spec fn json_parsed(text: Seq<char>) -> Option<JsonValue>;

#[verifier::external_type_specification]
#[verifier::external_body]
pub struct ExSerdeJsonValue(serde_json::Value);

/// Parses `text` with `serde_json::from_str` into a `serde_json::Value` and
/// converts it variant for variant (see [`json_value_of`]). Claimed: the
/// result is `json_parsed(text)`.
#[verifier::external_body]
fn parse_json(text: &str) -> (r: Option<JsonValue>)
    ensures
        r == json_parsed(text@),
{
    serde_json::from_str::<serde_json::Value>(text).ok().as_ref().map(json_value_of)
}

/// Converts a `serde_json::Value` into a [`JsonValue`] variant for variant:
/// a number as `serde_json`'s text of it, an object's entries in the map's
/// order. It only moves values from one type to the other; nothing is
/// claimed of it beyond what [`parse_json`] claims.
#[verifier::external_body]
fn json_value_of(v: &serde_json::Value) -> JsonValue {
    match v {
        serde_json::Value::Null => JsonValue::Null,
        serde_json::Value::Bool(b) => JsonValue::Bool(*b),
        serde_json::Value::Number(n) => JsonValue::Number(n.to_string()),
        serde_json::Value::String(t) => JsonValue::Text(t.clone()),
        serde_json::Value::Array(items) => JsonValue::Array(items.iter().map(json_value_of).collect()),
        serde_json::Value::Object(map) => JsonValue::Object(
            map.iter().map(|(k, x)| (k.clone(), json_value_of(x))).collect(),
        ),
    }
}

/// The component for a serialised JSON text component: the one its parsed
/// value maps to, or, where the text does not parse as JSON, a plain
/// component holding the raw text so that it still reads.
pub fn json_text_component(json: &str) -> (c: NbtComponent)
    ensures
        match json_parsed(json@) {
            Some(v) => renders(v, c),
            None => is_plain(c, json@),
        },
{
    component_for(parse_json(json), json)
}

/// Entry `i` is the first of `es` under `key`.
pub open spec fn first_entry(es: Seq<(String, JsonValue)>, key: Seq<char>, i: int) -> bool {
    &&& 0 <= i < es.len()
    &&& es[i].0@ == key
    &&& forall|j: int| 0 <= j < i ==> es[j].0@ != key
}

/// No entry of `es` is under `key`.
pub open spec fn no_entry(es: Seq<(String, JsonValue)>, key: Seq<char>) -> bool {
    forall|j: int| 0 <= j < es.len() ==> es[j].0@ != key
}

proof fn lemma_key_pos_scan(es: Seq<(String, JsonValue)>, key: Seq<char>, from: int, i: int)
    requires
        0 <= from <= i <= es.len(),
        forall|j: int| from <= j < i ==> es[j].0@ != key,
        i == es.len() || es[i].0@ == key,
    ensures
        key_pos(es, key, from) == i,
    decreases i - from,
{
    if from < i {
        lemma_key_pos_scan(es, key, from + 1, i);
    }
}

proof fn lemma_entry_by_name(es: Seq<(String, JsonValue)>, key: Seq<char>, i: int)
    ensures
        first_entry(es, key, i) ==> entry(es, key) == Some(es[i].1),
        no_entry(es, key) ==> entry(es, key) is None,
{
    if first_entry(es, key, i) {
        lemma_key_pos_scan(es, key, 0, i);
    }
    if no_entry(es, key) {
        lemma_key_pos_scan(es, key, 0, es.len() as int);
    }
}

/// Each styling field of the component an object maps to comes from the
/// entry under the key of the same name (the first, if there are several):
/// `bold`, `italic`, `underlined`, `strikethrough` and `obfuscated` from a
/// boolean there, `color` and `insertion` from a string there, the text
/// from the string under `text`; a field whose key is absent is left out
/// (the text is empty).
pub proof fn law_styles_by_key(entries: Vec<(String, JsonValue)>, c: NbtComponent, i: int)
    requires
        renders(JsonValue::Object(entries), c),
    ensures
        first_entry(entries@, "bold"@, i) ==> c.bold == (match entries@[i].1 {
            JsonValue::Bool(b) => Some(b),
            _ => None,
        }),
        first_entry(entries@, "italic"@, i) ==> c.italic == (match entries@[i].1 {
            JsonValue::Bool(b) => Some(b),
            _ => None,
        }),
        first_entry(entries@, "underlined"@, i) ==> c.underlined == (match entries@[i].1 {
            JsonValue::Bool(b) => Some(b),
            _ => None,
        }),
        first_entry(entries@, "strikethrough"@, i) ==> c.strikethrough == (match entries@[i].1 {
            JsonValue::Bool(b) => Some(b),
            _ => None,
        }),
        first_entry(entries@, "obfuscated"@, i) ==> c.obfuscated == (match entries@[i].1 {
            JsonValue::Bool(b) => Some(b),
            _ => None,
        }),
        first_entry(entries@, "color"@, i) ==> opt_view(c.color) == (match entries@[i].1 {
            JsonValue::Text(t) => Some(t@),
            _ => None,
        }),
        first_entry(entries@, "insertion"@, i) ==> opt_view(c.insertion) == (match entries@[i].1 {
            JsonValue::Text(t) => Some(t@),
            _ => None,
        }),
        first_entry(entries@, "text"@, i) ==> c.text@ == (match entries@[i].1 {
            JsonValue::Text(t) => t@,
            _ => Seq::<char>::empty(),
        }),
        no_entry(entries@, "bold"@) ==> c.bold is None,
        no_entry(entries@, "italic"@) ==> c.italic is None,
        no_entry(entries@, "underlined"@) ==> c.underlined is None,
        no_entry(entries@, "strikethrough"@) ==> c.strikethrough is None,
        no_entry(entries@, "obfuscated"@) ==> c.obfuscated is None,
        no_entry(entries@, "color"@) ==> c.color is None,
        no_entry(entries@, "insertion"@) ==> c.insertion is None,
        no_entry(entries@, "text"@) ==> c.text@ == Seq::<char>::empty(),
{
    let es = entries@;
    assert(object_renders(entries, c));
    assert(styled(es, c));
    lemma_entry_by_name(es, "bold"@, i);
    lemma_entry_by_name(es, "italic"@, i);
    lemma_entry_by_name(es, "underlined"@, i);
    lemma_entry_by_name(es, "strikethrough"@, i);
    lemma_entry_by_name(es, "obfuscated"@, i);
    lemma_entry_by_name(es, "color"@, i);
    lemma_entry_by_name(es, "insertion"@, i);
    lemma_entry_by_name(es, "text"@, i);
}

/// Entry `i` is the one a click event is read from: the first under
/// `click_event`, or, when there is none, the first under `clickEvent`.
pub open spec fn click_entry(es: Seq<(String, JsonValue)>, i: int) -> bool {
    first_entry(es, "click_event"@, i) || (no_entry(es, "click_event"@) && first_entry(es, "clickEvent"@, i))
}

/// The click event of the component an object maps to comes from the
/// object under `click_event` (or `clickEvent` when that key is absent):
/// there is one exactly when that entry is an object, and its action,
/// value, url and command are the strings under the keys of the same names
/// there (empty where absent); with neither key there is none.
pub proof fn law_click_event_by_key(entries: Vec<(String, JsonValue)>, c: NbtComponent, i: int, j: int)
    requires
        renders(JsonValue::Object(entries), c),
    ensures
        click_entry(entries@, i) ==> (entries@[i].1 is Object <==> c.click_event is Some),
        no_entry(entries@, "click_event"@) && no_entry(entries@, "clickEvent"@) ==> c.click_event is None,
        click_entry(entries@, i) ==> (entries@[i].1 matches JsonValue::Object(o) ==> (first_entry(
            o@,
            "action"@,
            j,
        ) ==> c.click_event.unwrap().action@ == (match o@[j].1 {
            JsonValue::Text(t) => t@,
            _ => Seq::<char>::empty(),
        }))),
        click_entry(entries@, i) ==> (entries@[i].1 matches JsonValue::Object(o) ==> (no_entry(o@, "action"@)
            ==> c.click_event.unwrap().action@ == Seq::<char>::empty())),
        click_entry(entries@, i) ==> (entries@[i].1 matches JsonValue::Object(o) ==> (first_entry(
            o@,
            "value"@,
            j,
        ) ==> c.click_event.unwrap().value@ == (match o@[j].1 {
            JsonValue::Text(t) => t@,
            _ => Seq::<char>::empty(),
        }))),
        click_entry(entries@, i) ==> (entries@[i].1 matches JsonValue::Object(o) ==> (no_entry(o@, "value"@)
            ==> c.click_event.unwrap().value@ == Seq::<char>::empty())),
        click_entry(entries@, i) ==> (entries@[i].1 matches JsonValue::Object(o) ==> (first_entry(
            o@,
            "url"@,
            j,
        ) ==> c.click_event.unwrap().url@ == (match o@[j].1 {
            JsonValue::Text(t) => t@,
            _ => Seq::<char>::empty(),
        }))),
        click_entry(entries@, i) ==> (entries@[i].1 matches JsonValue::Object(o) ==> (no_entry(o@, "url"@)
            ==> c.click_event.unwrap().url@ == Seq::<char>::empty())),
        click_entry(entries@, i) ==> (entries@[i].1 matches JsonValue::Object(o) ==> (first_entry(
            o@,
            "command"@,
            j,
        ) ==> c.click_event.unwrap().command@ == (match o@[j].1 {
            JsonValue::Text(t) => t@,
            _ => Seq::<char>::empty(),
        }))),
        click_entry(entries@, i) ==> (entries@[i].1 matches JsonValue::Object(o) ==> (no_entry(o@, "command"@)
            ==> c.click_event.unwrap().command@ == Seq::<char>::empty())),
{
    let es = entries@;
    assert(object_renders(entries, c));
    assert(styled(es, c));
    if first_entry(es, "click_event"@, i) {
        lemma_key_pos_scan(es, "click_event"@, 0, i);
    }
    if no_entry(es, "click_event"@) {
        lemma_key_pos_scan(es, "click_event"@, 0, es.len() as int);
        if first_entry(es, "clickEvent"@, i) {
            lemma_key_pos_scan(es, "clickEvent"@, 0, i);
        }
        if no_entry(es, "clickEvent"@) {
            lemma_key_pos_scan(es, "clickEvent"@, 0, es.len() as int);
        }
    }
    if click_entry(es, i) {
        if let JsonValue::Object(o) = es[i].1 {
            lemma_entry_by_name(o@, "action"@, j);
            lemma_entry_by_name(o@, "value"@, j);
            lemma_entry_by_name(o@, "url"@, j);
            lemma_entry_by_name(o@, "command"@, j);
        }
    }
}

/// Entry `i` is the one a hover event is read from: the first under
/// `hover_event`, or, when there is none, the first under `hoverEvent`.
pub open spec fn hover_entry(es: Seq<(String, JsonValue)>, i: int) -> bool {
    first_entry(es, "hover_event"@, i) || (no_entry(es, "hover_event"@) && first_entry(es, "hoverEvent"@, i))
}

/// The children and the hover event of the component an object maps to:
/// the children are the components of the items of the array under
/// `extra`, one per item and in order (none without such an array); there
/// is a hover event exactly when the entry under `hover_event` (or
/// `hoverEvent` when that key is absent) is an object, its action being the
/// string under `action` there (`show_text` where absent) and its value
/// the component of the entry under `value` there, or under `contents`
/// when `value` is absent.
pub proof fn law_extra_and_hover_by_key(entries: Vec<(String, JsonValue)>, c: NbtComponent, i: int, j: int)
    requires
        renders(JsonValue::Object(entries), c),
    ensures
        first_entry(entries@, "extra"@, i) ==> (entries@[i].1 matches JsonValue::Array(items) ==> (
        c.extra@.len() == items@.len() && forall|k: int|
            0 <= k < items@.len() ==> renders(#[trigger] items@[k], c.extra@[k]))),
        first_entry(entries@, "extra"@, i) && !(entries@[i].1 is Array) ==> c.extra@.len() == 0,
        no_entry(entries@, "extra"@) ==> c.extra@.len() == 0,
        hover_entry(entries@, i) ==> (entries@[i].1 is Object <==> c.hover_event is Some),
        no_entry(entries@, "hover_event"@) && no_entry(entries@, "hoverEvent"@) ==> c.hover_event is None,
        hover_entry(entries@, i) ==> (entries@[i].1 matches JsonValue::Object(o) ==> (first_entry(
            o@,
            "action"@,
            j,
        ) ==> c.hover_event.unwrap().action@ == (match o@[j].1 {
            JsonValue::Text(t) => t@,
            _ => "show_text"@,
        }))),
        hover_entry(entries@, i) ==> (entries@[i].1 matches JsonValue::Object(o) ==> (no_entry(o@, "action"@)
            ==> c.hover_event.unwrap().action@ == "show_text"@)),
        hover_entry(entries@, i) ==> (entries@[i].1 matches JsonValue::Object(o) ==> (first_entry(
            o@,
            "value"@,
            j,
        ) ==> (c.hover_event.unwrap().value matches Some(b) && renders(o@[j].1, *b)))),
        hover_entry(entries@, i) ==> (entries@[i].1 matches JsonValue::Object(o) ==> (no_entry(o@, "value"@)
            && first_entry(o@, "contents"@, j) ==> (c.hover_event.unwrap().value matches Some(b) && renders(
            o@[j].1,
            *b,
        )))),
{
    let es = entries@;
    assert(object_renders(entries, c));
    if first_entry(es, "extra"@, i) {
        lemma_key_pos_scan(es, "extra"@, 0, i);
    }
    if no_entry(es, "extra"@) {
        lemma_key_pos_scan(es, "extra"@, 0, es.len() as int);
    }
    if first_entry(es, "hover_event"@, i) {
        lemma_key_pos_scan(es, "hover_event"@, 0, i);
    }
    if no_entry(es, "hover_event"@) {
        lemma_key_pos_scan(es, "hover_event"@, 0, es.len() as int);
        if first_entry(es, "hoverEvent"@, i) {
            lemma_key_pos_scan(es, "hoverEvent"@, 0, i);
        }
        if no_entry(es, "hoverEvent"@) {
            lemma_key_pos_scan(es, "hoverEvent"@, 0, es.len() as int);
        }
    }
    if hover_entry(es, i) {
        if let JsonValue::Object(o) = es[i].1 {
            let os = o@;
            assert(hover_renders(es[i].1, c.hover_event));
            lemma_entry_by_name(os, "action"@, j);
            if first_entry(os, "value"@, j) {
                lemma_key_pos_scan(os, "value"@, 0, j);
            }
            if no_entry(os, "value"@) {
                lemma_key_pos_scan(os, "value"@, 0, os.len() as int);
                if first_entry(os, "contents"@, j) {
                    lemma_key_pos_scan(os, "contents"@, 0, j);
                }
            }
        }
    }
}

} // verus!
