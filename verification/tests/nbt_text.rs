use infrarust::nbt_text::{component_for, json_text_component, value_to_nbt, JsonValue};

fn text(s: &str) -> JsonValue {
    JsonValue::Text(s.to_string())
}

fn object(entries: Vec<(&str, JsonValue)>) -> JsonValue {
    JsonValue::Object(entries.into_iter().map(|(k, v)| (k.to_string(), v)).collect())
}

#[test]
fn string_value_is_plain_text() {
    let c = value_to_nbt(&text("Hello"));
    assert_eq!(c.text, "Hello");
    assert!(c.color.is_none());
    assert!(c.extra.is_empty());
    assert!(c.click_event.is_none());
    assert!(c.hover_event.is_none());
}

#[test]
fn object_text_is_carried_over() {
    let c = value_to_nbt(&object(vec![("text", text("Hello"))]));
    assert_eq!(c.text, "Hello");
    assert!(c.bold.is_none());
    assert!(c.insertion.is_none());
}

#[test]
fn object_extra_and_color() {
    let inner = object(vec![("text", text("there")), ("color", text("red"))]);
    let v = object(vec![("text", text("Hi")), ("extra", JsonValue::Array(vec![inner]))]);
    let c = value_to_nbt(&v);
    assert_eq!(c.text, "Hi");
    assert_eq!(c.extra.len(), 1);
    assert_eq!(c.extra[0].text, "there");
    assert_eq!(c.extra[0].color.as_deref(), Some("red"));
    assert!(c.color.is_none());
}

#[test]
fn array_becomes_extra_of_empty_text() {
    let c = value_to_nbt(&JsonValue::Array(vec![text("a"), text("b")]));
    assert_eq!(c.text, "");
    assert_eq!(c.extra.len(), 2);
    assert_eq!(c.extra[0].text, "a");
    assert_eq!(c.extra[1].text, "b");
}

#[test]
fn scalars_become_their_json_text() {
    assert_eq!(value_to_nbt(&JsonValue::Null).text, "null");
    assert_eq!(value_to_nbt(&JsonValue::Bool(true)).text, "true");
    assert_eq!(value_to_nbt(&JsonValue::Bool(false)).text, "false");
    assert_eq!(value_to_nbt(&JsonValue::Number("42".to_string())).text, "42");
}

#[test]
fn style_flags_only_from_booleans() {
    let v = object(vec![
        ("bold", JsonValue::Bool(true)),
        ("italic", JsonValue::Bool(false)),
        ("underlined", text("yes")),
        ("insertion", text("ins")),
    ]);
    let c = value_to_nbt(&v);
    assert_eq!(c.bold, Some(true));
    assert_eq!(c.italic, Some(false));
    assert_eq!(c.underlined, None);
    assert_eq!(c.insertion.as_deref(), Some("ins"));
    assert_eq!(c.text, "");
}

#[test]
fn first_entry_of_a_key_wins() {
    let v = object(vec![("text", text("first")), ("text", text("second"))]);
    assert_eq!(value_to_nbt(&v).text, "first");
}

#[test]
fn click_event_falls_back_to_camel_case_key() {
    let click = object(vec![("action", text("open_url")), ("url", text("https://example.org"))]);
    let c = value_to_nbt(&object(vec![("clickEvent", click)]));
    let ev = c.click_event.expect("click event");
    assert_eq!(ev.action, "open_url");
    assert_eq!(ev.url, "https://example.org");
    assert_eq!(ev.value, "");
    assert_eq!(ev.command, "");
}

#[test]
fn click_event_that_is_not_an_object_is_dropped() {
    let click = object(vec![("action", text("run_command"))]);
    let c = value_to_nbt(&object(vec![("click_event", text("bad")), ("clickEvent", click)]));
    assert!(c.click_event.is_none());
}

#[test]
fn hover_event_defaults_and_nested_contents() {
    let hover = object(vec![("contents", text("tip"))]);
    let c = value_to_nbt(&object(vec![("hoverEvent", hover)]));
    let ev = c.hover_event.expect("hover event");
    assert_eq!(ev.action, "show_text");
    assert!(ev.contents.is_none());
    assert_eq!(ev.value.expect("value").text, "tip");
}

#[test]
fn hover_value_preferred_over_contents() {
    let hover = object(vec![
        ("action", text("show_text")),
        ("contents", text("second")),
        ("value", text("first")),
    ]);
    let c = value_to_nbt(&object(vec![("hover_event", hover)]));
    assert_eq!(c.hover_event.unwrap().value.unwrap().text, "first");
}

#[test]
fn unparsed_text_falls_back_to_plain_component() {
    let c = component_for(None, "not-json");
    assert_eq!(c.text, "not-json");
    assert!(c.extra.is_empty());
    let d = component_for(Some(object(vec![("text", text("ok"))])), "ignored");
    assert_eq!(d.text, "ok");
}

#[test]
fn json_text_is_parsed_then_mapped() {
    let c = json_text_component(r#"{"text":"Hi","extra":[{"text":"there","color":"red"}]}"#);
    assert_eq!(c.text, "Hi");
    assert_eq!(c.extra.len(), 1);
    assert_eq!(c.extra[0].color.as_deref(), Some("red"));
    let n = json_text_component("[1, true, null, \"x\"]");
    let texts: Vec<&str> = n.extra.iter().map(|e| e.text.as_str()).collect();
    assert_eq!(texts, vec!["1", "true", "null", "x"]);
}

#[test]
fn json_text_that_does_not_parse_stays_plain() {
    let c = json_text_component("not-json");
    assert_eq!(c.text, "not-json");
    assert!(c.color.is_none() && c.extra.is_empty());
}
