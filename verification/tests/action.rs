use vixen::action::{HxAction, HxSync, SyncStrategy};
use vixen::json::JsonValue;
use vixen::partial::{Selector, SwapOption};

fn in_attr(element: &str, action: &HxAction, close: &str) -> String {
    let mut html = format!("<{element} hx-action=\"");
    action.render_to(&mut html);
    html.push('"');
    html.push_str(close);
    html
}

#[test]
fn renders_strategy_alone() {
    assert_eq!(HxSync::from(SyncStrategy::Replace).attr(), "replace");
    assert_eq!(HxSync::from(SyncStrategy::QueueLast).attr(), "queue last");
}

#[test]
fn renders_scope_before_strategy() {
    assert_eq!(
        SyncStrategy::Abort.on(Selector::new("closest form")).attr(),
        "closest form:abort"
    );
}

#[test]
fn setters_fill_vals_escaped_inside_the_attribute() {
    let action = HxAction::new("/save")
        .val("name", JsonValue::string("a \"quoted\" name"))
        .val("id", JsonValue::integer(7));
    assert_eq!(
        in_attr("form", &action, "></form>"),
        [
            r#"<form hx-action="/save" "#,
            r#"hx-vals="{&quot;id&quot;:7,&quot;name&quot;:&quot;a \&quot;quoted\&quot; name&quot;}" "#,
            r#"hx-method="post"></form>"#,
        ].concat()
    );
}

#[test]
fn options_render_from_the_same_value() {
    let action = HxAction::new("/search")
        .val("q", JsonValue::string("steel"))
        .val("after", JsonValue::integer(40))
        .trigger("input changed delay:300ms")
        .target(Selector::new("#results"))
        .swap(SwapOption::OuterHtml)
        .sync(HxSync::from(SyncStrategy::Replace));
    assert_eq!(
        in_attr("input", &action, ">"),
        [
            r#"<input hx-action="/search" "#,
            r#"hx-vals="{&quot;after&quot;:40,&quot;q&quot;:&quot;steel&quot;}" "#,
            r#"hx-trigger="input changed delay:300ms" "#,
            r##"hx-target="#results" "##,
            r#"hx-swap="outerHTML" "#,
            r#"hx-sync="replace" "#,
            r#"hx-method="post">"#,
        ].concat()
    );
}

#[test]
fn base_prefixes_the_path() {
    let action = HxAction::new("/save").base("/app");
    assert_eq!(
        in_attr("form", &action, "></form>"),
        r#"<form hx-action="/app/save" hx-method="post"></form>"#
    );
}

#[test]
fn a_target_is_also_a_raw_selector() {
    let action = HxAction::new("/search").target(Selector::new("#list"));
    assert_eq!(
        in_attr("div", &action, "></div>"),
        r##"<div hx-action="/search" hx-target="#list" hx-method="post"></div>"##
    );
}

#[test]
fn null_values_are_omitted_and_later_values_replace_earlier_ones() {
    let action = HxAction::new("/x")
        .val("a", JsonValue::null())
        .val("b", JsonValue::integer(1))
        .val("b", JsonValue::integer(2))
        .val("a", JsonValue::from_text("[1,2]".to_string()));
    assert_eq!(
        action.render().into_string(),
        "/x\" hx-vals=\"{&quot;a&quot;:[1,2],&quot;b&quot;:2}\" hx-method=\"post"
    );
    let none = HxAction::new("/x").val("a", JsonValue::null());
    assert_eq!(none.render().into_string(), "/x\" hx-method=\"post");
}

#[test]
fn keys_are_written_in_byte_order_as_serde_json_does() {
    let keys = ["zeta", "Alpha", "alpha", "é", "a", "ab", "_"];
    let mut action = HxAction::new("/k");
    let mut map = serde_json::Map::new();
    for (i, k) in keys.iter().enumerate() {
        action = action.val(k, JsonValue::integer(i as i64));
        map.insert(k.to_string(), serde_json::Value::from(i as i64));
    }
    let json = serde_json::to_string(&map).unwrap();
    let mut escaped = String::new();
    for c in json.chars() {
        match c {
            '"' => escaped.push_str("&quot;"),
            '&' => escaped.push_str("&amp;"),
            c => escaped.push(c),
        }
    }
    assert_eq!(
        action.render().into_string(),
        format!("/k\" hx-vals=\"{escaped}\" hx-method=\"post")
    );
}

#[test]
fn json_strings_escape_as_serde_json_does() {
    for s in ["plain", "quote \" and \\ backslash", "tab\tnew\nline\r", "\u{1}\u{1f}\u{7f}", "ünï"] {
        assert_eq!(JsonValue::string(s).as_str(), serde_json::to_string(s).unwrap());
    }
    assert_eq!(JsonValue::integer(-9223372036854775808).as_str(), "-9223372036854775808");
    assert!(JsonValue::null().is_null());
    assert!(!JsonValue::string("null").is_null());
}

#[test]
fn every_strategy_has_its_keyword() {
    let cases = [
        (SyncStrategy::Drop, "drop"),
        (SyncStrategy::Abort, "abort"),
        (SyncStrategy::Replace, "replace"),
        (SyncStrategy::QueueFirst, "queue first"),
        (SyncStrategy::QueueLast, "queue last"),
        (SyncStrategy::QueueAll, "queue all"),
    ];
    for (s, want) in cases {
        assert_eq!(s.as_str(), want);
        let mut b = String::new();
        s.render_to(&mut b);
        assert_eq!(b, want);
    }
    let mut b = String::new();
    SyncStrategy::Drop.on(Selector::new("a>b")).render_to(&mut b);
    assert_eq!(b, "a&gt;b:drop");
}

#[test]
fn setting_two_keys_in_either_order_gives_the_same_vals() {
    let one = HxAction::new("/o")
        .val("q", JsonValue::string("steel"))
        .val("after", JsonValue::integer(40));
    let two = HxAction::new("/o")
        .val("after", JsonValue::integer(40))
        .val("q", JsonValue::string("steel"));
    assert_eq!(one.render().into_string(), two.render().into_string());
    assert_eq!(
        one.render().into_string(),
        "/o\" hx-vals=\"{&quot;after&quot;:40,&quot;q&quot;:&quot;steel&quot;}\" hx-method=\"post"
    );
}
