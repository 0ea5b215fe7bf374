use vixen::action::{HxAction, SyncStrategy};
use vixen::base_path::base_path;
use vixen::fragment::Fragment;
use vixen::href::Href;
use vixen::json::JsonValue;
use vixen::macros::{html_id, id_selector};
use vixen::markup::Markup;
use vixen::partial::{HxPartial, Id, Selector};

fn html(s: &str) -> Markup {
    Markup::pre_escaped(s.to_string())
}

#[test]
fn a_rename_form_sends_its_id_through_hx_vals() {
    let action = HxAction::new("/todos/rename").base("").val("id", JsonValue::integer(7));
    let form = format!(
        r#"<form hx-action="{}"><input name="title"></form>"#,
        action.render().into_string()
    );
    assert_eq!(
        form,
        [
            r#"<form hx-action="/todos/rename" hx-vals="{&quot;id&quot;:7}" hx-method="post">"#,
            r#"<input name="title"></form>"#,
        ]
        .concat()
    );
}

#[test]
fn a_search_input_carries_its_options() {
    let search = HxAction::new("/search")
        .base("")
        .trigger("input changed delay:300ms")
        .target(Selector::new("#results"))
        .sync(SyncStrategy::Replace.into());
    assert_eq!(
        format!(r#"<input name="q" hx-action="{}">"#, search.render().into_string()),
        [
            r#"<input name="q" hx-action="/search" "#,
            r#"hx-trigger="input changed delay:300ms" "#,
            r##"hx-target="#results" "##,
            r#"hx-sync="replace" "#,
            r#"hx-method="post">"#,
        ]
        .concat()
    );
}

#[test]
fn a_typed_id_names_the_element_and_the_target() {
    let id = html_id("TodoListId");
    assert_eq!(format!(r#"<ul id="{id}"></ul>"#), r#"<ul id="todo-list"></ul>"#);
    let response = HxPartial::new().target(Selector::from(id_selector(&id)), html("<li>milk</li>"));
    assert_eq!(
        response.render().into_string(),
        r##"<hx-partial hx-target="#todo-list"><li>milk</li></hx-partial>"##
    );
}

struct CounterId;

impl Id for CounterId {
    const ID: &'static str = "counter";
    const SEL: &'static str = "#counter";
}

fn counter(count: i64) -> Fragment<CounterId> {
    Fragment::new(html(&format!(r#"<output id="counter">{count}</output>"#)))
}

#[test]
fn a_fragment_renders_on_the_page_and_replaces_itself_in_a_response() {
    let mut page = String::new();
    counter(1).render_to(&mut page);
    assert_eq!(page, r#"<output id="counter">1</output>"#);
    let response = HxPartial::new().parts(counter(2).into_parts());
    assert_eq!(
        response.render().into_string(),
        r##"<hx-partial hx-target="#counter" hx-swap="outerHTML"><output id="counter">2</output></hx-partial>"##
    );
}

#[test]
fn without_a_base_path_links_are_the_routes() {
    let base = base_path(None);
    assert_eq!(base, "");
    assert_eq!(Href::new(&base, "/items/7").to_string(), "/items/7");
    assert_eq!(Href::new("/config", "/items/7").to_string(), "/config/items/7");
}
