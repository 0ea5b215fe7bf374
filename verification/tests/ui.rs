use vixen::href::Href;
use vixen::markup::Markup;
use vixen::partial::{HxPartial, SwapOption};
use vixen::ui::basecoatui::dialog::Dialog;
use vixen::ui::basecoatui::drawer::{Drawer, Side};
use vixen::ui::basecoatui::head::widget_head;
use vixen::ui::basecoatui::modal::{check_modal_id, slot_id, Modal};
use vixen::ui::basecoatui::toast::{Action, Align, Category, Duration, Toast, Toaster};

fn html(s: &str) -> Markup {
    Markup::pre_escaped(s.to_string())
}

const SUCCESS_ICON: &str = r#"<svg aria-hidden="true" xmlns="http://www.w3.org/2000/svg" width="24" height="24" viewBox="0 0 24 24" fill="none" stroke="currentColor" stroke-width="2" stroke-linecap="round" stroke-linejoin="round"><circle cx="12" cy="12" r="10"/><path d="m9 12 2 2 4-4"/></svg>"#;

const ERROR_ICON: &str = r#"<svg aria-hidden="true" xmlns="http://www.w3.org/2000/svg" width="24" height="24" viewBox="0 0 24 24" fill="none" stroke="currentColor" stroke-width="2" stroke-linecap="round" stroke-linejoin="round"><circle cx="12" cy="12" r="10"/><path d="m15 9-6 6"/><path d="m9 9 6 6"/></svg>"#;

#[test]
fn href_displays_and_renders_escaped() {
    let href = Href::new("/app", "/q?a=1&b=2");
    assert_eq!(href.to_string(), "/app/q?a=1&b=2");
    assert_eq!(
        format!("<a href=\"{}\"></a>", href.render().into_string()),
        r#"<a href="/app/q?a=1&amp;b=2"></a>"#
    );
}

#[test]
fn shell_renders_empty_slots_labelled_by_the_header() {
    let html = Drawer::new("p")
        .side(Side::Left)
        .content_class("px-4")
        .shell()
        .into_string();
    assert_eq!(
        html,
        [
            r#"<dialog id="p" class="drawer" data-side="left" aria-labelledby="p-header"><div>"#,
            r#"<header id="p-header"></header>"#,
            r#"<section id="p-content" class="px-4"></section>"#,
            r#"<footer id="p-footer"></footer>"#,
            "</div></dialog>",
        ]
        .concat()
    );
}

#[test]
fn slots_target_the_ids_derived_from_the_name_in_order() {
    let html = Modal::new("m")
        .slots()
        .footer(html("f"))
        .header(html("h"))
        .into_partial()
        .render()
        .into_string();
    assert_eq!(
        html,
        [
            r##"<hx-partial hx-target="#m-footer">f</hx-partial>"##,
            r##"<hx-partial hx-target="#m-header">h</hx-partial>"##,
        ]
        .concat()
    );
}

#[test]
fn close_names_the_modal() {
    let event = Modal::new("m").close();
    assert_eq!(event.name, "dialog:close");
    let data = event.data.expect("the close event carries data");
    assert_eq!(data.as_str(), r#"{"id":"m"}"#);
    let mut expected = serde_json::Map::new();
    expected.insert("id".to_string(), serde_json::Value::String("m".to_string()));
    let parsed: serde_json::Value = serde_json::from_str(data.as_str()).unwrap();
    assert_eq!(parsed, serde_json::Value::Object(expected));
}

#[test]
fn a_drawer_opens_on_the_right_by_default() {
    let html = Drawer::new("cart").shell().into_string();
    assert_eq!(
        html,
        [
            r#"<dialog id="cart" class="drawer" data-side="right" aria-labelledby="cart-header"><div>"#,
            r#"<header id="cart-header"></header>"#,
            r#"<section id="cart-content"></section>"#,
            r#"<footer id="cart-footer"></footer>"#,
            "</div></dialog>",
        ]
        .concat()
    );
}

#[test]
fn sides_name_their_edge() {
    assert_eq!(Side::Top.as_str(), "top");
    assert_eq!(Side::Right.as_str(), "right");
    assert_eq!(Side::Bottom.as_str(), "bottom");
    assert_eq!(Side::Left.as_str(), "left");
}

#[test]
fn a_dialog_shell_closes_on_its_backdrop() {
    let html = Dialog::new("d").shell().into_string();
    assert_eq!(
        html,
        [
            r#"<dialog id="d" class="dialog" aria-labelledby="d-header" onclick="if (event.target === this) this.close()"><div>"#,
            r#"<header id="d-header"></header>"#,
            r#"<section id="d-content"></section>"#,
            r#"<footer id="d-footer"></footer>"#,
            "</div></dialog>",
        ]
        .concat()
    );
}

#[test]
fn dialog_slots_and_close() {
    let dialog = Dialog::new("d").content_class("wide");
    let html = dialog
        .content(html("body"))
        .footer(Markup::text("a < b"))
        .into_partial()
        .render()
        .into_string();
    assert_eq!(
        html,
        [
            r##"<hx-partial hx-target="#d-content">body</hx-partial>"##,
            r##"<hx-partial hx-target="#d-footer">a &lt; b</hx-partial>"##,
        ]
        .concat()
    );
    assert_eq!(dialog.selector().into_string(), "#d");
    assert_eq!(dialog.close().data.unwrap().as_str(), r#"{"id":"d"}"#);
}

#[test]
fn a_drawer_starts_slots_from_any_slot() {
    let drawer = Drawer::new("nav");
    let parts = drawer.header(html("h")).into_parts();
    assert_eq!(parts.parts.len(), 1);
    assert_eq!(parts.parts[0].target.0, "#nav-header");
    assert!(parts.parts[0].swap.is_none());
    assert_eq!(drawer.selector().into_string(), "#nav");
}

#[test]
fn modal_ids_reject_blank_and_hash() {
    assert!(check_modal_id("settings"));
    assert!(check_modal_id("a-b_c"));
    assert!(!check_modal_id(""));
    assert!(!check_modal_id("a b"));
    assert!(!check_modal_id("a\tb"));
    assert!(!check_modal_id("#a"));
    assert!(!check_modal_id("line\n"));
    assert_eq!(slot_id("m", "footer"), "m-footer");
    assert_eq!(Modal::new("m").header_id(), "m-header");
}

#[test]
fn the_toaster_shell_carries_its_alignment() {
    assert_eq!(
        Toaster::new().shell().into_string(),
        r#"<div popover="manual" id="toaster" class="toaster"></div>"#
    );
    assert_eq!(
        Toaster::new().align(Align::Start).shell().into_string(),
        r#"<div popover="manual" id="toaster" class="toaster" data-align="start"></div>"#
    );
    assert_eq!(
        Toaster::new().align(Align::Center).shell().into_string(),
        r#"<div popover="manual" id="toaster" class="toaster" data-align="center"></div>"#
    );
}

#[test]
fn a_success_toast_is_appended_to_the_toaster() {
    let part = Toaster::new().success("Saved", "All <good>");
    assert_eq!(part.target.0, "#toaster");
    assert_eq!(part.swap, Some(SwapOption::BeforeEnd));
    assert_eq!(
        HxPartial::from_part(part).render().into_string(),
        [
            r##"<hx-partial hx-target="#toaster" hx-swap="beforeend">"##,
            r#"<div class="toast" role="status" aria-atomic="true" aria-hidden="false" data-category="success">"#,
            r#"<div class="toast-content">"#,
            SUCCESS_ICON,
            "<section><h2>Saved</h2><p>All &lt;good&gt;</p></section>",
            r#"<footer><button type="button" class="btn" data-toast-action>Dismiss</button></footer>"#,
            "</div></div></hx-partial>",
        ]
        .concat()
    );
}

#[test]
fn an_error_toast_is_an_alert() {
    let part = Toaster::new().error("Failed", "Try again");
    assert_eq!(
        part.content.into_string(),
        [
            r#"<div class="toast" role="alert" aria-atomic="true" aria-hidden="false" data-category="error">"#,
            r#"<div class="toast-content">"#,
            ERROR_ICON,
            "<section><h2>Failed</h2><p>Try again</p></section>",
            r#"<footer><button type="button" class="btn" data-toast-action>Dismiss</button></footer>"#,
            "</div></div>",
        ]
        .concat()
    );
}

#[test]
fn a_toast_without_description_or_action_and_a_duration() {
    let toast = Toast {
        category: Category::Info,
        title: "Note".to_string(),
        description: None,
        duration: Duration::Millis(1500),
        action: Some(Action::Link { label: "Open".to_string(), href: "/a?b=1&c=2".to_string() }),
    };
    let html = Toaster::new().toast(toast).content.into_string();
    assert!(html.starts_with(
        r#"<div class="toast" role="status" aria-atomic="true" aria-hidden="false" data-category="info" data-duration="1500"><div class="toast-content">"#
    ));
    assert!(html.ends_with(
        r#"<section><h2>Note</h2></section><footer><a href="/a?b=1&amp;c=2" class="btn" data-toast-action>Open</a></footer></div></div>"#
    ));

    let sticky = Toast {
        category: Category::Warning,
        title: "Hold".to_string(),
        description: None,
        duration: Duration::Sticky,
        action: None,
    };
    let html = Toaster::new().toast(sticky).content.into_string();
    assert!(html.contains(r#"data-category="warning" data-duration="-1">"#));
    assert!(html.ends_with("<section><h2>Hold</h2></section></div></div>"));

    let custom = Toast {
        category: Category::Success,
        title: "Done".to_string(),
        description: Some("ok".to_string()),
        duration: Duration::Default,
        action: Some(Action::Custom(html_custom())),
    };
    let html = Toaster::new().toast(custom).content.into_string();
    assert!(html.ends_with("<footer><button>x</button></footer></div></div>"));
}

fn html_custom() -> Markup {
    Markup::pre_escaped("<button>x</button>".to_string())
}

#[test]
fn toast_attributes() {
    assert_eq!(Category::Success.as_str(), "success");
    assert_eq!(Category::Info.role(), "status");
    assert_eq!(Category::Warning.role(), "status");
    assert_eq!(Category::Error.role(), "alert");
    assert_eq!(Duration::Default.attr(), None);
    assert_eq!(Duration::Millis(250).attr(), Some("250".to_string()));
    assert_eq!(Duration::Millis(0).attr(), Some("0".to_string()));
    assert_eq!(Duration::Sticky.attr(), Some("-1".to_string()));
    assert_eq!(Align::Start.attr(), Some("start"));
    assert_eq!(Align::End.attr(), None);
    let toast = Toast::new(Category::Info, "t", "d");
    assert_eq!(toast.title, "t");
    assert_eq!(toast.description.as_deref(), Some("d"));
    assert_eq!(toast.duration, Duration::Default);
    assert!(matches!(toast.action, Some(Action::Dismiss(ref l)) if l == "Dismiss"));
}

#[test]
fn slots_render_through_a_partial() {
    let partial: HxPartial<_, _> = Drawer::new("p").footer(html("f")).into_partial();
    assert_eq!(
        partial.render().into_string(),
        r##"<hx-partial hx-target="#p-footer">f</hx-partial>"##
    );
}

#[test]
fn a_default_toaster_sits_at_the_end() {
    assert_eq!(Toaster::default().align, Align::End);
}

#[test]
fn the_widget_head_wraps_the_style_and_the_module_script() {
    assert_eq!(
        widget_head("dialog{}\n", "init();\n").into_string(),
        "<style>\ndialog{}\n</style>\n<script type=\"module\">\ninit();\n</script>"
    );
}

#[test]
fn a_cloned_widget_renders_the_same_shell() {
    let drawer = Drawer::new("cart").side(Side::Top).content_class("p-2");
    let copy = drawer.clone();
    assert_eq!(copy.shell().into_string(), drawer.shell().into_string());
    let dialog = Dialog::new("d");
    assert_eq!(dialog.clone().shell().into_string(), dialog.shell().into_string());
}
