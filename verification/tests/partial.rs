use vixen::fragment::Fragment;
use vixen::markup::Markup;
use vixen::partial::{HxPartial, Id, Part, Parts, Selector, SwapOption};

fn html(s: &str) -> Markup {
    Markup::pre_escaped(s.to_string())
}

fn toast() -> Part {
    Part::new(Selector::new("#toaster"), Markup::text("saved")).swap(SwapOption::BeforeEnd)
}

fn rows() -> Markup {
    html("<tr><td>row</td></tr>")
}

fn both() -> Parts {
    Parts::from_vec(vec![Part::new(Selector::new("#rows"), rows()), toast()])
}

#[test]
fn a_bare_part_and_a_targeted_entry_render_in_order() {
    let html = HxPartial::new()
        .parts(Parts::from_part(toast()))
        .target(Selector::new("#rows"), rows())
        .render()
        .into_string();
    assert_eq!(
        html,
        [
            r##"<hx-partial hx-target="#toaster" hx-swap="beforeend">saved</hx-partial>"##,
            r##"<hx-partial hx-target="#rows"><tr><td>row</td></tr></hx-partial>"##,
        ].concat()
    );
}

#[test]
fn parts_spread_in_place() {
    let html = HxPartial::new()
        .parts(Parts::from_part(toast()))
        .parts(both())
        .render()
        .into_string();
    assert_eq!(
        html,
        [
            r##"<hx-partial hx-target="#toaster" hx-swap="beforeend">saved</hx-partial>"##,
            r##"<hx-partial hx-target="#rows"><tr><td>row</td></tr></hx-partial>"##,
            r##"<hx-partial hx-target="#toaster" hx-swap="beforeend">saved</hx-partial>"##,
        ].concat()
    );
}

#[test]
fn the_main_body_comes_first() {
    let response = HxPartial::new()
        .main(html("swapped into the request target"))
        .target(Selector::new("#notes"), html("<li>a note</li>"))
        .target_swap(Selector::new("#toaster"), SwapOption::BeforeEnd, html("saved"));
    assert_eq!(
        response.render().into_string(),
        [
            "swapped into the request target",
            r##"<hx-partial hx-target="#notes"><li>a note</li></hx-partial>"##,
            r##"<hx-partial hx-target="#toaster" hx-swap="beforeend">saved</hx-partial>"##,
        ].concat()
    );
    let main_only = HxPartial::new().main(html("<p>x</p>"));
    assert_eq!(main_only.render().into_string(), "<p>x</p>");
}

#[test]
fn swap_styles_are_spelled_as_axum_htmx_does() {
    let cases = [
        (SwapOption::InnerHtml, "innerHTML"),
        (SwapOption::OuterHtml, "outerHTML"),
        (SwapOption::BeforeBegin, "beforebegin"),
        (SwapOption::AfterBegin, "afterbegin"),
        (SwapOption::BeforeEnd, "beforeend"),
        (SwapOption::AfterEnd, "afterend"),
        (SwapOption::Delete, "delete"),
        (SwapOption::SwapNone, "none"),
    ];
    for (s, want) in cases {
        let part = Part::new(Selector::new("#x"), html("y")).swap(s);
        assert_eq!(
            HxPartial::from_part(part).render().into_string(),
            format!(r##"<hx-partial hx-target="#x" hx-swap="{want}">y</hx-partial>"##)
        );
    }
}

#[test]
fn a_part_renders_its_content_alone() {
    let p = Part::new(Selector::new("#a"), html("<b>x</b>"));
    let mut b = String::new();
    p.render_to(&mut b);
    assert_eq!(b, "<b>x</b>");
    assert_eq!(p.render().into_string(), "<b>x</b>");
    let single = HxPartial::from_part(Part::new(Selector::from("#s".to_string()), html("1")));
    assert_eq!(single.render().into_string(), r##"<hx-partial hx-target="#s">1</hx-partial>"##);
}

struct NotesId;

impl Id for NotesId {
    const ID: &'static str = "notes";
    const SEL: &'static str = "#notes";
}

#[test]
fn a_fragment_is_plain_markup_or_an_outer_html_part() {
    let page: Fragment<NotesId> = Fragment::new(html(r#"<p id="notes">2 notes</p>"#));
    let mut b = String::new();
    page.render_to(&mut b);
    assert_eq!(b, r#"<p id="notes">2 notes</p>"#);

    let update: Fragment<NotesId> = Fragment::new(html(r#"<p id="notes">3 notes</p>"#));
    assert_eq!(
        HxPartial::from_part(update.into_part()).render().into_string(),
        [
            r##"<hx-partial hx-target="#notes" hx-swap="outerHTML">"##,
            r#"<p id="notes">3 notes</p></hx-partial>"#,
        ].concat()
    );
    assert_eq!(Selector::of_id::<NotesId>().into_string(), "#notes");
}

#[test]
fn text_is_escaped_so_it_cannot_open_a_tag() {
    let m = Markup::text(r#"<script>"x" & y</script>"#);
    assert_eq!(m.as_str(), "&lt;script&gt;&quot;x&quot; &amp; y&lt;/script&gt;");
    assert!(!m.as_str().contains('<') && !m.as_str().contains('>') && !m.as_str().contains('"'));
    let mut pieces = Markup::text("a<");
    pieces.push_text("b&");
    assert_eq!(pieces.into_string(), Markup::text("a<b&").into_string());
}

#[test]
fn a_default_response_is_an_empty_builder() {
    let r: HxPartial<_, _> = HxPartial::default().target(Selector::new("#a"), html("x"));
    assert_eq!(r.render().into_string(), r##"<hx-partial hx-target="#a">x</hx-partial>"##);
}
