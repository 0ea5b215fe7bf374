//! Basecoat toasts: a toaster container and toast notifications appended to
//! it as htmx parts.
use vstd::prelude::*;

use crate::json::{decimal, decimal_text};
use crate::markup::{escaped, Markup};
use crate::partial::{Part, Selector, SwapOption};

verus! {

/// The toast's icon, color and ARIA role.
#[derive(Clone, Copy, Debug, PartialEq, Eq, Structural)]
pub enum Category {
    /// An operation completed.
    Success,
    /// A neutral note.
    Info,
    /// Something to check.
    Warning,
    /// An operation failed. Announced as an alert and shown longer by default.
    Error,
}

/// How long a toast remains visible.
#[derive(Clone, Copy, Debug, PartialEq, Eq, Structural)]
pub enum Duration {
    /// Basecoat's default: 3 seconds, or 5 seconds for errors.
    Default,
    /// The given number of milliseconds.
    Millis(u32),
    /// Until dismissed.
    Sticky,
}

/// A button or link in the toast footer; clicking it dismisses the toast.
pub enum Action {
    /// A button with this label that only dismisses.
    Dismiss(String),
    /// A link: dismisses, then follows `href`.
    Link { label: String, href: String },
    /// Footer markup of your own.
    Custom(Markup),
}

/// The toaster's horizontal position. `End` is Basecoat's default.
#[derive(Clone, Copy, Debug, PartialEq, Eq, Structural)]
pub enum Align {
    /// The inline start edge.
    Start,
    /// Centered.
    Center,
    /// The inline end edge.
    End,
}

/// The `data-category` value.
pub open spec fn category_text(c: Category) -> Seq<char> {
    match c {
        Category::Success => "success"@,
        Category::Info => "info"@,
        Category::Warning => "warning"@,
        Category::Error => "error"@,
    }
}

/// The ARIA role: `alert` for errors, `status` otherwise.
pub open spec fn role_text(c: Category) -> Seq<char> {
    match c {
        Category::Error => "alert"@,
        _ => "status"@,
    }
}

/// The inline SVG icon.
pub open spec fn icon_text(c: Category) -> Seq<char> {
    match c {
        Category::Success => r#"<svg aria-hidden="true" xmlns="http://www.w3.org/2000/svg" width="24" height="24" viewBox="0 0 24 24" fill="none" stroke="currentColor" stroke-width="2" stroke-linecap="round" stroke-linejoin="round"><circle cx="12" cy="12" r="10"/><path d="m9 12 2 2 4-4"/></svg>"#@,
        Category::Info => r#"<svg aria-hidden="true" xmlns="http://www.w3.org/2000/svg" width="24" height="24" viewBox="0 0 24 24" fill="none" stroke="currentColor" stroke-width="2" stroke-linecap="round" stroke-linejoin="round"><circle cx="12" cy="12" r="10"/><path d="M12 16v-4"/><path d="M12 8h.01"/></svg>"#@,
        Category::Warning => r#"<svg aria-hidden="true" xmlns="http://www.w3.org/2000/svg" width="24" height="24" viewBox="0 0 24 24" fill="none" stroke="currentColor" stroke-width="2" stroke-linecap="round" stroke-linejoin="round"><path d="m21.73 18-8-14a2 2 0 0 0-3.48 0l-8 14A2 2 0 0 0 4 21h16a2 2 0 0 0 1.73-3"/><path d="M12 9v4"/><path d="M12 17h.01"/></svg>"#@,
        Category::Error => r#"<svg aria-hidden="true" xmlns="http://www.w3.org/2000/svg" width="24" height="24" viewBox="0 0 24 24" fill="none" stroke="currentColor" stroke-width="2" stroke-linecap="round" stroke-linejoin="round"><circle cx="12" cy="12" r="10"/><path d="m15 9-6 6"/><path d="m9 9 6 6"/></svg>"#@,
    }
}

/// Each category has its own icon: two categories with the same icon are
/// the same category.
pub proof fn law_icons_distinct(c1: Category, c2: Category)
    ensures
        icon_text(c1) == icon_text(c2) ==> c1 == c2,
{
    reveal_strlit(r#"<svg aria-hidden="true" xmlns="http://www.w3.org/2000/svg" width="24" height="24" viewBox="0 0 24 24" fill="none" stroke="currentColor" stroke-width="2" stroke-linecap="round" stroke-linejoin="round"><circle cx="12" cy="12" r="10"/><path d="m9 12 2 2 4-4"/></svg>"#);
    reveal_strlit(r#"<svg aria-hidden="true" xmlns="http://www.w3.org/2000/svg" width="24" height="24" viewBox="0 0 24 24" fill="none" stroke="currentColor" stroke-width="2" stroke-linecap="round" stroke-linejoin="round"><circle cx="12" cy="12" r="10"/><path d="M12 16v-4"/><path d="M12 8h.01"/></svg>"#);
    reveal_strlit(r#"<svg aria-hidden="true" xmlns="http://www.w3.org/2000/svg" width="24" height="24" viewBox="0 0 24 24" fill="none" stroke="currentColor" stroke-width="2" stroke-linecap="round" stroke-linejoin="round"><path d="m21.73 18-8-14a2 2 0 0 0-3.48 0l-8 14A2 2 0 0 0 4 21h16a2 2 0 0 0 1.73-3"/><path d="M12 9v4"/><path d="M12 17h.01"/></svg>"#);
    reveal_strlit(r#"<svg aria-hidden="true" xmlns="http://www.w3.org/2000/svg" width="24" height="24" viewBox="0 0 24 24" fill="none" stroke="currentColor" stroke-width="2" stroke-linecap="round" stroke-linejoin="round"><circle cx="12" cy="12" r="10"/><path d="m15 9-6 6"/><path d="m9 9 6 6"/></svg>"#);
    assert(icon_text(Category::Success).len() == 263);
    assert(icon_text(Category::Info).len() == 280);
    assert(icon_text(Category::Warning).len() == 331);
    assert(icon_text(Category::Error).len() == 279);
}

impl Category {
    /// The `data-category` value.
    pub fn as_str(self) -> (r: &'static str)
        ensures
            r@ == category_text(self),
    {
        match self {
            Category::Success => "success",
            Category::Info => "info",
            Category::Warning => "warning",
            Category::Error => "error",
        }
    }

    /// The ARIA role.
    pub fn role(self) -> (r: &'static str)
        ensures
            r@ == role_text(self),
    {
        match self {
            Category::Error => "alert",
            _ => "status",
        }
    }

    /// The inline SVG icon.
    pub fn icon(self) -> (r: &'static str)
        ensures
            r@ == icon_text(self),
    {
        match self {
            Category::Success => r#"<svg aria-hidden="true" xmlns="http://www.w3.org/2000/svg" width="24" height="24" viewBox="0 0 24 24" fill="none" stroke="currentColor" stroke-width="2" stroke-linecap="round" stroke-linejoin="round"><circle cx="12" cy="12" r="10"/><path d="m9 12 2 2 4-4"/></svg>"#,
            Category::Info => r#"<svg aria-hidden="true" xmlns="http://www.w3.org/2000/svg" width="24" height="24" viewBox="0 0 24 24" fill="none" stroke="currentColor" stroke-width="2" stroke-linecap="round" stroke-linejoin="round"><circle cx="12" cy="12" r="10"/><path d="M12 16v-4"/><path d="M12 8h.01"/></svg>"#,
            Category::Warning => r#"<svg aria-hidden="true" xmlns="http://www.w3.org/2000/svg" width="24" height="24" viewBox="0 0 24 24" fill="none" stroke="currentColor" stroke-width="2" stroke-linecap="round" stroke-linejoin="round"><path d="m21.73 18-8-14a2 2 0 0 0-3.48 0l-8 14A2 2 0 0 0 4 21h16a2 2 0 0 0 1.73-3"/><path d="M12 9v4"/><path d="M12 17h.01"/></svg>"#,
            Category::Error => r#"<svg aria-hidden="true" xmlns="http://www.w3.org/2000/svg" width="24" height="24" viewBox="0 0 24 24" fill="none" stroke="currentColor" stroke-width="2" stroke-linecap="round" stroke-linejoin="round"><circle cx="12" cy="12" r="10"/><path d="m15 9-6 6"/><path d="m9 9 6 6"/></svg>"#,
        }
    }
}

/// The `data-duration` value, when the duration is not Basecoat's default:
/// the milliseconds in decimal, or `-1` to stay until dismissed.
pub open spec fn duration_text(d: Duration) -> Option<Seq<char>> {
    match d {
        Duration::Default => None,
        Duration::Millis(ms) => Some(decimal(ms as int)),
        Duration::Sticky => Some("-1"@),
    }
}

impl Duration {
    /// The `data-duration` value, if any.
    pub fn attr(self) -> (r: Option<String>)
        ensures
            match duration_text(self) {
                Some(t) => r matches Some(s) && s@ == t,
                None => r is None,
            },
    {
        match self {
            Duration::Default => None,
            Duration::Millis(ms) => Some(decimal_text(ms as i64)),
            Duration::Sticky => Some("-1".to_owned()),
        }
    }
}

/// The `data-align` value, when the alignment is not the default.
pub open spec fn align_text(a: Align) -> Option<Seq<char>> {
    match a {
        Align::Start => Some("start"@),
        Align::Center => Some("center"@),
        Align::End => None,
    }
}

impl Align {
    /// The `data-align` value, if any.
    pub fn attr(self) -> (r: Option<&'static str>)
        ensures
            match align_text(self) {
                Some(t) => r matches Some(s) && s@ == t,
                None => r is None,
            },
    {
        match self {
            Align::Start => Some("start"),
            Align::Center => Some("center"),
            Align::End => None,
        }
    }
}

/// A toast notification.
pub struct Toast {
    /// Icon, color and ARIA role.
    pub category: Category,
    /// The heading.
    pub title: String,
    /// Text under the heading.
    pub description: Option<String>,
    /// How long the toast stays visible.
    pub duration: Duration,
    /// A footer button or link.
    pub action: Option<Action>,
}

impl Toast {
    /// A toast with Basecoat's default duration and a "Dismiss" button.
    pub fn new(category: Category, title: &str, description: &str) -> (t: Toast)
        ensures
            t.category == category,
            t.title@ == title@,
            t.description matches Some(d) && d@ == description@,
            t.duration == Duration::Default,
            t.action matches Some(Action::Dismiss(label)) && label@ == "Dismiss"@,
    {
        Toast {
            category,
            title: title.to_owned(),
            description: Some(description.to_owned()),
            duration: Duration::Default,
            action: Some(Action::Dismiss("Dismiss".to_owned())),
        }
    }
}

/// A toast container. Basecoat requires the fixed id `toaster`.
pub struct Toaster {
    pub align: Align,
}

/// The toaster shell.
pub open spec fn toaster_shell_html(a: Align) -> Seq<char> {
    "<div popover=\"manual\" id=\""@ + escaped("toaster"@) + "\" class=\"toaster\""@ + match align_text(a) {
        Some(t) => " data-align=\""@ + escaped(t) + "\""@,
        None => Seq::empty(),
    } + "></div>"@
}

/// The footer contents of a toast action.
pub open spec fn action_html(a: Action) -> Seq<char> {
    match a {
        Action::Dismiss(label) => dismiss_html(label@),
        Action::Link { label, href } => "<a href=\""@ + escaped(href@)
            + "\" class=\"btn\" data-toast-action>"@ + escaped(label@) + "</a>"@,
        Action::Custom(m) => m@,
    }
}

/// The markup of a toast with this category, title, description and
/// duration, and this footer content.
pub open spec fn toast_html_of(
    category: Category,
    title: Seq<char>,
    description: Option<Seq<char>>,
    duration: Duration,
    footer: Option<Seq<char>>,
) -> Seq<char> {
    "<div class=\"toast\" role=\""@ + escaped(role_text(category))
        + "\" aria-atomic=\"true\" aria-hidden=\"false\" data-category=\""@ + escaped(
        category_text(category),
    ) + "\""@ + match duration_text(duration) {
        Some(d) => " data-duration=\""@ + escaped(d) + "\""@,
        None => Seq::empty(),
    } + "><div class=\"toast-content\">"@ + icon_text(category) + "<section><h2>"@ + escaped(title)
        + "</h2>"@ + match description {
        Some(d) => "<p>"@ + escaped(d) + "</p>"@,
        None => Seq::empty(),
    } + "</section>"@ + match footer {
        Some(f) => "<footer>"@ + f + "</footer>"@,
        None => Seq::empty(),
    } + "</div></div>"@
}

/// The markup of a toast.
pub open spec fn toast_html(t: Toast) -> Seq<char> {
    toast_html_of(
        t.category,
        t.title@,
        match t.description {
            Some(d) => Some(d@),
            None => None,
        },
        t.duration,
        match t.action {
            Some(a) => Some(action_html(a)),
            None => None,
        },
    )
}

/// The dismiss button with this label.
pub open spec fn dismiss_html(label: Seq<char>) -> Seq<char> {
    "<button type=\"button\" class=\"btn\" data-toast-action>"@ + escaped(label) + "</button>"@
}

/// The markup of a toast as `Toast::new` makes it.
pub open spec fn default_toast_html(category: Category, title: Seq<char>, description: Seq<char>) -> Seq<
    char,
> {
    toast_html_of(category, title, Some(description), Duration::Default, Some(dismiss_html("Dismiss"@)))
}

fn render_action(a: &Action, m: &mut Markup)
    ensures
        final(m)@ == old(m)@ + action_html(*a),
{
    match a {
        Action::Dismiss(label) => {
            m.push_raw("<button type=\"button\" class=\"btn\" data-toast-action>");
            m.push_text(label.as_str());
            m.push_raw("</button>");
        },
        Action::Link { label, href } => {
            m.push_raw("<a href=\"");
            m.push_text(href.as_str());
            m.push_raw("\" class=\"btn\" data-toast-action>");
            m.push_text(label.as_str());
            m.push_raw("</a>");
        },
        Action::Custom(markup) => {
            m.push_raw(markup.as_str());
        },
    }
    proof {
        assert(final(m)@ =~= old(m)@ + action_html(*a));
    }
}

fn render_toast(toast: &Toast) -> (m: Markup)
    ensures
        m@ == toast_html(*toast),
{
    let mut m = Markup::new();
    m.push_raw("<div class=\"toast\" role=\"");
    m.push_text(toast.category.role());
    m.push_raw("\" aria-atomic=\"true\" aria-hidden=\"false\" data-category=\"");
    m.push_text(toast.category.as_str());
    m.push_raw("\"");
    let ghost s1 = m@;
    match toast.duration.attr() {
        Some(d) => {
            m.push_raw(" data-duration=\"");
            m.push_text(d.as_str());
            m.push_raw("\"");
        },
        None => {},
    }
    let ghost s2 = m@;
    m.push_raw("><div class=\"toast-content\">");
    m.push_raw(toast.category.icon());
    m.push_raw("<section><h2>");
    m.push_text(toast.title.as_str());
    m.push_raw("</h2>");
    let ghost s3 = m@;
    match &toast.description {
        Some(d) => {
            m.push_raw("<p>");
            m.push_text(d.as_str());
            m.push_raw("</p>");
        },
        None => {},
    }
    let ghost s4 = m@;
    m.push_raw("</section>");
    let ghost s5 = m@;
    match &toast.action {
        Some(a) => {
            m.push_raw("<footer>");
            render_action(a, &mut m);
            m.push_raw("</footer>");
        },
        None => {},
    }
    let ghost s6 = m@;
    m.push_raw("</div></div>");
    proof {
        assert(s2 =~= s1 + match duration_text(toast.duration) {
            Some(d) => " data-duration=\""@ + escaped(d) + "\""@,
            None => Seq::empty(),
        });
        assert(s6 =~= s5 + match toast.action {
            Some(a) => "<footer>"@ + action_html(a) + "</footer>"@,
            None => Seq::empty(),
        });
        assert(s4 =~= s3 + match toast.description {
            Some(d) => "<p>"@ + escaped(d@) + "</p>"@,
            None => Seq::empty(),
        });
        assert(m@ =~= toast_html(*toast));
    }
    m
}

/// Whether `p` appends a toast with markup `html` to the toaster.
pub open spec fn toast_part(html: Seq<char>, p: Part) -> bool {
    &&& p.target@ == "#toaster"@
    &&& p.swap == Some(SwapOption::BeforeEnd)
    &&& p.content@ == html
}

impl Default for Toaster {
    /// A toaster at the inline end, as `new` makes it.
    fn default() -> (t: Toaster)
        ensures
            t.align == Align::End,
    {
        Toaster::new()
    }
}

impl Toaster {
    /// A toaster at the inline end.
    pub fn new() -> (t: Toaster)
        ensures
            t.align == Align::End,
    {
        Toaster { align: Align::End }
    }

    /// Sets the horizontal position.
    pub fn align(self, align: Align) -> (t: Toaster)
        ensures
            t.align == align,
    {
        Toaster { align }
    }

    /// Renders the toast container. Place it once, anywhere in `<body>`.
    pub fn shell(&self) -> (m: Markup)
        ensures
            m@ == toaster_shell_html(self.align),
    {
        let mut m = Markup::new();
        m.push_raw("<div popover=\"manual\" id=\"");
        m.push_text("toaster");
        m.push_raw("\" class=\"toaster\"");
        match self.align.attr() {
            Some(a) => {
                m.push_raw(" data-align=\"");
                m.push_text(a);
                m.push_raw("\"");
            },
            None => {},
        }
        m.push_raw("></div>");
        proof {
            assert(m@ =~= toaster_shell_html(self.align));
        }
        m
    }

    /// A success toast with the defaults of `Toast::new`.
    pub fn success(&self, title: &str, description: &str) -> (p: Part)
        ensures
            toast_part(default_toast_html(Category::Success, title@, description@), p),
    {
        self.toast(Toast::new(Category::Success, title, description))
    }

    /// An info toast with the defaults of `Toast::new`.
    pub fn info(&self, title: &str, description: &str) -> (p: Part)
        ensures
            toast_part(default_toast_html(Category::Info, title@, description@), p),
    {
        self.toast(Toast::new(Category::Info, title, description))
    }

    /// A warning toast with the defaults of `Toast::new`.
    pub fn warning(&self, title: &str, description: &str) -> (p: Part)
        ensures
            toast_part(default_toast_html(Category::Warning, title@, description@), p),
    {
        self.toast(Toast::new(Category::Warning, title, description))
    }

    /// An error toast with the defaults of `Toast::new`.
    pub fn error(&self, title: &str, description: &str) -> (p: Part)
        ensures
            toast_part(default_toast_html(Category::Error, title@, description@), p),
    {
        self.toast(Toast::new(Category::Error, title, description))
    }

    /// Renders `toast` as a part appended to the toaster:
    /// `hx-target="#toaster"`, `hx-swap="beforeend"`.
    pub fn toast(&self, toast: Toast) -> (p: Part)
        ensures
            toast_part(toast_html(toast), p),
    {
        let markup = render_toast(&toast);
        Part::new(Selector::new("#toaster"), markup).swap(SwapOption::BeforeEnd)
    }
}

} // verus!
