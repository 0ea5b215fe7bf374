//! htmx responses: targeted `<hx-partial>` blocks, an optional main body, and
//! the selectors and swap styles they are aimed with.
use std::marker::PhantomData;
use vstd::prelude::*;

use crate::markup::{escape_into, escaped, Markup};

verus! {

/// A typed element id: the bare id and the id as a CSS selector.
pub trait Id {
    /// The bare id, `"todo-list"`.
    const ID: &'static str;

    /// The id as a CSS selector, `"#todo-list"`.
    const SEL: &'static str;
}

/// An `hx-swap` style.
#[derive(Clone, Copy, Debug, PartialEq, Eq, Structural)]
pub enum SwapOption {
    InnerHtml,
    OuterHtml,
    BeforeBegin,
    AfterBegin,
    BeforeEnd,
    AfterEnd,
    Delete,
    SwapNone,
}

/// The attribute value of a swap style, as `axum_htmx` spells it.
pub open spec fn swap_text(s: SwapOption) -> Seq<char> {
    match s {
        SwapOption::InnerHtml => "innerHTML"@,
        SwapOption::OuterHtml => "outerHTML"@,
        SwapOption::BeforeBegin => "beforebegin"@,
        SwapOption::AfterBegin => "afterbegin"@,
        SwapOption::BeforeEnd => "beforeend"@,
        SwapOption::AfterEnd => "afterend"@,
        SwapOption::Delete => "delete"@,
        SwapOption::SwapNone => "none"@,
    }
}

/// The `hx-swap` value of `swap`: the text of the `HeaderValue` that
/// `axum_htmx` converts the matching `axum_htmx::SwapOption` into. Its
/// `From<SwapOption> for HeaderValue` maps each variant to the constant that
/// `swap_text` lists, all visible ASCII, so `to_str` succeeds.
#[verifier::external_body]
pub(crate) fn swap_attr(swap: SwapOption) -> (r: String)
    ensures
        r@ == swap_text(swap),
{
    let swap = match swap {
        SwapOption::InnerHtml => axum_htmx::SwapOption::InnerHtml,
        SwapOption::OuterHtml => axum_htmx::SwapOption::OuterHtml,
        SwapOption::BeforeBegin => axum_htmx::SwapOption::BeforeBegin,
        SwapOption::AfterBegin => axum_htmx::SwapOption::AfterBegin,
        SwapOption::BeforeEnd => axum_htmx::SwapOption::BeforeEnd,
        SwapOption::AfterEnd => axum_htmx::SwapOption::AfterEnd,
        SwapOption::Delete => axum_htmx::SwapOption::Delete,
        SwapOption::SwapNone => axum_htmx::SwapOption::None,
    };
    axum::http::HeaderValue::from(swap).to_str().unwrap_or_default().to_owned()
}

/// A CSS selector used by `hx-target` and `hx-sync`, kept as written.
#[derive(Clone)]
pub struct Selector(pub String);

impl View for Selector {
    type V = Seq<char>;

    open spec fn view(&self) -> Seq<char> {
        self.0@
    }
}

impl Selector {
    /// The selector `s`, as written (`"#list"`, `"closest form"`).
    pub fn new(s: &str) -> (r: Selector)
        ensures
            r@ == s@,
    {
        Selector(s.to_owned())
    }

    /// The selector of an `#[id]` type: its `SEL`.
    pub fn of_id<T: Id>() -> (r: Selector)
        ensures
            r@ == T::SEL@,
    {
        Selector(T::SEL.to_owned())
    }

    /// The selector text.
    pub fn into_string(self) -> (s: String)
        ensures
            s@ == self@,
    {
        self.0
    }

    /// The selector as markup, unescaped.
    pub fn render(&self) -> (m: Markup)
        ensures
            m@ == self@,
    {
        Markup::pre_escaped(self.0.clone())
    }
}

impl From<String> for Selector {
    fn from(value: String) -> (r: Selector) {
        Selector(value)
    }
}

impl vstd::std_specs::convert::FromSpecImpl<String> for Selector {
    open spec fn obeys_from_spec() -> bool {
        true
    }

    open spec fn from_spec(v: String) -> Selector {
        Selector(v)
    }
}

/// Content for an htmx target, with an optional swap style.
pub struct Part {
    pub target: Selector,
    pub swap: Option<SwapOption>,
    pub content: Markup,
}

impl Part {
    /// A part for `target`.
    pub fn new(target: Selector, content: Markup) -> (p: Part)
        ensures
            p.target@ == target@,
            p.swap is None,
            p.content@ == content@,
    {
        Part { target, swap: None, content }
    }

    /// Sets the swap style.
    pub fn swap(self, swap: SwapOption) -> (p: Part)
        ensures
            p.target@ == self.target@,
            p.swap == Some(swap),
            p.content@ == self.content@,
    {
        Part { target: self.target, swap: Some(swap), content: self.content }
    }

    /// The content without its `<hx-partial>` wrapper, for rendering the same
    /// fragment as part of a full page.
    pub fn render(self) -> (m: Markup)
        ensures
            m@ == self.content@,
    {
        self.content
    }

    /// Appends the content, as markup, to `buffer`.
    pub fn render_to(&self, buffer: &mut String)
        ensures
            final(buffer)@ == old(buffer)@ + self.content@,
    {
        buffer.append(self.content.as_str());
    }
}

/// A collection of parts, in response order.
pub struct Parts {
    pub parts: Vec<Part>,
}

impl Parts {
    /// One part.
    pub fn from_part(part: Part) -> (r: Parts)
        ensures
            r.parts@ == seq![part],
    {
        let mut parts = Vec::new();
        parts.push(part);
        Parts { parts }
    }

    /// These parts, in this order.
    pub fn from_vec(parts: Vec<Part>) -> (r: Parts)
        ensures
            r.parts@ == parts@,
    {
        Parts { parts }
    }
}

/// Type state before any content has been added.
pub struct Empty;

/// Type state after at least one piece of content has been added.
pub struct Filled;

/// Type state before the main body has been set.
pub struct NoMain;

/// Type state after the main body has been set.
pub struct HasMain;

/// An htmx response with an optional main body and any number of targeted
/// `<hx-partial>` blocks. `S` tracks whether it has content, `M` whether its
/// main body is set.
pub struct HxPartial<S, M> {
    main: Option<Markup>,
    parts: Vec<Part>,
    state: PhantomData<(S, M)>,
}

/// What a response holds: its main body, if set, and its parts in order.
pub ghost struct PartialView {
    pub main: Option<Markup>,
    pub parts: Seq<Part>,
}

impl<S, M> View for HxPartial<S, M> {
    type V = PartialView;

    closed spec fn view(&self) -> PartialView {
        PartialView { main: self.main, parts: self.parts@ }
    }
}

/// A response with one or more targeted parts and no main body.
pub type HxPartialResponse = HxPartial<Filled, NoMain>;

impl<S, M> HxPartial<S, M> {
    fn cast<S2, M2>(self) -> (r: HxPartial<S2, M2>)
        ensures
            r@.main == self@.main,
            r@.parts == self@.parts,
    {
        HxPartial { main: self.main, parts: self.parts, state: PhantomData }
    }
}

impl HxPartial<Empty, NoMain> {
    /// An empty builder. Add a main body or a part before returning it.
    pub fn new() -> (r: HxPartial<Empty, NoMain>)
        ensures
            r@.main is None,
            r@.parts == Seq::<Part>::empty(),
    {
        HxPartial { main: None, parts: Vec::new(), state: PhantomData }
    }
}

impl Default for HxPartial<Empty, NoMain> {
    /// An empty builder, as `new` makes it.
    fn default() -> (r: HxPartial<Empty, NoMain>)
        ensures
            r@.main is None,
            r@.parts == Seq::<Part>::empty(),
    {
        HxPartial::new()
    }
}

impl<S> HxPartial<S, NoMain> {
    /// Sets the markup for the request's original target, rendered before
    /// the `<hx-partial>` blocks. It can be set once.
    pub fn main(self, content: Markup) -> (r: HxPartial<Filled, HasMain>)
        ensures
            r@.main == Some(content),
            r@.parts == self@.parts,
    {
        let mut s = self;
        s.main = Some(content);
        s.cast()
    }
}

impl<S, M> HxPartial<S, M> {
    /// One `<hx-partial>` block, aimed at `target`.
    pub fn target(self, target: Selector, content: Markup) -> (r: HxPartial<Filled, M>)
        ensures
            r@.main == self@.main,
            r@.parts.len() == self@.parts.len() + 1,
            r@.parts.drop_last() == self@.parts,
            r@.parts.last().target@ == target@,
            r@.parts.last().swap is None,
            r@.parts.last().content@ == content@,
    {
        self.part(Part::new(target, content))
    }

    /// One `<hx-partial>` block, aimed at `target` with the swap spelled out.
    pub fn target_swap(self, target: Selector, swap: SwapOption, content: Markup) -> (r: HxPartial<
        Filled,
        M,
    >)
        ensures
            r@.main == self@.main,
            r@.parts.len() == self@.parts.len() + 1,
            r@.parts.drop_last() == self@.parts,
            r@.parts.last().target@ == target@,
            r@.parts.last().swap == Some(swap),
            r@.parts.last().content@ == content@,
    {
        self.part(Part::new(target, content).swap(swap))
    }

    /// Adds a preconfigured part after the ones already there.
    pub fn part(self, part: Part) -> (r: HxPartial<Filled, M>)
        ensures
            r@.main == self@.main,
            r@.parts == self@.parts.push(part),
    {
        let mut s = self;
        s.parts.push(part);
        s.cast()
    }

    /// Adds a group of parts, in their order, after the ones already there.
    pub fn parts(self, parts: Parts) -> (r: HxPartial<Filled, M>)
        ensures
            r@.main == self@.main,
            r@.parts == self@.parts + parts.parts@,
    {
        let mut s = self;
        let mut more = parts.parts;
        s.parts.append(&mut more);
        s.cast()
    }
}

impl HxPartial<Filled, NoMain> {
    /// A response holding one part.
    pub fn from_part(part: Part) -> (r: HxPartial<Filled, NoMain>)
        ensures
            r@.main is None,
            r@.parts == seq![part],
    {
        HxPartial::new().part(part)
    }
}

/// The `<hx-partial>` block of one part: the target as written, the swap
/// style escaped, the content as markup.
pub open spec fn part_html(p: Part) -> Seq<char> {
    "<hx-partial hx-target=\""@ + p.target@ + "\""@ + match p.swap {
        Some(s) => " hx-swap=\""@ + escaped(swap_text(s)) + "\""@,
        None => Seq::empty(),
    } + ">"@ + p.content@ + "</hx-partial>"@
}

/// The blocks of these parts, in order.
pub open spec fn parts_html(ps: Seq<Part>) -> Seq<char>
    decreases ps.len(),
{
    if ps.len() == 0 {
        Seq::empty()
    } else {
        parts_html(ps.drop_last()) + part_html(ps.last())
    }
}

/// A response: the main body, if any, then one block per part.
pub open spec fn response_html(main: Option<Markup>, ps: Seq<Part>) -> Seq<char> {
    match main {
        Some(m) => m@ + parts_html(ps),
        None => parts_html(ps),
    }
}

/// Parts added as a group render in place: a response whose parts are `a`
/// then `b` renders as the response with `a`, followed by the blocks of `b`
/// in their order.
pub proof fn law_parts_render_in_place(main: Option<Markup>, a: Seq<Part>, b: Seq<Part>)
    ensures
        parts_html(a + b) == parts_html(a) + parts_html(b),
        response_html(main, a + b) == response_html(main, a) + parts_html(b),
    decreases b.len(),
{
    if b.len() == 0 {
        assert(a + b =~= a);
        assert(parts_html(a) + parts_html(b) =~= parts_html(a));
    } else {
        law_parts_render_in_place(main, a, b.drop_last());
        assert((a + b).drop_last() =~= a + b.drop_last());
        assert((a + b).last() == b.last());
        assert(parts_html(a) + parts_html(b.drop_last()) + part_html(b.last()) =~= parts_html(a) + (
        parts_html(b.drop_last()) + part_html(b.last())));
    }
    match main {
        Some(m) => {
            assert(m@ + (parts_html(a) + parts_html(b)) =~= m@ + parts_html(a) + parts_html(b));
        },
        None => {},
    }
}

/// Appends the block of one part to `buffer`.
fn render_part(p: &Part, buffer: &mut String)
    ensures
        final(buffer)@ == old(buffer)@ + part_html(*p),
{
    buffer.append("<hx-partial hx-target=\"");
    buffer.append(p.target.0.as_str());
    buffer.append("\"");
    match p.swap {
        Some(s) => {
            buffer.append(" hx-swap=\"");
            let text = swap_attr(s);
            escape_into(buffer, text.as_str());
            buffer.append("\"");
        },
        None => {},
    }
    buffer.append(">");
    buffer.append(p.content.as_str());
    buffer.append("</hx-partial>");
    proof {
        assert(final(buffer)@ =~= old(buffer)@ + part_html(*p));
    }
}

impl<M> HxPartial<Filled, M> {
    /// Renders the main body first, then one `<hx-partial>` block per part in
    /// the order they were added.
    pub fn render(self) -> (m: Markup)
        ensures
            m@ == response_html(self@.main, self@.parts),
    {
        let mut buffer = String::new();
        match &self.main {
            Some(main) => buffer.append(main.as_str()),
            None => {},
        }
        let ghost head = buffer@;
        let mut i: usize = 0;
        proof {
            assert(self.parts@.take(0) =~= Seq::<Part>::empty());
        }
        while i < self.parts.len()
            invariant
                i <= self.parts.len(),
                buffer@ == head + parts_html(self.parts@.take(i as int)),
            decreases self.parts.len() - i,
        {
            render_part(&self.parts[i], &mut buffer);
            proof {
                let t = self.parts@.take(i as int + 1);
                assert(t.drop_last() =~= self.parts@.take(i as int));
            }
            i = i + 1;
        }
        proof {
            assert(self.parts@.take(self.parts.len() as int) =~= self.parts@);
        }
        Markup::pre_escaped(buffer)
    }
}

} // verus!
