//! What drawers and dialogs share: a validated id, three slots derived from
//! it, the panel that holds them, and the event that closes them.
use vstd::prelude::*;

use crate::json::{object_json, object_text, members_view, JsonValue, json_quoted};
use crate::markup::{escaped, Markup};
use crate::partial::{HxPartial, Filled, NoMain, Part, Parts, Selector};

verus! {

/// The bytes that `u8::is_ascii_whitespace` accepts: space, tab, line feed,
/// form feed and carriage return.
pub open spec fn is_ascii_space(c: char) -> bool {
    c == ' ' || c == '\t' || c == '\n' || c == '\x0c' || c == '\r'
}

/// A modal id: not empty, with no ASCII whitespace and no `#`.
pub open spec fn valid_modal_id(id: Seq<char>) -> bool {
    id.len() > 0 && forall|i: int| 0 <= i < id.len() ==> !is_ascii_space(#[trigger] id[i]) && id[i] != '#'
}

/// Checks a modal id: it must be nonempty and contain no ASCII whitespace or
/// `#`. Widgets are built only from ids that pass.
pub fn check_modal_id(id: &str) -> (r: bool)
    ensures
        r == valid_modal_id(id@),
{
    let n = id.unicode_len();
    if n == 0 {
        return false;
    }
    let mut i: usize = 0;
    while i < n
        invariant
            n == id@.len(),
            i <= n,
            forall|j: int| 0 <= j < i ==> !is_ascii_space(#[trigger] id@[j]) && id@[j] != '#',
        decreases n - i,
    {
        let c = id.get_char(i);
        if c == ' ' || c == '\t' || c == '\n' || c == '\x0c' || c == '\r' || c == '#' {
            return false;
        }
        i = i + 1;
    }
    true
}

/// `{id}-{slot}`.
pub open spec fn slot_id_of(id: Seq<char>, slot: Seq<char>) -> Seq<char> {
    id + "-"@ + slot
}

/// The id of one slot of the modal `id`.
pub fn slot_id(id: &str, slot: &str) -> (r: String)
    ensures
        r@ == slot_id_of(id@, slot@),
{
    let mut r = id.to_owned();
    r.append("-");
    r.append(slot);
    r
}

/// An htmx event for the `HX-Trigger` header: a name and optional JSON data.
pub struct HxEvent {
    pub name: String,
    pub data: Option<JsonValue>,
}

/// What a modal holds: its element id and the classes of its content slot.
pub ghost struct ModalView {
    pub id: Seq<char>,
    pub content_class: Option<Seq<char>>,
}

/// The state shared by drawers and dialogs. Its id is always valid.
pub struct Modal {
    id: String,
    content_class: Option<String>,
}

impl View for Modal {
    type V = ModalView;

    closed spec fn view(&self) -> ModalView {
        ModalView {
            id: self.id@,
            content_class: match self.content_class {
                Some(c) => Some(c@),
                None => None,
            },
        }
    }
}

/// The empty panel of a modal: header, content and footer slots, each with
/// its derived id.
pub open spec fn panel_html(id: Seq<char>, content_class: Option<Seq<char>>) -> Seq<char> {
    "<div><header id=\""@ + escaped(slot_id_of(id, "header"@)) + "\"></header><section id=\""@
        + escaped(slot_id_of(id, "content"@)) + "\""@ + match content_class {
        Some(c) => " class=\""@ + escaped(c) + "\""@,
        None => Seq::empty(),
    } + "></section><footer id=\""@ + escaped(slot_id_of(id, "footer"@)) + "\"></footer></div>"@
}

/// The data of the close event: `{"id": id}`.
pub open spec fn close_data(id: Seq<char>) -> Seq<char> {
    object_text(seq![("id"@, json_quoted(id))])
}

impl Clone for Modal {
    /// A modal with the same id and content classes.
    fn clone(&self) -> (m: Modal)
        ensures
            m@ == self@,
    {
        proof {
            use_type_invariant(self);
        }
        let content_class = match &self.content_class {
            Some(c) => Some(c.clone()),
            None => None,
        };
        Modal { id: self.id.clone(), content_class }
    }
}

impl Modal {
    #[verifier::type_invariant]
    spec fn id_is_valid(&self) -> bool {
        valid_modal_id(self.id@)
    }

    /// A modal whose element uses `id`, which must pass `check_modal_id`.
    pub fn new(id: &str) -> (m: Modal)
        requires
            valid_modal_id(id@),
        ensures
            m@ == (ModalView { id: id@, content_class: None }),
    {
        Modal { id: id.to_owned(), content_class: None }
    }

    /// Sets classes on the content slot.
    pub fn content_class(self, class: &str) -> (m: Modal)
        ensures
            m@ == (ModalView { content_class: Some(class@), ..self@ }),
    {
        proof {
            use_type_invariant(&self);
        }
        Modal { id: self.id, content_class: Some(class.to_owned()) }
    }

    /// The element id, which is valid.
    pub fn id(&self) -> (r: &str)
        ensures
            r@ == self@.id,
            valid_modal_id(r@),
    {
        proof {
            use_type_invariant(self);
        }
        self.id.as_str()
    }

    /// The header slot's id, which labels the modal.
    pub fn header_id(&self) -> (r: String)
        ensures
            r@ == slot_id_of(self@.id, "header"@),
    {
        slot_id(self.id.as_str(), "header")
    }

    /// The empty panel with its three slots.
    pub fn panel(&self) -> (m: Markup)
        ensures
            m@ == panel_html(self@.id, self@.content_class),
    {
        let mut m = Markup::new();
        m.push_raw("<div><header id=\"");
        let header = slot_id(self.id.as_str(), "header");
        m.push_text(header.as_str());
        m.push_raw("\"></header><section id=\"");
        let content = slot_id(self.id.as_str(), "content");
        m.push_text(content.as_str());
        m.push_raw("\"");
        match &self.content_class {
            Some(c) => {
                m.push_raw(" class=\"");
                m.push_text(c.as_str());
                m.push_raw("\"");
            },
            None => {},
        }
        m.push_raw("></section><footer id=\"");
        let footer = slot_id(self.id.as_str(), "footer");
        m.push_text(footer.as_str());
        m.push_raw("\"></footer></div>");
        proof {
            assert(m@ =~= panel_html(self@.id, self@.content_class));
        }
        m
    }

    /// A response with no slot updates yet.
    pub fn slots(&self) -> (s: Slots)
        ensures
            s.id@ == self@.id,
            s.parts@ == Seq::<Part>::empty(),
    {
        Slots { id: self.id.clone(), parts: Vec::new() }
    }

    /// The htmx event that closes the modal: `dialog:close` with the id.
    pub fn close(&self) -> (e: HxEvent)
        ensures
            e.name@ == "dialog:close"@,
            e.data matches Some(d) && d@ == close_data(self@.id),
    {
        let mut members: Vec<(String, JsonValue)> = Vec::new();
        members.push(("id".to_owned(), JsonValue::string(self.id.as_str())));
        let text = object_json(&members);
        proof {
            assert(members_view(members@) =~= seq![("id"@, json_quoted(self.id@))]);
        }
        HxEvent { name: "dialog:close".to_owned(), data: Some(JsonValue::from_text(text)) }
    }

    /// The modal's selector, `#id`.
    pub fn selector(&self) -> (s: Selector)
        ensures
            s@ == "#"@ + self@.id,
    {
        let mut r = "#".to_owned();
        r.append(self.id.as_str());
        Selector(r)
    }
}

/// Slot updates for a drawer or a dialog, in the order they were added.
pub struct Slots {
    pub id: String,
    pub parts: Vec<Part>,
}

impl Slots {
    /// Adds an update for the header slot.
    pub fn header(self, header: Markup) -> (s: Slots)
        ensures
            s.id@ == self.id@,
            s.parts@.drop_last() == self.parts@,
            s.parts@.len() == self.parts@.len() + 1,
            s.parts@.last().target@ == "#"@ + slot_id_of(self.id@, "header"@),
            s.parts@.last().swap is None,
            s.parts@.last().content@ == header@,
    {
        self.fill("header", header)
    }

    /// Adds an update for the content slot.
    pub fn content(self, content: Markup) -> (s: Slots)
        ensures
            s.id@ == self.id@,
            s.parts@.drop_last() == self.parts@,
            s.parts@.len() == self.parts@.len() + 1,
            s.parts@.last().target@ == "#"@ + slot_id_of(self.id@, "content"@),
            s.parts@.last().swap is None,
            s.parts@.last().content@ == content@,
    {
        self.fill("content", content)
    }

    /// Adds an update for the footer slot.
    pub fn footer(self, footer: Markup) -> (s: Slots)
        ensures
            s.id@ == self.id@,
            s.parts@.drop_last() == self.parts@,
            s.parts@.len() == self.parts@.len() + 1,
            s.parts@.last().target@ == "#"@ + slot_id_of(self.id@, "footer"@),
            s.parts@.last().swap is None,
            s.parts@.last().content@ == footer@,
    {
        self.fill("footer", footer)
    }

    fn fill(self, slot: &str, content: Markup) -> (s: Slots)
        ensures
            s.id@ == self.id@,
            s.parts@.drop_last() == self.parts@,
            s.parts@.len() == self.parts@.len() + 1,
            s.parts@.last().target@ == "#"@ + slot_id_of(self.id@, slot@),
            s.parts@.last().swap is None,
            s.parts@.last().content@ == content@,
    {
        let mut target = "#".to_owned();
        let id = slot_id(self.id.as_str(), slot);
        target.append(id.as_str());
        let mut parts = self.parts;
        let ghost before = parts@;
        parts.push(Part::new(Selector(target), content));
        proof {
            assert(parts@.drop_last() =~= before);
        }
        Slots { id: self.id, parts }
    }

    /// The updates as parts, in order.
    pub fn into_parts(self) -> (p: Parts)
        ensures
            p.parts@ == self.parts@,
    {
        Parts::from_vec(self.parts)
    }

    /// A response holding the updates, in order.
    pub fn into_partial(self) -> (r: HxPartial<Filled, NoMain>)
        ensures
            r@.main is None,
            r@.parts == self.parts@,
    {
        HxPartial::new().parts(Parts::from_vec(self.parts))
    }
}

} // verus!
