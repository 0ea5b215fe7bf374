//! A server-driven Basecoat drawer.
use vstd::prelude::*;

use super::modal::{panel_html, slot_id_of, valid_modal_id, HxEvent, Modal, Slots, close_data};
use crate::markup::{escaped, Markup};
use crate::partial::Selector;

verus! {

/// The edge from which a drawer opens.
#[derive(Clone, Copy, Debug, PartialEq, Eq, Structural)]
pub enum Side {
    Top,
    Right,
    Bottom,
    Left,
}

/// The `data-side` value of an edge.
pub open spec fn side_text(s: Side) -> Seq<char> {
    match s {
        Side::Top => "top"@,
        Side::Right => "right"@,
        Side::Bottom => "bottom"@,
        Side::Left => "left"@,
    }
}

impl Side {
    /// The `data-side` value.
    pub fn as_str(self) -> (r: &'static str)
        ensures
            r@ == side_text(self),
    {
        match self {
            Side::Top => "top",
            Side::Right => "right",
            Side::Bottom => "bottom",
            Side::Left => "left",
        }
    }
}

/// A server-driven drawer. Render its shell once on the page; returning
/// updates for any of its slots opens it.
#[derive(Clone)]
pub struct Drawer {
    pub modal: Modal,
    pub side: Side,
}

/// The empty drawer shell.
pub open spec fn drawer_shell_html(id: Seq<char>, side: Side, content_class: Option<Seq<char>>) -> Seq<char> {
    "<dialog id=\""@ + escaped(id) + "\" class=\"drawer\" data-side=\""@ + escaped(side_text(side))
        + "\" aria-labelledby=\""@ + escaped(slot_id_of(id, "header"@)) + "\">"@ + panel_html(
        id,
        content_class,
    ) + "</dialog>"@
}

impl Drawer {
    /// A drawer on the right whose element uses `id`, which must pass
    /// `check_modal_id`.
    pub fn new(id: &str) -> (d: Drawer)
        requires
            valid_modal_id(id@),
        ensures
            d.modal@.id == id@,
            d.modal@.content_class is None,
            d.side == Side::Right,
    {
        Drawer { modal: Modal::new(id), side: Side::Right }
    }

    /// Sets the edge from which the drawer opens.
    pub fn side(self, side: Side) -> (d: Drawer)
        ensures
            d.modal == self.modal,
            d.side == side,
    {
        Drawer { modal: self.modal, side }
    }

    /// Sets classes on the content slot.
    pub fn content_class(self, class: &str) -> (d: Drawer)
        ensures
            d.modal@.id == self.modal@.id,
            d.modal@.content_class == Some(class@),
            d.side == self.side,
    {
        Drawer { modal: self.modal.content_class(class), side: self.side }
    }

    /// Renders the empty drawer shell.
    pub fn shell(&self) -> (m: Markup)
        ensures
            m@ == drawer_shell_html(self.modal@.id, self.side, self.modal@.content_class),
    {
        let mut m = Markup::new();
        m.push_raw("<dialog id=\"");
        m.push_text(self.modal.id());
        m.push_raw("\" class=\"drawer\" data-side=\"");
        m.push_text(self.side.as_str());
        m.push_raw("\" aria-labelledby=\"");
        let header = self.modal.header_id();
        m.push_text(header.as_str());
        m.push_raw("\">");
        let panel = self.modal.panel();
        m.push_raw(panel.as_str());
        m.push_raw("</dialog>");
        proof {
            assert(m@ =~= drawer_shell_html(self.modal@.id, self.side, self.modal@.content_class));
        }
        m
    }

    /// Starts a response with an update for the header slot.
    pub fn header(&self, header: Markup) -> (s: Slots)
        ensures
            s.id@ == self.modal@.id,
            s.parts@.len() == 1,
            s.parts@[0].target@ == "#"@ + slot_id_of(self.modal@.id, "header"@),
            s.parts@[0].swap is None,
            s.parts@[0].content@ == header@,
    {
        self.modal.slots().header(header)
    }

    /// Starts a response with an update for the content slot.
    pub fn content(&self, content: Markup) -> (s: Slots)
        ensures
            s.id@ == self.modal@.id,
            s.parts@.len() == 1,
            s.parts@[0].target@ == "#"@ + slot_id_of(self.modal@.id, "content"@),
            s.parts@[0].swap is None,
            s.parts@[0].content@ == content@,
    {
        self.modal.slots().content(content)
    }

    /// Starts a response with an update for the footer slot.
    pub fn footer(&self, footer: Markup) -> (s: Slots)
        ensures
            s.id@ == self.modal@.id,
            s.parts@.len() == 1,
            s.parts@[0].target@ == "#"@ + slot_id_of(self.modal@.id, "footer"@),
            s.parts@[0].swap is None,
            s.parts@[0].content@ == footer@,
    {
        self.modal.slots().footer(footer)
    }

    /// The htmx event that closes the drawer.
    pub fn close(&self) -> (e: HxEvent)
        ensures
            e.name@ == "dialog:close"@,
            e.data matches Some(d) && d@ == close_data(self.modal@.id),
    {
        self.modal.close()
    }

    /// The drawer's selector, `#id`.
    pub fn selector(&self) -> (s: Selector)
        ensures
            s@ == "#"@ + self.modal@.id,
    {
        self.modal.selector()
    }
}

} // verus!
