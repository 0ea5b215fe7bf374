//! A server-driven Basecoat dialog.
use vstd::prelude::*;

use super::modal::{panel_html, slot_id_of, valid_modal_id, HxEvent, Modal, Slots, close_data};
use crate::markup::{escaped, Markup};
use crate::partial::Selector;

verus! {

/// A server-driven dialog. Render its shell once on the page; returning
/// updates for any of its slots opens it.
#[derive(Clone)]
pub struct Dialog {
    pub modal: Modal,
}

/// The empty dialog shell, closed by a click on its backdrop.
pub open spec fn dialog_shell_html(id: Seq<char>, content_class: Option<Seq<char>>) -> Seq<char> {
    "<dialog id=\""@ + escaped(id) + "\" class=\"dialog\" aria-labelledby=\""@ + escaped(
        slot_id_of(id, "header"@),
    ) + "\" onclick=\"if (event.target === this) this.close()\">"@ + panel_html(id, content_class)
        + "</dialog>"@
}

impl Dialog {
    /// A dialog whose element uses `id`, which must pass `check_modal_id`.
    pub fn new(id: &str) -> (d: Dialog)
        requires
            valid_modal_id(id@),
        ensures
            d.modal@.id == id@,
            d.modal@.content_class is None,
    {
        Dialog { modal: Modal::new(id) }
    }

    /// Sets classes on the content slot.
    pub fn content_class(self, class: &str) -> (d: Dialog)
        ensures
            d.modal@.id == self.modal@.id,
            d.modal@.content_class == Some(class@),
    {
        Dialog { modal: self.modal.content_class(class) }
    }

    /// Renders the empty dialog shell.
    pub fn shell(&self) -> (m: Markup)
        ensures
            m@ == dialog_shell_html(self.modal@.id, self.modal@.content_class),
    {
        let mut m = Markup::new();
        m.push_raw("<dialog id=\"");
        m.push_text(self.modal.id());
        m.push_raw("\" class=\"dialog\" aria-labelledby=\"");
        let header = self.modal.header_id();
        m.push_text(header.as_str());
        m.push_raw("\" onclick=\"if (event.target === this) this.close()\">");
        let panel = self.modal.panel();
        m.push_raw(panel.as_str());
        m.push_raw("</dialog>");
        proof {
            assert(m@ =~= dialog_shell_html(self.modal@.id, self.modal@.content_class));
        }
        m
    }

    /// Starts a response with an update for the header slot.
    pub fn header(&self, header: Markup) -> (s: Slots)
        ensures
            s.id@ == self.modal@.id,
            s.parts@.len() == 1,
            s.parts@[0].target@ == "#"@ + slot_id_of(self.modal@.id, "header"@),
            s.parts@[0].swap is None,
            s.parts@[0].content@ == header@,
    {
        self.modal.slots().header(header)
    }

    /// Starts a response with an update for the content slot.
    pub fn content(&self, content: Markup) -> (s: Slots)
        ensures
            s.id@ == self.modal@.id,
            s.parts@.len() == 1,
            s.parts@[0].target@ == "#"@ + slot_id_of(self.modal@.id, "content"@),
            s.parts@[0].swap is None,
            s.parts@[0].content@ == content@,
    {
        self.modal.slots().content(content)
    }

    /// Starts a response with an update for the footer slot.
    pub fn footer(&self, footer: Markup) -> (s: Slots)
        ensures
            s.id@ == self.modal@.id,
            s.parts@.len() == 1,
            s.parts@[0].target@ == "#"@ + slot_id_of(self.modal@.id, "footer"@),
            s.parts@[0].swap is None,
            s.parts@[0].content@ == footer@,
    {
        self.modal.slots().footer(footer)
    }

    /// The htmx event that closes the dialog.
    pub fn close(&self) -> (e: HxEvent)
        ensures
            e.name@ == "dialog:close"@,
            e.data matches Some(d) && d@ == close_data(self.modal@.id),
    {
        self.modal.close()
    }

    /// The dialog's selector, `#id`.
    pub fn selector(&self) -> (s: Selector)
        ensures
            s@ == "#"@ + self.modal@.id,
    {
        self.modal.selector()
    }
}

} // verus!
