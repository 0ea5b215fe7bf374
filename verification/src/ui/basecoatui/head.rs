//! The styles and scripts that the widgets share, for the page's `<head>`.
use vstd::prelude::*;

use crate::markup::Markup;

verus! {

/// The `<head>` markup of the widgets: the stylesheet in a `<style>`
/// element, then the script in a module `<script>` element.
pub open spec fn widget_head_html(css: Seq<char>, js: Seq<char>) -> Seq<char> {
    "<style>\n"@ + css + "</style>\n<script type=\"module\">\n"@ + js + "</script>"@
}

/// The shared styles and scripts of the toaster, drawers and dialogs, to be
/// rendered in `<head>` before the page's own assets. It opens drawers and
/// dialogs after their slots are updated, handles their close events, and
/// keeps toasts interactive above an open modal.
pub fn widget_head(css: &str, js: &str) -> (m: Markup)
    ensures
        m@ == widget_head_html(css@, js@),
{
    let mut m = Markup::new();
    m.push_raw("<style>\n");
    m.push_raw(css);
    m.push_raw("</style>\n<script type=\"module\">\n");
    m.push_raw(js);
    m.push_raw("</script>");
    proof {
        assert(m@ =~= widget_head_html(css@, js@));
    }
    m
}

} // verus!
