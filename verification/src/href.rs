//! Links behind the app's base path.
use vstd::prelude::*;

use crate::markup::{escape_into, escaped, Markup};

verus! {

/// A route path prefixed with the app's base path. `path` is the route as
/// its `Display` writes it.
pub struct Href {
    pub base: String,
    pub path: String,
}

/// The type of `asset!`: an asset URL behind the base path.
pub type Asset = Href;

impl Href {
    /// Prefixes `path` with `base`.
    pub fn new(base: &str, path: &str) -> (h: Href)
        ensures
            h.base@ == base@,
            h.path@ == path@,
    {
        Href { base: base.to_owned(), path: path.to_owned() }
    }

    /// The link as text: the base, then the path.
    pub fn to_string(&self) -> (s: String)
        ensures
            s@ == self.base@ + self.path@,
    {
        let mut s = self.base.clone();
        s.append(self.path.as_str());
        s
    }

    /// Appends the link, escaped, to `buffer`.
    pub fn render_to(&self, buffer: &mut String)
        ensures
            final(buffer)@ == old(buffer)@ + escaped(self.base@ + self.path@),
    {
        let text = self.to_string();
        escape_into(buffer, text.as_str());
    }

    /// The link as markup.
    pub fn render(&self) -> (m: Markup)
        ensures
            m@ == escaped(self.base@ + self.path@),
    {
        let mut buffer = String::new();
        self.render_to(&mut buffer);
        proof {
            assert(buffer@ =~= escaped(self.base@ + self.path@));
        }
        Markup::pre_escaped(buffer)
    }
}

} // verus!
