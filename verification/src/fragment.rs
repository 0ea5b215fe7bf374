//! Markup for one element with a typed id.
use std::marker::PhantomData;
use vstd::prelude::*;

use crate::markup::Markup;
use crate::partial::{Id, Part, Parts, Selector, SwapOption};

verus! {

/// Markup for one element whose root has `T`'s id. It renders as plain
/// markup; as a part of a response it replaces that element (`outerHTML`).
pub struct Fragment<T: Id> {
    markup: Markup,
    id: PhantomData<T>,
}

impl<T: Id> View for Fragment<T> {
    type V = Seq<char>;

    /// The markup.
    closed spec fn view(&self) -> Seq<char> {
        self.markup@
    }
}

impl<T: Id> Fragment<T> {
    /// Wraps markup whose root element has `T`'s id.
    pub fn new(markup: Markup) -> (f: Fragment<T>)
        ensures
            f@ == markup@,
    {
        Fragment { markup, id: PhantomData }
    }

    /// Appends the markup to `buffer`.
    pub fn render_to(&self, buffer: &mut String)
        ensures
            final(buffer)@ == old(buffer)@ + self@,
    {
        buffer.append(self.markup.as_str());
    }

    /// The part that replaces the element: aimed at `T::SEL`, swapped
    /// `outerHTML`.
    pub fn into_part(self) -> (p: Part)
        ensures
            p.target@ == T::SEL@,
            p.swap == Some(SwapOption::OuterHtml),
            p.content@ == self@,
    {
        Part::new(Selector::of_id::<T>(), self.markup).swap(SwapOption::OuterHtml)
    }

    /// That part, as a group of one.
    pub fn into_parts(self) -> (p: Parts)
        ensures
            p.parts@.len() == 1,
            p.parts@[0].target@ == T::SEL@,
            p.parts@[0].swap == Some(SwapOption::OuterHtml),
            p.parts@[0].content@ == self@,
    {
        Parts::from_part(self.into_part())
    }

    /// The plain markup.
    pub fn into_markup(self) -> (m: Markup)
        ensures
            m@ == self@,
    {
        self.markup
    }
}

} // verus!
