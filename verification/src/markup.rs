use std::fmt::Write as _;
use vstd::prelude::*;

verus! {

/// How maud escapes text for HTML: `&`, `<`, `>` and `"` become entities,
/// every other character stays as it is.
pub open spec fn escaped_char(c: char) -> Seq<char> {
    if c == '&' {
        seq!['&', 'a', 'm', 'p', ';']
    } else if c == '<' {
        seq!['&', 'l', 't', ';']
    } else if c == '>' {
        seq!['&', 'g', 't', ';']
    } else if c == '"' {
        seq!['&', 'q', 'u', 'o', 't', ';']
    } else {
        seq![c]
    }
}

/// The escaped form of a whole text, character by character.
pub open spec fn escaped(s: Seq<char>) -> Seq<char>
    decreases s.len(),
{
    if s.len() == 0 {
        Seq::empty()
    } else {
        escaped(s.drop_last()) + escaped_char(s.last())
    }
}

/// Escaped text holds no `<`, `>` or `"`: it can stand in element content
/// and inside a double-quoted attribute value without opening a tag or
/// closing the attribute.
pub proof fn law_escaped_has_no_markup(s: Seq<char>)
    ensures
        forall|i: int|
            0 <= i < escaped(s).len() ==> #[trigger] escaped(s)[i] != '<' && escaped(s)[i] != '>'
                && escaped(s)[i] != '"',
    decreases s.len(),
{
    if s.len() > 0 {
        law_escaped_has_no_markup(s.drop_last());
        let head = escaped(s.drop_last());
        let tail = escaped_char(s.last());
        assert forall|i: int| 0 <= i < escaped(s).len() implies #[trigger] escaped(s)[i] != '<'
            && escaped(s)[i] != '>' && escaped(s)[i] != '"' by {
            if i < head.len() {
                assert(escaped(s)[i] == head[i]);
            } else {
                assert(escaped(s)[i] == tail[i - head.len()]);
            }
        }
    }
}

/// Escaping works character by character: escaping two texts one after the
/// other gives the escaped form of the two together.
pub proof fn law_escaped_concat(a: Seq<char>, b: Seq<char>)
    ensures
        escaped(a + b) == escaped(a) + escaped(b),
    decreases b.len(),
{
    if b.len() == 0 {
        assert(a + b =~= a);
        assert(escaped(a) + escaped(b) =~= escaped(a));
    } else {
        law_escaped_concat(a, b.drop_last());
        assert((a + b).drop_last() =~= a + b.drop_last());
        assert((a + b).last() == b.last());
        assert(escaped(a) + escaped(b.drop_last()) + escaped_char(b.last()) =~= escaped(a) + (
        escaped(b.drop_last()) + escaped_char(b.last())));
    }
}

/// Appends `s` to `buffer` through `maud::Escaper`. maud's `escape_to_string`
/// replaces the bytes `&`, `<`, `>`, `"` by `&amp;`, `&lt;`, `&gt;`, `&quot;`
/// and copies every other byte; as those bytes never occur inside a multi-byte
/// UTF-8 character, this is `escaped` on characters.
#[verifier::external_body]
pub(crate) fn escape_into(buffer: &mut String, s: &str)
    ensures
        final(buffer)@ == old(buffer)@ + escaped(s@),
{
    let _ = maud::Escaper::new(buffer).write_str(s);
}

/// HTML text whose special characters are already escaped, like maud's
/// `PreEscaped<String>`.
#[derive(Clone)]
pub struct Markup(pub String);

impl View for Markup {
    type V = Seq<char>;

    open spec fn view(&self) -> Seq<char> {
        self.0@
    }
}

impl Markup {
    /// Empty markup.
    pub fn new() -> (m: Markup)
        ensures
            m@ == Seq::<char>::empty(),
    {
        Markup(String::new())
    }

    /// Markup that is `html` as written, with no escaping.
    pub fn pre_escaped(html: String) -> (m: Markup)
        ensures
            m@ == html@,
    {
        Markup(html)
    }

    /// Markup for plain text: the text, escaped.
    pub fn text(s: &str) -> (m: Markup)
        ensures
            m@ == escaped(s@),
    {
        let mut buffer = String::new();
        escape_into(&mut buffer, s);
        proof {
            assert(buffer@ =~= escaped(s@));
        }
        Markup(buffer)
    }

    /// The HTML text.
    pub fn into_string(self) -> (s: String)
        ensures
            s@ == self@,
    {
        self.0
    }

    /// The HTML text, borrowed.
    pub fn as_str(&self) -> (s: &str)
        ensures
            s@ == self@,
    {
        self.0.as_str()
    }

    /// Appends HTML as written.
    pub fn push_raw(&mut self, html: &str)
        ensures
            final(self)@ == old(self)@ + html@,
    {
        self.0.append(html);
    }

    /// Appends text, escaped.
    pub fn push_text(&mut self, text: &str)
        ensures
            final(self)@ == old(self)@ + escaped(text@),
    {
        escape_into(&mut self.0, text);
    }
}

} // verus!
