//! What the attribute macros decide, apart from emitting tokens: element ids
//! and their checks, the names and docs they generate, and how an
//! `#[action]` field's type shapes its setter.
use heck::{ToKebabCase, ToPascalCase};
use vstd::prelude::*;

use crate::text::{chars_of, string_of};

verus! {

/// Whether `char::is_whitespace` holds of `c`: the Unicode `White_Space`
/// property.
pub uninterp spec fn unicode_whitespace(c: char) -> bool;

/// `char::is_whitespace`. Its result depends on the character alone; the
/// list of `White_Space` characters is not stated here.
#[verifier::external_body]
fn is_whitespace(c: char) -> (r: bool)
    ensures
        r == unicode_whitespace(c),
{
    c.is_whitespace()
}

/// A bare id: not empty, no whitespace, no `#`.
pub open spec fn bare_id(value: Seq<char>) -> bool {
    value.len() > 0 && forall|i: int|
        0 <= i < value.len() ==> !unicode_whitespace(#[trigger] value[i]) && value[i] != '#'
}

/// The error for an id that is not bare.
pub open spec fn bare_id_error() -> Seq<char> {
    "expected a bare id: not empty, no whitespace, no `#`"@
}

/// Checks an id given to `#[id("..")]` or `#[fragment("..")]`.
pub fn check_id(value: &str) -> (r: Result<(), String>)
    ensures
        r is Ok <==> bare_id(value@),
        r matches Err(e) ==> e@ == bare_id_error(),
{
    let chars = chars_of(value);
    let mut ok = chars.len() > 0;
    let mut i: usize = 0;
    while i < chars.len()
        invariant
            chars@ == value@,
            i <= chars.len(),
            ok == (value@.len() > 0 && forall|j: int|
                0 <= j < i ==> !unicode_whitespace(#[trigger] value@[j]) && value@[j] != '#'),
        decreases chars.len() - i,
    {
        let c = chars[i];
        if is_whitespace(c) || c == '#' {
            ok = false;
        }
        i = i + 1;
    }
    if ok {
        Ok(())
    } else {
        Err("expected a bare id: not empty, no whitespace, no `#`".to_owned())
    }
}

/// What `heck`'s `to_kebab_case` makes of `s`.
pub uninterp spec fn kebab_case(s: Seq<char>) -> Seq<char>;

/// What `heck`'s `to_pascal_case` makes of `s`.
pub uninterp spec fn pascal_case(s: Seq<char>) -> Seq<char>;

/// `heck::ToKebabCase::to_kebab_case`: words split at case changes and
/// separators, lowercased, joined by `-`. It depends on `s` alone; its word
/// rules are not stated here.
#[verifier::external_body]
fn kebab(s: &str) -> (r: String)
    ensures
        r@ == kebab_case(s@),
{
    s.to_kebab_case()
}

/// `heck::ToPascalCase::to_pascal_case`: words capitalized and joined. It
/// depends on `s` alone; its word rules are not stated here.
#[verifier::external_body]
fn pascal(s: &str) -> (r: String)
    ensures
        r@ == pascal_case(s@),
{
    s.to_pascal_case()
}

/// `s` without a trailing `-id`, if it has one.
pub open spec fn strip_id_suffix_of(s: Seq<char>) -> Seq<char> {
    if s.len() >= 3 && s.subrange(s.len() - 3, s.len() as int) =~= "-id"@ {
        s.subrange(0, s.len() - 3)
    } else {
        s
    }
}

/// Removes a trailing `-id` from a kebab-case name.
pub fn strip_id_suffix(kebab: &str) -> (r: String)
    ensures
        r@ == strip_id_suffix_of(kebab@),
{
    let chars = chars_of(kebab);
    let n = chars.len();
    proof {
        reveal_strlit("-id");
    }
    if n >= 3 && chars[n - 3] == '-' && chars[n - 2] == 'i' && chars[n - 1] == 'd' {
        let mut kept: Vec<char> = Vec::new();
        let mut i: usize = 0;
        while i < n - 3
            invariant
                n == chars.len(),
                n >= 3,
                chars@ == kebab@,
                i <= n - 3,
                kept@ == kebab@.subrange(0, i as int),
            decreases n - 3 - i,
        {
            kept.push(chars[i]);
            proof {
                assert(kept@ =~= kebab@.subrange(0, i as int + 1));
            }
            i = i + 1;
        }
        proof {
            assert(kebab@.subrange(n - 3, n as int) =~= "-id"@);
        }
        string_of(&kept)
    } else {
        proof {
            if n >= 3 {
                let t = kebab@.subrange(n - 3, n as int);
                if t =~= "-id"@ {
                    assert(t[0] == '-' && t[1] == 'i' && t[2] == 'd');
                }
            }
        }
        kebab.to_owned()
    }
}

/// The default id of a type: its name in kebab-case, less a trailing `-id`.
pub open spec fn html_id_of(ident: Seq<char>) -> Seq<char> {
    strip_id_suffix_of(kebab_case(ident))
}

/// The default id for the type `ident`: kebab-case, with a trailing `-id`
/// removed (`TodoListId` becomes `todo-list`).
pub fn html_id(ident: &str) -> (r: String)
    ensures
        r@ == html_id_of(ident@),
{
    let k = kebab(ident);
    strip_id_suffix(k.as_str())
}

/// The id that `#[id]` gives the type `ident`: the literal given to the
/// attribute, else the default id; it must be bare.
pub open spec fn id_value_of(ident: Seq<char>, given: Option<Seq<char>>) -> Result<Seq<char>, Seq<char>> {
    let v = match given {
        Some(g) => g,
        None => html_id_of(ident),
    };
    if bare_id(v) {
        Ok(v)
    } else {
        Err(bare_id_error())
    }
}

/// The id of an `#[id]` type named `ident`, from the attribute's literal if
/// it has one.
pub fn id_value(ident: &str, given: Option<&str>) -> (r: Result<String, String>)
    ensures
        match id_value_of(ident@, match given {
            Some(g) => Some(g@),
            None => None,
        }) {
            Ok(v) => r matches Ok(s) && s@ == v,
            Err(e) => r matches Err(s) && s@ == e,
        },
{
    let v = match given {
        Some(g) => g.to_owned(),
        None => html_id(ident),
    };
    match check_id(v.as_str()) {
        Ok(()) => Ok(v),
        Err(e) => Err(e),
    }
}

/// `#` and the id: the selector of an id.
pub fn id_selector(value: &str) -> (r: String)
    ensures
        r@ == seq!['#'] + value@,
{
    let mut r = String::new();
    crate::text::push_char(&mut r, '#');
    r.append(value);
    r
}

/// The doc lines a macro adds after the item's own docs: an empty line to
/// separate them when there are docs already, then `doc`.
pub fn doc_lines(has_doc: bool, doc: &str) -> (r: Vec<String>)
    ensures
        has_doc ==> r@.len() == 2 && r@[0]@ == Seq::<char>::empty() && r@[1]@ == doc@,
        !has_doc ==> r@.len() == 1 && r@[0]@ == doc@,
{
    let mut r: Vec<String> = Vec::new();
    if has_doc {
        r.push(String::new());
    }
    r.push(doc.to_owned());
    r
}

/// The doc line of a page route: ``Route: `path` ``.
pub fn route_doc(path: &str) -> (r: String)
    ensures
        r@ == "Route: `"@ + path@ + "`"@,
{
    let mut r = "Route: `".to_owned();
    r.append(path);
    r.append("`");
    r
}

/// The doc line of an action: ``Route: `POST path` ``.
pub fn action_route_doc(path: &str) -> (r: String)
    ensures
        r@ == "Route: `POST "@ + path@ + "`"@,
{
    let mut r = "Route: `POST ".to_owned();
    r.append(path);
    r.append("`");
    r
}

/// The doc line of an `#[id]` type: ``HTML id: `value` ``.
pub fn html_id_doc(value: &str) -> (r: String)
    ensures
        r@ == "HTML id: `"@ + value@ + "`"@,
{
    let mut r = "HTML id: `".to_owned();
    r.append(value);
    r.append("`");
    r
}

/// The doc of an action's builder type.
pub fn builder_doc(action: &str) -> (r: String)
    ensures
        r@ == "`hx-action` attribute for [`"@ + action@
            + "`]. Setters fill `hx-vals`; `.hx()` continues with htmx options."@,
{
    let mut r = "`hx-action` attribute for [`".to_owned();
    r.append(action);
    r.append("`]. Setters fill `hx-vals`; `.hx()` continues with htmx options.");
    r
}

/// A name derived from `base`: `base` then `suffix` (`SavePath`,
/// `SaveAction`, `SaveFields`, `CounterId`).
pub fn derived_name(base: &str, suffix: &str) -> (r: String)
    ensures
        r@ == base@ + suffix@,
{
    let mut r = base.to_owned();
    r.append(suffix);
    r
}

/// The shape of a field's type, as far as `#[action]` reads it.
pub enum TypeShape {
    /// A path type: the last segment's name, whether it carries arguments,
    /// and its first argument when that is an angle-bracketed type.
    Path { last: String, has_args: bool, first_type_arg: Option<Box<TypeShape>> },
    /// Any other type.
    Other,
}

/// What an `#[action]` setter takes and how it fills `hx-vals`.
#[derive(Clone, Copy, Debug, PartialEq, Eq, Structural)]
pub enum SetterKind {
    /// Takes `impl Into<String>` and stores a JSON string.
    IntoString,
    /// Takes the `Option`'s argument type and serializes it.
    OptionArg,
    /// Takes the declared type and serializes it.
    Declared,
}

/// Whether a shape is a plain `String` path (last segment `String`, no
/// arguments).
pub open spec fn is_string_shape(t: TypeShape) -> bool {
    match t {
        TypeShape::Path { last, has_args, .. } => last@ == "String"@ && !has_args,
        TypeShape::Other => false,
    }
}

/// The setter for a field of this type: `String` and `Option<String>` take
/// `impl Into<String>`, another `Option<T>` takes `T`, anything else its
/// declared type.
pub open spec fn setter_kind_of(t: TypeShape) -> SetterKind {
    if is_string_shape(t) {
        SetterKind::IntoString
    } else {
        match t {
            TypeShape::Path { last, first_type_arg, .. } => if last@ == "Option"@ {
                match first_type_arg {
                    Some(arg) => if is_string_shape(*arg) {
                        SetterKind::IntoString
                    } else {
                        SetterKind::OptionArg
                    },
                    None => SetterKind::Declared,
                }
            } else {
                SetterKind::Declared
            },
            TypeShape::Other => SetterKind::Declared,
        }
    }
}

/// How a field's type picks its setter: a plain `String` takes
/// `impl Into<String>`; an `Option` of a plain `String` does too; an `Option`
/// of any other type takes that type, whatever it is named; an `Option`
/// without a type argument, and every other type, takes the declared type.
pub proof fn law_setter_kinds(last: String, has_args: bool, arg: Option<Box<TypeShape>>)
    ensures
        last@ == "String"@ && !has_args ==> setter_kind_of(
            TypeShape::Path { last, has_args, first_type_arg: arg },
        ) == SetterKind::IntoString,
        last@ == "Option"@ ==> match arg {
            Some(t) => setter_kind_of(TypeShape::Path { last, has_args, first_type_arg: arg }) == if is_string_shape(*t) {
                SetterKind::IntoString
            } else {
                SetterKind::OptionArg
            },
            None => setter_kind_of(TypeShape::Path { last, has_args, first_type_arg: arg })
                == SetterKind::Declared,
        },
        last@ != "String"@ && last@ != "Option"@ ==> setter_kind_of(
            TypeShape::Path { last, has_args, first_type_arg: arg },
        ) == SetterKind::Declared,
        setter_kind_of(TypeShape::Other) == SetterKind::Declared,
{
    reveal_strlit("String");
    reveal_strlit("Option");
    if last@ == "Option"@ {
        assert(last@ != "String"@) by {
            assert(last@[0] == 'O');
        }
    }
}

fn is_string(t: &TypeShape) -> (r: bool)
    ensures
        r == is_string_shape(*t),
{
    match t {
        TypeShape::Path { last, has_args, .. } => {
            let s = "String".to_owned();
            last.eq(&s) && !*has_args
        },
        TypeShape::Other => false,
    }
}

/// Classifies a field's type for its `#[action]` setter.
pub fn setter_kind(t: &TypeShape) -> (k: SetterKind)
    ensures
        k == setter_kind_of(*t),
{
    if is_string(t) {
        return SetterKind::IntoString;
    }
    match t {
        TypeShape::Path { last, first_type_arg, .. } => {
            let option = "Option".to_owned();
            if last.eq(&option) {
                match first_type_arg {
                    Some(arg) => {
                        if is_string(arg) {
                            SetterKind::IntoString
                        } else {
                            SetterKind::OptionArg
                        }
                    },
                    None => SetterKind::Declared,
                }
            } else {
                SetterKind::Declared
            }
        },
        TypeShape::Other => SetterKind::Declared,
    }
}

/// The error when a fragment's body never names `Self`.
pub open spec fn fragment_self_error() -> Seq<char> {
    "`#[fragment]` expects `id=(Self)` on the root element, e.g. `ul id=(Self) { .. }`"@
}

/// The id type and the id of a `#[fragment]` function named `fn_name`, whose
/// body names `Self` `self_count` times, with the attribute's literal if it
/// has one.
pub open spec fn fragment_names_of(fn_name: Seq<char>, given: Option<Seq<char>>, self_count: nat) -> Result<
    (Seq<char>, Seq<char>),
    Seq<char>,
> {
    let id_type = pascal_case(fn_name) + "Id"@;
    if self_count < 1 {
        Err(fragment_self_error())
    } else {
        match given {
            None => Ok((id_type, html_id_of(id_type))),
            Some(g) => if bare_id(g) {
                Ok((id_type, g))
            } else {
                Err(bare_id_error())
            },
        }
    }
}

/// The id type of a `#[fragment]` function: its name in PascalCase, then
/// `Id`.
pub fn fragment_id_type(fn_name: &str) -> (r: String)
    ensures
        r@ == pascal_case(fn_name@) + "Id"@,
{
    let p = pascal(fn_name);
    derived_name(p.as_str(), "Id")
}

/// The id type (`<FnName>Id`) and the id of a `#[fragment]` function.
pub fn fragment_names(fn_name: &str, given: Option<&str>, self_count: u32) -> (r: Result<(String, String), String>)
    ensures
        match fragment_names_of(fn_name@, match given {
            Some(g) => Some(g@),
            None => None,
        }, self_count as nat) {
            Ok((t, i)) => r matches Ok((a, b)) && a@ == t && b@ == i,
            Err(e) => r matches Err(s) && s@ == e,
        },
{
    let id_type = fragment_id_type(fn_name);
    if self_count < 1 {
        return Err("`#[fragment]` expects `id=(Self)` on the root element, e.g. `ul id=(Self) { .. }`".to_owned());
    }
    match given {
        None => {
            let id = html_id(id_type.as_str());
            Ok((id_type, id))
        },
        Some(g) => match check_id(g) {
            Ok(()) => Ok((id_type, g.to_owned())),
            Err(e) => Err(e),
        },
    }
}

/// The doc line of a `#[fragment]` function.
pub fn fragment_doc(id_type: &str, fn_name: &str) -> (r: String)
    ensures
        r@ == "Fragment with id [`"@ + id_type@
            + "`]: a page call renders the element, a `partial!` call replaces it (`outerHTML`). [`"@
            + fn_name@
            + "::slot()`] renders a hidden `<div>` with the same id for a later `partial!` to replace."@,
{
    let mut r = "Fragment with id [`".to_owned();
    r.append(id_type);
    r.append("`]: a page call renders the element, a `partial!` call replaces it (`outerHTML`). [`");
    r.append(fn_name);
    r.append("::slot()`] renders a hidden `<div>` with the same id for a later `partial!` to replace.");
    r
}

} // verus!
