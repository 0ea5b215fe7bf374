//! `hx-action` values: the path of a POST endpoint, the `hx-vals` it sends,
//! and the htmx options that go with it.
use vstd::prelude::*;

use crate::json::{keys_ascending, members_view, null_text, object_json, object_text, JsonValue};
use crate::markup::{escape_into, escaped, Markup};
use crate::partial::{swap_attr, swap_text, Selector, SwapOption};
use crate::text::{chars_of, compare_texts, lemma_text_lt_asymmetric, lemma_text_lt_irreflexive, lemma_text_lt_transitive, text_lt, TextOrder};

verus! {

/// What `hx-sync` does with a request while another one is in flight.
#[derive(Clone, Copy, Debug, PartialEq, Eq, Structural)]
pub enum SyncStrategy {
    /// Drops this request.
    Drop,
    /// Drops this request, and aborts it if another one arrives while it runs.
    Abort,
    /// Aborts the in-flight request and runs this one.
    Replace,
    /// Queues this request only if the queue is empty.
    QueueFirst,
    /// Queues this request in place of whatever was queued.
    QueueLast,
    /// Queues every request.
    QueueAll,
}

/// The `hx-sync` keyword of a strategy.
pub open spec fn strategy_text(s: SyncStrategy) -> Seq<char> {
    match s {
        SyncStrategy::Drop => "drop"@,
        SyncStrategy::Abort => "abort"@,
        SyncStrategy::Replace => "replace"@,
        SyncStrategy::QueueFirst => "queue first"@,
        SyncStrategy::QueueLast => "queue last"@,
        SyncStrategy::QueueAll => "queue all"@,
    }
}

impl SyncStrategy {
    /// Synchronizes on `scope` instead of the element itself, e.g.
    /// `"closest form"` or an `#[id]` type's selector.
    pub fn on(self, scope: Selector) -> (r: HxSync)
        ensures
            r.scope matches Some(sc) && sc@ == scope@,
            r.strategy == self,
    {
        HxSync { scope: Some(scope), strategy: self }
    }

    /// The `hx-sync` keyword.
    pub fn as_str(self) -> (r: &'static str)
        ensures
            r@ == strategy_text(self),
    {
        match self {
            SyncStrategy::Drop => "drop",
            SyncStrategy::Abort => "abort",
            SyncStrategy::Replace => "replace",
            SyncStrategy::QueueFirst => "queue first",
            SyncStrategy::QueueLast => "queue last",
            SyncStrategy::QueueAll => "queue all",
        }
    }

    /// Appends the keyword, escaped, to `buffer`.
    pub fn render_to(&self, buffer: &mut String)
        ensures
            final(buffer)@ == old(buffer)@ + escaped(strategy_text(*self)),
    {
        escape_into(buffer, self.as_str());
    }
}

/// An `hx-sync` value: a strategy, optionally scoped to another element.
#[derive(Clone)]
pub struct HxSync {
    pub scope: Option<Selector>,
    pub strategy: SyncStrategy,
}

/// The text of an `hx-sync` value: the scope, a colon and the strategy, or the
/// strategy alone.
pub open spec fn sync_text(s: HxSync) -> Seq<char> {
    match s.scope {
        Some(scope) => scope@ + ":"@ + strategy_text(s.strategy),
        None => strategy_text(s.strategy),
    }
}

impl From<SyncStrategy> for HxSync {
    fn from(strategy: SyncStrategy) -> (r: HxSync) {
        HxSync { scope: None, strategy }
    }
}

impl vstd::std_specs::convert::FromSpecImpl<SyncStrategy> for HxSync {
    open spec fn obeys_from_spec() -> bool {
        true
    }

    open spec fn from_spec(v: SyncStrategy) -> HxSync {
        HxSync { scope: None, strategy: v }
    }
}

impl HxSync {
    /// The attribute value: `scope:strategy`, or the strategy alone.
    pub fn attr(&self) -> (r: String)
        ensures
            r@ == sync_text(*self),
    {
        match &self.scope {
            Some(scope) => {
                let mut r = scope.0.clone();
                r.append(":");
                r.append(self.strategy.as_str());
                r
            },
            None => self.strategy.as_str().to_owned(),
        }
    }

    /// Appends the attribute value, escaped, to `buffer`.
    pub fn render_to(&self, buffer: &mut String)
        ensures
            final(buffer)@ == old(buffer)@ + escaped(sync_text(*self)),
    {
        let text = self.attr();
        escape_into(buffer, text.as_str());
    }
}

/// `vs` with `key` set to `value`: the member with that key is replaced in
/// place, or a new member goes where it keeps the keys ascending.
pub open spec fn vals_insert(vs: Seq<(Seq<char>, Seq<char>)>, key: Seq<char>, value: Seq<char>) -> Seq<
    (Seq<char>, Seq<char>),
>
    decreases vs.len(),
{
    if vs.len() == 0 {
        seq![(key, value)]
    } else if vs[0].0 == key {
        seq![(key, value)] + vs.drop_first()
    } else if text_lt(key, vs[0].0) {
        seq![(key, value)] + vs
    } else {
        seq![vs[0]] + vals_insert(vs.drop_first(), key, value)
    }
}

/// The value that `vs` holds for `key`, if any.
pub open spec fn val_of(vs: Seq<(Seq<char>, Seq<char>)>, key: Seq<char>) -> Option<Seq<char>>
    decreases vs.len(),
{
    if vs.len() == 0 {
        None
    } else if vs[0].0 == key {
        Some(vs[0].1)
    } else {
        val_of(vs.drop_first(), key)
    }
}

proof fn lemma_vals_insert_skip(vs: Seq<(Seq<char>, Seq<char>)>, key: Seq<char>, value: Seq<char>, i: int)
    requires
        0 <= i <= vs.len(),
        forall|j: int| 0 <= j < i ==> text_lt(#[trigger] vs[j].0, key),
    ensures
        vals_insert(vs, key, value) == vs.take(i) + vals_insert(vs.skip(i), key, value),
    decreases i,
{
    if i == 0 {
        assert(vs.skip(0) =~= vs);
        assert(vs.take(0) + vals_insert(vs, key, value) =~= vals_insert(vs, key, value));
    } else {
        let rest = vs.drop_first();
        assert(text_lt(vs[0].0, key));
        lemma_text_lt_asymmetric(vs[0].0, key);
        assert forall|j: int| 0 <= j < i - 1 implies text_lt(#[trigger] rest[j].0, key) by {
            assert(rest[j] == vs[j + 1]);
        }
        lemma_vals_insert_skip(rest, key, value, i - 1);
        assert(rest.skip(i - 1) =~= vs.skip(i));
        assert(seq![vs[0]] + rest.take(i - 1) =~= vs.take(i));
    }
}

/// Setting a key keeps the keys strictly ascending.
pub proof fn lemma_vals_insert_ascending(vs: Seq<(Seq<char>, Seq<char>)>, key: Seq<char>, value: Seq<char>)
    requires
        keys_ascending(vs),
    ensures
        keys_ascending(vals_insert(vs, key, value)),
    decreases vs.len(),
{
    let r = vals_insert(vs, key, value);
    if vs.len() == 0 {
    } else if vs[0].0 == key {
        assert forall|i: int, j: int| 0 <= i < j < r.len() implies text_lt(
            #[trigger] r[i].0,
            #[trigger] r[j].0,
        ) by {
            assert(r[j] == vs[j]);
            if i > 0 {
                assert(r[i] == vs[i]);
            }
        }
    } else if text_lt(key, vs[0].0) {
        assert forall|i: int, j: int| 0 <= i < j < r.len() implies text_lt(
            #[trigger] r[i].0,
            #[trigger] r[j].0,
        ) by {
            assert(r[j] == vs[j - 1]);
            if i > 0 {
                assert(r[i] == vs[i - 1]);
            } else if j - 1 > 0 {
                assert(text_lt(vs[0].0, vs[j - 1].0));
                lemma_text_lt_transitive(key, vs[0].0, vs[j - 1].0);
            }
        }
    } else {
        let rest = vs.drop_first();
        assert(keys_ascending(rest)) by {
            assert forall|i: int, j: int| 0 <= i < j < rest.len() implies text_lt(
                #[trigger] rest[i].0,
                #[trigger] rest[j].0,
            ) by {
                assert(rest[i] == vs[i + 1]);
                assert(rest[j] == vs[j + 1]);
            }
        }
        lemma_vals_insert_ascending(rest, key, value);
        let tail = vals_insert(rest, key, value);
        lemma_vals_insert_members(rest, key, value);
        crate::text::lemma_text_lt_total(key, vs[0].0);
        assert forall|i: int, j: int| 0 <= i < j < r.len() implies text_lt(
            #[trigger] r[i].0,
            #[trigger] r[j].0,
        ) by {
            assert(r[j] == tail[j - 1]);
            if i > 0 {
                assert(r[i] == tail[i - 1]);
            } else {
                let m = tail[j - 1];
                if m.0 == key {
                } else {
                    let k = choose|k: int| 0 <= k < rest.len() && rest[k] == m;
                    assert(rest[k] == vs[k + 1]);
                }
            }
        }
    }
}

/// Every member after setting a key is either the new one or an old one.
proof fn lemma_vals_insert_members(vs: Seq<(Seq<char>, Seq<char>)>, key: Seq<char>, value: Seq<char>)
    ensures
        forall|i: int|
            0 <= i < vals_insert(vs, key, value).len() ==> (#[trigger] vals_insert(vs, key, value)[i]).0
                == key || exists|k: int| 0 <= k < vs.len() && vs[k] == vals_insert(vs, key, value)[i],
    decreases vs.len(),
{
    let r = vals_insert(vs, key, value);
    if vs.len() == 0 {
    } else if vs[0].0 == key {
        assert forall|i: int| 0 <= i < r.len() implies (#[trigger] r[i]).0 == key || exists|k: int|
            0 <= k < vs.len() && vs[k] == r[i] by {
            if i > 0 {
                assert(vs[i] == r[i]);
            }
        }
    } else if text_lt(key, vs[0].0) {
        assert forall|i: int| 0 <= i < r.len() implies (#[trigger] r[i]).0 == key || exists|k: int|
            0 <= k < vs.len() && vs[k] == r[i] by {
            if i > 0 {
                assert(vs[i - 1] == r[i]);
            }
        }
    } else {
        let rest = vs.drop_first();
        lemma_vals_insert_members(rest, key, value);
        let tail = vals_insert(rest, key, value);
        assert forall|i: int| 0 <= i < r.len() implies (#[trigger] r[i]).0 == key || exists|k: int|
            0 <= k < vs.len() && vs[k] == r[i] by {
            if i == 0 {
                assert(vs[0] == r[0]);
            } else {
                assert(r[i] == tail[i - 1]);
                if tail[i - 1].0 != key {
                    let k = choose|k: int| 0 <= k < rest.len() && rest[k] == tail[i - 1];
                    assert(vs[k + 1] == r[i]);
                }
            }
        }
    }
}

/// After a key is set, it holds the value it was set to.
pub proof fn lemma_val_of_insert_same(vs: Seq<(Seq<char>, Seq<char>)>, key: Seq<char>, value: Seq<char>)
    ensures
        val_of(vals_insert(vs, key, value), key) == Some(value),
    decreases vs.len(),
{
    let r = vals_insert(vs, key, value);
    if vs.len() == 0 || vs[0].0 == key || text_lt(key, vs[0].0) {
        assert(r[0] == (key, value));
    } else {
        lemma_val_of_insert_same(vs.drop_first(), key, value);
        assert(r[0] == vs[0]);
        assert(r.drop_first() =~= vals_insert(vs.drop_first(), key, value));
    }
}

/// Setting a key leaves every other key's value as it was.
pub proof fn lemma_val_of_insert_other(vs: Seq<(Seq<char>, Seq<char>)>, key: Seq<char>, value: Seq<char>, other: Seq<char>)
    requires
        other != key,
    ensures
        val_of(vals_insert(vs, key, value), other) == val_of(vs, other),
    decreases vs.len(),
{
    let r = vals_insert(vs, key, value);
    if vs.len() == 0 {
        assert(r[0] == (key, value));
        assert(r.drop_first() =~= Seq::<(Seq<char>, Seq<char>)>::empty());
        assert(val_of(r.drop_first(), other) == None::<Seq<char>>);
    } else if vs[0].0 == key {
        assert(r[0] == (key, value));
        assert(r.drop_first() =~= vs.drop_first());
    } else if text_lt(key, vs[0].0) {
        assert(r[0] == (key, value));
        assert(r.drop_first() =~= vs);
    } else {
        let rest = vs.drop_first();
        lemma_val_of_insert_other(rest, key, value, other);
        assert(r[0] == vs[0]);
        assert(r.drop_first() =~= vals_insert(rest, key, value));
    }
}

/// What an action holds, with each value as text.
pub ghost struct ActionView {
    pub base: Seq<char>,
    pub path: Seq<char>,
    pub vals: Seq<(Seq<char>, Seq<char>)>,
    pub trigger: Option<Seq<char>>,
    pub target: Option<Seq<char>>,
    pub swap: Option<SwapOption>,
    pub sync: Option<Seq<char>>,
}

/// Attributes for an htmx action request: rendered as the value of
/// `hx-action`, it writes the path and then further `hx-*` attributes. The
/// request method is always POST.
pub struct HxAction {
    base: String,
    path: String,
    vals: Vec<(String, JsonValue)>,
    trigger: Option<String>,
    target: Option<Selector>,
    swap: Option<SwapOption>,
    sync: Option<HxSync>,
}

impl View for HxAction {
    type V = ActionView;

    closed spec fn view(&self) -> ActionView {
        ActionView {
            base: self.base@,
            path: self.path@,
            vals: members_view(self.vals@),
            trigger: match self.trigger {
                Some(t) => Some(t@),
                None => None,
            },
            target: match self.target {
                Some(t) => Some(t@),
                None => None,
            },
            swap: self.swap,
            sync: match self.sync {
                Some(s) => Some(sync_text(s)),
                None => None,
            },
        }
    }
}

/// `prefix` and the escaped value, for an attribute that is set.
pub open spec fn opt_attr(prefix: Seq<char>, v: Option<Seq<char>>) -> Seq<char> {
    match v {
        Some(t) => prefix + escaped(t),
        None => Seq::empty(),
    }
}

/// The text an action writes inside maud's quoted `hx-action` value: the
/// prefixed path, then each set option as `" hx-name="value`, then the POST
/// method. maud supplies the final quote.
pub open spec fn action_html(a: ActionView) -> Seq<char> {
    escaped(a.base) + escaped(a.path) + vals_html(a.vals) + opt_attr("\" hx-trigger=\""@, a.trigger)
        + opt_attr("\" hx-target=\""@, a.target) + swap_html(a.swap) + opt_attr(
        "\" hx-sync=\""@,
        a.sync,
    ) + "\" hx-method=\"post"@
}

/// The `hx-vals` attribute: the members as a JSON object, escaped; nothing
/// when there are none.
pub open spec fn vals_html(vals: Seq<(Seq<char>, Seq<char>)>) -> Seq<char> {
    if vals.len() > 0 {
        "\" hx-vals=\""@ + escaped(object_text(vals))
    } else {
        Seq::empty()
    }
}

/// The `hx-swap` attribute, when a swap style is set.
pub open spec fn swap_html(swap: Option<SwapOption>) -> Seq<char> {
    match swap {
        Some(s) => "\" hx-swap=\""@ + escaped(swap_text(s)),
        None => Seq::empty(),
    }
}

fn render_vals(vals: &Vec<(String, JsonValue)>, buffer: &mut String)
    ensures
        final(buffer)@ == old(buffer)@ + vals_html(members_view(vals@)),
{
    if vals.len() > 0 {
        buffer.append("\" hx-vals=\"");
        let text = object_json(vals);
        escape_into(buffer, text.as_str());
    }
}

fn render_target(target: &Option<Selector>, buffer: &mut String)
    ensures
        final(buffer)@ == old(buffer)@ + opt_attr("\" hx-target=\""@, match target {
            Some(t) => Some(t@),
            None => None,
        }),
{
    match target {
        Some(t) => {
            buffer.append("\" hx-target=\"");
            escape_into(buffer, t.0.as_str());
        },
        None => {},
    }
}

fn render_swap(swap: Option<SwapOption>, buffer: &mut String)
    ensures
        final(buffer)@ == old(buffer)@ + swap_html(swap),
{
    match swap {
        Some(s) => {
            buffer.append("\" hx-swap=\"");
            let text = swap_attr(s);
            escape_into(buffer, text.as_str());
        },
        None => {},
    }
}

fn render_sync(sync: &Option<HxSync>, buffer: &mut String)
    ensures
        final(buffer)@ == old(buffer)@ + opt_attr("\" hx-sync=\""@, match sync {
            Some(s) => Some(sync_text(*s)),
            None => None,
        }),
{
    match sync {
        Some(s) => {
            buffer.append("\" hx-sync=\"");
            s.render_to(buffer);
        },
        None => {},
    }
}

/// Appends `prefix` and the escaped value when the value is set.
fn push_opt_attr(buffer: &mut String, prefix: &str, value: &Option<String>)
    ensures
        final(buffer)@ == old(buffer)@ + opt_attr(prefix@, match value {
            Some(t) => Some(t@),
            None => None,
        }),
{
    match value {
        Some(t) => {
            buffer.append(prefix);
            escape_into(buffer, t.as_str());
        },
        None => {},
    }
}

impl HxAction {
    #[verifier::type_invariant]
    spec fn keys_in_order(&self) -> bool {
        keys_ascending(members_view(self.vals@))
    }

    /// A POST action for `path` with no values or options.
    pub fn new(path: &str) -> (r: HxAction)
        ensures
            keys_ascending(r@.vals),
            r@ == (ActionView {
                base: Seq::empty(),
                path: path@,
                vals: Seq::empty(),
                trigger: None,
                target: None,
                swap: None,
                sync: None,
            }),
    {
        let r = HxAction {
            base: String::new(),
            path: path.to_owned(),
            vals: Vec::new(),
            trigger: None,
            target: None,
            swap: None,
            sync: None,
        };
        proof {
            assert(members_view(r.vals@) =~= Seq::empty());
        }
        r
    }

    /// Prefixes the path, usually with the app's base path.
    pub fn base(self, base: &str) -> (r: HxAction)
        ensures
            keys_ascending(r@.vals),
            r@ == (ActionView { base: base@, ..self@ }),
    {
        proof {
            use_type_invariant(&self);
        }
        HxAction {
            base: base.to_owned(),
            path: self.path,
            vals: self.vals,
            trigger: self.trigger,
            target: self.target,
            swap: self.swap,
            sync: self.sync,
        }
    }

    /// Sets the `hx-vals` entry `key` to `value`, replacing an earlier value
    /// of the same key; a `null` value leaves the action unchanged.
    pub fn val(self, key: &str, value: JsonValue) -> (r: HxAction)
        ensures
            keys_ascending(r@.vals),
            value@ == null_text() ==> r@ == self@,
            value@ != null_text() ==> r@ == (ActionView {
                vals: vals_insert(self@.vals, key@, value@),
                ..self@
            }),
    {
        proof {
            use_type_invariant(&self);
        }
        if value.is_null() {
            return self;
        }
        let HxAction { base, path, vals, trigger, target, swap, sync } = self;
        let mut vals = vals;
        let ghost vs = members_view(vals@);
        let k = chars_of(key);
        let mut i: usize = 0;
        let mut same = false;
        while i < vals.len()
            invariant
                vs == members_view(vals@),
                keys_ascending(vs),
                k@ == key@,
                i <= vals.len(),
                forall|j: int| 0 <= j < i ==> text_lt(#[trigger] vs[j].0, key@),
                same ==> i < vals.len() && vs[i as int].0 == key@,
            ensures
                i <= vals.len(),
                forall|j: int| 0 <= j < i ==> text_lt(#[trigger] vs[j].0, key@),
                same ==> i < vals.len() && vs[i as int].0 == key@,
                !same ==> i == vals.len() || text_lt(key@, vs[i as int].0),
            decreases vals.len() - i,
        {
            let name = chars_of(vals[i].0.as_str());
            proof {
                assert(vs[i as int].0 == name@);
            }
            match compare_texts(&name, &k) {
                TextOrder::Less => {
                    i = i + 1;
                },
                TextOrder::Equal => {
                    same = true;
                    break;
                },
                TextOrder::Greater => {
                    break;
                },
            }
        }
        proof {
            lemma_vals_insert_skip(vs, key@, value@, i as int);
            lemma_vals_insert_ascending(vs, key@, value@);
        }
        let ghost v_text = value@;
        if same {
            vals.set(i, (key.to_owned(), value));
            proof {
                let rest = vs.skip(i as int);
                assert(rest[0].0 == key@);
                assert(members_view(vals@) =~= vs.take(i as int) + vals_insert(rest, key@, v_text));
            }
        } else {
            vals.insert(i, (key.to_owned(), value));
            proof {
                let rest = vs.skip(i as int);
                if rest.len() > 0 {
                    assert(rest[0] == vs[i as int]);
                    lemma_text_lt_asymmetric(key@, rest[0].0);
                }
                assert(members_view(vals@) =~= vs.take(i as int) + vals_insert(rest, key@, v_text));
            }
        }
        HxAction { base, path, vals, trigger, target, swap, sync }
    }

    /// Sets `hx-trigger`.
    pub fn trigger(self, spec: &str) -> (r: HxAction)
        ensures
            keys_ascending(r@.vals),
            r@ == (ActionView { trigger: Some(spec@), ..self@ }),
    {
        proof {
            use_type_invariant(&self);
        }
        HxAction {
            base: self.base,
            path: self.path,
            vals: self.vals,
            trigger: Some(spec.to_owned()),
            target: self.target,
            swap: self.swap,
            sync: self.sync,
        }
    }

    /// Sets `hx-target` from a selector, such as an `#[id]` type's.
    pub fn target(self, target: Selector) -> (r: HxAction)
        ensures
            keys_ascending(r@.vals),
            r@ == (ActionView { target: Some(target@), ..self@ }),
    {
        proof {
            use_type_invariant(&self);
        }
        HxAction {
            base: self.base,
            path: self.path,
            vals: self.vals,
            trigger: self.trigger,
            target: Some(target),
            swap: self.swap,
            sync: self.sync,
        }
    }

    /// Sets `hx-swap`.
    pub fn swap(self, swap: SwapOption) -> (r: HxAction)
        ensures
            keys_ascending(r@.vals),
            r@ == (ActionView { swap: Some(swap), ..self@ }),
    {
        proof {
            use_type_invariant(&self);
        }
        HxAction {
            base: self.base,
            path: self.path,
            vals: self.vals,
            trigger: self.trigger,
            target: self.target,
            swap: Some(swap),
            sync: self.sync,
        }
    }

    /// Sets `hx-sync` from a strategy, or one scoped with `SyncStrategy::on`.
    pub fn sync(self, sync: HxSync) -> (r: HxAction)
        ensures
            keys_ascending(r@.vals),
            r@ == (ActionView { sync: Some(sync_text(sync)), ..self@ }),
    {
        proof {
            use_type_invariant(&self);
        }
        HxAction {
            base: self.base,
            path: self.path,
            vals: self.vals,
            trigger: self.trigger,
            target: self.target,
            swap: self.swap,
            sync: Some(sync),
        }
    }

    /// Writes the action, starting inside maud's quoted `hx-action` value.
    /// Each separator starts another attribute; maud supplies the final quote.
    #[verifier::spinoff_prover]
    #[verifier::rlimit(40)]
    pub fn render_to(&self, buffer: &mut String)
        ensures
            keys_ascending(self@.vals),
            final(buffer)@ == old(buffer)@ + action_html(self@),
    {
        proof {
            use_type_invariant(self);
        }
        let ghost a = self@;
        let ghost s0 = buffer@;
        escape_into(buffer, self.base.as_str());
        escape_into(buffer, self.path.as_str());
        let ghost s1 = buffer@;
        render_vals(&self.vals, buffer);
        let ghost s2 = buffer@;
        push_opt_attr(buffer, "\" hx-trigger=\"", &self.trigger);
        let ghost s3 = buffer@;
        render_target(&self.target, buffer);
        let ghost s4 = buffer@;
        render_swap(self.swap, buffer);
        let ghost s5 = buffer@;
        render_sync(&self.sync, buffer);
        let ghost s6 = buffer@;
        buffer.append("\" hx-method=\"post");
        proof {
            assert(s1 == s0 + escaped(a.base) + escaped(a.path));
            assert(s2 == s1 + vals_html(a.vals));
            assert(s3 == s2 + opt_attr("\" hx-trigger=\""@, a.trigger));
            assert(s4 == s3 + opt_attr("\" hx-target=\""@, a.target));
            assert(s5 == s4 + swap_html(a.swap));
            assert(s6 == s5 + opt_attr("\" hx-sync=\""@, a.sync));
            let t1 = escaped(a.base) + escaped(a.path);
            let t2 = t1 + vals_html(a.vals);
            let t3 = t2 + opt_attr("\" hx-trigger=\""@, a.trigger);
            let t4 = t3 + opt_attr("\" hx-target=\""@, a.target);
            let t5 = t4 + swap_html(a.swap);
            let t6 = t5 + opt_attr("\" hx-sync=\""@, a.sync);
            assert(s2 =~= s0 + t2);
            assert(s4 =~= s0 + t4);
            assert(s6 =~= s0 + t6);
            assert(action_html(a) == t6 + "\" hx-method=\"post"@);
            assert(buffer@ =~= s0 + action_html(a));
        }
    }

    /// The action as markup.
    pub fn render(&self) -> (m: Markup)
        ensures
            keys_ascending(self@.vals),
            m@ == action_html(self@),
    {
        let mut buffer = String::new();
        self.render_to(&mut buffer);
        proof {
            assert(buffer@ =~= action_html(self@));
        }
        Markup::pre_escaped(buffer)
    }
}

/// After `val(key, v)` with a non-null `v`, the action's `hx-vals` holds `v`
/// for `key` and every other key's value is unchanged.
pub proof fn law_val_sets_key(a: ActionView, key: Seq<char>, value: Seq<char>, other: Seq<char>)
    ensures
        val_of(vals_insert(a.vals, key, value), key) == Some(value),
        other != key ==> val_of(vals_insert(a.vals, key, value), other) == val_of(a.vals, other),
{
    lemma_val_of_insert_same(a.vals, key, value);
    if other != key {
        lemma_val_of_insert_other(a.vals, key, value, other);
    }
}

proof fn lemma_insert_head(vs: Seq<(Seq<char>, Seq<char>)>, key: Seq<char>, value: Seq<char>)
    ensures
        vals_insert(vs, key, value).len() > 0,
        vals_insert(vs, key, value)[0].0 == key || (vs.len() > 0 && vals_insert(vs, key, value)[0]
            == vs[0]),
{
}

proof fn lemma_val_order_lt(
    vs: Seq<(Seq<char>, Seq<char>)>,
    k1: Seq<char>,
    v1: Seq<char>,
    k2: Seq<char>,
    v2: Seq<char>,
)
    requires
        text_lt(k1, k2),
    ensures
        vals_insert(vals_insert(vs, k1, v1), k2, v2) == vals_insert(vals_insert(vs, k2, v2), k1, v1),
    decreases vs.len(),
{
    lemma_text_lt_asymmetric(k1, k2);
    let b = vals_insert(vs, k2, v2);
    if vs.len() == 0 {
        let one = seq![(k1, v1)];
        assert(one.drop_first() =~= Seq::<(Seq<char>, Seq<char>)>::empty());
        assert(vals_insert(one.drop_first(), k2, v2) == seq![(k2, v2)]);
        assert(vals_insert(one, k2, v2) =~= seq![(k1, v1)] + seq![(k2, v2)]);
        assert(vals_insert(seq![(k2, v2)], k1, v1) =~= seq![(k1, v1)] + seq![(k2, v2)]);
    } else {
        let h = vs[0].0;
        let rest = vs.drop_first();
        crate::text::lemma_text_lt_total(k1, h);
        if k1 == h {
            let a = seq![(k1, v1)] + rest;
            assert(a[0].0 == k1);
            assert(a.drop_first() =~= rest);
            assert(b =~= seq![vs[0]] + vals_insert(rest, k2, v2));
            assert(b[0].0 == k1);
            assert(b.drop_first() =~= vals_insert(rest, k2, v2));
            assert(vals_insert(a, k2, v2) =~= seq![(k1, v1)] + vals_insert(rest, k2, v2));
        } else if text_lt(k1, h) {
            let a = seq![(k1, v1)] + vs;
            assert(a[0].0 == k1);
            assert(a.drop_first() =~= vs);
            lemma_insert_head(vs, k2, v2);
            assert(text_lt(k1, b[0].0));
            lemma_text_lt_asymmetric(k1, b[0].0);
            assert(vals_insert(a, k2, v2) =~= seq![(k1, v1)] + b);
        } else {
            lemma_text_lt_transitive(h, k1, k2);
            lemma_text_lt_asymmetric(h, k2);
            lemma_text_lt_asymmetric(h, k1);
            let a = seq![vs[0]] + vals_insert(rest, k1, v1);
            assert(a[0] == vs[0]);
            assert(a.drop_first() =~= vals_insert(rest, k1, v1));
            assert(b =~= seq![vs[0]] + vals_insert(rest, k2, v2));
            assert(b[0] == vs[0]);
            assert(b.drop_first() =~= vals_insert(rest, k2, v2));
            lemma_val_order_lt(rest, k1, v1, k2, v2);
            assert(vals_insert(a, k2, v2) =~= seq![vs[0]] + vals_insert(vals_insert(rest, k1, v1), k2, v2));
            assert(vals_insert(b, k1, v1) =~= seq![vs[0]] + vals_insert(vals_insert(rest, k2, v2), k1, v1));
        }
    }
}

/// `hx-vals` is a map: setting two different keys gives the same values in
/// either order.
pub proof fn law_val_order_irrelevant(
    a: ActionView,
    k1: Seq<char>,
    v1: Seq<char>,
    k2: Seq<char>,
    v2: Seq<char>,
)
    requires
        k1 != k2,
    ensures
        vals_insert(vals_insert(a.vals, k1, v1), k2, v2) == vals_insert(
            vals_insert(a.vals, k2, v2),
            k1,
            v1,
        ),
{
    crate::text::lemma_text_lt_total(k1, k2);
    if text_lt(k1, k2) {
        lemma_val_order_lt(a.vals, k1, v1, k2, v2);
    } else {
        lemma_val_order_lt(a.vals, k2, v2, k1, v1);
    }
}

/// An action's text always opens with its base, then its path, both
/// escaped, whatever values and options it carries, and always closes with
/// the POST method: adding values or options never touches the URL.
pub proof fn law_action_opens_with_its_url(a: ActionView)
    ensures
        action_html(a).len() >= escaped(a.base).len() + escaped(a.path).len(),
        action_html(a).take((escaped(a.base).len() + escaped(a.path).len()) as int) == escaped(a.base)
            + escaped(a.path),
        action_html(a).len() >= 17,
        action_html(a).skip(action_html(a).len() - 17) == "\" hx-method=\"post"@,
{
    let url = escaped(a.base) + escaped(a.path);
    let opts = vals_html(a.vals) + opt_attr("\" hx-trigger=\""@, a.trigger) + opt_attr(
        "\" hx-target=\""@,
        a.target,
    ) + swap_html(a.swap) + opt_attr("\" hx-sync=\""@, a.sync);
    let tail = "\" hx-method=\"post"@;
    reveal_strlit("\" hx-method=\"post");
    assert(tail.len() == 17);
    assert(action_html(a) =~= url + (opts + tail));
    assert((url + (opts + tail)).take(url.len() as int) =~= url);
    assert(action_html(a) =~= (url + opts) + tail);
    assert(((url + opts) + tail).skip((url + opts).len() as int) =~= tail);
}

} // verus!
