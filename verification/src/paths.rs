//! '/'-separated paths: splitting, components as `std::path` reads them on
//! Unix, joining, and collapsing `.` and `..` without touching the file system.
use vstd::prelude::*;

use crate::text::{chars_of, push_char, string_of};

verus! {

/// The pieces of `s` between occurrences of `sep`, as `str::split` yields
/// them: `n` separators give `n + 1` pieces, empty ones included.
pub open spec fn split_on(s: Seq<char>, sep: char) -> Seq<Seq<char>>
    decreases s.len(),
{
    if s.len() == 0 {
        seq![Seq::empty()]
    } else {
        let p = split_on(s.drop_last(), sep);
        if s.last() == sep {
            p.push(Seq::empty())
        } else {
            p.update(p.len() - 1, p.last().push(s.last()))
        }
    }
}

pub proof fn lemma_split_nonempty(s: Seq<char>, sep: char)
    ensures
        split_on(s, sep).len() >= 1,
    decreases s.len(),
{
    if s.len() > 0 {
        lemma_split_nonempty(s.drop_last(), sep);
    }
}

pub proof fn lemma_chars_deep_view(v: Vec<char>)
    ensures
        v.deep_view() == v@,
{
    assert(v.deep_view() =~= v@);
}

/// Splits `s` at every `sep`.
pub fn split_chars(s: &Vec<char>, sep: char) -> (r: Vec<Vec<char>>)
    ensures
        r.deep_view() == split_on(s@, sep),
{
    let mut pieces: Vec<Vec<char>> = Vec::new();
    let mut cur: Vec<char> = Vec::new();
    let mut i: usize = 0;
    proof {
        assert(s@.take(0) =~= Seq::<char>::empty());
    }
    while i < s.len()
        invariant
            i <= s.len(),
            pieces.deep_view().push(cur@) == split_on(s@.take(i as int), sep),
        decreases s.len() - i,
    {
        let c = s[i];
        let ghost prev_pieces = pieces.deep_view();
        let ghost prev_cur = cur@;
        proof {
            let t = s@.take(i as int + 1);
            assert(t.drop_last() =~= s@.take(i as int));
            assert(t.last() == c);
            lemma_split_nonempty(s@.take(i as int), sep);
        }
        if c == sep {
            let done = cur;
            proof {
                lemma_chars_deep_view(done);
            }
            pieces.push(done);
            cur = Vec::new();
            proof {
                assert(pieces.deep_view() =~= prev_pieces.push(prev_cur));
                assert(pieces.deep_view().push(cur@) =~= prev_pieces.push(prev_cur).push(
                    Seq::empty(),
                ));
            }
        } else {
            cur.push(c);
            proof {
                assert(pieces.deep_view().push(cur@) =~= prev_pieces.push(prev_cur).update(
                    prev_pieces.len() as int,
                    prev_cur.push(c),
                ));
            }
        }
        i = i + 1;
    }
    proof {
        assert(s@.take(s@.len() as int) =~= s@);
    }
    let ghost prev_pieces = pieces.deep_view();
    let ghost prev_cur = cur@;
    proof {
        lemma_chars_deep_view(cur);
    }
    pieces.push(cur);
    proof {
        assert(pieces.deep_view() =~= prev_pieces.push(prev_cur));
        assert(pieces.deep_view() =~= split_on(s@, sep));
    }
    pieces
}

} // verus!

verus! {

/// Whether a glob piece holds a pattern character: `*`, `?`, `[`, `{` or `!`.
pub open spec fn is_pattern_piece(p: Seq<char>) -> bool {
    p.contains('*') || p.contains('?') || p.contains('[') || p.contains('{') || p.contains('!')
}

/// The number of leading pieces that hold no pattern character.
pub open spec fn literal_count(ps: Seq<Seq<char>>) -> nat
    decreases ps.len(),
{
    if ps.len() == 0 || is_pattern_piece(ps[0]) {
        0
    } else {
        1 + literal_count(ps.drop_first())
    }
}

/// The text of a `PathBuf` collected from `ps`: each piece is pushed, with a
/// `/` in between unless the path so far is empty or already ends in `/`.
pub open spec fn collect_pieces(ps: Seq<Seq<char>>) -> Seq<char>
    decreases ps.len(),
{
    if ps.len() == 0 {
        Seq::empty()
    } else {
        let r = collect_pieces(ps.drop_last());
        if r.len() > 0 && r.last() != '/' {
            r.push('/') + ps.last()
        } else {
            r + ps.last()
        }
    }
}

/// The literal path prefix of a glob: its `/`-separated pieces up to the first
/// one that holds a pattern character.
pub open spec fn glob_base_of(glob: Seq<char>) -> Seq<char> {
    let ps = split_on(glob, '/');
    collect_pieces(ps.take(literal_count(ps) as int))
}

proof fn lemma_literal_count_exact(ps: Seq<Seq<char>>, k: int)
    requires
        0 <= k <= ps.len(),
        forall|j: int| 0 <= j < k ==> !is_pattern_piece(#[trigger] ps[j]),
        k == ps.len() || is_pattern_piece(ps[k]),
    ensures
        literal_count(ps) == k,
    decreases k,
{
    if k > 0 {
        let rest = ps.drop_first();
        assert forall|j: int| 0 <= j < k - 1 implies !is_pattern_piece(#[trigger] rest[j]) by {
            assert(rest[j] == ps[j + 1]);
        }
        if k < ps.len() {
            assert(rest[k - 1] == ps[k]);
        }
        lemma_literal_count_exact(rest, k - 1);
    }
}

fn piece_has_pattern(p: &Vec<char>) -> (r: bool)
    ensures
        r == is_pattern_piece(p@),
{
    let mut i: usize = 0;
    while i < p.len()
        invariant
            i <= p.len(),
            forall|j: int|
                0 <= j < i ==> p@[j] != '*' && p@[j] != '?' && p@[j] != '[' && p@[j] != '{'
                    && p@[j] != '!',
        decreases p.len() - i,
    {
        let c = p[i];
        if c == '*' || c == '?' || c == '[' || c == '{' || c == '!' {
            proof {
                assert(p@[i as int] == c);
            }
            return true;
        }
        i = i + 1;
    }
    proof {
        if is_pattern_piece(p@) {
            if p@.contains('*') {
                let j = choose|j: int| 0 <= j < p@.len() && p@[j] == '*';
                assert(p@[j] != '*');
            }
            if p@.contains('?') {
                let j = choose|j: int| 0 <= j < p@.len() && p@[j] == '?';
                assert(p@[j] != '?');
            }
            if p@.contains('[') {
                let j = choose|j: int| 0 <= j < p@.len() && p@[j] == '[';
                assert(p@[j] != '[');
            }
            if p@.contains('{') {
                let j = choose|j: int| 0 <= j < p@.len() && p@[j] == '{';
                assert(p@[j] != '{');
            }
            if p@.contains('!') {
                let j = choose|j: int| 0 <= j < p@.len() && p@[j] == '!';
                assert(p@[j] != '!');
            }
        }
    }
    false
}

/// Returns the literal path prefix of a glob: the directory that a build
/// watches for `static_glob`.
pub fn glob_base(glob: &str) -> (r: String)
    ensures
        r@ == glob_base_of(glob@),
{
    let chars = chars_of(glob);
    let pieces = split_chars(&chars, '/');
    let ghost ps = split_on(glob@, '/');
    let mut r = String::new();
    let mut k: usize = 0;
    proof {
        assert(ps.take(0) =~= Seq::<Seq<char>>::empty());
    }
    while k < pieces.len()
        invariant
            pieces.deep_view() == ps,
            k <= pieces.len(),
            r@ == collect_pieces(ps.take(k as int)),
            forall|j: int| 0 <= j < k ==> !is_pattern_piece(#[trigger] ps[j]),
        ensures
            k <= pieces.len(),
            r@ == collect_pieces(ps.take(k as int)),
            forall|j: int| 0 <= j < k ==> !is_pattern_piece(#[trigger] ps[j]),
            k == pieces.len() || is_pattern_piece(ps[k as int]),
        decreases pieces.len() - k,
    {
        let piece = &pieces[k];
        proof {
            assert(ps[k as int] == piece.deep_view());
            lemma_chars_deep_view(*piece);
        }
        if piece_has_pattern(piece) {
            break;
        }
        let ghost before = r@;
        let text = string_of(piece);
        let n = r.unicode_len();
        if n > 0 && r.as_str().get_char(n - 1) != '/' {
            push_char(&mut r, '/');
        }
        r.append(text.as_str());
        proof {
            let t = ps.take(k as int + 1);
            assert(t.drop_last() =~= ps.take(k as int));
            assert(t.last() == piece@);
        }
        k = k + 1;
    }
    proof {
        lemma_literal_count_exact(ps, k as int);
    }
    r
}

} // verus!

verus! {

/// A path component, as `std::path::Path::components` yields it on Unix.
pub ghost enum Comp {
    Root,
    Cur,
    Parent,
    Normal(Seq<char>),
}

/// Whether `s` starts at the root, i.e. with `/`.
pub open spec fn is_rooted(s: Seq<char>) -> bool {
    s.len() > 0 && s[0] == '/'
}

/// The component that one `/`-separated piece contributes: empty pieces and
/// `.` contribute none, except a `.` that opens a relative path.
pub open spec fn piece_comp(p: Seq<char>, first: bool) -> Option<Comp> {
    if p.len() == 0 {
        None
    } else if p =~= seq!['.'] {
        if first {
            Some(Comp::Cur)
        } else {
            None
        }
    } else if p =~= seq!['.', '.'] {
        Some(Comp::Parent)
    } else {
        Some(Comp::Normal(p))
    }
}

pub open spec fn opt_seq(o: Option<Comp>) -> Seq<Comp> {
    match o {
        Some(c) => seq![c],
        None => Seq::empty(),
    }
}

/// The components contributed by the first `n` pieces.
pub open spec fn piece_comps(ps: Seq<Seq<char>>, n: int) -> Seq<Comp>
    decreases n,
{
    if n <= 0 {
        Seq::empty()
    } else {
        piece_comps(ps, n - 1) + opt_seq(piece_comp(ps[n - 1], n - 1 == 0))
    }
}

/// The components of a path: the root, if any, then one component per piece.
pub open spec fn components_of(s: Seq<char>) -> Seq<Comp> {
    let ps = split_on(s, '/');
    (if is_rooted(s) {
        seq![Comp::Root]
    } else {
        Seq::empty()
    }) + piece_comps(ps, ps.len() as int)
}

/// An executable path component.
pub enum PathComp {
    RootDir,
    CurDir,
    ParentDir,
    Normal(String),
}

impl View for PathComp {
    type V = Comp;

    open spec fn view(&self) -> Comp {
        match self {
            PathComp::RootDir => Comp::Root,
            PathComp::CurDir => Comp::Cur,
            PathComp::ParentDir => Comp::Parent,
            PathComp::Normal(s) => Comp::Normal(s@),
        }
    }
}

pub open spec fn comps_view(v: Seq<PathComp>) -> Seq<Comp> {
    v.map_values(|c: PathComp| c@)
}

/// The components of `path`, as `Path::components` yields them on Unix.
pub fn components(path: &str) -> (r: Vec<PathComp>)
    ensures
        comps_view(r@) == components_of(path@),
{
    let chars = chars_of(path);
    let pieces = split_chars(&chars, '/');
    let ghost ps = split_on(path@, '/');
    let mut r: Vec<PathComp> = Vec::new();
    if chars.len() > 0 && chars[0] == '/' {
        r.push(PathComp::RootDir);
    }
    let ghost head: Seq<Comp> = comps_view(r@);
    proof {
        assert(head =~= (if is_rooted(path@) {
            seq![Comp::Root]
        } else {
            Seq::empty()
        }));
    }
    let mut k: usize = 0;
    while k < pieces.len()
        invariant
            pieces.deep_view() == ps,
            k <= pieces.len(),
            comps_view(r@) == head + piece_comps(ps, k as int),
        decreases pieces.len() - k,
    {
        let piece = &pieces[k];
        proof {
            assert(ps[k as int] == piece.deep_view());
            lemma_chars_deep_view(*piece);
        }
        let ghost before = r@;
        let n = piece.len();
        if n == 0 {
        } else if n == 1 && piece[0] == '.' {
            proof {
                assert(piece@ =~= seq!['.']);
            }
            if k == 0 {
                r.push(PathComp::CurDir);
            }
        } else if n == 2 && piece[0] == '.' && piece[1] == '.' {
            proof {
                assert(piece@ =~= seq!['.', '.']);
                assert(!(piece@ =~= seq!['.']));
            }
            r.push(PathComp::ParentDir);
        } else {
            proof {
                if piece@ =~= seq!['.'] {
                    assert(piece@[0] == '.');
                }
                if piece@ =~= seq!['.', '.'] {
                    assert(piece@[0] == '.' && piece@[1] == '.');
                }
            }
            r.push(PathComp::Normal(string_of(piece)));
        }
        proof {
            assert(comps_view(r@) =~= comps_view(before) + opt_seq(
                piece_comp(ps[k as int], k == 0),
            ));
        }
        k = k + 1;
    }
    r
}

/// What collapsing `.` and `..` keeps after the first `n` components: whether
/// the path is rooted, and the stack of normal components. A `..` pops the
/// last normal component if there is one, as `PathBuf::pop` does.
pub open spec fn collapse(cs: Seq<Comp>, n: int) -> (bool, Seq<Seq<char>>)
    decreases n,
{
    if n <= 0 {
        (false, Seq::empty())
    } else {
        let st = collapse(cs, n - 1);
        match cs[n - 1] {
            Comp::Root => (true, st.1),
            Comp::Cur => st,
            Comp::Parent => (st.0, if st.1.len() > 0 {
                st.1.drop_last()
            } else {
                st.1
            }),
            Comp::Normal(p) => (st.0, st.1.push(p)),
        }
    }
}

/// Pieces joined with `/` between them.
pub open spec fn join_slash(ps: Seq<Seq<char>>) -> Seq<char>
    decreases ps.len(),
{
    if ps.len() == 0 {
        Seq::empty()
    } else if ps.len() == 1 {
        ps[0]
    } else {
        join_slash(ps.drop_last()).push('/') + ps.last()
    }
}

/// The text of a `PathBuf` holding a root (if `rooted`) and these normal
/// components.
pub open spec fn render_path(rooted: bool, stack: Seq<Seq<char>>) -> Seq<char> {
    (if rooted {
        seq!['/']
    } else {
        Seq::empty()
    }) + join_slash(stack)
}

/// The path with `.` and `..` collapsed, without reading the file system.
pub open spec fn normalized(s: Seq<char>) -> Seq<char> {
    let cs = components_of(s);
    let st = collapse(cs, cs.len() as int);
    render_path(st.0, st.1)
}

/// Collapses `.` and `..` without accessing the file system.
pub fn normalize(path: &str) -> (r: String)
    ensures
        r@ == normalized(path@),
{
    let cs = components(path);
    let ghost csv = comps_view(cs@);
    let mut rooted = false;
    let mut stack: Vec<String> = Vec::new();
    let mut k: usize = 0;
    while k < cs.len()
        invariant
            comps_view(cs@) == csv,
            k <= cs.len(),
            collapse(csv, k as int) == (rooted, stack@.map_values(|s: String| s@)),
        decreases cs.len() - k,
    {
        proof {
            assert(csv[k as int] == cs@[k as int]@);
        }
        match &cs[k] {
            PathComp::RootDir => {
                rooted = true;
            },
            PathComp::CurDir => {},
            PathComp::ParentDir => {
                if stack.len() > 0 {
                    stack.pop();
                }
            },
            PathComp::Normal(p) => {
                stack.push(p.clone());
            },
        }
        proof {
            assert(collapse(csv, k as int + 1).1 =~= stack@.map_values(|s: String| s@));
        }
        k = k + 1;
    }
    let ghost sv = stack@.map_values(|s: String| s@);
    let mut r = String::new();
    if rooted {
        push_char(&mut r, '/');
    }
    let ghost prefix = r@;
    let mut j: usize = 0;
    proof {
        assert(sv.take(0) =~= Seq::<Seq<char>>::empty());
    }
    while j < stack.len()
        invariant
            sv == stack@.map_values(|s: String| s@),
            j <= stack.len(),
            r@ == prefix + join_slash(sv.take(j as int)),
        decreases stack.len() - j,
    {
        proof {
            let t = sv.take(j as int + 1);
            assert(t.drop_last() =~= sv.take(j as int));
            assert(t.last() == stack@[j as int]@);
        }
        if j > 0 {
            push_char(&mut r, '/');
        }
        r.append(stack[j].as_str());
        proof {
            if j == 0 {
                assert(sv.take(1) =~= seq![sv[0]]);
            }
            assert(r@ =~= prefix + join_slash(sv.take(j as int + 1)));
        }
        j = j + 1;
    }
    proof {
        assert(sv.take(sv.len() as int) =~= sv);
    }
    r
}

} // verus!

verus! {

/// `base` with `p` pushed onto it, as `PathBuf::push` does on Unix: a rooted
/// `p` replaces `base`; otherwise a `/` goes in between unless `base` is empty
/// or already ends in `/`.
pub open spec fn pushed(base: Seq<char>, p: Seq<char>) -> Seq<char> {
    if is_rooted(p) {
        p
    } else if base.len() > 0 && base.last() != '/' {
        base.push('/') + p
    } else {
        base + p
    }
}

/// `dir` joined with `rel`, as `Path::join` does on Unix.
pub fn join(dir: &str, rel: &str) -> (r: String)
    ensures
        r@ == pushed(dir@, rel@),
{
    let rel_len = rel.unicode_len();
    if rel_len > 0 && rel.get_char(0) == '/' {
        return rel.to_owned();
    }
    let mut r = dir.to_owned();
    let n = dir.unicode_len();
    if n > 0 && dir.get_char(n - 1) != '/' {
        push_char(&mut r, '/');
    }
    r.append(rel);
    r
}

/// The components of the parent of `s`, if it has one: `Path::parent` drops
/// a last normal, `.` or `..` component, and a bare root or an empty path has
/// no parent.
pub open spec fn parent_components(s: Seq<char>) -> Option<Seq<Comp>> {
    let cs = components_of(s);
    if cs.len() > 0 && cs.last() != Comp::Root {
        Some(cs.drop_last())
    } else {
        None
    }
}

fn comp_eq(a: &PathComp, b: &PathComp) -> (r: bool)
    ensures
        r == (a@ == b@),
{
    match a {
        PathComp::RootDir => match b {
            PathComp::RootDir => true,
            _ => false,
        },
        PathComp::CurDir => match b {
            PathComp::CurDir => true,
            _ => false,
        },
        PathComp::ParentDir => match b {
            PathComp::ParentDir => true,
            _ => false,
        },
        PathComp::Normal(x) => match b {
            PathComp::Normal(y) => {
                let same = x.eq(y);
                proof {
                    if !same {
                        assert(a@ != b@) by {
                            if a@ == b@ {
                                assert(x@ == y@);
                            }
                        }
                    }
                }
                same
            },
            _ => false,
        },
    }
}

/// Whether the parent of `path` is `dir`, comparing components as `Path`'s
/// `==` does.
pub fn parent_is(path: &str, dir: &str) -> (r: bool)
    ensures
        r == (parent_components(path@) == Some(components_of(dir@))),
{
    let a = components(path);
    let b = components(dir);
    let ghost av = comps_view(a@);
    let ghost bv = comps_view(b@);
    if a.len() == 0 {
        return false;
    }
    match &a[a.len() - 1] {
        PathComp::RootDir => {
            proof {
                assert(av.last() == Comp::Root);
            }
            return false;
        },
        _ => {},
    }
    proof {
        assert(av.last() == a@[a.len() - 1]@);
    }
    if a.len() - 1 != b.len() {
        proof {
            assert(av.drop_last().len() != bv.len());
        }
        return false;
    }
    let mut i: usize = 0;
    while i < b.len()
        invariant
            av == comps_view(a@),
            bv == comps_view(b@),
            av == components_of(path@),
            bv == components_of(dir@),
            av.last() != Comp::Root,
            a.len() == b.len() + 1,
            i <= b.len(),
            forall|j: int| 0 <= j < i ==> av[j] == bv[j],
        decreases b.len() - i,
    {
        let same = comp_eq(&a[i], &b[i]);
        proof {
            assert(av[i as int] == a@[i as int]@);
            assert(bv[i as int] == b@[i as int]@);
        }
        if !same {
            proof {
                assert(av.drop_last()[i as int] != bv[i as int]);
            }
            return false;
        }
        i = i + 1;
    }
    proof {
        assert(av.drop_last() =~= bv);
    }
    true
}

/// Whether two paths have the same components, as `Path`'s `==` compares
/// them.
pub fn same_path(a: &str, b: &str) -> (r: bool)
    ensures
        r == (components_of(a@) == components_of(b@)),
{
    let x = components(a);
    let y = components(b);
    let ghost xv = comps_view(x@);
    let ghost yv = comps_view(y@);
    if x.len() != y.len() {
        proof {
            assert(xv.len() != yv.len());
        }
        return false;
    }
    let mut i: usize = 0;
    while i < x.len()
        invariant
            xv == comps_view(x@),
            yv == comps_view(y@),
            xv == components_of(a@),
            yv == components_of(b@),
            x.len() == y.len(),
            i <= x.len(),
            forall|j: int| 0 <= j < i ==> xv[j] == yv[j],
        decreases x.len() - i,
    {
        let same = comp_eq(&x[i], &y[i]);
        proof {
            assert(xv[i as int] == x@[i as int]@);
            assert(yv[i as int] == y@[i as int]@);
        }
        if !same {
            return false;
        }
        i = i + 1;
    }
    proof {
        assert(xv =~= yv);
    }
    true
}

} // verus!

verus! {

/// A piece that `normalize` keeps: not empty, without `/`, and neither `.`
/// nor `..`.
pub open spec fn normal_piece(p: Seq<char>) -> bool {
    &&& p.len() > 0
    &&& forall|i: int| 0 <= i < p.len() ==> #[trigger] p[i] != '/'
    &&& p != seq!['.']
    &&& p != seq!['.', '.']
}

pub open spec fn all_normal(ps: Seq<Seq<char>>) -> bool {
    forall|i: int| 0 <= i < ps.len() ==> normal_piece(#[trigger] ps[i])
}

/// The components of a list of normal pieces.
pub open spec fn normal_comps(ps: Seq<Seq<char>>) -> Seq<Comp> {
    ps.map_values(|p: Seq<char>| Comp::Normal(p))
}

/// Every normal component in `cs` is a normal piece.
pub open spec fn comps_normal(cs: Seq<Comp>) -> bool {
    forall|i: int| 0 <= i < cs.len() ==> match #[trigger] cs[i] {
        Comp::Normal(p) => normal_piece(p),
        _ => true,
    }
}

proof fn lemma_split_no_sep(p: Seq<char>, sep: char)
    requires
        forall|i: int| 0 <= i < p.len() ==> #[trigger] p[i] != sep,
    ensures
        split_on(p, sep) == seq![p],
    decreases p.len(),
{
    if p.len() > 0 {
        lemma_split_no_sep(p.drop_last(), sep);
        assert(p.drop_last().push(p.last()) =~= p);
        assert(seq![p.drop_last()].update(0, p.drop_last().push(p.last())) =~= seq![p]);
    } else {
        assert(p =~= Seq::<char>::empty());
    }
}

proof fn lemma_split_concat(a: Seq<char>, b: Seq<char>, sep: char)
    ensures
        split_on(a.push(sep) + b, sep) == split_on(a, sep) + split_on(b, sep),
    decreases b.len(),
{
    let s = a.push(sep) + b;
    if b.len() == 0 {
        assert(s =~= a.push(sep));
        assert(a.push(sep).drop_last() =~= a);
        assert(split_on(b, sep) =~= seq![Seq::<char>::empty()]);
        assert(split_on(a, sep).push(Seq::empty()) =~= split_on(a, sep) + seq![Seq::<char>::empty()]);
    } else {
        lemma_split_concat(a, b.drop_last(), sep);
        lemma_split_nonempty(b.drop_last(), sep);
        assert(s.drop_last() =~= a.push(sep) + b.drop_last());
        assert(s.last() == b.last());
        let pa = split_on(a, sep);
        let pb = split_on(b.drop_last(), sep);
        if b.last() == sep {
            assert((pa + pb).push(Seq::empty()) =~= pa + pb.push(Seq::empty()));
        } else {
            let p = pa + pb;
            assert(p.update(p.len() - 1, p.last().push(b.last())) =~= pa + pb.update(
                pb.len() - 1,
                pb.last().push(b.last()),
            ));
        }
    }
}

proof fn lemma_join_prefix(ps: Seq<Seq<char>>)
    requires
        ps.len() > 0,
    ensures
        join_slash(ps).len() >= ps[0].len(),
        forall|i: int| 0 <= i < ps[0].len() ==> #[trigger] join_slash(ps)[i] == ps[0][i],
    decreases ps.len(),
{
    if ps.len() > 1 {
        lemma_join_prefix(ps.drop_last());
        assert(ps.drop_last()[0] == ps[0]);
        let j = join_slash(ps.drop_last());
        assert forall|i: int| 0 <= i < ps[0].len() implies #[trigger] join_slash(ps)[i] == ps[0][i] by {
            assert(join_slash(ps)[i] == j[i]);
        }
    }
}

proof fn lemma_split_join(ps: Seq<Seq<char>>)
    requires
        ps.len() > 0,
        all_normal(ps),
    ensures
        split_on(join_slash(ps), '/') == ps,
    decreases ps.len(),
{
    if ps.len() == 1 {
        assert(normal_piece(ps[0]));
        lemma_split_no_sep(ps[0], '/');
        assert(seq![ps[0]] =~= ps);
    } else {
        let init = ps.drop_last();
        assert(all_normal(init)) by {
            assert forall|i: int| 0 <= i < init.len() implies normal_piece(#[trigger] init[i]) by {
                assert(init[i] == ps[i]);
            }
        }
        lemma_split_join(init);
        assert(normal_piece(ps.last()));
        lemma_split_no_sep(ps.last(), '/');
        lemma_split_concat(join_slash(init), ps.last(), '/');
        assert(init + seq![ps.last()] =~= ps);
    }
}

proof fn lemma_piece_comps_normal(ps: Seq<Seq<char>>, k: int)
    requires
        all_normal(ps),
        0 <= k <= ps.len(),
    ensures
        piece_comps(ps, k) == normal_comps(ps.take(k)),
    decreases k,
{
    if k == 0 {
        assert(normal_comps(ps.take(0)) =~= Seq::<Comp>::empty());
    } else {
        lemma_piece_comps_normal(ps, k - 1);
        let p = ps[k - 1];
        assert(normal_piece(p));
        assert(!(p =~= seq!['.']));
        assert(!(p =~= seq!['.', '.']));
        assert(piece_comp(p, k - 1 == 0) == Some(Comp::Normal(p)));
        assert(normal_comps(ps.take(k)) =~= normal_comps(ps.take(k - 1)).push(Comp::Normal(p)));
    }
}

proof fn lemma_piece_comps_rooted(ps: Seq<Seq<char>>, k: int)
    requires
        all_normal(ps),
        1 <= k <= ps.len() + 1,
    ensures
        piece_comps(seq![Seq::<char>::empty()] + ps, k) == normal_comps(ps.take(k - 1)),
    decreases k,
{
    let qs = seq![Seq::<char>::empty()] + ps;
    if k == 1 {
        assert(qs[0] =~= Seq::<char>::empty());
        assert(piece_comps(qs, 0) =~= Seq::<Comp>::empty());
        assert(normal_comps(ps.take(0)) =~= Seq::<Comp>::empty());
        assert(piece_comps(qs, 1) =~= Seq::<Comp>::empty());
    } else {
        lemma_piece_comps_rooted(ps, k - 1);
        let p = ps[k - 2];
        assert(qs[k - 1] == p);
        assert(normal_piece(p));
        assert(!(p =~= seq!['.']));
        assert(!(p =~= seq!['.', '.']));
        assert(normal_comps(ps.take(k - 1)) =~= normal_comps(ps.take(k - 2)).push(Comp::Normal(p)));
    }
}

proof fn lemma_components_render(rooted: bool, stack: Seq<Seq<char>>)
    requires
        all_normal(stack),
    ensures
        is_rooted(render_path(rooted, stack)) == rooted,
        components_of(render_path(rooted, stack)) == (if rooted {
            seq![Comp::Root]
        } else {
            Seq::empty()
        }) + normal_comps(stack),
{
    let s = render_path(rooted, stack);
    let head: Seq<Comp> = if rooted {
        seq![Comp::Root]
    } else {
        Seq::empty()
    };
    if rooted {
        assert(s =~= Seq::<char>::empty().push('/') + join_slash(stack));
        assert(is_rooted(s));
        lemma_split_concat(Seq::empty(), join_slash(stack), '/');
        if stack.len() == 0 {
            assert(split_on(Seq::<char>::empty(), '/') =~= seq![Seq::<char>::empty()]);
            let ps = split_on(s, '/');
            assert(ps =~= seq![Seq::<char>::empty(), Seq::<char>::empty()]);
            assert(ps[0].len() == 0 && ps[1].len() == 0);
            assert(piece_comp(ps[0], true) is None);
            assert(piece_comps(ps, 0) =~= Seq::<Comp>::empty());
            assert(piece_comps(ps, 1) =~= Seq::<Comp>::empty());
            assert(piece_comps(ps, 2) =~= Seq::<Comp>::empty());
            assert(normal_comps(stack) =~= Seq::<Comp>::empty());
            assert(components_of(s) =~= head + normal_comps(stack));
        } else {
            lemma_split_join(stack);
            assert(split_on(Seq::<char>::empty(), '/') =~= seq![Seq::<char>::empty()]);
            lemma_piece_comps_rooted(stack, stack.len() + 1 as int);
            assert(stack.take(stack.len() as int) =~= stack);
        }
    } else {
        assert(s =~= join_slash(stack));
        if stack.len() == 0 {
            assert(s =~= Seq::<char>::empty());
            let ps = split_on(s, '/');
            assert(ps =~= seq![Seq::<char>::empty()]);
            assert(ps[0].len() == 0);
            assert(piece_comp(ps[0], true) is None);
            assert(piece_comps(ps, 0) =~= Seq::<Comp>::empty());
            assert(piece_comps(ps, 1) =~= Seq::<Comp>::empty());
            assert(normal_comps(stack) =~= Seq::<Comp>::empty());
            assert(components_of(s) =~= head + normal_comps(stack));
        } else {
            lemma_join_prefix(stack);
            assert(normal_piece(stack[0]));
            assert(s[0] == stack[0][0]);
            assert(!is_rooted(s));
            lemma_split_join(stack);
            lemma_piece_comps_normal(stack, stack.len() as int);
            assert(stack.take(stack.len() as int) =~= stack);
            assert(components_of(s) =~= head + normal_comps(stack));
        }
    }
}

proof fn lemma_collapse_normals(rooted: bool, stack: Seq<Seq<char>>, j: int)
    requires
        0 <= j <= stack.len(),
    ensures
        ({
            let cs = (if rooted {
                seq![Comp::Root]
            } else {
                Seq::empty()
            }) + normal_comps(stack);
            let h: int = if rooted {
                1
            } else {
                0
            };
            collapse(cs, h + j) == (rooted, stack.take(j))
        }),
    decreases j,
{
    let cs = (if rooted {
        seq![Comp::Root]
    } else {
        Seq::empty()
    }) + normal_comps(stack);
    let h: int = if rooted {
        1
    } else {
        0
    };
    if j == 0 {
        assert(stack.take(0) =~= Seq::<Seq<char>>::empty());
        if rooted {
            assert(cs[0] == Comp::Root);
            assert(collapse(cs, 0) == (false, Seq::<Seq<char>>::empty()));
        }
    } else {
        lemma_collapse_normals(rooted, stack, j - 1);
        assert(cs[h + j - 1] == Comp::Normal(stack[j - 1]));
        assert(stack.take(j) =~= stack.take(j - 1).push(stack[j - 1]));
    }
}

proof fn lemma_split_pieces_no_sep(s: Seq<char>, sep: char)
    ensures
        forall|j: int, i: int|
            0 <= j < split_on(s, sep).len() && 0 <= i < split_on(s, sep)[j].len()
                ==> #[trigger] split_on(s, sep)[j][i] != sep,
    decreases s.len(),
{
    if s.len() > 0 {
        lemma_split_pieces_no_sep(s.drop_last(), sep);
        lemma_split_nonempty(s.drop_last(), sep);
        let p = split_on(s.drop_last(), sep);
        if s.last() != sep {
            let q = split_on(s, sep);
            assert forall|j: int, i: int| 0 <= j < q.len() && 0 <= i < q[j].len() implies #[trigger] q[j][i]
                != sep by {
                if j < p.len() - 1 {
                    assert(q[j] == p[j]);
                } else {
                    assert(q[j] == p.last().push(s.last()));
                    if i < p.last().len() {
                        assert(q[j][i] == p[p.len() - 1][i]);
                    }
                }
            }
        } else {
            let q = split_on(s, sep);
            assert forall|j: int, i: int| 0 <= j < q.len() && 0 <= i < q[j].len() implies #[trigger] q[j][i]
                != sep by {
                if j < p.len() {
                    assert(q[j] == p[j]);
                }
            }
        }
    }
}

proof fn lemma_piece_comps_normal_pieces(ps: Seq<Seq<char>>, k: int)
    requires
        0 <= k <= ps.len(),
        forall|j: int, i: int| 0 <= j < ps.len() && 0 <= i < ps[j].len() ==> #[trigger] ps[j][i] != '/',
    ensures
        comps_normal(piece_comps(ps, k)),
    decreases k,
{
    if k > 0 {
        lemma_piece_comps_normal_pieces(ps, k - 1);
        let prev = piece_comps(ps, k - 1);
        let p = ps[k - 1];
        let extra = opt_seq(piece_comp(p, k - 1 == 0));
        let cs = piece_comps(ps, k);
        assert forall|i: int| 0 <= i < cs.len() implies match #[trigger] cs[i] {
            Comp::Normal(q) => normal_piece(q),
            _ => true,
        } by {
            if i < prev.len() {
                assert(cs[i] == prev[i]);
            } else {
                assert(cs[i] == extra[i - prev.len()]);
                if let Comp::Normal(q) = cs[i] {
                    assert(q == p);
                    assert forall|m: int| 0 <= m < q.len() implies #[trigger] q[m] != '/' by {
                        assert(ps[k - 1][m] != '/');
                    }
                }
            }
        }
    }
}

proof fn lemma_components_normal(s: Seq<char>)
    ensures
        comps_normal(components_of(s)),
{
    let ps = split_on(s, '/');
    lemma_split_pieces_no_sep(s, '/');
    lemma_piece_comps_normal_pieces(ps, ps.len() as int);
    let head: Seq<Comp> = if is_rooted(s) {
        seq![Comp::Root]
    } else {
        Seq::empty()
    };
    let tail = piece_comps(ps, ps.len() as int);
    let cs = components_of(s);
    assert forall|i: int| 0 <= i < cs.len() implies match #[trigger] cs[i] {
        Comp::Normal(p) => normal_piece(p),
        _ => true,
    } by {
        if i >= head.len() {
            assert(cs[i] == tail[i - head.len()]);
        }
    }
}

proof fn lemma_collapse_stack_normal(cs: Seq<Comp>, k: int)
    requires
        comps_normal(cs),
        0 <= k <= cs.len(),
    ensures
        all_normal(collapse(cs, k).1),
    decreases k,
{
    if k > 0 {
        lemma_collapse_stack_normal(cs, k - 1);
        let st = collapse(cs, k - 1).1;
        let c = cs[k - 1];
        match c {
            Comp::Parent => {
                if st.len() > 0 {
                    let d = st.drop_last();
                    assert forall|i: int| 0 <= i < d.len() implies normal_piece(#[trigger] d[i]) by {
                        assert(d[i] == st[i]);
                    }
                }
            },
            Comp::Normal(p) => {
                let n = st.push(p);
                assert forall|i: int| 0 <= i < n.len() implies normal_piece(#[trigger] n[i]) by {
                    if i < st.len() {
                        assert(n[i] == st[i]);
                    }
                }
            },
            _ => {},
        }
    }
}

/// Normalizing a normalized path changes nothing: the result holds no `.`
/// or `..` left to collapse, and its text reads back as the same components.
pub proof fn law_normalize_idempotent(s: Seq<char>)
    ensures
        normalized(normalized(s)) == normalized(s),
{
    let cs = components_of(s);
    let st = collapse(cs, cs.len() as int);
    lemma_components_normal(s);
    lemma_collapse_stack_normal(cs, cs.len() as int);
    lemma_components_render(st.0, st.1);
    lemma_collapse_normals(st.0, st.1, st.1.len() as int);
    assert(st.1.take(st.1.len() as int) =~= st.1);
}

proof fn lemma_piece_comps_no_root(ps: Seq<Seq<char>>, k: int)
    requires
        0 <= k <= ps.len(),
    ensures
        forall|j: int| 0 <= j < piece_comps(ps, k).len() ==> #[trigger] piece_comps(ps, k)[j] != Comp::Root,
    decreases k,
{
    if k > 0 {
        lemma_piece_comps_no_root(ps, k - 1);
        let prev = piece_comps(ps, k - 1);
        let extra = opt_seq(piece_comp(ps[k - 1], k - 1 == 0));
        let cs = piece_comps(ps, k);
        assert forall|j: int| 0 <= j < cs.len() implies #[trigger] cs[j] != Comp::Root by {
            if j < prev.len() {
                assert(cs[j] == prev[j]);
            } else {
                assert(cs[j] == extra[j - prev.len()]);
            }
        }
    }
}

proof fn lemma_collapse_rooted(cs: Seq<Comp>, k: int)
    requires
        0 <= k <= cs.len(),
        forall|j: int| 1 <= j < cs.len() ==> #[trigger] cs[j] != Comp::Root,
    ensures
        collapse(cs, k).0 == (k > 0 && cs[0] == Comp::Root),
    decreases k,
{
    if k > 0 {
        lemma_collapse_rooted(cs, k - 1);
    }
}

/// A normalized path keeps only the root and normal components: no `.` and
/// no `..` remain, and it is rooted exactly when the path it came from is.
pub proof fn law_normalize_shape(s: Seq<char>)
    ensures
        forall|i: int|
            0 <= i < components_of(normalized(s)).len() ==> #[trigger] components_of(normalized(s))[i]
                != Comp::Cur && components_of(normalized(s))[i] != Comp::Parent,
        is_rooted(normalized(s)) == is_rooted(s),
{
    let cs = components_of(s);
    let st = collapse(cs, cs.len() as int);
    lemma_components_normal(s);
    lemma_collapse_stack_normal(cs, cs.len() as int);
    lemma_components_render(st.0, st.1);
    let t = normalized(s);
    let head: Seq<Comp> = if st.0 {
        seq![Comp::Root]
    } else {
        Seq::empty()
    };
    let ct = components_of(t);
    assert(ct == head + normal_comps(st.1));
    assert forall|i: int| 0 <= i < ct.len() implies #[trigger] ct[i] != Comp::Cur && ct[i] != Comp::Parent by {
        if i >= head.len() {
            assert(ct[i] == Comp::Normal(st.1[i - head.len()]));
        }
    }
    let ps = split_on(s, '/');
    lemma_piece_comps_no_root(ps, ps.len() as int);
    let sh: Seq<Comp> = if is_rooted(s) {
        seq![Comp::Root]
    } else {
        Seq::empty()
    };
    let tail = piece_comps(ps, ps.len() as int);
    assert(cs == sh + tail);
    assert forall|j: int| 1 <= j < cs.len() implies #[trigger] cs[j] != Comp::Root by {
        if j >= sh.len() {
            assert(cs[j] == tail[j - sh.len()]);
        }
    }
    if !is_rooted(s) && cs.len() > 0 {
        assert(cs[0] == tail[0]);
    }
    lemma_collapse_rooted(cs, cs.len() as int);
}

proof fn lemma_piece_comps_prefix(ps: Seq<Seq<char>>, qs: Seq<Seq<char>>, k: int)
    requires
        0 <= k <= ps.len(),
    ensures
        piece_comps(ps + qs, k) == piece_comps(ps, k),
    decreases k,
{
    if k > 0 {
        lemma_piece_comps_prefix(ps, qs, k - 1);
        assert((ps + qs)[k - 1] == ps[k - 1]);
    }
}

proof fn lemma_collapse_prefix(cs: Seq<Comp>, ds: Seq<Comp>, k: int)
    requires
        0 <= k <= cs.len(),
    ensures
        collapse(cs + ds, k) == collapse(cs, k),
    decreases k,
{
    if k > 0 {
        lemma_collapse_prefix(cs, ds, k - 1);
        assert((cs + ds)[k - 1] == cs[k - 1]);
    }
}

/// The components of a normalized path: the root if it is rooted, then the
/// normal components that collapsing keeps.
proof fn lemma_normalized_components(s: Seq<char>)
    ensures
        ({
            let cs = components_of(s);
            let st = collapse(cs, cs.len() as int);
            components_of(normalized(s)) == (if st.0 {
                seq![Comp::Root]
            } else {
                Seq::empty()
            }) + normal_comps(st.1)
        }),
{
    let cs = components_of(s);
    let st = collapse(cs, cs.len() as int);
    lemma_components_normal(s);
    lemma_collapse_stack_normal(cs, cs.len() as int);
    lemma_components_render(st.0, st.1);
}

/// Each `..` removes one component: appending `/..` to a nonempty path
/// drops the last component of its normalized form when that is a normal
/// one, and changes nothing when only the root or nothing is left.
pub proof fn law_parent_drops_one(s: Seq<char>)
    requires
        s.len() > 0,
    ensures
        ({
            let before = components_of(normalized(s));
            let after = components_of(normalized(s + seq!['/', '.', '.']));
            &&& before.len() > 0 && before.last() is Normal ==> after == before.drop_last()
            &&& !(before.len() > 0 && before.last() is Normal) ==> after == before
        }),
{
    let t = s + seq!['/', '.', '.'];
    let dd = seq!['.', '.'];
    assert(t =~= s.push('/') + dd);
    lemma_split_concat(s, dd, '/');
    lemma_split_no_sep(dd, '/');
    let ps = split_on(s, '/');
    lemma_split_nonempty(s, '/');
    assert(split_on(t, '/') == ps + seq![dd]);
    let n = ps.len() as int;
    lemma_piece_comps_prefix(ps, seq![dd], n);
    assert((ps + seq![dd])[n] == dd);
    assert(piece_comp(dd, false) == Some(Comp::Parent)) by {
        assert(!(dd =~= seq!['.']));
    }
    assert(piece_comps(ps + seq![dd], n + 1) == piece_comps(ps, n) + seq![Comp::Parent]);
    assert(is_rooted(t) == is_rooted(s));
    let cs = components_of(s);
    let ct = components_of(t);
    assert(ct =~= cs.push(Comp::Parent));
    lemma_collapse_prefix(cs, seq![Comp::Parent], cs.len() as int);
    assert(cs + seq![Comp::Parent] =~= ct);
    let st = collapse(cs, cs.len() as int);
    let su = collapse(ct, ct.len() as int);
    assert(ct[cs.len() as int] == Comp::Parent);
    assert(su == (st.0, if st.1.len() > 0 {
        st.1.drop_last()
    } else {
        st.1
    }));
    lemma_normalized_components(s);
    lemma_normalized_components(t);
    let head: Seq<Comp> = if st.0 {
        seq![Comp::Root]
    } else {
        Seq::empty()
    };
    let before = head + normal_comps(st.1);
    if st.1.len() > 0 {
        assert(before.last() == Comp::Normal(st.1.last()));
        assert(head + normal_comps(st.1.drop_last()) =~= before.drop_last());
    } else {
        assert(normal_comps(st.1) =~= Seq::<Comp>::empty());
        assert(before =~= head);
        if before.len() > 0 {
            assert(before.last() == Comp::Root);
        }
    }
}

} // verus!
