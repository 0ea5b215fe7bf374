//! The asset manifest that the bundler writes, and what the asset macros and
//! the asset router compute from it: static file URLs, a page's script and
//! stylesheet tags, and the sorted table of bundled files.
use vstd::prelude::*;

use crate::markup::{escaped, Markup};
use crate::paths::{join, normalize, normalized, parent_components, parent_is, pushed, components_of};
use crate::text::{chars_of, compare_texts, lemma_text_lt_asymmetric, lemma_text_lt_irreflexive, lemma_text_lt_transitive, sort_texts, text_le, text_lt, texts, texts_sorted, TextOrder};

verus! {

/// One bundled page entry: its script and, when it imports CSS, its stylesheet.
pub struct Entry {
    pub js: String,
    pub css: Option<String>,
}

/// The asset manifest written by the bundler. The maps of the JSON manifest
/// are held as lists of (key, value) pairs.
pub struct Manifest {
    pub entry_glob: String,
    pub static_glob: String,
    pub dir: String,
    pub prefix: String,
    pub files: Vec<String>,
    pub entries: Vec<(String, Entry)>,
    pub statics: Vec<(String, String)>,
}

/// The URL that `statics` gives `key`: the value of its first pair with that
/// key, if any.
pub open spec fn static_url(statics: Seq<(String, String)>, key: Seq<char>) -> Option<Seq<char>>
    decreases statics.len(),
{
    if statics.len() == 0 {
        None
    } else if statics[0].0@ == key {
        Some(statics[0].1@)
    } else {
        static_url(statics.drop_first(), key)
    }
}

proof fn lemma_static_url_skip(statics: Seq<(String, String)>, key: Seq<char>, i: int)
    requires
        0 <= i <= statics.len(),
        forall|j: int| 0 <= j < i ==> (#[trigger] statics[j]).0@ != key,
    ensures
        static_url(statics, key) == static_url(statics.skip(i), key),
    decreases i,
{
    if i == 0 {
        assert(statics.skip(0) =~= statics);
    } else {
        let rest = statics.drop_first();
        assert(statics[0].0@ != key);
        assert forall|j: int| 0 <= j < i - 1 implies (#[trigger] rest[j]).0@ != key by {
            assert(rest[j] == statics[j + 1]);
        }
        lemma_static_url_skip(rest, key, i - 1);
        assert(rest.skip(i - 1) =~= statics.skip(i));
    }
}

/// Looks `key` up in `statics`.
pub fn lookup_static(statics: &Vec<(String, String)>, key: &String) -> (r: Option<String>)
    ensures
        match r {
            Some(url) => static_url(statics@, key@) == Some(url@),
            None => static_url(statics@, key@) is None,
        },
{
    let mut i: usize = 0;
    while i < statics.len()
        invariant
            i <= statics.len(),
            forall|j: int| 0 <= j < i ==> (#[trigger] statics@[j]).0@ != key@,
        decreases statics.len() - i,
    {
        if statics[i].0.eq(key) {
            proof {
                lemma_static_url_skip(statics@, key@, i as int);
                assert(statics@.skip(i as int)[0] == statics@[i as int]);
            }
            return Some(statics[i].1.clone());
        }
        i = i + 1;
    }
    proof {
        lemma_static_url_skip(statics@, key@, i as int);
    }
    None
}

/// The file an `asset!` path names: `rel` joined to the calling file's
/// directory, with `.` and `..` collapsed.
pub open spec fn asset_path_of(dir: Seq<char>, rel: Seq<char>) -> Seq<char> {
    normalized(pushed(dir, rel))
}

/// The file that `asset!(rel)` names, called from a file in `dir`.
pub fn asset_path(dir: &str, rel: &str) -> (r: String)
    ensures
        r@ == asset_path_of(dir@, rel@),
{
    let joined = join(dir, rel);
    normalize(joined.as_str())
}

pub open spec fn missing_message(rel: Seq<char>, path: Seq<char>) -> Seq<char> {
    "cannot find `"@ + rel + "` at "@ + path
}

pub open spec fn unmatched_message(rel: Seq<char>, glob: Seq<char>) -> Seq<char> {
    "`"@ + rel + "` is not matched by `Config::static_glob` (`"@ + glob + "`)"@
}

/// Resolves `asset!(rel)`, called from a file in `dir`, to its hashed URL.
/// `exists` says whether `asset_path(dir, rel)` is a file: the file must
/// exist, and the manifest must list it among the static files.
pub fn resolve_asset(dir: &str, rel: &str, exists: bool, manifest: &Manifest) -> (r: Result<
    String,
    String,
>)
    ensures
        !exists ==> r is Err && r->Err_0@ == missing_message(rel@, asset_path_of(dir@, rel@)),
        exists ==> match static_url(manifest.statics@, asset_path_of(dir@, rel@)) {
            Some(url) => r is Ok && r->Ok_0@ == url,
            None => r is Err && r->Err_0@ == unmatched_message(rel@, manifest.static_glob@),
        },
{
    let path = asset_path(dir, rel);
    if !exists {
        let mut msg = String::new();
        msg.append("cannot find `");
        msg.append(rel);
        msg.append("` at ");
        msg.append(path.as_str());
        return Err(msg);
    }
    match lookup_static(&manifest.statics, &path) {
        Some(url) => Ok(url),
        None => {
            let mut msg = String::new();
            msg.append("`");
            msg.append(rel);
            msg.append("` is not matched by `Config::static_glob` (`");
            msg.append(manifest.static_glob.as_str());
            msg.append("`)");
            Err(msg)
        },
    }
}

} // verus!

verus! {

/// Whether the entry at path `entry` belongs to the page directory `dir`: the
/// entry's parent is `dir`, compared by components.
pub open spec fn entry_in_dir(entry: Seq<char>, dir: Seq<char>) -> bool {
    parent_components(entry) == Some(components_of(dir))
}

/// The index of the first entry that lies directly in `page_dir`, the
/// directory of the file that calls `assets!()`.
pub fn page_entry(entries: &Vec<(String, Entry)>, page_dir: &str) -> (r: Option<usize>)
    ensures
        match r {
            Some(i) => i < entries.len() && entry_in_dir(entries@[i as int].0@, page_dir@)
                && forall|j: int|
                0 <= j < i ==> !entry_in_dir((#[trigger] entries@[j]).0@, page_dir@),
            None => forall|j: int|
                0 <= j < entries.len() ==> !entry_in_dir((#[trigger] entries@[j]).0@, page_dir@),
        },
{
    let mut i: usize = 0;
    while i < entries.len()
        invariant
            i <= entries.len(),
            forall|j: int| 0 <= j < i ==> !entry_in_dir((#[trigger] entries@[j]).0@, page_dir@),
        decreases entries.len() - i,
    {
        if parent_is(entries[i].0.as_str(), page_dir) {
            return Some(i);
        }
        i = i + 1;
    }
    None
}

/// The `<script>` and optional `<link>` tags of a page entry, their URLs
/// prefixed with `base`.
pub open spec fn head_html(base: Seq<char>, js: Seq<char>, css: Option<Seq<char>>) -> Seq<char> {
    "<script type=\"module\" defer src=\""@ + escaped(base) + escaped(js) + "\"></script>"@ + match css {
        Some(css) => "<link rel=\"stylesheet\" type=\"text/css\" href=\""@ + escaped(base) + escaped(css) + "\">"@,
        None => Seq::empty(),
    }
}

/// Renders the page's `<script type="module">` tag and, when the entry has a
/// stylesheet, its `<link rel="stylesheet">` tag.
pub fn head(base: &str, js: &str, css: Option<&str>) -> (m: Markup)
    ensures
        m@ == head_html(base@, js@, match css {
            Some(c) => Some(c@),
            None => None,
        }),
{
    let mut m = Markup::new();
    m.push_raw("<script type=\"module\" defer src=\"");
    m.push_text(base);
    m.push_text(js);
    m.push_raw("\"></script>");
    match css {
        Some(css) => {
            m.push_raw("<link rel=\"stylesheet\" type=\"text/css\" href=\"");
            m.push_text(base);
            m.push_text(css);
            m.push_raw("\">");
        },
        None => {},
    }
    proof {
        let s = head_html(base@, js@, match css {
            Some(c) => Some(c@),
            None => None,
        });
        assert(m@ =~= s);
    }
    m
}

/// The css of an entry, as text.
pub open spec fn css_view(e: Entry) -> Option<Seq<char>> {
    match e.css {
        Some(c) => Some(c@),
        None => None,
    }
}

/// What `assets!()` renders for the page in `page_dir`: the head tags of the
/// first entry that lies directly in `page_dir`, their URLs behind `base`,
/// or nothing when no entry does.
pub fn page_assets(base: &str, entries: &Vec<(String, Entry)>, page_dir: &str) -> (m: Markup)
    ensures
        (forall|j: int| 0 <= j < entries.len() ==> !entry_in_dir((#[trigger] entries@[j]).0@, page_dir@))
            ==> m@ == Seq::<char>::empty(),
        forall|i: int|
            0 <= i < entries.len() && entry_in_dir((#[trigger] entries@[i]).0@, page_dir@) && (forall|j: int|
                0 <= j < i ==> !entry_in_dir((#[trigger] entries@[j]).0@, page_dir@)) ==> m@ == head_html(
                base@,
                entries@[i].1.js@,
                css_view(entries@[i].1),
            ),
{
    match page_entry(entries, page_dir) {
        Some(i) => {
            let e = &entries[i].1;
            let css = match &e.css {
                Some(c) => Some(c.as_str()),
                None => None,
            };
            let m = head(base, e.js.as_str(), css);
            proof {
                assert forall|k: int|
                    0 <= k < entries.len() && entry_in_dir((#[trigger] entries@[k]).0@, page_dir@) && (forall|j: int|
                        0 <= j < k ==> !entry_in_dir((#[trigger] entries@[j]).0@, page_dir@)) implies k == i by {
                    if k < i {
                        assert(!entry_in_dir(entries@[k].0@, page_dir@));
                    } else if k > i {
                        assert(entry_in_dir(entries@[i as int].0@, page_dir@));
                    }
                }
            }
            m
        },
        None => Markup::new(),
    }
}

/// A bundled file that the asset router serves.
pub struct AssetFile {
    /// The file name under the assets prefix.
    pub name: String,
    /// Its MIME type.
    pub content_type: String,
    /// Where the build wrote it.
    pub path: String,
}

/// What `mime_guess` reports as the MIME type of a path, falling back to
/// `application/octet-stream`.
pub uninterp spec fn guessed_mime(path: Seq<char>) -> Seq<char>;

/// `mime_guess::from_path(path).first_or_octet_stream()`, as text. The guess
/// depends only on the extension of `path`; the table it comes from is not
/// stated here.
#[verifier::external_body]
fn guess_content_type(path: &str) -> (r: String)
    ensures
        r@ == guessed_mime(path@),
{
    mime_guess::from_path(path).first_or_octet_stream().to_string()
}

/// The router's record for the bundled file `name` written under `dir`, whose
/// MIME type is `content_type`.
pub fn asset_file(dir: &str, name: &str, content_type: String) -> (f: AssetFile)
    ensures
        f.name@ == name@,
        f.content_type@ == content_type@,
        f.path@ == pushed(dir@, name@),
{
    AssetFile { name: name.to_owned(), content_type, path: join(dir, name) }
}

/// The names of a table of files.
pub open spec fn file_names(t: Seq<AssetFile>) -> Seq<Seq<char>> {
    t.map_values(|f: AssetFile| f.name@)
}

/// The table of bundled files that `assets_router!` embeds: the manifest's
/// files sorted by name, each with its guessed MIME type and its path under
/// the manifest's directory.
pub fn asset_table(manifest: &Manifest) -> (t: Vec<AssetFile>)
    ensures
        texts_sorted(file_names(t@)),
        file_names(t@).to_multiset() == texts(manifest.files@).to_multiset(),
        forall|i: int|
            0 <= i < t.len() ==> (#[trigger] t@[i]).content_type@ == guessed_mime(t@[i].name@)
                && t@[i].path@ == pushed(manifest.dir@, t@[i].name@),
{
    let mut names: Vec<String> = Vec::new();
    let mut k: usize = 0;
    while k < manifest.files.len()
        invariant
            k <= manifest.files.len(),
            texts(names@) == texts(manifest.files@).take(k as int),
        decreases manifest.files.len() - k,
    {
        let c = manifest.files[k].clone();
        proof {
            assert(c@ == manifest.files@[k as int]@);
        }
        let ghost prev = names@;
        names.push(c);
        proof {
            assert(names@ == prev.push(c));
            assert(texts(names@) =~= texts(prev).push(c@));
            assert(texts(manifest.files@).take(k as int + 1) =~= texts(manifest.files@).take(
                k as int,
            ).push(manifest.files@[k as int]@));
            assert(texts(names@) =~= texts(manifest.files@).take(k as int + 1));
        }
        k = k + 1;
    }
    proof {
        assert(texts(manifest.files@).take(manifest.files.len() as int) =~= texts(manifest.files@));
    }
    sort_texts(&mut names);
    let mut t: Vec<AssetFile> = Vec::new();
    let mut i: usize = 0;
    while i < names.len()
        invariant
            i <= names.len(),
            t.len() == i,
            forall|j: int| 0 <= j < i ==> (#[trigger] t@[j]).name@ == names@[j]@,
            forall|j: int|
                0 <= j < i ==> (#[trigger] t@[j]).content_type@ == guessed_mime(t@[j].name@)
                    && t@[j].path@ == pushed(manifest.dir@, t@[j].name@),
        decreases names.len() - i,
    {
        let content_type = guess_content_type(names[i].as_str());
        let f = asset_file(manifest.dir.as_str(), names[i].as_str(), content_type);
        t.push(f);
        i = i + 1;
    }
    proof {
        assert(file_names(t@) =~= texts(names@));
    }
    t
}

/// The route under which the asset router serves the files.
pub open spec fn asset_route_of(prefix: Seq<char>) -> Seq<char> {
    "/"@ + prefix + "/{*path}"@
}

/// The route under which the asset router serves the files: every path below
/// `/{prefix}/`.
pub fn asset_route(prefix: &str) -> (r: String)
    ensures
        r@ == asset_route_of(prefix@),
{
    let mut r = String::new();
    r.append("/");
    r.append(prefix);
    r.append("/{*path}");
    r
}

/// The `Cache-Control` value of every served asset. File names carry content
/// hashes, which makes an immutable policy safe.
pub const CACHE_CONTROL: &'static str = "public, max-age=31536000, immutable";

proof fn lemma_le_lt(a: Seq<char>, b: Seq<char>, c: Seq<char>)
    requires
        text_le(a, b),
        text_lt(b, c),
    ensures
        text_lt(a, c),
{
    if a != b {
        lemma_text_lt_transitive(a, b, c);
    }
}

proof fn lemma_lt_le(a: Seq<char>, b: Seq<char>, c: Seq<char>)
    requires
        text_lt(a, b),
        text_le(b, c),
    ensures
        text_lt(a, c),
{
    if b != c {
        lemma_text_lt_transitive(a, b, c);
    }
}

/// Finds the file the router serves for `path`, by binary search over the
/// sorted table.
pub fn find_asset(table: &Vec<AssetFile>, path: &str) -> (r: Option<usize>)
    requires
        texts_sorted(file_names(table@)),
    ensures
        match r {
            Some(i) => i < table.len() && table@[i as int].name@ == path@,
            None => forall|i: int| 0 <= i < table.len() ==> (#[trigger] table@[i]).name@ != path@,
        },
{
    let key = chars_of(path);
    let ghost names = file_names(table@);
    let mut lo: usize = 0;
    let mut hi: usize = table.len();
    while lo < hi
        invariant
            names == file_names(table@),
            texts_sorted(names),
            lo <= hi <= table.len(),
            key@ == path@,
            forall|j: int| 0 <= j < lo ==> text_lt(#[trigger] names[j], key@),
            forall|j: int| hi <= j < table.len() ==> text_lt(key@, #[trigger] names[j]),
        decreases hi - lo,
    {
        let mid = lo + (hi - lo) / 2;
        let name = chars_of(table[mid].name.as_str());
        proof {
            assert(names[mid as int] == name@);
        }
        match compare_texts(&name, &key) {
            TextOrder::Less => {
                proof {
                    assert forall|j: int| 0 <= j < mid + 1 implies text_lt(
                        #[trigger] names[j],
                        key@,
                    ) by {
                        if j < mid {
                            assert(text_le(names[j], names[mid as int]));
                            lemma_le_lt(names[j], names[mid as int], key@);
                        }
                    }
                }
                lo = mid + 1;
            },
            TextOrder::Greater => {
                proof {
                    assert forall|j: int| mid <= j < table.len() implies text_lt(
                        key@,
                        #[trigger] names[j],
                    ) by {
                        if j > mid {
                            assert(text_le(names[mid as int], names[j]));
                            lemma_lt_le(key@, names[mid as int], names[j]);
                        }
                    }
                }
                hi = mid;
            },
            TextOrder::Equal => {
                return Some(mid);
            },
        }
    }
    proof {
        assert forall|i: int| 0 <= i < table.len() implies (#[trigger] table@[i]).name@ != path@ by {
            assert(names[i] == table@[i].name@);
            if i < lo {
                lemma_text_lt_asymmetric(names[i], key@);
            } else {
                lemma_text_lt_asymmetric(key@, names[i]);
            }
        }
    }
    None
}

} // verus!
