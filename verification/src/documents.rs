//! Documents and folders: the stored document rows, folder path rules
//! (normalising, splitting, renaming), text windows of a document and the
//! JSON lists of a conversation's active scope.

use vstd::prelude::*;
use crate::text::{chars_of, concat2, string_of_range, string_push};
use crate::ttl::strs;

verus! {

/// A stored document: its full text and metadata.
#[derive(Debug, Clone)]
pub struct DocumentRow {
    /// UUID v4
    pub id: String,
    /// absolute source path (the key for de-duplication)
    pub path: String,
    /// file name, for display
    pub name: String,
    /// pdf / docx / xlsx / epub / txt / ...
    pub format: String,
    pub text: String,
    pub char_count: u32,
    /// unix ms
    pub created_at: i64,
    /// folder such as "/A/B"; `None` files it in the Inbox (a conversation upload)
    pub folder_path: Option<String>,
    /// the conversation an Inbox upload came from
    pub source_conv_id: Option<String>,
}

/// A document mounted on a conversation (without its text).
#[derive(Debug, Clone)]
pub struct MountedDoc {
    pub path: String,
    pub name: String,
    pub format: String,
    pub char_count: u32,
    pub mounted_at: i64,
}

// ════════════════════════════════════════════════════════════════
// Whitespace and trimming
// ════════════════════════════════════════════════════════════════

/// The Unicode `White_Space` characters (what `char::is_whitespace` accepts).
pub open spec fn is_ws(c: char) -> bool {
    let u = c as u32;
    (0x9 <= u && u <= 0xd) || u == 0x20 || u == 0x85 || u == 0xa0 || u == 0x1680 || (0x2000 <= u
        && u <= 0x200a) || u == 0x2028 || u == 0x2029 || u == 0x202f || u == 0x205f || u == 0x3000
}

/// The code points of Unicode's White_Space property, which
/// `char::is_whitespace` tests.
pub open spec fn white_space_code_points() -> Set<u32> {
    set![
        0x9u32, 0xa, 0xb, 0xc, 0xd, 0x20, 0x85, 0xa0, 0x1680, 0x2000, 0x2001, 0x2002, 0x2003, 0x2004,
        0x2005, 0x2006, 0x2007, 0x2008, 0x2009, 0x200a, 0x2028, 0x2029, 0x202f, 0x205f, 0x3000
    ]
}

/// Whitespace is exactly the White_Space code points: tab to carriage
/// return, space, NEL, no-break space, the Ogham mark, the general
/// punctuation spaces, the line and paragraph separators, and the
/// ideographic space.
pub proof fn law_whitespace_characters(c: char)
    ensures
        is_ws(c) <==> white_space_code_points().contains(c as u32),
{
}

pub(crate) fn char_is_ws(c: char) -> (r: bool)
    ensures
        r == is_ws(c),
{
    let u = c as u32;
    (0x9 <= u && u <= 0xd) || u == 0x20 || u == 0x85 || u == 0xa0 || u == 0x1680 || (0x2000 <= u
        && u <= 0x200a) || u == 0x2028 || u == 0x2029 || u == 0x202f || u == 0x205f || u == 0x3000
}

/// `s` without its leading whitespace.
pub open spec fn trim_start(s: Seq<char>) -> Seq<char>
    decreases s.len(),
{
    if s.len() > 0 && is_ws(s[0]) {
        trim_start(s.drop_first())
    } else {
        s
    }
}

/// `s` without its trailing whitespace.
pub open spec fn trim_end(s: Seq<char>) -> Seq<char>
    decreases s.len(),
{
    if s.len() > 0 && is_ws(s.last()) {
        trim_end(s.drop_last())
    } else {
        s
    }
}

/// `s` without leading and trailing whitespace (`str::trim`).
pub open spec fn spec_trim(s: Seq<char>) -> Seq<char> {
    trim_end(trim_start(s))
}

/// `s` without leading and trailing whitespace.
pub fn trim(s: &str) -> (r: String)
    ensures
        r@ == spec_trim(s@),
{
    let cs = chars_of(s);
    let n = cs.len();
    let mut i: usize = 0;
    assert(s@.subrange(0, n as int) =~= s@);
    while i < n && char_is_ws(cs[i])
        invariant
            n == cs@.len(),
            cs@ == s@,
            i <= n,
            trim_start(s@) == trim_start(s@.subrange(i as int, n as int)),
        decreases n - i,
    {
        assert(s@.subrange(i as int, n as int).drop_first() =~= s@.subrange(i + 1, n as int));
        i = i + 1;
    }
    assert(trim_start(s@.subrange(i as int, n as int)) == s@.subrange(i as int, n as int));
    let mut j: usize = n;
    while j > i && char_is_ws(cs[j - 1])
        invariant
            n == cs@.len(),
            cs@ == s@,
            i <= j <= n,
            trim_end(s@.subrange(i as int, n as int)) == trim_end(s@.subrange(i as int, j as int)),
        decreases j,
    {
        assert(s@.subrange(i as int, j as int).drop_last() =~= s@.subrange(i as int, j - 1));
        j = j - 1;
    }
    assert(trim_end(s@.subrange(i as int, j as int)) == s@.subrange(i as int, j as int));
    string_of_range(cs.as_slice(), i, j)
}

// ════════════════════════════════════════════════════════════════
// Folder paths
// ════════════════════════════════════════════════════════════════

/// A folder path as stored: trimmed, and starting with `/` unless it is the
/// root (the empty text).
pub open spec fn spec_normalize_folder_path(p: Seq<char>) -> Seq<char> {
    let t = spec_trim(p);
    if t.len() == 0 {
        Seq::empty()
    } else if t[0] == '/' {
        t
    } else {
        seq!['/'] + t
    }
}

/// Normalises a folder path: "曾国藩专题" → "/曾国藩专题", "/A/B" → "/A/B",
/// blank → "".
pub fn normalize_folder_path(path: &str) -> (r: String)
    ensures
        r@ == spec_normalize_folder_path(path@),
{
    let t = trim(path);
    let cs = chars_of(t.as_str());
    if cs.len() == 0 {
        return String::new();
    }
    if cs[0] == '/' {
        t
    } else {
        let mut r = String::new();
        string_push(&mut r, '/');
        r.append(t.as_str());
        assert(r@ =~= seq!['/'] + t@);
        r
    }
}

/// `s` without its trailing slashes.
pub open spec fn strip_trailing_slashes(s: Seq<char>) -> Seq<char>
    decreases s.len(),
{
    if s.len() > 0 && s.last() == '/' {
        strip_trailing_slashes(s.drop_last())
    } else {
        s
    }
}

/// The position of the last `/` of `s`.
pub open spec fn last_slash(s: Seq<char>) -> Option<int>
    decreases s.len(),
{
    if s.len() == 0 {
        None
    } else if s.last() == '/' {
        Some(s.len() - 1)
    } else {
        last_slash(s.drop_last())
    }
}

/// The name and the parent of a folder path: "/A/B" → ("B", Some("/A")),
/// "/A" → ("A", None), "" → ("", None). Trailing slashes are ignored.
pub open spec fn spec_split_folder_path(path: Seq<char>) -> (Seq<char>, Option<Seq<char>>) {
    let p = strip_trailing_slashes(path);
    if p.len() == 0 || p == seq!['/'] {
        (Seq::empty(), None)
    } else {
        let t = if p[0] == '/' {
            p.drop_first()
        } else {
            p
        };
        match last_slash(t) {
            Some(k) => (t.skip(k + 1), Some(seq!['/'] + t.take(k))),
            None => (t, None),
        }
    }
}

pub open spec fn opt_view(o: Option<String>) -> Option<Seq<char>> {
    match o {
        Some(s) => Some(s@),
        None => None,
    }
}

proof fn lemma_trim_start_first(s: Seq<char>)
    ensures
        trim_start(s).len() > 0 ==> !is_ws(trim_start(s)[0]),
    decreases s.len(),
{
    if s.len() > 0 && is_ws(s[0]) {
        lemma_trim_start_first(s.drop_first());
    }
}

proof fn lemma_trim_end_shape(s: Seq<char>)
    ensures
        trim_end(s).len() <= s.len(),
        trim_end(s) == s.take(trim_end(s).len() as int),
        trim_end(s).len() > 0 ==> !is_ws(trim_end(s).last()),
    decreases s.len(),
{
    if s.len() > 0 && is_ws(s.last()) {
        lemma_trim_end_shape(s.drop_last());
        assert(s.drop_last().take(trim_end(s).len() as int) =~= s.take(trim_end(s).len() as int));
    } else {
        assert(s.take(s.len() as int) =~= s);
    }
}

/// Trimming leaves a text without whitespace at either end.
proof fn lemma_trim_ends(p: Seq<char>)
    ensures
        spec_trim(p).len() > 0 ==> !is_ws(spec_trim(p)[0]) && !is_ws(spec_trim(p).last()),
{
    lemma_trim_start_first(p);
    lemma_trim_end_shape(trim_start(p));
    let t = spec_trim(p);
    if t.len() > 0 {
        assert(t[0] == trim_start(p)[0]);
    }
}

/// A text without whitespace at its ends trims to itself.
proof fn lemma_trim_fixed(s: Seq<char>)
    requires
        s.len() > 0,
        !is_ws(s[0]),
        !is_ws(s.last()),
    ensures
        spec_trim(s) == s,
{
}

/// Normalising a folder path twice changes nothing more than once.
pub proof fn law_normalize_idempotent(p: Seq<char>)
    ensures
        spec_normalize_folder_path(spec_normalize_folder_path(p)) == spec_normalize_folder_path(p),
{
    let t = spec_trim(p);
    lemma_trim_ends(p);
    if t.len() == 0 {
        let e = Seq::<char>::empty();
        assert(spec_trim(e) == e);
    } else if t[0] == '/' {
        lemma_trim_fixed(t);
    } else {
        let u = seq!['/'] + t;
        assert(u[0] == '/');
        assert(u.last() == t.last());
        assert(!is_ws('/'));
        lemma_trim_fixed(u);
    }
}

proof fn lemma_last_slash(s: Seq<char>)
    ensures
        match last_slash(s) {
            Some(k) => 0 <= k < s.len() && s[k] == '/' && forall|j: int| k < j < s.len() ==> s[j] != '/',
            None => forall|j: int| 0 <= j < s.len() ==> s[j] != '/',
        },
    decreases s.len(),
{
    if s.len() > 0 && s.last() != '/' {
        let d = s.drop_last();
        lemma_last_slash(d);
        assert forall|j: int| 0 <= j < d.len() implies d[j] == s[j] by {}
        match last_slash(d) {
            Some(k) => {
                assert forall|j: int| k < j < s.len() implies s[j] != '/' by {
                    if j < d.len() {
                        assert(d[j] == s[j]);
                    }
                }
            },
            None => {
                assert forall|j: int| 0 <= j < s.len() implies s[j] != '/' by {
                    if j < d.len() {
                        assert(d[j] == s[j]);
                    }
                }
            },
        }
    }
}

/// A folder path (starting with `/`, not ending with one) is its parent, a
/// `/` and its name, or, at the top level, a `/` and its name; the name holds
/// no `/`.
pub proof fn law_split_rejoins(p: Seq<char>)
    requires
        p.len() > 1,
        p[0] == '/',
        p.last() != '/',
    ensures
        ({
            let (name, parent) = spec_split_folder_path(p);
            &&& forall|j: int| 0 <= j < name.len() ==> name[j] != '/'
            &&& match parent {
                Some(q) => q + seq!['/'] + name == p,
                None => seq!['/'] + name == p,
            }
        }),
{
    assert(strip_trailing_slashes(p) == p);
    let t = p.drop_first();
    assert(p != seq!['/']) by {
        assert(p.len() != 1);
    }
    lemma_last_slash(t);
    match last_slash(t) {
        Some(k) => {
            let name = t.skip(k + 1);
            assert forall|j: int| 0 <= j < name.len() implies name[j] != '/' by {
                assert(name[j] == t[k + 1 + j]);
            }
            assert(seq!['/'] + t.take(k) + seq!['/'] + name =~= p);
        },
        None => {
            assert(seq!['/'] + t =~= p);
        },
    }
}

/// Splits a folder path into its name and its parent path.
pub fn split_folder_path(path: &str) -> (r: (String, Option<String>))
    ensures
        (r.0@, opt_view(r.1)) == spec_split_folder_path(path@),
{
    let cs = chars_of(path);
    let mut e: usize = cs.len();
    assert(path@.take(e as int) =~= path@);
    while e > 0 && cs[e - 1] == '/'
        invariant
            cs@ == path@,
            e <= cs@.len(),
            strip_trailing_slashes(path@) == strip_trailing_slashes(path@.take(e as int)),
        decreases e,
    {
        assert(path@.take(e as int).drop_last() =~= path@.take(e - 1));
        e = e - 1;
    }
    let ghost p = path@.take(e as int);
    assert(strip_trailing_slashes(p) == p);
    if e == 0 || (e == 1 && cs[0] == '/') {
        proof {
            if e == 1 {
                assert(p =~= seq!['/']);
            }
        }
        return (String::new(), None);
    }
    assert(p != seq!['/']) by {
        if p == seq!['/'] {
            assert(p.len() == 1 && p[0] == '/');
        }
    }
    let start: usize = if cs[0] == '/' {
        1
    } else {
        0
    };
    let ghost t = p.skip(start as int);
    assert(t =~= (if p[0] == '/' {
        p.drop_first()
    } else {
        p
    }));
    let mut k: usize = e;
    assert(t.take(k - start) =~= t);
    while k > start && cs[k - 1] != '/'
        invariant
            cs@ == path@,
            start <= k <= e <= cs@.len(),
            p == path@.take(e as int),
            t == p.skip(start as int),
            last_slash(t) == last_slash(t.take(k - start)),
        decreases k,
    {
        assert(t.take(k - start).drop_last() =~= t.take(k - 1 - start));
        k = k - 1;
    }
    if k == start {
        assert(t.take(0) =~= Seq::<char>::empty());
        let name = string_of_range(cs.as_slice(), start, e);
        assert(name@ =~= t);
        (name, None)
    } else {
        let idx = k - 1;
        assert(t.take(k - start).last() == '/');
        assert(last_slash(t) == Some(idx - start));
        let name = string_of_range(cs.as_slice(), k, e);
        let head = string_of_range(cs.as_slice(), start, idx);
        let parent = concat2("/", head.as_str());
        proof {
            reveal_strlit("/");
            assert(name@ =~= t.skip(idx - start + 1));
            assert(head@ =~= t.take(idx - start));
            assert("/"@ =~= seq!['/']);
        }
        (name, Some(parent))
    }
}

/// The path that a folder `p` inside `old` takes when `old` is renamed to
/// `new`: `old` itself becomes `new`; "old/sub" becomes "new/sub".
pub open spec fn spec_renamed_folder_path(p: Seq<char>, old: Seq<char>, new: Seq<char>) -> Seq<char> {
    if p == old {
        new
    } else {
        new + p.skip(old.len() as int)
    }
}

/// The two folder paths of a rename, normalised; `None` (a refusal) when
/// either is empty or both name the same folder.
pub fn rename_folder_paths(old_path: &str, new_path: &str) -> (r: Option<(String, String)>)
    ensures
        match r {
            Some((o, n)) => {
                &&& o@ == spec_normalize_folder_path(old_path@)
                &&& n@ == spec_normalize_folder_path(new_path@)
                &&& o@.len() > 0 && n@.len() > 0 && o@ != n@
            },
            None => spec_normalize_folder_path(old_path@).len() == 0
                || spec_normalize_folder_path(new_path@).len() == 0
                || spec_normalize_folder_path(old_path@) == spec_normalize_folder_path(new_path@),
        },
{
    let o = normalize_folder_path(old_path);
    let n = normalize_folder_path(new_path);
    if o.as_str().is_empty() || n.as_str().is_empty() || crate::text::str_eq(o.as_str(), n.as_str()) {
        None
    } else {
        Some((o, n))
    }
}

/// Whether path `p` lies at or below folder `old`: it starts with `old`.
pub fn lies_below(p: &str, old: &str) -> (r: bool)
    ensures
        r == (old@.len() <= p@.len() && p@.take(old@.len() as int) == old@),
{
    let pc = chars_of(p);
    let oc = chars_of(old);
    if oc.len() > pc.len() {
        return false;
    }
    let mut i: usize = 0;
    while i < oc.len()
        invariant
            pc@ == p@,
            oc@ == old@,
            oc@.len() <= pc@.len(),
            i <= oc@.len(),
            forall|j: int| 0 <= j < i ==> pc@[j] == oc@[j],
        decreases oc@.len() - i,
    {
        if pc[i] != oc[i] {
            assert(p@.take(old@.len() as int)[i as int] != old@[i as int]);
            return false;
        }
        i = i + 1;
    }
    assert(p@.take(old@.len() as int) =~= old@);
    true
}

/// Rewrites a folder path under a renamed folder.
pub fn renamed_folder_path(p: &str, old: &str, new: &str) -> (r: String)
    requires
        old@.len() <= p@.len(),
        p@.take(old@.len() as int) == old@,
    ensures
        r@ == spec_renamed_folder_path(p@, old@, new@),
{
    let pc = chars_of(p);
    let oc = chars_of(old);
    if crate::text::chars_eq(pc.as_slice(), oc.as_slice()) {
        new.to_owned()
    } else {
        let rest = string_of_range(pc.as_slice(), oc.len(), pc.len());
        assert(rest@ =~= p@.skip(old@.len() as int));
        concat2(new, rest.as_str())
    }
}

/// Renaming a folder and then renaming it back gives every path below it
/// back unchanged.
pub proof fn law_rename_folder_round_trip(p: Seq<char>, old: Seq<char>, new: Seq<char>)
    requires
        old.len() <= p.len(),
        p.take(old.len() as int) == old,
    ensures
        ({
            let q = spec_renamed_folder_path(p, old, new);
            &&& new.len() <= q.len()
            &&& q.take(new.len() as int) == new
            &&& spec_renamed_folder_path(q, new, old) == p
        }),
{
    let q = spec_renamed_folder_path(p, old, new);
    if p == old {
        assert(q.take(new.len() as int) =~= new);
    } else {
        let rest = p.skip(old.len() as int);
        assert(q.take(new.len() as int) =~= new);
        assert(q.skip(new.len() as int) =~= rest);
        assert(rest.len() > 0) by {
            if rest.len() == 0 {
                assert(p =~= p.take(old.len() as int));
            }
        }
        assert(q != new);
        assert(old + rest =~= p) by {
            assert(p.take(old.len() as int) + p.skip(old.len() as int) =~= p);
        }
    }
}

/// A character as it stands in a `LIKE` pattern whose escape character is
/// `\`: the wildcards `%` and `_` and the escape itself are escaped.
pub open spec fn like_literal_char(c: char) -> Seq<char> {
    if c == '%' || c == '_' || c == '\\' {
        seq!['\\', c]
    } else {
        seq![c]
    }
}

/// A text as a `LIKE` pattern (escape `\`) that matches that text only.
pub open spec fn like_literal(s: Seq<char>) -> Seq<char>
    decreases s.len(),
{
    if s.len() == 0 {
        Seq::empty()
    } else {
        like_literal(s.drop_last()) + like_literal_char(s.last())
    }
}

/// Escaping goes character by character: a text with no `%`, `_` or `\`
/// is its own pattern, each of those three is preceded by `\`, and the
/// pattern of two texts joined is the two patterns joined.
pub proof fn law_like_literal(a: Seq<char>, b: Seq<char>, c: char)
    ensures
        like_literal(a + b) == like_literal(a) + like_literal(b),
        (forall|i: int| 0 <= i < a.len() ==> #[trigger] a[i] != '%' && a[i] != '_' && a[i] != '\\')
            ==> like_literal(a) == a,
        (c == '%' || c == '_' || c == '\\') ==> like_literal(seq![c]) == seq!['\\', c],
        !(c == '%' || c == '_' || c == '\\') ==> like_literal(seq![c]) == seq![c],
    decreases b.len(),
{
    assert(seq![c].drop_last() =~= Seq::<char>::empty());
    assert(like_literal(Seq::<char>::empty()) =~= Seq::<char>::empty());
    if b.len() == 0 {
        assert(a + b =~= a);
    } else {
        law_like_literal(a, b.drop_last(), c);
        assert((a + b).drop_last() =~= a + b.drop_last());
        assert((a + b).last() == b.last());
    }
    if forall|i: int| 0 <= i < a.len() ==> #[trigger] a[i] != '%' && a[i] != '_' && a[i] != '\\' {
        lemma_like_literal_plain(a);
    }
}

proof fn lemma_like_literal_plain(a: Seq<char>)
    requires
        forall|i: int| 0 <= i < a.len() ==> #[trigger] a[i] != '%' && a[i] != '_' && a[i] != '\\',
    ensures
        like_literal(a) == a,
    decreases a.len(),
{
    if a.len() > 0 {
        let r = a.drop_last();
        assert forall|i: int| 0 <= i < r.len() implies #[trigger] r[i] != '%' && r[i] != '_' && r[i]
            != '\\' by {
            assert(r[i] == a[i]);
        }
        lemma_like_literal_plain(r);
        assert(a[a.len() - 1] == a.last());
        assert(r.push(a.last()) =~= a);
    }
}

/// The SQL `LIKE` pattern (escape `\`) for everything inside a folder: the
/// folder's path taken literally, then `/%`. A `%` or `_` in a folder's name
/// matches itself only, so no other folder's contents match.
pub fn inside_folder_pattern(folder: &str) -> (r: String)
    ensures
        r@ == like_literal(folder@) + "/%"@,
{
    let cs = chars_of(folder);
    let mut out = String::new();
    let mut i: usize = 0;
    while i < cs.len()
        invariant
            cs@ == folder@,
            i <= cs@.len(),
            out@ == like_literal(cs@.take(i as int)),
        decreases cs@.len() - i,
    {
        let c = cs[i];
        let ghost before = out@;
        if c == '%' || c == '_' || c == '\\' {
            string_push(&mut out, '\\');
        }
        string_push(&mut out, c);
        assert(cs@.take(i + 1).drop_last() =~= cs@.take(i as int));
        assert(out@ =~= before + like_literal_char(c));
        i = i + 1;
    }
    assert(cs@.take(cs@.len() as int) =~= cs@);
    out.append("/%");
    out
}

/// Whether a folder argument names the root: none given, or "/".
pub fn is_root_folder(folder: Option<&str>) -> (r: bool)
    ensures
        r == (match folder {
            None => true,
            Some(f) => f@ == seq!['/'],
        }),
{
    match folder {
        None => true,
        Some(f) => {
            let cs = chars_of(f);
            let r = cs.len() == 1 && cs[0] == '/';
            proof {
                if r {
                    assert(f@ =~= seq!['/']);
                }
            }
            r
        },
    }
}

/// Where an uploaded document is filed: an upload from a conversation goes to
/// "/Inbox"; a library upload goes to the given folder, normalised, or to the
/// root when none (or a blank one) is given.
pub fn upload_folder(conversation_id: &Option<String>, folder_path: &Option<String>) -> (r: Option<String>)
    ensures
        opt_view(r) == (if conversation_id is Some {
            Some("/Inbox"@)
        } else {
            match folder_path {
                None => None,
                Some(f) => if spec_normalize_folder_path(f@).len() == 0 {
                    None
                } else {
                    Some(spec_normalize_folder_path(f@))
                },
            }
        }),
{
    if conversation_id.is_some() {
        return Some("/Inbox".to_owned());
    }
    match folder_path {
        None => None,
        Some(f) => {
            let n = normalize_folder_path(f.as_str());
            if chars_of(n.as_str()).len() == 0 {
                None
            } else {
                Some(n)
            }
        },
    }
}

// ════════════════════════════════════════════════════════════════
// Text windows
// ════════════════════════════════════════════════════════════════

/// The characters of `t` from `offset` (none: the start), at most `limit` of
/// them (none: all the rest).
pub open spec fn spec_text_window(t: Seq<char>, offset: Option<usize>, limit: Option<usize>) -> Seq<char> {
    let a: int = match offset {
        Some(o) => if o < t.len() {
            o as int
        } else {
            t.len() as int
        },
        None => 0,
    };
    let b: int = match limit {
        Some(l) => if a + l < t.len() {
            a + l
        } else {
            t.len() as int
        },
        None => t.len() as int,
    };
    t.subrange(a, b)
}

/// A window lies inside the text: it is the text from the offset on (the
/// start when none is given, the end when the offset is past it), cut to
/// the limit when one is given; no offset and no limit give the whole text.
pub proof fn law_text_window(t: Seq<char>, offset: Option<usize>, limit: Option<usize>)
    ensures
        spec_text_window(t, None, None) == t,
        offset matches Some(o) ==> (o <= t.len() ==> spec_text_window(t, offset, None) == t.skip(o as int)),
        offset matches Some(o) ==> (limit matches Some(l) ==> (o + l <= t.len() ==> spec_text_window(
            t,
            offset,
            limit,
        ) == t.subrange(o as int, o + l))),
        limit matches Some(l) ==> spec_text_window(t, offset, limit).len() <= l,
        offset matches Some(o) ==> (o >= t.len() ==> spec_text_window(t, offset, limit).len() == 0),
{
    assert(t.subrange(0, t.len() as int) =~= t);
    if let Some(o) = offset {
        if o <= t.len() {
            assert(t.subrange(o as int, t.len() as int) =~= t.skip(o as int));
        }
    }
}

/// A window of a document's text, counted in characters.
pub fn text_window(text: &str, offset: Option<usize>, limit: Option<usize>) -> (r: String)
    ensures
        r@ == spec_text_window(text@, offset, limit),
{
    let cs = chars_of(text);
    let n = cs.len();
    let a: usize = match offset {
        Some(o) => if o < n {
            o
        } else {
            n
        },
        None => 0,
    };
    let b: usize = match limit {
        Some(l) => if l < n - a {
            a + l
        } else {
            n
        },
        None => n,
    };
    string_of_range(cs.as_slice(), a, b)
}

/// A text cut to `max` characters, with "…" appended when it was longer.
pub open spec fn spec_truncate(s: Seq<char>, max: nat) -> Seq<char> {
    if s.len() <= max {
        s
    } else {
        s.take(max as int).push('…')
    }
}

/// A text of at most `max` characters is kept whole; a longer one keeps its
/// first `max` characters, then "…".
pub proof fn law_truncate(s: Seq<char>, max: nat)
    ensures
        s.len() <= max ==> spec_truncate(s, max) == s,
        s.len() > max ==> spec_truncate(s, max).len() == max + 1 && spec_truncate(s, max).take(max as int)
            == s.take(max as int) && spec_truncate(s, max).last() == '…',
{
    if s.len() > max {
        assert(spec_truncate(s, max).take(max as int) =~= s.take(max as int));
    }
}

/// Cuts a text to `max` characters and marks the cut with "…".
pub fn truncate(s: &str, max: usize) -> (r: String)
    ensures
        r@ == spec_truncate(s@, max as nat),
{
    let cs = chars_of(s);
    if cs.len() <= max {
        s.to_owned()
    } else {
        let mut t = string_of_range(cs.as_slice(), 0, max);
        string_push(&mut t, '…');
        assert(s@.subrange(0, max as int) =~= s@.take(max as int));
        t
    }
}

// ════════════════════════════════════════════════════════════════
// JSON string lists
// ════════════════════════════════════════════════════════════════

/// What `serde_json::from_str::<Vec<String>>` gives for a text: the strings of
/// a JSON array of strings, or `None` when the text is not one.
pub uninterp spec fn json_string_array(s: Seq<char>) -> Option<Seq<Seq<char>>>;

/// `serde_json::from_str::<Vec<String>>`. Claimed: the named result; the
/// parse depends on the text alone.
#[verifier::external_body]
fn parse_string_array(s: &str) -> (r: Option<Vec<String>>)
    ensures
        match r {
            Some(v) => json_string_array(s@) == Some(strs(v@)),
            None => json_string_array(s@) is None,
        },
{
    serde_json::from_str::<Vec<String>>(s).ok()
}

/// The list stored in a JSON column: none, a blank text or a text that is not
/// a JSON array of strings give the empty list.
pub open spec fn spec_json_str_array(json: Option<Seq<char>>) -> Seq<Seq<char>> {
    match json {
        None => Seq::empty(),
        Some(s) => if spec_trim(s).len() == 0 {
            Seq::empty()
        } else {
            match json_string_array(s) {
                Some(v) => v,
                None => Seq::empty(),
            }
        },
    }
}

/// Reads a JSON array of strings such as `["/A", "/B"]`.
pub fn parse_json_str_array(json: Option<&str>) -> (r: Vec<String>)
    ensures
        strs(r@) == spec_json_str_array(match json {
            Some(s) => Some(s@),
            None => None,
        }),
{
    match json {
        None => {
            let v: Vec<String> = Vec::new();
            assert(strs(v@) =~= Seq::<Seq<char>>::empty());
            v
        },
        Some(s) => {
            let t = trim(s);
            if chars_of(t.as_str()).len() == 0 {
                let v: Vec<String> = Vec::new();
                assert(strs(v@) =~= Seq::<Seq<char>>::empty());
                return v;
            }
            match parse_string_array(s) {
                Some(v) => v,
                None => {
                    let v: Vec<String> = Vec::new();
                    assert(strs(v@) =~= Seq::<Seq<char>>::empty());
                    v
                },
            }
        },
    }
}

/// A lower-case hexadecimal digit.
pub open spec fn is_lower_hex(c: char) -> bool {
    ('0' <= c && c <= '9') || ('a' <= c && c <= 'f')
}

/// The text of a version-4 UUID: 36 characters, hyphens at 8, 13, 18 and 23,
/// lower-case hex digits elsewhere, the version digit `4` at 14 and the
/// variant digit (one of `8`, `9`, `a`, `b`) at 19.
pub open spec fn is_uuid_v4_text(s: Seq<char>) -> bool {
    &&& s.len() == 36
    &&& forall|i: int|
        0 <= i < 36 ==> if i == 8 || i == 13 || i == 18 || i == 23 {
            s[i] == '-'
        } else {
            is_lower_hex(#[trigger] s[i])
        }
    &&& s[14] == '4'
    &&& (s[19] == '8' || s[19] == '9' || s[19] == 'a' || s[19] == 'b')
}

/// The hyphenated lower-case text of the version-4 UUID that
/// `uuid::Builder::from_random_bytes` makes of sixteen bytes.
pub uninterp spec fn uuid_v4_text(bytes: Seq<u8>) -> Seq<char>;

/// Sixteen bytes from the system's random source (`getrandom::fill`), or
/// `None` where that source fails. Nothing is claimed of the bytes.
#[verifier::external_body]
fn random_16_bytes() -> (r: Option<[u8; 16]>) {
    let mut b = [0u8; 16];
    match getrandom::fill(&mut b) {
        Ok(()) => Some(b),
        Err(_) => None,
    }
}

/// `uuid::Builder::from_random_bytes(bytes).into_uuid().to_string()`: a
/// function of the bytes alone, named `uuid_v4_text`. Claimed besides: its
/// shape, which `from_random_bytes` gives every outcome by setting the
/// version nibble to 4 and the variant bits to `10`, and which `Display`
/// writes hyphenated in lower case.
#[verifier::external_body]
fn uuid_v4_from_bytes(bytes: [u8; 16]) -> (r: String)
    ensures
        r@ == uuid_v4_text(bytes@),
        is_uuid_v4_text(r@),
{
    uuid::Builder::from_random_bytes(bytes).into_uuid().to_string()
}

/// A new document id: a fresh random UUID v4 in its hyphenated text form,
/// or `None` when the system's random source fails.
pub fn new_document_id() -> (r: Option<String>)
    ensures
        r matches Some(s) ==> is_uuid_v4_text(s@) && exists|b: Seq<u8>|
            b.len() == 16 && s@ == uuid_v4_text(b),
{
    match random_16_bytes() {
        None => None,
        Some(bytes) => {
            let s = uuid_v4_from_bytes(bytes);
            assert(bytes@.len() == 16);
            Some(s)
        },
    }
}

/// The mounted documents that are still stored: a mount whose document was
/// deleted reads back with an empty path and is left out.
pub fn present_mounts(rows: Vec<MountedDoc>) -> (r: Vec<MountedDoc>)
    ensures
        r@ == rows@.filter(|d: MountedDoc| d.path@.len() > 0),
{
    let ghost orig = rows@;
    let ghost keep = |d: MountedDoc| d.path@.len() > 0;
    let mut out: Vec<MountedDoc> = Vec::new();
    let mut rest = rows;
    let n = rest.len();
    let mut i: usize = 0;
    assert(orig.take(0).filter(keep) =~= Seq::<MountedDoc>::empty());
    assert(orig.skip(0) =~= orig);
    while i < n
        invariant
            n == orig.len(),
            i <= n,
            rest@ == orig.skip(i as int),
            out@ == orig.take(i as int).filter(keep),
            keep == (|d: MountedDoc| d.path@.len() > 0),
        decreases n - i,
    {
        let d = rest.remove(0);
        assert(d == orig[i as int]);
        assert(rest@ =~= orig.skip(i + 1));
        proof {
            orig.take(i as int).lemma_filter_push(orig[i as int], keep);
            assert(orig.take(i + 1) =~= orig.take(i as int).push(orig[i as int]));
        }
        if crate::text::chars_of(d.path.as_str()).len() > 0 {
            out.push(d);
        }
        i = i + 1;
    }
    assert(orig.take(n as int) =~= orig);
    out
}

// ════════════════════════════════════════════════════════════════
// The documents of an active scope
// ════════════════════════════════════════════════════════════════

/// The texts of `s` that are not in `seen`, each once, in order of first
/// occurrence.
pub open spec fn dedup_from(seen: Seq<Seq<char>>, s: Seq<Seq<char>>) -> Seq<Seq<char>>
    decreases s.len(),
{
    if s.len() == 0 {
        Seq::empty()
    } else if seen.contains(s[0]) {
        dedup_from(seen, s.drop_first())
    } else {
        seq![s[0]] + dedup_from(seen.push(s[0]), s.drop_first())
    }
}

/// No text occurs twice.
pub open spec fn no_duplicates(s: Seq<Seq<char>>) -> bool {
    forall|i: int, j: int| 0 <= i < j < s.len() ==> s[i] != s[j]
}

proof fn lemma_dedup_from(seen: Seq<Seq<char>>, s: Seq<Seq<char>>)
    ensures
        no_duplicates(dedup_from(seen, s)),
        forall|x: Seq<char>|
            dedup_from(seen, s).contains(x) <==> (s.contains(x) && !seen.contains(x)),
    decreases s.len(),
{
    if s.len() > 0 {
        let rest = s.drop_first();
        if seen.contains(s[0]) {
            lemma_dedup_from(seen, rest);
            assert forall|x: Seq<char>|
                dedup_from(seen, s).contains(x) <==> (s.contains(x) && !seen.contains(x)) by {
                if s.contains(x) && !seen.contains(x) {
                    let k = choose|k: int| 0 <= k < s.len() && s[k] == x;
                    assert(k != 0);
                    assert(rest[k - 1] == x);
                }
                if rest.contains(x) {
                    let k = choose|k: int| 0 <= k < rest.len() && rest[k] == x;
                    assert(s[k + 1] == x);
                }
            }
        } else {
            let seen2 = seen.push(s[0]);
            lemma_dedup_from(seen2, rest);
            let d = dedup_from(seen2, rest);
            let r = seq![s[0]] + d;
            assert(r == dedup_from(seen, s));
            assert(!d.contains(s[0])) by {
                assert(seen2.contains(s[0])) by {
                    assert(seen2[seen.len() as int] == s[0]);
                }
            }
            assert forall|i: int, j: int| 0 <= i < j < r.len() implies r[i] != r[j] by {
                if i == 0 {
                    assert(r[j] == d[j - 1]);
                } else {
                    assert(r[i] == d[i - 1] && r[j] == d[j - 1]);
                }
            }
            assert forall|x: Seq<char>| r.contains(x) <==> (s.contains(x) && !seen.contains(x)) by {
                if r.contains(x) {
                    let k = choose|k: int| 0 <= k < r.len() && r[k] == x;
                    if k == 0 {
                        assert(s[0] == x);
                    } else {
                        assert(d[k - 1] == x);
                        assert(d.contains(x));
                        assert(rest.contains(x) && !seen2.contains(x));
                        let m = choose|m: int| 0 <= m < rest.len() && rest[m] == x;
                        assert(s[m + 1] == x);
                        assert(!seen2.contains(x));
                        assert forall|q: int| 0 <= q < seen.len() implies seen[q] != x by {
                            assert(seen2[q] == seen[q]);
                        }
                    }
                }
                if s.contains(x) && !seen.contains(x) {
                    if x == s[0] {
                        assert(r[0] == x);
                    } else {
                        let k = choose|k: int| 0 <= k < s.len() && s[k] == x;
                        assert(k != 0);
                        assert(rest[k - 1] == x);
                        assert(!seen2.contains(x)) by {
                            if seen2.contains(x) {
                                let q = choose|q: int| 0 <= q < seen2.len() && seen2[q] == x;
                                if q < seen.len() {
                                    assert(seen[q] == x);
                                }
                            }
                        }
                        assert(d.contains(x));
                        let m = choose|m: int| 0 <= m < d.len() && d[m] == x;
                        assert(r[m + 1] == x);
                    }
                }
            }
        }
    }
}

/// Each path of the active scope once: the paths of the documents filed in
/// its folders and those of the documents mounted on the conversation.
pub fn active_doc_paths(folder_docs: &Vec<String>, mounted: &Vec<String>) -> (r: Vec<String>)
    ensures
        strs(r@) == dedup_from(Seq::empty(), strs(folder_docs@) + strs(mounted@)),
{
    let ghost all = strs(folder_docs@) + strs(mounted@);
    let mut out: Vec<String> = Vec::new();
    let na = folder_docs.len();
    let nb = mounted.len();
    let mut i: usize = 0;
    assert(all.skip(0) =~= all);
    assert(strs(out@) =~= Seq::<Seq<char>>::empty());
    while i < na
        invariant
            na == folder_docs@.len(),
            nb == mounted@.len(),
            all == strs(folder_docs@) + strs(mounted@),
            i <= na,
            strs(out@) + dedup_from(strs(out@), all.skip(i as int)) == dedup_from(Seq::empty(), all),
        decreases na - i,
    {
        let ghost before = strs(out@);
        assert(all.skip(i as int)[0] == all[i as int]);
        assert(all.skip(i as int).drop_first() =~= all.skip(i + 1));
        let p = folder_docs[i].clone();
        assert(p@ == all[i as int]);
        if !crate::store::contains_string(&out, &p) {
            out.push(p);
            proof {
                assert(strs(out@) =~= before.push(all[i as int]));
                assert(before.push(all[i as int]) + dedup_from(strs(out@), all.skip(i + 1)) =~= before
                    + (seq![all[i as int]] + dedup_from(before.push(all[i as int]), all.skip(i + 1))));
            }
        }
        i = i + 1;
    }
    let mut j: usize = 0;
    while j < nb
        invariant
            na == folder_docs@.len(),
            nb == mounted@.len(),
            all == strs(folder_docs@) + strs(mounted@),
            j <= nb,
            strs(out@) + dedup_from(strs(out@), all.skip(na + j)) == dedup_from(Seq::empty(), all),
        decreases nb - j,
    {
        let ghost before = strs(out@);
        let ghost k: int = na + j;
        assert(all.skip(k)[0] == all[k]);
        assert(all.skip(k).drop_first() =~= all.skip(k + 1));
        let p = mounted[j].clone();
        assert(p@ == all[k]);
        if !crate::store::contains_string(&out, &p) {
            out.push(p);
            proof {
                assert(strs(out@) =~= before.push(all[k]));
                assert(before.push(all[k]) + dedup_from(strs(out@), all.skip(k + 1)) =~= before + (
                seq![all[k]] + dedup_from(before.push(all[k]), all.skip(k + 1))));
            }
        }
        j = j + 1;
    }
    assert(all.skip(na + nb) =~= Seq::<Seq<char>>::empty());
    assert(strs(out@) + Seq::<Seq<char>>::empty() =~= strs(out@));
    out
}

/// The active scope's paths hold each path once, and exactly the paths of the
/// folders' documents and of the mounted documents.
pub proof fn law_active_doc_paths_are_the_union(a: Seq<Seq<char>>, b: Seq<Seq<char>>)
    ensures
        no_duplicates(dedup_from(Seq::empty(), a + b)),
        forall|x: Seq<char>|
            dedup_from(Seq::empty(), a + b).contains(x) <==> (a.contains(x) || b.contains(x)),
{
    lemma_dedup_from(Seq::empty(), a + b);
    assert forall|x: Seq<char>| (a + b).contains(x) <==> (a.contains(x) || b.contains(x)) by {
        if a.contains(x) {
            let k = choose|k: int| 0 <= k < a.len() && a[k] == x;
            assert((a + b)[k] == x);
        }
        if b.contains(x) {
            let k = choose|k: int| 0 <= k < b.len() && b[k] == x;
            assert((a + b)[a.len() + k] == x);
        }
        if (a + b).contains(x) {
            let k = choose|k: int| 0 <= k < (a + b).len() && (a + b)[k] == x;
            if k < a.len() {
                assert(a[k] == x);
            } else {
                assert(b[k - a.len()] == x);
            }
        }
    }
}

} // verus!
