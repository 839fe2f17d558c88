//! Unix path handling: joining a relative part onto a base path, and
//! splitting a path into its components.

use vstd::prelude::*;
use crate::text::{chars_of, push_char};

verus! {

/// What `std::path::PathBuf::join` yields on Unix: an absolute `part`
/// replaces `base`; otherwise a `/` goes between them unless `base` is
/// empty or already ends with one.
pub open spec fn spec_join(base: Seq<char>, part: Seq<char>) -> Seq<char> {
    if part.len() > 0 && part[0] == '/' {
        part
    } else if base.len() > 0 && base.last() != '/' {
        base + seq!['/'] + part
    } else {
        base + part
    }
}

/// Joins `part` onto `base` as a Unix path.
pub fn join_path(base: &str, part: &str) -> (joined: String)
    ensures
        joined@ == spec_join(base@, part@),
{
    let plen = part.unicode_len();
    if plen > 0 && part.get_char(0) == '/' {
        return String::from_str(part);
    }
    let blen = base.unicode_len();
    let mut s = String::from_str(base);
    if blen > 0 && base.get_char(blen - 1) != '/' {
        push_char(&mut s, '/');
    }
    s.append(part);
    s
}


/// Whether a piece between separators is a normal component: empty pieces
/// (from repeated `/`) and `.` pieces are dropped.
pub open spec fn kept(piece: Seq<char>) -> bool {
    piece.len() > 0 && piece != seq!['.']
}

/// The piece as a list of at most one component.
pub open spec fn flush(piece: Seq<char>) -> Seq<Seq<char>> {
    if kept(piece) {
        seq![piece]
    } else {
        seq![]
    }
}

/// The components of `rest`, read after the characters of `cur`, splitting
/// at every `/`.
pub open spec fn split_parts(rest: Seq<char>, cur: Seq<char>) -> Seq<Seq<char>>
    decreases rest.len(),
{
    if rest.len() == 0 {
        flush(cur)
    } else if rest[0] == '/' {
        flush(cur) + split_parts(rest.drop_first(), seq![])
    } else {
        split_parts(rest.drop_first(), cur.push(rest[0]))
    }
}

/// Whether the path starts with a `.` component (`.` alone or `./...`).
pub open spec fn starts_with_cur_dir(p: Seq<char>) -> bool {
    p.len() > 0 && p[0] == '.' && (p.len() == 1 || p[1] == '/')
}

/// The components of a Unix path, each as its text, as
/// `std::path::Path::components` gives them: a leading `/` is the root
/// component `/`; a leading `.` component is kept as `.`; after that empty
/// and `.` pieces are dropped and every other piece (`..` included) is kept.
pub open spec fn spec_components(p: Seq<char>) -> Seq<Seq<char>> {
    if p.len() > 0 && p[0] == '/' {
        seq![seq!['/']] + split_parts(p.drop_first(), seq![])
    } else if starts_with_cur_dir(p) {
        seq![seq!['.']] + split_parts(p.drop_first(), seq![])
    } else {
        split_parts(p, seq![])
    }
}

/// The texts of a list of strings.
pub open spec fn texts(v: Seq<String>) -> Seq<Seq<char>> {
    v.map_values(|s: String| s@)
}

fn is_kept(cur: &Vec<char>) -> (k: bool)
    ensures
        k == kept(cur@),
{
    if cur.len() == 0 {
        false
    } else if cur.len() == 1 && cur[0] == '.' {
        assert(cur@ =~= seq!['.']);
        false
    } else {
        assert(cur@ != seq!['.'] ) by {
            if cur@ == seq!['.'] {
                assert(cur@.len() == 1 && cur@[0] == '.');
            }
        }
        true
    }
}

/// Splits a Unix path into the texts of its components.
pub fn path_components(p: &str) -> (comps: Vec<String>)
    ensures
        texts(comps@) == spec_components(p@),
{
    let chars = chars_of(p);
    let n = chars.len();
    let mut comps: Vec<String> = Vec::new();
    let mut start: usize = 0;
    if n > 0 && chars[0] == '/' {
        let root = String::from_str("/");
        proof {
            reveal_strlit("/");
            assert(root@ =~= seq!['/']);
        }
        comps.push(root);
        start = 1;
        assert(texts(comps@) =~= seq![seq!['/']]);
    } else if n > 0 && chars[0] == '.' && (n == 1 || chars[1] == '/') {
        let here = String::from_str(".");
        proof {
            reveal_strlit(".");
            assert(here@ =~= seq!['.']);
        }
        comps.push(here);
        start = 1;
        assert(texts(comps@) =~= seq![seq!['.']]);
    } else {
        assert(texts(comps@) =~= seq![]);
    }
    assert(chars@.skip(start as int) =~= if start == 1 { p@.drop_first() } else { p@ });
    let ghost target = spec_components(p@);
    let mut cur: Vec<char> = Vec::new();
    let mut i = start;
    while i < n
        invariant
            n == chars@.len(),
            start <= i <= n,
            texts(comps@) + split_parts(chars@.skip(i as int), cur@) == target,
        decreases n - i,
    {
        let c = chars[i];
        let ghost rest = chars@.skip(i as int);
        assert(rest[0] == c);
        assert(rest.drop_first() =~= chars@.skip(i + 1));
        if c == '/' {
            let k = is_kept(&cur);
            if k {
                let piece = crate::text::string_from_chars(&cur);
                comps.push(piece);
            }
            assert(texts(comps@) + split_parts(chars@.skip(i + 1), seq![]) =~= target) by {
                assert(split_parts(rest, cur@) == flush(cur@) + split_parts(rest.drop_first(), seq![]));
            }
            cur = Vec::new();
            assert(cur@ =~= seq![]);
        } else {
            cur.push(c);
        }
        i = i + 1;
    }
    assert(chars@.skip(n as int) =~= seq![]);
    if is_kept(&cur) {
        let piece = crate::text::string_from_chars(&cur);
        comps.push(piece);
    }
    assert(texts(comps@) =~= target);
    comps
}


/// A name that is one normal path component naming an entry of its
/// directory: not empty, not `.` or `..`, and without `/`.
pub open spec fn is_plain_name(s: Seq<char>) -> bool {
    &&& kept(s)
    &&& s != seq!['.', '.']
    &&& forall|i: int| 0 <= i < s.len() ==> s[i] != '/'
}

/// Whether `s` is a plain name.
pub fn is_plain_name_text(s: &str) -> (b: bool)
    ensures
        b == is_plain_name(s@),
{
    let n = s.unicode_len();
    if n == 0 {
        return false;
    }
    if n == 1 && s.get_char(0) == '.' {
        assert(s@ =~= seq!['.']);
        return false;
    }
    if n == 2 && s.get_char(0) == '.' && s.get_char(1) == '.' {
        assert(s@ =~= seq!['.', '.']);
        return false;
    }
    assert(s@ != seq!['.']) by {
        if s@ == seq!['.'] {
            assert(s@.len() == 1 && s@[0] == '.');
        }
    }
    assert(s@ != seq!['.', '.']) by {
        if s@ == seq!['.', '.'] {
            assert(s@.len() == 2 && s@[0] == '.' && s@[1] == '.');
        }
    }
    for i in 0..n
        invariant
            n == s@.len(),
            forall|j: int| 0 <= j < i ==> s@[j] != '/',
    {
        if s.get_char(i) == '/' {
            return false;
        }
    }
    true
}

proof fn lemma_split_word(w: Seq<char>, cur: Seq<char>)
    requires
        forall|i: int| 0 <= i < w.len() ==> w[i] != '/',
    ensures
        split_parts(w, cur) == flush(cur + w),
    decreases w.len(),
{
    if w.len() == 0 {
        assert(cur + w =~= cur);
    } else {
        assert(cur.push(w[0]) + w.drop_first() =~= cur + w);
        lemma_split_word(w.drop_first(), cur.push(w[0]));
    }
}

/// A plain name splits into itself.
pub proof fn lemma_split_plain_name(w: Seq<char>)
    requires
        is_plain_name(w),
    ensures
        split_parts(w, seq![]) == seq![w],
{
    lemma_split_word(w, seq![]);
    assert(seq![] + w =~= w);
}

proof fn lemma_split_concat(a: Seq<char>, b: Seq<char>, cur: Seq<char>)
    ensures
        split_parts(a + seq!['/'] + b, cur) == split_parts(a, cur) + split_parts(b, seq![]),
    decreases a.len(),
{
    let s = a + seq!['/'] + b;
    if a.len() == 0 {
        assert(s.drop_first() =~= b);
        assert(s[0] == '/');
    } else {
        assert(s[0] == a[0]);
        assert(s.drop_first() =~= a.drop_first() + seq!['/'] + b);
        lemma_split_concat(a.drop_first(), b, if a[0] == '/' { seq![] } else { cur.push(a[0]) });
        if a[0] == '/' {
            assert(flush(cur) + (split_parts(a.drop_first(), seq![]) + split_parts(b, seq![]))
                =~= flush(cur) + split_parts(a.drop_first(), seq![]) + split_parts(b, seq![]));
        }
    }
}

proof fn lemma_components_concat(a: Seq<char>, b: Seq<char>)
    requires
        a.len() > 0,
    ensures
        spec_components(a + seq!['/'] + b) == spec_components(a) + split_parts(b, seq![]),
{
    let s = a + seq!['/'] + b;
    assert(s[0] == a[0]);
    if a[0] == '/' {
        assert(s.drop_first() =~= a.drop_first() + seq!['/'] + b);
        lemma_split_concat(a.drop_first(), b, seq![]);
        assert(seq![seq!['/']] + (split_parts(a.drop_first(), seq![]) + split_parts(b, seq![]))
            =~= seq![seq!['/']] + split_parts(a.drop_first(), seq![]) + split_parts(b, seq![]));
    } else if starts_with_cur_dir(a) {
        assert(starts_with_cur_dir(s)) by {
            if a.len() > 1 {
                assert(s[1] == a[1]);
            } else {
                assert(s[1] == '/');
            }
        }
        assert(s.drop_first() =~= a.drop_first() + seq!['/'] + b);
        lemma_split_concat(a.drop_first(), b, seq![]);
        assert(seq![seq!['.']] + (split_parts(a.drop_first(), seq![]) + split_parts(b, seq![]))
            =~= seq![seq!['.']] + split_parts(a.drop_first(), seq![]) + split_parts(b, seq![]));
    } else {
        assert(!starts_with_cur_dir(s)) by {
            if a[0] == '.' {
                assert(a.len() > 1 && a[1] != '/');
                assert(s[1] == a[1]);
            }
        }
        lemma_split_concat(a, b, seq![]);
    }
}

/// A trailing `/` adds no component.
pub proof fn lemma_components_trailing_separator(p: Seq<char>)
    requires
        p.len() > 0,
    ensures
        spec_components(p + seq!['/']) == spec_components(p),
{
    lemma_components_concat(p, seq![]);
    assert(p + seq!['/'] + seq![] =~= p + seq!['/']);
    assert(split_parts(seq![], seq![]) =~= seq![]);
    assert(spec_components(p) + split_parts(seq![], seq![]) =~= spec_components(p));
}

/// Joining a relative part onto a non-empty base adds the part's
/// components after the base's.
pub proof fn lemma_components_join(base: Seq<char>, part: Seq<char>)
    requires
        base.len() > 0,
        part.len() == 0 || part[0] != '/',
    ensures
        spec_components(spec_join(base, part)) == spec_components(base) + split_parts(
            part,
            seq![],
        ),
{
    if base.last() != '/' {
        lemma_components_concat(base, part);
    } else {
        let a = base.drop_last();
        assert(base =~= a + seq!['/'] + seq![]);
        assert(spec_join(base, part) =~= a + seq!['/'] + part);
        if a.len() > 0 {
            lemma_components_concat(a, part);
            lemma_components_concat(a, seq![]);
            assert(split_parts(seq![], seq![]) =~= seq![]);
            assert(spec_components(a) + split_parts(seq![], seq![]) =~= spec_components(a));
        } else {
            assert(base =~= seq!['/']);
            assert(spec_join(base, part) =~= seq!['/'] + part);
            assert((seq!['/'] + part).drop_first() =~= part);
            assert(base.drop_first() =~= seq![]);
            assert(spec_components(base) =~= seq![seq!['/']]);
        }
    }
}


/// The names a relative path leads through, in order: its components after
/// a leading `.`, if it has one.
pub open spec fn relative_names(p: Seq<char>) -> Seq<Seq<char>> {
    split_parts(p, seq![])
}

/// A file name that leads below the directory it is joined to: not
/// absolute, and made of one or more plain names, so none of them is `..`.
pub open spec fn is_name_below(p: Seq<char>) -> bool {
    &&& !(p.len() > 0 && p[0] == '/')
    &&& relative_names(p).len() > 0
    &&& forall|i: int|
        0 <= i < relative_names(p).len() ==> is_plain_name(#[trigger] relative_names(p)[i])
}

/// A relative path's components are its names, after a leading `.`
/// component where it starts with one.
pub proof fn lemma_relative_components(p: Seq<char>)
    requires
        !(p.len() > 0 && p[0] == '/'),
    ensures
        spec_components(p) == if starts_with_cur_dir(p) {
            seq![seq!['.']] + relative_names(p)
        } else {
            relative_names(p)
        },
{
    if starts_with_cur_dir(p) {
        let rest = p.drop_first();
        assert(seq![].push('.') =~= seq!['.']);
        assert(split_parts(p, seq![]) == split_parts(rest, seq!['.']));
        assert(flush(seq!['.']) =~= seq![]);
        assert(flush(seq![]) =~= seq![]);
        if p.len() == 1 {
            assert(rest.len() == 0);
            assert(split_parts(rest, seq!['.']) == flush(seq!['.']));
            assert(split_parts(rest, seq![]) == flush(seq![]));
        } else {
            assert(rest[0] == '/');
            let tail = split_parts(rest.drop_first(), seq![]);
            assert(split_parts(rest, seq!['.']) == flush(seq!['.']) + tail);
            assert(split_parts(rest, seq![]) == flush(seq![]) + tail);
            assert(seq![] + tail =~= tail);
        }
        assert(split_parts(p, seq![]) == split_parts(rest, seq![]));
    }
}

/// Whether `p` is a file name that leads below the directory it is joined
/// to.
pub fn is_name_below_text(p: &str) -> (b: bool)
    ensures
        b == is_name_below(p@),
{
    let n = p.unicode_len();
    if n == 0 {
        assert(split_parts(p@, seq![]) == flush(seq![]));
        assert(flush(seq![]) =~= seq![]);
        return false;
    }
    if p.get_char(0) == '/' {
        return false;
    }
    let comps = path_components(p);
    proof {
        lemma_relative_components(p@);
    }
    let start: usize = if p.get_char(0) == '.' && (n == 1 || p.get_char(1) == '/') {
        1
    } else {
        0
    };
    let ghost names = relative_names(p@);
    assert(texts(comps@).skip(start as int) =~= names);
    if comps.len() <= start {
        return false;
    }
    let mut i: usize = start;
    while i < comps.len()
        invariant
            start <= i <= comps.len(),
            names == relative_names(p@),
            texts(comps@).skip(start as int) == names,
            forall|j: int| 0 <= j < i - start ==> is_plain_name(#[trigger] names[j]),
        decreases comps.len() - i,
    {
        assert(names[i - start] == comps@[i as int]@);
        if !is_plain_name_text(comps[i].as_str()) {
            assert(!is_plain_name(names[i - start]));
            return false;
        }
        i = i + 1;
    }
    true
}


/// The relative path through the names `ws`, in order, with one `/`
/// between each two.
pub open spec fn path_through(ws: Seq<Seq<char>>) -> Seq<char>
    decreases ws.len(),
{
    if ws.len() <= 1 {
        if ws.len() == 1 {
            ws[0]
        } else {
            seq![]
        }
    } else {
        path_through(ws.drop_last()) + seq!['/'] + ws.last()
    }
}

proof fn lemma_path_through_start(ws: Seq<Seq<char>>)
    requires
        ws.len() > 0,
        ws[0].len() > 0,
    ensures
        path_through(ws).len() > 0,
        path_through(ws)[0] == ws[0][0],
    decreases ws.len(),
{
    if ws.len() > 1 {
        lemma_path_through_start(ws.drop_last());
    }
}

/// Any relative path through one or more plain names, whatever characters
/// those names hold (`-`, spaces, dots inside a name, ...), leads below the
/// directory it is joined to, and it leads through exactly those names.
pub proof fn law_paths_through_plain_names_are_below(ws: Seq<Seq<char>>)
    requires
        ws.len() > 0,
        forall|i: int| 0 <= i < ws.len() ==> is_plain_name(#[trigger] ws[i]),
    ensures
        relative_names(path_through(ws)) == ws,
        is_name_below(path_through(ws)),
    decreases ws.len(),
{
    assert(is_plain_name(ws[0]));
    lemma_path_through_start(ws);
    if ws.len() == 1 {
        lemma_split_plain_name(ws[0]);
        assert(seq![ws[0]] =~= ws);
    } else {
        let init = ws.drop_last();
        assert forall|i: int| 0 <= i < init.len() implies is_plain_name(#[trigger] init[i]) by {
            assert(init[i] == ws[i]);
        }
        law_paths_through_plain_names_are_below(init);
        assert(is_plain_name(ws[ws.len() - 1]));
        lemma_split_concat(path_through(init), ws.last(), seq![]);
        lemma_split_plain_name(ws.last());
        assert(init + seq![ws.last()] =~= ws);
    }
    assert(path_through(ws)[0] != '/') by {
        assert(ws[0][0] != '/');
    }
}

} // verus!
