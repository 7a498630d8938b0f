//! Immutable hierarchical path values, absolute or relative, with the
//! join/relativize/prefix algebra used to address documents.
//!
//! A path is an ordered sequence of string segments plus an absoluteness
//! flag. Values are immutable; the segment storage is reference-counted, so
//! cloning never copies the segments themselves.

use crate::error::{ParsePathError, PathError};
use std::rc::Rc;
use vstd::prelude::*;
use vstd::string::StrSliceExecFns;
use vstd::string::StringExecFns;

verus! {

/// Mathematical model of a path: the segments as character sequences and the
/// absoluteness flag. Absolute and relative paths with identical segments are
/// distinct values.
pub struct PathView {
    pub segs: Seq<Seq<char>>,
    pub absolute: bool,
}

/// What `join` yields: an absolute right-hand side replaces the left-hand
/// side entirely (anchor reset); otherwise the segments are concatenated and
/// the left-hand side's absoluteness is kept.
pub open spec fn join_spec(a: PathView, b: PathView) -> PathView {
    if b.absolute {
        b
    } else {
        PathView { segs: a.segs + b.segs, absolute: a.absolute }
    }
}

/// `a` is a strict prefix of `b`: shorter, and equal to `b` cut to `a`'s
/// length.
pub open spec fn is_strict_prefix_of(a: Seq<Seq<char>>, b: Seq<Seq<char>>) -> bool {
    a.len() < b.len() && a == b.take(a.len() as int)
}

/// A path is never a subpath of an equal path: the prefix test is strict.
pub proof fn lemma_subpath_never_equal(p: PathView)
    ensures
        !is_strict_prefix_of(p.segs, p.segs),
{
}

/// What `head` yields: the whole path when it has at most one segment, else
/// the first segment alone as a relative path.
pub open spec fn head_spec(p: PathView) -> PathView {
    if p.segs.len() <= 1 {
        p
    } else {
        PathView { segs: seq![p.segs[0]], absolute: false }
    }
}

/// What `tail` yields: everything after the first segment, or nothing when
/// there is no segment at all.
pub open spec fn tail_spec(segs: Seq<Seq<char>>) -> Seq<Seq<char>> {
    if segs.len() == 0 {
        Seq::empty()
    } else {
        segs.skip(1)
    }
}

/// The parent-step segment `".."`.
pub open spec fn dotdot() -> Seq<char> {
    seq!['.', '.']
}

/// Length of the longest common prefix of two segment sequences.
pub open spec fn common_prefix_len(a: Seq<Seq<char>>, b: Seq<Seq<char>>) -> int
    decreases a.len(),
{
    if a.len() == 0 || b.len() == 0 || a[0] != b[0] {
        0
    } else {
        1 + common_prefix_len(a.skip(1), b.skip(1))
    }
}

/// `k` parent-step segments in a row.
pub open spec fn up_steps(k: int) -> Seq<Seq<char>>
    decreases k,
{
    if k <= 0 {
        Seq::empty()
    } else {
        up_steps(k - 1).push(dotdot())
    }
}

/// What relativizing `path` against `base` yields: walk both sequences
/// pairwise until the first divergence, then one parent step per remaining
/// `base` segment followed by the remaining `path` segments verbatim.
pub open spec fn relative_segs(base: Seq<Seq<char>>, path: Seq<Seq<char>>) -> Seq<Seq<char>> {
    let n = common_prefix_len(base, path);
    up_steps(base.len() - n) + path.skip(n)
}

/// The segments rendered as one "/"-delimited string, without the leading
/// slash.
pub open spec fn joined_segs(segs: Seq<Seq<char>>) -> Seq<char>
    decreases segs.len(),
{
    if segs.len() == 0 {
        Seq::empty()
    } else if segs.len() == 1 {
        segs[0]
    } else {
        segs[0] + seq!['/'] + joined_segs(segs.skip(1))
    }
}

/// What `to_string` yields: the segments joined by "/", with a leading "/"
/// when the path is absolute.
pub open spec fn to_string_spec(p: PathView) -> Seq<char> {
    if p.absolute {
        seq!['/'] + joined_segs(p.segs)
    } else {
        joined_segs(p.segs)
    }
}

/// Position of the first '/' in `s`, or `s.len()` if there is none.
pub open spec fn first_slash(s: Seq<char>) -> int
    decreases s.len(),
{
    if s.len() == 0 {
        0
    } else if s[0] == '/' {
        0
    } else {
        1 + first_slash(s.skip(1))
    }
}

/// The "/"-separated segments of `s`, with empty segments dropped.
pub open spec fn split_segs(s: Seq<char>) -> Seq<Seq<char>>
    decreases s.len(),
{
    if s.len() == 0 {
        Seq::empty()
    } else {
        let i = first_slash(s);
        if 0 <= i < s.len() {
            let seg = s.take(i);
            let rest = split_segs(s.skip(i + 1));
            if seg.len() == 0 {
                rest
            } else {
                seq![seg] + rest
            }
        } else {
            seq![s]
        }
    }
}

/// What `parse` yields: the dropped-empty "/"-split of the string, absolute
/// exactly when the string starts with '/'.
pub open spec fn parse_spec(s: Seq<char>) -> PathView {
    PathView { segs: split_segs(s), absolute: s.len() > 0 && s[0] == '/' }
}

/// Each segment is non-empty and free of '/'. Parsing and rendering are
/// mutually inverse only on such paths; `add` itself does not reject other
/// segments.
pub open spec fn wf_segs(segs: Seq<Seq<char>>) -> bool {
    forall|i: int|
        0 <= i < segs.len() ==> segs[i].len() > 0 && !(#[trigger] segs[i]).contains('/')
}

/// Any position that satisfies the first-slash characterization is the first
/// slash position.
pub proof fn lemma_first_slash_is(s: Seq<char>, n: int)
    requires
        0 <= n <= s.len(),
        forall|j: int| 0 <= j < n ==> s[j] != '/',
        n == s.len() || s[n] == '/',
    ensures
        first_slash(s) == n,
    decreases s.len(),
{
    if n == 0 {
    } else {
        assert(s[0] != '/');
        assert forall|j: int| 0 <= j < n - 1 implies s.skip(1)[j] != '/' by {
            assert(s[j + 1] != '/');
        }
        if n - 1 < s.skip(1).len() {
            assert(s.skip(1)[n - 1] == s[n]);
        }
        lemma_first_slash_is(s.skip(1), n - 1);
    }
}

/// Appending one segment to a joined rendering appends a separator and the
/// segment.
pub proof fn lemma_joined_snoc(segs: Seq<Seq<char>>, x: Seq<char>)
    ensures
        joined_segs(segs.push(x)) == if segs.len() == 0 {
            x
        } else {
            joined_segs(segs) + seq!['/'] + x
        },
    decreases segs.len(),
{
    let e = segs.push(x);
    if segs.len() == 0 {
        assert(e.len() == 1);
        assert(joined_segs(e) == e[0]);
        assert(e[0] == x);
    } else if segs.len() == 1 {
        assert(e.len() == 2);
        assert(e.skip(1) =~= seq![x]);
        assert(joined_segs(e) == e[0] + seq!['/'] + joined_segs(e.skip(1)));
        assert(joined_segs(e) =~= joined_segs(segs) + seq!['/'] + x);
    } else {
        assert(e.skip(1) =~= segs.skip(1).push(x));
        lemma_joined_snoc(segs.skip(1), x);
        assert(joined_segs(e) == e[0] + seq!['/'] + joined_segs(segs.skip(1).push(x)));
        assert(joined_segs(e) =~= joined_segs(segs) + seq!['/'] + x);
    }
}

/// Splitting a joined rendering of well-formed segments restores them.
pub proof fn lemma_split_joined(segs: Seq<Seq<char>>)
    requires
        wf_segs(segs),
    ensures
        split_segs(joined_segs(segs)) == segs,
    decreases segs.len(),
{
    if segs.len() == 0 {
    } else if segs.len() == 1 {
        let s = joined_segs(segs);
        assert(s == segs[0]);
        assert(segs[0].len() > 0 && !segs[0].contains('/'));
        assert forall|j: int| 0 <= j < s.len() implies s[j] != '/' by {
            if s[j] == '/' {
                assert(segs[0].contains('/'));
            }
        }
        lemma_first_slash_is(s, s.len() as int);
        assert(split_segs(s) =~= segs);
    } else {
        let s = joined_segs(segs);
        let h = segs[0];
        let rest = joined_segs(segs.skip(1));
        assert(s == h + seq!['/'] + rest);
        assert(s.len() == h.len() + 1 + rest.len());
        assert forall|j: int| 0 <= j < h.len() implies s[j] != '/' by {
            assert(s[j] == h[j]);
            if s[j] == '/' {
                assert(h.contains('/'));
            }
        }
        assert(s[h.len() as int] == '/');
        lemma_first_slash_is(s, h.len() as int);
        assert(s.take(h.len() as int) =~= h);
        assert(s.skip(h.len() as int + 1) =~= rest);
        assert forall|i: int| 0 <= i < segs.skip(1).len() implies segs.skip(1)[i].len() > 0 && !(
        #[trigger] segs.skip(1)[i]).contains('/') by {
            assert(segs.skip(1)[i] == segs[i + 1]);
        }
        lemma_split_joined(segs.skip(1));
        assert(split_segs(s) == seq![h] + segs.skip(1));
        assert(seq![h] + segs.skip(1) =~= segs);
    }
}

/// Rendering a path to its string form and parsing it back restores the
/// path, for paths whose segments are non-empty and slash-free. (A segment
/// that is empty or contains '/' cannot survive the trip: parsing drops
/// empty segments and splits at every slash.)
pub proof fn lemma_parse_to_string_roundtrip(p: PathView)
    requires
        wf_segs(p.segs),
    ensures
        parse_spec(to_string_spec(p)) == p,
{
    let s = to_string_spec(p);
    lemma_split_joined(p.segs);
    if p.absolute {
        let j = joined_segs(p.segs);
        assert(s == seq!['/'] + j);
        assert(s[0] == '/');
        lemma_first_slash_is(s, 0);
        if s.len() == 1 {
            assert(j.len() == 0);
            assert(p.segs.len() == 0) by {
                if p.segs.len() == 1 {
                    assert(p.segs[0].len() > 0);
                } else if p.segs.len() > 1 {
                    assert(j.len() >= 2);
                }
            }
            assert(s.skip(1).len() == 0);
            assert(split_segs(s.skip(1)) == Seq::<Seq<char>>::empty());
            assert(s.take(0).len() == 0);
            assert(split_segs(s) =~= p.segs);
        } else {
            assert(s.skip(1) =~= j);
            assert(s.take(0).len() == 0);
            assert(split_segs(s) == split_segs(j));
        }
        assert(parse_spec(s) == p);
    } else {
        let j = joined_segs(p.segs);
        assert(s == j);
        if p.segs.len() == 0 {
            assert(parse_spec(s) =~= p);
        } else {
            assert(p.segs[0].len() > 0);
            assert(s[0] == p.segs[0][0]);
            assert(s[0] != '/') by {
                if s[0] == '/' {
                    assert(p.segs[0].contains('/'));
                }
            }
            assert(parse_spec(s) == p);
        }
    }
}

/// Any position that satisfies the common-prefix characterization is the
/// common prefix length.
pub proof fn lemma_common_prefix_len_is(a: Seq<Seq<char>>, b: Seq<Seq<char>>, n: int)
    requires
        0 <= n <= a.len(),
        n <= b.len(),
        forall|j: int| 0 <= j < n ==> a[j] == b[j],
        n == a.len() || n == b.len() || a[n] != b[n],
    ensures
        common_prefix_len(a, b) == n,
    decreases a.len(),
{
    if n == 0 {
        if a.len() != 0 && b.len() != 0 {
            assert(a[0] != b[0]);
        }
    } else {
        assert(a[0] == b[0]);
        assert forall|j: int| 0 <= j < n - 1 implies a.skip(1)[j] == b.skip(1)[j] by {
            assert(a[j + 1] == b[j + 1]);
        }
        if n - 1 < a.skip(1).len() && n - 1 < b.skip(1).len() {
            assert(a.skip(1)[n - 1] == a[n]);
            assert(b.skip(1)[n - 1] == b[n]);
        }
        lemma_common_prefix_len_is(a.skip(1), b.skip(1), n - 1);
    }
}

/// Joining a path back onto the base it was relativized against restores the
/// original, provided the base is a prefix of it: with no divergence there
/// are no parent steps, and concatenation undoes the split. (With a genuine
/// divergence the relative form contains `".."` segments, which `join` does
/// not interpret, so the round trip does not restore such a pair.)
pub proof fn lemma_join_releative_roundtrip(p: PathView, b: PathView)
    requires
        p.absolute,
        b.absolute,
        b.segs.len() <= p.segs.len(),
        b.segs == p.segs.take(b.segs.len() as int),
    ensures
        join_spec(b, PathView { segs: relative_segs(b.segs, p.segs), absolute: false }) == p,
{
    assert forall|j: int| 0 <= j < b.segs.len() implies b.segs[j] == p.segs[j] by {
        assert(b.segs[j] == p.segs.take(b.segs.len() as int)[j]);
    }
    lemma_common_prefix_len_is(b.segs, p.segs, b.segs.len() as int);
    let r = join_spec(b, PathView { segs: relative_segs(b.segs, p.segs), absolute: false });
    assert(r.segs =~= p.segs);
}

/// Relies on the std guarantee that every `char` is a Unicode scalar value,
/// so the cast to its code point is exact.
#[verifier::external_body]
fn char_code(c: char) -> (r: u32)
    ensures
        r as int == c as int,
{
    c as u32
}

/// Lexicographic order on character sequences, by code point.
pub open spec fn lex_cmp_chars(a: Seq<char>, b: Seq<char>) -> core::cmp::Ordering
    decreases a.len(),
{
    if a.len() == 0 && b.len() == 0 {
        core::cmp::Ordering::Equal
    } else if a.len() == 0 {
        core::cmp::Ordering::Less
    } else if b.len() == 0 {
        core::cmp::Ordering::Greater
    } else if a[0] == b[0] {
        lex_cmp_chars(a.skip(1), b.skip(1))
    } else if (a[0] as int) < (b[0] as int) {
        core::cmp::Ordering::Less
    } else {
        core::cmp::Ordering::Greater
    }
}

/// The total order on paths: segment-wise, ordering differing segments
/// lexicographically; when one path runs out first, the path with fewer
/// remaining segments at that point sorts greater.
pub open spec fn path_cmp_spec(a: Seq<Seq<char>>, b: Seq<Seq<char>>) -> core::cmp::Ordering
    decreases a.len(),
{
    if a.len() == 0 && b.len() == 0 {
        core::cmp::Ordering::Equal
    } else if a.len() == 0 {
        core::cmp::Ordering::Greater
    } else if b.len() == 0 {
        core::cmp::Ordering::Less
    } else if a[0] == b[0] {
        path_cmp_spec(a.skip(1), b.skip(1))
    } else {
        lex_cmp_chars(a[0], b[0])
    }
}

/// Lexicographic comparison is `Equal` exactly on equal sequences.
proof fn lemma_lex_cmp_equal(a: Seq<char>, b: Seq<char>)
    ensures
        (lex_cmp_chars(a, b) == core::cmp::Ordering::Equal) <==> (a == b),
    decreases a.len(),
{
    if a.len() == 0 && b.len() == 0 {
        assert(a =~= b);
    } else if a.len() == 0 || b.len() == 0 {
    } else if a[0] == b[0] {
        lemma_lex_cmp_equal(a.skip(1), b.skip(1));
        if lex_cmp_chars(a, b) == core::cmp::Ordering::Equal {
            assert forall|i: int| 0 <= i < a.len() implies a[i] == b[i] by {
                if i > 0 {
                    assert(a.skip(1)[i - 1] == b.skip(1)[i - 1]);
                }
            }
            assert(a =~= b);
        }
        if a == b {
            assert(a.skip(1) =~= b.skip(1));
        }
    }
}

/// The order used for keyed lookups is `Equal` exactly on equal segment
/// sequences, as a key order must be.
pub proof fn lemma_path_cmp_equal(a: Seq<Seq<char>>, b: Seq<Seq<char>>)
    ensures
        (path_cmp_spec(a, b) == core::cmp::Ordering::Equal) <==> (a == b),
    decreases a.len(),
{
    if a.len() == 0 && b.len() == 0 {
        assert(a =~= b);
    } else if a.len() == 0 || b.len() == 0 {
    } else if a[0] == b[0] {
        lemma_path_cmp_equal(a.skip(1), b.skip(1));
        if path_cmp_spec(a, b) == core::cmp::Ordering::Equal {
            assert forall|i: int| 0 <= i < a.len() implies a[i] == b[i] by {
                if i > 0 {
                    assert(a.skip(1)[i - 1] == b.skip(1)[i - 1]);
                }
            }
            assert(a =~= b);
        }
        if a == b {
            assert(a.skip(1) =~= b.skip(1));
        }
    } else {
        lemma_lex_cmp_equal(a[0], b[0]);
    }
}

/// The opposite comparison outcome.
pub open spec fn flip_ordering(o: core::cmp::Ordering) -> core::cmp::Ordering {
    match o {
        core::cmp::Ordering::Less => core::cmp::Ordering::Greater,
        core::cmp::Ordering::Equal => core::cmp::Ordering::Equal,
        core::cmp::Ordering::Greater => core::cmp::Ordering::Less,
    }
}

/// Lexicographic comparison is antisymmetric: swapping the sides flips the
/// outcome.
proof fn lemma_lex_cmp_flip(a: Seq<char>, b: Seq<char>)
    ensures
        lex_cmp_chars(b, a) == flip_ordering(lex_cmp_chars(a, b)),
    decreases a.len(),
{
    if a.len() != 0 && b.len() != 0 && a[0] == b[0] {
        lemma_lex_cmp_flip(a.skip(1), b.skip(1));
    }
}

/// Lexicographic comparison is transitive on the `Less` side.
proof fn lemma_lex_cmp_trans(a: Seq<char>, b: Seq<char>, c: Seq<char>)
    requires
        lex_cmp_chars(a, b) == core::cmp::Ordering::Less,
        lex_cmp_chars(b, c) == core::cmp::Ordering::Less,
    ensures
        lex_cmp_chars(a, c) == core::cmp::Ordering::Less,
    decreases a.len(),
{
    if a.len() != 0 && b.len() != 0 && c.len() != 0 && a[0] == b[0] && b[0] == c[0] {
        lemma_lex_cmp_trans(a.skip(1), b.skip(1), c.skip(1));
    }
}

/// The path order is antisymmetric: swapping the sides flips the outcome.
pub proof fn lemma_path_cmp_flip(a: Seq<Seq<char>>, b: Seq<Seq<char>>)
    ensures
        path_cmp_spec(b, a) == flip_ordering(path_cmp_spec(a, b)),
    decreases a.len(),
{
    if a.len() != 0 && b.len() != 0 {
        if a[0] == b[0] {
            lemma_path_cmp_flip(a.skip(1), b.skip(1));
        } else {
            lemma_lex_cmp_flip(a[0], b[0]);
            lemma_lex_cmp_equal(a[0], b[0]);
        }
    }
}

/// The path order is transitive on the `Less` side; with antisymmetry and
/// the equality characterization this makes it a total order on segment
/// sequences.
pub proof fn lemma_path_cmp_trans(a: Seq<Seq<char>>, b: Seq<Seq<char>>, c: Seq<Seq<char>>)
    requires
        path_cmp_spec(a, b) == core::cmp::Ordering::Less,
        path_cmp_spec(b, c) == core::cmp::Ordering::Less,
    ensures
        path_cmp_spec(a, c) == core::cmp::Ordering::Less,
    decreases a.len(),
{
    if a.len() != 0 && b.len() != 0 && c.len() != 0 {
        if a[0] == b[0] && b[0] == c[0] {
            lemma_path_cmp_trans(a.skip(1), b.skip(1), c.skip(1));
        } else if a[0] == b[0] {
            lemma_lex_cmp_equal(a[0], b[0]);
        } else if b[0] == c[0] {
            lemma_lex_cmp_equal(b[0], c[0]);
        } else {
            lemma_lex_cmp_equal(a[0], b[0]);
            lemma_lex_cmp_equal(b[0], c[0]);
            lemma_lex_cmp_equal(a[0], c[0]);
            lemma_lex_cmp_trans(a[0], b[0], c[0]);
        }
    }
}

/// Equal prefixes do not affect the lexicographic comparison.
proof fn lemma_lex_cmp_skip(a: Seq<char>, b: Seq<char>, i: int)
    requires
        0 <= i <= a.len(),
        i <= b.len(),
        forall|j: int| 0 <= j < i ==> a[j] == b[j],
    ensures
        lex_cmp_chars(a, b) == lex_cmp_chars(a.skip(i), b.skip(i)),
    decreases i,
{
    if i == 0 {
        assert(a.skip(0) =~= a);
        assert(b.skip(0) =~= b);
    } else {
        assert(a[0] == b[0]);
        assert forall|j: int| 0 <= j < i - 1 implies a.skip(1)[j] == b.skip(1)[j] by {
            assert(a[j + 1] == b[j + 1]);
        }
        lemma_lex_cmp_skip(a.skip(1), b.skip(1), i - 1);
        assert(a.skip(1).skip(i - 1) =~= a.skip(i));
        assert(b.skip(1).skip(i - 1) =~= b.skip(i));
    }
}

/// Equal prefixes do not affect the path comparison.
proof fn lemma_path_cmp_skip(a: Seq<Seq<char>>, b: Seq<Seq<char>>, i: int)
    requires
        0 <= i <= a.len(),
        i <= b.len(),
        forall|j: int| 0 <= j < i ==> a[j] == b[j],
    ensures
        path_cmp_spec(a, b) == path_cmp_spec(a.skip(i), b.skip(i)),
    decreases i,
{
    if i == 0 {
        assert(a.skip(0) =~= a);
        assert(b.skip(0) =~= b);
    } else {
        assert(a[0] == b[0]);
        assert forall|j: int| 0 <= j < i - 1 implies a.skip(1)[j] == b.skip(1)[j] by {
            assert(a[j + 1] == b[j + 1]);
        }
        lemma_path_cmp_skip(a.skip(1), b.skip(1), i - 1);
        assert(a.skip(1).skip(i - 1) =~= a.skip(i));
        assert(b.skip(1).skip(i - 1) =~= b.skip(i));
    }
}

/// Character-wise string equality.
pub fn str_eq(a: &str, b: &str) -> (r: bool)
    ensures
        r == (a@ == b@),
{
    let an = a.unicode_len();
    let bn = b.unicode_len();
    if an != bn {
        return false;
    }
    let mut i: usize = 0;
    while i < an
        invariant
            an == a@.len(),
            an == b@.len(),
            i <= an,
            forall|j: int| 0 <= j < i ==> a@[j] == b@[j],
        decreases an - i,
    {
        if a.get_char(i) != b.get_char(i) {
            return false;
        }
        i += 1;
    }
    proof {
        assert(a@ =~= b@);
    }
    true
}

/// Compare two strings lexicographically by code point.
fn str_cmp(a: &str, b: &str) -> (r: core::cmp::Ordering)
    ensures
        r == lex_cmp_chars(a@, b@),
{
    let an = a.unicode_len();
    let bn = b.unicode_len();
    let mut i: usize = 0;
    while i < an && i < bn
        invariant
            an == a@.len(),
            bn == b@.len(),
            i <= an,
            i <= bn,
            forall|j: int| 0 <= j < i ==> a@[j] == b@[j],
        decreases an - i,
    {
        let ca = a.get_char(i);
        let cb = b.get_char(i);
        if ca != cb {
            proof {
                lemma_lex_cmp_skip(a@, b@, i as int);
            }
            if char_code(ca) < char_code(cb) {
                return core::cmp::Ordering::Less;
            } else {
                return core::cmp::Ordering::Greater;
            }
        }
        i += 1;
    }
    proof {
        lemma_lex_cmp_skip(a@, b@, i as int);
    }
    if an == bn {
        core::cmp::Ordering::Equal
    } else if an < bn {
        core::cmp::Ordering::Less
    } else {
        core::cmp::Ordering::Greater
    }
}

/// An immutable hierarchical path. Cloning shares the segment storage.
#[derive(Debug)]
pub struct Path {
    segs: Rc<Vec<String>>,
    absolute: bool,
}

impl View for Path {
    type V = PathView;

    closed spec fn view(&self) -> PathView {
        PathView { segs: self.segs.deep_view(), absolute: self.absolute }
    }
}

/// Relies on std's Rc::clone: the returned handle shares the same vector, so
/// its value equals the argument's.
#[verifier::external_body]
fn share_segments(segs: &Rc<Vec<String>>) -> (r: Rc<Vec<String>>)
    ensures
        r == *segs,
{
    Rc::clone(segs)
}

impl Path {
    /// Construct the empty relative path.
    pub fn new() -> (r: Path)
        ensures
            r@.segs == Seq::<Seq<char>>::empty(),
            !r@.absolute,
    {
        let r = Path { segs: Rc::new(Vec::new()), absolute: false };
        proof {
            assert(r@.segs =~= Seq::<Seq<char>>::empty());
        }
        r
    }

    /// Construct the empty absolute path.
    pub fn new_absolute() -> (r: Path)
        ensures
            r@.segs == Seq::<Seq<char>>::empty(),
            r@.absolute,
    {
        let r = Path { segs: Rc::new(Vec::new()), absolute: true };
        proof {
            assert(r@.segs =~= Seq::<Seq<char>>::empty());
        }
        r
    }

    /// Whether this path is absolute. Absoluteness is fixed at construction.
    pub fn is_absolute(&self) -> (r: bool)
        ensures
            r == self@.absolute,
    {
        self.absolute
    }

    /// Whether this path has no segments.
    pub fn is_empty(&self) -> (r: bool)
        ensures
            r == (self@.segs.len() == 0),
    {
        self.segs.is_empty()
    }

    /// The number of segments.
    pub fn len(&self) -> (r: usize)
        ensures
            r == self@.segs.len(),
    {
        self.segs.len()
    }

    /// Append one segment, leaving `self` unchanged.
    pub fn add(&self, part: &str) -> (r: Path)
        ensures
            r@.segs == self@.segs.push(part@),
            r@.absolute == self@.absolute,
    {
        let mut v: Vec<String> = (*self.segs).clone();
        v.push(part.to_owned());
        let r = Path { segs: Rc::new(v), absolute: self.absolute };
        proof {
            assert(r@.segs =~= self@.segs.push(part@));
        }
        r
    }

    /// Compose two paths. An absolute `other` replaces `self` entirely;
    /// otherwise `other`'s segments are appended to `self`'s.
    pub fn join(&self, other: &Path) -> (r: Path)
        ensures
            r@ == join_spec(self@, other@),
    {
        if other.is_absolute() {
            let r = other.clone();
            proof {
                assert(r@ =~= join_spec(self@, other@));
            }
            r
        } else if other.is_empty() {
            let r = self.clone();
            proof {
                assert(r@.segs =~= self@.segs + other@.segs);
            }
            r
        } else {
            let mut v: Vec<String> = (*self.segs).clone();
            let n = other.segs.len();
            let mut i: usize = 0;
            while i < n
                invariant
                    i <= n,
                    n == other@.segs.len(),
                    v.deep_view() =~= self@.segs + other@.segs.take(i as int),
                    other@ == other.view(),
                decreases n - i,
            {
                v.push(other.segs[i].clone());
                proof {
                    assert(other@.segs.take(i + 1) =~= other@.segs.take(i as int).push(
                        other@.segs[i as int],
                    ));
                    assert(v.deep_view() =~= (self@.segs + other@.segs.take(i as int)).push(
                        other@.segs[i as int],
                    ));
                    assert(v.deep_view() =~= self@.segs + other@.segs.take(i + 1));
                }
                i += 1;
            }
            let r = Path { segs: Rc::new(v), absolute: self.absolute };
            proof {
                assert(other@.segs.take(n as int) =~= other@.segs);
                assert(r@ =~= join_spec(self@, other@));
            }
            r
        }
    }

    /// The first segment as a path of its own; a path of length at most one
    /// is returned unchanged.
    pub fn head(&self) -> (r: Path)
        ensures
            r@ == head_spec(self@),
    {
        if self.segs.len() <= 1 {
            self.clone()
        } else {
            let mut v: Vec<String> = Vec::new();
            v.push(self.segs[0].clone());
            let r = Path { segs: Rc::new(v), absolute: false };
            proof {
                assert(r@.segs =~= seq![self@.segs[0]]);
            }
            r
        }
    }

    /// Everything after the first segment, as a relative path.
    pub fn tail(&self) -> (r: Path)
        ensures
            r@.segs == tail_spec(self@.segs),
            !r@.absolute,
    {
        let n = self.segs.len();
        let mut v: Vec<String> = Vec::new();
        if n > 0 {
            let mut i: usize = 1;
            while i < n
                invariant
                    n == self@.segs.len(),
                    1 <= i <= n,
                    v.deep_view() =~= self@.segs.subrange(1, i as int),
                decreases n - i,
            {
                v.push(self.segs[i].clone());
                proof {
                    assert(self@.segs.subrange(1, i + 1) =~= self@.segs.subrange(1, i as int).push(
                        self@.segs[i as int],
                    ));
                    assert(v.deep_view() =~= self@.segs.subrange(1, i + 1));
                }
                i += 1;
            }
        }
        let r = Path { segs: Rc::new(v), absolute: false };
        proof {
            if n == 0 {
                assert(r@.segs =~= tail_spec(self@.segs));
            } else {
                assert(self@.segs.subrange(1, n as int) =~= self@.segs.skip(1));
            }
        }
        r
    }
}

/// The segments of `path` relative to `base`: parent steps for what remains
/// of `base` past the common prefix, then the rest of `path` verbatim.
pub fn releative_path(base: &Vec<String>, path: &Vec<String>) -> (r: Vec<String>)
    ensures
        r.deep_view() == relative_segs(base.deep_view(), path.deep_view()),
{
    let ghost ga = base.deep_view();
    let ghost gb = path.deep_view();
    let mut i: usize = 0;
    while i < base.len() && i < path.len() && base[i] == path[i]
        invariant
            ga == base.deep_view(),
            gb == path.deep_view(),
            i <= ga.len(),
            i <= gb.len(),
            forall|j: int| 0 <= j < i ==> ga[j] == gb[j],
        decreases base.len() - i,
    {
        i += 1;
    }
    proof {
        lemma_common_prefix_len_is(ga, gb, i as int);
    }
    let ups = base.len() - i;
    let mut v: Vec<String> = Vec::new();
    let mut k: usize = 0;
    while k < ups
        invariant
            k <= ups,
            v.len() == k,
            v.deep_view() =~= up_steps(k as int),
        decreases ups - k,
    {
        v.push("..".to_owned());
        proof {
            reveal_strlit("..");
            assert(".."@ =~= dotdot());
            assert(v.deep_view() =~= up_steps(k + 1));
        }
        k += 1;
    }
    proof {
        assert(up_steps(ups as int).len() == ups);
        assert(v.deep_view() =~= up_steps(ups as int) + gb.subrange(i as int, i as int));
    }
    let mut j: usize = i;
    while j < path.len()
        invariant
            gb == path.deep_view(),
            i <= j <= gb.len(),
            ups == up_steps(ups as int).len(),
            v.deep_view() =~= up_steps(ups as int) + gb.subrange(i as int, j as int),
        decreases path.len() - j,
    {
        v.push(path[j].clone());
        proof {
            assert(gb.subrange(i as int, j + 1) =~= gb.subrange(i as int, j as int).push(
                gb[j as int],
            ));
            assert(v.deep_view() =~= (up_steps(ups as int) + gb.subrange(i as int, j as int)).push(
                gb[j as int],
            ));
            assert(v.deep_view() =~= up_steps(ups as int) + gb.subrange(i as int, j + 1));
        }
        j += 1;
    }
    proof {
        assert(gb.subrange(i as int, gb.len() as int) =~= gb.skip(i as int));
        assert(v.deep_view() =~= relative_segs(ga, gb));
    }
    v
}

/// Whether `lhs` is a strict prefix of `rhs`: every segment of `lhs` matches
/// the corresponding segment of `rhs`, and `rhs` is strictly longer. Equal
/// sequences do not count.
pub fn is_subpath(lhs: &Vec<String>, rhs: &Vec<String>) -> (r: bool)
    ensures
        r == is_strict_prefix_of(lhs.deep_view(), rhs.deep_view()),
{
    let ghost ga = lhs.deep_view();
    let ghost gb = rhs.deep_view();
    if lhs.len() >= rhs.len() {
        return false;
    }
    let mut i: usize = 0;
    while i < lhs.len()
        invariant
            ga == lhs.deep_view(),
            gb == rhs.deep_view(),
            i <= ga.len() < gb.len(),
            forall|j: int| 0 <= j < i ==> ga[j] == gb[j],
        decreases lhs.len() - i,
    {
        if !(lhs[i] == rhs[i]) {
            proof {
                assert(ga[i as int] != gb.take(ga.len() as int)[i as int]);
            }
            return false;
        }
        i += 1;
    }
    proof {
        assert(ga =~= gb.take(ga.len() as int));
    }
    true
}

impl Path {
    /// This path expressed relative to `base`, such that joining the result
    /// back onto `base` walks to this path. Fails when the two differ in
    /// absoluteness.
    pub fn releative_to(self, base: &Path) -> (r: Result<Path, PathError>)
        ensures
            self@.absolute == base@.absolute ==> (r matches Ok(p) && p@.segs == relative_segs(
                base@.segs,
                self@.segs,
            ) && !p@.absolute),
            self@.absolute != base@.absolute ==> (r matches Err(e) && e.0@
                == "Can not find releative path"@),
    {
        if self.is_absolute() == base.is_absolute() {
            let v = releative_path(&*base.segs, &*self.segs);
            Ok(Path { segs: Rc::new(v), absolute: false })
        } else {
            Err(PathError("Can not find releative path"))
        }
    }

    /// Whether this path is a strict prefix of `rhs`. A path is never a
    /// subpath of an equal path, and paths of mismatched absoluteness are
    /// never related.
    pub fn is_subpath(&self, rhs: &Path) -> (r: bool)
        ensures
            r == (self@.absolute == rhs@.absolute && is_strict_prefix_of(
                self@.segs,
                rhs@.segs,
            )),
    {
        if self.is_absolute() == rhs.is_absolute() {
            is_subpath(&*self.segs, &*rhs.segs)
        } else {
            false
        }
    }

    /// Whether `rhs` is a strict prefix of this path.
    pub fn is_superpath(&self, rhs: &Path) -> (r: bool)
        ensures
            r == (self@.absolute == rhs@.absolute && is_strict_prefix_of(
                rhs@.segs,
                self@.segs,
            )),
    {
        if self.is_absolute() == rhs.is_absolute() {
            is_subpath(&*rhs.segs, &*self.segs)
        } else {
            false
        }
    }

    /// Render the path as a "/"-delimited string, with a leading "/" when it
    /// is absolute.
    pub fn to_string(&self) -> (r: String)
        ensures
            r@ == to_string_spec(self@),
    {
        let mut out = String::new();
        if self.absolute {
            out.append("/");
        }
        proof {
            reveal_strlit("/");
            assert("/"@ =~= seq!['/']);
        }
        let n = self.segs.len();
        let mut i: usize = 0;
        while i < n
            invariant
                n == self@.segs.len(),
                i <= n,
                self@.absolute ==> out@ == seq!['/'] + joined_segs(self@.segs.take(i as int)),
                !self@.absolute ==> out@ == joined_segs(self@.segs.take(i as int)),
            decreases n - i,
        {
            if i > 0 {
                out.append("/");
            }
            out.append(self.segs[i].as_str());
            proof {
                reveal_strlit("/");
                assert("/"@ =~= seq!['/']);
                lemma_joined_snoc(self@.segs.take(i as int), self@.segs[i as int]);
                assert(self@.segs.take(i + 1) =~= self@.segs.take(i as int).push(
                    self@.segs[i as int],
                ));
                if self@.absolute {
                    assert(out@ =~= seq!['/'] + joined_segs(self@.segs.take(i + 1)));
                } else {
                    assert(out@ =~= joined_segs(self@.segs.take(i + 1)));
                }
            }
            i += 1;
        }
        proof {
            assert(self@.segs.take(n as int) =~= self@.segs);
        }
        out
    }

    /// Parse a "/"-delimited string: a leading "/" makes the path absolute,
    /// and empty segments are dropped. Every string parses.
    pub fn parse(s: &str) -> (r: Result<Path, ParsePathError>)
        ensures
            r matches Ok(p) && p@ == parse_spec(s@),
    {
        let n = s.unicode_len();
        let absolute = n > 0 && s.get_char(0) == '/';
        let mut v: Vec<String> = Vec::new();
        let mut pos: usize = 0;
        proof {
            assert(v.deep_view() =~= Seq::<Seq<char>>::empty());
            assert(s@.skip(0) =~= s@);
            assert(v.deep_view() + split_segs(s@) =~= split_segs(s@));
        }
        while pos < n
            invariant
                n == s@.len(),
                pos <= n,
                split_segs(s@) == v.deep_view() + split_segs(s@.skip(pos as int)),
            decreases n - pos,
        {
            let ghost suffix = s@.skip(pos as int);
            let ghost dv0 = v.deep_view();
            let mut j: usize = pos;
            while j < n && s.get_char(j) != '/'
                invariant
                    n == s@.len(),
                    pos <= j <= n,
                    forall|t: int| pos <= t < j ==> s@[t] != '/',
                decreases n - j,
            {
                j += 1;
            }
            proof {
                assert forall|t: int| 0 <= t < j - pos implies suffix[t] != '/' by {
                    assert(s@[pos + t] != '/');
                }
                if j < n {
                    assert(suffix[j - pos] == s@[j as int]);
                }
                lemma_first_slash_is(suffix, j - pos);
            }
            if j > pos {
                let seg = s.substring_char(pos, j);
                v.push(seg.to_owned());
                proof {
                    assert(suffix.take(j - pos) =~= s@.subrange(pos as int, j as int));
                    assert(v.deep_view() =~= dv0.push(suffix.take(j - pos)));
                }
            }
            if j < n {
                proof {
                    assert(suffix.skip(j - pos + 1) =~= s@.skip(j + 1));
                    if j > pos {
                        assert(split_segs(suffix) == seq![suffix.take(j - pos)] + split_segs(
                            s@.skip(j + 1),
                        ));
                        assert(dv0 + split_segs(suffix) =~= v.deep_view() + split_segs(
                            s@.skip(j + 1),
                        ));
                    } else {
                        assert(suffix.take(0).len() == 0);
                        assert(split_segs(suffix) == split_segs(s@.skip(j + 1)));
                    }
                }
                pos = j + 1;
            } else {
                proof {
                    assert(j - pos == suffix.len());
                    assert(suffix.len() > 0);
                    assert(suffix.take(j - pos) =~= suffix);
                    assert(split_segs(suffix) == seq![suffix]);
                    assert(dv0 + split_segs(suffix) =~= v.deep_view());
                    assert(split_segs(s@.skip(n as int)).len() == 0);
                    assert(split_segs(s@) == v.deep_view() + split_segs(s@.skip(n as int)));
                }
                pos = n;
            }
        }
        proof {
            assert(s@.skip(n as int).len() == 0);
            assert(split_segs(s@) =~= v.deep_view());
        }
        let p = Path { segs: Rc::new(v), absolute };
        proof {
            assert(p@ == parse_spec(s@));
        }
        Ok(p)
    }

    /// Compare two paths in the total order used for keyed lookups:
    /// segment-wise, with the path that runs out of segments first at a
    /// divergence sorting greater. Absoluteness does not take part.
    pub fn cmp(&self, other: &Path) -> (r: core::cmp::Ordering)
        ensures
            r == path_cmp_spec(self@.segs, other@.segs),
    {
        let an = self.segs.len();
        let bn = other.segs.len();
        let mut i: usize = 0;
        while i < an && i < bn
            invariant
                an == self@.segs.len(),
                bn == other@.segs.len(),
                i <= an,
                i <= bn,
                forall|j: int| 0 <= j < i ==> self@.segs[j] == other@.segs[j],
            decreases an - i,
        {
            if !(self.segs[i] == other.segs[i]) {
                proof {
                    lemma_path_cmp_skip(self@.segs, other@.segs, i as int);
                }
                return str_cmp(self.segs[i].as_str(), other.segs[i].as_str());
            }
            i += 1;
        }
        proof {
            lemma_path_cmp_skip(self@.segs, other@.segs, i as int);
        }
        if an == bn {
            core::cmp::Ordering::Equal
        } else if an < bn {
            core::cmp::Ordering::Greater
        } else {
            core::cmp::Ordering::Less
        }
    }

    /// The segment at `index`, if it exists.
    pub fn get(&self, index: usize) -> (r: Option<&str>)
        ensures
            index < self@.segs.len() ==> (r matches Some(s) && s@ == self@.segs[index as int]),
            index >= self@.segs.len() ==> r is None,
    {
        if index < self.segs.len() {
            Some(self.segs[index].as_str())
        } else {
            None
        }
    }

    /// A double-ended cursor over the segments.
    pub fn iter(&self) -> (it: PathIterator)
        ensures
            it.wf(),
            it.remaining() == self@.segs,
    {
        let it = PathIterator { path: self, forward_i: 0, back_i: self.segs.len() };
        proof {
            assert(it.remaining() =~= self@.segs);
        }
        it
    }
}

/// A cursor over a path's segments, able to advance from either end.
pub struct PathIterator<'a> {
    path: &'a Path,
    forward_i: usize,
    back_i: usize,
}

impl<'a> PathIterator<'a> {
    /// The cursor bounds lie within the path.
    pub closed spec fn wf(&self) -> bool {
        self.forward_i <= self.back_i <= self.path@.segs.len()
    }

    /// The segments not yet consumed from either end.
    pub closed spec fn remaining(&self) -> Seq<Seq<char>> {
        self.path@.segs.subrange(self.forward_i as int, self.back_i as int)
    }

    /// The next segment from the front, if any remains.
    pub fn next(&mut self) -> (r: Option<&'a str>)
        requires
            old(self).wf(),
        ensures
            final(self).wf(),
            old(self).remaining().len() == 0 ==> r is None && final(self).remaining() == old(
                self,
            ).remaining(),
            old(self).remaining().len() > 0 ==> (r matches Some(s) && s@ == old(
                self,
            ).remaining()[0] && final(self).remaining() == old(self).remaining().skip(1)),
    {
        if self.forward_i < self.back_i {
            let i = self.forward_i;
            self.forward_i = i + 1;
            proof {
                assert(final(self).remaining() =~= old(self).remaining().skip(1));
            }
            Some(self.path.segs[i].as_str())
        } else {
            proof {
                assert(final(self).remaining() =~= old(self).remaining());
            }
            None
        }
    }

    /// The next segment from the back, if any remains.
    pub fn next_back(&mut self) -> (r: Option<&'a str>)
        requires
            old(self).wf(),
        ensures
            final(self).wf(),
            old(self).remaining().len() == 0 ==> r is None && final(self).remaining() == old(
                self,
            ).remaining(),
            old(self).remaining().len() > 0 ==> (r matches Some(s) && s@ == old(
                self,
            ).remaining().last() && final(self).remaining() == old(self).remaining().drop_last()),
    {
        if self.forward_i < self.back_i {
            let i = self.back_i - 1;
            self.back_i = i;
            proof {
                assert(final(self).remaining() =~= old(self).remaining().drop_last());
            }
            Some(self.path.segs[i].as_str())
        } else {
            proof {
                assert(final(self).remaining() =~= old(self).remaining());
            }
            None
        }
    }
}

impl Clone for Path {
    /// Cloning shares the segment storage; the clone equals the original.
    fn clone(&self) -> (r: Self)
        ensures
            r == *self,
    {
        Path { segs: share_segments(&self.segs), absolute: self.absolute }
    }
}

impl Default for Path {
    /// The default path is the empty relative path.
    fn default() -> (r: Self)
        ensures
            r@.segs == Seq::<Seq<char>>::empty(),
            !r@.absolute,
    {
        Path::new()
    }
}

impl PartialEq for Path {
    /// Paths are equal when their absoluteness and all segments agree.
    fn eq(&self, other: &Path) -> (r: bool)
    {
        if self.absolute != other.absolute {
            return false;
        }
        let n = self.segs.len();
        if n != other.segs.len() {
            proof {
                assert(self@.segs.len() != other@.segs.len());
                assert(self@ != other@);
            }
            return false;
        }
        let mut i: usize = 0;
        while i < n
            invariant
                i <= n,
                n == self@.segs.len(),
                n == other@.segs.len(),
                forall|j: int| 0 <= j < i ==> self@.segs[j] == other@.segs[j],
            decreases n - i,
        {
            if !(self.segs[i] == other.segs[i]) {
                proof {
                    assert(self@.segs[i as int] != other@.segs[i as int]);
                    assert(self@ != other@);
                }
                return false;
            }
            i += 1;
        }
        proof {
            assert(self@.segs =~= other@.segs);
        }
        true
    }
}

impl Eq for Path {

}

impl vstd::std_specs::cmp::PartialEqSpecImpl for Path {
    open spec fn obeys_eq_spec() -> bool {
        true
    }

    open spec fn eq_spec(&self, other: &Path) -> bool {
        self@ == other@
    }
}

} // verus!
