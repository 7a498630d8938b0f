use semka_core::path::Path;
use std::cmp::Ordering;

fn p(s: &str) -> Path {
    Path::parse(s).unwrap()
}

#[test]
fn empty_paths() {
    let rel = Path::new();
    let abs = Path::new_absolute();
    assert!(rel.is_empty());
    assert!(abs.is_empty());
    assert!(!rel.is_absolute());
    assert!(abs.is_absolute());
    assert_eq!(rel.len(), 0);
    assert!(rel != abs);
}

#[test]
fn add_appends_segments() {
    let a = Path::new().add("a").add("b");
    assert_eq!(a.len(), 2);
    assert_eq!(a.get(0), Some("a"));
    assert_eq!(a.get(1), Some("b"));
    assert_eq!(a.get(2), None);
    assert_eq!(a.to_string(), "a/b");
}

#[test]
fn add_leaves_original_untouched() {
    let a = Path::new().add("a");
    let b = a.add("b");
    assert_eq!(a.len(), 1);
    assert_eq!(b.len(), 2);
}

#[test]
fn join_concatenates_relative() {
    let a = p("a/b");
    let b = p("c/d");
    assert_eq!(a.join(&b), p("a/b/c/d"));
}

#[test]
fn join_absolute_replaces() {
    let a = p("a/b");
    let b = p("/c/d");
    assert_eq!(a.join(&b), p("/c/d"));
}

#[test]
fn join_keeps_absoluteness_of_left() {
    let a = p("/a");
    let b = p("b");
    let joined = a.join(&b);
    assert!(joined.is_absolute());
    assert_eq!(joined.to_string(), "/a/b");
}

#[test]
fn join_empty_right_is_identity() {
    let a = p("/a/b");
    assert_eq!(a.join(&Path::new()), a);
}

#[test]
fn head_and_tail_split_document_name() {
    let a = p("doc/sub/part");
    assert_eq!(a.head(), p("doc"));
    assert_eq!(a.tail(), p("sub/part"));
    let single = p("doc");
    assert_eq!(single.head(), single);
    assert!(single.tail().is_empty());
    let empty = Path::new();
    assert_eq!(empty.head(), empty);
    assert!(empty.tail().is_empty());
}

#[test]
fn parse_drops_empty_segments() {
    assert_eq!(p("a//b/"), p("a/b"));
    assert_eq!(p("//a"), Path::new_absolute().add("a"));
    assert_eq!(p(""), Path::new());
    assert_eq!(p("/"), Path::new_absolute());
}

#[test]
fn parse_leading_slash_means_absolute() {
    assert!(p("/a").is_absolute());
    assert!(!p("a").is_absolute());
}

#[test]
fn to_string_round_trip() {
    for s in ["", "/", "a", "/a", "a/b/c", "/x/y"] {
        let path = p(s);
        assert_eq!(p(&path.to_string()), path);
    }
    let built = Path::new_absolute().add("a").add("b").join(&p("c"));
    assert_eq!(p(&built.to_string()), built);
}

#[test]
fn releative_to_of_extension() {
    let base = p("/a/b");
    let path = p("/a/b/c/d");
    let rel = path.clone().releative_to(&base).unwrap();
    assert_eq!(rel, p("c/d"));
    assert!(!rel.is_absolute());
    assert_eq!(base.join(&rel), path);
}

#[test]
fn releative_to_emits_parent_steps() {
    let base = p("/a/x");
    let path = p("/a/b");
    let rel = path.releative_to(&base).unwrap();
    assert_eq!(rel.to_string(), "../b");
}

#[test]
fn releative_to_equal_paths_is_empty() {
    let base = p("/a");
    let rel = p("/a").releative_to(&base).unwrap();
    assert!(rel.is_empty());
    assert_eq!(base.join(&rel), base);
}

#[test]
fn releative_to_mismatched_absoluteness_fails() {
    assert!(p("/a").releative_to(&p("a")).is_err());
    assert!(p("a").releative_to(&p("/a")).is_err());
}

#[test]
fn is_subpath_is_strict() {
    assert!(!p("a/b").is_subpath(&p("a/b")));
    assert!(p("a").is_subpath(&p("a/b")));
    assert!(!p("a/b").is_subpath(&p("a")));
    assert!(!p("x").is_subpath(&p("a/b")));
    assert!(!p("/a").is_subpath(&p("a/b")));
}

#[test]
fn is_superpath_mirrors_is_subpath() {
    assert!(p("a/b").is_superpath(&p("a")));
    assert!(!p("a").is_superpath(&p("a/b")));
    assert!(!p("a").is_superpath(&p("a")));
}

#[test]
fn free_functions_on_segment_lists() {
    let base = vec!["a".to_string(), "x".to_string()];
    let path = vec!["a".to_string(), "b".to_string(), "c".to_string()];
    let rel = semka_core::path::releative_path(&base, &path);
    assert_eq!(rel, vec!["..".to_string(), "b".to_string(), "c".to_string()]);
    let lhs = vec!["a".to_string()];
    let rhs = vec!["a".to_string(), "b".to_string()];
    assert!(semka_core::path::is_subpath(&lhs, &rhs));
    assert!(!semka_core::path::is_subpath(&rhs, &lhs));
    assert!(!semka_core::path::is_subpath(&lhs, &lhs));
}

#[test]
fn order_is_segment_wise() {
    assert_eq!(p("a/b").cmp(&p("a/c")), Ordering::Less);
    assert_eq!(p("b").cmp(&p("a/zzz")), Ordering::Greater);
    assert_eq!(p("a/b").cmp(&p("a/b")), Ordering::Equal);
}

#[test]
fn order_shorter_sorts_greater_at_divergence() {
    assert_eq!(p("a").cmp(&p("a/b")), Ordering::Greater);
    assert_eq!(p("a/b").cmp(&p("a")), Ordering::Less);
    assert_eq!(Path::new().cmp(&p("a")), Ordering::Greater);
}

#[test]
fn order_compares_code_points() {
    // Non-ASCII segments order by code point, matching byte-wise UTF-8 order.
    assert_eq!(p("e").cmp(&p("\u{e9}")), Ordering::Less);
    assert_eq!(p("\u{e9}").cmp(&p("e")), Ordering::Greater);
}

#[test]
fn iterator_walks_both_ends() {
    let a = p("x/y/z");
    let mut it = a.iter();
    assert_eq!(it.next(), Some("x"));
    assert_eq!(it.next_back(), Some("z"));
    assert_eq!(it.next(), Some("y"));
    assert_eq!(it.next(), None);
    assert_eq!(it.next_back(), None);
}

#[test]
fn clone_shares_value() {
    let a = p("a/b/c");
    let b = a.clone();
    assert_eq!(a, b);
}

#[test]
fn default_is_empty_relative() {
    let d: Path = Default::default();
    assert!(d.is_empty());
    assert!(!d.is_absolute());
}
