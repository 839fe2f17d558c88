use adjent::numbers::{decimal, parse_u32};
use adjent::paths::{join_path, path_components};
use std::path::Path;

fn std_components(p: &str) -> Vec<String> {
    Path::new(p)
        .components()
        .map(|c| c.as_os_str().to_str().unwrap_or("").to_string())
        .collect()
}

#[test]
fn components_match_std() {
    let cases = [
        "", "/", "//", "/a", "a", "a/", "a//b", "/a/./b", "./a", ".", "./", "..", "../a",
        "a/../b", "/home/user/state/projects/p", "a/.", "./.", "/./", ".a/b", "a/b/c/", "/.hidden",
    ];
    for c in cases {
        assert_eq!(path_components(c), std_components(c), "components of {:?}", c);
    }
}

#[test]
fn join_matches_std() {
    let cases = [
        ("", "a"), ("a", ""), ("a", "b"), ("a/", "b"), ("/", "b"), ("a", "/b"), ("/x/y", "z.json"),
        ("", ""), ("a//", "b"),
    ];
    for (base, part) in cases {
        let expected = Path::new(base).join(part);
        assert_eq!(join_path(base, part), expected.to_str().unwrap(), "join {:?} {:?}", base, part);
    }
}

#[test]
fn parse_matches_std() {
    let cases = [
        "", "+", "-", "0", "+0", "-0", "007", "42", "4294967295", "4294967296", "99999999999",
        "1a", " 1", "+-1", "++1", "12345",
    ];
    for c in cases {
        assert_eq!(parse_u32(c), c.parse::<u32>().ok(), "parse {:?}", c);
    }
}

#[test]
fn decimal_matches_std() {
    for n in [0u32, 1, 9, 10, 99, 100, 12345, 4294967295] {
        assert_eq!(decimal(n), n.to_string());
        assert_eq!(parse_u32(&decimal(n)), Some(n));
    }
}
