use comic_encoder::natsort::{natural_cmp_as_written, take_num};
use comic_encoder::order::Order;
use comic_encoder::paths::{name_order_of, path_order_of, raw_order_of};
use comic_encoder::{natural_cmp, natural_paths_cmp};
use std::cmp::Ordering;

fn chars(s: &str) -> Vec<char> {
    s.chars().collect()
}

fn path(s: &str) -> Vec<String> {
    s.split('/').map(|c| c.to_string()).collect()
}

const CORPUS: [&str; 18] = [
    "", "a", "A", "b", "Folder 1", "Folder 2", "Folder 10", "Folder 010", "folder 10",
    "Folder 10 bis", "Folder 100", "10", "010", "9", "x9y", "x10y", "x10", "é2",
];

#[test]
fn folder_2_sorts_before_folder_10() {
    assert_eq!(natural_cmp("Folder 2", "Folder 10"), Ordering::Less);
    assert_eq!("Folder 2".cmp("Folder 10"), Ordering::Greater);
    assert_eq!(raw_order_of(&chars("Folder 2"), &chars("Folder 10")), Order::Greater);
    assert_eq!(name_order_of("Folder 2", "Folder 10", true), Order::Less);
    assert_eq!(name_order_of("Folder 2", "Folder 10", false), Order::Greater);
}

#[test]
fn a_string_equals_itself() {
    for s in CORPUS {
        assert_eq!(natural_cmp(s, s), Ordering::Equal);
        assert_eq!(natural_cmp_as_written(s, s), Ordering::Equal);
    }
}

#[test]
fn swapping_the_sides_reverses_the_outcome() {
    for a in CORPUS {
        for b in CORPUS {
            assert_eq!(natural_cmp(a, b), natural_cmp(b, a).reverse());
        }
    }
}

#[test]
fn the_order_is_transitive_on_the_corpus() {
    for a in CORPUS {
        for b in CORPUS {
            for c in CORPUS {
                let ab = natural_cmp(a, b);
                let bc = natural_cmp(b, c);
                if ab != Ordering::Greater && bc != Ordering::Greater {
                    let ac = natural_cmp(a, c);
                    assert_ne!(ac, Ordering::Greater);
                    if ab == Ordering::Less || bc == Ordering::Less {
                        assert_eq!(ac, Ordering::Less);
                    }
                }
            }
        }
    }
}

#[test]
fn natural_sort_of_directories() {
    let mut directories = vec!["Folder 20", "Folder 1", "Folder 100"];
    directories.sort();
    assert_eq!(directories, vec!["Folder 1", "Folder 100", "Folder 20"]);
    directories.sort_by(|a, b| natural_cmp(a, b));
    assert_eq!(directories, vec!["Folder 1", "Folder 20", "Folder 100"]);
}

#[test]
fn numbers_are_compared_by_value() {
    assert_eq!(natural_cmp("a007", "a7"), Ordering::Equal);
    assert_eq!(natural_cmp("a007", "a8"), Ordering::Less);
    assert_eq!(natural_cmp("a10", "a9"), Ordering::Greater);
    assert_eq!(natural_cmp("a0", "a"), Ordering::Greater);
    assert_eq!(natural_cmp("a00", "a0"), Ordering::Equal);
    assert_eq!(
        natural_cmp("p123456789012345678901234567890", "p123456789012345678901234567891"),
        Ordering::Less
    );
}

#[test]
fn the_walk_goes_on_behind_equal_numbers() {
    assert_eq!(natural_cmp("ch1b", "ch1a"), Ordering::Greater);
    assert_eq!(natural_cmp("ch01-2", "ch1-10"), Ordering::Less);
    assert_eq!(natural_cmp("v2", "v2.1"), Ordering::Less);
}

#[test]
fn digits_and_other_characters_compare_by_code_point() {
    assert_eq!(natural_cmp("a1", "a-"), Ordering::Greater);
    assert_eq!(natural_cmp("a1", "ab"), Ordering::Less);
    assert_eq!(natural_cmp("", "0"), Ordering::Less);
    assert_eq!(natural_cmp("a", ""), Ordering::Greater);
}

#[test]
fn case_is_folded_before_comparing() {
    assert_eq!(natural_cmp("CHAPTER 2", "chapter 2"), Ordering::Equal);
    assert_eq!(natural_cmp("B", "a"), Ordering::Greater);
    assert_eq!(natural_cmp_as_written("B", "a"), Ordering::Less);
    assert_eq!(natural_cmp("Éa", "éB"), Ordering::Less);
}

#[test]
fn take_num_drops_leading_zeros() {
    assert_eq!(take_num(&chars("00120x"), 0), (vec![1, 2, 0], 5));
    assert_eq!(take_num(&chars("ab000"), 2), (vec![], 5));
    assert_eq!(take_num(&chars("ab"), 0), (vec![], 0));
    assert_eq!(take_num(&chars("7"), 1), (vec![], 1));
}

#[test]
fn paths_compare_component_by_component() {
    assert_eq!(natural_paths_cmp(&path("a/b2"), &path("a/b10")), Ordering::Less);
    assert_eq!(natural_paths_cmp(&path("a/b"), &path("a/b/c")), Ordering::Less);
    assert_eq!(natural_paths_cmp(&path("a/b/c"), &path("a/b")), Ordering::Greater);
    assert_eq!(natural_paths_cmp(&path("a/B"), &path("A/b")), Ordering::Equal);
    assert_eq!(natural_paths_cmp(&path("a10/b"), &path("a9/z")), Ordering::Greater);
    assert_eq!(natural_paths_cmp(&Vec::new(), &Vec::new()), Ordering::Equal);
    assert_eq!(path_order_of(&path("a/b2"), &path("a/b10"), false), Order::Greater);
    assert_eq!(path_order_of(&path("a"), &path("a b"), false), Order::Less);
}

#[test]
fn a_path_equals_itself() {
    for p in ["a", "a/b", "Vol 1/Chapter 02/003.png", ""] {
        assert_eq!(natural_paths_cmp(&path(p), &path(p)), Ordering::Equal);
        assert_eq!(path_order_of(&path(p), &path(p), false), Order::Equal);
    }
}

/// An independent reading of the natural order: both strings are cut into
/// numbers and single characters, and compared piece by piece.
fn pieces(s: &str) -> Vec<(u32, String)> {
    let chars: Vec<char> = s.chars().collect();
    let mut found = Vec::new();
    let mut i = 0;
    while i < chars.len() {
        if chars[i].is_ascii_digit() {
            let mut digits = String::new();
            while i < chars.len() && chars[i].is_ascii_digit() {
                digits.push(chars[i]);
                i += 1;
            }
            let significant = digits.trim_start_matches('0').to_string();
            found.push((u32::MAX, format!("{:0>40}", significant)));
        } else {
            found.push((chars[i] as u32, String::new()));
            i += 1;
        }
    }
    found
}

fn reference(a: &str, b: &str) -> Ordering {
    let (a, b) = (pieces(a), pieces(b));
    for (x, y) in a.iter().zip(b.iter()) {
        let order = match (x.0 == u32::MAX, y.0 == u32::MAX) {
            (true, true) => x.1.cmp(&y.1),
            (true, false) => ('0' as u32).cmp(&y.0),
            (false, true) => x.0.cmp(&('0' as u32)),
            (false, false) => x.0.cmp(&y.0),
        };
        if order != Ordering::Equal {
            return order;
        }
    }
    a.len().cmp(&b.len())
}

#[test]
fn the_order_agrees_with_a_piecewise_comparison() {
    let corpus = [
        "", "0", "00", "1", "01", "10", "2", "a", "a0", "a00", "a1", "a01", "a1b", "a1c", "a2", "a10",
        "a10b2", "a10b10", "a/", "a-", "a:", "a~1", "b", "1a", "1b", "01a", "9z", "10a", "z9", "z10",
        "Vol 1 Ch 2", "Vol 1 Ch 10", "Vol 01 Ch 3", "Vol 2", "vol 1", "12345678901234567890123",
        "12345678901234567890124", "x 007 y", "x 7 y", "x 7 z", "x 70 a",
    ];
    for a in corpus {
        for b in corpus {
            assert_eq!(natural_cmp_as_written(a, b), reference(a, b), "{:?} against {:?}", a, b);
        }
    }
}
