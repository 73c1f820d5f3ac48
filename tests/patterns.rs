use os_str_manip::manip::OsStrManip;
use os_str_manip::os_string::OsString;
use os_str_manip::search::{OsStrPattern, OsStrSearchStep, OsStrSearcher};

fn os(s: &str) -> OsString {
    OsString::from_units(s.as_bytes().to_vec())
}

fn units(v: &[u8]) -> OsString {
    OsString::from_units(v.to_vec())
}

fn steps<S: OsStrSearcher>(mut searcher: S) -> Vec<OsStrSearchStep> {
    let mut out = Vec::new();
    loop {
        match searcher.next() {
            OsStrSearchStep::Done => break,
            step => out.push(step),
        }
    }
    assert_eq!(searcher.next(), OsStrSearchStep::Done);
    out
}

#[test]
fn hello_starts_with() {
    let s = units(&[72, 101, 108, 108, 111]);
    assert!(s.starts_with(&units(&[72, 101])));
    assert!(!s.starts_with(&units(&[111])));
    assert!(!s.starts_with(111u8));
    assert!(s.starts_with(72u8));
}

#[test]
fn empty_string_scenario() {
    let s = units(&[]);
    assert_eq!(s.strip_prefix(&units(&[])), Some(units(&[])));
    assert!(!s.contains(&units(&[1])));
    assert!(!s.contains(1u8));
    assert!(s.contains(&units(&[])));
    assert!(s.ends_with(&units(&[])));
    assert_eq!(s.strip_suffix(&units(&[])), Some(units(&[])));
}

#[test]
fn repeated_pair_scenario() {
    let s = units(&[65, 66, 65, 66]);
    assert!((&units(&[65, 66])).is_contained_in(&s));
    assert_eq!(s.strip_suffix(&units(&[65, 66])), Some(units(&[65, 66])));
    assert_eq!(s.strip_prefix(&units(&[65, 66])), Some(units(&[65, 66])));
}

#[test]
fn starts_with_examples() {
    assert!(os("Hello, world!").starts_with(&os("Hell")));
    assert!(!os("Lucifer").starts_with(&os("Money")));
    assert!(os("Opportunism").starts_with(&os("")));
    assert!(!os("Ferris").starts_with(&os("Ferris wheel")));
    assert!(os("Howl").starts_with(&os("Howl")));
    let s = os("Optometrist");
    assert!(s.starts_with(s.items().nth(0).unwrap()));
}

#[test]
fn ends_with_examples() {
    assert!(os("Sputnik").ends_with(&os("nik")));
    assert!(!os("Opera").ends_with(&os("Oxen")));
    assert!(os("Failure").ends_with(&os("")));
    assert!(!os("Cloak").ends_with(&os("Cloaked in shadow")));
    assert!(os("Moped").ends_with(&os("Moped")));
    let s = os("Pipes");
    assert!(s.ends_with(s.items().last().unwrap()));
    assert!(!s.ends_with(b'P'));
}

#[test]
fn contains_examples() {
    assert!(os("Coca-Cola").contains(&os("-")));
    assert!(os("Comedy").contains(&os("ome")));
    assert!(os("Plethora").contains(&os("Plethora")));
    assert!(!os("Oak").contains(&os("y")));
    assert!(!os("Bayesian").contains(&os("Bayesian inference")));
    assert!(os("Freeze").contains(&os("")));
    let s = os("Idempotency");
    assert!(s.contains(s.items().nth(4).unwrap()));
    assert!(!s.contains(b'z'));
}

#[test]
fn strip_prefix_examples() {
    assert_eq!(os("Union").strip_prefix(&os("Un")), Some(os("ion")));
    assert_eq!(os("Cape").strip_prefix(&os("pe")), None);
    assert_eq!(os("Flake").strip_prefix(&os("xy")), None);
    assert_eq!(os("Human").strip_prefix(&os("Humanity")), None);
    assert_eq!(os("Grapefruit").strip_prefix(&os("Grapefruit")), Some(os("")));
    let s = os("Hors d'oeuvre");
    assert_eq!(s.strip_prefix(s.items().nth(0).unwrap()), Some(os("ors d'oeuvre")));
    assert_eq!(s.strip_prefix(&os("")), Some(os("Hors d'oeuvre")));
}

#[test]
fn strip_suffix_examples() {
    assert_eq!(os("Globe").strip_suffix(&os("be")), Some(os("Glo")));
    assert_eq!(os("Caretaker").strip_suffix(&os("Ca")), None);
    assert_eq!(os("Upright").strip_suffix(&os("foo")), None);
    assert_eq!(os("Color").strip_suffix(&os("New Color")), None);
    assert_eq!(os("Ink").strip_suffix(&os("Ink")), Some(os("")));
    let s = os("Catacombs");
    assert_eq!(s.strip_suffix(s.items().last().unwrap()), Some(os("Catacomb")));
    assert_eq!(s.strip_suffix(&os("")), Some(os("Catacombs")));
}

#[test]
fn item_searcher_steps() {
    let s = os("abca");
    assert_eq!(
        steps(b'a'.into_searcher(&s)),
        vec![
            OsStrSearchStep::Match(0, 1),
            OsStrSearchStep::Reject(1, 2),
            OsStrSearchStep::Reject(2, 3),
            OsStrSearchStep::Match(3, 4),
        ]
    );
    assert_eq!(steps(b'a'.into_searcher(&units(&[]))), vec![]);
}

#[test]
fn multi_item_searcher_steps() {
    let s = os("abca");
    let expected = vec![
        OsStrSearchStep::Match(0, 1),
        OsStrSearchStep::Match(1, 2),
        OsStrSearchStep::Reject(2, 3),
        OsStrSearchStep::Match(3, 4),
    ];
    assert_eq!(steps([b'a', b'b'].into_searcher(&s)), expected);
    assert_eq!(steps((&[b'b', b'a']).into_searcher(&s)), expected);
    let set: &[u8] = &[b'a', b'b'];
    assert_eq!(steps(set.into_searcher(&s)), expected);
    assert_eq!(steps((|u: u8| u < b'c').into_searcher(&s)), expected);
}

#[test]
fn multi_item_patterns() {
    let s = os("Coca-Cola");
    assert!(s.contains([b'x', b'-']));
    assert!(!s.contains([b'x', b'y']));
    assert!(s.starts_with(|u: u8| u.is_ascii_uppercase()));
    assert!(!s.ends_with(|u: u8| u.is_ascii_uppercase()));
    assert_eq!(s.strip_prefix([b'C', b'o']), Some(os("oca-Cola")));
    assert_eq!(s.strip_suffix(&[b'a'][..]), Some(os("Coca-Col")));
    assert_eq!(s.strip_suffix([b'C']), None);
    let empty: [u8; 0] = [];
    assert!(!s.contains(empty));
}

#[test]
fn substring_searcher_steps() {
    let s = os("xABxAB");
    assert_eq!(
        steps((&os("AB")).into_searcher(&s)),
        vec![
            OsStrSearchStep::Reject(0, 1),
            OsStrSearchStep::Match(1, 3),
            OsStrSearchStep::Reject(3, 4),
            OsStrSearchStep::Match(4, 6),
        ]
    );
    assert_eq!(
        steps((&os("AB")).into_searcher(&os("AAB"))),
        vec![OsStrSearchStep::Reject(0, 2), OsStrSearchStep::Reject(2, 3)]
    );
    assert_eq!(
        steps((&os("ABC")).into_searcher(&os("xAB"))),
        vec![OsStrSearchStep::Reject(0, 1), OsStrSearchStep::Reject(1, 3)]
    );
}

#[test]
fn a_mismatch_skips_past_the_units_compared() {
    let s = os("AAB");
    assert!(!s.contains(&os("AB")));
    assert!(!s.ends_with(&os("AB")));
    assert_eq!(s.strip_suffix(&os("AB")), None);
}

#[test]
fn empty_needle_matches_every_offset() {
    let s = os("ab");
    assert_eq!(
        steps((&os("")).into_searcher(&s)),
        vec![
            OsStrSearchStep::Match(0, 0),
            OsStrSearchStep::Match(1, 1),
            OsStrSearchStep::Match(2, 2),
        ]
    );
    assert_eq!(steps((&os("")).into_searcher(&os(""))), vec![OsStrSearchStep::Match(0, 0)]);
}

#[test]
fn next_match_skips_rejects() {
    let s = os("xABxAB");
    let needle = os("AB");
    let mut searcher = (&needle).into_searcher(&s);
    assert_eq!(searcher.next_match(), Some((1, 3)));
    assert_eq!(searcher.next_match(), Some((4, 6)));
    assert_eq!(searcher.next_match(), None);
    assert_eq!(searcher.next(), OsStrSearchStep::Done);
}

#[test]
fn next_reject_reports_the_next_match() {
    let s = os("xxa");
    let mut searcher = b'a'.into_searcher(&s);
    assert_eq!(searcher.next_reject(), Some((2, 3)));
    assert_eq!(searcher.next_reject(), None);
}
