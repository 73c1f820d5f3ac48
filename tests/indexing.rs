use os_str_manip::index::OsStrIndexError;
use os_str_manip::manip::OsStrManip;
use os_str_manip::os_string::{OsString, OsStringFromItem, OsStringFromIter};
use os_str_manip::search::OsStrPattern;

fn os(s: &str) -> OsString {
    OsString::from_units(s.as_bytes().to_vec())
}

fn units(v: &[u8]) -> OsString {
    OsString::from_units(v.to_vec())
}

fn samples() -> Vec<OsString> {
    vec![
        units(&[0]),
        units(&[255, 0, 255]),
        os("Hello"),
        units(&[7, 7, 7, 7]),
        os("Idempotency"),
        units(&[1, 2, 3, 4, 5, 6, 7, 8, 9, 10]),
    ]
}

#[test]
fn singleton_os_strings_agree() {
    for item in 0..=255u8 {
        assert_eq!(item.to_os_string(), vec![item].to_os_string());
        assert_eq!(item.to_os_string().as_units(), &[item][..]);
    }
}

#[test]
fn range_indexing_agrees_with_singleton_from_item_indexing() {
    for string in samples() {
        for index in 0..string.len() {
            let unit = string.index(index).unwrap();
            assert_eq!(string.index(index..=index).unwrap(), unit.to_os_string());
            assert_eq!(string.index(index..index + 1).unwrap(), unit.to_os_string());
        }
    }
}

#[test]
fn items_are_elements() {
    for string in samples() {
        let mut items = string.items();
        while let Some(item) = items.next() {
            assert!(string.contains(item));
        }
    }
}

#[test]
fn item_indexing_produces_elements() {
    for string in samples() {
        for index in 0..string.len() {
            assert!(string.index(index).unwrap().is_contained_in(&string));
        }
    }
}

fn check_run(string: &OsString, substring: &OsString, start: usize, count: usize) {
    assert_eq!(substring.items().count(), count);
    for index in 0..substring.len() {
        let item = substring.index(index).unwrap();
        assert!(string.contains(item));
        assert_eq!(string.index(start + index).unwrap(), item);
    }
}

#[test]
fn test_range_index() {
    for string in samples() {
        for start in 0..=string.len() {
            for end in start..=string.len() {
                let substring = string.index(start..end).unwrap();
                check_run(&string, &substring, start, end - start);
            }
        }
    }
}

#[test]
fn test_range_from_index() {
    for string in samples() {
        for start in 0..=string.len() {
            let substring = string.index(start..).unwrap();
            check_run(&string, &substring, start, string.items().count() - start);
        }
    }
}

#[test]
fn test_range_full_index() {
    for string in samples() {
        let new_string = string.index(..).unwrap();
        assert_eq!(&string, &new_string);
    }
    assert_eq!(units(&[]).index(..).unwrap(), units(&[]));
}

#[test]
fn test_range_inclusive_index() {
    for string in samples() {
        for start in 0..=string.len() {
            for end in start.saturating_sub(1)..string.len() {
                let substring = string.index(start..=end).unwrap();
                check_run(&string, &substring, start, end + 1 - start);
            }
        }
    }
}

#[test]
fn test_range_to_index() {
    for string in samples() {
        for end in 0..=string.len() {
            let substring = string.index(..end).unwrap();
            check_run(&string, &substring, 0, end);
        }
    }
}

#[test]
fn test_range_to_inclusive_index() {
    for string in samples() {
        for end in 0..string.len() {
            let substring = string.index(..=end).unwrap();
            check_run(&string, &substring, 0, end + 1);
        }
    }
}

#[test]
fn single_unit_range_selects_that_unit() {
    let s = units(&[10]);
    assert_eq!(s.index(0..=0).unwrap(), units(&[10]));
    assert_eq!(s.index(0..0).unwrap(), units(&[]));
}

#[test]
fn ranges_at_the_exact_end_are_empty() {
    let s = os("abcde");
    assert_eq!(s.index(5..5).unwrap(), units(&[]));
    assert_eq!(s.index(5..).unwrap(), units(&[]));
    assert_eq!(s.index(..0).unwrap(), units(&[]));
}

#[test]
fn position_past_the_end_is_out_of_bounds() {
    let s = os("abc");
    assert_eq!(s.index(4), Err(OsStrIndexError::OutOfBounds));
    assert_eq!(s.index(3), Err(OsStrIndexError::OutOfBounds));
    assert_eq!(s.index(2), Ok(b'c'));
}

#[test]
fn range_errors() {
    let s = os("abc");
    assert_eq!(s.index(2..1), Err(OsStrIndexError::InvalidRange));
    assert_eq!(s.index(1..4), Err(OsStrIndexError::OutOfBounds));
    assert_eq!(s.index(4..2), Err(OsStrIndexError::InvalidRange));
    assert_eq!(s.index(4..), Err(OsStrIndexError::OutOfBounds));
    assert_eq!(s.index(..4), Err(OsStrIndexError::OutOfBounds));
    assert_eq!(s.index(..=3), Err(OsStrIndexError::OutOfBounds));
    assert_eq!(s.index(3..=1), Err(OsStrIndexError::InvalidRange));
    assert_eq!(s.index(1..=3), Err(OsStrIndexError::OutOfBounds));
    assert_eq!(s.index(2..=1).unwrap(), units(&[]));
    assert_eq!(s.index(1..=usize::MAX), Err(OsStrIndexError::OutOfBounds));
    assert_eq!(units(&[]).index(..=0), Err(OsStrIndexError::OutOfBounds));
}

#[test]
fn unchecked_index_selects_like_checked() {
    let s = os("Catacombs");
    assert_eq!(s.index_unchecked(1..4), os("ata"));
    assert_eq!(s.index_unchecked(3..), os("acombs"));
    assert_eq!(s.index_unchecked(..), os("Catacombs"));
    assert_eq!(s.index_unchecked(2..=3), os("ta"));
    assert_eq!(s.index_unchecked(..2), os("Ca"));
    assert_eq!(s.index_unchecked(..=2), os("Cat"));
    assert_eq!(s.index_unchecked(8), b's');
}

#[test]
fn items_traversal() {
    let s = os("Puppet");
    assert_eq!(s.items().to_os_string(), s);
    assert_eq!(s.items().size_hint(), (6, Some(6)));
    assert_eq!(s.items().nth(0), Some(b'P'));
    assert_eq!(s.items().nth(6), None);
    assert_eq!(s.items().last(), Some(b't'));
    assert_eq!(units(&[]).items().last(), None);
    assert_eq!(s.items().skip(2).take(3).to_os_string(), os("ppe"));
    assert_eq!(s.items().skip(9).count(), 0);
    assert_eq!(s.items().take(9).to_os_string(), s);
    let mut it = s.items();
    assert_eq!(it.nth(1), Some(b'u'));
    assert_eq!(it.next(), Some(b'p'));
    assert_eq!(it.count(), 3);
}
