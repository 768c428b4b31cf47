use holds::{Holds, Reassign};

#[test]
fn slice_holds_every_slice_taken_from_it() {
    let data = [10u32, 20, 30, 40, 50];
    let whole = &data[..];
    for start in 0..=whole.len() {
        for end in start..=whole.len() {
            let part = &whole[start..end];
            assert!(whole.holds(&part), "{start}..{end}");
        }
    }
}

#[test]
fn slice_holds_itself() {
    let data = [1u8, 2, 3];
    let whole = &data[..];
    assert!(whole.holds(&whole));
}

#[test]
fn slice_holds_an_empty_slice_at_its_end() {
    let data = [1u64, 2, 3, 4];
    let whole = &data[..];
    let at_end = &whole[4..];
    assert!(at_end.is_empty());
    assert!(whole.holds(&at_end));

    let inner = &whole[1..3];
    let at_inner_end = &whole[3..3];
    assert!(inner.holds(&at_inner_end));
}

#[test]
fn slice_does_not_hold_a_slice_that_starts_before_it() {
    let data = [1u16, 2, 3, 4, 5, 6];
    let whole = &data[..];
    let inner = &whole[2..5];
    assert!(!inner.holds(&&whole[1..3]));
    assert!(!inner.holds(&&whole[0..1]));
    assert!(!inner.holds(&&whole[1..1]));
    assert!(!inner.holds(&whole));
}

#[test]
fn slice_does_not_hold_a_slice_that_ends_after_it() {
    let data = [1u16, 2, 3, 4, 5, 6];
    let whole = &data[..];
    let inner = &whole[2..5];
    assert!(!inner.holds(&&whole[4..6]));
    assert!(!inner.holds(&&whole[2..6]));
    assert!(!inner.holds(&&whole[5..6]));
    assert!(!inner.holds(&&whole[6..6]));
}

#[test]
fn slice_does_not_hold_equal_elements_stored_elsewhere() {
    let data = vec![7i32, 8, 9];
    let copy = data.clone();
    assert_eq!(data, copy);
    assert!(!data[..].holds(&&copy[..]));
    assert!(!data[..].holds(&&copy[1..2]));
    assert!(!copy[..].holds(&&data[..]));
}

#[test]
fn slice_holds_its_elements() {
    let data = [3u64, 1, 4, 1, 5];
    let whole = &data[..];
    for element in whole {
        assert!(whole.holds(&element));
    }
    let inner = &whole[1..3];
    assert!(!inner.holds(&&whole[0]));
    assert!(inner.holds(&&whole[1]));
    assert!(inner.holds(&&whole[2]));
    assert!(!inner.holds(&&whole[3]));
}

#[test]
fn slice_does_not_hold_an_equal_value_stored_elsewhere() {
    let data = [3u64, 1, 4];
    let one = 1u64;
    assert!(!data[..].holds(&&one));
}

#[test]
fn str_holds_every_str_taken_from_it() {
    let text = "grüße, wörld";
    for start in 0..=text.len() {
        for end in start..=text.len() {
            if text.is_char_boundary(start) && text.is_char_boundary(end) {
                let part = &text[start..end];
                assert!(text.holds(&part), "{start}..{end}");
            }
        }
    }
}

#[test]
fn str_agrees_with_its_bytes() {
    let text = String::from("one two three");
    let other = String::from("two");
    let whole = text.as_str();
    let inner = &whole[4..7];
    let before = &whole[0..3];
    let candidates = [whole, inner, before, &whole[13..], other.as_str()];
    for container in [whole, inner] {
        for candidate in candidates {
            assert_eq!(
                container.holds(&candidate),
                container.as_bytes().holds(&candidate.as_bytes()),
            );
            assert_eq!(
                container.reassign(candidate).map(str::as_bytes),
                container.as_bytes().reassign(candidate.as_bytes()),
            );
        }
    }
    assert!(whole.holds(&inner));
    assert!(!inner.holds(&before));
    assert!(!whole.holds(&other.as_str()));
    assert_eq!(inner, other);
}

#[test]
fn str_holds_an_empty_str_at_its_end() {
    let text = String::from("abc");
    let whole = text.as_str();
    assert!(whole.holds(&&whole[3..]));
    assert_eq!(whole.reassign(&whole[3..]), Some(""));
}

#[test]
fn reassign_gives_back_every_slice_taken_from_the_container() {
    let data = [10u32, 20, 30, 40, 50];
    let whole = &data[..];
    for start in 0..=whole.len() {
        for end in start..=whole.len() {
            let part = &whole[start..end];
            let again = whole.reassign(part).unwrap();
            assert_eq!(again, part);
            assert!(std::ptr::eq(again, part));
        }
    }
}

#[test]
fn reassign_gives_nothing_for_what_is_not_held() {
    let data = [1u16, 2, 3, 4, 5, 6];
    let whole = &data[..];
    let inner = &whole[2..5];
    assert_eq!(inner.reassign(&whole[1..3]), None);
    assert_eq!(inner.reassign(&whole[4..6]), None);
    assert_eq!(inner.reassign(whole), None);
    assert_eq!(inner.reassign(&whole[6..]), None);
    let copy = data;
    assert_eq!(whole.reassign(&copy[..]), None);
    assert_eq!(whole.reassign(&copy[2..3]), None);
}

fn outlive<'a>(container: &'a [String], first: usize, len: usize) -> &'a [String] {
    let short_lived: Vec<&[String]> = vec![&container[first..first + len]];
    container.reassign(short_lived[0]).unwrap()
}

#[test]
fn reassigned_slice_lives_as_long_as_the_container() {
    let data = vec![String::from("a"), String::from("b"), String::from("c")];
    let run = outlive(&data, 1, 2);
    assert_eq!(run, &data[1..3]);
    assert_eq!(run[0], "b");
    assert_eq!(run[1], "c");
}

#[test]
fn reassign_gives_back_every_element_of_the_container() {
    let data = [3u64, 1, 4, 1, 5];
    let whole = &data[..];
    for element in whole {
        let again = whole.reassign(element).unwrap();
        assert_eq!(again, element);
        assert!(std::ptr::eq(again, element));
    }
}

#[test]
fn reassign_gives_nothing_for_an_element_that_is_not_held() {
    let data = [3u64, 1, 4, 1, 5];
    let whole = &data[..];
    let inner = &whole[1..3];
    let one = 1u64;
    assert_eq!(inner.reassign(&whole[0]), None);
    assert_eq!(inner.reassign(&whole[3]), None);
    assert_eq!(whole.reassign(&one), None);
    assert_eq!(inner.reassign(&whole[1]), Some(&1));
    assert_eq!(inner.reassign(&whole[2]), Some(&4));
}

#[test]
fn reassign_gives_back_every_str_taken_from_the_container() {
    let text = "grüße, wörld";
    for start in 0..=text.len() {
        for end in start..=text.len() {
            if text.is_char_boundary(start) && text.is_char_boundary(end) {
                let part = &text[start..end];
                let again = text.reassign(part).unwrap();
                assert_eq!(again, part);
                assert!(std::ptr::eq(again, part));
            }
        }
    }
}

#[test]
fn reassign_gives_nothing_for_a_str_that_is_not_held() {
    let text = String::from("one two three");
    let other = String::from("two");
    let whole = text.as_str();
    let inner = &whole[4..7];
    assert_eq!(inner, "two");
    assert_eq!(whole.reassign(inner), Some("two"));
    assert_eq!(whole.reassign(other.as_str()), None);
    assert_eq!(inner.reassign(&whole[0..3]), None);
    assert_eq!(inner.reassign(&whole[4..8]), None);
    assert_eq!(inner.reassign(whole), None);
}

fn first_word<'a>(line: &'a str) -> &'a str {
    let words: Vec<&str> = line.split(' ').collect();
    line.reassign(words[0]).unwrap()
}

#[test]
fn reassigned_str_lives_as_long_as_the_container() {
    let line = String::from("héllo wörld");
    assert_eq!(first_word(&line), "héllo");
}

#[test]
fn slices_of_elements_without_width() {
    let data = [(), (), ()];
    let whole = &data[..];
    assert!(whole.holds(&&whole[1..2]));
    assert!(whole.holds(&&whole[3..]));
    assert!(whole.holds(&&whole[0]));
    assert_eq!(whole.reassign(&whole[1..3]), Some(&[(), ()][..]));
    assert_eq!(whole.reassign(&whole[2]), Some(&()));
}

#[test]
fn empty_container_holds_only_the_empty_slice_where_it_lies() {
    let data = [1u8, 2, 3];
    let whole = &data[..];
    let empty = &whole[1..1];
    assert!(empty.holds(&empty));
    assert!(!empty.holds(&&whole[1..2]));
    assert!(!empty.holds(&&whole[0..0]));
    assert!(!empty.holds(&&whole[2..2]));
    assert_eq!(empty.reassign(empty), Some(&[][..]));
    assert_eq!(empty.reassign(&whole[1]), None);
}

#[test]
fn run_that_starts_between_two_elements_is_held_and_not_reassigned() {
    let data = [[1u8, 2], [3, 4], [5, 6]];
    let whole = &data[..];
    let bytes = whole.as_flattened();
    let (between, rest) = bytes[1..5].as_chunks::<2>();
    assert!(rest.is_empty());
    assert_eq!(between, &[[2, 3], [4, 5]][..]);
    assert!(whole.holds(&between));
    assert_eq!(whole.reassign(between), None);
    assert!(whole.holds(&&between[0]));
    assert_eq!(whole.reassign(&between[0]), None);

    let (aligned, _) = bytes[2..6].as_chunks::<2>();
    assert!(whole.holds(&aligned));
    assert_eq!(whole.reassign(aligned), Some(&data[1..3]));
}

#[test]
fn more_elements_without_width_than_the_container_has_are_not_reassigned() {
    let three: Vec<()> = vec![(); 3];
    let five: Vec<()> = vec![(); 5];
    assert!(five[..].holds(&&three[..]));
    assert_eq!(five[..].reassign(&three[..]), Some(&three[..]));
    if three[..].holds(&&five[..]) {
        assert_eq!(three[..].reassign(&five[..]), None);
    }
}
