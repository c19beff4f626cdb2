use ref_negotiation::byte_str::{append, copy, copy_range, equal, find, less, split_on};

#[test]
fn equal_compares_content() {
    assert!(equal(b"abc", b"abc"));
    assert!(!equal(b"abc", b"abd"));
    assert!(!equal(b"abc", b"ab"));
    assert!(equal(b"", b""));
}

#[test]
fn less_is_the_lexicographic_order() {
    assert!(less(b"a", b"b"));
    assert!(less(b"ab", b"abc"));
    assert!(less(b"", b"a"));
    assert!(!less(b"abc", b"ab"));
    assert!(!less(b"abc", b"abc"));
    assert!(less(b"Z", b"a"));
    assert!(!less(b"", b""));
}

#[test]
fn find_gives_the_first_position() {
    assert_eq!(find(b"a=b=c", b'='), Some(1));
    assert_eq!(find(b"=", b'='), Some(0));
    assert_eq!(find(b"abc", b'='), None);
    assert_eq!(find(b"", b'='), None);
}

#[test]
fn split_on_keeps_empty_pieces() {
    assert_eq!(split_on(b"a b", b' '), vec![b"a".to_vec(), b"b".to_vec()]);
    assert_eq!(split_on(b"", b' '), vec![Vec::<u8>::new()]);
    assert_eq!(split_on(b" ", b' '), vec![Vec::<u8>::new(), Vec::new()]);
    assert_eq!(split_on(b"a  b", b' '), vec![b"a".to_vec(), Vec::new(), b"b".to_vec()]);
    assert_eq!(split_on(b"abc", b' '), vec![b"abc".to_vec()]);
}

#[test]
fn copies_and_appending() {
    assert_eq!(copy(b"abc"), b"abc".to_vec());
    assert_eq!(copy_range(b"abcdef", 2, 4), b"cd".to_vec());
    assert_eq!(copy_range(b"abcdef", 3, 3), Vec::<u8>::new());
    assert_eq!(append(b"ref-prefix ", b"refs/heads/"), b"ref-prefix refs/heads/".to_vec());
}
