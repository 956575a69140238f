use httpcore::abnf::{find_crlf, is_alpha};

#[test]
fn test_alpha() {
    let mut first: Option<usize> = None;
    for (i, c) in "123a321".chars().enumerate() {
        if is_alpha(c) {
            first = Some(i);
            break;
        }
    }
    assert_eq!(first, Some(3));
}

#[test]
fn test_crlf() {
    let mat = find_crlf("aaaa\r\n").unwrap();
    assert_eq!(mat, 4);
}

#[test]
fn test_crlf_absent() {
    assert_eq!(find_crlf("aaaa"), None);
}
