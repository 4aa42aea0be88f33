use lifekit::greet::secure_buf::{SecureBuf, MAX_LEN, PAGE};

#[test]
fn push_pop_multibyte() {
    let mut b = SecureBuf::new();
    b.push_str("aé🔒");
    assert_eq!(b.as_bytes(), "aé🔒".as_bytes());
    assert!(b.pop_char());
    assert_eq!(b.as_bytes(), "aé".as_bytes());
    assert!(b.pop_char());
    assert_eq!(b.as_bytes(), b"a");
    assert!(b.pop_char());
    assert!(b.is_empty());
    assert!(!b.pop_char());
}

#[test]
fn cap_drops_silently() {
    let mut b = SecureBuf::new();
    let big = "x".repeat(MAX_LEN);
    b.push_str(&big);
    assert_eq!(b.len(), MAX_LEN);
    b.push_str("y");
    assert_eq!(b.len(), MAX_LEN);
}

#[test]
fn clear_really_clears() {
    let mut b = SecureBuf::new();
    b.push_str("hunter2");
    b.clear();
    assert!(b.is_empty());
    let raw = b.raw();
    assert_eq!(raw.len(), PAGE);
    assert!(raw.iter().all(|&x| x == 0));
}

#[test]
fn pop_zeroizes_tail() {
    let mut b = SecureBuf::new();
    b.push_str("ab");
    b.pop_char();
    let raw = b.raw();
    assert_eq!(raw[0], b'a');
    assert_eq!(raw[1], 0);
}

#[test]
fn multibyte_never_split_at_cap() {
    let mut b = SecureBuf::new();
    b.push_str(&"x".repeat(MAX_LEN - 1));
    b.push_str("é");
    assert_eq!(b.len(), MAX_LEN - 1);
    b.push_str("");
    assert_eq!(b.len(), MAX_LEN - 1);
    b.push_str("z");
    assert_eq!(b.len(), MAX_LEN);
    assert!(b.pop_char());
    assert!(b.raw()[MAX_LEN - 1] == 0);
}

#[test]
fn bytes_stay_utf8_through_any_edit() {
    let mut b = SecureBuf::new();
    for step in 0..40 {
        match step % 5 {
            0 => b.push_str("ä€"),
            1 => b.push_str("x😀"),
            2 | 3 => {
                b.pop_char();
            }
            _ => {
                if step % 15 == 4 {
                    b.clear();
                }
            }
        }
        assert!(std::str::from_utf8(b.as_bytes()).is_ok());
        assert_eq!(b.len(), b.as_bytes().len());
        assert!(b.len() <= 1023);
        assert_eq!(b.is_empty(), b.len() == 0);
    }
}
