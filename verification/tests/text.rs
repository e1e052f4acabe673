use curvas::text::{is_white_space, text_eq, trim_bounds};

#[test]
fn white_space_matches_std() {
    for c in (0u32..=0x10ffff).filter_map(char::from_u32) {
        assert_eq!(is_white_space(c), c.is_whitespace(), "{:?}", c);
    }
}

#[test]
fn trimming_matches_std() {
    let samples = ["", "  ", " a ", "\u{2003}b\u{3000}", "\u{feff} x", "x\t\n", "ab", "é  "];
    for s in samples {
        let n = s.chars().count();
        let (a, b) = trim_bounds(s, 0, n);
        let got: String = s.chars().skip(a).take(b - a).collect();
        assert_eq!(got, s.trim(), "{:?}", s);
    }
    let s = "xx  mid  yy";
    let (a, b) = trim_bounds(s, 2, 9);
    assert_eq!((a, b), (4, 7));
}

#[test]
fn text_equality() {
    assert!(text_eq("-p1", "-p1"));
    assert!(!text_eq("-p1", "-p2"));
    assert!(!text_eq("-p", "-p1"));
    assert!(text_eq("", ""));
}
