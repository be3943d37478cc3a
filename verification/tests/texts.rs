use flannel_ng::text::{
    chars_of, decimal_text, join_path, same_ignoring_case, same_text, split_once_text, split_text,
    trim_text, white_space,
};

#[test]
fn numbers_are_written_in_decimal() {
    for n in [0, 9, 10, 99, 100, 1234567890, u64::MAX] {
        assert_eq!(decimal_text(n), n.to_string());
    }
}

#[test]
fn characters_of_a_text() {
    assert_eq!(chars_of("a\u{e9}\u{1f600}"), vec!['a', '\u{e9}', '\u{1f600}']);
    assert!(chars_of("").is_empty());
}

#[test]
fn white_space_agrees_with_std() {
    for n in 0..=0x10ffffu32 {
        if let Some(c) = char::from_u32(n) {
            assert_eq!(white_space(c), c.is_whitespace(), "{:x}", n);
        }
    }
}

#[test]
fn texts_are_split() {
    assert_eq!(split_text("a,b,,c", ','), vec!["a", "b", "", "c"]);
    assert_eq!(split_text("", ','), vec![""]);
    assert_eq!(split_text("abc", ','), vec!["abc"]);
    assert_eq!(split_text(",", ','), vec!["", ""]);
    assert_eq!(
        split_once_text("A=b=c", '='),
        Some(("A".to_string(), "b=c".to_string()))
    );
    assert_eq!(split_once_text("=", '='), Some((String::new(), String::new())));
    assert_eq!(split_once_text("abc", '='), None);
}

#[test]
fn texts_are_trimmed() {
    for text in ["", " ", " a b\t", "a", "\u{3000}x\r\n", "\u{200b}y\u{200b}"] {
        assert_eq!(trim_text(text), text.trim());
    }
}

#[test]
fn paths_are_joined_as_std_joins_them() {
    for base in ["/coreos.com/network", "/coreos.com/network/", "", "/", "a//", "x"] {
        for segment in ["subnets", "/abs", "", "a/b"] {
            let mut path = std::path::PathBuf::new();
            path.push(base);
            path.push(segment);
            assert_eq!(join_path(base, segment), path.to_string_lossy());
        }
    }
}

#[test]
fn texts_are_compared() {
    assert!(same_text("vxlan", "vxlan"));
    assert!(!same_text("VXLAN", "vxlan"));
    assert!(!same_text("vxlan", "vxlan "));
    assert!(same_ignoring_case("VxLaN", "vxlan"));
    assert!(!same_ignoring_case("vxlam", "vxlan"));
    assert!(!same_ignoring_case("vxla", "vxlan"));
    assert!(!same_ignoring_case("UDP", "UDP"));
}

#[test]
fn only_ascii_letters_become_the_letters_of_backend_names() {
    for n in 0..=0x10ffffu32 {
        if let Some(c) = char::from_u32(n) {
            let text = c.to_string();
            let lower = text.to_lowercase();
            for letter in [
                "v", "x", "l", "a", "n", "u", "d", "p", "h", "o", "s", "t", "-", "g", "w",
            ] {
                assert_eq!(lower.contains(letter), same_ignoring_case(&text, letter), "{:x}", n);
            }
        }
    }
}
