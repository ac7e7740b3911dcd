use container_runtime::path::FsPath;
use container_runtime::text::{
    contains_word, separates_words, write_decimal, write_hexadecimal, write_signed_decimal,
};

#[test]
fn numbers_are_written_in_their_shortest_form() {
    let numbers = [0, 1, 9, 10, 15, 16, 99, 100, 536_870_912, u64::MAX - 1, u64::MAX];
    for n in numbers {
        assert_eq!(write_decimal(n), n.to_string());
        assert_eq!(write_hexadecimal(n), format!("{n:x}"));
    }
    for n in [0, 7, -7, 1234, i32::MAX, i32::MIN] {
        assert_eq!(write_signed_decimal(n), n.to_string());
    }
}

#[test]
fn numbers_read_back_as_themselves() {
    for n in [0, 10, 255, 1 << 40, u64::MAX] {
        assert_eq!(write_decimal(n).parse::<u64>().unwrap(), n);
        assert_eq!(u64::from_str_radix(&write_hexadecimal(n), 16).unwrap(), n);
    }
}

#[test]
fn words_are_separated_by_white_space() {
    for c in '\0'..=char::MAX {
        assert_eq!(separates_words(c), c.is_whitespace(), "{c:?}");
    }
}

#[test]
fn words_are_found_only_whole() {
    let texts = [
        "",
        " ",
        "cpu",
        " cpu ",
        "cpuset cpu",
        "cpuset",
        "xcpu",
        "cpu\nio",
        "io\tcpu",
        "io\u{2003}cpu\u{85}",
        "c pu",
        "cpu,cpu",
        "cp",
        "ccpu cpuu",
    ];
    for text in texts {
        for word in ["cpu", "io", "cpuset"] {
            assert_eq!(
                contains_word(text, word),
                text.split_whitespace().any(|part| part == word),
                "{word:?} in {text:?}"
            );
        }
    }
}

#[test]
fn only_words_are_found() {
    for (text, word) in [("a b", "a b"), ("a b", ""), ("", ""), (" ", " "), ("a", "a ")] {
        assert!(!contains_word(text, word), "{word:?} in {text:?}");
    }
}

#[test]
fn paths_are_joined_with_one_separator() {
    for base in ["", "/", "a", "a/", "/a/b", "./rootfs", "./rootfs/"] {
        for name in ["", "b", "/b", "b/c", ".old"] {
            let wanted = std::path::Path::new(base).join(name);
            assert_eq!(
                FsPath::from_text(base).join(name),
                FsPath::from_text(wanted.to_str().unwrap()),
                "{name:?} below {base:?}"
            );
        }
    }
}

#[test]
fn paths_need_not_be_text() {
    let path = FsPath {
        bytes: vec![47, 255, 254],
    };
    assert_eq!(path.join("x").bytes, [47, 255, 254, 47, 120]);
    assert_eq!(path.clone(), path);
}
