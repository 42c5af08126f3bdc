use cgroup_bandwidth_limit::words::{
    first_two_words, is_space_char, is_whitespace_char, lower_char, next_word, split,
    to_ascii_lowercase, to_ascii_uppercase, trim, upper_char,
};

fn lines() -> Vec<&'static str> {
    vec![
        "",
        " ",
        "   ",
        "a",
        " a",
        "a ",
        " a ",
        "a b",
        "a  b",
        "  push  ",
        "LOAD 5",
        "LOAD\t5\r\n",
        "load 5 6 7",
        "\tJMP\x0C12",
        "a\x0Bb c",
        "héllo wörld",
        "a\u{a0}b c",
        "\u{2003}x\u{2003}",
        "\u{85}y\u{3000}",
        "a=b",
        "=",
        "==",
        "a=b=c",
        "=a",
        "a=",
        "one two\nthree four\n",
        "\n\nx\n\n",
        "Hello World",
        "ÀÉ é ß",
        "[]`{}@",
    ]
}

#[test]
fn split_agrees_with_the_standard_library() {
    for line in lines() {
        for sep in [' ', '=', '\n'] {
            let expected: Vec<String> = line.split(sep).map(String::from).collect();
            assert_eq!(split(line, sep), expected, "for {:?} at {:?}", line, sep);
        }
    }
}

#[test]
fn split_examples() {
    assert_eq!(split("a b", ' '), vec!["a", "b"]);
    assert_eq!(split("a  b", ' '), vec!["a", "", "b"]);
    assert_eq!(split("", ' '), vec![""]);
    assert_eq!(split(" ", ' '), vec!["", ""]);
    assert_eq!(split("port=9000", '='), vec!["port", "9000"]);
}

#[test]
fn first_two_words_agree_with_the_standard_library() {
    for line in lines() {
        let mut words = line.split_ascii_whitespace();
        let expected = (words.next(), words.next());
        assert_eq!(first_two_words(line), expected, "for {:?}", line);
    }
}

#[test]
fn next_word_finds_bounds() {
    assert_eq!(next_word("  ab cd", 0), (2, 4));
    assert_eq!(next_word("  ab cd", 4), (5, 7));
    assert_eq!(next_word("  ab cd", 7), (7, 7));
    assert_eq!(next_word("", 0), (0, 0));
    assert_eq!(next_word("   ", 0), (3, 3));
}

#[test]
fn trim_agrees_with_the_standard_library() {
    for line in lines() {
        assert_eq!(trim(line), line.trim(), "for {:?}", line);
    }
}

#[test]
fn case_conversion_agrees_with_the_standard_library() {
    for line in lines() {
        assert_eq!(to_ascii_lowercase(line), line.to_ascii_lowercase());
        assert_eq!(to_ascii_uppercase(line), line.to_ascii_uppercase());
    }
    assert_eq!(to_ascii_uppercase("load 5"), "LOAD 5");
    assert_eq!(to_ascii_lowercase("Hello World"), "hello world");
}

#[test]
fn characters_agree_with_the_standard_library() {
    let mut c = '\0';
    loop {
        assert_eq!(is_space_char(c), c.is_ascii_whitespace(), "for {:?}", c);
        assert_eq!(is_whitespace_char(c), c.is_whitespace(), "for {:?}", c);
        assert_eq!(lower_char(c), c.to_ascii_lowercase(), "for {:?}", c);
        assert_eq!(upper_char(c), c.to_ascii_uppercase(), "for {:?}", c);
        if c as u32 >= 0x3100 {
            break;
        }
        c = char::from_u32(c as u32 + 1).unwrap();
    }
}
