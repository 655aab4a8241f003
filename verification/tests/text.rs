use grab::capture::fill_template;
use grab::text::{
    append_chars, chars_of, comes_before, decimal_of, matches_at, replace, signed_decimal_of,
    string_of,
};
use grab::types::CaptureMode;

fn chars(text: &str) -> Vec<char> {
    text.chars().collect()
}

#[test]
fn characters_and_strings_convert_both_ways() {
    assert_eq!(chars_of("a{b}"), vec!['a', '{', 'b', '}']);
    assert_eq!(chars_of(""), Vec::<char>::new());
    assert_eq!(chars_of("zä€😀"), vec!['z', 'ä', '€', '😀']);
    assert_eq!(string_of(&vec!['z', 'ä', '€', '😀']), "zä€😀");
    assert_eq!(string_of(&Vec::new()), "");
    let mut out = chars("ab");
    append_chars(&mut out, &chars("cd"));
    assert_eq!(out, chars("abcd"));
}

#[test]
fn pattern_is_matched_at_a_position() {
    let text = chars("grab-{date}");
    assert!(matches_at(&text, &chars("{date}"), 5));
    assert!(!matches_at(&text, &chars("{date}"), 4));
    assert!(!matches_at(&text, &chars("{date}"), 6));
    assert!(!matches_at(&text, &chars("{date}"), usize::MAX));
    assert!(matches_at(&text, &chars(""), 11));
    assert!(!matches_at(&text, &chars(""), 12));
    assert!(matches_at(&text, &chars("grab"), 0));
    assert!(!matches_at(&chars("gr"), &chars("grab"), 0));
}

#[test]
fn replacing_agrees_with_the_standard_library() {
    let cases = [
        ("", "a", "b"),
        ("aaa", "a", "bb"),
        ("aaa", "aa", "b"),
        ("aaaa", "aa", "a"),
        ("abcabc", "bc", ""),
        ("abcabc", "abcabc", "x"),
        ("abcabc", "abcabcd", "x"),
        ("{{date}}", "{date}", "D"),
        ("{da{date}te}", "{date}", "D"),
        ("x{date", "{date}", "D"),
        ("ääöä", "ä", "ae"),
        ("a-b-c", "-", "--"),
    ];
    for (text, from, to) in cases {
        let replaced = string_of(&replace(&chars(text), &chars(from), &chars(to)));
        assert_eq!(replaced, text.replace(from, to), "{:?} {:?} {:?}", text, from, to);
    }
}

#[test]
fn templates_expand_as_with_the_standard_library() {
    let templates = [
        "grab-{date}-{time}-{mode}",
        "{timestamp}{timestamp}",
        "{date}{time}{mode}{timestamp}",
        "{{date}}{time}}",
        "{mode",
        "mode}",
        "{Mode}-{DATE}",
        "{date}-{user}-{time}",
        "ä{mode}ö",
    ];
    for template in templates {
        let expected = template
            .replace("{date}", "2024-03-09")
            .replace("{time}", "16-00-00")
            .replace("{mode}", "window")
            .replace("{timestamp}", "1710000000");
        assert_eq!(
            fill_template(template, "2024-03-09", "16-00-00", CaptureMode::Window, 1_710_000_000),
            expected
        );
    }
}

#[test]
fn numbers_are_written_in_decimal() {
    assert_eq!(string_of(&decimal_of(0)), "0");
    assert_eq!(string_of(&decimal_of(7)), "7");
    assert_eq!(string_of(&decimal_of(10)), "10");
    assert_eq!(string_of(&decimal_of(1920)), "1920");
    assert_eq!(string_of(&decimal_of(u64::MAX)), u64::MAX.to_string());
    assert_eq!(string_of(&signed_decimal_of(0)), "0");
    assert_eq!(string_of(&signed_decimal_of(-1)), "-1");
    assert_eq!(string_of(&signed_decimal_of(i64::MIN)), i64::MIN.to_string());
    assert_eq!(string_of(&signed_decimal_of(i64::MAX)), i64::MAX.to_string());
    for n in [9i64, 99, 100, 101, 12345, -12345, 1_710_000_000_123] {
        assert_eq!(string_of(&signed_decimal_of(n)), n.to_string());
    }
}

#[test]
fn order_of_texts_is_that_of_the_standard_library() {
    let texts = [
        "",
        "a",
        "aa",
        "ab",
        "b",
        "B",
        "2024-03-09T16:00:00+00:00",
        "2024-03-09T16:00:00.500+00:00",
        "2024-03-10T00:00:00+00:00",
        "+262142-12-31T23:59:59+00:00",
        "-0001-01-01T00:00:00+00:00",
        "z",
        "ä",
        "€",
        "😀",
        "z😀",
        "zä",
    ];
    for a in texts {
        for b in texts {
            assert_eq!(comes_before(a, b), a < b, "{:?} {:?}", a, b);
        }
    }
}
