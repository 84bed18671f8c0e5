use identicon::query::{parse_query_param_or, QueryParams, QueryValue};
use identicon::text::{chars_of, same_chars};

fn chars(s: &str) -> Vec<char> {
    s.chars().collect()
}

fn value_of(query: &str, key: &str) -> Option<String> {
    QueryParams::parse(query).get(&chars(key)).map(|v| v.iter().collect())
}

#[test]
fn chars_of_gives_every_character() {
    assert_eq!(chars_of(""), Vec::<char>::new());
    assert_eq!(chars_of("size"), vec!['s', 'i', 'z', 'e']);
    assert_eq!(chars_of("a\u{e9}\u{4e16}"), vec!['a', '\u{e9}', '\u{4e16}']);
}

#[test]
fn same_chars_compares_whole_runs() {
    assert!(same_chars(&chars("ico"), &chars("ico")));
    assert!(same_chars(&chars(""), &chars("")));
    assert!(!same_chars(&chars("ico"), &chars("icon")));
    assert!(!same_chars(&chars("ico"), &chars("ic")));
    assert!(!same_chars(&chars("ico"), &chars("icO")));
    assert!(!same_chars(&chars("xco"), &chars("ico")));
}

#[test]
fn pairs_are_split_at_ampersands_and_equal_signs() {
    assert_eq!(value_of("size=7&pad=3", "size"), Some("7".to_string()));
    assert_eq!(value_of("size=7&pad=3", "pad"), Some("3".to_string()));
    assert_eq!(value_of("size=7&pad=3", "res"), None);
    assert_eq!(value_of("size=7", "siz"), None);
    assert_eq!(value_of("size=7", "size="), None);
}

#[test]
fn a_segment_without_equal_sign_gives_no_pair() {
    assert_eq!(value_of("size", "size"), None);
    assert_eq!(value_of("size&pad=1", "size"), None);
    assert_eq!(value_of("size&pad=1", "pad"), Some("1".to_string()));
    assert_eq!(value_of("", ""), None);
    assert_eq!(value_of("&&", ""), None);
}

#[test]
fn a_value_ends_at_the_second_equal_sign() {
    assert_eq!(value_of("a=b=c", "a"), Some("b".to_string()));
    assert_eq!(value_of("a==c", "a"), Some("".to_string()));
    assert_eq!(value_of("a=b=", "a"), Some("b".to_string()));
    assert_eq!(value_of("a=b=c&d=e", "d"), Some("e".to_string()));
    assert_eq!(value_of("a=b=c&d=e", "c"), None);
}

#[test]
fn empty_keys_and_values_are_kept() {
    assert_eq!(value_of("size=", "size"), Some("".to_string()));
    assert_eq!(value_of("=5", ""), Some("5".to_string()));
    assert_eq!(value_of("=", ""), Some("".to_string()));
    assert_eq!(value_of("a=1&=2&b=3", ""), Some("2".to_string()));
}

#[test]
fn the_last_pair_of_a_key_wins() {
    assert_eq!(value_of("size=7&size=9", "size"), Some("9".to_string()));
    assert_eq!(value_of("size=7&pad=1&size=9&size=11", "size"), Some("11".to_string()));
    assert_eq!(value_of("size=7&size", "size"), Some("7".to_string()));
    assert_eq!(value_of("size=7&size=", "size"), Some("".to_string()));
}

#[test]
fn pairs_agree_with_a_hash_map_of_the_split_string() {
    let queries = [
        "size=5&pad=2&res=100&sym=false",
        "a=1&a=2&b=&=c&d&e=f=g&&h=i",
        "===&=&&a",
        "x=y",
        "",
        "k=v&k=w&k",
    ];
    for q in queries {
        let map: std::collections::HashMap<&str, &str> = q
            .split('&')
            .filter_map(|p| {
                let mut kv = p.split('=');
                kv.next().and_then(|k| kv.next().map(|v| (k, v)))
            })
            .collect();
        for key in ["size", "pad", "res", "sym", "a", "b", "", "d", "e", "h", "x", "k", "f"] {
            assert_eq!(value_of(q, key), map.get(key).map(|v| v.to_string()), "{} in {}", key, q);
        }
    }
}

#[test]
fn an_empty_set_of_parameters_has_no_values() {
    let q = QueryParams::empty();
    assert!(q.get(&chars("size")).is_none());
    assert!(q.get(&chars("")).is_none());
    assert_eq!(parse_query_param_or(&q, "size", 5u32), 5);
}

#[test]
fn numbers_are_read_in_decimal() {
    assert_eq!(<u32 as QueryValue>::parse(&chars("0")), Some(0));
    assert_eq!(<u32 as QueryValue>::parse(&chars("7")), Some(7));
    assert_eq!(<u32 as QueryValue>::parse(&chars("200")), Some(200));
    assert_eq!(<u32 as QueryValue>::parse(&chars("007")), Some(7));
    assert_eq!(<u32 as QueryValue>::parse(&chars("+21")), Some(21));
    assert_eq!(<u32 as QueryValue>::parse(&chars("4294967295")), Some(u32::MAX));
    assert_eq!(<u32 as QueryValue>::parse(&chars("00000000004294967295")), Some(u32::MAX));
}

#[test]
fn what_is_no_number_is_not_read() {
    for text in [
        "", "+", "-", "-1", "-0", "++1", "+-1", "1+", " 1", "1 ", "1.0", "1e3", "0x10", "abc",
        "12a", "a12", "4294967296", "99999999999", "18446744073709551616", "\u{ff11}", "1_000",
    ] {
        assert_eq!(<u32 as QueryValue>::parse(&chars(text)), None, "{:?}", text);
    }
}

#[test]
fn numbers_are_read_as_the_standard_library_reads_them() {
    for text in [
        "", "0", "1", "+1", "-1", "+", "++1", "10", "0010", "4294967295", "4294967296",
        "+4294967295", "+4294967296", "42949672950", " 5", "5 ", "five", "5five", "\u{663}",
        "1\u{0}", "2147483648", "+0", "-0", "000", "9", "99", "999999999", "9999999999",
    ] {
        assert_eq!(
            <u32 as QueryValue>::parse(&chars(text)),
            text.parse::<u32>().ok(),
            "{:?}",
            text
        );
    }
}

#[test]
fn truth_values_are_spelled_out() {
    assert_eq!(<bool as QueryValue>::parse(&chars("true")), Some(true));
    assert_eq!(<bool as QueryValue>::parse(&chars("false")), Some(false));
    for text in ["", "True", "FALSE", "1", "0", "yes", "no", "t", "f", "true ", " false", "truee"] {
        assert_eq!(<bool as QueryValue>::parse(&chars(text)), None, "{:?}", text);
        assert_eq!(<bool as QueryValue>::parse(&chars(text)), text.parse::<bool>().ok());
    }
}

#[test]
fn a_parameter_that_is_present_and_well_formed_is_read() {
    let q = QueryParams::parse("size=7&pad=3&res=140&sym=false");
    assert_eq!(parse_query_param_or(&q, "size", 5u32), 7);
    assert_eq!(parse_query_param_or(&q, "pad", 0u32), 3);
    assert_eq!(parse_query_param_or(&q, "res", 200u32), 140);
    assert_eq!(parse_query_param_or(&q, "sym", true), false);
}

#[test]
fn a_parameter_that_is_absent_gives_the_default() {
    let q = QueryParams::parse("size=7");
    assert_eq!(parse_query_param_or(&q, "pad", 11u32), 11);
    assert_eq!(parse_query_param_or(&q, "sym", true), true);
    assert_eq!(parse_query_param_or(&q, "sym", false), false);
    assert_eq!(parse_query_param_or(&q, "Size", 5u32), 5);
}

#[test]
fn a_parameter_that_is_malformed_gives_the_default() {
    let q = QueryParams::parse("size=big&pad=-3&res=&sym=1&n=4294967296");
    assert_eq!(parse_query_param_or(&q, "size", 5u32), 5);
    assert_eq!(parse_query_param_or(&q, "pad", 0u32), 0);
    assert_eq!(parse_query_param_or(&q, "res", 200u32), 200);
    assert_eq!(parse_query_param_or(&q, "sym", true), true);
    assert_eq!(parse_query_param_or(&q, "n", 1u32), 1);
}

#[test]
fn a_malformed_last_pair_hides_a_well_formed_earlier_one() {
    let q = QueryParams::parse("size=7&size=x");
    assert_eq!(parse_query_param_or(&q, "size", 5u32), 5);
    let q = QueryParams::parse("size=x&size=7");
    assert_eq!(parse_query_param_or(&q, "size", 5u32), 7);
}
