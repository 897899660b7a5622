use plato_smart_device_client::decimal::{read_decimal, write_decimal, NumberError};
use plato_smart_device_client::json::Json;
use plato_smart_device_client::logger::Logger;
use plato_smart_device_client::metadata::{deserialize, serialize, Timestamp};
use plato_smart_device_client::path::{join, strip_prefix};
use plato_smart_device_client::settings::{one, Settings};
use plato_smart_device_client::text::{join_owned_with, join_with, remove_all};
use std::path::Path;

const PATHS: [&str; 30] = [
    "", "/", ".", "..", "a", "a/", "/a", "/a/", "./a", "a/.", "a/./b", "a//b", "//a", "a/b", "a/b/",
    "/a/b", "/a/b/c.epub", "a/b/c", "ab", "a/bc", ".a", "./", "/.", "/./a", "./.", "..//a", "a/..",
    "é/ü", "a/b/.", ".//a",
];

#[test]
fn paths_are_joined_as_the_standard_library_joins_them() {
    for base in PATHS {
        for path in PATHS {
            let expected = Path::new(base).join(path);
            assert_eq!(join(base, path), expected.to_str().unwrap(), "{:?} {:?}", base, path);
        }
    }
}

#[test]
fn leading_paths_are_taken_off_as_the_standard_library_takes_them_off() {
    for base in PATHS {
        for path in PATHS {
            let expected = Path::new(path).strip_prefix(base).ok();
            let expected = expected.map(|path| path.to_str().unwrap().to_string());
            assert_eq!(strip_prefix(path, base), expected, "{:?} {:?}", path, base);
        }
    }
}

#[test]
fn joined_path_is_below_what_it_was_joined_to() {
    for base in ["", "/", "/mnt/onboard", "/mnt/onboard/", "books/."] {
        for path in ["a", "a/b.epub", "a//b", "é/ü.epub"] {
            assert_eq!(strip_prefix(&join(base, path), base), Some(path.to_string()));
        }
    }
}

#[test]
fn path_below_leads_to_the_path() {
    let mut found = 0;
    for base in PATHS {
        for path in PATHS {
            if let Some(rest) = strip_prefix(path, base) {
                let whole = join(base, &rest);
                assert_eq!(Path::new(&whole), Path::new(path), "{:?} {:?}", path, base);
                found = found + 1;
            }
        }
    }
    assert!(found > PATHS.len());
}

#[test]
fn tidy_paths_are_joined_in_any_order() {
    for base in ["", "/", "/mnt/onboard"] {
        let first = join(&join(base, "calibre"), "a/b.epub");
        let last = join(base, &join("calibre", "a/b.epub"));
        assert_eq!(first, last);
    }
}

#[test]
fn numbers_are_written_and_read_back() {
    for n in [0, 1, 9, 10, 99, 100, 4096, usize::MAX] {
        assert_eq!(write_decimal(n), n.to_string().as_bytes());
        assert_eq!(read_decimal(&write_decimal(n), u64::MAX), Ok(n as u64));
    }
}

#[test]
fn numbers_are_read_as_the_standard_library_reads_them() {
    let texts = [
        "", "+", "-", "0", "-0", "+0", "7", "+7", "-7", "++7", "65535", "65536", "99999999999", "x",
        "1x", "99999999999999x", " 1", "1 ", "0x10", "00001",
    ];
    for text in texts {
        let read = read_decimal(text.as_bytes(), u16::MAX as u64);
        match text.parse::<u16>() {
            Ok(number) => assert_eq!(read, Ok(number as u64), "{:?}", text),
            Err(error) => {
                let refused = read.unwrap_err();
                assert_eq!(refused.message(), error.to_string(), "{:?}", text);
            }
        }
    }
}

#[test]
fn numbers_are_refused_for_their_reason() {
    assert_eq!(read_decimal(b"", 10), Err(NumberError::Empty));
    assert_eq!(read_decimal(b"1a", 10), Err(NumberError::InvalidDigit));
    assert_eq!(read_decimal(b"11", 10), Err(NumberError::TooLarge));
}

#[test]
fn texts_are_joined_with_a_separator() {
    assert_eq!(join_with(&[], ", "), "");
    assert_eq!(join_with(&["a"], ", "), "a");
    assert_eq!(join_with(&["a", "", "c"], ", "), "a, , c");
    let owned = vec!["Ann".to_string(), "Bob".to_string()];
    assert_eq!(join_owned_with(&owned, ", "), owned.join(", "));
}

#[test]
fn separators_are_taken_out_as_splitting_would() {
    for text in ["", "a", ", ", "a, b", ", a", "a, ", "a,, b", ",  ,", "a,b", "é, ü", ", , "] {
        let expected = text.split(", ").collect::<String>();
        assert_eq!(remove_all(text, ", "), expected, "{:?}", text);
    }
    for text in ["aaa", "aaaa", "abab", "xaay"] {
        let expected = text.split("aa").collect::<String>();
        assert_eq!(remove_all(text, "aa"), expected, "{:?}", text);
    }
}

#[test]
fn joined_authors_without_separators_are_the_names_in_a_row() {
    let names = vec!["Ann Lee".to_string(), "Bob,".to_string(), "Cy".to_string()];
    assert_eq!(remove_all(&join_owned_with(&names, ", "), ", "), names.concat());
}

#[test]
fn messages_are_shown_up_to_the_level() {
    let words = ["one", "two"];
    for level in 0..5 {
        let logger = Logger::new(level);
        let shown = Some("one two".to_string());
        assert_eq!(logger.error(&words), shown);
        assert_eq!(logger.status(&words).is_some(), level >= 1);
        assert_eq!(logger.verbose(&words).is_some(), level >= 2);
        assert_eq!(logger.debug(&words).is_some(), level >= 3);
        assert_eq!(logger.log(&words, level), shown);
        assert_eq!(logger.log(&words, level + 1), None);
    }
}

#[test]
fn message_without_words_is_empty() {
    assert_eq!(Logger::new(0).error(&[]), Some(String::new()));
    assert_eq!(Logger::new(0).error(&["", ""]), Some(" ".to_string()));
}

#[test]
fn settings_have_defaults() {
    let settings = Settings::default();
    assert_eq!(settings.host, None);
    assert_eq!(settings.password, None);
    assert_eq!(settings.log, 0);
    let settings = Settings::from_entries(None, None, None);
    assert_eq!(settings.log, 1);
    assert_eq!(one(), 1);
    let settings = Settings::from_entries(None, Some("secret".to_string()), Some(3));
    assert_eq!(settings.password, Some("secret".to_string()));
    assert_eq!(settings.log, 3);
}

#[test]
fn times_are_read_in_utc() {
    let time = deserialize("2021-11-26T18:41:03.851958+00:00").unwrap();
    assert_eq!((time.secs(), time.nanos()), (1637952063, 851958000));
    let time = deserialize("2021-11-26T19:41:03+01:00").unwrap();
    assert_eq!((time.secs(), time.nanos()), (1637952063, 0));
    let time = deserialize("1970-01-01T00:00:00Z").unwrap();
    assert_eq!((time.secs(), time.nanos()), (0, 0));
}

#[test]
fn times_are_written_and_read_back() {
    for (secs, nanos, text) in [
        (0, 0, "1970-01-01T00:00:00+00:00"),
        (1637952063, 851958000, "2021-11-26T18:41:03.851958+00:00"),
        (-62_167_219_200, 0, "0000-01-01T00:00:00+00:00"),
        (253_402_300_799, 999_999_999, "9999-12-31T23:59:59.999999999+00:00"),
        (1_483_228_799, 1_000_000_000, "2016-12-31T23:59:60+00:00"),
        (1_483_228_799, 1_500_000_000, "2016-12-31T23:59:60.500+00:00"),
        (-1, 1_000_000_000, "1969-12-31T23:59:60+00:00"),
        (253_402_300_799, 1_999_999_999, "9999-12-31T23:59:60.999999999+00:00"),
    ] {
        let time = Timestamp::new(secs, nanos).unwrap();
        assert_eq!(serialize(&time), text);
        assert_eq!(deserialize(text), Ok(time));
    }
}

#[test]
fn other_texts_are_no_times() {
    let cause = "yesterday".parse::<chrono::DateTime<chrono::Utc>>().unwrap_err().to_string();
    assert_eq!(deserialize("yesterday"), Err(cause));
    assert_eq!(Timestamp::new(i64::MAX, 0), None);
    assert_eq!(Timestamp::new(0, 1_000_000_000), None);
    assert_eq!(Timestamp::new(59, 2_000_000_000), None);
}

#[test]
fn documents_are_read_and_written() {
    for text in [
        "null",
        "true",
        "-5",
        "18446744073709551615",
        "1.5",
        "\"a\\\"\\n\"",
        "[]",
        "[1,[2,{}],null]",
        "{\"a\":1,\"b\":[true,\"x\"]}",
    ] {
        let json = Json::parse(text).unwrap();
        assert_eq!(json.render(), text);
        assert_eq!(Json::read(text.as_bytes()), Ok(json));
    }
}

#[test]
fn malformed_documents_are_refused_with_the_cause() {
    let text = "{\"a\":";
    let cause = serde_json::from_str::<serde_json::Value>(text).unwrap_err().to_string();
    assert_eq!(Json::parse(text), Err(cause));
    let bytes: &[u8] = &[34, 255, 34];
    let cause = serde_json::from_reader::<&[u8], serde_json::Value>(bytes).unwrap_err();
    assert_eq!(Json::read(bytes), Err(cause.to_string()));
}

#[test]
fn nesting_is_limited() {
    let deepest = "[".repeat(127) + &"]".repeat(127);
    assert_eq!(Json::parse(&deepest).unwrap().render(), deepest);
    let deeper = "[".repeat(128) + &"]".repeat(128);
    assert!(Json::parse(&deeper).is_err());
}

#[test]
fn entries_are_found_by_their_key() {
    let json = Json::parse("{\"a\":\"x\",\"b\":7,\"c\":-7,\"d\":1.0,\"a\":\"y\"}").unwrap();
    assert_eq!(json.get("a").and_then(|value| value.as_str()), Some("y"));
    assert_eq!(json.get("b").and_then(|value| value.as_u64()), Some(7));
    assert_eq!(json.get("c").and_then(|value| value.as_u64()), None);
    assert_eq!(json.get("c").and_then(|value| value.as_i64()), Some(-7));
    assert_eq!(json.get("d").and_then(|value| value.as_i64()), None);
    assert_eq!(json.get("e"), None);
    assert_eq!(Json::string("a").get("a"), None);
    assert_eq!(json.into_field("b"), Some(Json::integer(7)));
}

#[test]
fn later_entry_replaces_an_earlier_one() {
    let json = Json::object().with("a", Json::integer(1)).with("b", Json::Null);
    let json = json.with("a", Json::integer(2));
    assert_eq!(json.get("a"), Some(&Json::integer(2)));
    assert_eq!(json.render(), "{\"a\":2,\"b\":null}");
    assert_eq!(json.into_field("a"), Some(Json::integer(2)));
}
