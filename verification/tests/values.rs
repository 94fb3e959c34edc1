use hy2_multiport::address::{read_ip, IpAddr};
use hy2_multiport::number::{decimal_text, read_unsigned};
use hy2_multiport::text::{chars_of, join, mentions_todo, replace_first, same, split_words};

fn shown(text: &str) -> Option<String> {
    read_ip(text).map(|address| address.to_text())
}

fn reads_back(text: &str) {
    let address = read_ip(text).unwrap();
    assert_eq!(read_ip(&address.to_text()), Some(address));
}

#[test]
fn addresses_are_read_and_shown() {
    let cases = [
        ("0.0.0.0", "0.0.0.0"),
        ("127.0.0.1", "127.0.0.1"),
        ("255.255.255.255", "255.255.255.255"),
        ("::", "::"),
        ("::1", "::1"),
        ("1::", "1::"),
        ("1:2:3:4:5:6:7:8", "1:2:3:4:5:6:7:8"),
        ("::1.2.3.4", "::102:304"),
        ("::ffff:10.0.0.1", "::ffff:10.0.0.1"),
        ("1:2:3:4:5:6:1.2.3.4", "1:2:3:4:5:6:102:304"),
        ("::1:2:3:4:5:6:7", "0:1:2:3:4:5:6:7"),
        ("1:2:3:4:5:6:7::", "1:2:3:4:5:6:7:0"),
        ("ABCD::ef", "abcd::ef"),
        ("0:0:1:0:0:0:1:0", "0:0:1::1:0"),
        ("1:0:0:2:0:0:0:3", "1:0:0:2::3"),
        ("::0.0.0.1", "::1"),
        ("0:0:0:0:0:ffff:0102:0304", "::ffff:1.2.3.4"),
        ("2001:db8:0:0:1:0:0:1", "2001:db8::1:0:0:1"),
    ];
    for (text, expected) in cases {
        assert_eq!(shown(text).as_deref(), Some(expected));
    }
}

#[test]
fn texts_that_are_no_addresses_are_refused() {
    let texts = [
        "", "256.0.0.1", "1.2.3", "1.2.3.4.5", "01.2.3.4", "1.2.3.4 ", "+1.2.3.4", ":1", "1:", "g::",
        "1:2:3:4:5:6:7", "1:2:3:4:5:6:7:8:9", "1::2::3", "1:::2", "12345::", "fe80::1%eth0", "::%1",
        "1:2:3:4:5:6:7:1.2.3.4", "1:2:3:4::5:6:7:8", "[::1]",
    ];
    for text in texts {
        assert_eq!(read_ip(text), None);
    }
}

#[test]
fn a_shown_address_reads_back() {
    for text in ["10.0.0.1", "::", "fd00::1:0:0:1", "::ffff:1.2.3.4", "1:2:3:4:5:6:7:8"] {
        reads_back(text);
    }
}

#[test]
fn the_unspecified_addresses_are_known() {
    assert!(read_ip("0.0.0.0").unwrap().is_unspecified());
    assert!(read_ip("::").unwrap().is_unspecified());
    assert!(!read_ip("::1").unwrap().is_unspecified());
    assert!(matches!(read_ip("1.1.1.1"), Some(IpAddr::V4(_))));
}

#[test]
fn numbers_are_read_and_written() {
    assert_eq!(decimal_text(0), "0");
    assert_eq!(decimal_text(u64::MAX), "18446744073709551615");
    let read = |text: &str| read_unsigned(&chars_of(text), 65_535);
    assert_eq!(read("65535"), Some(65_535));
    assert_eq!(read("65536"), None);
    assert_eq!(read("+007"), Some(7));
    assert_eq!(read("-1"), None);
    assert_eq!(read("+"), None);
    assert_eq!(read(""), None);
    assert_eq!(read("99999999999999999999999"), None);
}

#[test]
fn texts_are_split_joined_and_searched() {
    let words: Vec<String> = split_words(&chars_of(" a\u{a0}b\t\u{3000}cd \n"))
        .iter()
        .map(|word| word.iter().collect())
        .collect();
    assert_eq!(words, ["a", "b", "cd"]);
    assert_eq!(join(&vec!["x".to_owned(), "y".to_owned()], ", "), "x, y");
    assert_eq!(replace_first("aXbX", "X", "--"), "a--bX");
    assert_eq!(replace_first("ab", "X", "--"), "ab");
    assert!(mentions_todo("xToDoy"));
    assert!(!mentions_todo("T0DO"));
    assert!(same("é", "é"));
    assert!(!same("a", "b"));
}
