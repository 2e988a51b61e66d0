use soroban_host_core::symbol::{Symbol, SymbolError, SymbolSmall, SymbolStr};

#[test]
fn test_roundtrip() {
    let input = "stellar";
    let sym = SymbolSmall::try_from_str(input).unwrap();
    let s: String = sym.to_string();
    assert_eq!(input, &s);
}

#[test]
fn test_roundtrip_zero() {
    let input = "";
    let sym = SymbolSmall::try_from_str(input).unwrap();
    let s: String = sym.to_string();
    assert_eq!(input, &s);
}

#[test]
fn test_roundtrip_nine() {
    let input = "123456789";
    let sym = SymbolSmall::try_from_str(input).unwrap();
    let s: String = sym.to_string();
    assert_eq!(input, &s);
}

#[test]
fn symbol_test_roundtrip() {
    let input = "stellar";
    let sym = SymbolSmall::try_from_str(input).unwrap();
    let sym_str = SymbolStr::from(sym);
    let s: String = sym_str.to_string();
    assert_eq!(s, input);
}

#[test]
fn symbol_test_roundtrip_zero() {
    let input = "";
    let sym = SymbolSmall::try_from_str(input).unwrap();
    let sym_str = SymbolStr::from(sym);
    let s: String = sym_str.to_string();
    assert_eq!(s, input);
}

#[test]
fn symbol_test_roundtrip_nine() {
    let input = "123456789";
    let sym = SymbolSmall::try_from_str(input).unwrap();
    let sym_str = SymbolStr::from(sym);
    let s: String = sym_str.to_string();
    assert_eq!(s, input);
}

#[test]
fn test_enc() {
    // Some exact test vectors to ensure the encoding is what we expect.
    let vectors: &[(&str, u64)] = &[
        ("a",           0b__000_000__000_000__000_000__000_000__000_000__000_000__000_000__000_000__100_110_u64),
        ("ab",          0b__000_000__000_000__000_000__000_000__000_000__000_000__000_000__100_110__100_111_u64),
        ("abc",         0b__000_000__000_000__000_000__000_000__000_000__000_000__100_110__100_111__101_000_u64),
        ("ABC",         0b__000_000__000_000__000_000__000_000__000_000__000_000__001_100__001_101__001_110_u64),
        ("____5678",    0b__000_000__000_001__000_001__000_001__000_001__000_111__001_000__001_001__001_010_u64),
        ("____56789",   0b__000_001__000_001__000_001__000_001__000_111__001_000__001_001__001_010__001_011_u64),
    ];
    for (s, body) in vectors.iter() {
        let sym = SymbolSmall::try_from_str(s).unwrap();
        assert_eq!(sym.get_body(), *body);
    }
}

#[test]
fn test_ord() {
    let vals = ["Hello", "hello", "hellos", "", "_________", "________"];
    for a in vals.iter() {
        let a_sym = SymbolSmall::try_from_str(a).unwrap();
        for b in vals.iter() {
            let b_sym = SymbolSmall::try_from_str(b).unwrap();
            assert_eq!(a.cmp(b), a_sym.cmp(&b_sym));
        }
    }
}

#[test]
fn symbol_small_ordering_scenarios() {
    // "a" < "ab" < "abc" < "b" under the comparator, and "A" < "a".
    let a = SymbolSmall::try_from_str("a").unwrap();
    let ab = SymbolSmall::try_from_str("ab").unwrap();
    let abc = SymbolSmall::try_from_str("abc").unwrap();
    let b = SymbolSmall::try_from_str("b").unwrap();
    assert_eq!(a.cmp(&ab), core::cmp::Ordering::Less);
    assert_eq!(ab.cmp(&abc), core::cmp::Ordering::Less);
    assert_eq!(abc.cmp(&b), core::cmp::Ordering::Less);
    let upper = SymbolSmall::try_from_str("A").unwrap();
    let lower = SymbolSmall::try_from_str("a").unwrap();
    assert_eq!(upper.cmp(&lower), core::cmp::Ordering::Less);
    // The comparator is byte-wise lexicographic over decoded characters,
    // so the underscore (0x5F) sorts after the digits, not before them.
    let und = SymbolSmall::try_from_str("_").unwrap();
    let zero = SymbolSmall::try_from_str("0").unwrap();
    assert_eq!(und.cmp(&zero), core::cmp::Ordering::Greater);
}

#[test]
fn symbol_bad_char_and_too_long() {
    // Any character outside the repertoire fails BadChar.
    assert_eq!(
        SymbolSmall::try_from_str("ab!"),
        Err(SymbolError::BadChar('!'))
    );
    assert_eq!(
        SymbolSmall::try_from_str("a-b"),
        Err(SymbolError::BadChar('-'))
    );
    assert_eq!(
        SymbolSmall::try_from_bytes(b" "),
        Err(SymbolError::BadChar(' '))
    );
    // Strings of length ten fail TooLong, carrying the input length.
    assert_eq!(
        SymbolSmall::try_from_str("abcdefghij"),
        Err(SymbolError::TooLong(10))
    );
    // A bad character before the tenth position wins over the length.
    assert_eq!(
        SymbolSmall::try_from_str("ab!cdefghij"),
        Err(SymbolError::BadChar('!'))
    );
}

#[test]
fn symbol_too_long_as_small_symbol() {
    // An eleven-character identifier does not fit the small form.
    assert_eq!(
        SymbolSmall::try_from_str("hello_world"),
        Err(SymbolError::TooLong(11))
    );
    assert_eq!(
        Symbol::try_from_small_str("hello_world"),
        Err(SymbolError::TooLong(11))
    );
}

#[test]
fn symbol_validate_and_encode_char() {
    assert_eq!(SymbolSmall::validate_char('_'), Ok(()));
    assert_eq!(SymbolSmall::encode_char('_'), Ok(1));
    assert_eq!(SymbolSmall::encode_char('0'), Ok(2));
    assert_eq!(SymbolSmall::encode_char('9'), Ok(11));
    assert_eq!(SymbolSmall::encode_char('A'), Ok(12));
    assert_eq!(SymbolSmall::encode_char('Z'), Ok(37));
    assert_eq!(SymbolSmall::encode_char('a'), Ok(38));
    assert_eq!(SymbolSmall::encode_char('z'), Ok(63));
    assert_eq!(SymbolSmall::encode_char('!'), Err(SymbolError::BadChar('!')));
    assert_eq!(
        SymbolSmall::validate_char('é'),
        Err(SymbolError::BadChar('é'))
    );
}

#[test]
fn symbol_str_len_and_empty() {
    let sym = SymbolSmall::try_from_str("abc").unwrap();
    let s = sym.to_str();
    assert_eq!(s.len(), 3);
    assert!(!s.is_empty());
    let empty = SymbolSmall::try_from_str("").unwrap().to_str();
    assert_eq!(empty.len(), 0);
    assert!(empty.is_empty());
}

#[test]
fn symbol_from_small_body_and_iter() {
    let sym = SymbolSmall::from_str("Hi_42");
    let body = sym.get_body();
    let again = Symbol::from_small_body(body);
    match again {
        Symbol::Small(ss) => assert_eq!(ss.get_body(), body),
        Symbol::Object(_) => panic!("a small body must stay small"),
    }
    let mut iter = sym.into_iter();
    assert_eq!(iter.next(), Some('H'));
    assert_eq!(iter.next(), Some('i'));
    assert_eq!(iter.next(), Some('_'));
    assert_eq!(iter.next(), Some('4'));
    assert_eq!(iter.next(), Some('2'));
    assert_eq!(iter.next(), None);
}
