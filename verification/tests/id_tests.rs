use library_backend::id::{
    alphabet, decodable, decode, decode_checked, encode, tag, BookId, DecodeError, Id, LibraryId, UserId, BOOK_TAG,
    LENDING_TAG, LIBRARY_TAG, USER_TAG,
};

const KEY: [u8; 16] = [7, 1, 9, 200, 13, 42, 99, 0, 5, 250, 31, 77, 64, 128, 3, 11];

#[test]
fn tags_are_the_bytes_of_the_kind_names() {
    assert_eq!(tag("user"), USER_TAG);
    assert_eq!(tag("book"), BOOK_TAG);
    assert_eq!(tag("library"), LIBRARY_TAG);
    assert_eq!(tag("lending"), LENDING_TAG);
}

#[test]
fn tag_of_short_names() {
    assert_eq!(tag(""), 0);
    assert_eq!(tag("a"), 97);
    assert_eq!(tag("ab"), 97 + 98 * 256);
    assert_eq!(tag("abcdefgh"), u64::from_le_bytes(*b"abcdefgh"));
}

#[test]
fn alphabet_is_lower_then_upper_case() {
    let a = alphabet();
    assert_eq!(a.len(), 52);
    assert_eq!(a[0], 'a');
    assert_eq!(a[25], 'z');
    assert_eq!(a[26], 'A');
    assert_eq!(a[51], 'Z');
}

#[test]
fn encode_writes_least_significant_symbol_first() {
    assert_eq!(encode(0), "a");
    assert_eq!(encode(1), "b");
    assert_eq!(encode(51), "Z");
    assert_eq!(encode(52), "ab");
    assert_eq!(encode(53), "bb");
    assert_eq!(encode(52 * 52), "aab");
}

#[test]
fn decode_reads_least_significant_symbol_first() {
    assert_eq!(decode(""), Ok(0));
    assert_eq!(decode("a"), Ok(0));
    assert_eq!(decode("Z"), Ok(51));
    assert_eq!(decode("ab"), Ok(52));
    assert_eq!(decode("aab"), Ok(52 * 52));
    assert_eq!(decode("ab1"), Err(DecodeError));
    assert_eq!(decode("-"), Err(DecodeError));
}

#[test]
fn decode_of_encode_is_identity() {
    for n in [0u128, 1, 51, 52, 12345, u64::MAX as u128, u128::MAX - 1, u128::MAX] {
        let s = encode(n);
        assert!(decodable(&s));
        assert_eq!(decode(&s), Ok(n));
    }
}

#[test]
fn decodable_limits() {
    assert!(decodable(""));
    assert!(decodable(&"a".repeat(23)));
    assert!(!decodable(&"a".repeat(24)));
    assert!(!decodable(&"Z".repeat(23)));
    assert!(decodable(&encode(u128::MAX)));
    assert!(decodable("ab-ZZZZZZZZZZZZZZZZZZZZZZZZZZZZZZ"));
    assert!(decodable("-"));
}

#[test]
fn aes_known_answer() {
    let key: [u8; 16] = [
        0x00, 0x01, 0x02, 0x03, 0x04, 0x05, 0x06, 0x07, 0x08, 0x09, 0x0a, 0x0b, 0x0c, 0x0d, 0x0e,
        0x0f,
    ];
    let id = u64::from_le_bytes([0x00, 0x11, 0x22, 0x33, 0x44, 0x55, 0x66, 0x77]);
    let enciphered = Id::<0xffee_ddcc_bbaa_9988>::new(id, &key);
    let expected = u128::from_le_bytes([
        0x69, 0xc4, 0xe0, 0xd8, 0x6a, 0x7b, 0x04, 0x30, 0xd8, 0xcd, 0xb7, 0x80, 0x70, 0xb4, 0xc5,
        0x5a,
    ]);
    assert_eq!(enciphered.raw(), expected);
    assert_eq!(enciphered.to_u64(&key), id);
}

#[test]
fn id_round_trips_through_database_id() {
    for n in [0u64, 1, 42, 1 << 40, i64::MAX as u64] {
        let id = UserId::new(n, &KEY);
        assert_ne!(id.raw(), ((USER_TAG as u128) << 64) | n as u128);
        assert_eq!(id.to_u64(&KEY), n);
        assert_eq!(id.sql_id(&KEY), Ok(n as i64));
    }
    let big = UserId::new(u64::MAX, &KEY);
    assert_eq!(big.to_u64(&KEY), u64::MAX);
    assert_eq!(big.sql_id(&KEY), Err(DecodeError));
}

#[test]
fn id_of_another_kind_is_refused() {
    let book = BookId::new(17, &KEY);
    let as_library = LibraryId::from_raw(book.raw());
    assert_eq!(as_library.sql_id(&KEY), Err(DecodeError));
    assert_eq!(as_library.to_u64(&KEY), 17);
}

#[test]
fn id_text_form_round_trips() {
    let id = LibraryId::new(99, &KEY);
    let text = id.to_string();
    assert!(decodable(&text));
    let back = LibraryId::from_str(&text).unwrap();
    assert_eq!(back, id);
    assert_eq!(back.sql_id(&KEY), Ok(99));
    assert_eq!(LibraryId::from_str("not an id"), Err(DecodeError));
}

#[test]
fn ids_differ_by_key() {
    let other: [u8; 16] = [1; 16];
    assert_ne!(UserId::new(5, &KEY).raw(), UserId::new(5, &other).raw());
    assert_eq!(UserId::new(5, &other).sql_id(&KEY).is_ok(), false);
}

#[test]
fn text_forms_are_canonical() {
    for s in ["a", "b", "Z", "ab", "Zb", "aaB", "helloWorld"] {
        let n = decode(s).unwrap();
        assert_eq!(encode(n), s);
    }
    // A trailing zero digit is not canonical: it reads as the shorter form.
    assert_eq!(decode("ba"), decode("b"));
    assert_eq!(encode(decode("ba").unwrap()), "b");
}

#[test]
fn decode_checked_tells_overflow_apart() {
    assert_eq!(decode_checked("ab"), Some(Ok(52)));
    assert_eq!(decode_checked("a-"), Some(Err(DecodeError)));
    assert_eq!(decode_checked(&"a".repeat(24)), None);
    assert_eq!(decode_checked(&"Z".repeat(23)), None);
    assert_eq!(decode_checked(&encode(u128::MAX)), Some(Ok(u128::MAX)));
}

#[test]
fn identifiers_are_unique_across_kinds_and_ids() {
    let kinds = [
        UserId::new(7, &KEY).raw(),
        BookId::new(7, &KEY).raw(),
        LibraryId::new(7, &KEY).raw(),
        Id::<LENDING_TAG>::new(7, &KEY).raw(),
        UserId::new(8, &KEY).raw(),
    ];
    for i in 0..kinds.len() {
        for j in 0..i {
            assert_ne!(kinds[i], kinds[j]);
        }
    }
}
