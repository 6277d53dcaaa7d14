use oss_explorer::encoding::urlencoding;

#[test]
fn comparators_are_escaped() {
    assert_eq!(
        urlencoding("language:Rust stars:>=1000"),
        "language%3ARust%20stars%3A%3E%3D1000"
    );
    assert_eq!(urlencoding("stars:<5"), "stars%3A%3C5");
}

#[test]
fn unreserved_characters_stay() {
    assert_eq!(urlencoding("abc-XYZ_0.9~"), "abc-XYZ_0.9~");
    assert_eq!(urlencoding(""), "");
}

#[test]
fn other_bytes_are_escaped_as_utf8() {
    assert_eq!(urlencoding("C++"), "C%2B%2B");
    assert_eq!(urlencoding("C#"), "C%23");
    assert_eq!(urlencoding("é"), "%C3%A9");
    assert_eq!(urlencoding("日"), "%E6%97%A5");
    assert_eq!(urlencoding("🦀"), "%F0%9F%A6%80");
}

fn decode(t: &str) -> Vec<u8> {
    let b = t.as_bytes();
    let mut out = Vec::new();
    let mut i = 0;
    while i < b.len() {
        if b[i] == b'%' && i + 2 < b.len() {
            let hex = std::str::from_utf8(&b[i + 1..i + 3]).unwrap();
            out.push(u8::from_str_radix(hex, 16).unwrap());
            i += 3;
        } else {
            out.push(b[i]);
            i += 1;
        }
    }
    out
}

#[test]
fn decoding_the_encoding_gives_the_query_back() {
    for q in ["language:Rust stars:>=1000", "stars:<=50 fork:true", "naïve 🦀 C++"] {
        let encoded = urlencoding(q);
        assert_eq!(String::from_utf8(decode(&encoded)).unwrap(), q);
    }
}
