use skyrim_cell_dump::fingerprint::{hash_plugin, hash_plugin_to_string};
use skyrim_cell_dump::radix::{format_radix, parse_radix};

#[test]
fn hash_of_the_empty_input() {
    assert_eq!(hash_plugin(b""), 14492805990617963705);
    assert_eq!(hash_plugin(b""), 0xc920ca43256fdcb9);
}

#[test]
fn hash_of_known_inputs() {
    assert_eq!(hash_plugin(b"to be or not to be"), 1988685042348123509);
    assert_eq!(hash_plugin(b"skyrim"), 1022160404940209069);
    assert_eq!(hash_plugin(b"a"), 3009532316786026829);
}

#[test]
fn hash_covers_a_trailing_partial_lane() {
    assert_eq!(hash_plugin(b"12345678"), 8739073611186757572);
    assert_eq!(hash_plugin(b"123456789"), 13331223911193280505);
    let longer: Vec<u8> = (0u8..40).collect();
    assert_eq!(hash_plugin(&longer), 14611378987270915098);
    assert_ne!(hash_plugin(&longer[..39]), hash_plugin(&longer));
}

#[test]
fn hash_is_not_the_input() {
    assert_ne!(hash_plugin(&[1, 0, 0, 0, 0, 0, 0, 0]), 1);
    assert_ne!(hash_plugin(&[0, 0, 0]), hash_plugin(&[0, 0, 0, 0]));
}

#[test]
fn hash_is_deterministic() {
    let input = b"Skyrim.esm".to_vec();
    let first = hash_plugin(&input);
    let second = hash_plugin(&input);
    let copy = input.clone();
    assert_eq!(first, second);
    assert_eq!(first, hash_plugin(&copy));
    assert_eq!(hash_plugin_to_string(&input), hash_plugin_to_string(&copy));
}

#[test]
fn hash_text_of_skyrim() {
    assert_eq!(hash_plugin_to_string(b"skyrim"), "7rklmfhhtsq5");
    assert_eq!(
        hash_plugin_to_string(b"skyrim"),
        format_radix(hash_plugin(b"skyrim"), 36)
    );
}

#[test]
fn hash_text_of_the_empty_input() {
    assert_eq!(hash_plugin_to_string(b""), "323xyyeok3k55");
}

#[test]
fn hash_text_is_the_hash_in_radix_36() {
    let inputs: [&[u8]; 5] = [b"", b"a", b"skyrim", b"to be or not to be", &[0u8; 100]];
    for input in inputs {
        let text = hash_plugin_to_string(input);
        assert_eq!(text, format_radix(hash_plugin(input), 36));
        assert_eq!(parse_radix(&text, 36), Some(hash_plugin(input)));
    }
}

#[test]
fn hash_text_is_short_and_plain() {
    let inputs: [&[u8]; 4] = [b"", b"skyrim", b"Skyrim.esm", &[0xFFu8; 33]];
    for input in inputs {
        let text = hash_plugin_to_string(input);
        assert!(1 <= text.len() && text.len() <= 13);
        assert!(text.chars().all(|c| c.is_ascii_digit() || c.is_ascii_lowercase()));
        assert!(text == "0" || !text.starts_with('0'));
    }
}
