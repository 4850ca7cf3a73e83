use rag_responder::chunker::{first_x_chars, sub_strings};

fn char_len(s: &str) -> usize {
    s.chars().count()
}

#[test]
fn splits_ascii_into_runs() {
    assert_eq!(sub_strings("abcde", 2), vec!["ab", "cd", "e"]);
}

#[test]
fn exact_multiple_has_no_short_piece() {
    assert_eq!(sub_strings("abcd", 2), vec!["ab", "cd"]);
}

#[test]
fn short_text_is_one_piece() {
    assert_eq!(sub_strings("abc", 1800), vec!["abc"]);
}

#[test]
fn empty_text_has_no_pieces() {
    let pieces = sub_strings("", 5);
    assert!(pieces.is_empty());
}

#[test]
fn piece_of_one_character() {
    assert_eq!(sub_strings("héllo", 1), vec!["h", "é", "l", "l", "o"]);
}

#[test]
fn multi_byte_character_at_the_boundary() {
    // The third character takes bytes 2..6, so a cut after three bytes would fall inside it.
    let text = "ab😀cd";
    let pieces = sub_strings(text, 3);
    assert_eq!(pieces, vec!["ab😀", "cd"]);
    let pieces = sub_strings(text, 2);
    assert_eq!(pieces, vec!["ab", "😀c", "d"]);
}

#[test]
fn cjk_and_combining_marks_round_trip() {
    let text = "日本語のテキストe\u{301}e\u{301}と絵文字😀😀😀";
    let mut max_len: usize = 1;
    while max_len <= 25 {
        let pieces = sub_strings(text, max_len);
        assert_eq!(pieces.concat(), text);
        let mut i: usize = 0;
        while i < pieces.len() {
            let n = char_len(pieces[i]);
            assert!(n >= 1 && n <= max_len);
            if i + 1 < pieces.len() {
                assert_eq!(n, max_len);
            }
            i += 1;
        }
        assert_eq!(pieces.len(), (char_len(text) + max_len - 1) / max_len);
        max_len += 1;
    }
}

#[test]
fn long_reply_is_cut_at_1800() {
    let reply = "x".repeat(4000);
    let pieces = sub_strings(&reply, 1800);
    assert_eq!(pieces.len(), 3);
    assert_eq!(pieces[0].len(), 1800);
    assert_eq!(pieces[1].len(), 1800);
    assert_eq!(pieces[2].len(), 400);
}

#[test]
fn long_multi_byte_reply_is_counted_in_characters() {
    let reply = "é".repeat(1801);
    let pieces = sub_strings(&reply, 1800);
    assert_eq!(pieces.len(), 2);
    assert_eq!(char_len(pieces[0]), 1800);
    assert_eq!(pieces[0].len(), 3600);
    assert_eq!(pieces[1], "é");
}

#[test]
fn first_characters_of_a_text() {
    assert_eq!(first_x_chars("héllo wörld", 4), "héll");
    assert_eq!(first_x_chars("héllo", 5), "héllo");
    assert_eq!(first_x_chars("héllo", 256), "héllo");
    assert_eq!(first_x_chars("héllo", 0), "");
    assert_eq!(first_x_chars("", 3), "");
}
