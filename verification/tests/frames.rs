use sotachaser::frame::{split_first_frame, take_frame, DELIMITER};

fn taken(pending: &str, chunk: &str) -> (String, String) {
    take_frame(pending, chunk)
}

#[test]
fn delimiter_is_a_semicolon() {
    assert_eq!(DELIMITER, ';');
}

#[test]
fn frame_split_across_two_chunks_is_reassembled() {
    let (frame, pending) = taken("", "FA0001406200");
    assert_eq!(frame, "");
    assert_eq!(pending, "FA0001406200");
    let (frame, pending) = taken(&pending, "0;");
    assert_eq!(frame, "FA00014062000;");
    assert_eq!(pending, "");
}

#[test]
fn delimiter_alone_in_its_chunk_completes_the_frame() {
    let (frame, pending) = taken("MD3", ";");
    assert_eq!(frame, "MD3;");
    assert_eq!(pending, "");
}

#[test]
fn chunk_without_delimiter_stays_pending() {
    let (frame, pending) = taken("FA", "000");
    assert_eq!(frame, "");
    assert_eq!(pending, "FA000");
}

#[test]
fn text_behind_the_first_frame_stays_pending() {
    let (frame, pending) = taken("", "FA00014062000;MD");
    assert_eq!(frame, "FA00014062000;");
    assert_eq!(pending, "MD");
}

#[test]
fn two_frames_in_one_chunk_come_out_oldest_first() {
    let (first, pending) = taken("", "FR0;FT0;");
    assert_eq!(first, "FR0;");
    assert_eq!(pending, "FT0;");
    let (second, pending) = taken(&pending, "");
    assert_eq!(second, "FT0;");
    assert_eq!(pending, "");
}

#[test]
fn empty_chunk_on_empty_buffer_gives_nothing() {
    let (frame, pending) = taken("", "");
    assert_eq!(frame, "");
    assert_eq!(pending, "");
}

#[test]
fn lone_delimiter_is_a_frame() {
    let (frame, pending) = taken("", ";");
    assert_eq!(frame, ";");
    assert_eq!(pending, "");
}

#[test]
fn frames_keep_characters_outside_ascii() {
    let (frame, pending) = taken("é", "ü;ß");
    assert_eq!(frame, "éü;");
    assert_eq!(pending, "ß");
}

#[test]
fn every_way_to_cut_a_stream_gives_the_same_frames() {
    let stream = "FR0;FT0;FA00014062000;MD3;tail";
    let chars: Vec<char> = stream.chars().collect();
    let mut cut: usize = 0;
    while cut <= chars.len() {
        let first: String = chars[..cut].iter().collect();
        let second: String = chars[cut..].iter().collect();
        let mut pending = String::new();
        let mut frames: Vec<String> = Vec::new();
        for chunk in [first.as_str(), second.as_str(), "", "", ""] {
            let (frame, rest) = taken(&pending, chunk);
            pending = rest;
            if !frame.is_empty() {
                frames.push(frame);
            }
        }
        assert_eq!(frames, vec!["FR0;", "FT0;", "FA00014062000;", "MD3;"]);
        assert_eq!(pending, "tail");
        cut += 1;
    }
}

#[test]
fn frames_and_pending_text_spell_what_was_received() {
    let chunks = ["A", ";B;", "", "C;D", ";", "E"];
    let mut pending = String::new();
    let mut out = String::new();
    for chunk in chunks {
        let (frame, rest) = taken(&pending, chunk);
        assert!(frame.is_empty() || (frame.ends_with(';') && frame.matches(';').count() == 1));
        out.push_str(&frame);
        pending = rest;
    }
    out.push_str(&pending);
    assert_eq!(out, chunks.concat());
}

#[test]
fn split_without_delimiter_keeps_all_text_behind() {
    let (frame, rest) = split_first_frame("FA000");
    assert_eq!(frame, "");
    assert_eq!(rest, "FA000");
}

#[test]
fn split_cuts_behind_the_first_delimiter() {
    let (frame, rest) = split_first_frame("a;b;c");
    assert_eq!(frame, "a;");
    assert_eq!(rest, "b;c");
}
