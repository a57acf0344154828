use note_tui::codec::{decode_notes, encode_notes};
use note_tui::note::Note;

fn note(tag: &str, body: &str) -> Note {
    Note { tag: tag.to_string(), body: body.to_string() }
}

fn pairs(notes: &[Note]) -> Vec<(String, String)> {
    notes.iter().map(|n| (n.tag.clone(), n.body.clone())).collect()
}

#[test]
fn encode_empty_store() {
    let notes: Vec<Note> = Vec::new();
    assert_eq!(encode_notes(&notes), "[]");
}

#[test]
fn encode_two_notes_exactly() {
    let notes = vec![note("work", "buy milk"), note("", "x")];
    assert_eq!(
        encode_notes(&notes),
        "[{\"tag\":\"work\",\"body\":\"buy milk\"},{\"tag\":\"\",\"body\":\"x\"}]"
    );
}

#[test]
fn encode_escapes_special_characters() {
    let notes = vec![note("a\"b", "c\\d\ne\tf\rg")];
    assert_eq!(
        encode_notes(&notes),
        "[{\"tag\":\"a\\\"b\",\"body\":\"c\\\\d\\ne\\tf\\rg\"}]"
    );
}

#[test]
fn decode_reproduces_encoded_store() {
    // Persisting and reloading gives the same ordered tag/body pairs.
    let notes = vec![
        note("work", "buy milk"),
        note("", "no tag here"),
        note("quotes", "say \"hi\" and \\ back"),
        note("lines", "a\nb\tc\rd"),
        note("unicode", "héllo wörld"),
    ];
    let text = encode_notes(&notes);
    let back = decode_notes(&text).expect("the encoder's output must decode");
    assert_eq!(pairs(&back), pairs(&notes));
}

#[test]
fn roundtrip_with_json_delimiters_inside_text() {
    // Braces, brackets, commas and colons inside a tag or body are
    // ordinary characters and survive the trip.
    let notes = vec![
        note("a,b", "c}d]e"),
        note("{[", "tag\":\"fake"),
        note(":", ","),
    ];
    let text = encode_notes(&notes);
    let back = decode_notes(&text).unwrap();
    assert_eq!(pairs(&back), pairs(&notes));
}

#[test]
fn roundtrip_of_empty_fields() {
    let notes = vec![note("", "")];
    let text = encode_notes(&notes);
    assert_eq!(text, "[{\"tag\":\"\",\"body\":\"\"}]");
    let back = decode_notes(&text).unwrap();
    assert_eq!(pairs(&back), pairs(&notes));
}

#[test]
fn decode_empty_array() {
    let back = decode_notes("[]").unwrap();
    assert!(back.is_empty());
}

#[test]
fn decode_tolerates_surrounding_whitespace() {
    let back = decode_notes("  [{\"tag\":\"a\",\"body\":\"b\"}]\n").unwrap();
    assert_eq!(back.len(), 1);
    assert_eq!(back[0].tag, "a");
    assert_eq!(back[0].body, "b");
}

#[test]
fn decode_rejects_malformed_text() {
    assert!(decode_notes("").is_none());
    assert!(decode_notes("[").is_none());
    assert!(decode_notes("{}").is_none());
    assert!(decode_notes("[{\"tag\":\"a\"}]").is_none());
    assert!(decode_notes("[{\"tag\":\"a\",\"body\":\"b\"}").is_none());
    assert!(decode_notes("[{\"tag\":\"a\",\"body\":\"b\"}]x").is_none());
    assert!(decode_notes("[{\"tag\":\"a\",\"body\":\"b\"},]").is_none());
    assert!(decode_notes("[{\"tag\":\"a\\x\",\"body\":\"b\"}]").is_none());
    assert!(decode_notes("[{\"tag\":\"a\",\"body\":\"b}]").is_none());
}

#[test]
fn encoded_store_is_valid_json_for_serde() {
    // The persisted file parses with a stock JSON parser and holds
    // the same fields.
    let notes = vec![note("work", "buy \"special\" milk\n"), note("", "x\\y")];
    let text = encode_notes(&notes);
    let v: serde_json::Value = serde_json::from_str(&text).expect("valid JSON");
    let arr = v.as_array().expect("an array");
    assert_eq!(arr.len(), 2);
    assert_eq!(arr[0]["tag"].as_str().unwrap(), "work");
    assert_eq!(arr[0]["body"].as_str().unwrap(), "buy \"special\" milk\n");
    assert_eq!(arr[1]["tag"].as_str().unwrap(), "");
    assert_eq!(arr[1]["body"].as_str().unwrap(), "x\\y");
}
