//! The persistence codec: the note list is saved as a JSON array of
//! `{"tag": ..., "body": ...}` objects in a UTF-8 text file. The
//! encoder and the parser are both verified, and decoding an encoded
//! store is proved to give the notes back unchanged.

use vstd::prelude::*;

verus! {

use crate::note::Note;
use crate::note::NoteView;
use crate::text::str_to_chars;
use crate::text::chars_to_string;
use crate::text::trim_chars;
use crate::text::trimmed;

/// The encoding of one character inside a JSON string: quote,
/// backslash, newline, tab and carriage return are escaped, everything
/// else stands for itself.
pub open spec fn esc_char(c: char) -> Seq<char> {
    if c == '"' {
        seq!['\\', '"']
    } else if c == '\\' {
        seq!['\\', '\\']
    } else if c == '\n' {
        seq!['\\', 'n']
    } else if c == '\t' {
        seq!['\\', 't']
    } else if c == '\r' {
        seq!['\\', 'r']
    } else {
        seq![c]
    }
}

/// The encoding of a whole string body.
pub open spec fn esc(s: Seq<char>) -> Seq<char>
    decreases s.len(),
{
    if s.len() == 0 {
        Seq::empty()
    } else {
        esc_char(s[0]) + esc(s.drop_first())
    }
}

/// The eight characters that open a note object, up to and including
/// the quote that opens the tag string: `{"tag":"`.
pub open spec fn tag_prefix() -> Seq<char> {
    seq!['{', '"', 't', 'a', 'g', '"', ':', '"']
}

/// The nine characters between the quote that closes the tag string
/// and the start of the body string: `,"body":"`.
pub open spec fn body_prefix() -> Seq<char> {
    seq![',', '"', 'b', 'o', 'd', 'y', '"', ':', '"']
}

/// The encoding of one note: `{"tag":"<tag>","body":"<body>"}`.
pub open spec fn enc_note(n: NoteView) -> Seq<char> {
    tag_prefix() + esc(n.tag) + seq!['"'] + body_prefix() + esc(n.body) + seq!['"', '}']
}

/// The encodings of the notes, joined by commas.
pub open spec fn enc_items(notes: Seq<NoteView>) -> Seq<char>
    decreases notes.len(),
{
    if notes.len() == 0 {
        Seq::empty()
    } else if notes.len() == 1 {
        enc_note(notes[0])
    } else {
        enc_note(notes[0]) + seq![','] + enc_items(notes.drop_first())
    }
}

/// The encoding of the whole store: the joined notes between square
/// brackets.
pub open spec fn enc_store(notes: Seq<NoteView>) -> Seq<char> {
    seq!['['] + enc_items(notes) + seq![']']
}

/// Joining distributes over adding a note at the end: the new note's
/// encoding follows the old joined encoding after a comma.
proof fn lemma_enc_items_snoc(notes: Seq<NoteView>, n: NoteView)
    requires
        notes.len() > 0,
    ensures
        enc_items(notes.push(n)) == enc_items(notes) + seq![','] + enc_note(n),
    decreases notes.len(),
{
    if notes.len() == 1 {
        assert(notes.push(n).drop_first() =~= seq![n]);
        assert(notes.push(n)[0] == notes[0]);
        assert(seq![n][0] == n);
        assert(enc_items(seq![n]) == enc_note(n));
        assert(enc_items(notes.push(n)) =~= enc_items(notes) + seq![','] + enc_note(n));
    } else {
        assert(notes.push(n).drop_first() =~= notes.drop_first().push(n));
        lemma_enc_items_snoc(notes.drop_first(), n);
        assert(enc_items(notes.push(n)) =~= enc_items(notes) + seq![','] + enc_note(n));
    }
}

/// Appends the encoding of one character to `out`.
fn push_esc_char(out: &mut Vec<char>, c: char)
    ensures
        final(out)@ == old(out)@ + esc_char(c),
{
    if c == '"' {
        out.push('\\');
        out.push('"');
    } else if c == '\\' {
        out.push('\\');
        out.push('\\');
    } else if c == '\n' {
        out.push('\\');
        out.push('n');
    } else if c == '\t' {
        out.push('\\');
        out.push('t');
    } else if c == '\r' {
        out.push('\\');
        out.push('r');
    } else {
        out.push(c);
    }
    proof {
        assert(final(out)@ =~= old(out)@ + esc_char(c));
    }
}

/// Escaping distributes over splitting a string anywhere.
proof fn lemma_esc_concat(a: Seq<char>, b: Seq<char>)
    ensures
        esc(a + b) == esc(a) + esc(b),
    decreases a.len(),
{
    if a.len() == 0 {
        assert(a + b =~= b);
        assert(esc(a) =~= Seq::<char>::empty());
        assert(esc(a + b) =~= esc(a) + esc(b));
    } else {
        assert((a + b).drop_first() =~= a.drop_first() + b);
        lemma_esc_concat(a.drop_first(), b);
        assert((a + b)[0] == a[0]);
        assert(esc(a + b) =~= esc(a) + esc(b));
    }
}

/// Appends the encoding of the string `s` to `out`.
fn push_esc(out: &mut Vec<char>, s: &Vec<char>)
    ensures
        final(out)@ == old(out)@ + esc(s@),
{
    let n = s.len();
    let mut i: usize = 0;
    while i < n
        invariant
            i <= n,
            n == s@.len(),
            out@ == old(out)@ + esc(s@.subrange(0, i as int)),
        decreases n - i,
    {
        push_esc_char(out, s[i]);
        proof {
            assert(s@.subrange(0, i + 1) =~= s@.subrange(0, i as int) + seq![s@[i as int]]);
            lemma_esc_concat(s@.subrange(0, i as int), seq![s@[i as int]]);
            assert(seq![s@[i as int]].drop_first() =~= Seq::<char>::empty());
            assert(esc(Seq::<char>::empty()) =~= Seq::<char>::empty());
            assert(esc(seq![s@[i as int]]) =~= esc_char(s@[i as int]));
        }
        i = i + 1;
    }
    proof {
        assert(s@.subrange(0, n as int) =~= s@);
    }
}

/// Appends the encoding of one note to `out`.
fn push_note(out: &mut Vec<char>, note: &Note)
    ensures
        final(out)@ == old(out)@ + enc_note(note@),
{
    out.push('{');
    out.push('"');
    out.push('t');
    out.push('a');
    out.push('g');
    out.push('"');
    out.push(':');
    out.push('"');
    let tag = str_to_chars(note.tag.as_str());
    push_esc(out, &tag);
    out.push('"');
    out.push(',');
    out.push('"');
    out.push('b');
    out.push('o');
    out.push('d');
    out.push('y');
    out.push('"');
    out.push(':');
    out.push('"');
    let body = str_to_chars(note.body.as_str());
    push_esc(out, &body);
    out.push('"');
    out.push('}');
    proof {
        assert(final(out)@ =~= old(out)@ + enc_note(note@));
    }
}

/// Encodes the notes as a JSON array of `{"tag": ..., "body": ...}`
/// objects.
pub fn encode_notes(notes: &Vec<Note>) -> (r: String)
    ensures
        r@ == enc_store(notes.deep_view()),
{
    let n = notes.len();
    let mut out: Vec<char> = Vec::new();
    out.push('[');
    let mut i: usize = 0;
    while i < n
        invariant
            i <= n,
            n == notes@.len(),
            notes.deep_view().len() == n,
            out@ == seq!['['] + enc_items(notes.deep_view().subrange(0, i as int)),
        decreases n - i,
    {
        proof {
            assert(notes.deep_view().subrange(0, i + 1) =~= notes.deep_view().subrange(
                0,
                i as int,
            ).push(notes.deep_view()[i as int]));
            assert(notes[i as int].deep_view() == notes.deep_view()[i as int]);
        }
        if i > 0 {
            out.push(',');
            proof {
                lemma_enc_items_snoc(
                    notes.deep_view().subrange(0, i as int),
                    notes.deep_view()[i as int],
                );
            }
        } else {
            proof {
                assert(enc_items(notes.deep_view().subrange(0, 1)) =~= enc_note(
                    notes.deep_view()[0],
                ));
            }
        }
        push_note(&mut out, &notes[i]);
        proof {
            assert(out@ =~= seq!['['] + enc_items(notes.deep_view().subrange(0, i + 1)));
        }
        i = i + 1;
    }
    out.push(']');
    proof {
        assert(notes.deep_view().subrange(0, n as int) =~= notes.deep_view());
        assert(out@ =~= enc_store(notes.deep_view()));
    }
    chars_to_string(&out)
}

/// Whether `e` may follow a backslash in a string body.
pub open spec fn valid_esc(e: char) -> bool {
    e == '"' || e == '\\' || e == 'n' || e == 't' || e == 'r'
}

/// The character denoted by the escape code `e`.
pub open spec fn unesc_char(e: char) -> char {
    if e == 'n' {
        '\n'
    } else if e == 't' {
        '\t'
    } else if e == 'r' {
        '\r'
    } else {
        e
    }
}

/// Parses a string body from `i` (just past the opening quote) up to
/// and including the closing quote; the result is the decoded content
/// and the position just past that quote.
pub open spec fn parse_str_body(s: Seq<char>, i: int) -> Option<(Seq<char>, int)>
    decreases s.len() - i,
{
    if i < 0 || i >= s.len() {
        Option::None
    } else if s[i] == '"' {
        Option::Some((Seq::empty(), i + 1))
    } else if s[i] == '\\' {
        if i + 1 < s.len() && valid_esc(s[i + 1]) {
            match parse_str_body(s, i + 2) {
                Option::Some((rest, j)) => Option::Some((seq![unesc_char(s[i + 1])] + rest, j)),
                Option::None => Option::None,
            }
        } else {
            Option::None
        }
    } else {
        match parse_str_body(s, i + 1) {
            Option::Some((rest, j)) => Option::Some((seq![s[i]] + rest, j)),
            Option::None => Option::None,
        }
    }
}

/// Consumes the literal `lit` at `i`, giving the position just past
/// it.
pub open spec fn expect_lit(s: Seq<char>, i: int, lit: Seq<char>) -> Option<int> {
    if 0 <= i && i + lit.len() <= s.len() && s.subrange(i, i + lit.len()) == lit {
        Option::Some(i + lit.len())
    } else {
        Option::None
    }
}

/// Parses one `{"tag": ..., "body": ...}` object at `i`.
pub open spec fn parse_note(s: Seq<char>, i: int) -> Option<(NoteView, int)> {
    match expect_lit(s, i, tag_prefix()) {
        Option::Some(j1) => match parse_str_body(s, j1) {
            Option::Some((tag, j2)) => match expect_lit(s, j2, body_prefix()) {
                Option::Some(j3) => match parse_str_body(s, j3) {
                    Option::Some((body, j4)) => if j4 < s.len() && s[j4] == '}' {
                        Option::Some((NoteView { tag, body }, j4 + 1))
                    } else {
                        Option::None
                    },
                    Option::None => Option::None,
                },
                Option::None => Option::None,
            },
            Option::None => Option::None,
        },
        Option::None => Option::None,
    }
}

/// Parses a comma-separated, non-empty run of note objects at `i`.
/// `fuel` bounds the number of objects; any value at least their
/// number gives the same result.
pub open spec fn parse_items(s: Seq<char>, i: int, fuel: nat) -> Option<(Seq<NoteView>, int)>
    decreases fuel,
{
    if fuel == 0 {
        Option::None
    } else {
        match parse_note(s, i) {
            Option::Some((n, j)) => if j < s.len() && s[j] == ',' {
                match parse_items(s, j + 1, (fuel - 1) as nat) {
                    Option::Some((rest, k)) => Option::Some((seq![n] + rest, k)),
                    Option::None => Option::None,
                }
            } else {
                Option::Some((seq![n], j))
            },
            Option::None => Option::None,
        }
    }
}

/// The note sequence encoded by `s`, if `s` is a well-formed note
/// file: a bracketed, comma-separated run of note objects with nothing
/// after the closing bracket.
pub open spec fn parse_store(s: Seq<char>) -> Option<Seq<NoteView>> {
    if s.len() < 2 || s[0] != '[' {
        Option::None
    } else if s.len() == 2 {
        if s[1] == ']' {
            Option::Some(Seq::empty())
        } else {
            Option::None
        }
    } else {
        match parse_items(s, 1, s.len() as nat) {
            Option::Some((notes, j)) => if j == s.len() - 1 && s[j] == ']' {
                Option::Some(notes)
            } else {
                Option::None
            },
            Option::None => Option::None,
        }
    }
}

fn valid_esc_char(e: char) -> (r: bool)
    ensures
        r == valid_esc(e),
{
    e == '"' || e == '\\' || e == 'n' || e == 't' || e == 'r'
}

fn unesc_char_of(e: char) -> (r: char)
    ensures
        r == unesc_char(e),
{
    if e == 'n' {
        '\n'
    } else if e == 't' {
        '\t'
    } else if e == 'r' {
        '\r'
    } else {
        e
    }
}

fn parse_str_body_in(v: &Vec<char>, i: usize) -> (r: Option<(Vec<char>, usize)>)
    ensures
        (r is Some) == (parse_str_body(v@, i as int) is Some),
        r matches Some(p) ==> parse_str_body(v@, i as int) matches Some(q) && p.0@ == q.0 && p.1
            as int == q.1,
    decreases v@.len() - i,
{
    if i >= v.len() {
        return Option::None;
    }
    let c = v[i];
    if c == '"' {
        Option::Some((Vec::new(), i + 1))
    } else if c == '\\' {
        if i + 1 < v.len() && valid_esc_char(v[i + 1]) {
            match parse_str_body_in(v, i + 2) {
                Option::Some((mut rest, j)) => {
                    let d = unesc_char_of(v[i + 1]);
                    rest.insert(0, d);
                    proof {
                        assert(rest@ =~= seq![unesc_char(v@[i + 1])]
                            + parse_str_body(v@, i + 2)->Some_0.0);
                    }
                    Option::Some((rest, j))
                },
                Option::None => Option::None,
            }
        } else {
            Option::None
        }
    } else {
        match parse_str_body_in(v, i + 1) {
            Option::Some((mut rest, j)) => {
                rest.insert(0, c);
                proof {
                    assert(rest@ =~= seq![v@[i as int]] + parse_str_body(v@, i + 1)->Some_0.0);
                }
                Option::Some((rest, j))
            },
            Option::None => Option::None,
        }
    }
}

fn expect_tag_prefix(v: &Vec<char>, i: usize) -> (r: Option<usize>)
    ensures
        (r is Some) == (expect_lit(v@, i as int, tag_prefix()) is Some),
        r matches Some(j) ==> expect_lit(v@, i as int, tag_prefix()) == Option::Some(j as int),
{
    if i <= v.len() && v.len() - i >= 8 && v[i] == '{' && v[i + 1] == '"' && v[i + 2] == 't' && v[i
        + 3] == 'a' && v[i + 4] == 'g' && v[i + 5] == '"' && v[i + 6] == ':' && v[i + 7] == '"' {
        proof {
            assert(v@.subrange(i as int, i + 8) =~= tag_prefix());
        }
        Option::Some(i + 8)
    } else {
        proof {
            if 0 <= i as int && i + tag_prefix().len() <= v@.len() {
                assert(v@.subrange(i as int, i + 8) != tag_prefix()) by {
                    if v@.subrange(i as int, i + 8) == tag_prefix() {
                        assert(v@[i as int] == tag_prefix()[0]);
                        assert(v@[i + 1] == tag_prefix()[1]);
                        assert(v@[i + 2] == tag_prefix()[2]);
                        assert(v@[i + 3] == tag_prefix()[3]);
                        assert(v@[i + 4] == tag_prefix()[4]);
                        assert(v@[i + 5] == tag_prefix()[5]);
                        assert(v@[i + 6] == tag_prefix()[6]);
                        assert(v@[i + 7] == tag_prefix()[7]);
                    }
                }
            }
        }
        Option::None
    }
}

fn expect_body_prefix(v: &Vec<char>, i: usize) -> (r: Option<usize>)
    ensures
        (r is Some) == (expect_lit(v@, i as int, body_prefix()) is Some),
        r matches Some(j) ==> expect_lit(v@, i as int, body_prefix()) == Option::Some(j as int),
{
    if i <= v.len() && v.len() - i >= 9 && v[i] == ',' && v[i + 1] == '"' && v[i + 2] == 'b' && v[i
        + 3] == 'o' && v[i + 4] == 'd' && v[i + 5] == 'y' && v[i + 6] == '"' && v[i + 7] == ':'
        && v[i + 8] == '"' {
        proof {
            assert(v@.subrange(i as int, i + 9) =~= body_prefix());
        }
        Option::Some(i + 9)
    } else {
        proof {
            if 0 <= i as int && i + body_prefix().len() <= v@.len() {
                assert(v@.subrange(i as int, i + 9) != body_prefix()) by {
                    if v@.subrange(i as int, i + 9) == body_prefix() {
                        assert(v@[i as int] == body_prefix()[0]);
                        assert(v@[i + 1] == body_prefix()[1]);
                        assert(v@[i + 2] == body_prefix()[2]);
                        assert(v@[i + 3] == body_prefix()[3]);
                        assert(v@[i + 4] == body_prefix()[4]);
                        assert(v@[i + 5] == body_prefix()[5]);
                        assert(v@[i + 6] == body_prefix()[6]);
                        assert(v@[i + 7] == body_prefix()[7]);
                        assert(v@[i + 8] == body_prefix()[8]);
                    }
                }
            }
        }
        Option::None
    }
}

fn parse_note_in(v: &Vec<char>, i: usize) -> (r: Option<(Note, usize)>)
    ensures
        (r is Some) == (parse_note(v@, i as int) is Some),
        r matches Some(p) ==> parse_note(v@, i as int) matches Some(q) && p.0.deep_view() == q.0
            && p.1 as int == q.1,
{
    let j1 = match expect_tag_prefix(v, i) {
        Option::Some(j) => j,
        Option::None => {
            return Option::None;
        },
    };
    let (tag, j2) = match parse_str_body_in(v, j1) {
        Option::Some(p) => p,
        Option::None => {
            return Option::None;
        },
    };
    let j3 = match expect_body_prefix(v, j2) {
        Option::Some(j) => j,
        Option::None => {
            return Option::None;
        },
    };
    let (body, j4) = match parse_str_body_in(v, j3) {
        Option::Some(p) => p,
        Option::None => {
            return Option::None;
        },
    };
    if j4 < v.len() && v[j4] == '}' {
        let note = Note { tag: chars_to_string(&tag), body: chars_to_string(&body) };
        Option::Some((note, j4 + 1))
    } else {
        Option::None
    }
}

fn parse_items_in(v: &Vec<char>, i: usize, fuel: usize) -> (r: Option<(Vec<Note>, usize)>)
    ensures
        (r is Some) == (parse_items(v@, i as int, fuel as nat) is Some),
        r matches Some(p) ==> parse_items(v@, i as int, fuel as nat) matches Some(q)
            && p.0.deep_view() == q.0 && p.1 as int == q.1,
    decreases fuel,
{
    if fuel == 0 {
        return Option::None;
    }
    let (n, j) = match parse_note_in(v, i) {
        Option::Some(p) => p,
        Option::None => {
            return Option::None;
        },
    };
    if j < v.len() && v[j] == ',' {
        match parse_items_in(v, j + 1, fuel - 1) {
            Option::Some((mut rest, k)) => {
                rest.insert(0, n);
                proof {
                    assert(rest.deep_view() =~= seq![
                        parse_note(v@, i as int)->Some_0.0,
                    ] + parse_items(v@, j + 1, (fuel - 1) as nat)->Some_0.0);
                }
                Option::Some((rest, k))
            },
            Option::None => Option::None,
        }
    } else {
        let mut one: Vec<Note> = Vec::new();
        one.push(n);
        proof {
            assert(one.deep_view() =~= seq![parse_note(v@, i as int)->Some_0.0]);
        }
        Option::Some((one, j))
    }
}

/// Decodes a note file: the input is trimmed of blank characters at
/// both ends and must then be a bracketed, comma-separated run of
/// `{"tag": ..., "body": ...}` objects, or the empty array. Returns
/// the notes, or nothing when the text is not a well-formed note file.
pub fn decode_notes(s: &str) -> (r: Option<Vec<Note>>)
    ensures
        (r is Some) == (parse_store(trimmed(s@)) is Some),
        r matches Some(v) ==> parse_store(trimmed(s@)) matches Some(ns) && v.deep_view() == ns,
{
    let chars = str_to_chars(s);
    let t = trim_chars(&chars);
    if t.len() < 2 {
        return Option::None;
    }
    if !(t[0] == '[') {
        return Option::None;
    }
    if t.len() == 2 {
        if t[1] == ']' {
            let empty: Vec<Note> = Vec::new();
            proof {
                assert(empty.deep_view() =~= Seq::<NoteView>::empty());
            }
            return Option::Some(empty);
        } else {
            return Option::None;
        }
    }
    match parse_items_in(&t, 1, t.len()) {
        Option::Some((notes, j)) => {
            if j == t.len() - 1 && t[j] == ']' {
                Option::Some(notes)
            } else {
                Option::None
            }
        },
        Option::None => Option::None,
    }
}

/// Parsing a string body off the encoding of `s` recovers `s` exactly
/// and stops just past the quote that follows the encoding.
proof fn lemma_parse_esc(full: Seq<char>, i: int, s: Seq<char>)
    requires
        0 <= i,
        i + esc(s).len() < full.len(),
        full.subrange(i, i + esc(s).len()) == esc(s),
        full[i + esc(s).len()] == '"',
    ensures
        parse_str_body(full, i) == Option::Some((s, i + esc(s).len() + 1)),
    decreases s.len(),
{
    if s.len() == 0 {
        assert(esc(s).len() == 0);
        assert(s =~= Seq::<char>::empty());
        assert(full[i] == '"');
    } else {
        let c = s[0];
        let rest = s.drop_first();
        let ec = esc_char(c);
        assert(esc(s) == ec + esc(rest));
        assert(full[i] == esc(s)[0]) by {
            assert(full.subrange(i, i + esc(s).len())[0] == esc(s)[0]);
        }
        if c == '"' || c == '\\' || c == '\n' || c == '\t' || c == '\r' {
            let e = ec[1];
            assert(ec.len() == 2);
            assert(esc(s)[0] == '\\');
            assert(full[i + 1] == esc(s)[1]) by {
                assert(full.subrange(i, i + esc(s).len())[1] == esc(s)[1]);
            }
            assert(esc(s)[1] == e);
            assert(valid_esc(e));
            assert(unesc_char(e) == c);
            assert(full.subrange(i + 2, i + 2 + esc(rest).len()) =~= esc(rest)) by {
                assert(forall|k: int|
                    0 <= k < esc(rest).len() ==> full.subrange(
                        i + 2,
                        i + 2 + esc(rest).len(),
                    )[k] == full[i + 2 + k] && full[i + 2 + k] == full.subrange(
                        i,
                        i + esc(s).len(),
                    )[k + 2] && esc(s)[k + 2] == esc(rest)[k]);
            }
            assert(i + 2 + esc(rest).len() == i + esc(s).len());
            lemma_parse_esc(full, i + 2, rest);
            assert(seq![unesc_char(full[i + 1])] + rest =~= s);
        } else {
            assert(ec =~= seq![c]);
            assert(esc(s)[0] == c);
            assert(full[i] == c);
            assert(full.subrange(i + 1, i + 1 + esc(rest).len()) =~= esc(rest)) by {
                assert(forall|k: int|
                    0 <= k < esc(rest).len() ==> full.subrange(
                        i + 1,
                        i + 1 + esc(rest).len(),
                    )[k] == full[i + 1 + k] && full[i + 1 + k] == full.subrange(
                        i,
                        i + esc(s).len(),
                    )[k + 1] && esc(s)[k + 1] == esc(rest)[k]);
            }
            assert(i + 1 + esc(rest).len() == i + esc(s).len());
            lemma_parse_esc(full, i + 1, rest);
            assert(seq![full[i]] + rest =~= s);
        }
    }
}

/// Parsing a note object off the encoding of `n` recovers `n` exactly.
proof fn lemma_parse_note_at(full: Seq<char>, i: int, n: NoteView)
    requires
        0 <= i,
        i + enc_note(n).len() <= full.len(),
        full.subrange(i, i + enc_note(n).len()) == enc_note(n),
    ensures
        parse_note(full, i) == Option::Some((n, i + enc_note(n).len())),
{
    let e = enc_note(n);
    let et = esc(n.tag);
    let eb = esc(n.body);
    assert(e == tag_prefix() + et + seq!['"'] + body_prefix() + eb + seq!['"', '}']);
    assert(e.len() == 20 + et.len() + eb.len());
    assert(forall|k: int| 0 <= k < e.len() ==> full[i + k] == e[k]) by {
        assert(forall|k: int|
            0 <= k < e.len() ==> #[trigger] full.subrange(i, i + e.len())[k] == full[i + k]);
    }
    // the opening literal
    assert(full.subrange(i, i + 8) =~= tag_prefix());
    assert(expect_lit(full, i, tag_prefix()) == Option::Some(i + 8));
    let j1 = i + 8;
    // the tag string
    assert(forall|k: int| 0 <= k < et.len() ==> e[8 + k] == et[k]);
    assert(full.subrange(j1, j1 + et.len()) =~= et);
    assert(full[j1 + et.len()] == e[8 + et.len() as int]);
    assert(e[8 + et.len() as int] == '"');
    lemma_parse_esc(full, j1, n.tag);
    let j2 = j1 + et.len() + 1;
    // the middle literal
    assert(forall|k: int| 0 <= k < 9 ==> e[9 + et.len() as int + k] == body_prefix()[k]);
    assert(full.subrange(j2, j2 + 9) =~= body_prefix());
    assert(expect_lit(full, j2, body_prefix()) == Option::Some(j2 + 9));
    let j3 = j2 + 9;
    // the body string
    assert(forall|k: int| 0 <= k < eb.len() ==> e[18 + et.len() as int + k] == eb[k]);
    assert(full.subrange(j3, j3 + eb.len()) =~= eb);
    assert(full[j3 + eb.len()] == e[18 + et.len() as int + eb.len() as int]);
    assert(e[18 + et.len() as int + eb.len() as int] == '"');
    lemma_parse_esc(full, j3, n.body);
    let j4 = j3 + eb.len() + 1;
    // the closing brace
    assert(full[j4] == e[19 + et.len() as int + eb.len() as int]);
    assert(e[19 + et.len() as int + eb.len() as int] == '}');
    assert(j4 < full.len());
    assert(j4 + 1 == i + e.len());
    assert(NoteView { tag: n.tag, body: n.body } =~= n);
}

/// Each encoded note takes at least one character.
proof fn lemma_enc_items_len(notes: Seq<NoteView>)
    requires
        notes.len() > 0,
    ensures
        enc_items(notes).len() >= notes.len(),
    decreases notes.len(),
{
    assert(enc_note(notes[0]).len() >= 8);
    if notes.len() > 1 {
        lemma_enc_items_len(notes.drop_first());
    }
}

/// Parsing a run of note objects off the encoding of `notes`, with the
/// closing bracket right after it, recovers `notes` exactly.
proof fn lemma_parse_items_at(full: Seq<char>, i: int, notes: Seq<NoteView>, fuel: nat)
    requires
        notes.len() > 0,
        fuel >= notes.len(),
        0 <= i,
        i + enc_items(notes).len() < full.len(),
        full.subrange(i, i + enc_items(notes).len()) == enc_items(notes),
        full[i + enc_items(notes).len()] == ']',
    ensures
        parse_items(full, i, fuel) == Option::Some((notes, i + enc_items(notes).len())),
    decreases notes.len(),
{
    let n0 = notes[0];
    let ei = enc_items(notes);
    assert(forall|k: int| 0 <= k < ei.len() ==> full[i + k] == ei[k]) by {
        assert(forall|k: int|
            0 <= k < ei.len() ==> #[trigger] full.subrange(i, i + ei.len())[k] == full[i + k]);
    }
    if notes.len() == 1 {
        assert(ei == enc_note(n0));
        assert(full.subrange(i, i + enc_note(n0).len()) =~= enc_note(n0));
        lemma_parse_note_at(full, i, n0);
        let j = i + enc_note(n0).len();
        assert(full[j] == ']');
        assert(seq![n0] =~= notes);
    } else {
        assert(ei == enc_note(n0) + seq![','] + enc_items(notes.drop_first()));
        assert(full.subrange(i, i + enc_note(n0).len()) =~= enc_note(n0));
        lemma_parse_note_at(full, i, n0);
        let j = i + enc_note(n0).len();
        assert(full[j] == ei[enc_note(n0).len() as int]);
        assert(ei[enc_note(n0).len() as int] == ',');
        let i2 = j + 1;
        let rest = notes.drop_first();
        assert(forall|k: int|
            0 <= k < enc_items(rest).len() ==> ei[enc_note(n0).len() as int + 1 + k] == enc_items(
                rest,
            )[k]);
        assert(full.subrange(i2, i2 + enc_items(rest).len()) =~= enc_items(rest));
        assert(i2 + enc_items(rest).len() == i + ei.len());
        lemma_parse_items_at(full, i2, rest, (fuel - 1) as nat);
        assert(seq![n0] + rest =~= notes);
    }
}

/// Round trip: the note file produced by the encoder parses back to
/// exactly the note sequence it was produced from. Together with the
/// contracts of `encode_notes` and `decode_notes` this says that
/// persisting a store and reloading it reproduces the same ordered
/// sequence of tag/body pairs.
pub proof fn lemma_store_round_trip(notes: Seq<NoteView>)
    ensures
        parse_store(enc_store(notes)) == Option::Some(notes),
{
    let s = enc_store(notes);
    if notes.len() == 0 {
        assert(enc_items(notes) =~= Seq::<char>::empty());
        assert(s =~= seq!['[', ']']);
        assert(s.len() == 2 && s[0] == '[' && s[1] == ']');
        assert(notes =~= Seq::<NoteView>::empty());
    } else {
        lemma_enc_items_len(notes);
        let m = enc_items(notes).len();
        assert(s.len() == 2 + m);
        assert(s[0] == '[');
        assert(s.subrange(1, 1 + m as int) =~= enc_items(notes));
        assert(s[1 + m as int] == ']');
        lemma_parse_items_at(s, 1, notes, s.len() as nat);
        assert(1 + m == s.len() - 1);
    }
}

/// Round trip through the decoder's entry point: the encoder's output
/// starts with `[` and ends with `]`, so the decoder's initial
/// trimming does nothing to it, and parsing gives the notes back.
pub proof fn lemma_encode_decode(notes: Seq<NoteView>)
    ensures
        parse_store(trimmed(enc_store(notes))) == Option::Some(notes),
{
    let s = enc_store(notes);
    assert(s[0] == '[');
    assert(s[s.len() - 1] == ']');
    assert(!crate::text::is_blank('[') && !crate::text::is_blank(']'));
    crate::text::lemma_trimmed_id(s);
    lemma_store_round_trip(notes);
}

} // verus!
