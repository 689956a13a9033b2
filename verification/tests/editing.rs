use faber::document::{Change, Document, Selection};
use faber::editing::{content_chars, EditBuffer};
use ropey::Rope;

fn doc(text: &str) -> Document {
    Document { rope: Rope::from_str(text), path: "/p/a.rs".to_string(), dirty: false }
}

fn caret(pos: usize) -> Selection {
    Selection { anchor: pos, head: pos, goal_col: 0 }
}

fn buffer(text: &str, anchor: usize, head: usize) -> EditBuffer {
    EditBuffer { doc: doc(text), sel: Selection { anchor, head, goal_col: 0 } }
}

fn text(b: &EditBuffer) -> String {
    b.doc.rope.to_string()
}

#[test]
fn replacing_and_taking_back() {
    let mut d = doc("größe\nzwei");
    let inverse = d.replace(2, 4, "oss");
    assert_eq!(d.rope.to_string(), "grosse\nzwei");
    assert!(d.dirty);
    assert_eq!((inverse.start, inverse.end, inverse.text.as_str()), (2, 5, "öß"));
    let again = d.apply(&inverse);
    assert_eq!(d.rope.to_string(), "größe\nzwei");
    d.apply(&again);
    assert_eq!(d.rope.to_string(), "grosse\nzwei");
}

#[test]
fn parts_of_a_document() {
    let d = doc("größe");
    assert_eq!(d.len_chars(), 5);
    assert_eq!(d.text_in(1, 3), "rö");
    assert_eq!(d.text_in(5, 5), "");
}

#[test]
fn selections_in_either_direction() {
    let s = Selection { anchor: 5, head: 2, goal_col: 0 };
    assert_eq!((s.start(), s.end(), s.is_empty()), (2, 5, false));
    assert!(caret(3).is_empty());
    let rope = Rope::from_str("ab\ncde");
    let c = Selection::collapsed(5, &rope);
    assert_eq!((c.anchor, c.head, c.goal_col), (5, 5, 2));
}

#[test]
fn line_ends_are_not_content() {
    assert_eq!(content_chars("abc\n"), 3);
    assert_eq!(content_chars("abc\r\n"), 3);
    assert_eq!(content_chars("abc"), 3);
    assert_eq!(content_chars("\n"), 0);
}

#[test]
fn typing_replaces_the_selection() {
    let mut b = buffer("hello world", 6, 11);
    let inverse = b.insert_text("x");
    assert_eq!(text(&b), "hello x");
    assert_eq!((b.sel.anchor, b.sel.head), (7, 7));
    b.doc.apply(&inverse);
    assert_eq!(text(&b), "hello world");
}

#[test]
fn backspace_takes_back_a_character() {
    let mut b = buffer("ab", 1, 1);
    b.insert_text("é");
    assert_eq!(text(&b), "aéb");
    b.do_backspace();
    assert_eq!(text(&b), "ab");
    assert_eq!(b.sel.head, 1);
}

#[test]
fn backspace_at_the_start_does_nothing() {
    let mut b = buffer("ab", 0, 0);
    assert!(b.do_backspace().is_none());
    assert_eq!(text(&b), "ab");
    let mut b = buffer("ab", 2, 2);
    assert!(b.do_delete_fwd().is_none());
    assert_eq!(text(&b), "ab");
}

#[test]
fn deleting_forwards_and_by_words() {
    let mut b = buffer("one two", 3, 3);
    b.do_delete_fwd();
    assert_eq!(text(&b), "onetwo");
    let mut b = buffer("one two", 7, 7);
    b.do_delete_word_left(4);
    assert_eq!(text(&b), "one ");
    let mut b = buffer("one two", 0, 0);
    b.do_delete_word_right(3);
    assert_eq!(text(&b), " two");
    assert_eq!(b.sel.head, 0);
}

#[test]
fn deleting_to_the_ends_of_a_line() {
    let mut b = buffer("one\ntwo three\nfour", 8, 8);
    b.do_delete_to_line_start();
    assert_eq!(text(&b), "one\nthree\nfour");
    assert_eq!(b.sel.head, 4);
    b.do_delete_to_line_end();
    assert_eq!(text(&b), "one\n\nfour");
    // At the end of a line nothing is left to delete.
    assert!(b.do_delete_to_line_end().is_none());
    assert_eq!(text(&b), "one\n\nfour");
}

#[test]
fn deleting_a_line() {
    let mut b = buffer("one\ntwo\nthree", 5, 5);
    b.do_delete_line();
    assert_eq!(text(&b), "one\nthree");
    assert_eq!(b.sel.head, 4);
    // The last line goes with the break before it.
    b.do_delete_line();
    assert_eq!(text(&b), "one");
    b.do_delete_line();
    assert_eq!(text(&b), "");
    assert!(b.do_delete_line().is_none());
}

#[test]
fn replacing_a_range_moves_the_caret_behind_it() {
    let mut b = buffer("hello", 0, 0);
    let c: Change = b.replace_range(1, 4, "ipp");
    assert_eq!(text(&b), "hippo");
    assert_eq!(b.sel.head, 4);
    assert_eq!(c.text, "ell");
}
