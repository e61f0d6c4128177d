use multi_notes::color::{Appearance, ColorPicker, NoteButtonStyle, NoteColor, Rgb};
use multi_notes::document::{decode, note_fields, note_from_fields, notes_from_json, notes_to_json};
use multi_notes::note_map::{Note, NoteEdit, NoteMap};
use multi_notes::notes_app::{Message, NotesApp};

fn s(x: &str) -> String {
    x.to_string()
}

fn note(id: &str, title: &str, content: &str, color: NoteColor) -> Note {
    Note { id: s(id), title: s(title), content: s(content), color }
}

fn same_notes(a: &NoteMap, b: &NoteMap) -> bool {
    if a.len() != b.len() {
        return false;
    }
    for i in 0..a.len() {
        let (k, n) = a.entry(i);
        if b.get(k) != Some(n) {
            return false;
        }
    }
    true
}

#[test]
fn created_ids_are_pairwise_distinct() {
    let mut app = NotesApp::new();
    let mut ids: Vec<String> = Vec::new();
    for _ in 0..200 {
        let id = app.create_note().expect("a fresh identifier");
        assert_eq!(id.chars().count(), 36);
        for (i, c) in id.chars().enumerate() {
            if [8, 13, 18, 23].contains(&i) {
                assert_eq!(c, '-');
            } else {
                assert!(c.is_ascii_digit() || ('a'..='f').contains(&c));
            }
        }
        assert!(!ids.contains(&id));
        ids.push(id);
    }
    assert_eq!(app.notes.len(), 200);
}

#[test]
fn create_selects_a_default_note() {
    let mut app = NotesApp::new();
    app.update(Message::CreateNote);
    let id = app.current_note.clone().expect("selected");
    let n = app.selected_note().expect("present");
    assert_eq!(n.id, id);
    assert_eq!(n.title, "New Note");
    assert_eq!(n.content, "");
    assert_eq!(n.color, NoteColor::Yellow);
    assert_eq!(app.notes.len(), 1);
}

#[test]
fn insert_new_note_refuses_a_taken_key() {
    let mut app = NotesApp::new();
    assert!(app.insert_new_note(s("a")));
    app.update(Message::UpdateNoteTitle(s("kept")));
    app.update(Message::SelectNote(s("b")));
    assert!(!app.insert_new_note(s("a")));
    assert_eq!(app.current_note, Some(s("b")));
    assert_eq!(app.notes.get(&s("a")).unwrap().title, "kept");
    assert_eq!(app.notes.len(), 1);
}

#[test]
fn edits_without_selection_change_nothing() {
    let mut app = NotesApp::new();
    assert!(app.insert_new_note(s("a")));
    app.current_note = None;
    let before = app.notes.get(&s("a")).unwrap().clone();
    app.update(Message::UpdateNoteTitle(s("x")));
    app.update(Message::UpdateNoteContent(s("y")));
    app.update(Message::ChangeNoteColor(NoteColor::Red));
    assert_eq!(app.notes.get(&s("a")), Some(&before));
    assert_eq!(app.notes.len(), 1);
    assert!(app.selected_note().is_none());
}

#[test]
fn edits_with_absent_selection_change_nothing() {
    let mut app = NotesApp::new();
    assert!(app.insert_new_note(s("a")));
    app.update(Message::SelectNote(s("missing")));
    let before = app.notes.get(&s("a")).unwrap().clone();
    app.update(Message::UpdateNoteTitle(s("x")));
    app.update(Message::UpdateNoteContent(s("y")));
    app.update(Message::ChangeNoteColor(NoteColor::Blue));
    assert_eq!(app.notes.get(&s("a")), Some(&before));
    assert_eq!(app.notes.len(), 1);
    assert_eq!(app.current_note, Some(s("missing")));
    assert!(app.selected_note().is_none());
}

#[test]
fn edits_change_the_selected_note_only() {
    let mut app = NotesApp::new();
    assert!(app.insert_new_note(s("a")));
    assert!(app.insert_new_note(s("b")));
    app.update(Message::UpdateNoteTitle(s("")));
    app.update(Message::UpdateNoteContent(s("body")));
    app.update(Message::ChangeNoteColor(NoteColor::Orange));
    assert_eq!(app.notes.get(&s("b")), Some(&note("b", "", "body", NoteColor::Orange)));
    assert_eq!(app.notes.get(&s("a")), Some(&note("a", "New Note", "", NoteColor::Yellow)));
}

#[test]
fn empty_store_round_trips() {
    let app = NotesApp::new();
    let text = app.export_notes().unwrap();
    assert_eq!(text, "{}");
    let mut other = NotesApp::new();
    assert!(other.insert_new_note(s("x")));
    other.update(Message::NotesRead(Ok(text)));
    assert_eq!(other.notes.len(), 0);
    assert!(other.error.is_none());
}

#[test]
fn populated_store_round_trips() {
    let mut app = NotesApp::new();
    let notes = vec![
        note("k1", "Ünïcödé ✓", "line one\nline \"two\"\t\\", NoteColor::Red),
        note("k2", "", "", NoteColor::Green),
        note("日本", "タイトル", "🦀 emoji", NoteColor::Blue),
        note("k4", "plain", "text", NoteColor::Orange),
    ];
    for n in &notes {
        app.notes.insert(n.id.clone(), n.clone());
    }
    let text = app.export_notes().unwrap();
    let mut other = NotesApp::new();
    other.update(Message::NotesRead(Ok(text)));
    assert!(other.error.is_none());
    assert!(same_notes(&app.notes, &other.notes));
    for n in &notes {
        assert_eq!(other.notes.get(&n.id), Some(n));
    }
}

#[test]
fn malformed_json_keeps_the_store() {
    let mut app = NotesApp::new();
    assert!(app.insert_new_note(s("a")));
    let mut before = NoteMap::new();
    before.insert(s("a"), note("a", "New Note", "", NoteColor::Yellow));
    for bad in ["not json", "{", "[1, 2]", "{\"a\": 3}", ""] {
        app.update(Message::NotesRead(Ok(s(bad))));
        assert!(same_notes(&app.notes, &before));
        assert!(!app.error.clone().unwrap().is_empty());
        app.update(Message::ClearError);
        assert!(app.error.is_none());
    }
}

#[test]
fn malformed_notes_keep_the_store() {
    let mut app = NotesApp::new();
    assert!(app.insert_new_note(s("a")));
    let missing = "{\"b\": {\"id\": \"b\", \"title\": \"t\", \"content\": \"c\"}}";
    app.update(Message::NotesRead(Ok(s(missing))));
    assert_eq!(app.error, Some(s("missing field in note")));
    let bad_color = "{\"b\": {\"id\": \"b\", \"title\": \"t\", \"content\": \"c\", \"color\": \"Pink\"}}";
    app.update(Message::NotesRead(Ok(s(bad_color))));
    assert_eq!(app.error, Some(s("unknown note color")));
    assert_eq!(app.notes.len(), 1);
    assert!(app.notes.get(&s("a")).is_some());
}

#[test]
fn read_and_write_failures_are_shown() {
    let mut app = NotesApp::new();
    app.update(Message::NotesRead(Err(s("no such file"))));
    assert_eq!(app.error, Some(s("no such file")));
    app.update(Message::NotesRead(Err(s(""))));
    assert_eq!(app.error, Some(s("could not read the notes file")));
    app.update(Message::NotesWritten(Err(s("disk full"))));
    assert_eq!(app.error, Some(s("disk full")));
    app.update(Message::NotesWritten(Err(s(""))));
    assert_eq!(app.error, Some(s("could not write the notes file")));
    app.update(Message::NotesWritten(Ok(())));
    assert!(app.error.is_none());
}

#[test]
fn groceries_scenario() {
    let mut app = NotesApp::new();
    app.update(Message::CreateNote);
    let a = app.current_note.clone().unwrap();
    assert_eq!(app.selected_note().unwrap().title, "New Note");
    app.update(Message::UpdateNoteTitle(s("Groceries")));
    app.update(Message::UpdateNoteContent(s("Milk, eggs")));
    app.update(Message::ChangeNoteColor(NoteColor::Green));
    let text = app.export_notes().unwrap();
    app.notes = NoteMap::new();
    assert_eq!(app.notes.len(), 0);
    app.update(Message::NotesRead(Ok(text)));
    assert!(app.error.is_none());
    assert_eq!(app.notes.len(), 1);
    let (k, n) = app.notes.entry(0);
    assert_eq!(k, &a);
    assert_eq!(n, &Note { id: a.clone(), title: s("Groceries"), content: s("Milk, eggs"), color: NoteColor::Green });
}

#[test]
fn export_writes_the_note_fields() {
    let mut m = NoteMap::new();
    m.insert(s("k"), note("k", "Groceries", "Milk", NoteColor::Green));
    let text = notes_to_json(&m).unwrap();
    assert_eq!(text, "{\"k\":{\"color\":\"Green\",\"content\":\"Milk\",\"id\":\"k\",\"title\":\"Groceries\"}}");
}

#[test]
fn import_reads_fields_in_any_order() {
    let text = "{\"z\": {\"title\": \"T\", \"color\": \"Red\", \"id\": \"q\", \"content\": \"C\"}}";
    let m = notes_from_json(text).unwrap();
    assert_eq!(m.len(), 1);
    assert_eq!(m.get(&s("z")), Some(&note("q", "T", "C", NoteColor::Red)));
}

#[test]
fn decode_and_fields() {
    let n = note("i", "t", "c", NoteColor::Yellow);
    let f = note_fields(&n);
    assert_eq!(f, vec![(s("id"), s("i")), (s("title"), s("t")), (s("content"), s("c")), (s("color"), s("Yellow"))]);
    assert_eq!(note_from_fields(&f), Ok(n.clone()));
    let doc = vec![(s("i"), f.clone()), (s("j"), f)];
    let m = decode(&doc).unwrap();
    assert_eq!(m.len(), 2);
    assert_eq!(m.get(&s("j")), Some(&n));
    assert_eq!(note_from_fields(&vec![(s("id"), s("i"))]), Err(s("missing field in note")));
}

#[test]
fn note_map_insert_replaces() {
    let mut m = NoteMap::new();
    m.insert(s("a"), note("a", "1", "", NoteColor::Red));
    m.insert(s("a"), note("a", "2", "", NoteColor::Red));
    assert_eq!(m.len(), 1);
    assert_eq!(m.get(&s("a")).unwrap().title, "2");
    assert!(m.contains_key(&s("a")));
    assert!(!m.contains_key(&s("b")));
    m.edit(&s("b"), NoteEdit::Title(s("x")));
    assert_eq!(m.len(), 1);
    m.edit(&s("a"), NoteEdit::Content(s("x")));
    assert_eq!(m.get(&s("a")).unwrap().content, "x");
}

#[test]
fn color_picker_keeps_the_last_choice() {
    let mut p = ColorPicker::new();
    assert_eq!(p.selected(), None);
    for c in NoteColor::all() {
        p.select(c);
        assert_eq!(p.selected(), Some(c));
    }
    assert_eq!(p.selected, Some(NoteColor::Orange));
}

#[test]
fn colors_have_fixed_triples() {
    assert_eq!(NoteColor::Red.to_color(), Rgb { r: 10, g: 8, b: 8 });
    assert_eq!(NoteColor::Green.to_color(), Rgb { r: 8, g: 10, b: 8 });
    assert_eq!(NoteColor::Blue.to_color(), Rgb { r: 8, g: 8, b: 10 });
    assert_eq!(NoteColor::Yellow.to_color(), Rgb { r: 10, g: 10, b: 8 });
    assert_eq!(NoteColor::Orange.to_color(), Rgb { r: 10, g: 9, b: 8 });
}

#[test]
fn color_names_round_trip() {
    for c in NoteColor::all() {
        assert_eq!(NoteColor::from_name(&c.name()), Some(c));
    }
    assert_eq!(NoteColor::Orange.name(), "Orange");
    assert_eq!(NoteColor::from_name(&s("red")), None);
}

#[test]
fn hovered_buttons_are_lighter() {
    let style = NoteButtonStyle { color: NoteColor::Orange.to_color() };
    assert_eq!(style.active(), Appearance { background: Rgb { r: 10, g: 9, b: 8 }, border_radius: 5 });
    assert_eq!(style.hovered(), Appearance { background: Rgb { r: 10, g: 10, b: 9 }, border_radius: 5 });
}

#[test]
fn app_title() {
    assert_eq!(NotesApp::new().title(), "Multi-Notes App");
}

#[test]
fn entries_at_distinct_positions_have_distinct_keys() {
    let mut m = NoteMap::new();
    m.insert(s("a"), note("a", "1", "", NoteColor::Red));
    m.insert(s("b"), note("b", "2", "", NoteColor::Blue));
    m.insert(s("c"), note("c", "3", "", NoteColor::Green));
    let keys: Vec<String> = (0..m.len()).map(|i| m.entry(i).0.clone()).collect();
    assert_eq!(keys, vec![s("a"), s("b"), s("c")]);
    for i in 0..m.len() {
        let (k, n) = m.entry(i);
        assert_eq!(&n.id, k);
    }
}
