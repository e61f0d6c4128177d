use vstd::prelude::*;
use crate::color::{NoteColor, default_color};
use crate::document::{imported, json_text, notes_from_json, notes_to_json};
use crate::note_map::{Note, NoteEdit, NoteEditView, NoteMap, NoteView, edited};

verus! {

/// How many fresh identifiers a creation draws before it gives up.
pub const ID_ATTEMPTS: u32 = 8;

pub open spec fn is_lower_hex_digit(c: char) -> bool {
    ('0' <= c && c <= '9') || ('a' <= c && c <= 'f')
}

/// Where the hyphenated text form of an identifier puts its hyphens.
pub open spec fn is_hyphen_position(i: int) -> bool {
    i == 8 || i == 13 || i == 18 || i == 23
}

/// Relies on uuid::Uuid::new_v4 and its hyphenated text form: a random
/// identifier, written in 36 characters, lower-case hex digits with hyphens
/// at positions 8, 13, 18 and 23.
#[verifier::external_body]
fn new_note_id() -> (r: String)
    ensures
        r@.len() == 36,
        forall|i: int|
            0 <= i < 36 ==> if is_hyphen_position(i) {
                r@[i] == '-'
            } else {
                is_lower_hex_digit(#[trigger] r@[i])
            },
{
    uuid::Uuid::new_v4().to_string()
}

pub open spec fn new_note_title() -> Seq<char> {
    seq!['N', 'e', 'w', ' ', 'N', 'o', 't', 'e']
}

/// The note that a creation puts under `id`.
pub open spec fn new_note(id: Seq<char>) -> NoteView {
    NoteView { id, title: new_note_title(), content: Seq::empty(), color: default_color() }
}

/// `after` is `before` with a new note under the fresh key `id`.
pub open spec fn created(
    before: Map<Seq<char>, NoteView>,
    after: Map<Seq<char>, NoteView>,
    id: Seq<char>,
) -> bool {
    !before.contains_key(id) && after == before.insert(id, new_note(id))
}

/// The notes after `e` is applied to the selected note, if there is one.
pub open spec fn edit_selected(
    notes: Map<Seq<char>, NoteView>,
    current: Option<Seq<char>>,
    e: NoteEditView,
) -> Map<Seq<char>, NoteView> {
    match current {
        Some(k) => edited(notes, k, e),
        None => notes,
    }
}

/// An edit with nothing selected, or with a selected key that has no note,
/// leaves the notes as they were.
pub proof fn lemma_edit_without_note_keeps_notes(
    notes: Map<Seq<char>, NoteView>,
    current: Option<Seq<char>>,
    e: NoteEditView,
)
    requires
        current is None || !notes.contains_key(current.unwrap()),
    ensures
        edit_selected(notes, current, e) == notes,
{
}


/// Identifiers handed out by successive creations are pairwise distinct.
pub proof fn lemma_created_ids_distinct(
    stores: Seq<Map<Seq<char>, NoteView>>,
    ids: Seq<Seq<char>>,
)
    requires
        stores.len() == ids.len() + 1,
        forall|i: int| 0 <= i < ids.len() ==> created(stores[i], stores[i + 1], #[trigger] ids[i]),
    ensures
        forall|i: int, j: int| 0 <= i < j < ids.len() ==> ids[i] != ids[j],
{
    assert forall|i: int, j: int| 0 <= i < j < ids.len() implies ids[i] != ids[j] by {
        lemma_created_id_kept(stores, ids, i, j);
        assert(created(stores[j], stores[j + 1], ids[j]));
    }
}

proof fn lemma_created_id_kept(
    stores: Seq<Map<Seq<char>, NoteView>>,
    ids: Seq<Seq<char>>,
    i: int,
    j: int,
)
    requires
        stores.len() == ids.len() + 1,
        forall|k: int| 0 <= k < ids.len() ==> created(stores[k], stores[k + 1], #[trigger] ids[k]),
        0 <= i < j <= ids.len(),
    ensures
        stores[j].contains_key(ids[i]),
    decreases j - i,
{
    if j == i + 1 {
        assert(created(stores[i], stores[i + 1], ids[i]));
    } else {
        lemma_created_id_kept(stores, ids, i, j - 1);
        assert(created(stores[j - 1], stores[j], ids[j - 1]));
    }
}

/// A user action on the notes, with the outcome of any file work it needed.
pub enum Message {
    CreateNote,
    SelectNote(String),
    UpdateNoteTitle(String),
    UpdateNoteContent(String),
    ChangeNoteColor(NoteColor),
    /// The notes file's text, or why it could not be read.
    NotesRead(Result<String, String>),
    /// Whether the exported text could be written.
    NotesWritten(Result<(), String>),
    ClearError,
}

/// The notes, the selected note's key and the error on display.
pub struct NotesApp {
    pub notes: NoteMap,
    pub current_note: Option<String>,
    pub error: Option<String>,
}

impl NotesApp {
    pub open spec fn wf(&self) -> bool {
        self.notes.wf()
    }

    pub open spec fn current(&self) -> Option<Seq<char>> {
        self.current_note.deep_view()
    }

    pub open spec fn error_view(&self) -> Option<Seq<char>> {
        self.error.deep_view()
    }

    /// Whether an error with a non-empty message is on display.
    pub open spec fn shows_error(&self) -> bool {
        self.error matches Some(e) && e@.len() > 0
    }

    pub fn new() -> (r: NotesApp)
        ensures
            r.wf(),
            r.notes@ == Map::<Seq<char>, NoteView>::empty(),
            r.current_note is None,
            r.error is None,
    {
        NotesApp { notes: NoteMap::new(), current_note: None, error: None }
    }

    pub fn title(&self) -> (r: String)
        ensures
            r@ == seq!['M', 'u', 'l', 't', 'i', '-', 'N', 'o', 't', 'e', 's', ' ', 'A', 'p', 'p'],
    {
        proof {
            reveal_strlit("Multi-Notes App");
        }
        "Multi-Notes App".to_owned()
    }

    /// Adds a default note under `id` and selects it, when `id` is not a key
    /// yet; otherwise changes nothing. Returns whether it added the note.
    pub fn insert_new_note(&mut self, id: String) -> (r: bool)
        requires
            old(self).wf(),
        ensures
            final(self).wf(),
            final(self).error == old(self).error,
            r == !old(self).notes@.contains_key(id@),
            r ==> created(old(self).notes@, final(self).notes@, id@) && final(self).current()
                == Some(id@),
            !r ==> final(self).notes@ == old(self).notes@ && final(self).current_note
                == old(self).current_note,
    {
        if self.notes.contains_key(&id) {
            return false;
        }
        proof {
            reveal_strlit("New Note");
        }
        let note = Note {
            id: id.clone(),
            title: "New Note".to_owned(),
            content: String::new(),
            color: NoteColor::Yellow,
        };
        assert(note.title@ =~= new_note_title());
        assert(note@ == new_note(id@));
        self.notes.insert(id.clone(), note);
        self.current_note = Some(id);
        true
    }

    /// Adds a default note under a fresh random identifier and selects it.
    /// Returns that identifier, or `None`, with nothing changed, when every
    /// identifier drawn was already a key.
    pub fn create_note(&mut self) -> (r: Option<String>)
        requires
            old(self).wf(),
        ensures
            final(self).wf(),
            final(self).error == old(self).error,
            (forall|k: Seq<char>| old(self).notes@.contains_key(k) ==> k.len() != 36) ==> r is Some,
            match r {
                Some(id) => created(old(self).notes@, final(self).notes@, id@)
                    && final(self).current() == Some(id@),
                None => final(self).notes@ == old(self).notes@ && final(self).current_note
                    == old(self).current_note,
            },
    {
        let mut attempt: u32 = 0;
        while attempt < ID_ATTEMPTS
            invariant
                self.wf(),
                self.notes@ == old(self).notes@,
                self.current_note == old(self).current_note,
                self.error == old(self).error,
                (forall|k: Seq<char>| old(self).notes@.contains_key(k) ==> k.len() != 36) ==> attempt
                    == 0,
            decreases ID_ATTEMPTS - attempt,
        {
            let id = new_note_id();
            if !self.notes.contains_key(&id) {
                let key = id.clone();
                self.insert_new_note(id);
                return Some(key);
            }
            attempt = attempt + 1;
        }
        None
    }

    /// Selects the note under `id`, whether or not there is one.
    pub fn select_note(&mut self, id: String)
        ensures
            final(self).notes == old(self).notes,
            final(self).error == old(self).error,
            final(self).current() == Some(id@),
    {
        self.current_note = Some(id);
    }

    /// Applies `edit` to the selected note; changes nothing when no note is
    /// selected or the selected key has no note.
    pub fn edit_current(&mut self, edit: NoteEdit)
        requires
            old(self).wf(),
        ensures
            final(self).wf(),
            final(self).current_note == old(self).current_note,
            final(self).error == old(self).error,
            final(self).notes@ == edit_selected(old(self).notes@, old(self).current(), edit.view()),
    {
        match &self.current_note {
            Some(id) => {
                self.notes.edit(id, edit);
            },
            None => {},
        }
    }

    /// Replaces all notes by those `file` holds; on a read, parse or decode
    /// failure keeps the notes and shows the failure instead.
    pub fn import_notes(&mut self, file: Result<String, String>)
        requires
            old(self).wf(),
        ensures
            final(self).wf(),
            final(self).current_note == old(self).current_note,
            match file {
                Ok(text) => match imported(text@) {
                    Some(m) => final(self).notes@ == m && final(self).error is None,
                    None => final(self).notes@ == old(self).notes@ && final(self).shows_error(),
                },
                Err(msg) => final(self).notes@ == old(self).notes@ && final(self).shows_error()
                    && (msg@.len() > 0 ==> final(self).error_view() == Some(msg@)),
            },
    {
        match file {
            Ok(text) => match notes_from_json(text.as_str()) {
                Ok(m) => {
                    self.notes = m;
                    self.error = None;
                },
                Err(msg) => {
                    self.error = Some(msg);
                },
            },
            Err(msg) => {
                proof {
                    reveal_strlit("could not read the notes file");
                }
                self.error = Some(message_or(msg, "could not read the notes file"));
            },
        }
    }

    /// The JSON text to write for the notes; making it always succeeds.
    pub fn export_notes(&self) -> (r: Result<String, String>)
        requires
            self.wf(),
        ensures
            match r {
                Ok(t) => t@ == json_text(self.notes.document()) && imported(t@) == Some(
                    self.notes@,
                ),
                Err(_) => false,
            },
    {
        notes_to_json(&self.notes)
    }

    /// Records how writing the exported text went.
    pub fn finish_export(&mut self, written: Result<(), String>)
        ensures
            final(self).notes == old(self).notes,
            final(self).current_note == old(self).current_note,
            match written {
                Ok(_) => final(self).error is None,
                Err(msg) => final(self).shows_error() && (msg@.len() > 0
                    ==> final(self).error_view() == Some(msg@)),
            },
    {
        match written {
            Ok(_) => {
                self.error = None;
            },
            Err(msg) => {
                proof {
                    reveal_strlit("could not write the notes file");
                }
                self.error = Some(message_or(msg, "could not write the notes file"));
            },
        }
    }

    pub fn clear_error(&mut self)
        ensures
            final(self).notes == old(self).notes,
            final(self).current_note == old(self).current_note,
            final(self).error is None,
    {
        self.error = None;
    }

    /// The selected note, if one is selected and its key has a note.
    pub fn selected_note(&self) -> (r: Option<&Note>)
        requires
            self.wf(),
        ensures
            match self.current() {
                Some(k) => match r {
                    Some(n) => self.notes@.contains_key(k) && self.notes@[k] == n@,
                    None => !self.notes@.contains_key(k),
                },
                None => r is None,
            },
    {
        match &self.current_note {
            Some(id) => self.notes.get(id),
            None => None,
        }
    }

    /// Applies one user action.
    pub fn update(&mut self, message: Message)
        requires
            old(self).wf(),
        ensures
            final(self).wf(),
            match message {
                Message::CreateNote => final(self).error == old(self).error && ((exists|id: Seq<
                    char,
                >|
                    created(old(self).notes@, final(self).notes@, id) && final(self).current()
                        == Some(id)) || ((exists|k: Seq<char>|
                    old(self).notes@.contains_key(k) && k.len() == 36)
                    && final(self).notes@ == old(self).notes@ && final(self).current_note
                    == old(self).current_note)),
                Message::SelectNote(id) => final(self).notes == old(self).notes
                    && final(self).error == old(self).error && final(self).current() == Some(
                    id@,
                ),
                Message::UpdateNoteTitle(t) => final(self).notes@ == edit_selected(
                    old(self).notes@,
                    old(self).current(),
                    NoteEditView::Title(t@),
                ) && final(self).current_note == old(self).current_note && final(self).error
                    == old(self).error,
                Message::UpdateNoteContent(c) => final(self).notes@ == edit_selected(
                    old(self).notes@,
                    old(self).current(),
                    NoteEditView::Content(c@),
                ) && final(self).current_note == old(self).current_note && final(self).error
                    == old(self).error,
                Message::ChangeNoteColor(c) => final(self).notes@ == edit_selected(
                    old(self).notes@,
                    old(self).current(),
                    NoteEditView::Color(c),
                ) && final(self).current_note == old(self).current_note && final(self).error
                    == old(self).error,
                Message::NotesRead(file) => final(self).current_note == old(self).current_note
                    && match file {
                    Ok(text) => match imported(text@) {
                        Some(m) => final(self).notes@ == m && final(self).error is None,
                        None => final(self).notes@ == old(self).notes@ && final(self).shows_error(),
                    },
                    Err(msg) => final(self).notes@ == old(self).notes@ && final(self).shows_error()
                        && (msg@.len() > 0 ==> final(self).error_view() == Some(msg@)),
                },
                Message::NotesWritten(written) => final(self).notes == old(self).notes
                    && final(self).current_note == old(self).current_note && match written {
                    Ok(_) => final(self).error is None,
                    Err(msg) => final(self).shows_error() && (msg@.len() > 0
                        ==> final(self).error_view() == Some(msg@)),
                },
                Message::ClearError => final(self).notes == old(self).notes
                    && final(self).current_note == old(self).current_note && final(self).error
                    is None,
            },
    {
        match message {
            Message::CreateNote => {
                let r = self.create_note();
                proof {
                    if r is Some {
                        let id = r.unwrap()@;
                        assert(created(old(self).notes@, self.notes@, id) && self.current() == Some(
                            id,
                        ));
                    }
                }
            },
            Message::SelectNote(id) => self.select_note(id),
            Message::UpdateNoteTitle(t) => self.edit_current(NoteEdit::Title(t)),
            Message::UpdateNoteContent(c) => self.edit_current(NoteEdit::Content(c)),
            Message::ChangeNoteColor(c) => self.edit_current(NoteEdit::Color(c)),
            Message::NotesRead(file) => self.import_notes(file),
            Message::NotesWritten(written) => self.finish_export(written),
            Message::ClearError => self.clear_error(),
        }
    }
}

/// `msg`, or `fallback` when `msg` is empty.
fn message_or(msg: String, fallback: &str) -> (r: String)
    requires
        fallback@.len() > 0,
    ensures
        r@.len() > 0,
        msg@.len() > 0 ==> r@ == msg@,
{
    if msg.as_str().is_empty() {
        fallback.to_owned()
    } else {
        msg
    }
}

} // verus!
