use vstd::prelude::*;
use crate::color::NoteColor;
use crate::document::{Document, DocumentView, document_of, note_fields, lemma_document_round_trip, decode_document, doc_well_formed, lemma_document_well_formed};

verus! {

/// A note: its identifier, title, body text and colour tag.
#[derive(Debug, Clone, PartialEq, Eq)]
pub struct Note {
    pub id: String,
    pub title: String,
    pub content: String,
    pub color: NoteColor,
}

pub struct NoteView {
    pub id: Seq<char>,
    pub title: Seq<char>,
    pub content: Seq<char>,
    pub color: NoteColor,
}

impl View for Note {
    type V = NoteView;

    open spec fn view(&self) -> NoteView {
        NoteView { id: self.id@, title: self.title@, content: self.content@, color: self.color }
    }
}

impl Note {
    /// A copy with equal fields.
    pub fn duplicate(&self) -> (r: Note)
        ensures
            r@ == self@,
    {
        Note {
            id: self.id.clone(),
            title: self.title.clone(),
            content: self.content.clone(),
            color: self.color,
        }
    }
}

/// The mapping that a list of entries stands for; a later entry with the
/// same key overrides an earlier one.
pub open spec fn entries_map(s: Seq<(Seq<char>, NoteView)>) -> Map<Seq<char>, NoteView>
    decreases s.len(),
{
    if s.len() == 0 {
        Map::empty()
    } else {
        entries_map(s.drop_last()).insert(s.last().0, s.last().1)
    }
}

pub open spec fn keys_unique(s: Seq<(Seq<char>, NoteView)>) -> bool {
    forall|i: int, j: int| 0 <= i < s.len() && 0 <= j < s.len() && i != j ==> s[i].0 != s[j].0
}

pub proof fn lemma_entries_map_contains(s: Seq<(Seq<char>, NoteView)>, k: Seq<char>)
    ensures
        entries_map(s).contains_key(k) <==> exists|i: int| 0 <= i < s.len() && s[i].0 == k,
    decreases s.len(),
{
    if s.len() > 0 {
        lemma_entries_map_contains(s.drop_last(), k);
        if entries_map(s.drop_last()).contains_key(k) {
            let i = choose|i: int| 0 <= i < s.len() - 1 && s.drop_last()[i].0 == k;
            assert(s[i].0 == k);
        }
        if exists|i: int| 0 <= i < s.len() && s[i].0 == k {
            let i = choose|i: int| 0 <= i < s.len() && s[i].0 == k;
            if i < s.len() - 1 {
                assert(s.drop_last()[i].0 == k);
            }
        }
    }
}

pub proof fn lemma_entries_map_value(s: Seq<(Seq<char>, NoteView)>, i: int)
    requires
        keys_unique(s),
        0 <= i < s.len(),
    ensures
        entries_map(s).contains_key(s[i].0),
        entries_map(s)[s[i].0] == s[i].1,
    decreases s.len(),
{
    if i < s.len() - 1 {
        assert(keys_unique(s.drop_last()));
        lemma_entries_map_value(s.drop_last(), i);
        assert(s.drop_last()[i] == s[i]);
        assert(s.last().0 != s[i].0);
    }
}

pub proof fn lemma_entries_map_update(s: Seq<(Seq<char>, NoteView)>, i: int, v: NoteView)
    requires
        keys_unique(s),
        0 <= i < s.len(),
    ensures
        keys_unique(s.update(i, (s[i].0, v))),
        entries_map(s.update(i, (s[i].0, v))) == entries_map(s).insert(s[i].0, v),
{
    let t = s.update(i, (s[i].0, v));
    assert(keys_unique(t)) by {
        assert forall|a: int, b: int| 0 <= a < t.len() && 0 <= b < t.len() && a != b implies t[a].0
            != t[b].0 by {
            assert(t[a].0 == s[a].0 && t[b].0 == s[b].0);
        }
    }
    let m = entries_map(s).insert(s[i].0, v);
    assert forall|k: Seq<char>| #[trigger] entries_map(t).contains_key(k) == m.contains_key(k) by {
        lemma_entries_map_contains(s, k);
        lemma_entries_map_contains(t, k);
        if exists|j: int| 0 <= j < s.len() && s[j].0 == k {
            let j = choose|j: int| 0 <= j < s.len() && s[j].0 == k;
            assert(t[j].0 == k);
        }
        if exists|j: int| 0 <= j < t.len() && t[j].0 == k {
            let j = choose|j: int| 0 <= j < t.len() && t[j].0 == k;
            assert(s[j].0 == k);
        }
    }
    assert forall|k: Seq<char>| #[trigger] entries_map(t).contains_key(k) implies entries_map(t)[k]
        == m[k] by {
        lemma_entries_map_contains(t, k);
        let j = choose|j: int| 0 <= j < t.len() && t[j].0 == k;
        lemma_entries_map_value(t, j);
        lemma_entries_map_value(s, j);
    }
    assert(entries_map(t) =~= m);
}

/// A mapping from note identifiers to notes, kept as a list of entries with
/// pairwise distinct keys.
pub struct NoteMap {
    entries: Vec<(String, Note)>,
}

impl NoteMap {
    /// The entries as mathematical values.
    pub closed spec fn entries_view(&self) -> Seq<(Seq<char>, NoteView)> {
        self.entries@.map_values(|e: (String, Note)| (e.0@, e.1@))
    }

    pub closed spec fn wf(&self) -> bool {
        keys_unique(self.entries_view())
    }

    pub open spec fn view(&self) -> Map<Seq<char>, NoteView> {
        entries_map(self.entries_view())
    }

    pub fn new() -> (r: NoteMap)
        ensures
            r.wf(),
            r@ == Map::<Seq<char>, NoteView>::empty(),
    {
        let r = NoteMap { entries: Vec::new() };
        assert(r.entries_view() =~= Seq::<(Seq<char>, NoteView)>::empty());
        r
    }

    /// The number of notes.
    pub fn len(&self) -> (r: usize)
        requires
            self.wf(),
        ensures
            r == self@.len(),
    {
        proof {
            self.lemma_len();
        }
        self.entries.len()
    }

    proof fn lemma_len(&self)
        requires
            self.wf(),
        ensures
            self.entries@.len() == self@.len(),
            self@.dom().finite(),
    {
        lemma_unique_len(self.entries_view());
    }

    /// Where the entry with key `key` stands, if there is one.
    fn index_of(&self, key: &String) -> (r: Option<usize>)
        requires
            self.wf(),
        ensures
            match r {
                Some(i) => i < self.entries@.len() && self.entries_view()[i as int].0 == key@,
                None => !self@.contains_key(key@),
            },
    {
        let mut i: usize = 0;
        while i < self.entries.len()
            invariant
                i <= self.entries@.len(),
                forall|j: int| 0 <= j < i ==> self.entries_view()[j].0 != key@,
            decreases self.entries@.len() - i,
        {
            if self.entries[i].0 == *key {
                return Some(i);
            }
            i = i + 1;
        }
        proof {
            lemma_entries_map_contains(self.entries_view(), key@);
        }
        None
    }

    pub fn contains_key(&self, key: &String) -> (r: bool)
        requires
            self.wf(),
        ensures
            r == self@.contains_key(key@),
    {
        match self.index_of(key) {
            Some(i) => {
                proof {
                    lemma_entries_map_value(self.entries_view(), i as int);
                }
                true
            },
            None => false,
        }
    }

    /// The note under `key`, if there is one.
    pub fn get(&self, key: &String) -> (r: Option<&Note>)
        requires
            self.wf(),
        ensures
            match r {
                Some(n) => self@.contains_key(key@) && self@[key@] == n@,
                None => !self@.contains_key(key@),
            },
    {
        match self.index_of(key) {
            Some(i) => {
                proof {
                    lemma_entries_map_value(self.entries_view(), i as int);
                }
                Some(&self.entries[i].1)
            },
            None => None,
        }
    }

    /// Puts `note` under `key`, replacing the note that was there.
    pub fn insert(&mut self, key: String, note: Note)
        requires
            old(self).wf(),
        ensures
            final(self).wf(),
            final(self)@ == old(self)@.insert(key@, note@),
    {
        match self.index_of(&key) {
            Some(i) => {
                proof {
                    lemma_entries_map_update(self.entries_view(), i as int, note@);
                }
                self.entries.set(i, (key, note));
                assert(self.entries_view() =~= old(self).entries_view().update(
                    i as int,
                    (old(self).entries_view()[i as int].0, note@),
                ));
            },
            None => {
                let ghost k = key@;
                let ghost v = note@;
                proof {
                    lemma_entries_map_contains(self.entries_view(), k);
                }
                self.entries.push((key, note));
                assert(self.entries_view() =~= old(self).entries_view().push((k, v)));
                assert(self.entries_view().drop_last() =~= old(self).entries_view());
            },
        }
    }

    /// Applies `edit` to the note under `key`; does nothing when `key` is
    /// absent.
    pub fn edit(&mut self, key: &String, edit: NoteEdit)
        requires
            old(self).wf(),
        ensures
            final(self).wf(),
            final(self)@ == edited(old(self)@, key@, edit.view()),
    {
        match self.index_of(key) {
            Some(i) => {
                let ghost s = self.entries_view();
                proof {
                    lemma_entries_map_value(s, i as int);
                }
                let (k, mut note) = self.entries.remove(i);
                let ghost v = apply_edit(note@, edit.view());
                match edit {
                    NoteEdit::Title(t) => {
                        note.title = t;
                    },
                    NoteEdit::Content(c) => {
                        note.content = c;
                    },
                    NoteEdit::Color(c) => {
                        note.color = c;
                    },
                }
                assert(note@ == v);
                self.entries.insert(i, (k, note));
                proof {
                    lemma_entries_map_update(s, i as int, v);
                }
                assert(self.entries_view() =~= s.update(i as int, (s[i as int].0, v)));
            },
            None => {},
        }
    }

    /// The document written for this mapping, entry by entry.
    pub closed spec fn document(&self) -> DocumentView {
        document_of(self.entries_view())
    }

    /// Decoding the document written for a mapping gives that mapping back.
    pub proof fn lemma_document_round_trip(&self)
        ensures
            decode_document(self.document()) == Some(self@),
    {
        lemma_document_round_trip(self.entries_view());
    }

    /// The document written for a mapping has unique keys and unique field
    /// names.
    pub proof fn lemma_document_well_formed(&self)
        requires
            self.wf(),
        ensures
            doc_well_formed(self.document()),
    {
        lemma_document_well_formed(self.entries_view());
    }

    pub fn to_document(&self) -> (r: Document)
        ensures
            r.deep_view() == self.document(),
    {
        let mut r: Document = Vec::new();
        let mut i: usize = 0;
        while i < self.entries.len()
            invariant
                i <= self.entries@.len(),
                r.deep_view() == document_of(self.entries_view().take(i as int)),
            decreases self.entries@.len() - i,
        {
            let f = note_fields(&self.entries[i].1);
            let ghost before = r.deep_view();
            let key = self.entries[i].0.clone();
            let ghost e = (key@, f.deep_view());
            assert(e == document_of(self.entries_view())[i as int]);
            r.push((key, f));
            assert(r.deep_view() =~= before.push(e));
            assert(document_of(self.entries_view().take(i + 1)) =~= document_of(
                self.entries_view().take(i as int),
            ).push(e));
            i = i + 1;
        }
        assert(self.entries_view().take(self.entries@.len() as int) =~= self.entries_view());
        r
    }

    /// The key of the entry at position `i`.
    pub closed spec fn key_at(&self, i: int) -> Seq<char> {
        self.entries_view()[i].0
    }

    /// Entries at distinct positions have distinct keys, and every key of
    /// the mapping stands at some position.
    pub proof fn lemma_keys_at(&self, i: int, j: int, k: Seq<char>)
        requires
            self.wf(),
        ensures
            0 <= i < self@.len() && 0 <= j < self@.len() && i != j ==> self.key_at(i)
                != self.key_at(j),
            self@.contains_key(k) ==> exists|p: int| 0 <= p < self@.len() && self.key_at(p) == k,
    {
        self.lemma_len();
        lemma_entries_map_contains(self.entries_view(), k);
        if self@.contains_key(k) {
            let p = choose|p: int| 0 <= p < self.entries_view().len() && self.entries_view()[p].0 == k;
            assert(self.key_at(p) == k);
        }
    }

    /// The entry at position `i`: its key and note.
    pub fn entry(&self, i: usize) -> (r: (&String, &Note))
        requires
            self.wf(),
            i < self@.len(),
        ensures
            r.0@ == self.key_at(i as int),
            self@.contains_key(r.0@),
            self@[r.0@] == r.1@,
    {
        proof {
            self.lemma_len();
            lemma_entries_map_value(self.entries_view(), i as int);
        }
        (&self.entries[i].0, &self.entries[i].1)
    }
}

/// A change to one field of a note.
pub enum NoteEdit {
    Title(String),
    Content(String),
    Color(NoteColor),
}

pub enum NoteEditView {
    Title(Seq<char>),
    Content(Seq<char>),
    Color(NoteColor),
}

impl NoteEdit {
    pub open spec fn view(&self) -> NoteEditView {
        match self {
            NoteEdit::Title(t) => NoteEditView::Title(t@),
            NoteEdit::Content(c) => NoteEditView::Content(c@),
            NoteEdit::Color(c) => NoteEditView::Color(*c),
        }
    }
}

pub open spec fn apply_edit(n: NoteView, e: NoteEditView) -> NoteView {
    match e {
        NoteEditView::Title(t) => NoteView { title: t, ..n },
        NoteEditView::Content(c) => NoteView { content: c, ..n },
        NoteEditView::Color(c) => NoteView { color: c, ..n },
    }
}

/// The mapping with the edit applied to the note under `key`, or unchanged
/// when `key` is absent.
pub open spec fn edited(m: Map<Seq<char>, NoteView>, key: Seq<char>, e: NoteEditView) -> Map<
    Seq<char>,
    NoteView,
> {
    if m.contains_key(key) {
        m.insert(key, apply_edit(m[key], e))
    } else {
        m
    }
}

proof fn lemma_unique_len(s: Seq<(Seq<char>, NoteView)>)
    requires
        keys_unique(s),
    ensures
        entries_map(s).dom().finite(),
        entries_map(s).len() == s.len(),
    decreases s.len(),
{
    if s.len() > 0 {
        let t = s.drop_last();
        assert(keys_unique(t));
        lemma_unique_len(t);
        lemma_entries_map_contains(t, s.last().0);
        if entries_map(t).contains_key(s.last().0) {
            let i = choose|i: int| 0 <= i < t.len() && t[i].0 == s.last().0;
            assert(s[i].0 == s[s.len() - 1].0);
        }
    }
}

} // verus!
