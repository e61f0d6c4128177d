use vstd::prelude::*;
use std::collections::BTreeMap;
use crate::color::{NoteColor, color_name, color_named, lemma_color_name_round_trip};
use crate::note_map::{Note, NoteView, NoteMap, entries_map, keys_unique};

verus! {

/// The document form of a set of notes: each note's key, with the note's
/// fields as name and value pairs.
pub type Document = Vec<(String, Vec<(String, String)>)>;

pub type DocumentView = Seq<(Seq<char>, Seq<(Seq<char>, Seq<char>)>)>;

#[verifier::external_type_specification]
#[verifier::external_body]
pub struct ExJsonError(serde_json::Error);

/// The JSON text that serde_json writes for a document.
pub uninterp spec fn json_text(doc: DocumentView) -> Seq<char>;

/// The document that serde_json reads from a text, or `None` when the text is
/// not a JSON object of objects whose values are all strings.
pub uninterp spec fn parsed_json(text: Seq<char>) -> Option<DocumentView>;

/// Relies on serde_json::to_string on a map from strings to maps from strings
/// to strings: the text depends on the entries alone, writing it cannot fail,
/// since every map key is a string and the text goes to memory, and
/// serde_json::from_str reads the text back as the same maps, keys unique.
#[verifier::external_body]
fn write_json(doc: &Document) -> (r: Result<String, serde_json::Error>)
    ensures
        match r {
            Ok(t) => t@ == json_text(doc.deep_view()),
            Err(_) => false,
        },
        r is Ok && doc_well_formed(doc.deep_view()) ==> parsed_json(r.unwrap()@) is Some
            && doc_keys_unique(parsed_json(r.unwrap()@).unwrap()) && doc_map(
            parsed_json(r.unwrap()@).unwrap(),
        ) == doc_map(doc.deep_view()),
{
    let m: BTreeMap<&String, BTreeMap<&String, &String>> = doc.iter().map(
        |(k, f)| (k, f.iter().map(|(a, b)| (a, b)).collect()),
    ).collect();
    serde_json::to_string(&m)
}

/// Relies on serde_json::from_str into a map from strings to maps from strings
/// to strings: whether it succeeds, and what it yields, depend on the text
/// alone, and a map holds each key once.
#[verifier::external_body]
fn read_json(text: &str) -> (r: Result<Document, serde_json::Error>)
    ensures
        r is Ok <==> parsed_json(text@) is Some,
        match r {
            Ok(d) => d.deep_view() == parsed_json(text@).unwrap() && doc_keys_unique(d.deep_view()),
            Err(_) => true,
        },
{
    let m: BTreeMap<String, BTreeMap<String, String>> = serde_json::from_str(text)?;
    Ok(m.into_iter().map(|(k, f)| (k, f.into_iter().collect())).collect())
}

/// The field map of a list of fields; a later name overrides an earlier one.
pub open spec fn fields_map(f: Seq<(Seq<char>, Seq<char>)>) -> Map<Seq<char>, Seq<char>>
    decreases f.len(),
{
    if f.len() == 0 {
        Map::empty()
    } else {
        fields_map(f.drop_last()).insert(f.last().0, f.last().1)
    }
}

/// A document as a map from keys to field maps; a later key overrides an
/// earlier one.
pub open spec fn doc_map(d: DocumentView) -> Map<Seq<char>, Map<Seq<char>, Seq<char>>>
    decreases d.len(),
{
    if d.len() == 0 {
        Map::empty()
    } else {
        doc_map(d.drop_last()).insert(d.last().0, fields_map(d.last().1))
    }
}

pub open spec fn names_unique(f: Seq<(Seq<char>, Seq<char>)>) -> bool {
    forall|i: int, j: int| 0 <= i < f.len() && 0 <= j < f.len() && i != j ==> f[i].0 != f[j].0
}

pub open spec fn doc_keys_unique(d: DocumentView) -> bool {
    forall|i: int, j: int| 0 <= i < d.len() && 0 <= j < d.len() && i != j ==> d[i].0 != d[j].0
}

/// Keys unique, and field names unique within each note.
pub open spec fn doc_well_formed(d: DocumentView) -> bool {
    doc_keys_unique(d) && forall|i: int| 0 <= i < d.len() ==> names_unique(#[trigger] d[i].1)
}

/// The note a field map describes, as `note_of_fields` reads a list.
pub open spec fn note_of_field_map(m: Map<Seq<char>, Seq<char>>) -> Option<NoteView> {
    if m.contains_key(id_field()) && m.contains_key(title_field()) && m.contains_key(
        content_field(),
    ) && m.contains_key(color_field()) {
        match color_named(m[color_field()]) {
            Some(color) => Some(
                NoteView {
                    id: m[id_field()],
                    title: m[title_field()],
                    content: m[content_field()],
                    color,
                },
            ),
            None => None,
        }
    } else {
        None
    }
}

/// The mapping a document map describes, when every note in it is whole.
pub open spec fn decode_doc_map(dm: Map<Seq<char>, Map<Seq<char>, Seq<char>>>) -> Option<
    Map<Seq<char>, NoteView>,
> {
    if forall|k: Seq<char>| dm.contains_key(k) ==> (#[trigger] note_of_field_map(dm[k])) is Some {
        Some(Map::new(|k: Seq<char>| dm.contains_key(k), |k: Seq<char>| note_of_field_map(dm[k]).unwrap()))
    } else {
        None
    }
}

proof fn lemma_field_by_map(f: Seq<(Seq<char>, Seq<char>)>, name: Seq<char>)
    ensures
        field(f, name) == if fields_map(f).contains_key(name) {
            Some(fields_map(f)[name])
        } else {
            None
        },
    decreases f.len(),
{
    if f.len() > 0 {
        lemma_field_by_map(f.drop_last(), name);
    }
}

proof fn lemma_note_by_map(f: Seq<(Seq<char>, Seq<char>)>)
    ensures
        note_of_fields(f) == note_of_field_map(fields_map(f)),
{
    lemma_field_by_map(f, id_field());
    lemma_field_by_map(f, title_field());
    lemma_field_by_map(f, content_field());
    lemma_field_by_map(f, color_field());
}

proof fn lemma_doc_map_contains(d: DocumentView, k: Seq<char>)
    ensures
        doc_map(d).contains_key(k) <==> exists|i: int| 0 <= i < d.len() && d[i].0 == k,
    decreases d.len(),
{
    if d.len() > 0 {
        lemma_doc_map_contains(d.drop_last(), k);
        if doc_map(d.drop_last()).contains_key(k) {
            let i = choose|i: int| 0 <= i < d.len() - 1 && d.drop_last()[i].0 == k;
            assert(d[i].0 == k);
        }
        if exists|i: int| 0 <= i < d.len() && d[i].0 == k {
            let i = choose|i: int| 0 <= i < d.len() && d[i].0 == k;
            if i < d.len() - 1 {
                assert(d.drop_last()[i].0 == k);
            }
        }
    }
}

/// With keys unique, decoding a document depends on its document map alone.
pub proof fn lemma_decode_by_map(d: DocumentView)
    requires
        doc_keys_unique(d),
    ensures
        decode_document(d) == decode_doc_map(doc_map(d)),
    decreases d.len(),
{
    if d.len() > 0 {
        let t = d.drop_last();
        let e = d.last();
        assert(doc_keys_unique(t));
        lemma_decode_by_map(t);
        lemma_note_by_map(e.1);
        lemma_doc_map_contains(t, e.0);
        if doc_map(t).contains_key(e.0) {
            let i = choose|i: int| 0 <= i < t.len() && t[i].0 == e.0;
            assert(d[i].0 == d[d.len() - 1].0);
        }
        let dm = doc_map(d);
        let tm = doc_map(t);
        assert(dm == tm.insert(e.0, fields_map(e.1)));
        if decode_document(t) is None {
            let k = choose|k: Seq<char>| tm.contains_key(k) && !(note_of_field_map(tm[k]) is Some);
            assert(dm.contains_key(k) && dm[k] == tm[k]);
        } else if note_of_fields(e.1) is None {
            assert(dm.contains_key(e.0) && !(note_of_field_map(dm[e.0]) is Some));
        } else {
            assert forall|k: Seq<char>| dm.contains_key(k) implies (#[trigger] note_of_field_map(
                dm[k],
            )) is Some by {
                if k != e.0 {
                    assert(tm.contains_key(k));
                }
            }
            let m = decode_document(t).unwrap();
            let n = note_of_fields(e.1).unwrap();
            assert(m.insert(e.0, n) =~= Map::new(
                |k: Seq<char>| dm.contains_key(k),
                |k: Seq<char>| note_of_field_map(dm[k]).unwrap(),
            ));
        }
    }
}

/// The notes a text holds: it parses as JSON and every note in it is whole.
pub open spec fn imported(text: Seq<char>) -> Option<Map<Seq<char>, NoteView>> {
    match parsed_json(text) {
        Some(d) => decode_document(d),
        None => None,
    }
}

/// The fields written for a note have distinct names.
pub proof fn lemma_note_fields_names_unique(n: NoteView)
    ensures
        names_unique(fields_of(n)),
{
    assert(id_field() != title_field());
    assert(id_field() != content_field());
    assert(id_field() != color_field());
    assert(title_field() != content_field());
    assert(title_field()[0] != color_field()[0]);
    assert(content_field() != color_field());
}

/// The document written for entries with distinct keys is well formed.
pub proof fn lemma_document_well_formed(s: Seq<(Seq<char>, NoteView)>)
    requires
        keys_unique(s),
    ensures
        doc_well_formed(document_of(s)),
{
    let d = document_of(s);
    assert forall|i: int| 0 <= i < d.len() implies names_unique(#[trigger] d[i].1) by {
        lemma_note_fields_names_unique(s[i].1);
    }
    assert(doc_keys_unique(d)) by {
        assert forall|i: int, j: int| 0 <= i < d.len() && 0 <= j < d.len() && i != j implies d[i].0
            != d[j].0 by {
            assert(d[i].0 == s[i].0 && d[j].0 == s[j].0);
        }
    }
}

pub open spec fn id_field() -> Seq<char> {
    seq!['i', 'd']
}

pub open spec fn title_field() -> Seq<char> {
    seq!['t', 'i', 't', 'l', 'e']
}

pub open spec fn content_field() -> Seq<char> {
    seq!['c', 'o', 'n', 't', 'e', 'n', 't']
}

pub open spec fn color_field() -> Seq<char> {
    seq!['c', 'o', 'l', 'o', 'r']
}

/// The value of the last field named `name`, if any.
pub open spec fn field(fields: Seq<(Seq<char>, Seq<char>)>, name: Seq<char>) -> Option<Seq<char>>
    decreases fields.len(),
{
    if fields.len() == 0 {
        None
    } else if fields.last().0 == name {
        Some(fields.last().1)
    } else {
        field(fields.drop_last(), name)
    }
}

/// The note that a list of fields describes: all four fields present and the
/// colour one of the five names.
pub open spec fn note_of_fields(fields: Seq<(Seq<char>, Seq<char>)>) -> Option<NoteView> {
    match (
        field(fields, id_field()),
        field(fields, title_field()),
        field(fields, content_field()),
        field(fields, color_field()),
    ) {
        (Some(id), Some(title), Some(content), Some(c)) => match color_named(c) {
            Some(color) => Some(NoteView { id, title, content, color }),
            None => None,
        },
        _ => None,
    }
}

/// The mapping a document describes, or `None` when one of its notes is
/// malformed; a later key overrides an earlier one.
pub open spec fn decode_document(doc: DocumentView) -> Option<Map<Seq<char>, NoteView>>
    decreases doc.len(),
{
    if doc.len() == 0 {
        Some(Map::empty())
    } else {
        match (decode_document(doc.drop_last()), note_of_fields(doc.last().1)) {
            (Some(m), Some(n)) => Some(m.insert(doc.last().0, n)),
            _ => None,
        }
    }
}

/// The fields written for a note.
pub open spec fn fields_of(n: NoteView) -> Seq<(Seq<char>, Seq<char>)> {
    seq![
        (id_field(), n.id),
        (title_field(), n.title),
        (content_field(), n.content),
        (color_field(), color_name(n.color)),
    ]
}

/// The document written for a list of entries.
pub open spec fn document_of(s: Seq<(Seq<char>, NoteView)>) -> DocumentView {
    s.map_values(|e: (Seq<char>, NoteView)| (e.0, fields_of(e.1)))
}

/// The fields written for a note are read back as that note.
pub proof fn lemma_note_fields_round_trip(n: NoteView)
    ensures
        note_of_fields(fields_of(n)) == Some(n),
{
    let f = fields_of(n);
    reveal_with_fuel(field, 5);
    assert(id_field() != title_field());
    assert(id_field() != content_field());
    assert(id_field() != color_field());
    assert(title_field() != content_field());
    assert(title_field()[0] != color_field()[0]);
    assert(content_field() != color_field());
    assert(f.drop_last() =~= seq![(id_field(), n.id), (title_field(), n.title), (content_field(), n.content)]);
    assert(f.drop_last().drop_last() =~= seq![(id_field(), n.id), (title_field(), n.title)]);
    assert(f.drop_last().drop_last().drop_last() =~= seq![(id_field(), n.id)]);
    assert(f.drop_last().drop_last().drop_last().drop_last() =~= Seq::<(Seq<char>, Seq<char>)>::empty());
    lemma_color_name_round_trip(n.color);
}

/// Decoding the document written for a list of entries gives the mapping the
/// entries stand for.
pub proof fn lemma_document_round_trip(s: Seq<(Seq<char>, NoteView)>)
    ensures
        decode_document(document_of(s)) == Some(entries_map(s)),
    decreases s.len(),
{
    if s.len() > 0 {
        lemma_document_round_trip(s.drop_last());
        assert(document_of(s).drop_last() =~= document_of(s.drop_last()));
        lemma_note_fields_round_trip(s.last().1);
    }
}

fn field_name(name: &str) -> (r: String)
    ensures
        r@ == name@,
{
    name.to_owned()
}

/// The value of the last field named `name`, if any.
fn find_field<'a>(fields: &'a Vec<(String, String)>, name: &String) -> (r: Option<&'a String>)
    ensures
        match r {
            Some(v) => field(fields.deep_view(), name@) == Some(v@),
            None => field(fields.deep_view(), name@) is None,
        },
{
    let ghost d = fields.deep_view();
    let mut found: Option<&'a String> = None;
    let mut i: usize = 0;
    while i < fields.len()
        invariant
            d == fields.deep_view(),
            i <= fields@.len(),
            match found {
                Some(v) => field(d.take(i as int), name@) == Some(v@),
                None => field(d.take(i as int), name@) is None,
            },
        decreases fields@.len() - i,
    {
        assert(d.take(i + 1).drop_last() =~= d.take(i as int));
        if fields[i].0 == *name {
            found = Some(&fields[i].1);
        }
        i = i + 1;
    }
    assert(d.take(fields@.len() as int) =~= d);
    found
}

/// The note a list of fields describes, or the reason it describes none.
pub fn note_from_fields(fields: &Vec<(String, String)>) -> (r: Result<Note, String>)
    ensures
        match r {
            Ok(n) => note_of_fields(fields.deep_view()) == Some(n@),
            Err(msg) => note_of_fields(fields.deep_view()) is None && msg@.len() > 0,
        },
{
    proof {
        reveal_strlit("id");
        reveal_strlit("title");
        reveal_strlit("content");
        reveal_strlit("color");
        reveal_strlit("missing field in note");
        reveal_strlit("unknown note color");
    }
    let id_name = field_name("id");
    let title_name = field_name("title");
    let content_name = field_name("content");
    let color_name_field = field_name("color");
    assert(id_name@ =~= id_field());
    assert(title_name@ =~= title_field());
    assert(content_name@ =~= content_field());
    assert(color_name_field@ =~= color_field());
    let id = find_field(fields, &id_name);
    let title = find_field(fields, &title_name);
    let content = find_field(fields, &content_name);
    let color = find_field(fields, &color_name_field);
    match (id, title, content, color) {
        (Some(id), Some(title), Some(content), Some(color)) => match NoteColor::from_name(color) {
            Some(color) => Ok(
                Note { id: id.clone(), title: title.clone(), content: content.clone(), color },
            ),
            None => Err(field_name("unknown note color")),
        },
        _ => Err(field_name("missing field in note")),
    }
}


/// The fields written for a note: its identifier, title, content and colour
/// name.
pub fn note_fields(n: &Note) -> (r: Vec<(String, String)>)
    ensures
        r.deep_view() == fields_of(n@),
{
    proof {
        reveal_strlit("id");
        reveal_strlit("title");
        reveal_strlit("content");
        reveal_strlit("color");
    }
    let mut r: Vec<(String, String)> = Vec::new();
    r.push((field_name("id"), n.id.clone()));
    r.push((field_name("title"), n.title.clone()));
    r.push((field_name("content"), n.content.clone()));
    r.push((field_name("color"), n.color.name()));
    assert(r@[0].deep_view() == fields_of(n@)[0]);
    assert(r@[1].deep_view() == fields_of(n@)[1]);
    assert(r@[2].deep_view() == fields_of(n@)[2]);
    assert(r@[3].deep_view() == fields_of(n@)[3]);
    assert(r.deep_view() =~= fields_of(n@));
    r
}

/// The mapping a document describes, or the reason it describes none.
pub fn decode(doc: &Document) -> (r: Result<NoteMap, String>)
    ensures
        match r {
            Ok(m) => m.wf() && decode_document(doc.deep_view()) == Some(m@),
            Err(msg) => decode_document(doc.deep_view()) is None && msg@.len() > 0,
        },
{
    let ghost d = doc.deep_view();
    let mut m = NoteMap::new();
    let mut i: usize = 0;
    while i < doc.len()
        invariant
            d == doc.deep_view(),
            i <= doc@.len(),
            m.wf(),
            decode_document(d.take(i as int)) == Some(m@),
        decreases doc@.len() - i,
    {
        assert(d.take(i + 1).drop_last() =~= d.take(i as int));
        match note_from_fields(&doc[i].1) {
            Ok(n) => {
                m.insert(doc[i].0.clone(), n);
            },
            Err(msg) => {
                proof {
                    lemma_decode_fails_later(d, i as int + 1);
                }
                return Err(msg);
            },
        }
        i = i + 1;
    }
    assert(d.take(doc@.len() as int) =~= d);
    Ok(m)
}

proof fn lemma_decode_fails_later(d: DocumentView, k: int)
    requires
        0 <= k <= d.len(),
        decode_document(d.take(k)) is None,
    ensures
        decode_document(d) is None,
    decreases d.len() - k,
{
    if k < d.len() {
        assert(d.take(k + 1).drop_last() =~= d.take(k));
        lemma_decode_fails_later(d, k + 1);
    } else {
        assert(d.take(k) =~= d);
    }
}

fn error_text(e: &serde_json::Error) -> (r: String)
    ensures
        r@.len() > 0,
{
    let s = e.to_string();
    if s.as_str().is_empty() {
        proof {
            reveal_strlit("malformed notes document");
        }
        field_name("malformed notes document")
    } else {
        s
    }
}

/// The JSON text of a note mapping; making it always succeeds.
pub fn notes_to_json(notes: &NoteMap) -> (r: Result<String, String>)
    requires
        notes.wf(),
    ensures
        match r {
            Ok(t) => t@ == json_text(notes.document()) && imported(t@) == Some(notes@),
            Err(_) => false,
        },
{
    let doc = notes.to_document();
    proof {
        notes.lemma_document_well_formed();
    }
    match write_json(&doc) {
        Ok(t) => {
            proof {
                lemma_decode_by_map(parsed_json(t@).unwrap());
                lemma_decode_by_map(doc.deep_view());
                notes.lemma_document_round_trip();
            }
            Ok(t)
        },
        Err(e) => Err(error_text(&e)),
    }
}

/// The note mapping a JSON text describes, or the reason it describes none.
pub fn notes_from_json(text: &str) -> (r: Result<NoteMap, String>)
    ensures
        match parsed_json(text@) {
            Some(d) => match decode_document(d) {
                Some(m) => r is Ok && r.unwrap().wf() && r.unwrap()@ == m,
                None => r is Err,
            },
            None => r is Err,
        },
        match r {
            Ok(_) => true,
            Err(msg) => msg@.len() > 0,
        },
{
    match read_json(text) {
        Ok(doc) => decode(&doc),
        Err(e) => Err(error_text(&e)),
    }
}

} // verus!
