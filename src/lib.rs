//! Note-keeping state: a keyed store of colour-tagged notes, its JSON
//! document form, the transitions driven by user actions, and the colour
//! picker's selection.

pub mod color;
pub mod note_map;
pub mod document;
pub mod notes_app;
