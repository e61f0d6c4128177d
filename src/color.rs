use vstd::prelude::*;

verus! {

/// The closed set of colour tags a note can carry.
#[derive(Debug, Clone, Copy, PartialEq, Eq, Structural)]
pub enum NoteColor {
    Red,
    Green,
    Blue,
    Yellow,
    Orange,
}

/// A colour with each channel given in tenths of full intensity (0 to 10).
#[derive(Debug, Clone, Copy, PartialEq, Eq, Structural)]
pub struct Rgb {
    pub r: u8,
    pub g: u8,
    pub b: u8,
}

impl Rgb {
    pub open spec fn wf(self) -> bool {
        self.r <= 10 && self.g <= 10 && self.b <= 10
    }
}

/// The tag every new note starts with.
pub open spec fn default_color() -> NoteColor {
    NoteColor::Yellow
}

pub open spec fn rgb_of(c: NoteColor) -> Rgb {
    match c {
        NoteColor::Red => Rgb { r: 10, g: 8, b: 8 },
        NoteColor::Green => Rgb { r: 8, g: 10, b: 8 },
        NoteColor::Blue => Rgb { r: 8, g: 8, b: 10 },
        NoteColor::Yellow => Rgb { r: 10, g: 10, b: 8 },
        NoteColor::Orange => Rgb { r: 10, g: 9, b: 8 },
    }
}

/// The tag's name as it is written in a notes document.
pub open spec fn color_name(c: NoteColor) -> Seq<char> {
    match c {
        NoteColor::Red => seq!['R', 'e', 'd'],
        NoteColor::Green => seq!['G', 'r', 'e', 'e', 'n'],
        NoteColor::Blue => seq!['B', 'l', 'u', 'e'],
        NoteColor::Yellow => seq!['Y', 'e', 'l', 'l', 'o', 'w'],
        NoteColor::Orange => seq!['O', 'r', 'a', 'n', 'g', 'e'],
    }
}

/// The tag whose name is `s`, if any.
pub open spec fn color_named(s: Seq<char>) -> Option<NoteColor> {
    if s == color_name(NoteColor::Red) {
        Some(NoteColor::Red)
    } else if s == color_name(NoteColor::Green) {
        Some(NoteColor::Green)
    } else if s == color_name(NoteColor::Blue) {
        Some(NoteColor::Blue)
    } else if s == color_name(NoteColor::Yellow) {
        Some(NoteColor::Yellow)
    } else if s == color_name(NoteColor::Orange) {
        Some(NoteColor::Orange)
    } else {
        None
    }
}

/// Reading back a tag's name gives the tag.
pub proof fn lemma_color_name_round_trip(c: NoteColor)
    ensures
        color_named(color_name(c)) == Some(c),
{
    assert(color_name(NoteColor::Red) != color_name(NoteColor::Green));
    assert(color_name(NoteColor::Red) != color_name(NoteColor::Blue));
    assert(color_name(NoteColor::Red) != color_name(NoteColor::Yellow));
    assert(color_name(NoteColor::Red) != color_name(NoteColor::Orange));
    assert(color_name(NoteColor::Green) != color_name(NoteColor::Blue));
    assert(color_name(NoteColor::Green) != color_name(NoteColor::Yellow));
    assert(color_name(NoteColor::Green) != color_name(NoteColor::Orange));
    assert(color_name(NoteColor::Blue) != color_name(NoteColor::Yellow));
    assert(color_name(NoteColor::Blue) != color_name(NoteColor::Orange));
    assert(color_name(NoteColor::Yellow) != color_name(NoteColor::Orange));
}

impl NoteColor {
    /// The five tags, in the order the editor offers them.
    pub fn all() -> (r: Vec<NoteColor>)
        ensures
            r@ == seq![
                NoteColor::Red,
                NoteColor::Green,
                NoteColor::Blue,
                NoteColor::Yellow,
                NoteColor::Orange,
            ],
    {
        vec![NoteColor::Red, NoteColor::Green, NoteColor::Blue, NoteColor::Yellow, NoteColor::Orange]
    }

    /// The colour a note with this tag is drawn in.
    pub fn to_color(&self) -> (r: Rgb)
        ensures
            r == rgb_of(*self),
            r.wf(),
    {
        match self {
            NoteColor::Red => Rgb { r: 10, g: 8, b: 8 },
            NoteColor::Green => Rgb { r: 8, g: 10, b: 8 },
            NoteColor::Blue => Rgb { r: 8, g: 8, b: 10 },
            NoteColor::Yellow => Rgb { r: 10, g: 10, b: 8 },
            NoteColor::Orange => Rgb { r: 10, g: 9, b: 8 },
        }
    }

    /// The tag's name, as written in a notes document and on its button.
    pub fn name(&self) -> (r: String)
        ensures
            r@ == color_name(*self),
    {
        let s = match self {
            NoteColor::Red => "Red",
            NoteColor::Green => "Green",
            NoteColor::Blue => "Blue",
            NoteColor::Yellow => "Yellow",
            NoteColor::Orange => "Orange",
        };
        proof {
            reveal_strlit("Red");
            reveal_strlit("Green");
            reveal_strlit("Blue");
            reveal_strlit("Yellow");
            reveal_strlit("Orange");
        }
        s.to_owned()
    }

    /// The tag named `s`, or `None` when `s` names none of the five.
    pub fn from_name(s: &String) -> (r: Option<NoteColor>)
        ensures
            r == color_named(s@),
    {
        let all = NoteColor::all();
        let mut i: usize = 0;
        while i < all.len()
            invariant
                all@ == seq![
                    NoteColor::Red,
                    NoteColor::Green,
                    NoteColor::Blue,
                    NoteColor::Yellow,
                    NoteColor::Orange,
                ],
                i <= all.len(),
                forall|j: int| 0 <= j < i ==> s@ != color_name(#[trigger] all@[j]),
            decreases all.len() - i,
        {
            let name = all[i].name();
            if *s == name {
                return Some(all[i]);
            }
            i = i + 1;
        }
        None
    }
}

/// A note button's look: its background and corner radius in pixels.
#[derive(Debug, Clone, Copy, PartialEq, Eq, Structural)]
pub struct Appearance {
    pub background: Rgb,
    pub border_radius: u8,
}

/// The corner radius of every note button.
pub const BUTTON_RADIUS: u8 = 5;

/// One channel lightened by a tenth, capped at full intensity.
pub open spec fn lighten(v: u8) -> u8 {
    if v >= 10 { 10 } else { (v + 1) as u8 }
}

/// The style of the button that stands for a note in the list.
pub struct NoteButtonStyle {
    pub color: Rgb,
}

impl NoteButtonStyle {
    /// The look of a button that is not hovered: the note's colour.
    pub fn active(&self) -> (r: Appearance)
        ensures
            r == (Appearance { background: self.color, border_radius: BUTTON_RADIUS }),
    {
        Appearance { background: self.color, border_radius: BUTTON_RADIUS }
    }

    /// The look of a hovered button: each channel a tenth lighter.
    pub fn hovered(&self) -> (r: Appearance)
        ensures
            r == (Appearance {
                background: Rgb {
                    r: lighten(self.color.r),
                    g: lighten(self.color.g),
                    b: lighten(self.color.b),
                },
                border_radius: BUTTON_RADIUS,
            }),
            self.color.wf() ==> r.background.wf(),
    {
        let background = Rgb {
            r: lighten_channel(self.color.r),
            g: lighten_channel(self.color.g),
            b: lighten_channel(self.color.b),
        };
        Appearance { background, border_radius: BUTTON_RADIUS }
    }
}

fn lighten_channel(v: u8) -> (r: u8)
    ensures
        r == lighten(v),
{
    if v >= 10 { 10 } else { v + 1 }
}

/// The colour picker's state: the option chosen last, if any.
pub struct ColorPicker {
    pub selected: Option<NoteColor>,
}

impl ColorPicker {
    pub fn new() -> (r: ColorPicker)
        ensures
            r.selected is None,
    {
        ColorPicker { selected: None }
    }

    /// Overwrites the selection with `color`.
    pub fn select(&mut self, color: NoteColor)
        ensures
            final(self).selected == Some(color),
    {
        self.selected = Some(color);
    }

    pub fn selected(&self) -> (r: Option<NoteColor>)
        ensures
            r == self.selected,
    {
        self.selected
    }
}

} // verus!
