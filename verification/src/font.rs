//! Font descriptions.  A [`Font`] is a resolved request — family name with
//! the weight and italic suffixes folded in, point size, and the decoration
//! flags — that a backend turns into a native font handle.

use vstd::prelude::*;

verus! {

/// A font weight, from thinnest to blackest.
#[derive(Debug, Clone, Copy, PartialEq, Eq, Hash, PartialOrd, Ord, Default, Structural)]
pub enum FontWeight {
    Thin,
    ExtraLight,
    Light,
    SemiLight,
    #[default]
    Regular,
    Medium,
    SemiBold,
    Bold,
    ExtraBold,
    Black,
    ExtraBlack,
}

/// The conventional numeric value of each weight, as used by CSS and by
/// variable-font weight axes.
pub open spec fn spec_weight_value(w: FontWeight) -> u32 {
    match w {
        FontWeight::Thin => 100,
        FontWeight::ExtraLight => 200,
        FontWeight::Light => 300,
        FontWeight::SemiLight => 350,
        FontWeight::Regular => 400,
        FontWeight::Medium => 500,
        FontWeight::SemiBold => 600,
        FontWeight::Bold => 700,
        FontWeight::ExtraBold => 800,
        FontWeight::Black => 900,
        FontWeight::ExtraBlack => 950,
    }
}

/// The name of each weight, as it appears in a font's face name.
pub open spec fn spec_weight_name(w: FontWeight) -> Seq<char> {
    match w {
        FontWeight::Thin => "Thin"@,
        FontWeight::ExtraLight => "ExtraLight"@,
        FontWeight::Light => "Light"@,
        FontWeight::SemiLight => "SemiLight"@,
        FontWeight::Regular => "Regular"@,
        FontWeight::Medium => "Medium"@,
        FontWeight::SemiBold => "SemiBold"@,
        FontWeight::Bold => "Bold"@,
        FontWeight::ExtraBold => "ExtraBold"@,
        FontWeight::Black => "Black"@,
        FontWeight::ExtraBlack => "ExtraBlack"@,
    }
}

impl FontWeight {
    /// The conventional numeric weight value.
    pub fn value(&self) -> (v: u32)
        ensures
            v == spec_weight_value(*self),
    {
        match *self {
            FontWeight::Thin => 100,
            FontWeight::ExtraLight => 200,
            FontWeight::Light => 300,
            FontWeight::SemiLight => 350,
            FontWeight::Regular => 400,
            FontWeight::Medium => 500,
            FontWeight::SemiBold => 600,
            FontWeight::Bold => 700,
            FontWeight::ExtraBold => 800,
            FontWeight::Black => 900,
            FontWeight::ExtraBlack => 950,
        }
    }

    /// The weight's name, the spelling used inside face names.
    pub fn name(&self) -> (s: &'static str)
        ensures
            s@ == spec_weight_name(*self),
    {
        match *self {
            FontWeight::Thin => "Thin",
            FontWeight::ExtraLight => "ExtraLight",
            FontWeight::Light => "Light",
            FontWeight::SemiLight => "SemiLight",
            FontWeight::Regular => "Regular",
            FontWeight::Medium => "Medium",
            FontWeight::SemiBold => "SemiBold",
            FontWeight::Bold => "Bold",
            FontWeight::ExtraBold => "ExtraBold",
            FontWeight::Black => "Black",
            FontWeight::ExtraBlack => "ExtraBlack",
        }
    }
}

/// The data a font request carries.
#[derive(Debug, PartialEq, Eq, Hash)]
pub struct FontInner {
    pub name: String,
    pub size: u32,
    pub weight: FontWeight,
    pub italicized: bool,
    pub underlined: bool,
}

/// A font: the face name is derived from the requested family by appending
/// the weight name and, for italics, an `-Italic` suffix.
#[derive(Debug, PartialEq, Eq, Hash)]
pub struct Font {
    pub inner: FontInner,
}

/// The face name [`Font::new`] derives from a family name, a weight and the
/// italic flag.
pub open spec fn spec_face_name(name: Seq<char>, weight: FontWeight, italic: bool) -> Seq<char> {
    name + "-"@ + spec_weight_name(weight) + if italic {
        "-Italic"@
    } else {
        Seq::<char>::empty()
    }
}

impl Font {
    /// Build a font from a family name and the styling flags.
    pub fn new(name: &str, size: u32, weight: FontWeight, italic: bool, underline: bool) -> (f:
        Self)
        ensures
            f.inner.name@ == spec_face_name(name@, weight, italic),
            f.inner.size == size,
            f.inner.weight == weight,
            f.inner.italicized == italic,
            f.inner.underlined == underline,
    {
        let mut face = name.to_string();
        face.append("-");
        face.append(weight.name());
        if italic {
            face.append("-Italic");
        }
        proof {
            if !italic {
                assert(face@ == spec_face_name(name@, weight, italic));
            }
        }
        Font {
            inner: FontInner { name: face, size, weight, italicized: italic, underlined: underline },
        }
    }

    /// The derived face name.
    pub fn name(&self) -> (n: String)
        ensures
            n@ == self.inner.name@,
    {
        self.inner.name.clone()
    }

    /// The point size.
    pub fn size(&self) -> (s: u32)
        ensures
            s == self.inner.size,
    {
        self.inner.size
    }

    /// The weight.
    pub fn weight(&self) -> (w: FontWeight)
        ensures
            w == self.inner.weight,
    {
        self.inner.weight
    }

    /// Whether the font is italic.
    pub fn is_italic(&self) -> (b: bool)
        ensures
            b == self.inner.italicized,
    {
        self.inner.italicized
    }

    /// Whether text in the font is underlined.
    pub fn is_underlined(&self) -> (b: bool)
        ensures
            b == self.inner.underlined,
    {
        self.inner.underlined
    }
}

impl Default for Font {
    /// A regular 12-point Arial request.
    fn default() -> (f: Self)
        ensures
            f.inner.name@ == spec_face_name("Arial"@, FontWeight::Regular, false),
            f.inner.size == 12,
            f.inner.weight == FontWeight::Regular,
            !f.inner.italicized,
            !f.inner.underlined,
    {
        Font::new("Arial", 12, FontWeight::Regular, false, false)
    }
}

} // verus!
