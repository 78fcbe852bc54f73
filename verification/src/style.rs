use vstd::prelude::*;

verus! {

/// An exact 24-bit terminal color.
#[derive(Clone, Copy, Debug, PartialEq, Eq, Structural)]
pub enum Color {
    Rgb { r: u8, g: u8, b: u8 },
}

impl Color {
    pub fn rgb(r: u8, g: u8, b: u8) -> (c: Self)
        ensures
            c == (Color::Rgb { r, g, b }),
    {
        Color::Rgb { r, g, b }
    }
}

/// Boolean text attributes carried by a [`Style`].
#[derive(Clone, Copy, Debug, PartialEq, Eq, Structural)]
pub struct Attributes {
    pub bold: bool,
    pub dim: bool,
    pub italic: bool,
    pub underline: bool,
    pub strikethrough: bool,
    pub reverse: bool,
}

impl Attributes {
    /// No attribute enabled.
    pub open spec fn none() -> Attributes {
        Attributes {
            bold: false,
            dim: false,
            italic: false,
            underline: false,
            strikethrough: false,
            reverse: false,
        }
    }

    /// Attribute-wise union.
    pub open spec fn union(self, other: Attributes) -> Attributes {
        Attributes {
            bold: self.bold || other.bold,
            dim: self.dim || other.dim,
            italic: self.italic || other.italic,
            underline: self.underline || other.underline,
            strikethrough: self.strikethrough || other.strikethrough,
            reverse: self.reverse || other.reverse,
        }
    }
}

impl Default for Attributes {
    fn default() -> (a: Self)
        ensures
            a == Attributes::none(),
    {
        Attributes {
            bold: false,
            dim: false,
            italic: false,
            underline: false,
            strikethrough: false,
            reverse: false,
        }
    }
}

/// Immutable-by-value terminal style builder.
///
/// [`Style::patch`] overlays colors and adds enabled attributes; `false` does not remove an
/// attribute already enabled by a base style.
#[derive(Clone, Copy, Debug, PartialEq, Eq, Structural)]
pub struct Style {
    pub fg: Option<Color>,
    pub bg: Option<Color>,
    pub attributes: Attributes,
}

/// `overlay` if it is set, else `base`.
pub open spec fn or_color(overlay: Option<Color>, base: Option<Color>) -> Option<Color> {
    match overlay {
        Some(c) => Some(c),
        None => base,
    }
}

impl Style {
    /// The style with no colors and no attributes.
    pub open spec fn plain() -> Style {
        Style { fg: None, bg: None, attributes: Attributes::none() }
    }

    /// `self` overlaid with `overlay`: overlay colors win where set, attributes are united.
    pub open spec fn spec_patch(self, overlay: Style) -> Style {
        Style {
            fg: or_color(overlay.fg, self.fg),
            bg: or_color(overlay.bg, self.bg),
            attributes: self.attributes.union(overlay.attributes),
        }
    }

    pub fn new() -> (s: Self)
        ensures
            s == Style::plain(),
    {
        Style { fg: None, bg: None, attributes: Attributes::default() }
    }

    pub fn fg(self, color: Color) -> (s: Self)
        ensures
            s == (Style { fg: Some(color), ..self }),
    {
        Style { fg: Some(color), ..self }
    }

    pub fn bg(self, color: Color) -> (s: Self)
        ensures
            s == (Style { bg: Some(color), ..self }),
    {
        Style { bg: Some(color), ..self }
    }

    pub fn bold(self) -> (s: Self)
        ensures
            s == (Style { attributes: Attributes { bold: true, ..self.attributes }, ..self }),
    {
        let mut s = self;
        s.attributes.bold = true;
        s
    }

    pub fn dim(self) -> (s: Self)
        ensures
            s == (Style { attributes: Attributes { dim: true, ..self.attributes }, ..self }),
    {
        let mut s = self;
        s.attributes.dim = true;
        s
    }

    pub fn italic(self) -> (s: Self)
        ensures
            s == (Style { attributes: Attributes { italic: true, ..self.attributes }, ..self }),
    {
        let mut s = self;
        s.attributes.italic = true;
        s
    }

    pub fn underline(self) -> (s: Self)
        ensures
            s == (Style {
                attributes: Attributes { underline: true, ..self.attributes },
                ..self
            }),
    {
        let mut s = self;
        s.attributes.underline = true;
        s
    }

    pub fn strikethrough(self) -> (s: Self)
        ensures
            s == (Style {
                attributes: Attributes { strikethrough: true, ..self.attributes },
                ..self
            }),
    {
        let mut s = self;
        s.attributes.strikethrough = true;
        s
    }

    pub fn reverse(self) -> (s: Self)
        ensures
            s == (Style { attributes: Attributes { reverse: true, ..self.attributes }, ..self }),
    {
        let mut s = self;
        s.attributes.reverse = true;
        s
    }

    /// Overlays specified colours and unions enabled attributes.
    ///
    /// Patches can add attributes but do not disable attributes already present.
    pub fn patch(self, overlay: Self) -> (s: Self)
        ensures
            s == self.spec_patch(overlay),
    {
        Style {
            fg: match overlay.fg {
                Some(c) => Some(c),
                None => self.fg,
            },
            bg: match overlay.bg {
                Some(c) => Some(c),
                None => self.bg,
            },
            attributes: Attributes {
                bold: self.attributes.bold || overlay.attributes.bold,
                dim: self.attributes.dim || overlay.attributes.dim,
                italic: self.attributes.italic || overlay.attributes.italic,
                underline: self.attributes.underline || overlay.attributes.underline,
                strikethrough: self.attributes.strikethrough || overlay.attributes.strikethrough,
                reverse: self.attributes.reverse || overlay.attributes.reverse,
            },
        }
    }
}

impl Default for Style {
    fn default() -> (s: Self)
        ensures
            s == Style::plain(),
    {
        Style::new()
    }
}

/// Patching with the plain style, on either side, changes nothing.
pub proof fn lemma_patch_plain_is_identity(s: Style)
    ensures
        s.spec_patch(Style::plain()) == s,
        Style::plain().spec_patch(s) == s,
{
}

/// Patching is associative: overlaying `b` then `c` equals overlaying their combination.
pub proof fn lemma_patch_associative(a: Style, b: Style, c: Style)
    ensures
        a.spec_patch(b).spec_patch(c) == a.spec_patch(b.spec_patch(c)),
{
}

/// Patching a style with itself changes nothing.
pub proof fn lemma_patch_idempotent(s: Style)
    ensures
        s.spec_patch(s) == s,
{
}

/// A patch never removes an attribute that the base style enabled, and set overlay colors win.
pub proof fn lemma_patch_keeps_base_attributes(base: Style, overlay: Style)
    ensures
        base.attributes.bold ==> base.spec_patch(overlay).attributes.bold,
        base.attributes.dim ==> base.spec_patch(overlay).attributes.dim,
        base.attributes.italic ==> base.spec_patch(overlay).attributes.italic,
        base.attributes.underline ==> base.spec_patch(overlay).attributes.underline,
        base.attributes.strikethrough ==> base.spec_patch(overlay).attributes.strikethrough,
        base.attributes.reverse ==> base.spec_patch(overlay).attributes.reverse,
        overlay.fg is Some ==> base.spec_patch(overlay).fg == overlay.fg,
        overlay.bg is Some ==> base.spec_patch(overlay).bg == overlay.bg,
{
}

} // verus!
