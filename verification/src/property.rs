//! The keyword-valued presentation properties, with their parsers and
//! defaults, and the newtype properties carrying lengths, numbers and
//! strings.
//!
//! Every parser trims surrounding white space and then matches the value
//! exactly; a value that matches no keyword is rejected as invalid.

use vstd::prelude::*;
use vstd::string::StringExecFns;

use crate::error::AttributeError;
use crate::length::{number_fits, number_value, Length, LengthDir, LengthUnit};
use crate::ratio::{rat, Ratio};
use crate::text::{contains_seq, str_contains, str_eq, trim, trimmed};

verus! {

/// How the interior of a clip path is determined.
#[derive(Clone, Copy, Debug, PartialEq, Eq, Structural)]
pub enum ClipRule {
    NonZero,
    EvenOdd,
}

impl ClipRule {
    /// The value the trimmed keyword `t` denotes, if any.
    pub open spec fn spec_parse(t: Seq<char>) -> Option<ClipRule> {
        if t == "nonzero"@ {
            Some(ClipRule::NonZero)
        } else if t == "evenodd"@ {
            Some(ClipRule::EvenOdd)
        } else {
            Option::None
        }
    }

    /// Parses the keyword, after trimming surrounding white space.
    pub fn parse(s: &str) -> (r: Result<ClipRule, AttributeError>)
        ensures
            match r {
                Ok(v) => ClipRule::spec_parse(trimmed(s@)) == Some(v),
                Err(e) => ClipRule::spec_parse(trimmed(s@)) is None && e.is_invalid_value(),
            },
    {
        let t = trim(s);
        if str_eq(t, "nonzero") {
            Ok(ClipRule::NonZero)
        } else if str_eq(t, "evenodd") {
            Ok(ClipRule::EvenOdd)
        } else {
            Err(AttributeError::invalid_value())
        }
    }
}

impl Default for ClipRule {
    /// The value used when the property is neither specified nor inherited.
    fn default() -> (r: ClipRule)
        ensures
            r == ClipRule::NonZero,
    {
        ClipRule::NonZero
    }
}

/// The compositing operator for an isolated group. Does not inherit automatically.
#[derive(Clone, Copy, Debug, PartialEq, Eq, Structural)]
pub enum CompOp {
    Clear,
    Src,
    Dst,
    SrcOver,
    DstOver,
    SrcIn,
    DstIn,
    SrcOut,
    DstOut,
    SrcAtop,
    DstAtop,
    Xor,
    Plus,
    Multiply,
    Screen,
    Overlay,
    Darken,
    Lighten,
    ColorDodge,
    ColorBurn,
    HardLight,
    SoftLight,
    Difference,
    Exclusion,
}

impl CompOp {
    /// The value the trimmed keyword `t` denotes, if any.
    pub open spec fn spec_parse(t: Seq<char>) -> Option<CompOp> {
        if t == "clear"@ {
            Some(CompOp::Clear)
        } else if t == "src"@ {
            Some(CompOp::Src)
        } else if t == "dst"@ {
            Some(CompOp::Dst)
        } else if t == "src-over"@ {
            Some(CompOp::SrcOver)
        } else if t == "dst-over"@ {
            Some(CompOp::DstOver)
        } else if t == "src-in"@ {
            Some(CompOp::SrcIn)
        } else if t == "dst-in"@ {
            Some(CompOp::DstIn)
        } else if t == "src-out"@ {
            Some(CompOp::SrcOut)
        } else if t == "dst-out"@ {
            Some(CompOp::DstOut)
        } else if t == "src-atop"@ {
            Some(CompOp::SrcAtop)
        } else if t == "dst-atop"@ {
            Some(CompOp::DstAtop)
        } else if t == "xor"@ {
            Some(CompOp::Xor)
        } else if t == "plus"@ {
            Some(CompOp::Plus)
        } else if t == "multiply"@ {
            Some(CompOp::Multiply)
        } else if t == "screen"@ {
            Some(CompOp::Screen)
        } else if t == "overlay"@ {
            Some(CompOp::Overlay)
        } else if t == "darken"@ {
            Some(CompOp::Darken)
        } else if t == "lighten"@ {
            Some(CompOp::Lighten)
        } else if t == "color-dodge"@ {
            Some(CompOp::ColorDodge)
        } else if t == "color-burn"@ {
            Some(CompOp::ColorBurn)
        } else if t == "hard-light"@ {
            Some(CompOp::HardLight)
        } else if t == "soft-light"@ {
            Some(CompOp::SoftLight)
        } else if t == "difference"@ {
            Some(CompOp::Difference)
        } else if t == "exclusion"@ {
            Some(CompOp::Exclusion)
        } else {
            Option::None
        }
    }

    /// Parses the keyword, after trimming surrounding white space.
    pub fn parse(s: &str) -> (r: Result<CompOp, AttributeError>)
        ensures
            match r {
                Ok(v) => CompOp::spec_parse(trimmed(s@)) == Some(v),
                Err(e) => CompOp::spec_parse(trimmed(s@)) is None && e.is_invalid_value(),
            },
    {
        let t = trim(s);
        if str_eq(t, "clear") {
            Ok(CompOp::Clear)
        } else if str_eq(t, "src") {
            Ok(CompOp::Src)
        } else if str_eq(t, "dst") {
            Ok(CompOp::Dst)
        } else if str_eq(t, "src-over") {
            Ok(CompOp::SrcOver)
        } else if str_eq(t, "dst-over") {
            Ok(CompOp::DstOver)
        } else if str_eq(t, "src-in") {
            Ok(CompOp::SrcIn)
        } else if str_eq(t, "dst-in") {
            Ok(CompOp::DstIn)
        } else if str_eq(t, "src-out") {
            Ok(CompOp::SrcOut)
        } else if str_eq(t, "dst-out") {
            Ok(CompOp::DstOut)
        } else if str_eq(t, "src-atop") {
            Ok(CompOp::SrcAtop)
        } else if str_eq(t, "dst-atop") {
            Ok(CompOp::DstAtop)
        } else if str_eq(t, "xor") {
            Ok(CompOp::Xor)
        } else if str_eq(t, "plus") {
            Ok(CompOp::Plus)
        } else if str_eq(t, "multiply") {
            Ok(CompOp::Multiply)
        } else if str_eq(t, "screen") {
            Ok(CompOp::Screen)
        } else if str_eq(t, "overlay") {
            Ok(CompOp::Overlay)
        } else if str_eq(t, "darken") {
            Ok(CompOp::Darken)
        } else if str_eq(t, "lighten") {
            Ok(CompOp::Lighten)
        } else if str_eq(t, "color-dodge") {
            Ok(CompOp::ColorDodge)
        } else if str_eq(t, "color-burn") {
            Ok(CompOp::ColorBurn)
        } else if str_eq(t, "hard-light") {
            Ok(CompOp::HardLight)
        } else if str_eq(t, "soft-light") {
            Ok(CompOp::SoftLight)
        } else if str_eq(t, "difference") {
            Ok(CompOp::Difference)
        } else if str_eq(t, "exclusion") {
            Ok(CompOp::Exclusion)
        } else {
            Err(AttributeError::invalid_value())
        }
    }
}

impl Default for CompOp {
    /// The value used when the property is neither specified nor inherited.
    fn default() -> (r: CompOp)
        ensures
            r == CompOp::SrcOver,
    {
        CompOp::SrcOver
    }
}

/// How the interior of a shape is determined when filling.
#[derive(Clone, Copy, Debug, PartialEq, Eq, Structural)]
pub enum FillRule {
    NonZero,
    EvenOdd,
}

impl FillRule {
    /// The value the trimmed keyword `t` denotes, if any.
    pub open spec fn spec_parse(t: Seq<char>) -> Option<FillRule> {
        if t == "nonzero"@ {
            Some(FillRule::NonZero)
        } else if t == "evenodd"@ {
            Some(FillRule::EvenOdd)
        } else {
            Option::None
        }
    }

    /// Parses the keyword, after trimming surrounding white space.
    pub fn parse(s: &str) -> (r: Result<FillRule, AttributeError>)
        ensures
            match r {
                Ok(v) => FillRule::spec_parse(trimmed(s@)) == Some(v),
                Err(e) => FillRule::spec_parse(trimmed(s@)) is None && e.is_invalid_value(),
            },
    {
        let t = trim(s);
        if str_eq(t, "nonzero") {
            Ok(FillRule::NonZero)
        } else if str_eq(t, "evenodd") {
            Ok(FillRule::EvenOdd)
        } else {
            Err(AttributeError::invalid_value())
        }
    }
}

impl Default for FillRule {
    /// The value used when the property is neither specified nor inherited.
    fn default() -> (r: FillRule)
        ensures
            r == FillRule::NonZero,
    {
        FillRule::NonZero
    }
}

/// The width of the glyphs of the font.
#[derive(Clone, Copy, Debug, PartialEq, Eq, Structural)]
pub enum FontStretch {
    Normal,
    Wider,
    Narrower,
    UltraCondensed,
    ExtraCondensed,
    Condensed,
    SemiCondensed,
    SemiExpanded,
    Expanded,
    ExtraExpanded,
    UltraExpanded,
}

impl FontStretch {
    /// The value the trimmed keyword `t` denotes, if any.
    pub open spec fn spec_parse(t: Seq<char>) -> Option<FontStretch> {
        if t == "normal"@ {
            Some(FontStretch::Normal)
        } else if t == "wider"@ {
            Some(FontStretch::Wider)
        } else if t == "narrower"@ {
            Some(FontStretch::Narrower)
        } else if t == "ultra-condensed"@ {
            Some(FontStretch::UltraCondensed)
        } else if t == "extra-condensed"@ {
            Some(FontStretch::ExtraCondensed)
        } else if t == "condensed"@ {
            Some(FontStretch::Condensed)
        } else if t == "semi-condensed"@ {
            Some(FontStretch::SemiCondensed)
        } else if t == "semi-expanded"@ {
            Some(FontStretch::SemiExpanded)
        } else if t == "expanded"@ {
            Some(FontStretch::Expanded)
        } else if t == "extra-expanded"@ {
            Some(FontStretch::ExtraExpanded)
        } else if t == "ultra-expanded"@ {
            Some(FontStretch::UltraExpanded)
        } else {
            Option::None
        }
    }

    /// Parses the keyword, after trimming surrounding white space.
    pub fn parse(s: &str) -> (r: Result<FontStretch, AttributeError>)
        ensures
            match r {
                Ok(v) => FontStretch::spec_parse(trimmed(s@)) == Some(v),
                Err(e) => FontStretch::spec_parse(trimmed(s@)) is None && e.is_invalid_value(),
            },
    {
        let t = trim(s);
        if str_eq(t, "normal") {
            Ok(FontStretch::Normal)
        } else if str_eq(t, "wider") {
            Ok(FontStretch::Wider)
        } else if str_eq(t, "narrower") {
            Ok(FontStretch::Narrower)
        } else if str_eq(t, "ultra-condensed") {
            Ok(FontStretch::UltraCondensed)
        } else if str_eq(t, "extra-condensed") {
            Ok(FontStretch::ExtraCondensed)
        } else if str_eq(t, "condensed") {
            Ok(FontStretch::Condensed)
        } else if str_eq(t, "semi-condensed") {
            Ok(FontStretch::SemiCondensed)
        } else if str_eq(t, "semi-expanded") {
            Ok(FontStretch::SemiExpanded)
        } else if str_eq(t, "expanded") {
            Ok(FontStretch::Expanded)
        } else if str_eq(t, "extra-expanded") {
            Ok(FontStretch::ExtraExpanded)
        } else if str_eq(t, "ultra-expanded") {
            Ok(FontStretch::UltraExpanded)
        } else {
            Err(AttributeError::invalid_value())
        }
    }
}

impl Default for FontStretch {
    /// The value used when the property is neither specified nor inherited.
    fn default() -> (r: FontStretch)
        ensures
            r == FontStretch::Normal,
    {
        FontStretch::Normal
    }
}

/// The posture of the font.
#[derive(Clone, Copy, Debug, PartialEq, Eq, Structural)]
pub enum FontStyle {
    Normal,
    Italic,
    Oblique,
}

impl FontStyle {
    /// The value the trimmed keyword `t` denotes, if any.
    pub open spec fn spec_parse(t: Seq<char>) -> Option<FontStyle> {
        if t == "normal"@ {
            Some(FontStyle::Normal)
        } else if t == "italic"@ {
            Some(FontStyle::Italic)
        } else if t == "oblique"@ {
            Some(FontStyle::Oblique)
        } else {
            Option::None
        }
    }

    /// Parses the keyword, after trimming surrounding white space.
    pub fn parse(s: &str) -> (r: Result<FontStyle, AttributeError>)
        ensures
            match r {
                Ok(v) => FontStyle::spec_parse(trimmed(s@)) == Some(v),
                Err(e) => FontStyle::spec_parse(trimmed(s@)) is None && e.is_invalid_value(),
            },
    {
        let t = trim(s);
        if str_eq(t, "normal") {
            Ok(FontStyle::Normal)
        } else if str_eq(t, "italic") {
            Ok(FontStyle::Italic)
        } else if str_eq(t, "oblique") {
            Ok(FontStyle::Oblique)
        } else {
            Err(AttributeError::invalid_value())
        }
    }
}

impl Default for FontStyle {
    /// The value used when the property is neither specified nor inherited.
    fn default() -> (r: FontStyle)
        ensures
            r == FontStyle::Normal,
    {
        FontStyle::Normal
    }
}

/// Small-caps selection.
#[derive(Clone, Copy, Debug, PartialEq, Eq, Structural)]
pub enum FontVariant {
    Normal,
    SmallCaps,
}

impl FontVariant {
    /// The value the trimmed keyword `t` denotes, if any.
    pub open spec fn spec_parse(t: Seq<char>) -> Option<FontVariant> {
        if t == "normal"@ {
            Some(FontVariant::Normal)
        } else if t == "small-caps"@ {
            Some(FontVariant::SmallCaps)
        } else {
            Option::None
        }
    }

    /// Parses the keyword, after trimming surrounding white space.
    pub fn parse(s: &str) -> (r: Result<FontVariant, AttributeError>)
        ensures
            match r {
                Ok(v) => FontVariant::spec_parse(trimmed(s@)) == Some(v),
                Err(e) => FontVariant::spec_parse(trimmed(s@)) is None && e.is_invalid_value(),
            },
    {
        let t = trim(s);
        if str_eq(t, "normal") {
            Ok(FontVariant::Normal)
        } else if str_eq(t, "small-caps") {
            Ok(FontVariant::SmallCaps)
        } else {
            Err(AttributeError::invalid_value())
        }
    }
}

impl Default for FontVariant {
    /// The value used when the property is neither specified nor inherited.
    fn default() -> (r: FontVariant)
        ensures
            r == FontVariant::Normal,
    {
        FontVariant::Normal
    }
}

/// The weight of the glyphs of the font.
#[derive(Clone, Copy, Debug, PartialEq, Eq, Structural)]
pub enum FontWeight {
    Normal,
    Bold,
    Bolder,
    Lighter,
    W100,
    W200,
    W300,
    W400,
    W500,
    W600,
    W700,
    W800,
    W900,
}

impl FontWeight {
    /// The value the trimmed keyword `t` denotes, if any.
    pub open spec fn spec_parse(t: Seq<char>) -> Option<FontWeight> {
        if t == "normal"@ {
            Some(FontWeight::Normal)
        } else if t == "bold"@ {
            Some(FontWeight::Bold)
        } else if t == "bolder"@ {
            Some(FontWeight::Bolder)
        } else if t == "lighter"@ {
            Some(FontWeight::Lighter)
        } else if t == "100"@ {
            Some(FontWeight::W100)
        } else if t == "200"@ {
            Some(FontWeight::W200)
        } else if t == "300"@ {
            Some(FontWeight::W300)
        } else if t == "400"@ {
            Some(FontWeight::W400)
        } else if t == "500"@ {
            Some(FontWeight::W500)
        } else if t == "600"@ {
            Some(FontWeight::W600)
        } else if t == "700"@ {
            Some(FontWeight::W700)
        } else if t == "800"@ {
            Some(FontWeight::W800)
        } else if t == "900"@ {
            Some(FontWeight::W900)
        } else {
            Option::None
        }
    }

    /// Parses the keyword, after trimming surrounding white space.
    pub fn parse(s: &str) -> (r: Result<FontWeight, AttributeError>)
        ensures
            match r {
                Ok(v) => FontWeight::spec_parse(trimmed(s@)) == Some(v),
                Err(e) => FontWeight::spec_parse(trimmed(s@)) is None && e.is_invalid_value(),
            },
    {
        let t = trim(s);
        if str_eq(t, "normal") {
            Ok(FontWeight::Normal)
        } else if str_eq(t, "bold") {
            Ok(FontWeight::Bold)
        } else if str_eq(t, "bolder") {
            Ok(FontWeight::Bolder)
        } else if str_eq(t, "lighter") {
            Ok(FontWeight::Lighter)
        } else if str_eq(t, "100") {
            Ok(FontWeight::W100)
        } else if str_eq(t, "200") {
            Ok(FontWeight::W200)
        } else if str_eq(t, "300") {
            Ok(FontWeight::W300)
        } else if str_eq(t, "400") {
            Ok(FontWeight::W400)
        } else if str_eq(t, "500") {
            Ok(FontWeight::W500)
        } else if str_eq(t, "600") {
            Ok(FontWeight::W600)
        } else if str_eq(t, "700") {
            Ok(FontWeight::W700)
        } else if str_eq(t, "800") {
            Ok(FontWeight::W800)
        } else if str_eq(t, "900") {
            Ok(FontWeight::W900)
        } else {
            Err(AttributeError::invalid_value())
        }
    }
}

impl Default for FontWeight {
    /// The value used when the property is neither specified nor inherited.
    fn default() -> (r: FontWeight)
        ensures
            r == FontWeight::Normal,
    {
        FontWeight::Normal
    }
}

/// Whether and how an element generates boxes.
#[derive(Clone, Copy, Debug, PartialEq, Eq, Structural)]
pub enum Display {
    Inline,
    Block,
    ListItem,
    RunIn,
    Compact,
    Marker,
    Table,
    InlineTable,
    TableRowGroup,
    TableHeaderGroup,
    TableFooterGroup,
    TableRow,
    TableColumnGroup,
    TableColumn,
    TableCell,
    TableCaption,
    NoDisplay,
}

impl Display {
    /// The value the trimmed keyword `t` denotes, if any.
    pub open spec fn spec_parse(t: Seq<char>) -> Option<Display> {
        if t == "inline"@ {
            Some(Display::Inline)
        } else if t == "block"@ {
            Some(Display::Block)
        } else if t == "list-item"@ {
            Some(Display::ListItem)
        } else if t == "run-in"@ {
            Some(Display::RunIn)
        } else if t == "compact"@ {
            Some(Display::Compact)
        } else if t == "marker"@ {
            Some(Display::Marker)
        } else if t == "table"@ {
            Some(Display::Table)
        } else if t == "inline-table"@ {
            Some(Display::InlineTable)
        } else if t == "table-row-group"@ {
            Some(Display::TableRowGroup)
        } else if t == "table-header-group"@ {
            Some(Display::TableHeaderGroup)
        } else if t == "table-footer-group"@ {
            Some(Display::TableFooterGroup)
        } else if t == "table-row"@ {
            Some(Display::TableRow)
        } else if t == "table-column-group"@ {
            Some(Display::TableColumnGroup)
        } else if t == "table-column"@ {
            Some(Display::TableColumn)
        } else if t == "table-cell"@ {
            Some(Display::TableCell)
        } else if t == "table-caption"@ {
            Some(Display::TableCaption)
        } else if t == "none"@ {
            Some(Display::NoDisplay)
        } else {
            Option::None
        }
    }

    /// Parses the keyword, after trimming surrounding white space.
    pub fn parse(s: &str) -> (r: Result<Display, AttributeError>)
        ensures
            match r {
                Ok(v) => Display::spec_parse(trimmed(s@)) == Some(v),
                Err(e) => Display::spec_parse(trimmed(s@)) is None && e.is_invalid_value(),
            },
    {
        let t = trim(s);
        if str_eq(t, "inline") {
            Ok(Display::Inline)
        } else if str_eq(t, "block") {
            Ok(Display::Block)
        } else if str_eq(t, "list-item") {
            Ok(Display::ListItem)
        } else if str_eq(t, "run-in") {
            Ok(Display::RunIn)
        } else if str_eq(t, "compact") {
            Ok(Display::Compact)
        } else if str_eq(t, "marker") {
            Ok(Display::Marker)
        } else if str_eq(t, "table") {
            Ok(Display::Table)
        } else if str_eq(t, "inline-table") {
            Ok(Display::InlineTable)
        } else if str_eq(t, "table-row-group") {
            Ok(Display::TableRowGroup)
        } else if str_eq(t, "table-header-group") {
            Ok(Display::TableHeaderGroup)
        } else if str_eq(t, "table-footer-group") {
            Ok(Display::TableFooterGroup)
        } else if str_eq(t, "table-row") {
            Ok(Display::TableRow)
        } else if str_eq(t, "table-column-group") {
            Ok(Display::TableColumnGroup)
        } else if str_eq(t, "table-column") {
            Ok(Display::TableColumn)
        } else if str_eq(t, "table-cell") {
            Ok(Display::TableCell)
        } else if str_eq(t, "table-caption") {
            Ok(Display::TableCaption)
        } else if str_eq(t, "none") {
            Ok(Display::NoDisplay)
        } else {
            Err(AttributeError::invalid_value())
        }
    }
}

impl Default for Display {
    /// The value used when the property is neither specified nor inherited.
    fn default() -> (r: Display)
        ensures
            r == Display::Inline,
    {
        Display::Inline
    }
}

/// Whether a new backdrop is opened for filters. Does not inherit automatically.
#[derive(Clone, Copy, Debug, PartialEq, Eq, Structural)]
pub enum EnableBackground {
    Accumulate,
    New,
}

impl EnableBackground {
    /// The value the trimmed keyword `t` denotes, if any.
    pub open spec fn spec_parse(t: Seq<char>) -> Option<EnableBackground> {
        if t == "accumulate"@ {
            Some(EnableBackground::Accumulate)
        } else if t == "new"@ {
            Some(EnableBackground::New)
        } else {
            Option::None
        }
    }

    /// Parses the keyword, after trimming surrounding white space.
    pub fn parse(s: &str) -> (r: Result<EnableBackground, AttributeError>)
        ensures
            match r {
                Ok(v) => EnableBackground::spec_parse(trimmed(s@)) == Some(v),
                Err(e) => EnableBackground::spec_parse(trimmed(s@)) is None && e.is_invalid_value(),
            },
    {
        let t = trim(s);
        if str_eq(t, "accumulate") {
            Ok(EnableBackground::Accumulate)
        } else if str_eq(t, "new") {
            Ok(EnableBackground::New)
        } else {
            Err(AttributeError::invalid_value())
        }
    }
}

impl Default for EnableBackground {
    /// The value used when the property is neither specified nor inherited.
    fn default() -> (r: EnableBackground)
        ensures
            r == EnableBackground::Accumulate,
    {
        EnableBackground::Accumulate
    }
}

/// What happens to content outside the viewport.
#[derive(Clone, Copy, Debug, PartialEq, Eq, Structural)]
pub enum Overflow {
    Visible,
    Hidden,
    Scroll,
    Auto,
}

impl Overflow {
    /// The value the trimmed keyword `t` denotes, if any.
    pub open spec fn spec_parse(t: Seq<char>) -> Option<Overflow> {
        if t == "visible"@ {
            Some(Overflow::Visible)
        } else if t == "hidden"@ {
            Some(Overflow::Hidden)
        } else if t == "scroll"@ {
            Some(Overflow::Scroll)
        } else if t == "auto"@ {
            Some(Overflow::Auto)
        } else {
            Option::None
        }
    }

    /// Parses the keyword, after trimming surrounding white space.
    pub fn parse(s: &str) -> (r: Result<Overflow, AttributeError>)
        ensures
            match r {
                Ok(v) => Overflow::spec_parse(trimmed(s@)) == Some(v),
                Err(e) => Overflow::spec_parse(trimmed(s@)) is None && e.is_invalid_value(),
            },
    {
        let t = trim(s);
        if str_eq(t, "visible") {
            Ok(Overflow::Visible)
        } else if str_eq(t, "hidden") {
            Ok(Overflow::Hidden)
        } else if str_eq(t, "scroll") {
            Ok(Overflow::Scroll)
        } else if str_eq(t, "auto") {
            Ok(Overflow::Auto)
        } else {
            Err(AttributeError::invalid_value())
        }
    }
}

impl Default for Overflow {
    /// The value used when the property is neither specified nor inherited.
    fn default() -> (r: Overflow)
        ensures
            r == Overflow::Visible,
    {
        Overflow::Visible
    }
}

/// The quality/speed trade-off when rendering shapes.
#[derive(Clone, Copy, Debug, PartialEq, Eq, Structural)]
pub enum ShapeRendering {
    Auto,
    OptimizeSpeed,
    GeometricPrecision,
    CrispEdges,
}

impl ShapeRendering {
    /// The value the trimmed keyword `t` denotes, if any.
    pub open spec fn spec_parse(t: Seq<char>) -> Option<ShapeRendering> {
        if t == "auto"@ {
            Some(ShapeRendering::Auto)
        } else if t == "optimizeSpeed"@ {
            Some(ShapeRendering::OptimizeSpeed)
        } else if t == "geometricPrecision"@ {
            Some(ShapeRendering::GeometricPrecision)
        } else if t == "crispEdges"@ {
            Some(ShapeRendering::CrispEdges)
        } else {
            Option::None
        }
    }

    /// Parses the keyword, after trimming surrounding white space.
    pub fn parse(s: &str) -> (r: Result<ShapeRendering, AttributeError>)
        ensures
            match r {
                Ok(v) => ShapeRendering::spec_parse(trimmed(s@)) == Some(v),
                Err(e) => ShapeRendering::spec_parse(trimmed(s@)) is None && e.is_invalid_value(),
            },
    {
        let t = trim(s);
        if str_eq(t, "auto") {
            Ok(ShapeRendering::Auto)
        } else if str_eq(t, "optimizeSpeed") {
            Ok(ShapeRendering::OptimizeSpeed)
        } else if str_eq(t, "geometricPrecision") {
            Ok(ShapeRendering::GeometricPrecision)
        } else if str_eq(t, "crispEdges") {
            Ok(ShapeRendering::CrispEdges)
        } else {
            Err(AttributeError::invalid_value())
        }
    }
}

impl Default for ShapeRendering {
    /// The value used when the property is neither specified nor inherited.
    fn default() -> (r: ShapeRendering)
        ensures
            r == ShapeRendering::Auto,
    {
        ShapeRendering::Auto
    }
}

/// The shape at the ends of open strokes.
#[derive(Clone, Copy, Debug, PartialEq, Eq, Structural)]
pub enum StrokeLinecap {
    Butt,
    Round,
    Square,
}

impl StrokeLinecap {
    /// The value the trimmed keyword `t` denotes, if any.
    pub open spec fn spec_parse(t: Seq<char>) -> Option<StrokeLinecap> {
        if t == "butt"@ {
            Some(StrokeLinecap::Butt)
        } else if t == "round"@ {
            Some(StrokeLinecap::Round)
        } else if t == "square"@ {
            Some(StrokeLinecap::Square)
        } else {
            Option::None
        }
    }

    /// Parses the keyword, after trimming surrounding white space.
    pub fn parse(s: &str) -> (r: Result<StrokeLinecap, AttributeError>)
        ensures
            match r {
                Ok(v) => StrokeLinecap::spec_parse(trimmed(s@)) == Some(v),
                Err(e) => StrokeLinecap::spec_parse(trimmed(s@)) is None && e.is_invalid_value(),
            },
    {
        let t = trim(s);
        if str_eq(t, "butt") {
            Ok(StrokeLinecap::Butt)
        } else if str_eq(t, "round") {
            Ok(StrokeLinecap::Round)
        } else if str_eq(t, "square") {
            Ok(StrokeLinecap::Square)
        } else {
            Err(AttributeError::invalid_value())
        }
    }
}

impl Default for StrokeLinecap {
    /// The value used when the property is neither specified nor inherited.
    fn default() -> (r: StrokeLinecap)
        ensures
            r == StrokeLinecap::Butt,
    {
        StrokeLinecap::Butt
    }
}

/// The shape at the corners of strokes.
#[derive(Clone, Copy, Debug, PartialEq, Eq, Structural)]
pub enum StrokeLinejoin {
    Miter,
    Round,
    Bevel,
}

impl StrokeLinejoin {
    /// The value the trimmed keyword `t` denotes, if any.
    pub open spec fn spec_parse(t: Seq<char>) -> Option<StrokeLinejoin> {
        if t == "miter"@ {
            Some(StrokeLinejoin::Miter)
        } else if t == "round"@ {
            Some(StrokeLinejoin::Round)
        } else if t == "bevel"@ {
            Some(StrokeLinejoin::Bevel)
        } else {
            Option::None
        }
    }

    /// Parses the keyword, after trimming surrounding white space.
    pub fn parse(s: &str) -> (r: Result<StrokeLinejoin, AttributeError>)
        ensures
            match r {
                Ok(v) => StrokeLinejoin::spec_parse(trimmed(s@)) == Some(v),
                Err(e) => StrokeLinejoin::spec_parse(trimmed(s@)) is None && e.is_invalid_value(),
            },
    {
        let t = trim(s);
        if str_eq(t, "miter") {
            Ok(StrokeLinejoin::Miter)
        } else if str_eq(t, "round") {
            Ok(StrokeLinejoin::Round)
        } else if str_eq(t, "bevel") {
            Ok(StrokeLinejoin::Bevel)
        } else {
            Err(AttributeError::invalid_value())
        }
    }
}

impl Default for StrokeLinejoin {
    /// The value used when the property is neither specified nor inherited.
    fn default() -> (r: StrokeLinejoin)
        ensures
            r == StrokeLinejoin::Miter,
    {
        StrokeLinejoin::Miter
    }
}

/// How a run of text is aligned on its anchor point.
#[derive(Clone, Copy, Debug, PartialEq, Eq, Structural)]
pub enum TextAnchor {
    Start,
    Middle,
    End,
}

impl TextAnchor {
    /// The value the trimmed keyword `t` denotes, if any.
    pub open spec fn spec_parse(t: Seq<char>) -> Option<TextAnchor> {
        if t == "start"@ {
            Some(TextAnchor::Start)
        } else if t == "middle"@ {
            Some(TextAnchor::Middle)
        } else if t == "end"@ {
            Some(TextAnchor::End)
        } else {
            Option::None
        }
    }

    /// Parses the keyword, after trimming surrounding white space.
    pub fn parse(s: &str) -> (r: Result<TextAnchor, AttributeError>)
        ensures
            match r {
                Ok(v) => TextAnchor::spec_parse(trimmed(s@)) == Some(v),
                Err(e) => TextAnchor::spec_parse(trimmed(s@)) is None && e.is_invalid_value(),
            },
    {
        let t = trim(s);
        if str_eq(t, "start") {
            Ok(TextAnchor::Start)
        } else if str_eq(t, "middle") {
            Ok(TextAnchor::Middle)
        } else if str_eq(t, "end") {
            Ok(TextAnchor::End)
        } else {
            Err(AttributeError::invalid_value())
        }
    }
}

impl Default for TextAnchor {
    /// The value used when the property is neither specified nor inherited.
    fn default() -> (r: TextAnchor)
        ensures
            r == TextAnchor::Start,
    {
        TextAnchor::Start
    }
}

/// The quality/speed trade-off when rendering text.
#[derive(Clone, Copy, Debug, PartialEq, Eq, Structural)]
pub enum TextRendering {
    Auto,
    OptimizeSpeed,
    OptimizeLegibility,
    GeometricPrecision,
}

impl TextRendering {
    /// The value the trimmed keyword `t` denotes, if any.
    pub open spec fn spec_parse(t: Seq<char>) -> Option<TextRendering> {
        if t == "auto"@ {
            Some(TextRendering::Auto)
        } else if t == "optimizeSpeed"@ {
            Some(TextRendering::OptimizeSpeed)
        } else if t == "optimizeLegibility"@ {
            Some(TextRendering::OptimizeLegibility)
        } else if t == "geometricPrecision"@ {
            Some(TextRendering::GeometricPrecision)
        } else {
            Option::None
        }
    }

    /// Parses the keyword, after trimming surrounding white space.
    pub fn parse(s: &str) -> (r: Result<TextRendering, AttributeError>)
        ensures
            match r {
                Ok(v) => TextRendering::spec_parse(trimmed(s@)) == Some(v),
                Err(e) => TextRendering::spec_parse(trimmed(s@)) is None && e.is_invalid_value(),
            },
    {
        let t = trim(s);
        if str_eq(t, "auto") {
            Ok(TextRendering::Auto)
        } else if str_eq(t, "optimizeSpeed") {
            Ok(TextRendering::OptimizeSpeed)
        } else if str_eq(t, "optimizeLegibility") {
            Ok(TextRendering::OptimizeLegibility)
        } else if str_eq(t, "geometricPrecision") {
            Ok(TextRendering::GeometricPrecision)
        } else {
            Err(AttributeError::invalid_value())
        }
    }
}

impl Default for TextRendering {
    /// The value used when the property is neither specified nor inherited.
    fn default() -> (r: TextRendering)
        ensures
            r == TextRendering::Auto,
    {
        TextRendering::Auto
    }
}

/// How the element interacts with bidirectional text.
#[derive(Clone, Copy, Debug, PartialEq, Eq, Structural)]
pub enum UnicodeBidi {
    Normal,
    Embed,
    Override,
}

impl UnicodeBidi {
    /// The value the trimmed keyword `t` denotes, if any.
    pub open spec fn spec_parse(t: Seq<char>) -> Option<UnicodeBidi> {
        if t == "normal"@ {
            Some(UnicodeBidi::Normal)
        } else if t == "embed"@ {
            Some(UnicodeBidi::Embed)
        } else if t == "bidi-override"@ {
            Some(UnicodeBidi::Override)
        } else {
            Option::None
        }
    }

    /// Parses the keyword, after trimming surrounding white space.
    pub fn parse(s: &str) -> (r: Result<UnicodeBidi, AttributeError>)
        ensures
            match r {
                Ok(v) => UnicodeBidi::spec_parse(trimmed(s@)) == Some(v),
                Err(e) => UnicodeBidi::spec_parse(trimmed(s@)) is None && e.is_invalid_value(),
            },
    {
        let t = trim(s);
        if str_eq(t, "normal") {
            Ok(UnicodeBidi::Normal)
        } else if str_eq(t, "embed") {
            Ok(UnicodeBidi::Embed)
        } else if str_eq(t, "bidi-override") {
            Ok(UnicodeBidi::Override)
        } else {
            Err(AttributeError::invalid_value())
        }
    }
}

impl Default for UnicodeBidi {
    /// The value used when the property is neither specified nor inherited.
    fn default() -> (r: UnicodeBidi)
        ensures
            r == UnicodeBidi::Normal,
    {
        UnicodeBidi::Normal
    }
}

/// Whether the element is painted.
#[derive(Clone, Copy, Debug, PartialEq, Eq, Structural)]
pub enum Visibility {
    Visible,
    Hidden,
    Collapse,
}

impl Visibility {
    /// The value the trimmed keyword `t` denotes, if any.
    pub open spec fn spec_parse(t: Seq<char>) -> Option<Visibility> {
        if t == "visible"@ {
            Some(Visibility::Visible)
        } else if t == "hidden"@ {
            Some(Visibility::Hidden)
        } else if t == "collapse"@ {
            Some(Visibility::Collapse)
        } else {
            Option::None
        }
    }

    /// Parses the keyword, after trimming surrounding white space.
    pub fn parse(s: &str) -> (r: Result<Visibility, AttributeError>)
        ensures
            match r {
                Ok(v) => Visibility::spec_parse(trimmed(s@)) == Some(v),
                Err(e) => Visibility::spec_parse(trimmed(s@)) is None && e.is_invalid_value(),
            },
    {
        let t = trim(s);
        if str_eq(t, "visible") {
            Ok(Visibility::Visible)
        } else if str_eq(t, "hidden") {
            Ok(Visibility::Hidden)
        } else if str_eq(t, "collapse") {
            Ok(Visibility::Collapse)
        } else {
            Err(AttributeError::invalid_value())
        }
    }
}

impl Default for Visibility {
    /// The value used when the property is neither specified nor inherited.
    fn default() -> (r: Visibility)
        ensures
            r == Visibility::Visible,
    {
        Visibility::Visible
    }
}

/// How white space inside the element is handled.
#[derive(Clone, Copy, Debug, PartialEq, Eq, Structural)]
pub enum XmlSpace {
    Default,
    Preserve,
}

impl XmlSpace {
    /// The value the trimmed keyword `t` denotes, if any.
    pub open spec fn spec_parse(t: Seq<char>) -> Option<XmlSpace> {
        if t == "default"@ {
            Some(XmlSpace::Default)
        } else if t == "preserve"@ {
            Some(XmlSpace::Preserve)
        } else {
            Option::None
        }
    }

    /// Parses the keyword, after trimming surrounding white space.
    pub fn parse(s: &str) -> (r: Result<XmlSpace, AttributeError>)
        ensures
            match r {
                Ok(v) => XmlSpace::spec_parse(trimmed(s@)) == Some(v),
                Err(e) => XmlSpace::spec_parse(trimmed(s@)) is None && e.is_invalid_value(),
            },
    {
        let t = trim(s);
        if str_eq(t, "default") {
            Ok(XmlSpace::Default)
        } else if str_eq(t, "preserve") {
            Ok(XmlSpace::Preserve)
        } else {
            Err(AttributeError::invalid_value())
        }
    }
}

impl Default for XmlSpace {
    /// The value used when the property is neither specified nor inherited.
    fn default() -> (r: XmlSpace)
        ensures
            r == XmlSpace::Default,
    {
        XmlSpace::Default
    }
}

/// A baseline shift, as the fraction of the parent's font size to move by.
#[derive(Clone, Copy, Debug, PartialEq, Eq, Structural)]
pub struct BaselineShift(pub Ratio);

impl BaselineShift {
    /// The shift ratio the trimmed keyword `t` denotes, if any: no shift,
    /// one fifth of the parent font size down, or two fifths up.
    pub open spec fn spec_parse(t: Seq<char>) -> Option<(int, int)> {
        if t == "baseline"@ {
            Some((0int, 1int))
        } else if t == "sub"@ {
            Some((-1int, 5int))
        } else if t == "super"@ {
            Some((2int, 5int))
        } else {
            Option::None
        }
    }

    /// Parses the keyword, after trimming surrounding white space.
    pub fn parse(s: &str) -> (r: Result<BaselineShift, AttributeError>)
        ensures
            match r {
                Ok(v) => v.0.wf() && BaselineShift::spec_parse(trimmed(s@)) == Some(rat(v.0)),
                Err(e) => BaselineShift::spec_parse(trimmed(s@)) is None && e.is_invalid_value(),
            },
    {
        let t = trim(s);
        if str_eq(t, "baseline") {
            Ok(BaselineShift(Ratio::new(0, 1)))
        } else if str_eq(t, "sub") {
            Ok(BaselineShift(Ratio::new(-1, 5)))
        } else if str_eq(t, "super") {
            Ok(BaselineShift(Ratio::new(2, 5)))
        } else {
            Err(AttributeError::invalid_value())
        }
    }
}

impl Default for BaselineShift {
    /// No shift.
    fn default() -> (r: BaselineShift)
        ensures
            r.0.wf(),
            rat(r.0) == (0int, 1int),
    {
        BaselineShift(Ratio::from_int(0))
    }
}

/// The font family, as written.
#[derive(Clone, Debug)]
pub struct FontFamily(pub String);

impl FontFamily {
    /// Takes the whole value as the family name. Never fails.
    pub fn parse(s: &str) -> (r: Result<FontFamily, AttributeError>)
        ensures
            r is Ok && r->Ok_0.0@ == s@,
    {
        Ok(FontFamily(String::from_str(s)))
    }
}

impl Default for FontFamily {
    /// The stock serif family.
    fn default() -> (r: FontFamily)
        ensures
            r.0@ == "Times New Roman"@,
    {
        FontFamily(String::from_str("Times New Roman"))
    }
}

/// The font size, as a length.
#[derive(Clone, Copy, Debug, PartialEq, Eq, Structural)]
pub struct FontSize(pub Length);

impl FontSize {
    /// Parses a length, resolved against both axes.
    pub fn parse(s: &str, dir: LengthDir) -> (r: Result<FontSize, AttributeError>)
        ensures
            match r {
                Ok(v) => {
                    &&& crate::length::length_value(trimmed(s@)) is Some
                    &&& crate::length::length_fits(trimmed(s@))
                    &&& v.0.wf()
                    &&& v.0.dir == dir
                    &&& v.0.unit == crate::length::length_value(trimmed(s@))->Some_0.1
                    &&& rat(v.0.length) == crate::length::length_value(trimmed(s@))->Some_0.0
                },
                Err(e) => {
                    &&& (crate::length::length_value(trimmed(s@)) is None
                        || !crate::length::length_fits(trimmed(s@)))
                    &&& e.is_invalid_value()
                },
            },
    {
        match Length::parse(s, dir) {
            Ok(l) => Ok(FontSize(l)),
            Err(e) => Err(e),
        }
    }
}

impl Default for FontSize {
    /// Twelve user units.
    fn default() -> (r: FontSize)
        ensures
            r.0.wf(),
            rat(r.0.length) == (12int, 1int),
            r.0.unit == LengthUnit::Default,
            r.0.dir == LengthDir::Both,
    {
        FontSize(
            Length {
                length: Ratio::from_int(12),
                unit: LengthUnit::Default,
                dir: LengthDir::Both,
            },
        )
    }
}

/// Extra spacing between characters, as a length.
#[derive(Clone, Copy, Debug, PartialEq, Eq, Structural)]
pub struct LetterSpacing(pub Length);

impl LetterSpacing {
    /// Parses a length.
    pub fn parse(s: &str, dir: LengthDir) -> (r: Result<LetterSpacing, AttributeError>)
        ensures
            match r {
                Ok(v) => {
                    &&& crate::length::length_value(trimmed(s@)) is Some
                    &&& crate::length::length_fits(trimmed(s@))
                    &&& v.0.wf()
                    &&& v.0.dir == dir
                    &&& v.0.unit == crate::length::length_value(trimmed(s@))->Some_0.1
                    &&& rat(v.0.length) == crate::length::length_value(trimmed(s@))->Some_0.0
                },
                Err(e) => {
                    &&& (crate::length::length_value(trimmed(s@)) is None
                        || !crate::length::length_fits(trimmed(s@)))
                    &&& e.is_invalid_value()
                },
            },
    {
        match Length::parse(s, dir) {
            Ok(l) => Ok(LetterSpacing(l)),
            Err(e) => Err(e),
        }
    }
}

impl Default for LetterSpacing {
    /// No extra spacing.
    fn default() -> (r: LetterSpacing)
        ensures
            r.0.wf(),
            rat(r.0.length) == (0int, 1int),
            r.0.unit == LengthUnit::Default,
    {
        LetterSpacing(Length::default())
    }
}

/// The limit on the ratio of miter length to stroke width.
#[derive(Clone, Copy, Debug, PartialEq, Eq, Structural)]
pub struct StrokeMiterlimit(pub Ratio);

impl StrokeMiterlimit {
    /// Parses a bare number.
    pub fn parse(s: &str) -> (r: Result<StrokeMiterlimit, AttributeError>)
        ensures
            match r {
                Ok(v) => {
                    &&& number_value(trimmed(s@)) is Some
                    &&& number_fits(trimmed(s@))
                    &&& v.0.wf()
                    &&& rat(v.0) == number_value(trimmed(s@))->Some_0
                },
                Err(e) => {
                    &&& (number_value(trimmed(s@)) is None || !number_fits(trimmed(s@)))
                    &&& e.is_invalid_value()
                },
            },
    {
        match crate::length::parse_number(s) {
            Ok(v) => Ok(StrokeMiterlimit(v)),
            Err(e) => Err(e),
        }
    }
}

impl Default for StrokeMiterlimit {
    /// A limit of four.
    fn default() -> (r: StrokeMiterlimit)
        ensures
            r.0.wf(),
            rat(r.0) == (4int, 1int),
    {
        StrokeMiterlimit(Ratio::from_int(4))
    }
}

/// The width strokes are drawn with, as a length.
#[derive(Clone, Copy, Debug, PartialEq, Eq, Structural)]
pub struct StrokeWidth(pub Length);

impl StrokeWidth {
    /// Parses a length.
    pub fn parse(s: &str, dir: LengthDir) -> (r: Result<StrokeWidth, AttributeError>)
        ensures
            match r {
                Ok(v) => {
                    &&& crate::length::length_value(trimmed(s@)) is Some
                    &&& crate::length::length_fits(trimmed(s@))
                    &&& v.0.wf()
                    &&& v.0.dir == dir
                    &&& v.0.unit == crate::length::length_value(trimmed(s@))->Some_0.1
                    &&& rat(v.0.length) == crate::length::length_value(trimmed(s@))->Some_0.0
                },
                Err(e) => {
                    &&& (crate::length::length_value(trimmed(s@)) is None
                        || !crate::length::length_fits(trimmed(s@)))
                    &&& e.is_invalid_value()
                },
            },
    {
        match Length::parse(s, dir) {
            Ok(l) => Ok(StrokeWidth(l)),
            Err(e) => Err(e),
        }
    }
}

impl Default for StrokeWidth {
    /// One user unit.
    fn default() -> (r: StrokeWidth)
        ensures
            r.0.wf(),
            rat(r.0.length) == (1int, 1int),
            r.0.unit == LengthUnit::Default,
            r.0.dir == LengthDir::Both,
    {
        StrokeWidth(
            Length {
                length: Ratio::from_int(1),
                unit: LengthUnit::Default,
                dir: LengthDir::Both,
            },
        )
    }
}

/// The decoration lines drawn with text.
#[derive(Clone, Copy, Debug, PartialEq, Eq, Structural)]
pub struct TextDecoration {
    pub overline: bool,
    pub underline: bool,
    pub strike: bool,
}

impl TextDecoration {
    /// Reads the decoration flags from anywhere in the value: each flag is
    /// set exactly when its keyword occurs in the string. Never fails.
    pub fn parse(s: &str) -> (r: Result<TextDecoration, AttributeError>)
        ensures
            r is Ok,
            r->Ok_0.overline == contains_seq(s@, "overline"@),
            r->Ok_0.underline == contains_seq(s@, "underline"@),
            r->Ok_0.strike == (contains_seq(s@, "strike"@) || contains_seq(
                s@,
                "line-through"@,
            )),
    {
        Ok(
            TextDecoration {
                overline: str_contains(s, "overline"),
                underline: str_contains(s, "underline"),
                strike: str_contains(s, "strike") || str_contains(s, "line-through"),
            },
        )
    }
}

impl Default for TextDecoration {
    /// No decoration.
    fn default() -> (r: TextDecoration)
        ensures
            !r.overline && !r.underline && !r.strike,
    {
        TextDecoration { overline: false, underline: false, strike: false }
    }
}

/// The language of the element's content, as written.
#[derive(Clone, Debug)]
pub struct XmlLang(pub String);

impl XmlLang {
    /// Takes the whole value as the language tag. Never fails.
    pub fn parse(s: &str) -> (r: Result<XmlLang, AttributeError>)
        ensures
            r is Ok && r->Ok_0.0@ == s@,
    {
        Ok(XmlLang(String::from_str(s)))
    }
}

impl Default for XmlLang {
    /// The portable locale.
    fn default() -> (r: XmlLang)
        ensures
            r.0@ == "C"@,
    {
        XmlLang(String::from_str("C"))
    }
}

} // verus!
