//! The attributes an element may carry. The cascade recognises the
//! presentation attributes; the others pass through untouched and are left
//! to element-specific handling.

use vstd::prelude::*;

verus! {

/// An attribute name, as a closed enumeration.
#[derive(Clone, Copy, Debug, PartialEq, Eq, Structural)]
pub enum Attribute {
    BaselineShift,
    Class,
    ClipRule,
    CompOp,
    Cx,
    Cy,
    D,
    Display,
    EnableBackground,
    FillRule,
    FontFamily,
    FontSize,
    FontStretch,
    FontStyle,
    FontVariant,
    FontWeight,
    Height,
    Id,
    LetterSpacing,
    Overflow,
    Points,
    R,
    ShapeRendering,
    StrokeLinecap,
    StrokeLinejoin,
    StrokeMiterlimit,
    StrokeWidth,
    Style,
    TextAnchor,
    TextDecoration,
    TextRendering,
    Transform,
    UnicodeBidi,
    Visibility,
    Width,
    X,
    XmlLang,
    XmlSpace,
    Y,
}

} // verus!
