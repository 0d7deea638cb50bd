use rsvg_internals::attributes::Attribute;
use rsvg_internals::length::{Length, LengthDir, LengthUnit};
use rsvg_internals::property::{
    BaselineShift, ClipRule, CompOp, Display, FontFamily, FontWeight, StrokeMiterlimit,
    TextDecoration, Visibility, XmlSpace,
};
use rsvg_internals::ratio::Ratio;
use rsvg_internals::state;

#[test]
fn keyword_parsers_accept_their_keywords() {
    assert_eq!(ClipRule::parse("nonzero").unwrap(), ClipRule::NonZero);
    assert_eq!(ClipRule::parse("evenodd").unwrap(), ClipRule::EvenOdd);
    assert_eq!(ClipRule::parse("  evenodd\n").unwrap(), ClipRule::EvenOdd);
    assert_eq!(CompOp::parse("color-burn").unwrap(), CompOp::ColorBurn);
    assert_eq!(CompOp::parse("src-over").unwrap(), CompOp::SrcOver);
    assert_eq!(FontWeight::parse("700").unwrap(), FontWeight::W700);
    assert_eq!(Display::parse("none").unwrap(), Display::NoDisplay);
    assert_eq!(Visibility::parse("collapse").unwrap(), Visibility::Collapse);
}

#[test]
fn keyword_parsers_reject_everything_else() {
    assert!(ClipRule::parse("NonZero").is_err());
    assert!(ClipRule::parse("").is_err());
    assert!(CompOp::parse("srcover").is_err());
    assert!(Visibility::parse("maybe").is_err());
}

#[test]
fn length_parse_reads_plain_numbers_exactly() {
    let l = Length::parse("12.0", LengthDir::Both).unwrap();
    assert_eq!(l.unit, LengthUnit::Default);
    assert_eq!(l.length.num, 120);
    assert_eq!(l.length.den, 10);
    assert!(l.length.same_value(Ratio::from_int(12)));

    let l = Length::parse("-0.5", LengthDir::Both).unwrap();
    assert!(l.length.same_value(Ratio::new(-1, 2)));

    let l = Length::parse(" +3 ", LengthDir::Both).unwrap();
    assert!(l.length.same_value(Ratio::from_int(3)));
}

#[test]
fn length_parse_reads_units() {
    let l = Length::parse("50%", LengthDir::Both).unwrap();
    assert_eq!(l.unit, LengthUnit::Percent);
    assert!(l.length.same_value(Ratio::new(1, 2)));

    let l = Length::parse("2em", LengthDir::Horizontal).unwrap();
    assert_eq!(l.unit, LengthUnit::FontEm);
    assert_eq!(l.dir, LengthDir::Horizontal);
    assert!(l.length.same_value(Ratio::from_int(2)));

    let l = Length::parse("1ex", LengthDir::Both).unwrap();
    assert_eq!(l.unit, LengthUnit::FontEx);

    let l = Length::parse("10px", LengthDir::Both).unwrap();
    assert_eq!(l.unit, LengthUnit::Default);

    // Points, picas, centimetres and millimetres become inches exactly.
    let l = Length::parse("72pt", LengthDir::Both).unwrap();
    assert_eq!(l.unit, LengthUnit::Inch);
    assert!(l.length.same_value(Ratio::from_int(1)));

    let l = Length::parse("6pc", LengthDir::Both).unwrap();
    assert!(l.length.same_value(Ratio::from_int(1)));

    let l = Length::parse("2.54cm", LengthDir::Both).unwrap();
    assert_eq!(l.unit, LengthUnit::Inch);
    assert!(l.length.same_value(Ratio::from_int(1)));

    let l = Length::parse("25.4mm", LengthDir::Both).unwrap();
    assert!(l.length.same_value(Ratio::from_int(1)));
}

#[test]
fn length_parse_reads_relative_keywords() {
    let l = Length::parse("larger", LengthDir::Both).unwrap();
    assert_eq!(l.unit, LengthUnit::RelativeLarger);
    let l = Length::parse(" smaller ", LengthDir::Both).unwrap();
    assert_eq!(l.unit, LengthUnit::RelativeSmaller);
}

#[test]
fn length_parse_rejects_malformed_input() {
    assert!(Length::parse("", LengthDir::Both).is_err());
    assert!(Length::parse("abc", LengthDir::Both).is_err());
    assert!(Length::parse(".", LengthDir::Both).is_err());
    assert!(Length::parse("12..3", LengthDir::Both).is_err());
    assert!(Length::parse("1e3", LengthDir::Both).is_err());
    assert!(Length::parse("12 px", LengthDir::Both).is_err());
    assert!(Length::parse("%", LengthDir::Both).is_err());
    // A numerator too large for the representation is rejected, not bent.
    assert!(Length::parse("99999999999999999999", LengthDir::Both).is_err());
}

#[test]
fn miterlimit_parses_bare_numbers_only() {
    let m = StrokeMiterlimit::parse("4").unwrap();
    assert!(m.0.same_value(Ratio::from_int(4)));
    let m = StrokeMiterlimit::parse("+3.5").unwrap();
    assert!(m.0.same_value(Ratio::new(7, 2)));
    assert!(StrokeMiterlimit::parse("4px").is_err());
}

#[test]
fn baseline_shift_keywords() {
    assert!(BaselineShift::parse("baseline").unwrap().0.same_value(Ratio::from_int(0)));
    assert!(BaselineShift::parse("sub").unwrap().0.same_value(Ratio::new(-1, 5)));
    assert!(BaselineShift::parse("super").unwrap().0.same_value(Ratio::new(2, 5)));
    assert!(BaselineShift::parse("0.4").is_err());
}

#[test]
fn text_decoration_reads_flags_anywhere() {
    let d = TextDecoration::parse("underline line-through").unwrap();
    assert!(!d.overline);
    assert!(d.underline);
    assert!(d.strike);
    let d = TextDecoration::parse("overline").unwrap();
    assert!(d.overline);
    assert!(!d.underline);
    assert!(!d.strike);
    let d = TextDecoration::parse("none").unwrap();
    assert!(!d.overline && !d.underline && !d.strike);
}

#[test]
fn font_family_takes_the_whole_value() {
    let f = FontFamily::parse("DejaVu Sans, sans-serif").unwrap();
    assert_eq!(f.0, "DejaVu Sans, sans-serif");
}

#[test]
fn style_pair_inherit_clears_the_slot() {
    let mut st = state::new();
    st.parse_style_pair(Attribute::ClipRule, "evenodd").unwrap();
    assert_eq!(st.clip_rule, Some(ClipRule::EvenOdd));

    st.parse_style_pair(Attribute::ClipRule, "inherit").unwrap();
    assert!(st.clip_rule.is_none());

    st.parse_style_pair(Attribute::FontSize, "inherit").unwrap();
    assert!(st.font_size.is_none());
}

#[test]
fn style_pair_rejects_bad_values_and_keeps_state() {
    let mut st = state::new();
    st.parse_style_pair(Attribute::Visibility, "hidden").unwrap();
    assert!(st.parse_style_pair(Attribute::Visibility, "sometimes").is_err());
    assert_eq!(st.visibility, Some(Visibility::Hidden));
}

#[test]
fn xml_space_has_no_inherit_value() {
    let mut st = state::new();
    st.parse_style_pair(Attribute::XmlSpace, "preserve").unwrap();
    assert_eq!(st.xml_space, Some(XmlSpace::Preserve));
    // xml:space is not a presentation property, so `inherit` is just an
    // unknown keyword for it.
    assert!(st.parse_style_pair(Attribute::XmlSpace, "inherit").is_err());
}

#[test]
fn unrecognized_attributes_change_nothing() {
    let mut st = state::new();
    st.parse_style_pair(Attribute::D, "M 0 0 L 1 1").unwrap();
    assert!(st.same_as(&state::new()));
}
