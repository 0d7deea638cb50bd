//! The cascade state: the fixed set of presentation properties an element
//! may specify, the accumulated transform, and the four rules by which a
//! state is combined with another during cascading.
//!
//! A property slot holds `None` when the element does not specify the
//! property; the cascade then inherits it or falls back to the property's
//! default. The combination rules differ only in when a slot is taken from
//! the source state; `run_inherit` states each resulting slot exactly.

use vstd::prelude::*;
use vstd::string::StringExecFns;

use crate::attributes::Attribute;
use crate::error::AttributeError;
use crate::length::{
    length_fits, length_value, number_fits, number_value, Length, LengthDir,
};
use crate::matrix::Matrix;
use crate::property::{
    BaselineShift, ClipRule, CompOp, Display, EnableBackground, FillRule, FontFamily, FontSize,
    FontStretch, FontStyle, FontVariant, FontWeight, LetterSpacing, Overflow, ShapeRendering,
    StrokeLinecap, StrokeLinejoin, StrokeMiterlimit, StrokeWidth, TextAnchor, TextDecoration,
    TextRendering, UnicodeBidi, Visibility, XmlLang, XmlSpace,
};
use crate::ratio::Ratio;
use crate::text::{contains_seq, str_eq, trim, trimmed};

verus! {

/// The state of the presentation properties, together with the accumulated
/// affine transform. Stored immutably on each node as its specified
/// properties, and mutably on the drawing context's stack while cascading.
#[derive(Debug)]
pub struct State {
    pub affine: Matrix,

    pub baseline_shift: Option<BaselineShift>,
    pub clip_rule: Option<ClipRule>,
    pub comp_op: Option<CompOp>,
    pub fill_rule: Option<FillRule>,
    pub font_family: Option<FontFamily>,
    pub font_size: Option<FontSize>,
    pub font_stretch: Option<FontStretch>,
    pub font_style: Option<FontStyle>,
    pub font_variant: Option<FontVariant>,
    pub font_weight: Option<FontWeight>,
    pub display: Option<Display>,
    pub enable_background: Option<EnableBackground>,
    pub letter_spacing: Option<LetterSpacing>,
    pub overflow: Option<Overflow>,
    pub shape_rendering: Option<ShapeRendering>,
    pub stroke_line_cap: Option<StrokeLinecap>,
    pub stroke_line_join: Option<StrokeLinejoin>,
    pub stroke_miterlimit: Option<StrokeMiterlimit>,
    pub stroke_width: Option<StrokeWidth>,
    pub text_anchor: Option<TextAnchor>,
    pub text_decoration: Option<TextDecoration>,
    pub text_rendering: Option<TextRendering>,
    pub unicode_bidi: Option<UnicodeBidi>,
    pub visibility: Option<Visibility>,
    pub xml_lang: Option<XmlLang>,
    pub xml_space: Option<XmlSpace>,
}

impl State {
    /// Every held value is well-formed.
    pub open spec fn wf(self) -> bool {
        &&& self.affine.wf()
        &&& (self.baseline_shift matches Some(b) ==> b.0.wf())
        &&& (self.font_size matches Some(f) ==> f.0.wf())
        &&& (self.letter_spacing matches Some(l) ==> l.0.wf())
        &&& (self.stroke_miterlimit matches Some(m) ==> m.0.wf())
        &&& (self.stroke_width matches Some(w) ==> w.0.wf())
    }

    /// No property specified, and the identity transform.
    pub open spec fn is_initial(self) -> bool {
        &&& crate::matrix::is_identity(self.affine)

        &&& self.baseline_shift is None
        &&& self.clip_rule is None
        &&& self.comp_op is None
        &&& self.fill_rule is None
        &&& self.font_family is None
        &&& self.font_size is None
        &&& self.font_stretch is None
        &&& self.font_style is None
        &&& self.font_variant is None
        &&& self.font_weight is None
        &&& self.display is None
        &&& self.enable_background is None
        &&& self.letter_spacing is None
        &&& self.overflow is None
        &&& self.shape_rendering is None
        &&& self.stroke_line_cap is None
        &&& self.stroke_line_join is None
        &&& self.stroke_miterlimit is None
        &&& self.stroke_width is None
        &&& self.text_anchor is None
        &&& self.text_decoration is None
        &&& self.text_rendering is None
        &&& self.unicode_bidi is None
        &&& self.visibility is None
        &&& self.xml_lang is None
        &&& self.xml_space is None
    }
}

fn clone_opt_family(v: &Option<FontFamily>) -> (r: Option<FontFamily>)
    ensures
        r == *v,
{
    match v {
        Option::Some(f) => Option::Some(FontFamily(f.0.clone())),
        Option::None => Option::None,
    }
}

fn clone_opt_lang(v: &Option<XmlLang>) -> (r: Option<XmlLang>)
    ensures
        r == *v,
{
    match v {
        Option::Some(l) => Option::Some(XmlLang(l.0.clone())),
        Option::None => Option::None,
    }
}

impl Clone for State {
    /// An exact copy.
    fn clone(&self) -> (r: State)
        ensures
            r == *self,
    {
        State {
            affine: self.affine,

            baseline_shift: self.baseline_shift,
            clip_rule: self.clip_rule,
            comp_op: self.comp_op,
            fill_rule: self.fill_rule,
            font_family: clone_opt_family(&self.font_family),
            font_size: self.font_size,
            font_stretch: self.font_stretch,
            font_style: self.font_style,
            font_variant: self.font_variant,
            font_weight: self.font_weight,
            display: self.display,
            enable_background: self.enable_background,
            letter_spacing: self.letter_spacing,
            overflow: self.overflow,
            shape_rendering: self.shape_rendering,
            stroke_line_cap: self.stroke_line_cap,
            stroke_line_join: self.stroke_line_join,
            stroke_miterlimit: self.stroke_miterlimit,
            stroke_width: self.stroke_width,
            text_anchor: self.text_anchor,
            text_decoration: self.text_decoration,
            text_rendering: self.text_rendering,
            unicode_bidi: self.unicode_bidi,
            visibility: self.visibility,
            xml_lang: clone_opt_lang(&self.xml_lang),
            xml_space: self.xml_space,
        }
    }
}


/// The fresh frame a new cascade level starts from: no property
/// specified, the identity transform.
pub open spec fn initial_frame() -> State {
    State {
        affine: Matrix {
            xx: Ratio { num: 1, den: 1 },
            yx: Ratio { num: 0, den: 1 },
            xy: Ratio { num: 0, den: 1 },
            yy: Ratio { num: 1, den: 1 },
            x0: Ratio { num: 0, den: 1 },
            y0: Ratio { num: 0, den: 1 },
        },
        baseline_shift: Option::None,
        clip_rule: Option::None,
        comp_op: Option::None,
        fill_rule: Option::None,
        font_family: Option::None,
        font_size: Option::None,
        font_stretch: Option::None,
        font_style: Option::None,
        font_variant: Option::None,
        font_weight: Option::None,
        display: Option::None,
        enable_background: Option::None,
        letter_spacing: Option::None,
        overflow: Option::None,
        shape_rendering: Option::None,
        stroke_line_cap: Option::None,
        stroke_line_join: Option::None,
        stroke_miterlimit: Option::None,
        stroke_width: Option::None,
        text_anchor: Option::None,
        text_decoration: Option::None,
        text_rendering: Option::None,
        unicode_bidi: Option::None,
        visibility: Option::None,
        xml_lang: Option::None,
        xml_space: Option::None,
    }
}

/// A fresh state: no property specified, the identity transform.
pub fn new() -> (r: State)
    ensures
        r.wf(),
        r.is_initial(),
        r == initial_frame(),
{
    State {
        affine: Matrix::identity(),

        baseline_shift: Option::None,
        clip_rule: Option::None,
        comp_op: Option::None,
        fill_rule: Option::None,
        font_family: Option::None,
        font_size: Option::None,
        font_stretch: Option::None,
        font_style: Option::None,
        font_variant: Option::None,
        font_weight: Option::None,
        display: Option::None,
        enable_background: Option::None,
        letter_spacing: Option::None,
        overflow: Option::None,
        shape_rendering: Option::None,
        stroke_line_cap: Option::None,
        stroke_line_join: Option::None,
        stroke_miterlimit: Option::None,
        stroke_width: Option::None,
        text_anchor: Option::None,
        text_decoration: Option::None,
        text_rendering: Option::None,
        unicode_bidi: Option::None,
        visibility: Option::None,
        xml_lang: Option::None,
        xml_space: Option::None,
    }
}

/// Resets a state to the fresh state.
pub fn reinit(state: &mut State)
    ensures
        final(state).wf(),
        final(state).is_initial(),
{
    *state = new();
}

/// Replaces a state wholesale, transform included.
pub fn clone_from(state: &mut State, src: &State)
    ensures
        *final(state) == *src,
{
    *state = src.clone();
}

/// Which cascade rule decides when a property slot is taken from the
/// source state rather than kept.
#[derive(Clone, Copy, Debug, PartialEq, Eq, Structural)]
pub enum InheritControl {
    /// Take the source value only where this state leaves the slot unset.
    Reinherit,
    /// Take the source value where it is set, or where this slot is unset:
    /// an explicit source value wins over an already-resolved one.
    Dominate,
    /// Always take the source value.
    Force,
    /// Take the source value exactly where the source sets it.
    Inherit,
}

/// Whether a slot is taken from the source, given which of the two slots
/// are set.
pub open spec fn takes_from_src(ctl: InheritControl, dst_set: bool, src_set: bool) -> bool {
    match ctl {
        InheritControl::Reinherit => !dst_set,
        InheritControl::Dominate => !dst_set || src_set,
        InheritControl::Force => true,
        InheritControl::Inherit => src_set,
    }
}

fn takes_from_src_exec(ctl: InheritControl, dst_set: bool, src_set: bool) -> (r: bool)
    ensures
        r == takes_from_src(ctl, dst_set, src_set),
{
    match ctl {
        InheritControl::Reinherit => !dst_set,
        InheritControl::Dominate => !dst_set || src_set,
        InheritControl::Force => true,
        InheritControl::Inherit => src_set,
    }
}

/// The slot that results from combining `dst` with `src` under `ctl`.
pub open spec fn inherit_slot<T>(ctl: InheritControl, dst: Option<T>, src: Option<T>) -> Option<
    T,
> {
    if takes_from_src(ctl, dst is Some, src is Some) {
        src
    } else {
        dst
    }
}

/// The state that results from running a cascade rule over every
/// auto-inheriting property slot. The transform is never touched; the two
/// properties that do not inherit automatically (the compositing operator
/// and the backdrop mode) are taken from the source exactly when
/// `inherit_unheritables` says so.
pub open spec fn run_inherit(
    dst: State,
    src: State,
    ctl: InheritControl,
    inherit_unheritables: bool,
) -> State {
    State {
        affine: dst.affine,
        comp_op: if inherit_unheritables {
            src.comp_op
        } else {
            dst.comp_op
        },
        enable_background: if inherit_unheritables {
            src.enable_background
        } else {
            dst.enable_background
        },

        baseline_shift: inherit_slot(ctl, dst.baseline_shift, src.baseline_shift),
        clip_rule: inherit_slot(ctl, dst.clip_rule, src.clip_rule),
        fill_rule: inherit_slot(ctl, dst.fill_rule, src.fill_rule),
        font_family: inherit_slot(ctl, dst.font_family, src.font_family),
        font_size: inherit_slot(ctl, dst.font_size, src.font_size),
        font_stretch: inherit_slot(ctl, dst.font_stretch, src.font_stretch),
        font_style: inherit_slot(ctl, dst.font_style, src.font_style),
        font_variant: inherit_slot(ctl, dst.font_variant, src.font_variant),
        font_weight: inherit_slot(ctl, dst.font_weight, src.font_weight),
        display: inherit_slot(ctl, dst.display, src.display),
        letter_spacing: inherit_slot(ctl, dst.letter_spacing, src.letter_spacing),
        overflow: inherit_slot(ctl, dst.overflow, src.overflow),
        shape_rendering: inherit_slot(ctl, dst.shape_rendering, src.shape_rendering),
        stroke_line_cap: inherit_slot(ctl, dst.stroke_line_cap, src.stroke_line_cap),
        stroke_line_join: inherit_slot(ctl, dst.stroke_line_join, src.stroke_line_join),
        stroke_miterlimit: inherit_slot(ctl, dst.stroke_miterlimit, src.stroke_miterlimit),
        stroke_width: inherit_slot(ctl, dst.stroke_width, src.stroke_width),
        text_anchor: inherit_slot(ctl, dst.text_anchor, src.text_anchor),
        text_decoration: inherit_slot(ctl, dst.text_decoration, src.text_decoration),
        text_rendering: inherit_slot(ctl, dst.text_rendering, src.text_rendering),
        unicode_bidi: inherit_slot(ctl, dst.unicode_bidi, src.unicode_bidi),
        visibility: inherit_slot(ctl, dst.visibility, src.visibility),
        xml_lang: inherit_slot(ctl, dst.xml_lang, src.xml_lang),
        xml_space: inherit_slot(ctl, dst.xml_space, src.xml_space),
    }
}

/// Combines one property slot under a cascade rule.
fn slot_combine<T: Copy>(ctl: InheritControl, dst: Option<T>, src: Option<T>) -> (r: Option<T>)
    ensures
        r == inherit_slot(ctl, dst, src),
{
    if takes_from_src_exec(ctl, dst.is_some(), src.is_some()) {
        src
    } else {
        dst
    }
}

fn slot_combine_family(ctl: InheritControl, dst: &Option<FontFamily>, src: &Option<FontFamily>) -> (r: Option<FontFamily>)
    ensures
        r == inherit_slot(ctl, *dst, *src),
{
    if takes_from_src_exec(ctl, dst.is_some(), src.is_some()) {
        clone_opt_family(src)
    } else {
        clone_opt_family(dst)
    }
}

fn slot_combine_lang(ctl: InheritControl, dst: &Option<XmlLang>, src: &Option<XmlLang>) -> (r: Option<XmlLang>)
    ensures
        r == inherit_slot(ctl, *dst, *src),
{
    if takes_from_src_exec(ctl, dst.is_some(), src.is_some()) {
        clone_opt_lang(src)
    } else {
        clone_opt_lang(dst)
    }
}

/// Runs a cascade rule over every auto-inheriting property slot of `dst`,
/// taking values from `src` as the rule directs.
pub fn inherit_run(dst: &mut State, src: &State, ctl: InheritControl, inherit_unheritables: bool)
    requires
        old(dst).wf(),
        src.wf(),
    ensures
        *final(dst) == run_inherit(*old(dst), *src, ctl, inherit_unheritables),
        final(dst).wf(),
{
    let combined = State {
        affine: dst.affine,
        comp_op: if inherit_unheritables {
            src.comp_op
        } else {
            dst.comp_op
        },
        enable_background: if inherit_unheritables {
            src.enable_background
        } else {
            dst.enable_background
        },
        baseline_shift: slot_combine(ctl, dst.baseline_shift, src.baseline_shift),
        clip_rule: slot_combine(ctl, dst.clip_rule, src.clip_rule),
        fill_rule: slot_combine(ctl, dst.fill_rule, src.fill_rule),
        font_family: slot_combine_family(ctl, &dst.font_family, &src.font_family),
        font_size: slot_combine(ctl, dst.font_size, src.font_size),
        font_stretch: slot_combine(ctl, dst.font_stretch, src.font_stretch),
        font_style: slot_combine(ctl, dst.font_style, src.font_style),
        font_variant: slot_combine(ctl, dst.font_variant, src.font_variant),
        font_weight: slot_combine(ctl, dst.font_weight, src.font_weight),
        display: slot_combine(ctl, dst.display, src.display),
        letter_spacing: slot_combine(ctl, dst.letter_spacing, src.letter_spacing),
        overflow: slot_combine(ctl, dst.overflow, src.overflow),
        shape_rendering: slot_combine(ctl, dst.shape_rendering, src.shape_rendering),
        stroke_line_cap: slot_combine(ctl, dst.stroke_line_cap, src.stroke_line_cap),
        stroke_line_join: slot_combine(ctl, dst.stroke_line_join, src.stroke_line_join),
        stroke_miterlimit: slot_combine(ctl, dst.stroke_miterlimit, src.stroke_miterlimit),
        stroke_width: slot_combine(ctl, dst.stroke_width, src.stroke_width),
        text_anchor: slot_combine(ctl, dst.text_anchor, src.text_anchor),
        text_decoration: slot_combine(ctl, dst.text_decoration, src.text_decoration),
        text_rendering: slot_combine(ctl, dst.text_rendering, src.text_rendering),
        unicode_bidi: slot_combine(ctl, dst.unicode_bidi, src.unicode_bidi),
        visibility: slot_combine(ctl, dst.visibility, src.visibility),
        xml_lang: slot_combine_lang(ctl, &dst.xml_lang, &src.xml_lang),
        xml_space: slot_combine(ctl, dst.xml_space, src.xml_space),
    };
    *dst = combined;
}

/// Mode 0: where this state leaves an auto-inheriting slot unset, take the
/// source's value.
pub fn reinherit(state: &mut State, src: &State)
    requires
        old(state).wf(),
        src.wf(),
    ensures
        *final(state) == run_inherit(*old(state), *src, InheritControl::Reinherit, false),
        final(state).wf(),
{
    inherit_run(state, src, InheritControl::Reinherit, false);
}

/// Mode 1: an explicitly set source slot wins over this state's value; an
/// unset slot here is filled from the source either way.
pub fn dominate(state: &mut State, src: &State)
    requires
        old(state).wf(),
        src.wf(),
    ensures
        *final(state) == run_inherit(*old(state), *src, InheritControl::Dominate, false),
        final(state).wf(),
{
    inherit_run(state, src, InheritControl::Dominate, false);
}

/// Mode 2: replace every style property from the source, the two
/// non-auto-inheriting ones included, and leave the transform untouched.
pub fn force(state: &mut State, src: &State)
    requires
        old(state).wf(),
        src.wf(),
    ensures
        *final(state) == run_inherit(*old(state), *src, InheritControl::Force, true),
        final(state).wf(),
{
    inherit_run(state, src, InheritControl::Force, true);
}

/// Takes every slot the source sets, the two non-auto-inheriting ones
/// included; used when rebuilding a state from an ancestor chain.
pub fn inherit(state: &mut State, src: &State)
    requires
        old(state).wf(),
        src.wf(),
    ensures
        *final(state) == run_inherit(*old(state), *src, InheritControl::Inherit, true),
        final(state).wf(),
{
    inherit_run(state, src, InheritControl::Inherit, true);
}

/// Whether content may overflow the viewport: overflow is `auto` or
/// `visible`.
pub open spec fn spec_is_overflow(state: State) -> bool {
    state.overflow == Some(Overflow::Auto) || state.overflow == Some(Overflow::Visible)
}

/// Whether content may overflow the viewport.
pub fn is_overflow(state: &State) -> (r: bool)
    ensures
        r == spec_is_overflow(*state),
{
    match state.overflow {
        Option::Some(Overflow::Auto) => true,
        Option::Some(Overflow::Visible) => true,
        _ => false,
    }
}

/// Whether the element is rendered at all: not displayed away, and either
/// nothing specified or visibility resolved to `visible`.
pub open spec fn spec_is_visible(state: State) -> bool {
    match (state.display, state.visibility) {
        (Option::None, Option::None) => true,
        (Option::Some(Display::NoDisplay), _) => false,
        (_, Option::Some(Visibility::Visible)) => true,
        _ => false,
    }
}

/// Whether the element is rendered at all.
pub fn is_visible(state: &State) -> (r: bool)
    ensures
        r == spec_is_visible(*state),
{
    match (state.display, state.visibility) {
        (Option::None, Option::None) => true,
        (Option::Some(Display::NoDisplay), _) => false,
        (_, Option::Some(Visibility::Visible)) => true,
        _ => false,
    }
}

/// Whether an attribute value is the keyword `inherit`, after trimming.
pub open spec fn is_inherit(v: Seq<char>) -> bool {
    trimmed(v) == "inherit"@
}

/// Whether a length-valued attribute value is acceptable: `inherit`, or a
/// well-formed, representable length.
pub open spec fn length_slot_ok(v: Seq<char>) -> bool {
    is_inherit(v) || (length_value(trimmed(v)) is Some && length_fits(trimmed(v)))
}

/// The slot a length-valued attribute value sets: `None` for `inherit`,
/// else the parsed length. Meaningful only when `length_slot_ok` holds.
pub open spec fn spec_length_slot(v: Seq<char>, dir: LengthDir) -> Option<Length> {
    if is_inherit(v) {
        Option::None
    } else {
        let val = length_value(trimmed(v))->Some_0.0;
        let unit = length_value(trimmed(v))->Some_0.1;
        Option::Some(
            Length { length: Ratio { num: val.0 as i64, den: val.1 as i64 }, unit, dir },
        )
    }
}

/// Whether a number-valued attribute value is acceptable: `inherit`, or a
/// well-formed, representable bare number.
pub open spec fn number_slot_ok(v: Seq<char>) -> bool {
    is_inherit(v) || (number_value(trimmed(v)) is Some && number_fits(trimmed(v)))
}

/// The slot a number-valued attribute value sets. Meaningful only when
/// `number_slot_ok` holds.
pub open spec fn spec_number_slot(v: Seq<char>) -> Option<Ratio> {
    if is_inherit(v) {
        Option::None
    } else {
        let val = number_value(trimmed(v))->Some_0;
        Option::Some(Ratio { num: val.0 as i64, den: val.1 as i64 })
    }
}

impl State {

    fn apply_clip_rule(&mut self, value: &str) -> (r: Result<(), AttributeError>)
        requires
            old(self).wf(),
        ensures
            final(self).wf(),
            match r {
                Ok(_) => (is_inherit(value@) || ClipRule::spec_parse(trimmed(value@)) is Some)
                    && *final(self) == (State {
                    clip_rule: if is_inherit(value@) {
                        Option::None
                    } else {
                        ClipRule::spec_parse(trimmed(value@))
                    },
                    ..*old(self)
                }),
                Err(e) => !is_inherit(value@) && ClipRule::spec_parse(trimmed(value@)) is None
                    && *final(self) == *old(self) && e.is_invalid_value(),
            },
    {
        if str_eq(trim(value), "inherit") {
            self.clip_rule = Option::None;
        } else {
            self.clip_rule = Some(ClipRule::parse(value)?);
        }
        Ok(())
    }


    fn apply_comp_op(&mut self, value: &str) -> (r: Result<(), AttributeError>)
        requires
            old(self).wf(),
        ensures
            final(self).wf(),
            match r {
                Ok(_) => (is_inherit(value@) || CompOp::spec_parse(trimmed(value@)) is Some)
                    && *final(self) == (State {
                    comp_op: if is_inherit(value@) {
                        Option::None
                    } else {
                        CompOp::spec_parse(trimmed(value@))
                    },
                    ..*old(self)
                }),
                Err(e) => !is_inherit(value@) && CompOp::spec_parse(trimmed(value@)) is None
                    && *final(self) == *old(self) && e.is_invalid_value(),
            },
    {
        if str_eq(trim(value), "inherit") {
            self.comp_op = Option::None;
        } else {
            self.comp_op = Some(CompOp::parse(value)?);
        }
        Ok(())
    }


    fn apply_fill_rule(&mut self, value: &str) -> (r: Result<(), AttributeError>)
        requires
            old(self).wf(),
        ensures
            final(self).wf(),
            match r {
                Ok(_) => (is_inherit(value@) || FillRule::spec_parse(trimmed(value@)) is Some)
                    && *final(self) == (State {
                    fill_rule: if is_inherit(value@) {
                        Option::None
                    } else {
                        FillRule::spec_parse(trimmed(value@))
                    },
                    ..*old(self)
                }),
                Err(e) => !is_inherit(value@) && FillRule::spec_parse(trimmed(value@)) is None
                    && *final(self) == *old(self) && e.is_invalid_value(),
            },
    {
        if str_eq(trim(value), "inherit") {
            self.fill_rule = Option::None;
        } else {
            self.fill_rule = Some(FillRule::parse(value)?);
        }
        Ok(())
    }


    fn apply_font_stretch(&mut self, value: &str) -> (r: Result<(), AttributeError>)
        requires
            old(self).wf(),
        ensures
            final(self).wf(),
            match r {
                Ok(_) => (is_inherit(value@) || FontStretch::spec_parse(trimmed(value@)) is Some)
                    && *final(self) == (State {
                    font_stretch: if is_inherit(value@) {
                        Option::None
                    } else {
                        FontStretch::spec_parse(trimmed(value@))
                    },
                    ..*old(self)
                }),
                Err(e) => !is_inherit(value@) && FontStretch::spec_parse(trimmed(value@)) is None
                    && *final(self) == *old(self) && e.is_invalid_value(),
            },
    {
        if str_eq(trim(value), "inherit") {
            self.font_stretch = Option::None;
        } else {
            self.font_stretch = Some(FontStretch::parse(value)?);
        }
        Ok(())
    }


    fn apply_font_style(&mut self, value: &str) -> (r: Result<(), AttributeError>)
        requires
            old(self).wf(),
        ensures
            final(self).wf(),
            match r {
                Ok(_) => (is_inherit(value@) || FontStyle::spec_parse(trimmed(value@)) is Some)
                    && *final(self) == (State {
                    font_style: if is_inherit(value@) {
                        Option::None
                    } else {
                        FontStyle::spec_parse(trimmed(value@))
                    },
                    ..*old(self)
                }),
                Err(e) => !is_inherit(value@) && FontStyle::spec_parse(trimmed(value@)) is None
                    && *final(self) == *old(self) && e.is_invalid_value(),
            },
    {
        if str_eq(trim(value), "inherit") {
            self.font_style = Option::None;
        } else {
            self.font_style = Some(FontStyle::parse(value)?);
        }
        Ok(())
    }


    fn apply_font_variant(&mut self, value: &str) -> (r: Result<(), AttributeError>)
        requires
            old(self).wf(),
        ensures
            final(self).wf(),
            match r {
                Ok(_) => (is_inherit(value@) || FontVariant::spec_parse(trimmed(value@)) is Some)
                    && *final(self) == (State {
                    font_variant: if is_inherit(value@) {
                        Option::None
                    } else {
                        FontVariant::spec_parse(trimmed(value@))
                    },
                    ..*old(self)
                }),
                Err(e) => !is_inherit(value@) && FontVariant::spec_parse(trimmed(value@)) is None
                    && *final(self) == *old(self) && e.is_invalid_value(),
            },
    {
        if str_eq(trim(value), "inherit") {
            self.font_variant = Option::None;
        } else {
            self.font_variant = Some(FontVariant::parse(value)?);
        }
        Ok(())
    }


    fn apply_font_weight(&mut self, value: &str) -> (r: Result<(), AttributeError>)
        requires
            old(self).wf(),
        ensures
            final(self).wf(),
            match r {
                Ok(_) => (is_inherit(value@) || FontWeight::spec_parse(trimmed(value@)) is Some)
                    && *final(self) == (State {
                    font_weight: if is_inherit(value@) {
                        Option::None
                    } else {
                        FontWeight::spec_parse(trimmed(value@))
                    },
                    ..*old(self)
                }),
                Err(e) => !is_inherit(value@) && FontWeight::spec_parse(trimmed(value@)) is None
                    && *final(self) == *old(self) && e.is_invalid_value(),
            },
    {
        if str_eq(trim(value), "inherit") {
            self.font_weight = Option::None;
        } else {
            self.font_weight = Some(FontWeight::parse(value)?);
        }
        Ok(())
    }


    fn apply_display(&mut self, value: &str) -> (r: Result<(), AttributeError>)
        requires
            old(self).wf(),
        ensures
            final(self).wf(),
            match r {
                Ok(_) => (is_inherit(value@) || Display::spec_parse(trimmed(value@)) is Some)
                    && *final(self) == (State {
                    display: if is_inherit(value@) {
                        Option::None
                    } else {
                        Display::spec_parse(trimmed(value@))
                    },
                    ..*old(self)
                }),
                Err(e) => !is_inherit(value@) && Display::spec_parse(trimmed(value@)) is None
                    && *final(self) == *old(self) && e.is_invalid_value(),
            },
    {
        if str_eq(trim(value), "inherit") {
            self.display = Option::None;
        } else {
            self.display = Some(Display::parse(value)?);
        }
        Ok(())
    }


    fn apply_enable_background(&mut self, value: &str) -> (r: Result<(), AttributeError>)
        requires
            old(self).wf(),
        ensures
            final(self).wf(),
            match r {
                Ok(_) => (is_inherit(value@) || EnableBackground::spec_parse(trimmed(value@)) is Some)
                    && *final(self) == (State {
                    enable_background: if is_inherit(value@) {
                        Option::None
                    } else {
                        EnableBackground::spec_parse(trimmed(value@))
                    },
                    ..*old(self)
                }),
                Err(e) => !is_inherit(value@) && EnableBackground::spec_parse(trimmed(value@)) is None
                    && *final(self) == *old(self) && e.is_invalid_value(),
            },
    {
        if str_eq(trim(value), "inherit") {
            self.enable_background = Option::None;
        } else {
            self.enable_background = Some(EnableBackground::parse(value)?);
        }
        Ok(())
    }


    fn apply_overflow(&mut self, value: &str) -> (r: Result<(), AttributeError>)
        requires
            old(self).wf(),
        ensures
            final(self).wf(),
            match r {
                Ok(_) => (is_inherit(value@) || Overflow::spec_parse(trimmed(value@)) is Some)
                    && *final(self) == (State {
                    overflow: if is_inherit(value@) {
                        Option::None
                    } else {
                        Overflow::spec_parse(trimmed(value@))
                    },
                    ..*old(self)
                }),
                Err(e) => !is_inherit(value@) && Overflow::spec_parse(trimmed(value@)) is None
                    && *final(self) == *old(self) && e.is_invalid_value(),
            },
    {
        if str_eq(trim(value), "inherit") {
            self.overflow = Option::None;
        } else {
            self.overflow = Some(Overflow::parse(value)?);
        }
        Ok(())
    }


    fn apply_shape_rendering(&mut self, value: &str) -> (r: Result<(), AttributeError>)
        requires
            old(self).wf(),
        ensures
            final(self).wf(),
            match r {
                Ok(_) => (is_inherit(value@) || ShapeRendering::spec_parse(trimmed(value@)) is Some)
                    && *final(self) == (State {
                    shape_rendering: if is_inherit(value@) {
                        Option::None
                    } else {
                        ShapeRendering::spec_parse(trimmed(value@))
                    },
                    ..*old(self)
                }),
                Err(e) => !is_inherit(value@) && ShapeRendering::spec_parse(trimmed(value@)) is None
                    && *final(self) == *old(self) && e.is_invalid_value(),
            },
    {
        if str_eq(trim(value), "inherit") {
            self.shape_rendering = Option::None;
        } else {
            self.shape_rendering = Some(ShapeRendering::parse(value)?);
        }
        Ok(())
    }


    fn apply_stroke_line_cap(&mut self, value: &str) -> (r: Result<(), AttributeError>)
        requires
            old(self).wf(),
        ensures
            final(self).wf(),
            match r {
                Ok(_) => (is_inherit(value@) || StrokeLinecap::spec_parse(trimmed(value@)) is Some)
                    && *final(self) == (State {
                    stroke_line_cap: if is_inherit(value@) {
                        Option::None
                    } else {
                        StrokeLinecap::spec_parse(trimmed(value@))
                    },
                    ..*old(self)
                }),
                Err(e) => !is_inherit(value@) && StrokeLinecap::spec_parse(trimmed(value@)) is None
                    && *final(self) == *old(self) && e.is_invalid_value(),
            },
    {
        if str_eq(trim(value), "inherit") {
            self.stroke_line_cap = Option::None;
        } else {
            self.stroke_line_cap = Some(StrokeLinecap::parse(value)?);
        }
        Ok(())
    }


    fn apply_stroke_line_join(&mut self, value: &str) -> (r: Result<(), AttributeError>)
        requires
            old(self).wf(),
        ensures
            final(self).wf(),
            match r {
                Ok(_) => (is_inherit(value@) || StrokeLinejoin::spec_parse(trimmed(value@)) is Some)
                    && *final(self) == (State {
                    stroke_line_join: if is_inherit(value@) {
                        Option::None
                    } else {
                        StrokeLinejoin::spec_parse(trimmed(value@))
                    },
                    ..*old(self)
                }),
                Err(e) => !is_inherit(value@) && StrokeLinejoin::spec_parse(trimmed(value@)) is None
                    && *final(self) == *old(self) && e.is_invalid_value(),
            },
    {
        if str_eq(trim(value), "inherit") {
            self.stroke_line_join = Option::None;
        } else {
            self.stroke_line_join = Some(StrokeLinejoin::parse(value)?);
        }
        Ok(())
    }


    fn apply_text_anchor(&mut self, value: &str) -> (r: Result<(), AttributeError>)
        requires
            old(self).wf(),
        ensures
            final(self).wf(),
            match r {
                Ok(_) => (is_inherit(value@) || TextAnchor::spec_parse(trimmed(value@)) is Some)
                    && *final(self) == (State {
                    text_anchor: if is_inherit(value@) {
                        Option::None
                    } else {
                        TextAnchor::spec_parse(trimmed(value@))
                    },
                    ..*old(self)
                }),
                Err(e) => !is_inherit(value@) && TextAnchor::spec_parse(trimmed(value@)) is None
                    && *final(self) == *old(self) && e.is_invalid_value(),
            },
    {
        if str_eq(trim(value), "inherit") {
            self.text_anchor = Option::None;
        } else {
            self.text_anchor = Some(TextAnchor::parse(value)?);
        }
        Ok(())
    }


    fn apply_text_rendering(&mut self, value: &str) -> (r: Result<(), AttributeError>)
        requires
            old(self).wf(),
        ensures
            final(self).wf(),
            match r {
                Ok(_) => (is_inherit(value@) || TextRendering::spec_parse(trimmed(value@)) is Some)
                    && *final(self) == (State {
                    text_rendering: if is_inherit(value@) {
                        Option::None
                    } else {
                        TextRendering::spec_parse(trimmed(value@))
                    },
                    ..*old(self)
                }),
                Err(e) => !is_inherit(value@) && TextRendering::spec_parse(trimmed(value@)) is None
                    && *final(self) == *old(self) && e.is_invalid_value(),
            },
    {
        if str_eq(trim(value), "inherit") {
            self.text_rendering = Option::None;
        } else {
            self.text_rendering = Some(TextRendering::parse(value)?);
        }
        Ok(())
    }


    fn apply_unicode_bidi(&mut self, value: &str) -> (r: Result<(), AttributeError>)
        requires
            old(self).wf(),
        ensures
            final(self).wf(),
            match r {
                Ok(_) => (is_inherit(value@) || UnicodeBidi::spec_parse(trimmed(value@)) is Some)
                    && *final(self) == (State {
                    unicode_bidi: if is_inherit(value@) {
                        Option::None
                    } else {
                        UnicodeBidi::spec_parse(trimmed(value@))
                    },
                    ..*old(self)
                }),
                Err(e) => !is_inherit(value@) && UnicodeBidi::spec_parse(trimmed(value@)) is None
                    && *final(self) == *old(self) && e.is_invalid_value(),
            },
    {
        if str_eq(trim(value), "inherit") {
            self.unicode_bidi = Option::None;
        } else {
            self.unicode_bidi = Some(UnicodeBidi::parse(value)?);
        }
        Ok(())
    }


    fn apply_visibility(&mut self, value: &str) -> (r: Result<(), AttributeError>)
        requires
            old(self).wf(),
        ensures
            final(self).wf(),
            match r {
                Ok(_) => (is_inherit(value@) || Visibility::spec_parse(trimmed(value@)) is Some)
                    && *final(self) == (State {
                    visibility: if is_inherit(value@) {
                        Option::None
                    } else {
                        Visibility::spec_parse(trimmed(value@))
                    },
                    ..*old(self)
                }),
                Err(e) => !is_inherit(value@) && Visibility::spec_parse(trimmed(value@)) is None
                    && *final(self) == *old(self) && e.is_invalid_value(),
            },
    {
        if str_eq(trim(value), "inherit") {
            self.visibility = Option::None;
        } else {
            self.visibility = Some(Visibility::parse(value)?);
        }
        Ok(())
    }


    fn apply_font_size(&mut self, value: &str) -> (r: Result<(), AttributeError>)
        requires
            old(self).wf(),
        ensures
            final(self).wf(),
            match r {
                Ok(_) => length_slot_ok(value@) && *final(self) == (State {
                    font_size: match spec_length_slot(value@, LengthDir::Both) {
                        Option::Some(l) => Option::Some(FontSize(l)),
                        Option::None => Option::None,
                    },
                    ..*old(self)
                }),
                Err(e) => !length_slot_ok(value@) && *final(self) == *old(self)
                    && e.is_invalid_value(),
            },
    {
        if str_eq(trim(value), "inherit") {
            self.font_size = Option::None;
        } else {
            let l = Length::parse(value, LengthDir::Both)?;
            self.font_size = Some(FontSize(l));
        }
        Ok(())
    }


    fn apply_letter_spacing(&mut self, value: &str) -> (r: Result<(), AttributeError>)
        requires
            old(self).wf(),
        ensures
            final(self).wf(),
            match r {
                Ok(_) => length_slot_ok(value@) && *final(self) == (State {
                    letter_spacing: match spec_length_slot(value@, LengthDir::Horizontal) {
                        Option::Some(l) => Option::Some(LetterSpacing(l)),
                        Option::None => Option::None,
                    },
                    ..*old(self)
                }),
                Err(e) => !length_slot_ok(value@) && *final(self) == *old(self)
                    && e.is_invalid_value(),
            },
    {
        if str_eq(trim(value), "inherit") {
            self.letter_spacing = Option::None;
        } else {
            let l = Length::parse(value, LengthDir::Horizontal)?;
            self.letter_spacing = Some(LetterSpacing(l));
        }
        Ok(())
    }


    fn apply_stroke_width(&mut self, value: &str) -> (r: Result<(), AttributeError>)
        requires
            old(self).wf(),
        ensures
            final(self).wf(),
            match r {
                Ok(_) => length_slot_ok(value@) && *final(self) == (State {
                    stroke_width: match spec_length_slot(value@, LengthDir::Both) {
                        Option::Some(l) => Option::Some(StrokeWidth(l)),
                        Option::None => Option::None,
                    },
                    ..*old(self)
                }),
                Err(e) => !length_slot_ok(value@) && *final(self) == *old(self)
                    && e.is_invalid_value(),
            },
    {
        if str_eq(trim(value), "inherit") {
            self.stroke_width = Option::None;
        } else {
            let l = Length::parse(value, LengthDir::Both)?;
            self.stroke_width = Some(StrokeWidth(l));
        }
        Ok(())
    }


    fn apply_baseline_shift(&mut self, value: &str) -> (r: Result<(), AttributeError>)
        requires
            old(self).wf(),
        ensures
            final(self).wf(),
            match r {
                Ok(_) => (is_inherit(value@) || BaselineShift::spec_parse(trimmed(value@)) is Some)
                    && *final(self) == (State {
                    baseline_shift: if is_inherit(value@) {
                        Option::None
                    } else {
                        Option::Some(
                            BaselineShift(
                                Ratio {
                                    num: BaselineShift::spec_parse(trimmed(value@))->Some_0.0 as i64,
                                    den: BaselineShift::spec_parse(trimmed(value@))->Some_0.1 as i64,
                                },
                            ),
                        )
                    },
                    ..*old(self)
                }),
                Err(e) => !is_inherit(value@) && BaselineShift::spec_parse(trimmed(value@)) is None
                    && *final(self) == *old(self) && e.is_invalid_value(),
            },
    {
        if str_eq(trim(value), "inherit") {
            self.baseline_shift = Option::None;
        } else {
            self.baseline_shift = Some(BaselineShift::parse(value)?);
        }
        Ok(())
    }

    fn apply_stroke_miterlimit(&mut self, value: &str) -> (r: Result<(), AttributeError>)
        requires
            old(self).wf(),
        ensures
            final(self).wf(),
            match r {
                Ok(_) => number_slot_ok(value@) && *final(self) == (State {
                    stroke_miterlimit: match spec_number_slot(value@) {
                        Option::Some(n) => Option::Some(StrokeMiterlimit(n)),
                        Option::None => Option::None,
                    },
                    ..*old(self)
                }),
                Err(e) => !number_slot_ok(value@) && *final(self) == *old(self)
                    && e.is_invalid_value(),
            },
    {
        if str_eq(trim(value), "inherit") {
            self.stroke_miterlimit = Option::None;
        } else {
            self.stroke_miterlimit = Some(StrokeMiterlimit::parse(value)?);
        }
        Ok(())
    }

    fn apply_text_decoration(&mut self, value: &str) -> (r: Result<(), AttributeError>)
        requires
            old(self).wf(),
        ensures
            final(self).wf(),
            r is Ok,
            *final(self) == (State {
                text_decoration: if is_inherit(value@) {
                    Option::None
                } else {
                    Option::Some(
                        TextDecoration {
                            overline: contains_seq(value@, "overline"@),
                            underline: contains_seq(value@, "underline"@),
                            strike: contains_seq(value@, "strike"@) || contains_seq(
                                value@,
                                "line-through"@,
                            ),
                        },
                    )
                },
                ..*old(self)
            }),
    {
        if str_eq(trim(value), "inherit") {
            self.text_decoration = Option::None;
        } else {
            self.text_decoration = Some(TextDecoration::parse(value)?);
        }
        Ok(())
    }

    fn apply_font_family(&mut self, value: &str) -> (r: Result<(), AttributeError>)
        requires
            old(self).wf(),
        ensures
            final(self).wf(),
            r is Ok,
            *final(self) == (State { font_family: final(self).font_family, ..*old(self) }),
            is_inherit(value@) ==> final(self).font_family is None,
            !is_inherit(value@) ==> final(self).font_family is Some
                && final(self).font_family->Some_0.0@ == value@,
    {
        if str_eq(trim(value), "inherit") {
            self.font_family = Option::None;
        } else {
            self.font_family = Some(FontFamily::parse(value)?);
        }
        Ok(())
    }

    fn apply_xml_lang(&mut self, value: &str) -> (r: Result<(), AttributeError>)
        requires
            old(self).wf(),
        ensures
            final(self).wf(),
            r is Ok,
            *final(self) == (State { xml_lang: final(self).xml_lang, ..*old(self) }),
            final(self).xml_lang is Some && final(self).xml_lang->Some_0.0@ == value@,
    {
        self.xml_lang = Some(XmlLang::parse(value)?);
        Ok(())
    }

    fn apply_xml_space(&mut self, value: &str) -> (r: Result<(), AttributeError>)
        requires
            old(self).wf(),
        ensures
            final(self).wf(),
            match r {
                Ok(_) => XmlSpace::spec_parse(trimmed(value@)) is Some && *final(self) == (State {
                    xml_space: XmlSpace::spec_parse(trimmed(value@)),
                    ..*old(self)
                }),
                Err(e) => XmlSpace::spec_parse(trimmed(value@)) is None && *final(self) == *old(
                    self,
                ) && e.is_invalid_value(),
            },
    {
        self.xml_space = Some(XmlSpace::parse(value)?);
        Ok(())
    }


    /// Parses one attribute into its property slot. A recognised
    /// presentation attribute either sets its slot (to `None` for the
    /// keyword `inherit`, where the property allows it) or fails with an
    /// invalid-value error, leaving the state untouched; an attribute the
    /// cascade does not recognise is left to element-specific handling and
    /// changes nothing.
    pub fn parse_style_pair(&mut self, attr: Attribute, value: &str) -> (r: Result<
        (),
        AttributeError,
    >)
        requires
            old(self).wf(),
        ensures
            final(self).wf(),
            match attr {
                Attribute::ClipRule => match r {
                    Ok(_) => (is_inherit(value@) || ClipRule::spec_parse(trimmed(value@)) is Some)
                        && *final(self) == (State {
                        clip_rule: if is_inherit(value@) {
                            Option::None
                        } else {
                            ClipRule::spec_parse(trimmed(value@))
                        },
                        ..*old(self)
                    }),
                    Err(e) => !is_inherit(value@) && ClipRule::spec_parse(trimmed(value@)) is None
                        && *final(self) == *old(self) && e.is_invalid_value(),
                },
                Attribute::CompOp => match r {
                    Ok(_) => (is_inherit(value@) || CompOp::spec_parse(trimmed(value@)) is Some)
                        && *final(self) == (State {
                        comp_op: if is_inherit(value@) {
                            Option::None
                        } else {
                            CompOp::spec_parse(trimmed(value@))
                        },
                        ..*old(self)
                    }),
                    Err(e) => !is_inherit(value@) && CompOp::spec_parse(trimmed(value@)) is None
                        && *final(self) == *old(self) && e.is_invalid_value(),
                },
                Attribute::FillRule => match r {
                    Ok(_) => (is_inherit(value@) || FillRule::spec_parse(trimmed(value@)) is Some)
                        && *final(self) == (State {
                        fill_rule: if is_inherit(value@) {
                            Option::None
                        } else {
                            FillRule::spec_parse(trimmed(value@))
                        },
                        ..*old(self)
                    }),
                    Err(e) => !is_inherit(value@) && FillRule::spec_parse(trimmed(value@)) is None
                        && *final(self) == *old(self) && e.is_invalid_value(),
                },
                Attribute::FontStretch => match r {
                    Ok(_) => (is_inherit(value@) || FontStretch::spec_parse(trimmed(value@)) is Some)
                        && *final(self) == (State {
                        font_stretch: if is_inherit(value@) {
                            Option::None
                        } else {
                            FontStretch::spec_parse(trimmed(value@))
                        },
                        ..*old(self)
                    }),
                    Err(e) => !is_inherit(value@) && FontStretch::spec_parse(trimmed(value@)) is None
                        && *final(self) == *old(self) && e.is_invalid_value(),
                },
                Attribute::FontStyle => match r {
                    Ok(_) => (is_inherit(value@) || FontStyle::spec_parse(trimmed(value@)) is Some)
                        && *final(self) == (State {
                        font_style: if is_inherit(value@) {
                            Option::None
                        } else {
                            FontStyle::spec_parse(trimmed(value@))
                        },
                        ..*old(self)
                    }),
                    Err(e) => !is_inherit(value@) && FontStyle::spec_parse(trimmed(value@)) is None
                        && *final(self) == *old(self) && e.is_invalid_value(),
                },
                Attribute::FontVariant => match r {
                    Ok(_) => (is_inherit(value@) || FontVariant::spec_parse(trimmed(value@)) is Some)
                        && *final(self) == (State {
                        font_variant: if is_inherit(value@) {
                            Option::None
                        } else {
                            FontVariant::spec_parse(trimmed(value@))
                        },
                        ..*old(self)
                    }),
                    Err(e) => !is_inherit(value@) && FontVariant::spec_parse(trimmed(value@)) is None
                        && *final(self) == *old(self) && e.is_invalid_value(),
                },
                Attribute::FontWeight => match r {
                    Ok(_) => (is_inherit(value@) || FontWeight::spec_parse(trimmed(value@)) is Some)
                        && *final(self) == (State {
                        font_weight: if is_inherit(value@) {
                            Option::None
                        } else {
                            FontWeight::spec_parse(trimmed(value@))
                        },
                        ..*old(self)
                    }),
                    Err(e) => !is_inherit(value@) && FontWeight::spec_parse(trimmed(value@)) is None
                        && *final(self) == *old(self) && e.is_invalid_value(),
                },
                Attribute::Display => match r {
                    Ok(_) => (is_inherit(value@) || Display::spec_parse(trimmed(value@)) is Some)
                        && *final(self) == (State {
                        display: if is_inherit(value@) {
                            Option::None
                        } else {
                            Display::spec_parse(trimmed(value@))
                        },
                        ..*old(self)
                    }),
                    Err(e) => !is_inherit(value@) && Display::spec_parse(trimmed(value@)) is None
                        && *final(self) == *old(self) && e.is_invalid_value(),
                },
                Attribute::EnableBackground => match r {
                    Ok(_) => (is_inherit(value@) || EnableBackground::spec_parse(trimmed(value@)) is Some)
                        && *final(self) == (State {
                        enable_background: if is_inherit(value@) {
                            Option::None
                        } else {
                            EnableBackground::spec_parse(trimmed(value@))
                        },
                        ..*old(self)
                    }),
                    Err(e) => !is_inherit(value@) && EnableBackground::spec_parse(trimmed(value@)) is None
                        && *final(self) == *old(self) && e.is_invalid_value(),
                },
                Attribute::Overflow => match r {
                    Ok(_) => (is_inherit(value@) || Overflow::spec_parse(trimmed(value@)) is Some)
                        && *final(self) == (State {
                        overflow: if is_inherit(value@) {
                            Option::None
                        } else {
                            Overflow::spec_parse(trimmed(value@))
                        },
                        ..*old(self)
                    }),
                    Err(e) => !is_inherit(value@) && Overflow::spec_parse(trimmed(value@)) is None
                        && *final(self) == *old(self) && e.is_invalid_value(),
                },
                Attribute::ShapeRendering => match r {
                    Ok(_) => (is_inherit(value@) || ShapeRendering::spec_parse(trimmed(value@)) is Some)
                        && *final(self) == (State {
                        shape_rendering: if is_inherit(value@) {
                            Option::None
                        } else {
                            ShapeRendering::spec_parse(trimmed(value@))
                        },
                        ..*old(self)
                    }),
                    Err(e) => !is_inherit(value@) && ShapeRendering::spec_parse(trimmed(value@)) is None
                        && *final(self) == *old(self) && e.is_invalid_value(),
                },
                Attribute::StrokeLinecap => match r {
                    Ok(_) => (is_inherit(value@) || StrokeLinecap::spec_parse(trimmed(value@)) is Some)
                        && *final(self) == (State {
                        stroke_line_cap: if is_inherit(value@) {
                            Option::None
                        } else {
                            StrokeLinecap::spec_parse(trimmed(value@))
                        },
                        ..*old(self)
                    }),
                    Err(e) => !is_inherit(value@) && StrokeLinecap::spec_parse(trimmed(value@)) is None
                        && *final(self) == *old(self) && e.is_invalid_value(),
                },
                Attribute::StrokeLinejoin => match r {
                    Ok(_) => (is_inherit(value@) || StrokeLinejoin::spec_parse(trimmed(value@)) is Some)
                        && *final(self) == (State {
                        stroke_line_join: if is_inherit(value@) {
                            Option::None
                        } else {
                            StrokeLinejoin::spec_parse(trimmed(value@))
                        },
                        ..*old(self)
                    }),
                    Err(e) => !is_inherit(value@) && StrokeLinejoin::spec_parse(trimmed(value@)) is None
                        && *final(self) == *old(self) && e.is_invalid_value(),
                },
                Attribute::TextAnchor => match r {
                    Ok(_) => (is_inherit(value@) || TextAnchor::spec_parse(trimmed(value@)) is Some)
                        && *final(self) == (State {
                        text_anchor: if is_inherit(value@) {
                            Option::None
                        } else {
                            TextAnchor::spec_parse(trimmed(value@))
                        },
                        ..*old(self)
                    }),
                    Err(e) => !is_inherit(value@) && TextAnchor::spec_parse(trimmed(value@)) is None
                        && *final(self) == *old(self) && e.is_invalid_value(),
                },
                Attribute::TextRendering => match r {
                    Ok(_) => (is_inherit(value@) || TextRendering::spec_parse(trimmed(value@)) is Some)
                        && *final(self) == (State {
                        text_rendering: if is_inherit(value@) {
                            Option::None
                        } else {
                            TextRendering::spec_parse(trimmed(value@))
                        },
                        ..*old(self)
                    }),
                    Err(e) => !is_inherit(value@) && TextRendering::spec_parse(trimmed(value@)) is None
                        && *final(self) == *old(self) && e.is_invalid_value(),
                },
                Attribute::UnicodeBidi => match r {
                    Ok(_) => (is_inherit(value@) || UnicodeBidi::spec_parse(trimmed(value@)) is Some)
                        && *final(self) == (State {
                        unicode_bidi: if is_inherit(value@) {
                            Option::None
                        } else {
                            UnicodeBidi::spec_parse(trimmed(value@))
                        },
                        ..*old(self)
                    }),
                    Err(e) => !is_inherit(value@) && UnicodeBidi::spec_parse(trimmed(value@)) is None
                        && *final(self) == *old(self) && e.is_invalid_value(),
                },
                Attribute::Visibility => match r {
                    Ok(_) => (is_inherit(value@) || Visibility::spec_parse(trimmed(value@)) is Some)
                        && *final(self) == (State {
                        visibility: if is_inherit(value@) {
                            Option::None
                        } else {
                            Visibility::spec_parse(trimmed(value@))
                        },
                        ..*old(self)
                    }),
                    Err(e) => !is_inherit(value@) && Visibility::spec_parse(trimmed(value@)) is None
                        && *final(self) == *old(self) && e.is_invalid_value(),
                },
                Attribute::FontSize => match r {
                    Ok(_) => length_slot_ok(value@) && *final(self) == (State {
                        font_size: match spec_length_slot(value@, LengthDir::Both) {
                            Option::Some(l) => Option::Some(FontSize(l)),
                            Option::None => Option::None,
                        },
                        ..*old(self)
                    }),
                    Err(e) => !length_slot_ok(value@) && *final(self) == *old(self)
                        && e.is_invalid_value(),
                },
                Attribute::LetterSpacing => match r {
                    Ok(_) => length_slot_ok(value@) && *final(self) == (State {
                        letter_spacing: match spec_length_slot(value@, LengthDir::Horizontal) {
                            Option::Some(l) => Option::Some(LetterSpacing(l)),
                            Option::None => Option::None,
                        },
                        ..*old(self)
                    }),
                    Err(e) => !length_slot_ok(value@) && *final(self) == *old(self)
                        && e.is_invalid_value(),
                },
                Attribute::StrokeWidth => match r {
                    Ok(_) => length_slot_ok(value@) && *final(self) == (State {
                        stroke_width: match spec_length_slot(value@, LengthDir::Both) {
                            Option::Some(l) => Option::Some(StrokeWidth(l)),
                            Option::None => Option::None,
                        },
                        ..*old(self)
                    }),
                    Err(e) => !length_slot_ok(value@) && *final(self) == *old(self)
                        && e.is_invalid_value(),
                },
                Attribute::BaselineShift => match r {
                    Ok(_) => (is_inherit(value@) || BaselineShift::spec_parse(
                        trimmed(value@),
                    ) is Some) && *final(self) == (State {
                        baseline_shift: if is_inherit(value@) {
                            Option::None
                        } else {
                            Option::Some(
                                BaselineShift(
                                    Ratio {
                                        num: BaselineShift::spec_parse(
                                            trimmed(value@),
                                        )->Some_0.0 as i64,
                                        den: BaselineShift::spec_parse(
                                            trimmed(value@),
                                        )->Some_0.1 as i64,
                                    },
                                ),
                            )
                        },
                        ..*old(self)
                    }),
                    Err(e) => !is_inherit(value@) && BaselineShift::spec_parse(
                        trimmed(value@),
                    ) is None && *final(self) == *old(self) && e.is_invalid_value(),
                },
                Attribute::StrokeMiterlimit => match r {
                    Ok(_) => number_slot_ok(value@) && *final(self) == (State {
                        stroke_miterlimit: match spec_number_slot(value@) {
                            Option::Some(n) => Option::Some(StrokeMiterlimit(n)),
                            Option::None => Option::None,
                        },
                        ..*old(self)
                    }),
                    Err(e) => !number_slot_ok(value@) && *final(self) == *old(self)
                        && e.is_invalid_value(),
                },
                Attribute::TextDecoration => r is Ok && *final(self) == (State {
                    text_decoration: if is_inherit(value@) {
                        Option::None
                    } else {
                        Option::Some(
                            TextDecoration {
                                overline: contains_seq(value@, "overline"@),
                                underline: contains_seq(value@, "underline"@),
                                strike: contains_seq(value@, "strike"@) || contains_seq(
                                    value@,
                                    "line-through"@,
                                ),
                            },
                        )
                    },
                    ..*old(self)
                }),
                Attribute::FontFamily => r is Ok && *final(self) == (State {
                    font_family: final(self).font_family,
                    ..*old(self)
                }) && (if is_inherit(value@) {
                    final(self).font_family is None
                } else {
                    final(self).font_family is Some && final(self).font_family->Some_0.0@
                        == value@
                }),
                Attribute::XmlLang => r is Ok && *final(self) == (State {
                    xml_lang: final(self).xml_lang,
                    ..*old(self)
                }) && final(self).xml_lang is Some && final(self).xml_lang->Some_0.0@ == value@,
                Attribute::XmlSpace => match r {
                    Ok(_) => XmlSpace::spec_parse(trimmed(value@)) is Some && *final(self)
                        == (State { xml_space: XmlSpace::spec_parse(trimmed(value@)), ..*old(self) }),
                    Err(e) => XmlSpace::spec_parse(trimmed(value@)) is None && *final(self)
                        == *old(self) && e.is_invalid_value(),
                },
                _ => r is Ok && *final(self) == *old(self),
            },
    {
        match attr {
            Attribute::ClipRule => self.apply_clip_rule(value),
            Attribute::CompOp => self.apply_comp_op(value),
            Attribute::FillRule => self.apply_fill_rule(value),
            Attribute::FontStretch => self.apply_font_stretch(value),
            Attribute::FontStyle => self.apply_font_style(value),
            Attribute::FontVariant => self.apply_font_variant(value),
            Attribute::FontWeight => self.apply_font_weight(value),
            Attribute::Display => self.apply_display(value),
            Attribute::EnableBackground => self.apply_enable_background(value),
            Attribute::Overflow => self.apply_overflow(value),
            Attribute::ShapeRendering => self.apply_shape_rendering(value),
            Attribute::StrokeLinecap => self.apply_stroke_line_cap(value),
            Attribute::StrokeLinejoin => self.apply_stroke_line_join(value),
            Attribute::TextAnchor => self.apply_text_anchor(value),
            Attribute::TextRendering => self.apply_text_rendering(value),
            Attribute::UnicodeBidi => self.apply_unicode_bidi(value),
            Attribute::Visibility => self.apply_visibility(value),
            Attribute::FontSize => self.apply_font_size(value),
            Attribute::LetterSpacing => self.apply_letter_spacing(value),
            Attribute::StrokeWidth => self.apply_stroke_width(value),
            Attribute::BaselineShift => self.apply_baseline_shift(value),
            Attribute::StrokeMiterlimit => self.apply_stroke_miterlimit(value),
            Attribute::TextDecoration => self.apply_text_decoration(value),
            Attribute::FontFamily => self.apply_font_family(value),
            Attribute::XmlLang => self.apply_xml_lang(value),
            Attribute::XmlSpace => self.apply_xml_space(value),
            _ => Ok(()),
        }
    }
}

/// Equality of two states up to string representation: every slot and the
/// transform agree, with the two string-valued properties compared by
/// their characters.
pub open spec fn congruent(a: State, b: State) -> bool {
    &&& a.affine == b.affine

    &&& a.baseline_shift == b.baseline_shift
    &&& a.clip_rule == b.clip_rule
    &&& a.comp_op == b.comp_op
    &&& a.fill_rule == b.fill_rule
    &&& a.font_size == b.font_size
    &&& a.font_stretch == b.font_stretch
    &&& a.font_style == b.font_style
    &&& a.font_variant == b.font_variant
    &&& a.font_weight == b.font_weight
    &&& a.display == b.display
    &&& a.enable_background == b.enable_background
    &&& a.letter_spacing == b.letter_spacing
    &&& a.overflow == b.overflow
    &&& a.shape_rendering == b.shape_rendering
    &&& a.stroke_line_cap == b.stroke_line_cap
    &&& a.stroke_line_join == b.stroke_line_join
    &&& a.stroke_miterlimit == b.stroke_miterlimit
    &&& a.stroke_width == b.stroke_width
    &&& a.text_anchor == b.text_anchor
    &&& a.text_decoration == b.text_decoration
    &&& a.text_rendering == b.text_rendering
    &&& a.unicode_bidi == b.unicode_bidi
    &&& a.visibility == b.visibility
    &&& a.xml_space == b.xml_space
    &&& match (a.font_family, b.font_family) {
        (Option::Some(x), Option::Some(y)) => x.0@ == y.0@,
        (Option::None, Option::None) => true,
        _ => false,
    }
    &&& match (a.xml_lang, b.xml_lang) {
        (Option::Some(x), Option::Some(y)) => x.0@ == y.0@,
        (Option::None, Option::None) => true,
        _ => false,
    }
}


fn eq_baseline_shift(a: Option<BaselineShift>, b: Option<BaselineShift>) -> (r: bool)
    ensures
        r == (a == b),
{
    match (a, b) {
        (Option::Some(x), Option::Some(y)) => x == y,
        (Option::None, Option::None) => true,
        _ => false,
    }
}

fn eq_clip_rule(a: Option<ClipRule>, b: Option<ClipRule>) -> (r: bool)
    ensures
        r == (a == b),
{
    match (a, b) {
        (Option::Some(x), Option::Some(y)) => x == y,
        (Option::None, Option::None) => true,
        _ => false,
    }
}

fn eq_comp_op(a: Option<CompOp>, b: Option<CompOp>) -> (r: bool)
    ensures
        r == (a == b),
{
    match (a, b) {
        (Option::Some(x), Option::Some(y)) => x == y,
        (Option::None, Option::None) => true,
        _ => false,
    }
}

fn eq_display(a: Option<Display>, b: Option<Display>) -> (r: bool)
    ensures
        r == (a == b),
{
    match (a, b) {
        (Option::Some(x), Option::Some(y)) => x == y,
        (Option::None, Option::None) => true,
        _ => false,
    }
}

fn eq_enable_background(a: Option<EnableBackground>, b: Option<EnableBackground>) -> (r: bool)
    ensures
        r == (a == b),
{
    match (a, b) {
        (Option::Some(x), Option::Some(y)) => x == y,
        (Option::None, Option::None) => true,
        _ => false,
    }
}

fn eq_fill_rule(a: Option<FillRule>, b: Option<FillRule>) -> (r: bool)
    ensures
        r == (a == b),
{
    match (a, b) {
        (Option::Some(x), Option::Some(y)) => x == y,
        (Option::None, Option::None) => true,
        _ => false,
    }
}

fn eq_font_size(a: Option<FontSize>, b: Option<FontSize>) -> (r: bool)
    ensures
        r == (a == b),
{
    match (a, b) {
        (Option::Some(x), Option::Some(y)) => x == y,
        (Option::None, Option::None) => true,
        _ => false,
    }
}

fn eq_font_stretch(a: Option<FontStretch>, b: Option<FontStretch>) -> (r: bool)
    ensures
        r == (a == b),
{
    match (a, b) {
        (Option::Some(x), Option::Some(y)) => x == y,
        (Option::None, Option::None) => true,
        _ => false,
    }
}

fn eq_font_style(a: Option<FontStyle>, b: Option<FontStyle>) -> (r: bool)
    ensures
        r == (a == b),
{
    match (a, b) {
        (Option::Some(x), Option::Some(y)) => x == y,
        (Option::None, Option::None) => true,
        _ => false,
    }
}

fn eq_font_variant(a: Option<FontVariant>, b: Option<FontVariant>) -> (r: bool)
    ensures
        r == (a == b),
{
    match (a, b) {
        (Option::Some(x), Option::Some(y)) => x == y,
        (Option::None, Option::None) => true,
        _ => false,
    }
}

fn eq_font_weight(a: Option<FontWeight>, b: Option<FontWeight>) -> (r: bool)
    ensures
        r == (a == b),
{
    match (a, b) {
        (Option::Some(x), Option::Some(y)) => x == y,
        (Option::None, Option::None) => true,
        _ => false,
    }
}

fn eq_letter_spacing(a: Option<LetterSpacing>, b: Option<LetterSpacing>) -> (r: bool)
    ensures
        r == (a == b),
{
    match (a, b) {
        (Option::Some(x), Option::Some(y)) => x == y,
        (Option::None, Option::None) => true,
        _ => false,
    }
}

fn eq_overflow(a: Option<Overflow>, b: Option<Overflow>) -> (r: bool)
    ensures
        r == (a == b),
{
    match (a, b) {
        (Option::Some(x), Option::Some(y)) => x == y,
        (Option::None, Option::None) => true,
        _ => false,
    }
}

fn eq_shape_rendering(a: Option<ShapeRendering>, b: Option<ShapeRendering>) -> (r: bool)
    ensures
        r == (a == b),
{
    match (a, b) {
        (Option::Some(x), Option::Some(y)) => x == y,
        (Option::None, Option::None) => true,
        _ => false,
    }
}

fn eq_stroke_line_cap(a: Option<StrokeLinecap>, b: Option<StrokeLinecap>) -> (r: bool)
    ensures
        r == (a == b),
{
    match (a, b) {
        (Option::Some(x), Option::Some(y)) => x == y,
        (Option::None, Option::None) => true,
        _ => false,
    }
}

fn eq_stroke_line_join(a: Option<StrokeLinejoin>, b: Option<StrokeLinejoin>) -> (r: bool)
    ensures
        r == (a == b),
{
    match (a, b) {
        (Option::Some(x), Option::Some(y)) => x == y,
        (Option::None, Option::None) => true,
        _ => false,
    }
}

fn eq_stroke_miterlimit(a: Option<StrokeMiterlimit>, b: Option<StrokeMiterlimit>) -> (r: bool)
    ensures
        r == (a == b),
{
    match (a, b) {
        (Option::Some(x), Option::Some(y)) => x == y,
        (Option::None, Option::None) => true,
        _ => false,
    }
}

fn eq_stroke_width(a: Option<StrokeWidth>, b: Option<StrokeWidth>) -> (r: bool)
    ensures
        r == (a == b),
{
    match (a, b) {
        (Option::Some(x), Option::Some(y)) => x == y,
        (Option::None, Option::None) => true,
        _ => false,
    }
}

fn eq_text_anchor(a: Option<TextAnchor>, b: Option<TextAnchor>) -> (r: bool)
    ensures
        r == (a == b),
{
    match (a, b) {
        (Option::Some(x), Option::Some(y)) => x == y,
        (Option::None, Option::None) => true,
        _ => false,
    }
}

fn eq_text_decoration(a: Option<TextDecoration>, b: Option<TextDecoration>) -> (r: bool)
    ensures
        r == (a == b),
{
    match (a, b) {
        (Option::Some(x), Option::Some(y)) => x == y,
        (Option::None, Option::None) => true,
        _ => false,
    }
}

fn eq_text_rendering(a: Option<TextRendering>, b: Option<TextRendering>) -> (r: bool)
    ensures
        r == (a == b),
{
    match (a, b) {
        (Option::Some(x), Option::Some(y)) => x == y,
        (Option::None, Option::None) => true,
        _ => false,
    }
}

fn eq_unicode_bidi(a: Option<UnicodeBidi>, b: Option<UnicodeBidi>) -> (r: bool)
    ensures
        r == (a == b),
{
    match (a, b) {
        (Option::Some(x), Option::Some(y)) => x == y,
        (Option::None, Option::None) => true,
        _ => false,
    }
}

fn eq_visibility(a: Option<Visibility>, b: Option<Visibility>) -> (r: bool)
    ensures
        r == (a == b),
{
    match (a, b) {
        (Option::Some(x), Option::Some(y)) => x == y,
        (Option::None, Option::None) => true,
        _ => false,
    }
}

fn eq_xml_space(a: Option<XmlSpace>, b: Option<XmlSpace>) -> (r: bool)
    ensures
        r == (a == b),
{
    match (a, b) {
        (Option::Some(x), Option::Some(y)) => x == y,
        (Option::None, Option::None) => true,
        _ => false,
    }
}

impl State {
    /// Whether two states agree on every property slot and the transform,
    /// comparing the string-valued properties by their characters.
    pub fn same_as(&self, other: &State) -> (r: bool)
        ensures
            r == congruent(*self, *other),
    {
        let ok_baseline_shift = eq_baseline_shift(self.baseline_shift, other.baseline_shift);
        let ok_clip_rule = eq_clip_rule(self.clip_rule, other.clip_rule);
        let ok_comp_op = eq_comp_op(self.comp_op, other.comp_op);
        let ok_display = eq_display(self.display, other.display);
        let ok_enable_background = eq_enable_background(self.enable_background, other.enable_background);
        let ok_fill_rule = eq_fill_rule(self.fill_rule, other.fill_rule);
        let ok_font_size = eq_font_size(self.font_size, other.font_size);
        let ok_font_stretch = eq_font_stretch(self.font_stretch, other.font_stretch);
        let ok_font_style = eq_font_style(self.font_style, other.font_style);
        let ok_font_variant = eq_font_variant(self.font_variant, other.font_variant);
        let ok_font_weight = eq_font_weight(self.font_weight, other.font_weight);
        let ok_letter_spacing = eq_letter_spacing(self.letter_spacing, other.letter_spacing);
        let ok_overflow = eq_overflow(self.overflow, other.overflow);
        let ok_shape_rendering = eq_shape_rendering(self.shape_rendering, other.shape_rendering);
        let ok_stroke_line_cap = eq_stroke_line_cap(self.stroke_line_cap, other.stroke_line_cap);
        let ok_stroke_line_join = eq_stroke_line_join(self.stroke_line_join, other.stroke_line_join);
        let ok_stroke_miterlimit = eq_stroke_miterlimit(self.stroke_miterlimit, other.stroke_miterlimit);
        let ok_stroke_width = eq_stroke_width(self.stroke_width, other.stroke_width);
        let ok_text_anchor = eq_text_anchor(self.text_anchor, other.text_anchor);
        let ok_text_decoration = eq_text_decoration(self.text_decoration, other.text_decoration);
        let ok_text_rendering = eq_text_rendering(self.text_rendering, other.text_rendering);
        let ok_unicode_bidi = eq_unicode_bidi(self.unicode_bidi, other.unicode_bidi);
        let ok_visibility = eq_visibility(self.visibility, other.visibility);
        let ok_xml_space = eq_xml_space(self.xml_space, other.xml_space);
        let ok_font_family = match (&self.font_family, &other.font_family) {
            (Option::Some(a), Option::Some(b)) => a.0.eq(&b.0),
            (Option::None, Option::None) => true,
            _ => false,
        };
        let ok_xml_lang = match (&self.xml_lang, &other.xml_lang) {
            (Option::Some(a), Option::Some(b)) => a.0.eq(&b.0),
            (Option::None, Option::None) => true,
            _ => false,
        };
        self.affine == other.affine && ok_baseline_shift && ok_clip_rule && ok_comp_op && ok_display && ok_enable_background && ok_fill_rule && ok_font_size && ok_font_stretch && ok_font_style && ok_font_variant && ok_font_weight && ok_letter_spacing && ok_overflow && ok_shape_rendering && ok_stroke_line_cap && ok_stroke_line_join && ok_stroke_miterlimit && ok_stroke_width && ok_text_anchor && ok_text_decoration && ok_text_rendering && ok_unicode_bidi && ok_visibility && ok_xml_space && ok_font_family
            && ok_xml_lang
    }
}

/// Whether `parse_style_pair` accepts this attribute value. Success never
/// depends on the current state.
pub open spec fn style_pair_ok(attr: Attribute, v: Seq<char>) -> bool {
    match attr {
        Attribute::ClipRule => is_inherit(v) || ClipRule::spec_parse(trimmed(v)) is Some,
        Attribute::CompOp => is_inherit(v) || CompOp::spec_parse(trimmed(v)) is Some,
        Attribute::FillRule => is_inherit(v) || FillRule::spec_parse(trimmed(v)) is Some,
        Attribute::FontStretch => is_inherit(v) || FontStretch::spec_parse(trimmed(v)) is Some,
        Attribute::FontStyle => is_inherit(v) || FontStyle::spec_parse(trimmed(v)) is Some,
        Attribute::FontVariant => is_inherit(v) || FontVariant::spec_parse(trimmed(v)) is Some,
        Attribute::FontWeight => is_inherit(v) || FontWeight::spec_parse(trimmed(v)) is Some,
        Attribute::Display => is_inherit(v) || Display::spec_parse(trimmed(v)) is Some,
        Attribute::EnableBackground => is_inherit(v) || EnableBackground::spec_parse(trimmed(v)) is Some,
        Attribute::Overflow => is_inherit(v) || Overflow::spec_parse(trimmed(v)) is Some,
        Attribute::ShapeRendering => is_inherit(v) || ShapeRendering::spec_parse(trimmed(v)) is Some,
        Attribute::StrokeLinecap => is_inherit(v) || StrokeLinecap::spec_parse(trimmed(v)) is Some,
        Attribute::StrokeLinejoin => is_inherit(v) || StrokeLinejoin::spec_parse(trimmed(v)) is Some,
        Attribute::TextAnchor => is_inherit(v) || TextAnchor::spec_parse(trimmed(v)) is Some,
        Attribute::TextRendering => is_inherit(v) || TextRendering::spec_parse(trimmed(v)) is Some,
        Attribute::UnicodeBidi => is_inherit(v) || UnicodeBidi::spec_parse(trimmed(v)) is Some,
        Attribute::Visibility => is_inherit(v) || Visibility::spec_parse(trimmed(v)) is Some,
        Attribute::FontSize => length_slot_ok(v),
        Attribute::LetterSpacing => length_slot_ok(v),
        Attribute::StrokeWidth => length_slot_ok(v),
        Attribute::BaselineShift => is_inherit(v) || BaselineShift::spec_parse(trimmed(v)) is Some,
        Attribute::StrokeMiterlimit => number_slot_ok(v),
        Attribute::XmlSpace => XmlSpace::spec_parse(trimmed(v)) is Some,
        _ => true,
    }
}

/// The state `parse_style_pair` leaves behind on success, up to string
/// representation: the two string-valued slots hold the given value.
pub open spec fn spec_apply_style(st: State, attr: Attribute, value: String) -> State {
    match attr {
        Attribute::ClipRule => State {
            clip_rule: if is_inherit(value@) {
                Option::None
            } else {
                ClipRule::spec_parse(trimmed(value@))
            },
            ..st
        },
        Attribute::CompOp => State {
            comp_op: if is_inherit(value@) {
                Option::None
            } else {
                CompOp::spec_parse(trimmed(value@))
            },
            ..st
        },
        Attribute::FillRule => State {
            fill_rule: if is_inherit(value@) {
                Option::None
            } else {
                FillRule::spec_parse(trimmed(value@))
            },
            ..st
        },
        Attribute::FontStretch => State {
            font_stretch: if is_inherit(value@) {
                Option::None
            } else {
                FontStretch::spec_parse(trimmed(value@))
            },
            ..st
        },
        Attribute::FontStyle => State {
            font_style: if is_inherit(value@) {
                Option::None
            } else {
                FontStyle::spec_parse(trimmed(value@))
            },
            ..st
        },
        Attribute::FontVariant => State {
            font_variant: if is_inherit(value@) {
                Option::None
            } else {
                FontVariant::spec_parse(trimmed(value@))
            },
            ..st
        },
        Attribute::FontWeight => State {
            font_weight: if is_inherit(value@) {
                Option::None
            } else {
                FontWeight::spec_parse(trimmed(value@))
            },
            ..st
        },
        Attribute::Display => State {
            display: if is_inherit(value@) {
                Option::None
            } else {
                Display::spec_parse(trimmed(value@))
            },
            ..st
        },
        Attribute::EnableBackground => State {
            enable_background: if is_inherit(value@) {
                Option::None
            } else {
                EnableBackground::spec_parse(trimmed(value@))
            },
            ..st
        },
        Attribute::Overflow => State {
            overflow: if is_inherit(value@) {
                Option::None
            } else {
                Overflow::spec_parse(trimmed(value@))
            },
            ..st
        },
        Attribute::ShapeRendering => State {
            shape_rendering: if is_inherit(value@) {
                Option::None
            } else {
                ShapeRendering::spec_parse(trimmed(value@))
            },
            ..st
        },
        Attribute::StrokeLinecap => State {
            stroke_line_cap: if is_inherit(value@) {
                Option::None
            } else {
                StrokeLinecap::spec_parse(trimmed(value@))
            },
            ..st
        },
        Attribute::StrokeLinejoin => State {
            stroke_line_join: if is_inherit(value@) {
                Option::None
            } else {
                StrokeLinejoin::spec_parse(trimmed(value@))
            },
            ..st
        },
        Attribute::TextAnchor => State {
            text_anchor: if is_inherit(value@) {
                Option::None
            } else {
                TextAnchor::spec_parse(trimmed(value@))
            },
            ..st
        },
        Attribute::TextRendering => State {
            text_rendering: if is_inherit(value@) {
                Option::None
            } else {
                TextRendering::spec_parse(trimmed(value@))
            },
            ..st
        },
        Attribute::UnicodeBidi => State {
            unicode_bidi: if is_inherit(value@) {
                Option::None
            } else {
                UnicodeBidi::spec_parse(trimmed(value@))
            },
            ..st
        },
        Attribute::Visibility => State {
            visibility: if is_inherit(value@) {
                Option::None
            } else {
                Visibility::spec_parse(trimmed(value@))
            },
            ..st
        },
        Attribute::FontSize => State {
            font_size: match spec_length_slot(value@, LengthDir::Both) {
                Option::Some(l) => Option::Some(FontSize(l)),
                Option::None => Option::None,
            },
            ..st
        },
        Attribute::LetterSpacing => State {
            letter_spacing: match spec_length_slot(value@, LengthDir::Horizontal) {
                Option::Some(l) => Option::Some(LetterSpacing(l)),
                Option::None => Option::None,
            },
            ..st
        },
        Attribute::StrokeWidth => State {
            stroke_width: match spec_length_slot(value@, LengthDir::Both) {
                Option::Some(l) => Option::Some(StrokeWidth(l)),
                Option::None => Option::None,
            },
            ..st
        },
        Attribute::BaselineShift => State {
            baseline_shift: if is_inherit(value@) {
                Option::None
            } else {
                Option::Some(
                    BaselineShift(
                        Ratio {
                            num: BaselineShift::spec_parse(trimmed(value@))->Some_0.0 as i64,
                            den: BaselineShift::spec_parse(trimmed(value@))->Some_0.1 as i64,
                        },
                    ),
                )
            },
            ..st
        },
        Attribute::StrokeMiterlimit => State {
            stroke_miterlimit: match spec_number_slot(value@) {
                Option::Some(n) => Option::Some(StrokeMiterlimit(n)),
                Option::None => Option::None,
            },
            ..st
        },
        Attribute::TextDecoration => State {
            text_decoration: if is_inherit(value@) {
                Option::None
            } else {
                Option::Some(
                    TextDecoration {
                        overline: contains_seq(value@, "overline"@),
                        underline: contains_seq(value@, "underline"@),
                        strike: contains_seq(value@, "strike"@) || contains_seq(
                            value@,
                            "line-through"@,
                        ),
                    },
                )
            },
            ..st
        },
        Attribute::FontFamily => State {
            font_family: if is_inherit(value@) {
                Option::None
            } else {
                Option::Some(FontFamily(value))
            },
            ..st
        },
        Attribute::XmlLang => State { xml_lang: Option::Some(XmlLang(value)), ..st },
        Attribute::XmlSpace => State { xml_space: XmlSpace::spec_parse(trimmed(value@)), ..st },
        _ => st,
    }
}

/// The state that rebuilding from a node's ancestor chain produces: start
/// from the given state, and from the root downwards take every slot each
/// ancestor (the node itself included) explicitly sets. A root node
/// contributes nothing.
pub open spec fn spec_reconstruct(t: crate::node::Tree, node: int, st: State) -> State
    decreases node,
{
    if t.nodes[node].parent is Some {
        let p = t.nodes[node].parent->Some_0;
        if 0 <= p < node {
            run_inherit(
                spec_reconstruct(t, p as int, st),
                t.nodes[node].state,
                InheritControl::Inherit,
                true,
            )
        } else {
            st
        }
    } else {
        st
    }
}

/// Rebuilds a cascade state from a node's ancestor chain, root first, so
/// that the nearest ancestor's explicit slots win.
pub fn reconstruct(tree: &crate::node::Tree, node: usize, state: &mut State)
    requires
        tree.wf(),
        node < tree.nodes@.len(),
        old(state).wf(),
    ensures
        final(state).wf(),
        *final(state) == spec_reconstruct(*tree, node as int, *old(state)),
    decreases node,
{
    match tree.get_parent(node) {
        Option::Some(p) => {
            proof {
                assert(p < node);
            }
            reconstruct(tree, p, state);
            inherit(state, tree.get_state(node));
        },
        Option::None => {},
    }
}

/// Law: the forcing cascade mode leaves the accumulated transform exactly
/// as it was while every style slot, the two non-auto-inheriting ones
/// included, becomes the source's, whatever the source state holds.
pub proof fn lemma_force_replaces_styles(dst: State, src: State)
    ensures
        run_inherit(dst, src, InheritControl::Force, true) == (State {
            affine: dst.affine,
            ..src
        }),
{
    assert(run_inherit(dst, src, InheritControl::Force, true) == (State {
        affine: dst.affine,
        ..src
    }));
}

} // verus!

