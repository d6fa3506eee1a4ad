//! The renderable output: a module with a style and ordered segments.

use vstd::prelude::*;

verus! {

/// Text colors a segment style can carry.
#[derive(Clone, Copy, PartialEq, Eq, Structural, Debug)]
pub enum Color {
    Black,
    Red,
    Green,
    Yellow,
    Blue,
    Purple,
    Cyan,
    White,
}

/// A rendering style: a foreground color and an optional bold weight.
#[derive(Clone, Copy, PartialEq, Eq, Structural, Debug)]
pub struct Style {
    pub color: Color,
    pub bold: bool,
}

/// The smallest renderable unit: a named text fragment.
#[derive(Clone, PartialEq, Eq, Debug)]
pub struct Segment {
    pub name: String,
    pub text: String,
}

/// Mathematical image of a `Segment`.
pub struct SegmentView {
    pub name: Seq<char>,
    pub text: Seq<char>,
}

impl View for Segment {
    type V = SegmentView;

    open spec fn view(&self) -> SegmentView {
        SegmentView { name: self.name@, text: self.text@ }
    }
}

/// One detected prompt module: a fixed name, a resolved style, and its
/// segments in display order.
#[derive(Clone, PartialEq, Eq, Debug)]
pub struct Module {
    pub name: String,
    pub style: Style,
    pub segments: Vec<Segment>,
}

/// Mathematical image of a `Module`.
pub struct ModuleView {
    pub name: Seq<char>,
    pub style: Style,
    pub segments: Seq<SegmentView>,
}

impl View for Module {
    type V = ModuleView;

    open spec fn view(&self) -> ModuleView {
        ModuleView {
            name: self.name@,
            style: self.style,
            segments: Seq::new(self.segments@.len(), |i: int| self.segments@[i]@),
        }
    }
}

impl Module {
    /// A fresh module with no segments yet.
    pub fn new(name: &str, style: Style) -> (m: Module)
        ensures
            m@.name == name@,
            m@.style == style,
            m@.segments == Seq::<SegmentView>::empty(),
    {
        let m = Module { name: String::from_str(name), style, segments: Vec::new() };
        proof {
            assert(m@.segments =~= Seq::<SegmentView>::empty());
        }
        m
    }

    /// Append one segment; name and style are untouched.
    pub fn new_segment(&mut self, name: &str, text: &str)
        ensures
            final(self)@.name == old(self)@.name,
            final(self)@.style == old(self)@.style,
            final(self)@.segments == old(self)@.segments.push(
                SegmentView { name: name@, text: text@ },
            ),
    {
        self.segments.push(Segment { name: String::from_str(name), text: String::from_str(text) });
        proof {
            assert(final(self)@.segments =~= old(self)@.segments.push(
                SegmentView { name: name@, text: text@ },
            ));
        }
    }
}

/// The default style when no override is configured: bold green.
pub open spec fn spec_default_style() -> Style {
    Style { color: Color::Green, bold: true }
}

/// The style the module renders with: the configured override if present,
/// else the default.
pub open spec fn spec_resolve_style(o: Option<Style>) -> Style {
    match o {
        Some(s) => s,
        None => spec_default_style(),
    }
}

/// Resolve the style override from configuration against the default.
pub fn resolve_style(o: Option<Style>) -> (r: Style)
    ensures
        r == spec_resolve_style(o),
{
    match o {
        Some(s) => s,
        None => Style { color: Color::Green, bold: true },
    }
}

} // verus!
