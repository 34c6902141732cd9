//! Partial naming overrides and their fully-resolved form.

use vstd::prelude::*;
use vstd::string::StringExecFns;

verus! {

/// The abstract value of an optional string: the character sequence it
/// holds, if any.
pub open spec fn opt_view(o: Option<String>) -> Option<Seq<char>> {
    match o {
        Some(s) => Some(s@),
        None => None,
    }
}

/// Copies an optional string.
pub(crate) fn clone_opt_string(o: &Option<String>) -> (r: Option<String>)
    ensures
        r == *o,
{
    match o {
        Some(s) => Some(s.clone()),
        None => None,
    }
}

/// Whether two optional strings hold the same characters.
pub(crate) fn opt_string_eq(a: &Option<String>, b: &Option<String>) -> (r: bool)
    ensures
        r == (opt_view(*a) == opt_view(*b)),
{
    match (a, b) {
        (Some(x), Some(y)) => x.eq(y),
        (None, None) => true,
        _ => false,
    }
}

/// The abstract value of a [`Components`] override.
pub struct ComponentsView {
    pub prefix: Option<Seq<char>>,
    pub delimiter: Option<Seq<char>>,
    pub padding: Option<nat>,
    pub suffix: Option<Seq<char>>,
    pub extension: Option<Seq<char>>,
    pub frame_number: Option<nat>,
}

/// A partial naming override: each field, when present, replaces the
/// corresponding current value of an item; an absent field keeps it.
#[derive(Debug, Clone, PartialEq)]
pub struct Components {
    pub prefix: Option<String>,
    pub delimiter: Option<String>,
    pub padding: Option<usize>,
    pub suffix: Option<String>,
    pub extension: Option<String>,
    pub frame_number: Option<u32>,
}

impl View for Components {
    type V = ComponentsView;

    open spec fn view(&self) -> ComponentsView {
        ComponentsView {
            prefix: opt_view(self.prefix),
            delimiter: opt_view(self.delimiter),
            padding: match self.padding {
                Some(p) => Some(p as nat),
                None => None,
            },
            suffix: opt_view(self.suffix),
            extension: opt_view(self.extension),
            frame_number: match self.frame_number {
                Some(f) => Some(f as nat),
                None => None,
            },
        }
    }
}

/// The override that changes nothing.
pub open spec fn empty_components_view() -> ComponentsView {
    ComponentsView {
        prefix: None,
        delimiter: None,
        padding: None,
        suffix: None,
        extension: None,
        frame_number: None,
    }
}

impl Components {
    /// An override with every field absent: applying it changes nothing.
    pub fn new() -> (r: Self)
        ensures
            r@ == empty_components_view(),
    {
        Components {
            prefix: None,
            delimiter: None,
            padding: None,
            suffix: None,
            extension: None,
            frame_number: None,
        }
    }

    /// The same override with the prefix set.
    pub fn prefix(self, prefix: &str) -> (r: Self)
        ensures
            r@ == (ComponentsView { prefix: Some(prefix@), ..self@ }),
    {
        Components { prefix: Some(prefix.to_owned()), ..self }
    }

    /// The same override with the delimiter set.
    pub fn delimiter(self, delimiter: &str) -> (r: Self)
        ensures
            r@ == (ComponentsView { delimiter: Some(delimiter@), ..self@ }),
    {
        Components { delimiter: Some(delimiter.to_owned()), ..self }
    }

    /// The same override with the padding width set.
    pub fn padding(self, padding: usize) -> (r: Self)
        ensures
            r@ == (ComponentsView { padding: Some(padding as nat), ..self@ }),
    {
        Components { padding: Some(padding), ..self }
    }

    /// The same override with the suffix set.
    pub fn suffix(self, suffix: &str) -> (r: Self)
        ensures
            r@ == (ComponentsView { suffix: Some(suffix@), ..self@ }),
    {
        Components { suffix: Some(suffix.to_owned()), ..self }
    }

    /// The same override with the extension set.
    pub fn extension(self, extension: &str) -> (r: Self)
        ensures
            r@ == (ComponentsView { extension: Some(extension@), ..self@ }),
    {
        Components { extension: Some(extension.to_owned()), ..self }
    }

    /// The same override with the frame number set.
    pub fn frame_number(self, frame_number: u32) -> (r: Self)
        ensures
            r@ == (ComponentsView { frame_number: Some(frame_number as nat), ..self@ }),
    {
        Components { frame_number: Some(frame_number), ..self }
    }

    /// A copy of this override with only the frame number replaced: one
    /// shared override applied across many items, each keeping its own
    /// frame identity.
    pub fn with_frame_number(&self, frame_number: u32) -> (r: Components)
        ensures
            r@ == (ComponentsView { frame_number: Some(frame_number as nat), ..self@ }),
    {
        Components {
            prefix: clone_opt_string(&self.prefix),
            delimiter: clone_opt_string(&self.delimiter),
            padding: self.padding,
            suffix: clone_opt_string(&self.suffix),
            extension: clone_opt_string(&self.extension),
            frame_number: Some(frame_number),
        }
    }
}

impl Default for Components {
    /// Same as [`Components::new`]: the override that changes nothing.
    fn default() -> (r: Self)
        ensures
            r@ == empty_components_view(),
    {
        Components::new()
    }
}

/// The abstract value of a [`ResolvedComponents`].
pub struct ResolvedView {
    pub prefix: Seq<char>,
    pub delimiter: Seq<char>,
    pub padding: nat,
    pub suffix: Seq<char>,
    pub extension: Seq<char>,
    pub frame_number: nat,
}

/// A fully-specified naming description: the result of merging an override
/// onto an item's current values, with no absent fields left.
#[derive(Debug, Clone, PartialEq)]
pub struct ResolvedComponents {
    pub prefix: String,
    pub delimiter: String,
    pub padding: usize,
    pub suffix: String,
    pub extension: String,
    pub frame_number: u32,
}

impl View for ResolvedComponents {
    type V = ResolvedView;

    open spec fn view(&self) -> ResolvedView {
        ResolvedView {
            prefix: self.prefix@,
            delimiter: self.delimiter@,
            padding: self.padding as nat,
            suffix: self.suffix@,
            extension: self.extension@,
            frame_number: self.frame_number as nat,
        }
    }
}

} // verus!
