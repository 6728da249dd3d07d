//! Rendered output of a successful compilation.
use vstd::prelude::*;

verus! {

/// The output format that a compilation was asked for.
#[derive(Clone, Copy, Debug, PartialEq, Eq, Structural)]
pub enum OutputFormat {
    Svg,
    Html,
}

/// Rendered output: one SVG document per page, or one HTML document.
#[derive(Debug)]
pub enum Output {
    Svg(Vec<String>),
    Html(String),
}

impl Output {
    /// The pages of an SVG output, or `None` for any other format.
    pub fn svg(self) -> (r: Option<Vec<String>>)
        ensures
            self matches Output::Svg(pages) ==> r == Some(pages),
            !(self is Svg) ==> r is None,
    {
        if let Output::Svg(pages) = self {
            Some(pages)
        } else {
            None
        }
    }

    /// The document of an HTML output, or `None` for any other format.
    pub fn html(self) -> (r: Option<String>)
        ensures
            self matches Output::Html(document) ==> r == Some(document),
            !(self is Html) ==> r is None,
    {
        if let Output::Html(document) = self {
            Some(document)
        } else {
            None
        }
    }
}

} // verus!
