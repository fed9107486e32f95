//! The shared data model: inbound requests, canonical annotations, and the
//! closed set of backend providers.

use vstd::prelude::*;

verus! {

/// An inbound annotation request: an image in a transportable text encoding
/// (base64) together with a natural-language prompt.
pub struct SendRequest {
    pub image_base64: String,
    pub prompt: String,
}

/// One canonical spatial annotation: a point stored as `[row, column]`
/// (non-negative integers) and a text label.
pub struct DetectionPoint {
    pub point: [u32; 2],
    pub label: String,
}

/// The mathematical model of a [`DetectionPoint`]: both coordinates and the
/// label's character sequence.
pub ghost struct SpecAnnotation {
    pub row: u32,
    pub col: u32,
    pub label: Seq<char>,
}

impl View for DetectionPoint {
    type V = SpecAnnotation;

    open spec fn view(&self) -> SpecAnnotation {
        SpecAnnotation { row: self.point[0], col: self.point[1], label: self.label@ }
    }
}

/// The closed set of configured backend variants.
#[derive(Clone, Copy, PartialEq, Eq, Structural)]
pub enum Provider {
    /// Sends the image inline in the payload and authenticates by query
    /// parameter (Gemini-style).
    ImageInline,
    /// Posts to a locally hosted inference endpoint, no credential required
    /// (Qwen-style).
    LocalInference,
}

/// Whether a provider reports points in `(column, row)` order, so that the
/// normalizer must swap the two components into the canonical `(row, column)`
/// convention.
pub open spec fn spec_swaps_axes(p: Provider) -> bool {
    p is LocalInference
}

/// Exec mirror of [`spec_swaps_axes`].
pub fn swaps_axes(p: Provider) -> (r: bool)
    ensures
        r == spec_swaps_axes(p),
{
    match p {
        Provider::ImageInline => false,
        Provider::LocalInference => true,
    }
}

} // verus!
