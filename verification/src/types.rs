//! Shared value types of the detection pipeline.

use vstd::prelude::*;

verus! {

/// The binarization view a finder proposal came from.
#[derive(Debug, Clone, Copy, PartialEq, Eq, Hash, PartialOrd, Ord, Structural)]
pub enum ProposalView {
    Otsu,
    Adaptive,
    Sauvola,
    GlareSuppressed,
}

impl ProposalView {
    /// The view's name as reported in telemetry.
    pub fn as_str(self) -> (s: &'static str)
        ensures
            s@ == match self {
                ProposalView::Otsu => "otsu"@,
                ProposalView::Adaptive => "adaptive"@,
                ProposalView::Sauvola => "sauvola"@,
                ProposalView::GlareSuppressed => "glare_suppressed"@,
            },
    {
        match self {
            ProposalView::Otsu => "otsu",
            ProposalView::Adaptive => "adaptive",
            ProposalView::Sauvola => "sauvola",
            ProposalView::GlareSuppressed => "glare_suppressed",
        }
    }
}

} // verus!
