//! Plain-value models of the protocol data that the flows read: encoded fragments and the
//! parts of a status response that decide how a command ends.

use crate::message::LiteralMode;
use vstd::prelude::*;

verus! {

/// A piece of an encoded message: a line, or a literal that may need the peer's consent.
#[derive(Clone, Debug, Eq, PartialEq)]
pub enum Fragment {
    /// A line that is ready to be sent.
    Line { data: Vec<u8> },
    /// A literal that may require an action before it is sent.
    Literal { data: Vec<u8>, mode: LiteralMode },
}

/// Mathematical view of a [`Fragment`].
pub enum FragmentView {
    Line { data: Seq<u8> },
    Literal { data: Seq<u8>, mode: LiteralMode },
}

impl View for Fragment {
    type V = FragmentView;

    open spec fn view(&self) -> FragmentView {
        match self {
            Fragment::Line { data } => FragmentView::Line { data: data@ },
            Fragment::Literal { data, mode } => FragmentView::Literal { data: data@, mode: *mode },
        }
    }
}

impl FragmentView {
    pub open spec fn data(self) -> Seq<u8> {
        match self {
            FragmentView::Line { data } => data,
            FragmentView::Literal { data, .. } => data,
        }
    }
}

/// Views of a sequence of fragments.
pub open spec fn fragment_views(s: Seq<Fragment>) -> Seq<FragmentView> {
    s.map_values(|f: Fragment| f@)
}

/// All bytes of the fragments, in order.
pub open spec fn flatten(s: Seq<FragmentView>) -> Seq<u8>
    decreases s.len(),
{
    if s.len() == 0 {
        Seq::empty()
    } else {
        s[0].data() + flatten(s.drop_first())
    }
}

/// Outcome of a status response.
#[derive(Clone, Copy, Debug, Eq, PartialEq, Structural)]
pub enum StatusKind {
    Okay,
    No,
    Bad,
}

/// The parts of a status response that the flows read: the tag (`None` for untagged and
/// BYE responses) and the kind.
#[derive(Clone, Debug, Eq, PartialEq)]
pub struct StatusInfo {
    pub tag: Option<Vec<u8>>,
    pub kind: StatusKind,
}

/// Byte-wise equality.
pub fn bytes_eq(a: &[u8], b: &[u8]) -> (res: bool)
    ensures
        res == (a@ == b@),
{
    if a.len() != b.len() {
        return false;
    }
    let mut i: usize = 0;
    while i < a.len()
        invariant
            a@.len() == b@.len(),
            i <= a@.len(),
            forall|j: int| 0 <= j < i ==> a@[j] == b@[j],
        decreases a@.len() - i,
    {
        if a[i] != b[i] {
            return false;
        }
        i = i + 1;
    }
    assert(a@ =~= b@);
    true
}

} // verus!
