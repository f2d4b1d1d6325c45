//! Courts and the non-empty list of them that the renderers work on.

use vstd::prelude::*;

verus! {

/// One court: its name as people write it, and its acronym.
#[derive(Debug, PartialEq, Eq)]
pub struct Court {
    pub name: String,
    pub acronym: String,
}

/// The mathematical value of a [`Court`].
pub struct CourtView {
    pub name: Seq<char>,
    pub acronym: Seq<char>,
}

impl View for Court {
    type V = CourtView;

    open spec fn view(&self) -> CourtView {
        CourtView { name: self.name@, acronym: self.acronym@ }
    }
}

/// The values of a sequence of courts, in the same order.
pub open spec fn court_views(courts: Seq<Court>) -> Seq<CourtView> {
    courts.map_values(|court: Court| court@)
}

/// A list of courts in the order in which their records came. It is never
/// empty.
#[derive(Debug)]
pub struct Courts {
    inner: Vec<Court>,
}

impl View for Courts {
    type V = Seq<CourtView>;

    closed spec fn view(&self) -> Seq<CourtView> {
        court_views(self.inner@)
    }
}

impl Courts {
    #[verifier::type_invariant]
    spec fn holds_a_court(self) -> bool {
        self.inner@.len() > 0
    }

    /// Makes a list of `courts`, in their order; `None` where there is none.
    pub fn new(courts: Vec<Court>) -> (list: Option<Courts>)
        ensures
            match list {
                Some(list) => courts@.len() > 0 && list@ == court_views(courts@),
                None => courts@.len() == 0,
            },
    {
        if courts.len() == 0 {
            None
        } else {
            Some(Courts { inner: courts })
        }
    }

    /// The courts, first to last.
    pub fn as_slice(&self) -> (courts: &[Court])
        ensures
            courts@.len() > 0,
            court_views(courts@) == self@,
    {
        proof {
            use_type_invariant(self);
        }
        self.inner.as_slice()
    }
}

} // verus!
