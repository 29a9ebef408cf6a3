//! The specialization emulator of the code generator.
//!
//! The host language has no real trait specialization, so the generated
//! code picks between a full, a forwarding and a no-op implementation of a
//! capability through a chain of wrapper types: a default implementation
//! for `Wrap<&mut T>` for every `T`, and, one wrapping level deeper, a
//! bounded implementation for `Wrap<Wrap<&mut T>>` that forwards to the
//! real one.  Method resolution prefers the least-dereferenced candidate,
//! so the forwarding implementation wins exactly when the bound holds.
//!
//! This module models the builder that accumulates those wrapper
//! implementations.  A case records the capability it implements, the
//! wrapping depth of the implementing type, the bound guarding it, and the
//! method bodies to emit (carried opaquely).  The wrapping-depth
//! discipline — the default case at depth one, every bounded case one
//! level deeper than the case before it — is what the contracts pin down.

use vstd::prelude::*;

verus! {

/// One emitted wrapper implementation.
#[derive(Clone, Debug, PartialEq, Eq)]
pub struct SpecCase {
    /// The capability trait being implemented.
    pub trait_path: String,
    /// The wrapping depth of the implementing type: depth 1 is
    /// `Wrap<&mut T>`, depth 2 is `Wrap<Wrap<&mut T>>`, and so on.
    pub wrap_depth: u64,
    /// The bound guarding the case; the default case has none.
    pub bound: Option<String>,
    /// The method bodies to emit, carried through unchanged.
    pub contents: String,
}

/// Mathematical mirror of `SpecCase`.
pub struct SpecCaseV {
    pub trait_path: Seq<char>,
    pub wrap_depth: u64,
    pub bound: Option<Seq<char>>,
    pub contents: Seq<char>,
}

impl View for SpecCase {
    type V = SpecCaseV;

    open spec fn view(&self) -> SpecCaseV {
        SpecCaseV {
            trait_path: self.trait_path@,
            wrap_depth: self.wrap_depth,
            bound: match &self.bound {
                Some(b) => Some(b@),
                None => None,
            },
            contents: self.contents@,
        }
    }
}

/// The view of a case list.
pub open spec fn cases_view(s: Seq<SpecCase>) -> Seq<SpecCaseV> {
    s.map(|i: int, c: SpecCase| c@)
}

/// Appending one case appends its view.
pub broadcast proof fn lemma_cases_view_push(s: Seq<SpecCase>, c: SpecCase)
    ensures
        #[trigger] cases_view(s.push(c)) == cases_view(s).push(c@),
{
    assert(cases_view(s.push(c)) =~= cases_view(s).push(c@));
}

/// A builder for the chain of wrapper implementations.  The wrapper type
/// and its dereference plumbing are emitted once; the accumulated cases
/// follow.
#[derive(Clone, Debug, PartialEq, Eq)]
pub struct Specialization {
    pub cases: Vec<SpecCase>,
}

/// A builder for the cases of one capability trait, tracking the wrapping
/// depth at which the next bounded case will be emitted.
#[derive(Clone, Debug, PartialEq, Eq)]
pub struct TypeSpecialization {
    pub inner: Specialization,
    pub trait_path: String,
    pub next_depth: u64,
}

impl Specialization {
    /// A builder with the wrapper plumbing and no cases yet.
    pub fn new() -> (s: Self)
        ensures
            s.cases@.len() == 0,
    {
        Specialization { cases: Vec::new() }
    }

    /// Emit the default case of a capability: the implementation for
    /// `Wrap<&mut T>` with no bound, used when no deeper case applies.
    /// The next bounded case will sit one wrapping level deeper.
    pub fn default_case(self, trait_path: String, contents: String) -> (t: TypeSpecialization)
        ensures
            cases_view(t.inner.cases@) == cases_view(self.cases@).push(
                SpecCaseV {
                    trait_path: trait_path@,
                    wrap_depth: 1,
                    bound: None,
                    contents: contents@,
                },
            ),
            t.trait_path@ == trait_path@,
            t.next_depth == 2,
    {
        let mut cases = self.cases;
        let c = SpecCase { trait_path: trait_path.clone(), wrap_depth: 1, bound: None, contents };
        cases.push(c);
        TypeSpecialization {
            inner: Specialization { cases },
            trait_path,
            next_depth: 2,
        }
    }

    /// The accumulated wrapper implementations, in emission order.
    pub fn build(self) -> (r: Vec<SpecCase>)
        ensures
            r@ == self.cases@,
    {
        self.cases
    }
}

impl TypeSpecialization {
    /// Emit a bounded case of the capability at the current wrapping
    /// depth: it wins over the shallower cases exactly when the bound
    /// holds.  A further case would sit one level deeper still.
    pub fn add_case_for_bounds(self, bound: String, contents: String) -> (t: TypeSpecialization)
        requires
            self.next_depth < u64::MAX,
        ensures
            cases_view(t.inner.cases@) == cases_view(self.inner.cases@).push(
                SpecCaseV {
                    trait_path: self.trait_path@,
                    wrap_depth: self.next_depth,
                    bound: Some(bound@),
                    contents: contents@,
                },
            ),
            t.trait_path@ == self.trait_path@,
            t.next_depth == self.next_depth + 1,
    {
        let mut cases = self.inner.cases;
        let c = SpecCase {
            trait_path: self.trait_path.clone(),
            wrap_depth: self.next_depth,
            bound: Some(bound),
            contents,
        };
        cases.push(c);
        TypeSpecialization {
            inner: Specialization { cases },
            trait_path: self.trait_path,
            next_depth: self.next_depth + 1,
        }
    }

    /// Hand the underlying builder back, ready for another capability's
    /// cases.
    pub fn finish(self) -> (s: Specialization)
        ensures
            s.cases@ == self.inner.cases@,
    {
        self.inner
    }
}

} // verus!
