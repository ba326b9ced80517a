//! The corpus boundary: previously accepted inputs, sampled by the splice
//! operator. Only the surface the mutation core relies on is modelled here.
use vstd::prelude::*;

use crate::inputs::BytesInput;
use crate::rand::Rand;
use crate::AflError;

verus! {

/// A corpus entry wrapping an input that may not have been materialized in
/// memory yet; an absent input is a valid outcome that makes samplers skip.
pub struct Testcase {
    pub input: Option<BytesInput>,
}

impl View for Testcase {
    type V = Option<Seq<u8>>;

    open spec fn view(&self) -> Option<Seq<u8>> {
        match self.input {
            Some(i) => Some(i@),
            None => None,
        }
    }
}

impl Testcase {
    pub fn with_input(input: BytesInput) -> (r: Testcase)
        ensures
            r@ == Some(input@),
    {
        Testcase { input: Some(input) }
    }

    pub fn empty() -> (r: Testcase)
        ensures
            r@ == None::<Seq<u8>>,
    {
        Testcase { input: None }
    }

    /// The wrapped input, if it has been loaded.
    pub fn input(&self) -> (r: &Option<BytesInput>)
        ensures
            r is Some <==> self@ is Some,
            r is Some ==> r->0@ == self@->0,
    {
        &self.input
    }
}

/// An in-memory corpus: a sequence of testcases offering uniform random
/// sampling, fallible when empty.
pub struct InMemoryCorpus {
    pub entries: Vec<Testcase>,
}

impl View for InMemoryCorpus {
    type V = Seq<Option<Seq<u8>>>;

    open spec fn view(&self) -> Seq<Option<Seq<u8>>> {
        Seq::new(self.entries@.len(), |i: int| self.entries@[i]@)
    }
}

impl InMemoryCorpus {
    pub fn new() -> (r: InMemoryCorpus)
        ensures
            r@.len() == 0,
    {
        InMemoryCorpus { entries: Vec::new() }
    }

    pub fn count(&self) -> (r: usize)
        ensures
            r == self@.len(),
    {
        self.entries.len()
    }

    pub fn add(&mut self, testcase: Testcase)
        ensures
            final(self)@ == old(self)@.push(testcase@),
    {
        self.entries.push(testcase);
        proof {
            assert(self@ =~= old(self)@.push(testcase@));
        }
    }

    /// Sample one entry uniformly at random; errs only on an empty corpus.
    pub fn random_entry<R: Rand>(&self, rand: &mut R) -> (r: Result<&Testcase, AflError>)
        ensures
            self@.len() == 0 <==> r is Err,
            r is Err ==> r->Err_0 == AflError::Empty,
            r matches Ok(t) ==> exists|k: int| 0 <= k < self@.len() && t@ == self@[k],
    {
        if self.entries.len() == 0 {
            Err(AflError::Empty)
        } else {
            let idx = rand.below(self.entries.len() as u64) as usize;
            let t = &self.entries[idx];
            proof {
                assert(t@ == self@[idx as int]);
            }
            Ok(t)
        }
    }
}

} // verus!
