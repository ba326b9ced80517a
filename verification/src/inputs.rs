//! The byte-buffer input entity that every mutation operator transforms.
use vstd::prelude::*;

verus! {

/// A test input owning a mutable, variable-length sequence of bytes.
/// Its identity is its content; the mutation core touches nothing else.
#[derive(Clone, Debug)]
pub struct BytesInput {
    pub bytes: Vec<u8>,
}

impl View for BytesInput {
    type V = Seq<u8>;

    open spec fn view(&self) -> Seq<u8> {
        self.bytes@
    }
}

impl BytesInput {
    pub fn new(bytes: Vec<u8>) -> (r: BytesInput)
        ensures
            r@ == bytes@,
    {
        BytesInput { bytes }
    }

    pub fn len(&self) -> (r: usize)
        ensures
            r == self@.len(),
    {
        self.bytes.len()
    }

    pub fn bytes(&self) -> (r: &Vec<u8>)
        ensures
            r@ == self@,
    {
        &self.bytes
    }
}

} // verus!
