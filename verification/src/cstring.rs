//! An owned nul-terminated byte string. The content never holds an interior
//! nul, so appending the terminator always yields a well-formed C string.

use vstd::prelude::*;

verus! {

/// A byte string that a nul terminator can be appended to: its content is
/// guaranteed free of interior nul bytes.
#[derive(Debug)]
pub struct MallocCString {
    bytes: Vec<u8>,
}

impl View for MallocCString {
    type V = Seq<u8>;

    /// The content, without the nul terminator.
    closed spec fn view(&self) -> Seq<u8> {
        self.bytes@
    }
}

impl MallocCString {
    /// No byte of the content is nul.
    pub open spec fn wf(self) -> bool {
        forall|j: int| 0 <= j < self@.len() ==> self@[j] != 0
    }

    /// Copy the given data in, rejecting it with the position of the first
    /// nul byte when it holds one.
    pub fn new(bytes: &Vec<u8>) -> (r: Result<Self, usize>)
        ensures
            r is Ok <==> (forall|j: int| 0 <= j < bytes@.len() ==> bytes@[j] != 0),
            r matches Ok(s) ==> s.wf() && s@ == bytes@,
            r matches Err(i) ==> i < bytes@.len() && bytes@[i as int] == 0 && forall|j: int|
                0 <= j < i ==> bytes@[j] != 0,
    {
        Self::create(bytes)
    }

    fn create(bytes: &Vec<u8>) -> (r: Result<Self, usize>)
        ensures
            r is Ok <==> (forall|j: int| 0 <= j < bytes@.len() ==> bytes@[j] != 0),
            r matches Ok(s) ==> s.wf() && s@ == bytes@,
            r matches Err(i) ==> i < bytes@.len() && bytes@[i as int] == 0 && forall|j: int|
                0 <= j < i ==> bytes@[j] != 0,
    {
        let mut out: Vec<u8> = Vec::new();
        let mut i: usize = 0;
        while i < bytes.len()
            invariant
                i <= bytes@.len(),
                out@ == bytes@.subrange(0, i as int),
                forall|j: int| 0 <= j < i ==> bytes@[j] != 0,
            decreases bytes@.len() - i,
        {
            let b = bytes[i];
            if b == 0 {
                return Err(i);
            }
            out.push(b);
            i += 1;
            proof {
                assert(out@ =~= bytes@.subrange(0, i as int));
            }
        }
        proof {
            assert(out@ =~= bytes@);
        }
        Ok(MallocCString { bytes: out })
    }

    /// The content, without the trailing nul.
    pub fn as_bytes(&self) -> (r: &Vec<u8>)
        ensures
            r@ == self@,
    {
        &self.bytes
    }

    /// The content with the trailing nul appended.
    pub fn as_bytes_with_nul(&self) -> (r: Vec<u8>)
        ensures
            r@ == self@.push(0u8),
    {
        let mut out = vstd::slice::slice_to_vec(self.bytes.as_slice());
        out.push(0);
        out
    }

    /// The number of content bytes, the nul terminator not counted.
    pub fn len(&self) -> (r: usize)
        ensures
            r == self@.len(),
    {
        self.bytes.len()
    }
}

} // verus!
