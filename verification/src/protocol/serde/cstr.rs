//! Owned strings as a tagstruct carries them: bytes without a nul, which
//! the wire format terminates with one. They need not be UTF-8.

use vstd::prelude::*;

use super::wire::no_nul;

verus! {

/// An owned string without interior nul bytes.
#[derive(Debug, PartialEq, Eq)]
pub struct CString {
    bytes: Vec<u8>,
}

/// The error returned by [`CString::new`] when the bytes hold a nul; its
/// field is the position of the first one.
#[derive(Debug, Clone, Copy, PartialEq, Eq)]
pub struct NulError(pub usize);

impl View for CString {
    type V = Seq<u8>;

    closed spec fn view(&self) -> Seq<u8> {
        self.bytes@
    }
}

impl CString {
    /// A string holds no nul byte.
    #[verifier::type_invariant]
    pub open spec fn wf(self) -> bool {
        no_nul(self@)
    }

    /// Creates a string from bytes that hold no nul byte; fails with the
    /// position of the first nul otherwise.
    pub fn new(bytes: &[u8]) -> (r: Result<CString, NulError>)
        ensures
            no_nul(bytes@) <==> r is Ok,
            r matches Ok(c) ==> c@ == bytes@,
            r matches Err(NulError(i)) ==> i < bytes@.len() && bytes@[i as int] == 0 && no_nul(
                bytes@.subrange(0, i as int),
            ),
    {
        let mut i: usize = 0;
        while i < bytes.len()
            invariant
                i <= bytes@.len(),
                forall|k: int| 0 <= k < i ==> bytes@[k] != 0,
            decreases bytes@.len() - i,
        {
            if bytes[i] == 0 {
                assert(no_nul(bytes@.subrange(0, i as int)));
                return Err(NulError(i));
            }
            i = i + 1;
        }
        Ok(CString { bytes: vstd::slice::slice_to_vec(bytes) })
    }

    /// Creates a string from bytes known to hold no nul byte.
    pub fn from_vec_unchecked(bytes: Vec<u8>) -> (r: CString)
        requires
            no_nul(bytes@),
        ensures
            r@ == bytes@,
    {
        CString { bytes }
    }

    /// The bytes of the string, without a terminating nul.
    pub fn as_bytes(&self) -> (r: &[u8])
        ensures
            r@ == self@,
    {
        self.bytes.as_slice()
    }

    /// The bytes of the string followed by a terminating nul.
    pub fn to_bytes_with_nul(&self) -> (r: Vec<u8>)
        ensures
            r@ == self@.push(0),
    {
        let mut v = vstd::slice::slice_to_vec(self.bytes.as_slice());
        v.push(0);
        v
    }

    /// Whether two strings hold the same bytes.
    pub fn bytes_eq(&self, other: &[u8]) -> (r: bool)
        ensures
            r == (self@ == other@),
    {
        let a = self.bytes.as_slice();
        if a.len() != other.len() {
            return false;
        }
        let mut i: usize = 0;
        while i < a.len()
            invariant
                a@ == self@,
                a@.len() == other@.len(),
                i <= a@.len(),
                forall|k: int| 0 <= k < i ==> a@[k] == other@[k],
            decreases a@.len() - i,
        {
            if a[i] != other[i] {
                return false;
            }
            i = i + 1;
        }
        assert(a@ =~= other@);
        true
    }

    /// The length of the string in bytes.
    pub fn len(&self) -> (r: usize)
        ensures
            r == self@.len(),
    {
        self.bytes.len()
    }

    /// Whether the string is empty.
    pub fn is_empty(&self) -> (r: bool)
        ensures
            r <==> self@.len() == 0,
    {
        self.bytes.len() == 0
    }

    /// Returns a copy of the string.
    pub fn duplicate(&self) -> (r: CString)
        ensures
            r@ == self@,
    {
        proof {
            use_type_invariant(self);
        }
        CString { bytes: vstd::slice::slice_to_vec(self.bytes.as_slice()) }
    }
}

impl Clone for CString {
    fn clone(&self) -> (r: Self)
        ensures
            r@ == self@,
    {
        self.duplicate()
    }
}

} // verus!
