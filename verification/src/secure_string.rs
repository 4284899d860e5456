//! A wipe-on-drop, constant-time-comparable string for secret material.
//!
//! [`SecureString`] owns the byte buffer of a secret (an API key, a
//! password). The buffer is overwritten with zeros when the value's life
//! ends, and equality — two secrets are equal iff their bytes are
//! identical, length included — is decided by a branchless XOR-accumulate
//! over the paired bytes with the length comparison folded into one final
//! verdict, so the time it takes depends only on the lengths, never on
//! where the contents first differ. The comparison loop runs over every
//! paired byte: it never exits early on a mismatch. The type deliberately
//! has no `Debug`: a secret never reaches default formatting.

use crate::error::VectorStoreError;
use vstd::prelude::*;
use vstd::string::StrSliceExecFns;
use vstd::string::StringSliceAdditionalSpecFns;
use vstd::utf8::{decode_utf8, encode_utf8, valid_utf8};
use zeroize::Zeroize;

verus! {

/// A string holding secret material.
///
/// The backing memory is zeroed when the value is dropped, and comparisons
/// run in time independent of the contents.
#[derive(Clone)]
pub struct SecureString {
    inner: Vec<u8>,
    len: usize,
    capacity: usize,
}

impl View for SecureString {
    type V = Seq<u8>;

    /// A secure string is its secret bytes.
    closed spec fn view(&self) -> Seq<u8> {
        self.inner@
    }
}

/// Relies on std's `str::from_utf8`: on UTF-8-valid bytes it returns `Ok`
/// with the string slice viewing exactly those bytes, otherwise `Err`, which
/// is replaced here by the empty string.
#[verifier::external_body]
fn bytes_as_str(v: &Vec<u8>) -> (r: &str)
    ensures
        valid_utf8(v@) ==> r.spec_bytes() == v@ && r@ == decode_utf8(v@),
        !valid_utf8(v@) ==> r@ == Seq::<char>::empty(),
    no_unwind
{
    std::str::from_utf8(v).unwrap_or_default()
}

/// Relies on `zeroize::Zeroize` for `Vec<u8>`: every byte of the buffer and
/// of its spare capacity is overwritten with zero, then the buffer is
/// cleared to length zero.
#[verifier::external_body]
fn zeroize_bytes(v: &mut Vec<u8>)
    ensures
        final(v)@.len() == 0,
    opens_invariants none
    no_unwind
{
    v.zeroize();
}

impl SecureString {
    /// Well-formedness: the tracked length and capacity agree with the
    /// buffer.
    pub closed spec fn wf(&self) -> bool {
        &&& self.len == self@.len()
        &&& self.capacity >= self@.len()
    }

    /// Creates a secure string holding the UTF-8 bytes of `s`.
    pub fn new(s: &str) -> (r: SecureString)
        ensures
            r.wf(),
            r@ == encode_utf8(s@),
    {
        let bytes = s.as_bytes_vec();
        let n = bytes.len();
        SecureString { len: n, capacity: n, inner: bytes }
    }

    /// Reads the secret back as a string slice.
    ///
    /// A buffer that is not valid UTF-8 reads back as the empty string
    /// rather than panicking.
    pub fn as_str(&self) -> (r: &str)
        ensures
            valid_utf8(self@) ==> r.spec_bytes() == self@ && r@ == decode_utf8(self@),
            !valid_utf8(self@) ==> r@ == Seq::<char>::empty(),
    {
        bytes_as_str(&self.inner)
    }

    /// True iff the secret is empty.
    pub fn is_empty(&self) -> (r: bool)
        requires
            self.wf(),
        ensures
            r == (self@.len() == 0),
    {
        self.len == 0
    }

    /// The length of the secret in bytes.
    pub fn len(&self) -> (r: usize)
        requires
            self.wf(),
        ensures
            r == self@.len(),
    {
        self.len
    }

    /// Checks that the secret holds acceptable material: no NUL byte.
    pub fn validate(&self) -> (r: Result<(), VectorStoreError>)
        ensures
            r is Ok <==> (forall|i: int| 0 <= i < self@.len() ==> self@[i] != 0),
            r is Err ==> r == Err::<(), _>(VectorStoreError::SecureStringError),
    {
        let n = self.inner.len();
        let mut i: usize = 0;
        while i < n
            invariant
                n == self@.len(),
                i <= n,
                forall|k: int| 0 <= k < i ==> self@[k] != 0,
            decreases n - i,
        {
            if self.inner[i] == 0 {
                return Err(VectorStoreError::SecureStringError);
            }
            i = i + 1;
        }
        Ok(())
    }

    /// Overwrites the secret with zeros and empties it.
    ///
    /// Dropping the value does the same; `wipe` lets a caller end the
    /// secret's life early.
    pub fn wipe(&mut self)
        ensures
            final(self).wf(),
            final(self)@.len() == 0,
    {
        zeroize_bytes(&mut self.inner);
        self.len = 0;
        self.capacity = 0;
    }
}

impl Drop for SecureString {
    /// The backing memory is zeroed before it is freed.
    fn drop(&mut self)
        opens_invariants none
        no_unwind
    {
        zeroize_bytes(&mut self.inner);
        self.len = 0;
        self.capacity = 0;
    }
}

impl PartialEq for SecureString {
    /// Branchless constant-time comparison: XOR-accumulates every paired
    /// byte and folds the length comparison into one final verdict, so the
    /// running time depends only on the lengths, never on where the
    /// contents differ. Secrets of unequal length are never equal.
    fn eq(&self, other: &SecureString) -> (r: bool) {
        let n: usize = if self.inner.len() <= other.inner.len() {
            self.inner.len()
        } else {
            other.inner.len()
        };
        let mut acc: u8 = 0;
        let mut i: usize = 0;
        while i < n
            invariant
                n <= self@.len(),
                n <= other@.len(),
                i <= n,
                (acc == 0) <==> (forall|k: int| 0 <= k < i ==> self@[k] == other@[k]),
            decreases n - i,
        {
            let av: u8 = self.inner[i];
            let bv: u8 = other.inner[i];
            let prev: u8 = acc;
            acc = prev | (av ^ bv);
            proof {
                assert(((prev | (av ^ bv)) == 0) <==> (prev == 0 && av == bv)) by (bit_vector);
            }
            i = i + 1;
        }
        let same_length = self.inner.len() == other.inner.len();
        let verdict = acc == 0 && same_length;
        proof {
            if acc == 0 && same_length {
                assert(self@ =~= other@);
            }
        }
        verdict
    }
}

impl Eq for SecureString {

}

impl vstd::std_specs::cmp::PartialEqSpecImpl for SecureString {
    open spec fn obeys_eq_spec() -> bool {
        true
    }

    /// What `==` on secure strings decides: the byte contents are
    /// identical, length included.
    open spec fn eq_spec(&self, other: &SecureString) -> bool {
        self@ == other@
    }
}

} // verus!
