//! Identities of callers, of the registry itself and of managed units.
use vstd::prelude::*;

verus! {

/// The largest number of bytes that an identity holds.
pub const MAX_PRINCIPAL_LEN: usize = 29;

/// An identity: at most `MAX_PRINCIPAL_LEN` raw bytes.
#[derive(Debug)]
pub struct PrincipalId {
    bytes: Vec<u8>,
}

impl View for PrincipalId {
    type V = Seq<u8>;

    closed spec fn view(&self) -> Seq<u8> {
        self.bytes@
    }
}

/// The identities of a sequence, as raw bytes.
pub open spec fn ids_view(s: Seq<PrincipalId>) -> Seq<Seq<u8>> {
    s.map_values(|p: PrincipalId| p@)
}

/// What `from_text` reads out of a textual identity, if it is well formed.
pub uninterp spec fn principal_text_bytes(text: Seq<char>) -> Option<Seq<u8>>;

/// Relies on `candid::Principal::from_text`: it either rejects the text or
/// returns the identity it denotes, whose length it has checked against the
/// maximum.
#[verifier::external_body]
fn parse_principal_text(text: &str) -> (r: Option<Vec<u8>>)
    ensures
        r matches Some(b) ==> principal_text_bytes(text@) == Some(b@) && b@.len() <= 29,
        r is None ==> principal_text_bytes(text@) is None,
{
    candid::Principal::from_text(text).ok().map(|p| p.as_slice().to_vec())
}

impl PrincipalId {
    #[verifier::type_invariant]
    spec fn inv(&self) -> bool {
        self.bytes@.len() <= MAX_PRINCIPAL_LEN
    }

    /// An identity from raw bytes; `None` where there are too many.
    pub fn from_bytes(bytes: Vec<u8>) -> (r: Option<PrincipalId>)
        ensures
            bytes@.len() <= MAX_PRINCIPAL_LEN <==> r is Some,
            r matches Some(p) ==> p@ == bytes@,
    {
        if bytes.len() <= MAX_PRINCIPAL_LEN {
            Some(PrincipalId { bytes })
        } else {
            None
        }
    }

    /// Parses the textual form of an identity; `None` where it is malformed.
    pub fn from_text(text: &str) -> (r: Option<PrincipalId>)
        ensures
            r is Some <==> principal_text_bytes(text@) is Some,
            r matches Some(p) ==> principal_text_bytes(text@) == Some(p@),
    {
        match parse_principal_text(text) {
            Some(bytes) => Some(PrincipalId { bytes }),
            None => None,
        }
    }

    /// The raw bytes of the identity.
    pub fn as_bytes(&self) -> (r: &Vec<u8>)
        ensures
            r@ == self@,
    {
        &self.bytes
    }

    /// The number of raw bytes.
    pub fn len(&self) -> (r: usize)
        ensures
            r == self@.len(),
            r <= MAX_PRINCIPAL_LEN,
    {
        proof {
            use_type_invariant(self);
        }
        self.bytes.len()
    }
}

impl Clone for PrincipalId {
    fn clone(&self) -> (r: Self)
        ensures
            r@ == self@,
    {
        proof {
            use_type_invariant(self);
        }
        let bytes = self.bytes.clone();
        proof {
            assert(bytes@ =~= self.bytes@);
        }
        PrincipalId { bytes }
    }
}

impl PartialEq for PrincipalId {
    fn eq(&self, other: &PrincipalId) -> (r: bool)
        ensures
            r == (self@ == other@),
    {
        if self.bytes.len() != other.bytes.len() {
            return false;
        }
        let mut i: usize = 0;
        while i < self.bytes.len()
            invariant
                self.bytes@.len() == other.bytes@.len(),
                0 <= i <= self.bytes@.len(),
                forall|j: int| 0 <= j < i ==> self.bytes@[j] == other.bytes@[j],
            decreases self.bytes@.len() - i,
        {
            if self.bytes[i] != other.bytes[i] {
                return false;
            }
            i = i + 1;
        }
        proof {
            assert(self.bytes@ =~= other.bytes@);
        }
        true
    }
}

impl vstd::std_specs::cmp::PartialEqSpecImpl for PrincipalId {
    open spec fn obeys_eq_spec() -> bool {
        true
    }

    open spec fn eq_spec(&self, other: &PrincipalId) -> bool {
        self@ == other@
    }
}

impl Eq for PrincipalId {
}

/// Whether `p` occurs in `list`.
pub fn contains_principal(list: &Vec<PrincipalId>, p: &PrincipalId) -> (r: bool)
    ensures
        r == ids_view(list@).contains(p@),
{
    let mut i: usize = 0;
    while i < list.len()
        invariant
            0 <= i <= list@.len(),
            forall|j: int| 0 <= j < i ==> list@[j]@ != p@,
        decreases list@.len() - i,
    {
        if list[i] == *p {
            proof {
                assert(ids_view(list@)[i as int] == p@);
            }
            return true;
        }
        i = i + 1;
    }
    proof {
        if ids_view(list@).contains(p@) {
            let k = choose|k: int| 0 <= k < ids_view(list@).len() && ids_view(list@)[k] == p@;
            assert(list@[k]@ == p@);
        }
    }
    false
}

} // verus!
