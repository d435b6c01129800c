//! Identities of programs and accounts, and the one pinned verifier.

use anchor_lang::prelude::Pubkey;
use vstd::prelude::*;

verus! {

/// The 32 bytes of the external verifier that every cross-call must target
/// and every returned payload must originate from. In base58 these bytes read
/// `CdvSq48QUukYuMczgZAVNZrwcHNshBdtqrjW26sQiGPs`.
pub const POLYMER_PROVER_ID: [u8; 32] = [
    172, 229, 229, 104, 227, 22, 105, 250, 72, 250, 24, 149, 48, 193, 239, 95,
    235, 136, 45, 110, 6, 141, 38, 195, 59, 25, 43, 23, 238, 13, 159, 34,
];

/// The identity of a program or of an account: 32 opaque bytes.
#[derive(Clone, Copy, Debug, PartialEq, Eq)]
pub struct Address {
    pub bytes: [u8; 32],
}

impl View for Address {
    type V = Seq<u8>;

    open spec fn view(&self) -> Seq<u8> {
        self.bytes@
    }
}

/// The base58 text that `Pubkey` displays for 32 bytes.
pub uninterp spec fn base58_text(bytes: Seq<u8>) -> Seq<char>;

/// The pinned verifier identity as a sequence of bytes.
pub open spec fn pinned_verifier() -> Seq<u8> {
    POLYMER_PROVER_ID@
}

/// Calls `Pubkey`'s `Display` impl (through `to_string`) on the key made of
/// `id`'s bytes. The text depends on the 32 bytes alone: the impl encodes them
/// in base58 and writes nothing else.
#[verifier::external_body]
fn pubkey_to_string(id: &Address) -> (text: String)
    ensures
        text@ == base58_text(id@),
{
    Pubkey::new_from_array(id.bytes).to_string()
}

impl Address {
    pub fn new(bytes: [u8; 32]) -> (id: Address)
        ensures
            id@ == bytes@,
    {
        Address { bytes }
    }

    /// Whether two identities hold the same 32 bytes.
    pub fn same_as(&self, other: &Address) -> (same: bool)
        ensures
            same == (self@ == other@),
    {
        let mut i: usize = 0;
        while i < 32
            invariant
                i <= 32,
                forall|j: int| 0 <= j < i ==> self.bytes[j] == other.bytes[j],
            decreases 32 - i,
        {
            if self.bytes[i] != other.bytes[i] {
                return false;
            }
            i += 1;
        }
        assert(self@ =~= other@);
        true
    }

    /// Whether this is the pinned verifier.
    pub fn is_pinned_verifier(&self) -> (pinned: bool)
        ensures
            pinned == (self@ == pinned_verifier()),
    {
        let pinned = polymer_prover_id();
        self.same_as(&pinned)
    }

    /// The identity as the base58 text under which logs show it.
    pub fn to_base58(&self) -> (text: String)
        ensures
            text@ == base58_text(self@),
    {
        pubkey_to_string(self)
    }
}

/// The pinned verifier identity.
pub fn polymer_prover_id() -> (id: Address)
    ensures
        id@ == pinned_verifier(),
{
    Address { bytes: POLYMER_PROVER_ID }
}

} // verus!
