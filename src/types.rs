use vstd::prelude::*;

verus! {

/// An element of the base field, as four little-endian 64-bit limbs.
#[derive(Clone, Copy, Debug, PartialEq, Eq, Structural)]
pub struct Field {
    pub l0: u64,
    pub l1: u64,
    pub l2: u64,
    pub l3: u64,
}

/// An element of the scalar field.
#[derive(Clone, Copy, Debug, PartialEq, Eq, Structural)]
pub struct Scalar {
    pub value: Field,
}

/// A point of the curve in affine coordinates.
#[derive(Clone, Copy, Debug, PartialEq, Eq, Structural)]
pub struct Group {
    pub x: Field,
    pub y: Field,
}

impl Group {
    /// The affine x-coordinate of the point.
    pub fn to_x_coordinate(&self) -> (r: Field)
        ensures
            r == self.x,
    {
        self.x
    }
}

/// The hash of a block.
pub type BlockHash = Field;

/// An account address.
#[derive(Clone, Copy, Debug, PartialEq, Eq, Structural)]
pub struct Address {
    pub group: Group,
}

/// The secret that decrypts records addressed to an account and checks their ownership.
#[derive(Clone, Copy, Debug, PartialEq, Eq, Structural)]
pub struct ViewKey {
    pub scalar: Scalar,
}

/// The spending key of an account.
#[derive(Clone, Copy, Debug, PartialEq, Eq, Structural)]
pub struct PrivateKey {
    pub seed: Field,
    pub sk_sig: Scalar,
    pub r_sig: Scalar,
}

impl PrivateKey {
    /// The signature secret of the key.
    pub fn sk_sig(&self) -> (r: Scalar)
        ensures
            r == self.sk_sig,
    {
        self.sk_sig
    }
}

/// The narrower secret that derives the tags of an account's records.
#[derive(Clone, Copy, Debug, PartialEq, Eq, Structural)]
pub struct GraphKey {
    pub sk_tag: Group,
}

impl GraphKey {
    /// The tag secret of the key.
    pub fn sk_tag(&self) -> (r: Group)
        ensures
            r == self.sk_tag,
    {
        self.sk_tag
    }
}

/// An output record as it stands on the ledger: ciphertext bound to an owner.
#[derive(Clone, Copy, Debug, PartialEq, Eq, Structural)]
pub struct Record {
    pub owner: Field,
    pub gates: Field,
    pub data: Field,
    pub nonce: Group,
}

/// An output record after decryption.
#[derive(Clone, Copy, Debug, PartialEq, Eq, Structural)]
pub struct PlaintextRecord {
    pub owner: Address,
    pub gates: u64,
    pub data: Field,
    pub nonce: Group,
}

/// An output of a transition: a record and the commitment to its contents.
#[derive(Clone, Copy, Debug, PartialEq, Eq, Structural)]
pub struct Output {
    pub commitment: Field,
    pub record: Record,
}

/// The header of a block.
#[derive(Clone, Copy, Debug, PartialEq, Eq, Structural)]
pub struct Header {
    pub previous_state_root: Field,
    pub transactions_root: Field,
    pub network: u16,
    pub height: u32,
    pub round: u64,
    pub timestamp: i64,
}

/// The signature of a block.
#[derive(Clone, Copy, Debug, PartialEq, Eq, Structural)]
pub struct Signature {
    pub challenge: Scalar,
    pub response: Scalar,
    pub compute_key: Group,
}

} // verus!
