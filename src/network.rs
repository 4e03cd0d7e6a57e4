use vstd::prelude::*;

use crate::types::{Address, Field, Group, PlaintextRecord, Record, Scalar, ViewKey};

verus! {

/// The cryptographic parameters of a network: the hash, commitment and group
/// primitives that derive spend-tracking identifiers, and the record operations
/// under a view key.
///
/// Each primitive is pure and deterministic: its exec form returns exactly what
/// its spec form gives on the same arguments. A fallible primitive returns `None`
/// on failure.
pub trait Network {
    /// The domain separator of serial-number derivation.
    spec fn serial_number_domain_spec() -> Field;

    fn serial_number_domain() -> (r: Field)
        ensures
            r == Self::serial_number_domain_spec(),
    ;

    /// Poseidon hash of two field elements.
    spec fn hash_psd2_spec(a: Field, b: Field) -> Option<Field>;

    fn hash_psd2(a: Field, b: Field) -> (r: Option<Field>)
        ensures
            r == Self::hash_psd2_spec(a, b),
    ;

    /// Poseidon hash of a domain and an input onto the curve.
    spec fn hash_to_group_psd2_spec(domain: Field, input: Field) -> Option<Group>;

    fn hash_to_group_psd2(domain: Field, input: Field) -> (r: Option<Group>)
        ensures
            r == Self::hash_to_group_psd2_spec(domain, input),
    ;

    /// Poseidon hash of a domain and an input onto the scalar field.
    spec fn hash_to_scalar_psd2_spec(domain: Field, input: Field) -> Option<Scalar>;

    fn hash_to_scalar_psd2(domain: Field, input: Field) -> (r: Option<Scalar>)
        ensures
            r == Self::hash_to_scalar_psd2_spec(domain, input),
    ;

    /// BHP commitment to the bits of `(domain, message)` under `randomness`.
    spec fn commit_bhp512_spec(domain: Field, message: Field, randomness: Scalar) -> Option<Field>;

    fn commit_bhp512(domain: Field, message: Field, randomness: Scalar) -> (r: Option<Field>)
        ensures
            r == Self::commit_bhp512_spec(domain, message, randomness),
    ;

    /// Scalar multiplication of a curve point.
    spec fn scalar_mul_spec(g: Group, s: Scalar) -> Group;

    fn scalar_mul(g: Group, s: Scalar) -> (r: Group)
        ensures
            r == Self::scalar_mul_spec(g, s),
    ;

    /// Multiplication of a curve point by the cofactor.
    spec fn mul_by_cofactor_spec(g: Group) -> Group;

    fn mul_by_cofactor(g: Group) -> (r: Group)
        ensures
            r == Self::mul_by_cofactor_spec(g),
    ;

    /// The address that a view key belongs to.
    spec fn to_address_spec(view_key: ViewKey) -> Address;

    fn to_address(view_key: &ViewKey) -> (r: Address)
        ensures
            r == Self::to_address_spec(*view_key),
    ;

    /// Whether `record` belongs to `address`, as checked with `view_key`.
    spec fn is_owner_spec(record: Record, address: Address, view_key: ViewKey) -> bool;

    fn is_owner(record: &Record, address: &Address, view_key: &ViewKey) -> (r: bool)
        ensures
            r == Self::is_owner_spec(*record, *address, *view_key),
    ;

    /// The decryption of `record` under `view_key`.
    spec fn decrypt_spec(record: Record, view_key: ViewKey) -> Option<PlaintextRecord>;

    fn decrypt(record: &Record, view_key: &ViewKey) -> (r: Option<PlaintextRecord>)
        ensures
            r == Self::decrypt_spec(*record, *view_key),
    ;
}

} // verus!
