use vstd::prelude::*;

use crate::errors::ChannelError;
use crate::identity::Identity;

verus! {

/// Largest number of bytes a single seed handed to the resolver may hold.
pub const MAX_SEED_LEN: usize = 32;

/// True of the four ASCII whitespace bytes that name normalization strips:
/// space, tab, line feed and carriage return.
pub open spec fn is_space(b: u8) -> bool {
    b == 32 || b == 9 || b == 10 || b == 13
}

/// An ASCII upper-case letter mapped to its lower-case form; any other byte
/// is left as it is.
pub open spec fn lower_byte(b: u8) -> u8 {
    if 65 <= b && b <= 90 {
        (b + 32) as u8
    } else {
        b
    }
}

/// The canonical form of a channel name: whitespace removed and ASCII
/// upper-case letters lowered. Callers must apply this same normalization
/// before querying a name-indexed record, or lookups silently miss.
pub open spec fn normalized(s: Seq<u8>) -> Seq<u8>
    decreases s.len(),
{
    if s.len() == 0 {
        Seq::empty()
    } else {
        let rest = normalized(s.drop_last());
        if is_space(s.last()) {
            rest
        } else {
            rest.push(lower_byte(s.last()))
        }
    }
}

/// Computes the canonical form of a channel name.
pub fn normalize_name(name: &Vec<u8>) -> (r: Vec<u8>)
    ensures
        r@ == normalized(name@),
{
    let mut out: Vec<u8> = Vec::new();
    let mut i: usize = 0;
    while i < name.len()
        invariant
            i <= name@.len(),
            out@ == normalized(name@.take(i as int)),
        decreases name@.len() - i,
    {
        let b = name[i];
        if !(b == 32 || b == 9 || b == 10 || b == 13) {
            if 65 <= b && b <= 90 {
                out.push(b + 32);
            } else {
                out.push(b);
            }
        }
        proof {
            let t = name@.take(i + 1);
            assert(t.drop_last() =~= name@.take(i as int));
            assert(t.last() == name@[i as int]);
        }
        i += 1;
    }
    proof {
        assert(name@.take(name@.len() as int) =~= name@);
    }
    out
}

/// The storage location that the ledger's derived-address scheme assigns to a
/// namespace tag plus key bytes under a program identity, together with the
/// bump discriminant of the derivation, or `None` in the theoretical case
/// that no valid derivation exists. The result depends on the three inputs
/// alone.
pub uninterp spec fn derived_address(
    namespace: Seq<u8>,
    key_material: Seq<u8>,
    program: Seq<u8>,
) -> Option<(Seq<u8>, u8)>;

/// Relies on `solana_program::pubkey::Pubkey::try_find_program_address`: a
/// deterministic search over bump discriminants, returning the first derived
/// 32-byte address that is valid together with its bump, or `None` if no
/// bump yields one or a seed exceeds the maximum seed length.
#[verifier::external_body]
fn pda_search(namespace: &Vec<u8>, key_material: &Vec<u8>, program: &Identity) -> (r: Option<
    (Identity, u8),
>)
    requires
        program.wf(),
    ensures
        match r {
            Some(p) => derived_address(namespace@, key_material@, program@) == Some((p.0@, p.1))
                && p.0.wf(),
            None => derived_address(namespace@, key_material@, program@) is None,
        },
        namespace@.len() > MAX_SEED_LEN || key_material@.len() > MAX_SEED_LEN ==> r is None,
{
    let program_id = solana_program::pubkey::Pubkey::new_from_array(
        program.bytes.as_slice().try_into().unwrap(),
    );
    let seeds: [&[u8]; 2] = [namespace.as_slice(), key_material.as_slice()];
    match solana_program::pubkey::Pubkey::try_find_program_address(&seeds, &program_id) {
        Some((addr, bump)) => Some((Identity { bytes: addr.to_bytes().to_vec() }, bump)),
        None => None,
    }
}

/// Derived-address resolver: deterministically computes the storage location
/// for a namespace tag plus key bytes under the given program identity,
/// together with the bump discriminant proving the derivation. Same inputs
/// always yield the same address; no side effects.
pub fn resolve(namespace: &Vec<u8>, key_material: &Vec<u8>, program: &Identity) -> (r: Result<
    (Identity, u8),
    ChannelError,
>)
    requires
        program.wf(),
    ensures
        match r {
            Ok(p) => derived_address(namespace@, key_material@, program@) == Some((p.0@, p.1))
                && p.0.wf(),
            Err(e) => e == ChannelError::AddressExhausted && derived_address(
                namespace@,
                key_material@,
                program@,
            ) is None,
        },
        r is Ok ==> namespace@.len() <= MAX_SEED_LEN && key_material@.len() <= MAX_SEED_LEN,
{
    match pda_search(namespace, key_material, program) {
        Some(p) => Ok(p),
        None => Err(ChannelError::AddressExhausted),
    }
}

/// The namespace tag under which attribution records indexed by the
/// subscription counter are stored: the bytes of `"channel"`.
pub open spec fn channel_namespace_spec() -> Seq<u8> {
    seq![99u8, 104u8, 97u8, 110u8, 110u8, 101u8, 108u8]
}

/// The namespace tag for pair-indexed attribution records.
pub fn channel_namespace() -> (r: Vec<u8>)
    ensures
        r@ == channel_namespace_spec(),
{
    let r: Vec<u8> = vec![99u8, 104u8, 97u8, 110u8, 110u8, 101u8, 108u8];
    proof {
        assert(r@ =~= channel_namespace_spec());
    }
    r
}

/// The namespace tag under which name-indexed attribution records are
/// stored: the bytes of `"name"`.
pub open spec fn name_namespace_spec() -> Seq<u8> {
    seq![110u8, 97u8, 109u8, 101u8]
}

/// The namespace tag for name-indexed attribution records.
pub fn name_namespace() -> (r: Vec<u8>)
    ensures
        r@ == name_namespace_spec(),
{
    let r: Vec<u8> = vec![110u8, 97u8, 109u8, 101u8];
    proof {
        assert(r@ =~= name_namespace_spec());
    }
    r
}

/// The fixed seed from which the protocol's delegated authority is derived:
/// the bytes of `"authority"`.
pub open spec fn authority_namespace_spec() -> Seq<u8> {
    seq![97u8, 117u8, 116u8, 104u8, 111u8, 114u8, 105u8, 116u8, 121u8]
}

/// The fixed seed of the protocol's delegated authority.
pub fn authority_namespace() -> (r: Vec<u8>)
    ensures
        r@ == authority_namespace_spec(),
{
    let r: Vec<u8> = vec![97u8, 117u8, 116u8, 104u8, 111u8, 114u8, 105u8, 116u8, 121u8];
    proof {
        assert(r@ =~= authority_namespace_spec());
    }
    r
}

/// The delegated authority of the protocol under a program identity: the
/// derived address of the fixed authority seed with empty key material.
pub open spec fn protocol_authority_spec(program: Seq<u8>) -> Option<(Seq<u8>, u8)> {
    derived_address(authority_namespace_spec(), Seq::empty(), program)
}

/// Derives the protocol's own delegated authority under `program`, the
/// credential that external services re-derive and check on every mutating
/// call.
pub fn protocol_authority(program: &Identity) -> (r: Result<(Identity, u8), ChannelError>)
    requires
        program.wf(),
    ensures
        match r {
            Ok(p) => protocol_authority_spec(program@) == Some((p.0@, p.1)) && p.0.wf(),
            Err(e) => e == ChannelError::AddressExhausted && protocol_authority_spec(
                program@,
            ) is None,
        },
{
    let ns = authority_namespace();
    let empty: Vec<u8> = Vec::new();
    resolve(&ns, &empty, program)
}

} // verus!
