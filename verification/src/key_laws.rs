//! What the hashed keys, the commitments and the views are, spelled out.

use crate::address::{address_encoding, Address};
use crate::env::{Env, Instance, Persistent, Temporary};
use crate::genetic_proof::VERIFIER_FN;
use crate::governance::VOTES_PER_UNIT;
use crate::invocation::{Arg, ArgView, Invocation};
use crate::mock_verifier::{MockZkVerifier, MockZkVerifierView, VerifierKey};
use crate::plan::{DataKey, InheritancePlan, PlanLimits, Records};
use crate::version::{CONTRACT_VERSION, VERSION_FN};
use crate::zk::{
    ascii, be_u32, be_u64, claimants_record_key, commitment_preimage, fields_encoding,
    proof_record_key, requirement_record_key, sha256_digest, verifier_record_key, views,
    zk_preimage, zk_record_key,
};
use vstd::prelude::*;

verus! {

/// The names and numbers that callers and peers rely on.
pub proof fn constants_are_fixed()
    ensures
        VERSION_FN@ == "get_version"@,
        VERIFIER_FN@ == "verify"@,
        CONTRACT_VERSION == 1,
        VOTES_PER_UNIT == 1,
{
}

/// A number is written most significant byte first: four bytes, or eight, from which
/// it can be read back.
pub proof fn numbers_are_big_endian(short: u32, long: u64)
    ensures
        be_u32(short).len() == 4,
        short == be_u32(short)[0] * 0x100_0000 + be_u32(short)[1] * 0x1_0000 + be_u32(short)[2]
            * 0x100 + be_u32(short)[3],
        be_u64(long).len() == 8,
        long == be_u64(long)[0] * 0x100_0000_0000_0000 + be_u64(long)[1] * 0x1_0000_0000_0000
            + be_u64(long)[2] * 0x100_0000_0000 + be_u64(long)[3] * 0x1_0000_0000 + be_u64(long)[4]
            * 0x100_0000 + be_u64(long)[5] * 0x1_0000 + be_u64(long)[6] * 0x100 + be_u64(long)[7],
{
    lemma_read_back(short);
    let high = (long / 0x1_0000_0000) as u32;
    let low = (long % 0x1_0000_0000) as u32;
    lemma_read_back(high);
    lemma_read_back(low);
    assert(long == high * 0x1_0000_0000 + low);
    assert(be_u64(long)[0] == be_u32(high)[0]);
    assert(be_u64(long)[1] == be_u32(high)[1]);
    assert(be_u64(long)[2] == be_u32(high)[2]);
    assert(be_u64(long)[3] == be_u32(high)[3]);
    assert(be_u64(long)[4] == be_u32(low)[0]);
    assert(be_u64(long)[5] == be_u32(low)[1]);
    assert(be_u64(long)[6] == be_u32(low)[2]);
    assert(be_u64(long)[7] == be_u32(low)[3]);
}

proof fn lemma_read_back(n: u32)
    ensures
        be_u32(n).len() == 4,
        n == be_u32(n)[0] * 0x100_0000 + be_u32(n)[1] * 0x1_0000 + be_u32(n)[2] * 0x100 + be_u32(
            n,
        )[3],
{
    assert(n / 0x100_0000 < 0x100);
    assert(n == (n / 0x100_0000) * 0x100_0000 + (n / 0x1_0000 % 0x100) * 0x1_0000 + (n / 0x100
        % 0x100) * 0x100 + n % 0x100);
}

/// Text is written character by character, and a list of fields field by field, each
/// behind its length.
pub proof fn fields_are_written_behind_their_lengths(
    text: Seq<char>,
    first: Seq<u8>,
    rest: Seq<Seq<u8>>,
    vectors: Seq<Vec<u8>>,
)
    ensures
        ascii(text).len() == text.len(),
        forall|i: int| 0 <= i < text.len() ==> #[trigger] ascii(text)[i] == text[i] as u8,
        fields_encoding(Seq::empty()).len() == 0,
        fields_encoding(seq![first] + rest) == be_u32(first.len() as u32) + first
            + fields_encoding(rest),
        views(vectors).len() == vectors.len(),
        forall|i: int| 0 <= i < vectors.len() ==> #[trigger] views(vectors)[i] == vectors[i]@,
{
    assert((seq![first] + rest).drop_first() =~= rest);
    assert((seq![first] + rest)[0] == first);
}

/// What is hashed into a record key: the twelve bytes of the domain, one byte for the
/// kind of record, and the fields.
pub proof fn record_preimages_are_spelled_out(tag: u8, fields: Seq<Seq<u8>>)
    ensures
        zk_preimage(tag, fields) == seq![
            0x69u8,
            0x6eu8,
            0x68u8,
            0x65u8,
            0x72u8,
            0x69u8,
            0x74u8,
            0x78u8,
            0x3au8,
            0x7au8,
            0x6bu8,
            0x3au8,
            tag,
        ] + fields_encoding(fields),
        zk_record_key(tag, fields) == DataKey::Zk(sha256_digest(zk_preimage(tag, fields))),
{
    reveal_strlit("inheritx:zk:");
    assert(zk_preimage(tag, fields) =~= seq![
        0x69u8,
        0x6eu8,
        0x68u8,
        0x65u8,
        0x72u8,
        0x69u8,
        0x74u8,
        0x78u8,
        0x3au8,
        0x7au8,
        0x6bu8,
        0x3au8,
        tag,
    ] + fields_encoding(fields));
}

/// Which record each key is of: its kind, and the fields that it is about.
pub proof fn record_keys_are_spelled_out(plan_id: u64, index: u32, claimant: Address)
    ensures
        verifier_record_key() == zk_record_key(0, Seq::empty()),
        proof_record_key(plan_id, claimant) == zk_record_key(
            1,
            seq![be_u64(plan_id), address_encoding(claimant)],
        ),
        requirement_record_key(plan_id, index) == zk_record_key(
            2,
            seq![be_u64(plan_id), be_u32(index)],
        ),
        claimants_record_key(plan_id) == zk_record_key(3, seq![be_u64(plan_id)]),
{
}

/// What is hashed into a commitment: the seventeen bytes of the domain, the plan and
/// the claimant.
pub proof fn commitment_preimages_are_spelled_out(plan_id: u64, claimant: Address)
    ensures
        commitment_preimage(plan_id, claimant) == seq![
            0x69u8,
            0x6eu8,
            0x68u8,
            0x65u8,
            0x72u8,
            0x69u8,
            0x74u8,
            0x78u8,
            0x3au8,
            0x67u8,
            0x65u8,
            0x6eu8,
            0x65u8,
            0x74u8,
            0x69u8,
            0x63u8,
            0x3au8,
        ] + be_u64(plan_id) + address_encoding(claimant),
{
    reveal_strlit("inheritx:genetic:");
    assert(ascii("inheritx:genetic:"@) =~= seq![
        0x69u8,
        0x6eu8,
        0x68u8,
        0x65u8,
        0x72u8,
        0x69u8,
        0x74u8,
        0x78u8,
        0x3au8,
        0x67u8,
        0x65u8,
        0x6eu8,
        0x65u8,
        0x74u8,
        0x69u8,
        0x63u8,
        0x3au8,
    ]);
}

/// The bytes of an address: those that tell an account from a contract, and then its
/// 32 bytes.
pub proof fn address_encodings_are_spelled_out(name: [u8; 32])
    ensures
        address_encoding(Address::Account(name)) == seq![
            0u8,
            0u8,
            0u8,
            18u8,
            0u8,
            0u8,
            0u8,
            0u8,
            0u8,
            0u8,
            0u8,
            0u8,
        ] + name@,
        address_encoding(Address::Contract(name)) == seq![
            0u8,
            0u8,
            0u8,
            18u8,
            0u8,
            0u8,
            0u8,
            1u8,
        ] + name@,
{
    assert(address_encoding(Address::Account(name)) =~= seq![
        0u8,
        0u8,
        0u8,
        18u8,
        0u8,
        0u8,
        0u8,
        0u8,
        0u8,
        0u8,
        0u8,
        0u8,
    ] + name@);
    assert(address_encoding(Address::Contract(name)) =~= seq![
        0u8,
        0u8,
        0u8,
        18u8,
        0u8,
        0u8,
        0u8,
        1u8,
    ] + name@);
}

/// A view holds what the value holds, field by field.
pub proof fn views_are_field_by_field(
    env: Env,
    persistent: Persistent,
    instance: Instance,
    temporary: Temporary,
    records: Records,
    plan: InheritancePlan,
    address: Address,
)
    ensures
        env@.persistent == env.persistent@,
        env@.instance == env.instance@,
        env@.temporary == env.temporary@,
        env@.authorized == env.authorized@,
        env@.timestamp == env.timestamp,
        env@.limits == env.limits,
        env@.events == env.events@,
        env@.transfers == env.transfers@,
        persistent@.role_lists == persistent.role_lists@,
        persistent@.address_flags == persistent.address_flags@,
        persistent@.voting_amounts == persistent.voting_amounts@,
        persistent@.delegations == persistent.delegations@,
        persistent@.records == persistent.records@,
        persistent@.plan_vaults == persistent.plan_vaults@,
        instance@.pause_flags == instance.pause_flags@,
        instance@.operation_counts == instance.operation_counts@,
        instance@.versions == instance.versions@,
        instance@.verifiers == instance.verifiers@,
        instance@.admin == instance.admin,
        temporary@.locks == temporary.locks@,
        records@.plans == records.plans@,
        records@.counts == records.counts@,
        records@.lists == records.lists@,
        records@.flags == records.flags@,
        records@.claimants == records.claimants@,
        records@.others == records.others@,
        plan@.owner == plan.owner,
        plan@.token == plan.token,
        plan@.beneficiaries == plan.beneficiaries@,
        plan@.total_amount == plan.total_amount,
        plan@.total_loaned == plan.total_loaned,
        plan@.is_active == plan.is_active,
        address@ == address,
{
}

/// The view of a call holds its target, its function and its arguments.
pub proof fn calls_are_viewed_field_by_field(call: Invocation, bytes: Vec<u8>, digests: Vec<[u8; 32]>)
    ensures
        call@.contract == call.contract,
        call@.function == call.function@,
        call@.args.len() == call.args@.len(),
        forall|i: int| 0 <= i < call.args@.len() ==> #[trigger] call@.args[i] == call.args@[i]@,
        Arg::Bytes(bytes)@ == ArgView::Bytes(bytes@),
        Arg::Digests(digests)@ == ArgView::Digests(digests@),
{
}

/// What the stand-in verifier expects: what it was told last, all zeros before that,
/// and nothing at all while it rejects everything.
pub proof fn the_stand_in_expects_what_it_was_told(
    verifier: MockZkVerifier,
    told: MockZkVerifierView,
)
    ensures
        verifier@.commitments == verifier.commitments@,
        verifier@.flags == verifier.flags@,
        told.rejects_all() <==> told.flags.contains_key(VerifierKey::Reject)
            && told.flags[VerifierKey::Reject],
        told.commitments.contains_key(VerifierKey::Expected) ==> told.expected()
            == told.commitments[VerifierKey::Expected],
        !told.commitments.contains_key(VerifierKey::Expected) ==> told.expected().len() == 32 && (
        forall|i: int| 0 <= i < 32 ==> #[trigger] told.expected()[i] == 0),
{
}

/// When the entries of a plan can be counted: so many per beneficiary and per will
/// version, one per claimant, and those that a plan has one of.
pub proof fn limits_fit_a_count(limits: PlanLimits, claimants: nat)
    ensures
        limits.fit(claimants) <==> limits.max_beneficiaries * 6 + limits.max_will_versions * 3
            + claimants + 18 < 0x1_0000_0000,
{
}

} // verus!
