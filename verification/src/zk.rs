//! Hashed ledger keys and commitments of the genetic-proof records.
//!
//! All proof state shares the key `DataKey::Zk` and is told apart by hashing: a
//! key is the SHA-256 digest of a pre-image that spells out what the record is
//! about. The lemmas at the end show that no two records share a pre-image.

use crate::address::{
    address_bytes, address_encoding, lemma_address_encoding_is_injective,
    lemma_address_encoding_is_short, Address,
};
use crate::plan::DataKey;
use vstd::prelude::*;

verus! {

// Domain tags of the hashed key space. Each record kind gets its own tag so that
// two different kinds can never meet on the same SHA-256 input.
pub const ZK_VERIFIER_TAG: u8 = 0;

pub const ZK_PROOF_TAG: u8 = 1;

pub const ZK_REQUIREMENT_TAG: u8 = 2;

pub const ZK_CLAIMANTS_TAG: u8 = 3;

/// How long a hashed pre-image may be: one mebibyte, of which the metering of a
/// fresh environment allows for more.
pub const MAX_PREIMAGE: usize = 1_048_576;

/// The SHA-256 digest of `data`.
pub uninterp spec fn sha256_digest(data: Seq<u8>) -> [u8; 32];

/// Calls `soroban_sdk::crypto::Crypto::sha256` in an environment of its own. The
/// digest is a function of the hashed bytes alone. The length is limited so that
/// the metering of a fresh environment never stops the call.
#[verifier::external_body]
fn sha256(data: &Vec<u8>) -> (digest: [u8; 32])
    requires
        data@.len() <= MAX_PREIMAGE,
    ensures
        digest == sha256_digest(data@),
{
    let env = soroban_sdk::Env::default();
    env.crypto().sha256(&soroban_sdk::Bytes::from_slice(&env, data)).to_array()
}

/// The bytes of an ASCII text.
pub open spec fn ascii(text: Seq<char>) -> Seq<u8> {
    text.map_values(|c: char| c as u8)
}

/// `n` as four bytes, most significant first.
pub open spec fn be_u32(n: u32) -> Seq<u8> {
    seq![
        (n / 0x100_0000) as u8,
        (n / 0x1_0000 % 0x100) as u8,
        (n / 0x100 % 0x100) as u8,
        (n % 0x100) as u8,
    ]
}

/// `n` as eight bytes, most significant first.
pub open spec fn be_u64(n: u64) -> Seq<u8> {
    be_u32((n / 0x1_0000_0000) as u32) + be_u32((n % 0x1_0000_0000) as u32)
}

/// A list of byte strings as one, each behind its length, so that no two lists
/// have the same encoding.
pub open spec fn fields_encoding(fields: Seq<Seq<u8>>) -> Seq<u8>
    decreases fields.len(),
{
    if fields.len() == 0 {
        Seq::empty()
    } else {
        be_u32(fields[0].len() as u32) + fields[0] + fields_encoding(fields.drop_first())
    }
}

/// What is hashed into the key of a record of the kind `tag` about `fields`.
pub open spec fn zk_preimage(tag: u8, fields: Seq<Seq<u8>>) -> Seq<u8> {
    ascii("inheritx:zk:"@) + seq![tag] + fields_encoding(fields)
}

/// The key of a record of the kind `tag` about `fields`.
pub open spec fn zk_record_key(tag: u8, fields: Seq<Seq<u8>>) -> DataKey {
    DataKey::Zk(sha256_digest(zk_preimage(tag, fields)))
}

/// What is hashed into the key of a plan's requirement on a beneficiary.
pub open spec fn requirement_fields(plan_id: u64, index: u32) -> Seq<Seq<u8>> {
    seq![be_u64(plan_id), be_u32(index)]
}

/// What is hashed into the key of a claimant's proof record on a plan.
pub open spec fn proof_fields(plan_id: u64, claimant: Address) -> Seq<Seq<u8>> {
    seq![be_u64(plan_id), address_encoding(claimant)]
}

/// What is hashed into the key of a plan's list of claimants.
pub open spec fn claimants_fields(plan_id: u64) -> Seq<Seq<u8>> {
    seq![be_u64(plan_id)]
}

/// The key of the configured verifier.
pub open spec fn verifier_record_key() -> DataKey {
    zk_record_key(ZK_VERIFIER_TAG, Seq::empty())
}

/// The key of the flag "this beneficiary needs a verified genetic proof".
pub open spec fn requirement_record_key(plan_id: u64, index: u32) -> DataKey {
    zk_record_key(ZK_REQUIREMENT_TAG, requirement_fields(plan_id, index))
}

/// The key of a claimant's verified-proof record on a plan.
pub open spec fn proof_record_key(plan_id: u64, claimant: Address) -> DataKey {
    zk_record_key(ZK_PROOF_TAG, proof_fields(plan_id, claimant))
}

/// The key of the list of the claimants who have a verified-proof record on a
/// plan.
pub open spec fn claimants_record_key(plan_id: u64) -> DataKey {
    zk_record_key(ZK_CLAIMANTS_TAG, claimants_fields(plan_id))
}

/// What is hashed into the commitment of a plan and a claimant.
pub open spec fn commitment_preimage(plan_id: u64, claimant: Address) -> Seq<u8> {
    ascii("inheritx:genetic:"@) + be_u64(plan_id) + address_encoding(claimant)
}

fn u32_to_be_bytes(n: u32) -> (bytes: Vec<u8>)
    ensures
        bytes@ == be_u32(n),
{
    let bytes: Vec<u8> = vec![
        (n / 0x100_0000) as u8,
        (n / 0x1_0000 % 0x100) as u8,
        (n / 0x100 % 0x100) as u8,
        (n % 0x100) as u8,
    ];
    assert(bytes@ =~= be_u32(n));
    bytes
}

fn u64_to_be_bytes(n: u64) -> (bytes: Vec<u8>)
    ensures
        bytes@ == be_u64(n),
{
    let mut bytes: Vec<u8> = u32_to_be_bytes((n / 0x1_0000_0000) as u32);
    let mut low: Vec<u8> = u32_to_be_bytes((n % 0x1_0000_0000) as u32);
    bytes.append(&mut low);
    bytes
}

fn append_bytes(data: &mut Vec<u8>, bytes: &Vec<u8>)
    ensures
        final(data)@ == old(data)@ + bytes@,
{
    let mut i: usize = 0;
    while i < bytes.len()
        invariant
            0 <= i <= bytes@.len(),
            data@ == old(data)@ + bytes@.take(i as int),
        decreases bytes@.len() - i,
    {
        data.push(bytes[i]);
        i += 1;
        assert(bytes@.take(i as int) =~= bytes@.take(i - 1).push(bytes@[i - 1]));
    }
    assert(bytes@.take(i as int) =~= bytes@);
}

/// The views of a list of byte strings.
pub open spec fn views(fields: Seq<Vec<u8>>) -> Seq<Seq<u8>> {
    fields.map_values(|field: Vec<u8>| field@)
}

/// The key of a record of the kind `tag` about `fields`.
///
/// Each field is length-prefixed, so that no two different field splits have the
/// same pre-image.
pub fn zk_key(tag: u8, fields: &Vec<Vec<u8>>) -> (key: DataKey)
    requires
        zk_preimage(tag, views(fields@)).len() <= MAX_PREIMAGE,
    ensures
        key == zk_record_key(tag, views(fields@)),
{
    let mut data: Vec<u8> = vec![
        0x69,
        0x6e,
        0x68,
        0x65,
        0x72,
        0x69,
        0x74,
        0x78,
        0x3a,
        0x7a,
        0x6b,
        0x3a,
    ];
    proof {
        reveal_strlit("inheritx:zk:");
        assert(data@ =~= ascii("inheritx:zk:"@));
    }
    data.push(tag);
    let ghost whole = zk_preimage(tag, views(fields@));
    let mut i: usize = 0;
    assert(views(fields@).skip(0) =~= views(fields@));
    while i < fields.len()
        invariant
            0 <= i <= fields@.len(),
            whole.len() <= MAX_PREIMAGE,
            data@ + fields_encoding(views(fields@).skip(i as int)) == whole,
        decreases fields@.len() - i,
    {
        let ghost rest = views(fields@).skip(i as int);
        assert(rest[0] == fields@[i as int]@);
        assert(rest.drop_first() =~= views(fields@).skip(i + 1));
        assert(rest[0].len() <= whole.len());
        let ghost before = data@;
        let mut length: Vec<u8> = u32_to_be_bytes(fields[i].len() as u32);
        data.append(&mut length);
        append_bytes(&mut data, &fields[i]);
        i += 1;
        assert(data@ + fields_encoding(views(fields@).skip(i as int)) =~= before + fields_encoding(
            rest,
        ));
    }
    assert(data@ =~= whole);
    DataKey::Zk(sha256(&data))
}

/// Key of the configured verifier.
pub fn verifier_key() -> (key: DataKey)
    ensures
        key == verifier_record_key(),
{
    let fields: Vec<Vec<u8>> = Vec::new();
    proof {
        reveal_strlit("inheritx:zk:");
        assert(views(fields@) =~= Seq::empty());
    }
    zk_key(ZK_VERIFIER_TAG, &fields)
}

proof fn lemma_two_fields_encoding(first: Seq<u8>, second: Seq<u8>)
    ensures
        fields_encoding(seq![first, second]) == be_u32(first.len() as u32) + first + be_u32(
            second.len() as u32,
        ) + second,
{
    let fields = seq![first, second];
    assert(fields.drop_first() =~= seq![second]);
    assert(seq![second].drop_first() =~= Seq::empty());
    assert(fields_encoding(Seq::empty()) =~= Seq::empty());
    assert(fields_encoding(seq![second]) =~= be_u32(second.len() as u32) + second);
    assert(fields_encoding(fields) =~= be_u32(first.len() as u32) + first + be_u32(
        second.len() as u32,
    ) + second);
}

/// Key for the "this beneficiary needs a verified genetic proof" flag.
pub fn genetic_kin_key(plan_id: u64, index: u32) -> (key: DataKey)
    ensures
        key == requirement_record_key(plan_id, index),
{
    let fields: Vec<Vec<u8>> = vec![u64_to_be_bytes(plan_id), u32_to_be_bytes(index)];
    proof {
        reveal_strlit("inheritx:zk:");
        lemma_two_fields_encoding(be_u64(plan_id), be_u32(index));
        assert(views(fields@) =~= requirement_fields(plan_id, index));
    }
    zk_key(ZK_REQUIREMENT_TAG, &fields)
}

/// Key for a claimant's verified-proof record on a plan.
pub fn verified_proof_key(plan_id: u64, claimant: &Address) -> (key: DataKey)
    ensures
        key == proof_record_key(plan_id, *claimant),
{
    let fields: Vec<Vec<u8>> = vec![u64_to_be_bytes(plan_id), address_bytes(claimant)];
    proof {
        reveal_strlit("inheritx:zk:");
        lemma_two_fields_encoding(be_u64(plan_id), address_encoding(*claimant));
        assert(views(fields@) =~= proof_fields(plan_id, *claimant));
    }
    zk_key(ZK_PROOF_TAG, &fields)
}

/// Key for the list of a plan's claimants.
pub fn claimants_key(plan_id: u64) -> (key: DataKey)
    ensures
        key == claimants_record_key(plan_id),
{
    let fields: Vec<Vec<u8>> = vec![u64_to_be_bytes(plan_id)];
    proof {
        reveal_strlit("inheritx:zk:");
        assert(claimants_fields(plan_id).drop_first() =~= Seq::empty());
        assert(fields_encoding(Seq::empty()) =~= Seq::empty());
        assert(views(fields@) =~= claimants_fields(plan_id));
    }
    zk_key(ZK_CLAIMANTS_TAG, &fields)
}

/// Domain-separated commitment over the plan id and claimant.
pub(crate) fn commitment_for(plan_id: u64, claimant: &Address) -> (commitment: [u8; 32])
    ensures
        commitment == sha256_digest(commitment_preimage(plan_id, *claimant)),
{
    let mut data: Vec<u8> = vec![
        0x69,
        0x6e,
        0x68,
        0x65,
        0x72,
        0x69,
        0x74,
        0x78,
        0x3a,
        0x67,
        0x65,
        0x6e,
        0x65,
        0x74,
        0x69,
        0x63,
        0x3a,
    ];
    proof {
        reveal_strlit("inheritx:genetic:");
        assert(data@ =~= ascii("inheritx:genetic:"@));
    }
    let mut plan: Vec<u8> = u64_to_be_bytes(plan_id);
    data.append(&mut plan);
    let mut address: Vec<u8> = address_bytes(claimant);
    data.append(&mut address);
    sha256(&data)
}

/// Two different inputs with the same digest.
pub open spec fn collision(left: Seq<u8>, right: Seq<u8>) -> bool {
    left != right && sha256_digest(left) == sha256_digest(right)
}

/// Whether every field is short enough for its length to fit the four bytes in
/// front of it.
pub open spec fn prefixable(fields: Seq<Seq<u8>>) -> bool {
    forall|i: int| 0 <= i < fields.len() ==> (#[trigger] fields[i]).len() <= u32::MAX
}

/// Different numbers have different bytes.
proof fn lemma_be_u32_is_injective(left: u32, right: u32)
    requires
        be_u32(left) == be_u32(right),
    ensures
        left == right,
{
    let l = be_u32(left);
    let r = be_u32(right);
    assert(l[0] == r[0] && l[1] == r[1] && l[2] == r[2] && l[3] == r[3]);
    assert(left / 0x100_0000 < 0x100 && right / 0x100_0000 < 0x100);
    assert(left == (left / 0x100_0000) * 0x100_0000 + (left / 0x1_0000 % 0x100) * 0x1_0000 + (left
        / 0x100 % 0x100) * 0x100 + left % 0x100);
    assert(right == (right / 0x100_0000) * 0x100_0000 + (right / 0x1_0000 % 0x100) * 0x1_0000 + (
    right / 0x100 % 0x100) * 0x100 + right % 0x100);
}

proof fn lemma_be_u64_is_injective(left: u64, right: u64)
    requires
        be_u64(left) == be_u64(right),
    ensures
        left == right,
{
    assert(be_u32((left / 0x1_0000_0000) as u32) =~= be_u64(left).take(4));
    assert(be_u32((right / 0x1_0000_0000) as u32) =~= be_u64(right).take(4));
    assert(be_u32((left % 0x1_0000_0000) as u32) =~= be_u64(left).skip(4));
    assert(be_u32((right % 0x1_0000_0000) as u32) =~= be_u64(right).skip(4));
    lemma_be_u32_is_injective((left / 0x1_0000_0000) as u32, (right / 0x1_0000_0000) as u32);
    lemma_be_u32_is_injective((left % 0x1_0000_0000) as u32, (right % 0x1_0000_0000) as u32);
}

proof fn lemma_fields_encoding_is_injective(left: Seq<Seq<u8>>, right: Seq<Seq<u8>>)
    requires
        prefixable(left),
        prefixable(right),
        fields_encoding(left) == fields_encoding(right),
    ensures
        left == right,
    decreases left.len(),
{
    let l = fields_encoding(left);
    let r = fields_encoding(right);
    if left.len() == 0 || right.len() == 0 {
        if left.len() > 0 {
            assert(l.len() >= be_u32(left[0].len() as u32).len());
        }
        if right.len() > 0 {
            assert(r.len() >= be_u32(right[0].len() as u32).len());
        }
        assert(left =~= right);
    } else {
        let l_rest = fields_encoding(left.drop_first());
        let r_rest = fields_encoding(right.drop_first());
        assert(l =~= be_u32(left[0].len() as u32) + left[0] + l_rest);
        assert(r =~= be_u32(right[0].len() as u32) + right[0] + r_rest);
        assert(be_u32(left[0].len() as u32) =~= l.take(4));
        assert(be_u32(right[0].len() as u32) =~= r.take(4));
        lemma_be_u32_is_injective(left[0].len() as u32, right[0].len() as u32);
        let n = left[0].len() as int;
        assert(left[0] =~= l.subrange(4, 4 + n));
        assert(right[0] =~= r.subrange(4, 4 + n));
        assert(l_rest =~= l.skip(4 + n));
        assert(r_rest =~= r.skip(4 + n));
        assert forall|i: int| 0 <= i < left.drop_first().len() implies (
        #[trigger] left.drop_first()[i]).len() <= u32::MAX by {
            assert(left.drop_first()[i] == left[i + 1]);
        }
        assert forall|i: int| 0 <= i < right.drop_first().len() implies (
        #[trigger] right.drop_first()[i]).len() <= u32::MAX by {
            assert(right.drop_first()[i] == right[i + 1]);
        }
        lemma_fields_encoding_is_injective(left.drop_first(), right.drop_first());
        assert(left =~= seq![left[0]] + left.drop_first());
        assert(right =~= seq![right[0]] + right.drop_first());
    }
}

/// No two records, of one kind or of two, share a pre-image: neither a different
/// tag nor a different split into fields gives the same bytes.
pub proof fn zk_preimage_is_injective(
    left_tag: u8,
    left: Seq<Seq<u8>>,
    right_tag: u8,
    right: Seq<Seq<u8>>,
)
    requires
        prefixable(left),
        prefixable(right),
        zk_preimage(left_tag, left) == zk_preimage(right_tag, right),
    ensures
        left_tag == right_tag,
        left == right,
{
    let l = zk_preimage(left_tag, left);
    let r = zk_preimage(right_tag, right);
    let n = ascii("inheritx:zk:"@).len() as int;
    assert(l[n] == left_tag);
    assert(r[n] == right_tag);
    assert(fields_encoding(left) =~= l.skip(n + 1));
    assert(fields_encoding(right) =~= r.skip(n + 1));
    lemma_fields_encoding_is_injective(left, right);
}

/// Two different records meet on one key only where SHA-256 collides on their
/// pre-images.
pub proof fn zk_records_meet_only_in_a_collision(
    left_tag: u8,
    left: Seq<Seq<u8>>,
    right_tag: u8,
    right: Seq<Seq<u8>>,
)
    requires
        prefixable(left),
        prefixable(right),
        left_tag != right_tag || left != right,
    ensures
        zk_record_key(left_tag, left) == zk_record_key(right_tag, right) ==> collision(
            zk_preimage(left_tag, left),
            zk_preimage(right_tag, right),
        ),
{
    if zk_preimage(left_tag, left) == zk_preimage(right_tag, right) {
        zk_preimage_is_injective(left_tag, left, right_tag, right);
    }
}

/// Unless SHA-256 collides on their pre-images, two records have the same key
/// exactly if they are of the same kind and about the same fields.
pub proof fn zk_keys_tell_records_apart(
    left_tag: u8,
    left: Seq<Seq<u8>>,
    right_tag: u8,
    right: Seq<Seq<u8>>,
)
    requires
        prefixable(left),
        prefixable(right),
        !collision(zk_preimage(left_tag, left), zk_preimage(right_tag, right)),
    ensures
        zk_record_key(left_tag, left) == zk_record_key(right_tag, right) <==> left_tag == right_tag
            && left == right,
{
    if left_tag != right_tag || left != right {
        zk_records_meet_only_in_a_collision(left_tag, left, right_tag, right);
    }
}

/// Whether `fields` are those of a hashed record of plan `plan_id`: the plan comes
/// first.
pub open spec fn about_plan(fields: Seq<Seq<u8>>, plan_id: u64) -> bool {
    prefixable(fields) && fields.len() > 0 && fields[0] == be_u64(plan_id)
}

/// Whether SHA-256 collides on `preimage` and on that of some hashed record of
/// plan `plan_id`.
pub open spec fn collides_with_plan(preimage: Seq<u8>, plan_id: u64) -> bool {
    exists|tag: u8, fields: Seq<Seq<u8>>|
        about_plan(fields, plan_id) && collision(preimage, #[trigger] zk_preimage(tag, fields))
}

/// The hashed records of a plan are about that plan.
pub(crate) proof fn lemma_fields_are_about_the_plan(plan_id: u64)
    ensures
        about_plan(claimants_fields(plan_id), plan_id),
        forall|claimant: Address| about_plan(#[trigger] proof_fields(plan_id, claimant), plan_id),
        forall|index: u32| about_plan(#[trigger] requirement_fields(plan_id, index), plan_id),
{
    assert forall|claimant: Address| about_plan(
        #[trigger] proof_fields(plan_id, claimant),
        plan_id,
    ) by {
        lemma_address_encoding_is_short(claimant);
    }
}

/// A record that shares its key with a different record of a plan collides with
/// that plan.
pub(crate) proof fn lemma_shared_key_collides(
    left_tag: u8,
    left: Seq<Seq<u8>>,
    right_tag: u8,
    right: Seq<Seq<u8>>,
    plan_id: u64,
)
    requires
        prefixable(left),
        about_plan(right, plan_id),
        left_tag != right_tag || left != right,
        zk_record_key(left_tag, left) == zk_record_key(right_tag, right),
    ensures
        collides_with_plan(zk_preimage(left_tag, left), plan_id),
{
    zk_records_meet_only_in_a_collision(left_tag, left, right_tag, right);
}

/// Records of two different plans are about different fields.
pub(crate) proof fn lemma_plans_have_different_fields(
    left: Seq<Seq<u8>>,
    left_plan: u64,
    right: Seq<Seq<u8>>,
    right_plan: u64,
)
    requires
        about_plan(left, left_plan),
        about_plan(right, right_plan),
        left_plan != right_plan,
    ensures
        left != right,
{
    if left == right {
        lemma_be_u64_is_injective(left_plan, right_plan);
    }
}

/// The proof records of two different (plan, claimant) pairs meet only where
/// SHA-256 collides on their pre-images.
pub proof fn proof_records_meet_only_in_a_collision(
    left_plan: u64,
    left: Address,
    right_plan: u64,
    right: Address,
)
    requires
        left_plan != right_plan || left != right,
    ensures
        proof_record_key(left_plan, left) == proof_record_key(right_plan, right) ==> collision(
            zk_preimage(ZK_PROOF_TAG, proof_fields(left_plan, left)),
            zk_preimage(ZK_PROOF_TAG, proof_fields(right_plan, right)),
        ),
{
    let l = proof_fields(left_plan, left);
    let r = proof_fields(right_plan, right);
    lemma_address_encoding_is_short(left);
    lemma_address_encoding_is_short(right);
    if l == r {
        assert(l[0] == r[0] && l[1] == r[1]);
        lemma_be_u64_is_injective(left_plan, right_plan);
        lemma_address_encoding_is_injective(left, right);
    }
    zk_records_meet_only_in_a_collision(ZK_PROOF_TAG, l, ZK_PROOF_TAG, r);
}

/// The proof requirements of two different (plan, beneficiary) pairs meet only
/// where SHA-256 collides on their pre-images.
pub proof fn requirements_meet_only_in_a_collision(
    left_plan: u64,
    left: u32,
    right_plan: u64,
    right: u32,
)
    requires
        left_plan != right_plan || left != right,
    ensures
        requirement_record_key(left_plan, left) == requirement_record_key(right_plan, right)
            ==> collision(
            zk_preimage(ZK_REQUIREMENT_TAG, requirement_fields(left_plan, left)),
            zk_preimage(ZK_REQUIREMENT_TAG, requirement_fields(right_plan, right)),
        ),
{
    let l = requirement_fields(left_plan, left);
    let r = requirement_fields(right_plan, right);
    if l == r {
        assert(l[0] == r[0] && l[1] == r[1]);
        lemma_be_u64_is_injective(left_plan, right_plan);
        lemma_be_u32_is_injective(left, right);
    }
    zk_records_meet_only_in_a_collision(ZK_REQUIREMENT_TAG, l, ZK_REQUIREMENT_TAG, r);
}

/// A proof record and a proof requirement meet only where SHA-256 collides on
/// their pre-images.
pub proof fn proof_meets_requirement_only_in_a_collision(
    plan_id: u64,
    claimant: Address,
    other_plan: u64,
    index: u32,
)
    ensures
        proof_record_key(plan_id, claimant) == requirement_record_key(other_plan, index)
            ==> collision(
            zk_preimage(ZK_PROOF_TAG, proof_fields(plan_id, claimant)),
            zk_preimage(ZK_REQUIREMENT_TAG, requirement_fields(other_plan, index)),
        ),
{
    lemma_address_encoding_is_short(claimant);
    zk_records_meet_only_in_a_collision(
        ZK_PROOF_TAG,
        proof_fields(plan_id, claimant),
        ZK_REQUIREMENT_TAG,
        requirement_fields(other_plan, index),
    );
}

/// A commitment binds a proof to its plan and claimant: no other pair has the
/// same pre-image, and no record key has it either.
pub proof fn commitment_preimage_is_injective(
    left_plan: u64,
    left: Address,
    right_plan: u64,
    right: Address,
)
    ensures
        commitment_preimage(left_plan, left) == commitment_preimage(right_plan, right)
            ==> left_plan == right_plan && left == right,
        forall|tag: u8, fields: Seq<Seq<u8>>|
            commitment_preimage(left_plan, left) != #[trigger] zk_preimage(tag, fields),
{
    reveal_strlit("inheritx:genetic:");
    reveal_strlit("inheritx:zk:");
    let l = commitment_preimage(left_plan, left);
    let r = commitment_preimage(right_plan, right);
    let n = ascii("inheritx:genetic:"@).len() as int;
    if l == r {
        assert(be_u64(left_plan) =~= l.subrange(n, n + 8));
        assert(be_u64(right_plan) =~= r.subrange(n, n + 8));
        lemma_be_u64_is_injective(left_plan, right_plan);
        assert(address_encoding(left) =~= l.skip(n + 8));
        assert(address_encoding(right) =~= r.skip(n + 8));
        lemma_address_encoding_is_injective(left, right);
    }
    assert forall|tag: u8, fields: Seq<Seq<u8>>| l != #[trigger] zk_preimage(tag, fields) by {
        assert(l[9] == ascii("inheritx:genetic:"@)[9]);
        assert(l[9] == 'g' as u8);
        assert(zk_preimage(tag, fields)[9] == ascii("inheritx:zk:"@)[9]);
        assert(zk_preimage(tag, fields)[9] == 'z' as u8);
    }
}

} // verus!
