//! Mathematical model of one keyed claim store: the state is a map from keys
//! to claims, and each operation either succeeds and steps the map or is
//! rejected and leaves it unchanged. The laws of the registry (uniqueness,
//! ownership, atomicity, round trip) are stated and proved here, over this
//! model; the executable stores tie their contracts to `apply_op`.

use vstd::prelude::*;

verus! {

/// Identity of the account making a request, authenticated by the collaborator
/// that hosts the registry before the registry is invoked.
pub type AccountId = u64;

/// Logical timestamp (for instance a block height), supplied by the hosting
/// collaborator at the moment of each request.
pub type Timestamp = u64;

/// What one successful creation records for a key: the creating account, the
/// field bundle of the store kind, and the logical time of creation. A claim
/// is immutable once written; it can only be removed again, by its owner.
pub struct ClaimView<F> {
    pub owner: AccountId,
    pub fields: F,
    pub created_at: Timestamp,
}

/// A request against one store: create a claim under a key, or revoke the
/// claim held under a key.
pub enum Op<F> {
    Create { key: Seq<u8>, owner: AccountId, fields: F, at: Timestamp },
    Revoke { key: Seq<u8>, caller: AccountId },
}

/// Whether the operation targets key `k` with a creation.
pub open spec fn creates_key<F>(op: Op<F>, k: Seq<u8>) -> bool {
    match op {
        Op::Create { key, .. } => key == k,
        Op::Revoke { .. } => false,
    }
}

/// Whether the operation targets key `k` with a revocation.
pub open spec fn revokes_key<F>(op: Op<F>, k: Seq<u8>) -> bool {
    match op {
        Op::Create { .. } => false,
        Op::Revoke { key, .. } => key == k,
    }
}

/// Whether the operation succeeds against state `m`: a creation needs a key
/// within bound, a field bundle within bounds, and a free key (first writer
/// wins); a revocation needs a present key and the recorded owner as caller.
pub open spec fn op_allowed<F>(
    m: Map<Seq<u8>, ClaimView<F>>,
    op: Op<F>,
    key_valid: spec_fn(Seq<u8>) -> bool,
    fields_valid: spec_fn(F) -> bool,
) -> bool {
    match op {
        Op::Create { key, fields, .. } => {
            &&& key_valid(key)
            &&& fields_valid(fields)
            &&& !m.contains_key(key)
        },
        Op::Revoke { key, caller } => {
            &&& m.contains_key(key)
            &&& m[key].owner == caller
        },
    }
}

/// The state after one operation: a successful creation inserts the full
/// claim, a successful revocation removes the key, and a rejected operation
/// of either kind leaves the state exactly as it was.
pub open spec fn apply_op<F>(
    m: Map<Seq<u8>, ClaimView<F>>,
    op: Op<F>,
    key_valid: spec_fn(Seq<u8>) -> bool,
    fields_valid: spec_fn(F) -> bool,
) -> Map<Seq<u8>, ClaimView<F>> {
    if op_allowed(m, op, key_valid, fields_valid) {
        match op {
            Op::Create { key, owner, fields, at } => m.insert(
                key,
                ClaimView { owner, fields, created_at: at },
            ),
            Op::Revoke { key, .. } => m.remove(key),
        }
    } else {
        m
    }
}

/// The state after a whole sequence of operations, applied in order.
pub open spec fn run_ops<F>(
    m: Map<Seq<u8>, ClaimView<F>>,
    ops: Seq<Op<F>>,
    key_valid: spec_fn(Seq<u8>) -> bool,
    fields_valid: spec_fn(F) -> bool,
) -> Map<Seq<u8>, ClaimView<F>>
    decreases ops.len(),
{
    if ops.len() == 0 {
        m
    } else {
        run_ops(apply_op(m, ops[0], key_valid, fields_valid), ops.skip(1), key_valid, fields_valid)
    }
}

/// Whether no operation of the sequence is a revocation of key `k` that
/// succeeds in the state it meets.
pub open spec fn no_ok_revoke<F>(
    m: Map<Seq<u8>, ClaimView<F>>,
    ops: Seq<Op<F>>,
    k: Seq<u8>,
    key_valid: spec_fn(Seq<u8>) -> bool,
    fields_valid: spec_fn(F) -> bool,
) -> bool
    decreases ops.len(),
{
    ops.len() == 0 || {
        &&& !(revokes_key(ops[0], k) && op_allowed(m, ops[0], key_valid, fields_valid))
        &&& no_ok_revoke(
            apply_op(m, ops[0], key_valid, fields_valid),
            ops.skip(1),
            k,
            key_valid,
            fields_valid,
        )
    }
}

/// How many operations of the sequence are creations of key `k` that succeed
/// in the state they meet.
pub open spec fn ok_creates<F>(
    m: Map<Seq<u8>, ClaimView<F>>,
    ops: Seq<Op<F>>,
    k: Seq<u8>,
    key_valid: spec_fn(Seq<u8>) -> bool,
    fields_valid: spec_fn(F) -> bool,
) -> nat
    decreases ops.len(),
{
    if ops.len() == 0 {
        0
    } else {
        let here: nat = if creates_key(ops[0], k) && op_allowed(
            m,
            ops[0],
            key_valid,
            fields_valid,
        ) {
            1
        } else {
            0
        };
        here + ok_creates(
            apply_op(m, ops[0], key_valid, fields_valid),
            ops.skip(1),
            k,
            key_valid,
            fields_valid,
        )
    }
}

/// One step preserves an existing claim unless that very step is a successful
/// revocation of its key: creations of the key are rejected while it is held,
/// and operations on other keys do not touch it.
pub proof fn lemma_step_preserves_claim<F>(
    m: Map<Seq<u8>, ClaimView<F>>,
    op: Op<F>,
    k: Seq<u8>,
    key_valid: spec_fn(Seq<u8>) -> bool,
    fields_valid: spec_fn(F) -> bool,
)
    requires
        m.contains_key(k),
        !(revokes_key(op, k) && op_allowed(m, op, key_valid, fields_valid)),
    ensures
        apply_op(m, op, key_valid, fields_valid).contains_key(k),
        apply_op(m, op, key_valid, fields_valid)[k] == m[k],
{
    if op_allowed(m, op, key_valid, fields_valid) {
        match op {
            Op::Create { key, .. } => {
                assert(key != k);
            },
            Op::Revoke { key, .. } => {
                assert(key != k);
            },
        }
    }
}

/// Law (claim persistence): a claim survives, unchanged, any sequence of
/// operations that contains no successful revocation of its key.
pub proof fn lemma_claim_persists<F>(
    m: Map<Seq<u8>, ClaimView<F>>,
    ops: Seq<Op<F>>,
    k: Seq<u8>,
    key_valid: spec_fn(Seq<u8>) -> bool,
    fields_valid: spec_fn(F) -> bool,
)
    requires
        m.contains_key(k),
        no_ok_revoke(m, ops, k, key_valid, fields_valid),
    ensures
        run_ops(m, ops, key_valid, fields_valid).contains_key(k),
        run_ops(m, ops, key_valid, fields_valid)[k] == m[k],
    decreases ops.len(),
{
    if ops.len() > 0 {
        let m1 = apply_op(m, ops[0], key_valid, fields_valid);
        lemma_step_preserves_claim(m, ops[0], k, key_valid, fields_valid);
        lemma_claim_persists(m1, ops.skip(1), k, key_valid, fields_valid);
    }
}

/// Law (uniqueness): after any sequence of operations without a successful
/// revocation of key `k`, at most one creation of `k` succeeds, and none at
/// all when `k` is already claimed at the start.
pub proof fn lemma_uniqueness<F>(
    m: Map<Seq<u8>, ClaimView<F>>,
    ops: Seq<Op<F>>,
    k: Seq<u8>,
    key_valid: spec_fn(Seq<u8>) -> bool,
    fields_valid: spec_fn(F) -> bool,
)
    requires
        no_ok_revoke(m, ops, k, key_valid, fields_valid),
    ensures
        ok_creates(m, ops, k, key_valid, fields_valid) <= 1,
        m.contains_key(k) ==> ok_creates(m, ops, k, key_valid, fields_valid) == 0,
    decreases ops.len(),
{
    if ops.len() > 0 {
        let m1 = apply_op(m, ops[0], key_valid, fields_valid);
        if creates_key(ops[0], k) && op_allowed(m, ops[0], key_valid, fields_valid) {
            assert(!m.contains_key(k));
            assert(m1.contains_key(k));
        } else if m.contains_key(k) {
            lemma_step_preserves_claim(m, ops[0], k, key_valid, fields_valid);
        }
        lemma_uniqueness(m1, ops.skip(1), k, key_valid, fields_valid);
    }
}

/// Law (ownership): after a successful creation of key `k` by `owner` and any
/// further operations without a successful revocation of `k`, the claim on
/// `k` still records `owner`, and a revocation of `k` can succeed only for
/// `owner` itself.
pub proof fn lemma_ownership<F>(
    m: Map<Seq<u8>, ClaimView<F>>,
    k: Seq<u8>,
    owner: AccountId,
    fields: F,
    at: Timestamp,
    ops: Seq<Op<F>>,
    caller: AccountId,
    key_valid: spec_fn(Seq<u8>) -> bool,
    fields_valid: spec_fn(F) -> bool,
)
    requires
        op_allowed(m, Op::Create { key: k, owner, fields, at }, key_valid, fields_valid),
        no_ok_revoke(
            apply_op(m, Op::Create { key: k, owner, fields, at }, key_valid, fields_valid),
            ops,
            k,
            key_valid,
            fields_valid,
        ),
    ensures
        ({
            let m1 = apply_op(m, Op::Create { key: k, owner, fields, at }, key_valid, fields_valid);
            let mf = run_ops(m1, ops, key_valid, fields_valid);
            &&& mf.contains_key(k)
            &&& mf[k].owner == owner
            &&& (op_allowed(mf, Op::Revoke { key: k, caller }, key_valid, fields_valid) ==> caller
                == owner)
        }),
{
    let m1 = apply_op(m, Op::Create { key: k, owner, fields, at }, key_valid, fields_valid);
    assert(m1.contains_key(k) && m1[k].owner == owner);
    lemma_claim_persists(m1, ops, k, key_valid, fields_valid);
}

/// Law (atomicity): a rejected operation leaves the store state identical to
/// what it was before the request.
pub proof fn lemma_atomicity<F>(
    m: Map<Seq<u8>, ClaimView<F>>,
    op: Op<F>,
    key_valid: spec_fn(Seq<u8>) -> bool,
    fields_valid: spec_fn(F) -> bool,
)
    ensures
        !op_allowed(m, op, key_valid, fields_valid) ==> apply_op(m, op, key_valid, fields_valid)
            == m,
{
}

/// Law (round trip): immediately after a successful creation, the key holds
/// exactly the owner, field bundle and timestamp that were supplied.
pub proof fn lemma_round_trip<F>(
    m: Map<Seq<u8>, ClaimView<F>>,
    k: Seq<u8>,
    owner: AccountId,
    fields: F,
    at: Timestamp,
    key_valid: spec_fn(Seq<u8>) -> bool,
    fields_valid: spec_fn(F) -> bool,
)
    requires
        key_valid(k),
        fields_valid(fields),
        !m.contains_key(k),
    ensures
        ({
            let m1 = apply_op(m, Op::Create { key: k, owner, fields, at }, key_valid, fields_valid);
            &&& m1.contains_key(k)
            &&& m1[k] == (ClaimView { owner, fields, created_at: at })
        }),
{
}

} // verus!
