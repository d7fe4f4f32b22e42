//! Virtual substates: values that a transaction may read but that no transaction wrote, such as
//! the current epoch and the fees that a validator may claim for an epoch.
use vstd::prelude::*;

verus! {

/// A public key, as bytes.
#[derive(Clone, Debug)]
pub struct PublicKey {
    pub bytes: Vec<u8>,
}

/// The fees that a validator may claim for an epoch.
#[derive(Clone, Debug)]
pub struct FeeClaim {
    pub epoch: u64,
    pub validator_public_key: PublicKey,
    /// The amount, as an `Amount` (a signed 64-bit number) holds it.
    pub amount: i64,
}

/// The identity of a virtual substate.
#[derive(Clone, Debug)]
pub enum VirtualSubstateId {
    CurrentEpoch,
    UnclaimedValidatorFee { epoch: u64, address: PublicKey },
}

/// A virtual substate.
#[derive(Clone, Debug)]
pub enum VirtualSubstate {
    CurrentEpoch(u64),
    UnclaimedValidatorFee(FeeClaim),
}

/// Errors of the services that virtual substates are read from.
#[derive(Clone, Debug)]
pub enum VirtualSubstateError {
    EpochManagerError(String),
    StorageError(String),
}

/// The identity of a virtual substate, with the public key as its bytes.
pub enum VirtualSubstateKey {
    CurrentEpoch,
    UnclaimedValidatorFee(u64, Seq<u8>),
}

/// A virtual substate, with the public key as its bytes.
pub enum VirtualSubstateValue {
    CurrentEpoch(u64),
    UnclaimedValidatorFee { epoch: u64, validator_public_key: Seq<u8>, amount: i64 },
}

impl VirtualSubstateId {
    pub open spec fn key(self) -> VirtualSubstateKey {
        match self {
            VirtualSubstateId::CurrentEpoch => VirtualSubstateKey::CurrentEpoch,
            VirtualSubstateId::UnclaimedValidatorFee { epoch, address } => {
                VirtualSubstateKey::UnclaimedValidatorFee(epoch, address.bytes@)
            },
        }
    }
}

impl VirtualSubstate {
    pub open spec fn value(self) -> VirtualSubstateValue {
        match self {
            VirtualSubstate::CurrentEpoch(e) => VirtualSubstateValue::CurrentEpoch(e),
            VirtualSubstate::UnclaimedValidatorFee(c) => VirtualSubstateValue::UnclaimedValidatorFee {
                epoch: c.epoch,
                validator_public_key: c.validator_public_key.bytes@,
                amount: c.amount,
            },
        }
    }
}

/// A set of virtual substates, each identity mapped to one substate; a later insert under an
/// identity replaces the earlier one.
#[derive(Clone, Debug)]
pub struct VirtualSubstates {
    entries: Vec<(VirtualSubstateId, VirtualSubstate)>,
}

/// The map that the inserts `entries` build, in order.
pub open spec fn entries_map(entries: Seq<(VirtualSubstateId, VirtualSubstate)>) -> Map<
    VirtualSubstateKey,
    VirtualSubstateValue,
>
    decreases entries.len(),
{
    if entries.len() == 0 {
        Map::empty()
    } else {
        entries_map(entries.drop_last()).insert(entries.last().0.key(), entries.last().1.value())
    }
}

impl View for VirtualSubstates {
    type V = Map<VirtualSubstateKey, VirtualSubstateValue>;

    closed spec fn view(&self) -> Map<VirtualSubstateKey, VirtualSubstateValue> {
        entries_map(self.entries@)
    }
}

/// An identity is in the map of a sequence of inserts exactly where some insert is under it, and
/// then maps to the value of the last such insert.
proof fn lemma_entries_map_lookup(entries: Seq<(VirtualSubstateId, VirtualSubstate)>, k: VirtualSubstateKey, i: int)
    requires
        0 <= i <= entries.len(),
        forall|j: int| i <= j < entries.len() ==> (#[trigger] entries[j]).0.key() != k,
    ensures
        i == 0 ==> !entries_map(entries).contains_key(k),
        i > 0 && entries[i - 1].0.key() == k ==> entries_map(entries).contains_key(k)
            && entries_map(entries)[k] == entries[i - 1].1.value(),
    decreases entries.len(),
{
    if entries.len() > 0 {
        if i < entries.len() {
            assert(entries.last().0.key() != k);
            lemma_entries_map_lookup(entries.drop_last(), k, i);
            if i > 0 {
                assert(entries.drop_last()[i - 1] == entries[i - 1]);
            }
        }
    }
}

/// Whether two identities are the same.
fn same_id(a: &VirtualSubstateId, b: &VirtualSubstateId) -> (r: bool)
    ensures
        r == (a.key() == b.key()),
{
    match (a, b) {
        (VirtualSubstateId::CurrentEpoch, VirtualSubstateId::CurrentEpoch) => true,
        (
            VirtualSubstateId::UnclaimedValidatorFee { epoch: e1, address: a1 },
            VirtualSubstateId::UnclaimedValidatorFee { epoch: e2, address: a2 },
        ) => *e1 == *e2 && crate::hotstuff::voting::same_bytes(&a1.bytes, &a2.bytes),
        _ => false,
    }
}

impl VirtualSubstates {
    /// The empty set.
    pub fn new() -> (r: VirtualSubstates)
        ensures
            r@ == Map::<VirtualSubstateKey, VirtualSubstateValue>::empty(),
    {
        VirtualSubstates { entries: Vec::new() }
    }

    /// The substate that `id` is mapped to, if any.
    pub fn get(&self, id: &VirtualSubstateId) -> (r: Option<&VirtualSubstate>)
        ensures
            r is Some <==> self@.contains_key(id.key()),
            r matches Some(s) ==> s.value() == self@[id.key()],
    {
        let mut i: usize = self.entries.len();
        while i > 0
            invariant
                0 <= i <= self.entries.len(),
                forall|j: int|
                    i <= j < self.entries.len() ==> (#[trigger] self.entries@[j]).0.key() != id.key(),
            decreases i,
        {
            if same_id(&self.entries[i - 1].0, id) {
                proof {
                    lemma_entries_map_lookup(self.entries@, id.key(), i as int);
                }
                return Some(&self.entries[i - 1].1);
            }
            i = i - 1;
        }
        proof {
            lemma_entries_map_lookup(self.entries@, id.key(), 0);
        }
        None
    }

    /// Maps `id` to `substate`, replacing what it was mapped to.
    pub fn insert(&mut self, id: VirtualSubstateId, substate: VirtualSubstate)
        ensures
            final(self)@ == old(self)@.insert(id.key(), substate.value()),
    {
        let ghost before = self.entries@;
        self.entries.push((id, substate));
        proof {
            assert(self.entries@.drop_last() =~= before);
        }
    }
}

/// Reading a set of virtual substates after an insert gives back what was inserted under that
/// identity, and what was there before under every other identity.
pub proof fn law_get_after_insert(
    before: Map<VirtualSubstateKey, VirtualSubstateValue>,
    k: VirtualSubstateKey,
    v: VirtualSubstateValue,
    other: VirtualSubstateKey,
)
    ensures
        before.insert(k, v).contains_key(k) && before.insert(k, v)[k] == v,
        other != k ==> (before.insert(k, v).contains_key(other) == before.contains_key(other) && (
        before.contains_key(other) ==> before.insert(k, v)[other] == before[other])),
{
}

/// The fee claim of `public_key` for `epoch`, where the store holds `validator_fee` as due. The
/// amount must fit in an `Amount`.
pub fn fee_claim(epoch: u64, public_key: &PublicKey, validator_fee: u64) -> (r: FeeClaim)
    requires
        validator_fee <= i64::MAX,
    ensures
        r.epoch == epoch,
        r.validator_public_key.bytes@ == public_key.bytes@,
        r.amount == validator_fee,
{
    let bytes = clone_bytes(&public_key.bytes);
    FeeClaim {
        epoch,
        validator_public_key: PublicKey { bytes },
        amount: validator_fee as i64,
    }
}

/// A copy of `bytes`.
fn clone_bytes(bytes: &Vec<u8>) -> (r: Vec<u8>)
    ensures
        r@ == bytes@,
{
    let mut r: Vec<u8> = Vec::new();
    let mut i: usize = 0;
    while i < bytes.len()
        invariant
            0 <= i <= bytes.len(),
            r@ == bytes@.take(i as int),
        decreases bytes.len() - i,
    {
        r.push(bytes[i]);
        assert(bytes@.take(i + 1) =~= bytes@.take(i as int).push(bytes@[i as int]));
        i = i + 1;
    }
    assert(bytes@.take(bytes.len() as int) =~= bytes@);
    r
}

/// What a virtual substate is read from: the epoch manager's current epoch, or the total fee that
/// the store holds as due to a validator for an epoch.
#[derive(Clone, Debug)]
pub enum VirtualSubstateRead {
    CurrentEpoch,
    TotalDueForEpoch { epoch: u64, public_key: PublicKey },
}

/// What must be read to generate the virtual substate `address`.
pub fn read_for_address(address: &VirtualSubstateId) -> (r: VirtualSubstateRead)
    ensures
        match *address {
            VirtualSubstateId::CurrentEpoch => r is CurrentEpoch,
            VirtualSubstateId::UnclaimedValidatorFee { epoch, address } => r matches VirtualSubstateRead::TotalDueForEpoch { epoch: e, public_key } && e == epoch
                && public_key.bytes@ == address.bytes@,
        },
{
    match address {
        VirtualSubstateId::CurrentEpoch => VirtualSubstateRead::CurrentEpoch,
        VirtualSubstateId::UnclaimedValidatorFee { epoch, address } => {
            VirtualSubstateRead::TotalDueForEpoch {
                epoch: *epoch,
                public_key: PublicKey { bytes: clone_bytes(&address.bytes) },
            }
        },
    }
}

/// The virtual substate `address`, from what was read for it (see `read_for_address`): the
/// current epoch, or the fee claim for the total due; a read that failed fails.
pub fn generate_for_address(
    address: &VirtualSubstateId,
    read: Result<u64, VirtualSubstateError>,
) -> (r: Result<VirtualSubstate, VirtualSubstateError>)
    requires
        address is UnclaimedValidatorFee && read is Ok ==> read->Ok_0 <= i64::MAX,
    ensures
        match read {
            Err(e) => r == Err::<VirtualSubstate, VirtualSubstateError>(e),
            Ok(v) => r matches Ok(s) && s.value() == match *address {
                VirtualSubstateId::CurrentEpoch => VirtualSubstateValue::CurrentEpoch(v),
                VirtualSubstateId::UnclaimedValidatorFee { epoch, address } => {
                    VirtualSubstateValue::UnclaimedValidatorFee {
                        epoch,
                        validator_public_key: address.bytes@,
                        amount: v as i64,
                    }
                },
            },
        },
{
    let v = match read {
        Err(e) => {
            return Err(e);
        },
        Ok(v) => v,
    };
    match address {
        VirtualSubstateId::CurrentEpoch => Ok(VirtualSubstate::CurrentEpoch(v)),
        VirtualSubstateId::UnclaimedValidatorFee { epoch, address } => {
            Ok(VirtualSubstate::UnclaimedValidatorFee(fee_claim(*epoch, address, v)))
        },
    }
}

/// The identity and value of the fee claim of `public_key` for `epoch` with `due` due.
pub open spec fn claim_entry(epoch: u64, public_key: Seq<u8>, due: u64) -> (
    VirtualSubstateKey,
    VirtualSubstateValue,
) {
    (
        VirtualSubstateKey::UnclaimedValidatorFee(epoch, public_key),
        VirtualSubstateValue::UnclaimedValidatorFee {
            epoch,
            validator_public_key: public_key,
            amount: due as i64,
        },
    )
}

/// The fee claims for the first `n` claim instructions, each inserted in turn.
pub open spec fn claims_map(
    claims: Seq<(u64, PublicKey)>,
    dues: Seq<Result<u64, VirtualSubstateError>>,
    n: int,
) -> Map<VirtualSubstateKey, VirtualSubstateValue>
    decreases n,
{
    if n <= 0 {
        Map::empty()
    } else {
        let (k, v) = claim_entry(claims[n - 1].0, claims[n - 1].1.bytes@, dues[n - 1]->Ok_0);
        claims_map(claims, dues, n - 1).insert(k, v)
    }
}

/// Every fee claim among the first `n` claim instructions is held under its epoch and validator,
/// names that epoch and validator, and claims the total due that the store answered for the last
/// instruction with that epoch and validator; nothing else is held (in particular, no current
/// epoch).
pub proof fn law_fee_claims_name_their_validator(
    claims: Seq<(u64, PublicKey)>,
    dues: Seq<Result<u64, VirtualSubstateError>>,
    n: int,
    key: VirtualSubstateKey,
)
    requires
        0 <= n <= claims.len(),
        n <= dues.len(),
    ensures
        claims_map(claims, dues, n).contains_key(key) <==> exists|k: int|
            0 <= k < n && key == VirtualSubstateKey::UnclaimedValidatorFee(
                (#[trigger] claims[k]).0,
                claims[k].1.bytes@,
            ),
        claims_map(claims, dues, n).contains_key(key) ==> (key matches VirtualSubstateKey::UnclaimedValidatorFee(
            e,
            pk,
        ) && (claims_map(claims, dues, n)[key] matches VirtualSubstateValue::UnclaimedValidatorFee {
            epoch,
            validator_public_key,
            amount,
        } && epoch == e && validator_public_key == pk && exists|k: int|
            0 <= k < n && (#[trigger] claims[k]).0 == e && claims[k].1.bytes@ == pk && amount == (
            dues[k]->Ok_0 as i64))),
    decreases n,
{
    if n > 0 {
        law_fee_claims_name_their_validator(claims, dues, n - 1, key);
        let last_key = VirtualSubstateKey::UnclaimedValidatorFee(claims[n - 1].0, claims[n - 1].1.bytes@);
        if key == last_key {
            assert(0 <= n - 1 < n && key == VirtualSubstateKey::UnclaimedValidatorFee(
                claims[n - 1].0,
                claims[n - 1].1.bytes@,
            ));
        } else {
            if exists|k: int|
                0 <= k < n && key == VirtualSubstateKey::UnclaimedValidatorFee(
                    (#[trigger] claims[k]).0,
                    claims[k].1.bytes@,
                ) {
                let k = choose|k: int|
                    0 <= k < n && key == VirtualSubstateKey::UnclaimedValidatorFee(
                        (#[trigger] claims[k]).0,
                        claims[k].1.bytes@,
                    );
                assert(k < n - 1);
            }
        }
    }
}

/// Whether the store answered every one of the first `n` claims.
pub open spec fn dues_ok_before(dues: Seq<Result<u64, VirtualSubstateError>>, n: int) -> bool {
    forall|j: int| 0 <= j < n ==> (#[trigger] dues[j]) is Ok
}

/// The virtual substates for the fee claims `claim_instructions`, where `dues[k]` is what the
/// store answered for the total due of claim `k`: the first failed answer fails the whole; each
/// other claim maps its epoch and validator to the claim of the total due. Every total due that
/// is used must fit in an `Amount`.
pub fn get_virtual_substates(
    claim_instructions: &Vec<(u64, PublicKey)>,
    dues: Vec<Result<u64, VirtualSubstateError>>,
) -> (r: Result<VirtualSubstates, VirtualSubstateError>)
    requires
        dues.len() == claim_instructions.len(),
        forall|k: int|
            0 <= k < dues.len() && dues_ok_before(dues@, k) && (#[trigger] dues@[k]) is Ok ==> dues@[k]->Ok_0
                <= i64::MAX,
    ensures
        r is Ok <==> dues_ok_before(dues@, dues.len() as int),
        r matches Ok(s) ==> s@ == claims_map(claim_instructions@, dues@, dues.len() as int),
        r matches Err(e) ==> exists|k: int|
            0 <= k < dues.len() && dues_ok_before(dues@, k) && (#[trigger] dues@[k]) == Err::<
                u64,
                VirtualSubstateError,
            >(e),
{
    let mut virtual_substates = VirtualSubstates::new();
    let mut i: usize = 0;
    while i < claim_instructions.len()
        invariant
            0 <= i <= claim_instructions.len(),
            dues.len() == claim_instructions.len(),
            forall|k: int|
                0 <= k < dues.len() && dues_ok_before(dues@, k) && (#[trigger] dues@[k]) is Ok
                    ==> dues@[k]->Ok_0 <= i64::MAX,
            dues_ok_before(dues@, i as int),
            virtual_substates@ == claims_map(claim_instructions@, dues@, i as int),
        decreases claim_instructions.len() - i,
    {
        let due = match &dues[i] {
            Err(_) => {
                let mut dues = dues;
                let failed = dues.remove(i);
                return match failed {
                    Err(e) => Err(e),
                    Ok(_) => Ok(virtual_substates),
                };
            },
            Ok(v) => *v,
        };
        let epoch = claim_instructions[i].0;
        let claim = fee_claim(epoch, &claim_instructions[i].1, due);
        let id = VirtualSubstateId::UnclaimedValidatorFee {
            epoch,
            address: PublicKey { bytes: clone_bytes(&claim_instructions[i].1.bytes) },
        };
        virtual_substates.insert(id, VirtualSubstate::UnclaimedValidatorFee(claim));
        i = i + 1;
    }
    Ok(virtual_substates)
}

/// Generates the virtual substates that transactions read, from the state store and the epoch
/// manager that it holds.
#[derive(Clone, Debug)]
pub struct VirtualSubstateManager<TStateStore, TEpochManager> {
    epoch_manager: TEpochManager,
    store: TStateStore,
}

impl<TStateStore, TEpochManager> VirtualSubstateManager<TStateStore, TEpochManager> {
    /// The state store that fees due are read from.
    pub closed spec fn state_store(self) -> TStateStore {
        self.store
    }

    /// The epoch manager that the current epoch is read from.
    pub closed spec fn epoch_manager_of(self) -> TEpochManager {
        self.epoch_manager
    }

    /// A manager over `state_store` and `epoch_manager`.
    pub fn new(state_store: TStateStore, epoch_manager: TEpochManager) -> (r: Self)
        ensures
            r.state_store() == state_store,
            r.epoch_manager_of() == epoch_manager,
    {
        Self { epoch_manager, store: state_store }
    }
}

} // verus!
