//! Groups of parachain authorities, from the duty roster of a relay chain
//! block: the authorities that check the validity and the availability of the
//! candidates of each parachain, and how many of their votes are needed.

use vstd::prelude::*;

use std::collections::HashMap;

verus! {

broadcast use vstd::std_specs::hash::group_hash_axioms;

/// Index of a parachain.
pub type ParaId = u32;

/// The chain that an authority is assigned to.
#[derive(Debug, Clone, Copy, PartialEq, Eq, Structural)]
pub enum Chain {
    /// The relay chain.
    Relay,
    /// The parachain with the given index.
    Parachain(ParaId),
}

/// Session key of an authority: an ed25519 public key.
#[derive(Debug, Clone, Copy, PartialEq, Eq, Hash)]
pub struct AuthorityId(pub [u8; 32]);

impl AuthorityId {
    /// The bytes of the key.
    pub open spec fn key(self) -> Seq<u8> {
        self.0@
    }

    /// Whether the two keys are the same.
    pub fn same(&self, other: &AuthorityId) -> (r: bool)
        ensures
            r == (self.key() == other.key()),
    {
        let mut i: usize = 0;
        while i < 32
            invariant
                i <= 32,
                forall|j: int| 0 <= j < i ==> self.0@[j] == other.0@[j],
            decreases 32 - i,
        {
            if self.0[i] != other.0[i] {
                return false;
            }
            i = i + 1;
        }
        assert(self.0@ =~= other.0@);
        true
    }
}

/// The duties of the authorities of a session, by their position among the
/// authorities.
#[derive(Debug, Clone)]
pub struct DutyRoster {
    /// Chain that each authority checks the validity of candidates for.
    pub validator_duty: Vec<Chain>,
    /// Chain that each authority checks the availability of candidate data for.
    pub guarantor_duty: Vec<Chain>,
}

/// Information about a specific group.
#[derive(Debug, Clone)]
pub struct GroupInfo {
    /// Authorities meant to check validity of candidates (each once).
    pub validity_guarantors: Vec<AuthorityId>,
    /// Authorities meant to check availability of candidate data (each once).
    pub availability_guarantors: Vec<AuthorityId>,
    /// Number of votes needed for validity.
    pub needed_validity: usize,
    /// Number of votes needed for availability.
    pub needed_availability: usize,
}

/// The duty of the local authority.
#[derive(Debug, Clone, Copy, PartialEq, Eq, Structural)]
pub struct LocalDuty {
    /// The chain that the local authority validates.
    pub validation: Chain,
}

/// Why the groups could not be made.
#[derive(Debug, Clone, Copy, PartialEq, Eq)]
pub enum GroupError {
    /// The duty roster does not have one duty per authority: the number of
    /// authorities and the number of duties.
    InvalidDutyRosterLength(usize, usize),
    /// The local authority is not among the authorities.
    NotValidator(AuthorityId),
}

/// The keys of the authorities.
pub open spec fn keys(authorities: Seq<AuthorityId>) -> Seq<Seq<u8>> {
    authorities.map_values(|a: AuthorityId| a.key())
}

/// Keys of the authorities, among the first `n`, whose duty is the parachain `id`.
pub open spec fn duty_keys(authorities: Seq<AuthorityId>, duties: Seq<Chain>, id: ParaId, n: int) -> Set<Seq<u8>> {
    Set::new(
        |k: Seq<u8>|
            exists|i: int| 0 <= i < n && duties[i] == Chain::Parachain(id) && #[trigger] authorities[i].key() == k,
    )
}

/// Some of the first `n` duties is the parachain `id`.
pub open spec fn has_duty(duties: Seq<Chain>, id: ParaId, n: int) -> bool {
    exists|i: int| 0 <= i < n && #[trigger] duties[i] == Chain::Parachain(id)
}

/// Votes needed among `n` authorities: a majority, half of them rounded up.
pub open spec fn majority(n: nat) -> nat {
    n / 2 + n % 2
}

/// The authorities, each once, whose keys are `expected`, and the votes needed among them.
pub open spec fn guarantors_are(guarantors: Seq<AuthorityId>, needed: usize, expected: Set<Seq<u8>>) -> bool {
    &&& keys(guarantors).no_duplicates()
    &&& keys(guarantors).to_set() == expected
    &&& needed == majority(guarantors.len())
}

/// `group` is the group of parachain `id`, after the validator duties of the
/// first `nv` authorities and the guarantor duties of the first `na` ones.
pub open spec fn group_after(
    group: GroupInfo,
    authorities: Seq<AuthorityId>,
    roster: DutyRoster,
    id: ParaId,
    nv: int,
    na: int,
) -> bool {
    &&& guarantors_are(
        group.validity_guarantors@,
        group.needed_validity,
        duty_keys(authorities, roster.validator_duty@, id, nv),
    )
    &&& guarantors_are(
        group.availability_guarantors@,
        group.needed_availability,
        duty_keys(authorities, roster.guarantor_duty@, id, na),
    )
}

/// The parachains that some of the authorities are assigned to.
pub open spec fn assigned_parachains(roster: DutyRoster, nv: int, na: int) -> Set<ParaId> {
    Set::new(|id: ParaId| has_duty(roster.validator_duty@, id, nv) || has_duty(roster.guarantor_duty@, id, na))
}

/// The groups of all parachains that are assigned to some authority.
pub open spec fn groups_after(
    groups: Map<ParaId, GroupInfo>,
    authorities: Seq<AuthorityId>,
    roster: DutyRoster,
    nv: int,
    na: int,
) -> bool {
    &&& groups.dom() == assigned_parachains(roster, nv, na)
    &&& forall|id: ParaId| #[trigger]
        groups.contains_key(id) ==> group_after(groups[id], authorities, roster, id, nv, na)
}

/// `chain` is the validator duty of the last of the first `n` authorities whose key is `key`.
pub open spec fn last_duty_of(
    authorities: Seq<AuthorityId>,
    duties: Seq<Chain>,
    key: Seq<u8>,
    n: int,
    chain: Chain,
) -> bool {
    exists|i: int|
        {
            &&& 0 <= i < n
            &&& #[trigger] authorities[i].key() == key
            &&& duties[i] == chain
            &&& forall|j: int| i < j < n ==> authorities[j].key() != key
        }
}

/// Adds the authority to the guarantors, unless its key is there already.
fn insert_authority(guarantors: &mut Vec<AuthorityId>, authority: AuthorityId)
    requires
        keys(old(guarantors)@).no_duplicates(),
    ensures
        keys(final(guarantors)@).no_duplicates(),
        keys(final(guarantors)@).to_set() == keys(old(guarantors)@).to_set().insert(authority.key()),
{
    let mut i: usize = 0;
    while i < guarantors.len()
        invariant
            i <= guarantors@.len(),
            guarantors@ == old(guarantors)@,
            keys(old(guarantors)@).no_duplicates(),
            forall|j: int| 0 <= j < i ==> guarantors@[j].key() != authority.key(),
        decreases guarantors@.len() - i,
    {
        if guarantors[i].same(&authority) {
            proof {
                assert(keys(guarantors@)[i as int] == authority.key());
                assert(keys(guarantors@).to_set().contains(authority.key()));
                assert(keys(guarantors@).to_set() =~= keys(guarantors@).to_set().insert(authority.key()));
            }
            return;
        }
        i = i + 1;
    }
    let ghost before = guarantors@;
    guarantors.push(authority);
    proof {
        before.lemma_push_map_commute(|a: AuthorityId| a.key(), authority);
        keys(before).lemma_push_to_set_commute(authority.key());
        assert(!keys(before).contains(authority.key())) by {
            if keys(before).contains(authority.key()) {
                let j = keys(before).index_of(authority.key());
                assert(before[j].key() == authority.key());
            }
        }
        assert(keys(guarantors@) =~= keys(before).push(authority.key()));
        assert forall|a: int, b: int| 0 <= a < b < keys(guarantors@).len() implies keys(guarantors@)[a] != keys(
            guarantors@,
        )[b] by {
            if b == before.len() {
                assert(keys(before)[a] == keys(guarantors@)[a]);
            }
        }
    }
}

/// Votes needed among `n` authorities: half of them, rounded up.
fn majority_of(n: usize) -> (r: usize)
    ensures
        r == majority(n as nat),
{
    n / 2 + n % 2
}

/// Takes the group of parachain `id` out of the groups, or an empty group if there is none.
fn take_group(groups: &mut HashMap<ParaId, GroupInfo>, id: ParaId) -> (r: GroupInfo)
    ensures
        final(groups)@ == old(groups)@.remove(id),
        old(groups)@.contains_key(id) ==> r == old(groups)@[id],
        !old(groups)@.contains_key(id) ==> {
            &&& r.validity_guarantors@.len() == 0
            &&& r.availability_guarantors@.len() == 0
            &&& r.needed_validity == 0
            &&& r.needed_availability == 0
        },
{
    match groups.remove(&id) {
        Some(group) => group,
        None => GroupInfo {
            validity_guarantors: Vec::new(),
            availability_guarantors: Vec::new(),
            needed_validity: 0,
            needed_availability: 0,
        },
    }
}

/// Adds the `i`-th authority to the validity guarantors of the parachain that
/// it validates, if any.
fn add_validity_duty(
    groups: &mut HashMap<ParaId, GroupInfo>,
    roster: &DutyRoster,
    authorities: &[AuthorityId],
    i: usize,
    Ghost(na): Ghost<int>,
)
    requires
        i < authorities@.len(),
        i < roster.validator_duty@.len(),
        groups_after(old(groups)@, authorities@, *roster, i as int, na),
    ensures
        groups_after(final(groups)@, authorities@, *roster, i + 1, na),
{
    let ghost a = authorities@;
    let ghost v = roster.validator_duty@;
    match roster.validator_duty[i] {
        Chain::Relay => {
            proof {
                assert(assigned_parachains(*roster, i + 1, na) =~= assigned_parachains(*roster, i as int, na)) by {
                    assert forall|id: ParaId| has_duty(v, id, i + 1) implies has_duty(v, id, i as int) by {
                        let j = choose|j: int| 0 <= j < i + 1 && #[trigger] v[j] == Chain::Parachain(id);
                        assert(j != i);
                    }
                }
                assert forall|id: ParaId| #[trigger] groups@.contains_key(id) implies group_after(
                    groups@[id],
                    a,
                    *roster,
                    id,
                    i + 1,
                    na,
                ) by {
                    assert(duty_keys(a, v, id, i + 1) =~= duty_keys(a, v, id, i as int));
                }
            }
        },
        Chain::Parachain(id) => {
            let ghost before = groups@;
            let mut group = take_group(groups, id);
            proof {
                if !before.contains_key(id) {
                    assert(!has_duty(v, id, i as int));
                    assert(duty_keys(a, v, id, i as int) =~= Set::empty());
                    assert(duty_keys(a, roster.guarantor_duty@, id, na) =~= Set::empty());
                    assert(keys(group.validity_guarantors@) =~= Seq::empty());
                    assert(keys(group.availability_guarantors@) =~= Seq::empty());
                    assert(keys(group.validity_guarantors@).to_set() =~= Set::empty());
                    assert(keys(group.availability_guarantors@).to_set() =~= Set::empty());
                } else {
                    assert(group_after(before[id], a, *roster, id, i as int, na));
                }
                assert(group_after(group, a, *roster, id, i as int, na));
            }
            insert_authority(&mut group.validity_guarantors, authorities[i]);
            group.needed_validity = majority_of(group.validity_guarantors.len());
            groups.insert(id, group);
            proof {
                assert(duty_keys(a, v, id, i + 1) =~= duty_keys(a, v, id, i as int).insert(a[i as int].key()));
                assert(group_after(group, a, *roster, id, i + 1, na));
                assert(has_duty(v, id, i + 1));
                assert(assigned_parachains(*roster, i + 1, na) =~= assigned_parachains(*roster, i as int, na).insert(id)) by {
                    assert forall|id2: ParaId| has_duty(v, id2, i + 1) && id2 != id implies has_duty(v, id2, i as int) by {
                        let j = choose|j: int| 0 <= j < i + 1 && #[trigger] v[j] == Chain::Parachain(id2);
                        assert(j != i);
                    }
                }
                assert(groups@.dom() =~= assigned_parachains(*roster, i + 1, na));
                assert forall|id2: ParaId| #[trigger] groups@.contains_key(id2) implies group_after(
                    groups@[id2],
                    a,
                    *roster,
                    id2,
                    i + 1,
                    na,
                ) by {
                    if id2 != id {
                        assert(duty_keys(a, v, id2, i + 1) =~= duty_keys(a, v, id2, i as int));
                        assert(before.contains_key(id2));
                    }
                }
            }
        },
    }
}

/// Adds the `i`-th authority to the availability guarantors of the parachain
/// that it guarantees, if any.
fn add_availability_duty(
    groups: &mut HashMap<ParaId, GroupInfo>,
    roster: &DutyRoster,
    authorities: &[AuthorityId],
    i: usize,
    Ghost(nv): Ghost<int>,
)
    requires
        i < authorities@.len(),
        i < roster.guarantor_duty@.len(),
        groups_after(old(groups)@, authorities@, *roster, nv, i as int),
    ensures
        groups_after(final(groups)@, authorities@, *roster, nv, i + 1),
{
    let ghost a = authorities@;
    let ghost g = roster.guarantor_duty@;
    match roster.guarantor_duty[i] {
        Chain::Relay => {
            proof {
                assert(assigned_parachains(*roster, nv, i + 1) =~= assigned_parachains(*roster, nv, i as int)) by {
                    assert forall|id: ParaId| has_duty(g, id, i + 1) implies has_duty(g, id, i as int) by {
                        let j = choose|j: int| 0 <= j < i + 1 && #[trigger] g[j] == Chain::Parachain(id);
                        assert(j != i);
                    }
                }
                assert forall|id: ParaId| #[trigger] groups@.contains_key(id) implies group_after(
                    groups@[id],
                    a,
                    *roster,
                    id,
                    nv,
                    i + 1,
                ) by {
                    assert(duty_keys(a, g, id, i + 1) =~= duty_keys(a, g, id, i as int));
                }
            }
        },
        Chain::Parachain(id) => {
            let ghost before = groups@;
            let mut group = take_group(groups, id);
            proof {
                if !before.contains_key(id) {
                    assert(!has_duty(g, id, i as int));
                    assert(duty_keys(a, g, id, i as int) =~= Set::empty());
                    assert(duty_keys(a, roster.validator_duty@, id, nv) =~= Set::empty());
                    assert(keys(group.validity_guarantors@) =~= Seq::empty());
                    assert(keys(group.availability_guarantors@) =~= Seq::empty());
                    assert(keys(group.validity_guarantors@).to_set() =~= Set::empty());
                    assert(keys(group.availability_guarantors@).to_set() =~= Set::empty());
                } else {
                    assert(group_after(before[id], a, *roster, id, nv, i as int));
                }
                assert(group_after(group, a, *roster, id, nv, i as int));
            }
            insert_authority(&mut group.availability_guarantors, authorities[i]);
            group.needed_availability = majority_of(group.availability_guarantors.len());
            groups.insert(id, group);
            proof {
                assert(duty_keys(a, g, id, i + 1) =~= duty_keys(a, g, id, i as int).insert(a[i as int].key()));
                assert(group_after(group, a, *roster, id, nv, i + 1));
                assert(has_duty(g, id, i + 1));
                assert(assigned_parachains(*roster, nv, i + 1) =~= assigned_parachains(*roster, nv, i as int).insert(id)) by {
                    assert forall|id2: ParaId| has_duty(g, id2, i + 1) && id2 != id implies has_duty(g, id2, i as int) by {
                        let j = choose|j: int| 0 <= j < i + 1 && #[trigger] g[j] == Chain::Parachain(id2);
                        assert(j != i);
                    }
                }
                assert(groups@.dom() =~= assigned_parachains(*roster, nv, i + 1));
                assert forall|id2: ParaId| #[trigger] groups@.contains_key(id2) implies group_after(
                    groups@[id2],
                    a,
                    *roster,
                    id2,
                    nv,
                    i + 1,
                ) by {
                    if id2 != id {
                        assert(duty_keys(a, g, id2, i + 1) =~= duty_keys(a, g, id2, i as int));
                        assert(before.contains_key(id2));
                    }
                }
            }
        },
    }
}

/// The votes needed by a group of guarantors are a majority of the authorities
/// that it is made of.
proof fn lemma_needed_is_majority(guarantors: Seq<AuthorityId>, needed: usize, expected: Set<Seq<u8>>)
    requires
        guarantors_are(guarantors, needed, expected),
    ensures
        needed == majority(expected.len()),
{
    keys(guarantors).unique_seq_to_set();
}

/// The result of `make_group_info` when the duty roster fits the authorities
/// and the local authority is among them.
pub open spec fn groups_made(
    groups: Map<ParaId, GroupInfo>,
    duty: LocalDuty,
    roster: DutyRoster,
    authorities: Seq<AuthorityId>,
    local_id: AuthorityId,
) -> bool {
    let n = authorities.len() as int;
    &&& groups_after(groups, authorities, roster, n, n)
    &&& forall|id: ParaId| #[trigger]
        groups.contains_key(id) ==> {
            &&& groups[id].needed_validity == majority(duty_keys(authorities, roster.validator_duty@, id, n).len())
            &&& groups[id].needed_availability == majority(
                duty_keys(authorities, roster.guarantor_duty@, id, n).len(),
            )
        }
    &&& last_duty_of(authorities, roster.validator_duty@, local_id.key(), n, duty.validation)
}

/// Splits the authorities into groups by parachain, following the duty roster:
/// each parachain that some authority validates or guarantees has a group of
/// its validity guarantors and of its availability guarantors, each of whom is
/// in it once, and a majority of each are the votes needed. The local duty is
/// the validator duty of the local authority (of its last position among the
/// authorities).
///
/// Fails if the roster does not have one validator duty and one guarantor duty
/// per authority, and if the local authority is not among the authorities.
pub fn make_group_info(
    roster: DutyRoster,
    authorities: &[AuthorityId],
    local_id: AuthorityId,
) -> (r: Result<(HashMap<ParaId, GroupInfo>, LocalDuty), GroupError>)
    ensures
        ({
            let n = authorities@.len();
            let v = roster.validator_duty@;
            let g = roster.guarantor_duty@;
            &&& v.len() != n ==> r == Err::<(HashMap<ParaId, GroupInfo>, LocalDuty), GroupError>(
                GroupError::InvalidDutyRosterLength(n as usize, v.len() as usize),
            )
            &&& v.len() == n && g.len() != n ==> r == Err::<(HashMap<ParaId, GroupInfo>, LocalDuty), GroupError>(
                GroupError::InvalidDutyRosterLength(n as usize, g.len() as usize),
            )
            &&& v.len() == n && g.len() == n && !keys(authorities@).contains(local_id.key()) ==> r == Err::<
                (HashMap<ParaId, GroupInfo>, LocalDuty),
                GroupError,
            >(GroupError::NotValidator(local_id))
            &&& v.len() == n && g.len() == n && keys(authorities@).contains(local_id.key()) ==> (r matches Ok(
                (groups, duty),
            ) && groups_made(groups@, duty, roster, authorities@, local_id))
        }),
{
    if roster.validator_duty.len() != authorities.len() {
        return Err(GroupError::InvalidDutyRosterLength(authorities.len(), roster.validator_duty.len()));
    }
    if roster.guarantor_duty.len() != authorities.len() {
        return Err(GroupError::InvalidDutyRosterLength(authorities.len(), roster.guarantor_duty.len()));
    }
    let ghost a = authorities@;
    let ghost v = roster.validator_duty@;
    let mut local_validation: Option<Chain> = None;
    let mut groups: HashMap<ParaId, GroupInfo> = HashMap::new();
    proof {
        assert(groups@.dom() =~= assigned_parachains(roster, 0, 0));
    }
    let mut i: usize = 0;
    while i < authorities.len()
        invariant
            i <= a.len(),
            a == authorities@,
            v == roster.validator_duty@,
            v.len() == a.len(),
            roster.guarantor_duty@.len() == a.len(),
            groups_after(groups@, a, roster, i as int, i as int),
            match local_validation {
                Some(chain) => last_duty_of(a, v, local_id.key(), i as int, chain),
                None => forall|j: int| 0 <= j < i ==> #[trigger] a[j].key() != local_id.key(),
            },
        decreases a.len() - i,
    {
        let ghost previous = local_validation;
        if authorities[i].same(&local_id) {
            local_validation = Some(roster.validator_duty[i]);
            proof {
                assert(last_duty_of(a, v, local_id.key(), i + 1, v[i as int]));
            }
        } else {
            proof {
                if let Some(chain) = previous {
                    let w = choose|w: int|
                        {
                            &&& 0 <= w < i
                            &&& #[trigger] a[w].key() == local_id.key()
                            &&& v[w] == chain
                            &&& forall|j: int| w < j < i ==> a[j].key() != local_id.key()
                        };
                    assert(last_duty_of(a, v, local_id.key(), i + 1, chain)) by {
                        assert(a[w].key() == local_id.key());
                    }
                }
            }
        }
        add_validity_duty(&mut groups, &roster, authorities, i, Ghost(i as int));
        add_availability_duty(&mut groups, &roster, authorities, i, Ghost(i + 1));
        i = i + 1;
    }
    match local_validation {
        Some(validation) => {
            proof {
                let n = a.len() as int;
                let w = choose|w: int|
                    {
                        &&& 0 <= w < n
                        &&& #[trigger] a[w].key() == local_id.key()
                        &&& v[w] == validation
                        &&& forall|j: int| w < j < n ==> a[j].key() != local_id.key()
                    };
                assert(keys(a)[w] == local_id.key());
                assert forall|id: ParaId| #[trigger] groups@.contains_key(id) implies {
                    &&& groups@[id].needed_validity == majority(duty_keys(a, v, id, n).len())
                    &&& groups@[id].needed_availability == majority(duty_keys(a, roster.guarantor_duty@, id, n).len())
                } by {
                    let group = groups@[id];
                    lemma_needed_is_majority(group.validity_guarantors@, group.needed_validity, duty_keys(a, v, id, n));
                    lemma_needed_is_majority(
                        group.availability_guarantors@,
                        group.needed_availability,
                        duty_keys(a, roster.guarantor_duty@, id, n),
                    );
                }
            }
            Ok((groups, LocalDuty { validation }))
        },
        None => {
            proof {
                if keys(a).contains(local_id.key()) {
                    let j = keys(a).index_of(local_id.key());
                    assert(a[j].key() == local_id.key());
                }
            }
            Err(GroupError::NotValidator(local_id))
        },
    }
}

/// The keys of the authorities that validate the parachain `id`: those of the
/// duties that have a session key.
pub open spec fn validator_keys(session_keys: Seq<AuthorityId>, duties: Seq<Chain>, id: ParaId) -> Set<Seq<u8>> {
    let n = if session_keys.len() < duties.len() {
        session_keys.len()
    } else {
        duties.len()
    };
    duty_keys(session_keys, duties, id, n as int)
}

/// The authorities that a collator of parachain `para_id` sends its collations
/// to: those with the duty of validating the parachain (each once). A duty
/// beyond the session keys names no authority.
pub fn compute_targets(para_id: ParaId, session_keys: &[AuthorityId], roster: DutyRoster) -> (r: Vec<AuthorityId>)
    ensures
        keys(r@).no_duplicates(),
        keys(r@).to_set() == validator_keys(session_keys@, roster.validator_duty@, para_id),
{
    let n = if session_keys.len() < roster.validator_duty.len() {
        session_keys.len()
    } else {
        roster.validator_duty.len()
    };
    let ghost a = session_keys@;
    let ghost v = roster.validator_duty@;
    let mut targets: Vec<AuthorityId> = Vec::new();
    proof {
        assert(keys(targets@).to_set() =~= duty_keys(a, v, para_id, 0));
    }
    let mut i: usize = 0;
    while i < n
        invariant
            i <= n <= a.len(),
            n <= v.len(),
            a == session_keys@,
            v == roster.validator_duty@,
            keys(targets@).no_duplicates(),
            keys(targets@).to_set() == duty_keys(a, v, para_id, i as int),
        decreases n - i,
    {
        if roster.validator_duty[i] == Chain::Parachain(para_id) {
            insert_authority(&mut targets, session_keys[i]);
            proof {
                assert(duty_keys(a, v, para_id, i + 1) =~= duty_keys(a, v, para_id, i as int).insert(a[i as int].key()));
            }
        } else {
            proof {
                assert(duty_keys(a, v, para_id, i + 1) =~= duty_keys(a, v, para_id, i as int));
            }
        }
        i = i + 1;
    }
    targets
}

} // verus!
