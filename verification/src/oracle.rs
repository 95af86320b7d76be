//! The MRV oracle: registered oracles report the tonnes measured for a project;
//! a reading that moves more than a fifth away from the previous one is flagged
//! as an anomaly. Each project keeps its latest reading and a bounded history.
//!
//! A request names the address that acts for it; that this address authorized
//! the request is for the Soroban host to check, and is not modelled here.

use vstd::prelude::*;

use crate::host::ledger_timestamp;
use crate::ids::{addresses_distinct, lemma_push_keeps_distinct, listed, Address, AddressSet};
use crate::table::{entries_map, inserted_all, keys_distinct, lemma_inserted_all_distinct, Table};

verus! {

/// The most readings kept in a project's history; older ones are dropped first.
pub const MAX_HISTORY: u32 = 100;

/// One reading of an oracle.
#[derive(Debug, PartialEq, Eq)]
pub struct MrvDataPoint {
    pub oracle: Address,
    pub project_id: String,
    pub tonnes: i128,
    pub recorded_at: u64,
    /// Set when the reading deviates more than 20% from the previous reading.
    pub anomaly: bool,
}

impl Clone for MrvDataPoint {
    fn clone(&self) -> (r: Self)
        ensures
            r == *self,
    {
        MrvDataPoint {
            oracle: self.oracle.clone(),
            project_id: self.project_id.clone(),
            tonnes: self.tonnes,
            recorded_at: self.recorded_at,
            anomaly: self.anomaly,
        }
    }
}

/// An event that the oracle publishes.
#[derive(Debug, PartialEq, Eq)]
pub enum OracleEvent {
    Initialized { admin: Address },
    Paused { admin: Address },
    Unpaused { admin: Address },
    OracleAdded { oracle: Address },
    OracleDuplicate { oracle: Address },
    MrvUpdated { oracle: Address, project_id: String, tonnes: i128, anomaly: bool },
}

/// Why an oracle request was refused.
#[derive(Clone, Copy, Debug, PartialEq, Eq, Structural)]
pub enum OracleError {
    NotInitialized,
    Unauthorized,
    AlreadyInitialized,
    Overflow,
    ContractPaused,
    InvalidNonce,
    NoPendingAdmin,
}

/// The oracle's state, as the contract stores it.
pub struct MrvOracle {
    admin: Option<Address>,
    pending_admin: Option<Address>,
    oracles: AddressSet,
    latest: Table<String, MrvDataPoint>,
    history: Table<String, Vec<MrvDataPoint>>,
    nonces: Table<String, u64>,
    paused: bool,
    events: Vec<OracleEvent>,
}

/// The oracle's state seen as plain values.
pub struct OracleModel {
    pub admin: Option<Address>,
    pub pending_admin: Option<Address>,
    pub oracles: Seq<Address>,
    pub latest: Map<Seq<char>, MrvDataPoint>,
    pub history: Map<Seq<char>, Seq<MrvDataPoint>>,
    pub nonces: Map<Seq<char>, u64>,
    pub paused: bool,
    pub events: Seq<OracleEvent>,
}

impl View for MrvOracle {
    type V = OracleModel;

    closed spec fn view(&self) -> OracleModel {
        OracleModel {
            admin: self.admin,
            pending_admin: self.pending_admin,
            oracles: self.oracles.members(),
            latest: self.latest.as_map(),
            history: self.history.as_map().map_values(|v: Vec<MrvDataPoint>| v@),
            nonces: self.nonces.as_map(),
            paused: self.paused,
            events: self.events@,
        }
    }
}

/// The next nonce that `address` must present (0 before its first request).
pub open spec fn nonce_of(m: OracleModel, address: Seq<char>) -> u64 {
    if m.nonces.contains_key(address) {
        m.nonces[address]
    } else {
        0
    }
}

/// The readings kept for `project` (none before its first reading).
pub open spec fn history_of(m: OracleModel, project: Seq<char>) -> Seq<MrvDataPoint> {
    if m.history.contains_key(project) {
        m.history[project]
    } else {
        Seq::empty()
    }
}

/// The history `h` after `point` was added: the oldest reading is dropped
/// when the history is full.
pub open spec fn keep_recent(h: Seq<MrvDataPoint>, point: MrvDataPoint) -> Seq<MrvDataPoint> {
    if h.len() >= MAX_HISTORY {
        h.remove(0).push(point)
    } else {
        h.push(point)
    }
}

/// The absolute value of `x`.
pub open spec fn abs(x: int) -> int {
    if x < 0 {
        -x
    } else {
        x
    }
}

/// Whether a reading of `tonnes` deviates more than 20% from the reading
/// `prev`, that is, whether five times the difference exceeds `|prev|`; the
/// difference times five must fit in an `i128`.
pub open spec fn deviation(prev: i128, tonnes: i128) -> Result<bool, OracleError> {
    let diff = abs(tonnes - prev);
    if diff * 5 > i128::MAX {
        Err(OracleError::Overflow)
    } else {
        Ok(diff * 5 > abs(prev as int))
    }
}

/// Whether a reading of `tonnes` for `project` is an anomaly: there is a
/// previous reading, it is not zero, and the new one deviates from it by more
/// than 20%.
pub open spec fn anomaly_of(m: OracleModel, project: Seq<char>, tonnes: i128) -> Result<bool, OracleError> {
    if !m.latest.contains_key(project) || m.latest[project].tonnes == 0 {
        Ok(false)
    } else {
        deviation(m.latest[project].tonnes, tonnes)
    }
}

/// Whether the deviation of `tonnes` from the latest reading of `project` can
/// be computed in `i128`: the difference has an absolute value that fits, and
/// so does the previous reading when five times the difference fits.
pub open spec fn anomaly_computable(m: OracleModel, project: Seq<char>, tonnes: i128) -> bool {
    m.latest.contains_key(project) && m.latest[project].tonnes != 0 ==> {
        let prev = m.latest[project].tonnes;
        &&& i128::MIN < tonnes - prev <= i128::MAX
        &&& abs(tonnes - prev) * 5 <= i128::MAX ==> prev != i128::MIN
    }
}

/// The answer to a reading of `tonnes` for `project` by `oracle` with `nonce`,
/// if it is refused.
pub open spec fn update_check(
    m: OracleModel,
    oracle: Seq<char>,
    project: Seq<char>,
    tonnes: i128,
    nonce: u64,
) -> Option<OracleError> {
    if m.paused {
        Some(OracleError::ContractPaused)
    } else if !listed(m.oracles, oracle) {
        Some(OracleError::Unauthorized)
    } else if nonce != nonce_of(m, oracle) {
        Some(OracleError::InvalidNonce)
    } else {
        match anomaly_of(m, project, tonnes) {
            Err(e) => Some(e),
            Ok(_) => None,
        }
    }
}

/// The oracle after it accepted `point`.
pub open spec fn after_update(m: OracleModel, point: MrvDataPoint) -> OracleModel {
    OracleModel {
        nonces: m.nonces.insert(point.oracle@, (nonce_of(m, point.oracle@) + 1) as u64),
        latest: m.latest.insert(point.project_id@, point),
        history: m.history.insert(point.project_id@, keep_recent(history_of(m, point.project_id@), point)),
        events: m.events.push(
            OracleEvent::MrvUpdated {
                oracle: point.oracle,
                project_id: point.project_id,
                tonnes: point.tonnes,
                anomaly: point.anomaly,
            },
        ),
        ..m
    }
}

/// The answer to an administrator's request by `admin`, before its own checks.
pub open spec fn admin_check(m: OracleModel, admin: Seq<char>) -> Option<OracleError> {
    match m.admin {
        None => Some(OracleError::NotInitialized),
        Some(a) => if a@ != admin { Some(OracleError::Unauthorized) } else { None },
    }
}

/// Every history of `m` holds at most `MAX_HISTORY` readings.
pub open spec fn histories_bounded(m: OracleModel) -> bool {
    forall|p: Seq<char>| #[trigger] m.history.contains_key(p) ==> m.history[p].len() <= MAX_HISTORY
}

/// A history never grows past `MAX_HISTORY` readings, and the newest reading is
/// always its last.
pub proof fn lemma_history_stays_bounded(h: Seq<MrvDataPoint>, point: MrvDataPoint)
    requires
        h.len() <= MAX_HISTORY,
    ensures
        keep_recent(h, point).len() <= MAX_HISTORY,
        keep_recent(h, point).last() == point,
        h.len() < MAX_HISTORY ==> keep_recent(h, point) == h.push(point),
{
}

/// When the history is full, the oldest reading leaves: the kept readings are
/// the last `MAX_HISTORY` of the history followed by the new reading, in order.
pub proof fn lemma_history_keeps_most_recent(h: Seq<MrvDataPoint>, point: MrvDataPoint)
    requires
        h.len() == MAX_HISTORY,
    ensures
        keep_recent(h, point).len() == MAX_HISTORY,
        forall|i: int| 0 <= i < MAX_HISTORY - 1 ==> #[trigger] keep_recent(h, point)[i] == h[i + 1],
        keep_recent(h, point)[MAX_HISTORY - 1] == point,
{
}

/// A reading is an anomaly exactly when the project has a previous reading
/// that is not zero and five times the distance between the two exceeds the
/// magnitude of the previous one, whatever the new reading is, zero included.
/// The computation is refused only when five times that distance does not fit
/// in an `i128`.
pub proof fn lemma_anomaly_threshold(m: OracleModel, project: Seq<char>, tonnes: i128)
    ensures
        !m.latest.contains_key(project) ==> anomaly_of(m, project, tonnes) == Ok::<bool, OracleError>(false),
        m.latest.contains_key(project) && m.latest[project].tonnes == 0 ==> anomaly_of(m, project, tonnes) == Ok::<
            bool,
            OracleError,
        >(false),
        m.latest.contains_key(project) && m.latest[project].tonnes != 0 && 5 * abs(tonnes - m.latest[project].tonnes)
            <= i128::MAX ==> anomaly_of(m, project, tonnes) == Ok::<bool, OracleError>(
            5 * abs(tonnes - m.latest[project].tonnes) > abs(m.latest[project].tonnes as int),
        ),
        m.latest.contains_key(project) && m.latest[project].tonnes != 0 && 5 * abs(tonnes - m.latest[project].tonnes)
            > i128::MAX ==> anomaly_of(m, project, tonnes) == Err::<bool, OracleError>(OracleError::Overflow),
        m.latest.contains_key(project) && m.latest[project].tonnes != 0 && tonnes == 0 && 5 * abs(
            m.latest[project].tonnes as int,
        ) <= i128::MAX ==> anomaly_of(m, project, tonnes) == Ok::<bool, OracleError>(true),
{
}

/// Accepting a reading for one project leaves every other project's latest
/// reading and history as they were, and keeps the registered oracles, the
/// administrators and the pause flag.
pub proof fn lemma_update_touches_one_project(m: OracleModel, point: MrvDataPoint, other: Seq<char>)
    requires
        other != point.project_id@,
    ensures
        after_update(m, point).latest.contains_key(other) == m.latest.contains_key(other),
        m.latest.contains_key(other) ==> after_update(m, point).latest[other] == m.latest[other],
        history_of(after_update(m, point), other) == history_of(m, other),
        after_update(m, point).latest[point.project_id@] == point,
        after_update(m, point).oracles == m.oracles,
        after_update(m, point).admin == m.admin,
        after_update(m, point).pending_admin == m.pending_admin,
        after_update(m, point).paused == m.paused,
{
}

/// A nonce is accepted once: after a reading with nonce `n` by `oracle` was
/// accepted, its nonce is `n + 1`, the same oracle presenting `n` again is
/// refused with `InvalidNonce` whatever it reports, and no other address's
/// nonce moved.
pub proof fn lemma_nonce_single_use(m: OracleModel, point: MrvDataPoint, project: Seq<char>, tonnes: i128)
    requires
        update_check(m, point.oracle@, point.project_id@, point.tonnes, nonce_of(m, point.oracle@)) is None,
        nonce_of(m, point.oracle@) < u64::MAX,
    ensures
        update_check(after_update(m, point), point.oracle@, project, tonnes, nonce_of(m, point.oracle@)) == Some(
            OracleError::InvalidNonce,
        ),
        nonce_of(after_update(m, point), point.oracle@) == nonce_of(m, point.oracle@) + 1,
        forall|x: Seq<char>| x != point.oracle@ ==> #[trigger] nonce_of(after_update(m, point), x) == nonce_of(m, x),
{
}

/// The oracle's stored values, as they move in and out of contract storage.
pub struct OracleParts {
    pub admin: Option<Address>,
    pub pending_admin: Option<Address>,
    pub oracles: Vec<Address>,
    pub latest: Vec<(String, MrvDataPoint)>,
    pub history: Vec<(String, Vec<MrvDataPoint>)>,
    pub nonces: Vec<(String, u64)>,
    pub paused: bool,
}

/// An accepted reading is the project's latest reading and the last of its history.
pub proof fn lemma_reading_readable(m: OracleModel, point: MrvDataPoint)
    ensures
        after_update(m, point).latest[point.project_id@] == point,
        history_of(after_update(m, point), point.project_id@).last() == point,
{
}

/// While the oracle is paused every reading is refused with `ContractPaused`.
pub proof fn lemma_paused_refuses_readings(m: OracleModel, oracle: Seq<char>, project: Seq<char>, tonnes: i128, nonce: u64)
    requires
        m.paused,
    ensures
        update_check(m, oracle, project, tonnes, nonce) == Some(OracleError::ContractPaused),
{
}

/// What an oracle contract loaded from the stored values `p` holds: of two
/// entries with the same key the later one, and no events.
pub open spec fn loaded_oracle(p: OracleParts) -> OracleModel {
    OracleModel {
        admin: p.admin,
        pending_admin: p.pending_admin,
        oracles: p.oracles@,
        latest: inserted_all(Map::empty(), p.latest@),
        history: inserted_all(Map::empty(), p.history@).map_values(|v: Vec<MrvDataPoint>| v@),
        nonces: inserted_all(Map::empty(), p.nonces@),
        paused: p.paused,
        events: Seq::empty(),
    }
}

/// Whether `p` holds the stored values of `m`, each key once.
pub open spec fn stores_oracle(p: OracleParts, m: OracleModel) -> bool {
    &&& p.admin == m.admin
    &&& p.pending_admin == m.pending_admin
    &&& p.oracles@ == m.oracles
    &&& keys_distinct(p.latest@)
    &&& entries_map(p.latest@) == m.latest
    &&& keys_distinct(p.history@)
    &&& entries_map(p.history@).map_values(|v: Vec<MrvDataPoint>| v@) == m.history
    &&& keys_distinct(p.nonces@)
    &&& entries_map(p.nonces@) == m.nonces
    &&& p.paused == m.paused
}

/// Loading what was stored gives back the oracle contract, but for its events.
pub proof fn lemma_oracle_reloads(p: OracleParts, m: OracleModel)
    requires
        stores_oracle(p, m),
    ensures
        loaded_oracle(p) == (OracleModel { events: Seq::empty(), ..m }),
{
    lemma_inserted_all_distinct(p.latest@);
    lemma_inserted_all_distinct(p.history@);
    lemma_inserted_all_distinct(p.nonces@);
    assert(loaded_oracle(p).history =~= m.history);
}

impl MrvOracle {
    /// An oracle contract holding the stored values `parts`, with no events
    /// yet. Of two entries with the same key the later one holds.
    pub fn from_parts(parts: OracleParts) -> (r: Self)
        requires
            addresses_distinct(parts.oracles@),
        ensures
            r@ == loaded_oracle(parts),
    {
        MrvOracle {
            admin: parts.admin,
            pending_admin: parts.pending_admin,
            oracles: AddressSet::from_vec(parts.oracles),
            latest: Table::from_entries(parts.latest),
            history: Table::from_entries(parts.history),
            nonces: Table::from_entries(parts.nonces),
            paused: parts.paused,
            events: Vec::new(),
        }
    }

    /// The oracle's stored values, each key once.
    pub fn into_parts(self) -> (p: OracleParts)
        ensures
            stores_oracle(p, self@),
    {
        OracleParts {
            admin: self.admin,
            pending_admin: self.pending_admin,
            oracles: self.oracles.into_vec(),
            latest: self.latest.into_entries(),
            history: self.history.into_entries(),
            nonces: self.nonces.into_entries(),
            paused: self.paused,
        }
    }

    /// The events published so far, oldest first.
    pub fn events(&self) -> (r: &Vec<OracleEvent>)
        ensures
            r@ == self@.events,
    {
        &self.events
    }

    /// An oracle contract that holds nothing yet.
    pub fn new() -> (r: Self)
        ensures
            r@.admin is None,
            r@.pending_admin is None,
            r@.oracles == Seq::<Address>::empty(),
            r@.latest == Map::<Seq<char>, MrvDataPoint>::empty(),
            r@.history == Map::<Seq<char>, Seq<MrvDataPoint>>::empty(),
            r@.nonces == Map::<Seq<char>, u64>::empty(),
            !r@.paused,
            r@.events == Seq::<OracleEvent>::empty(),
    {
        let r = MrvOracle {
            admin: None,
            pending_admin: None,
            oracles: AddressSet::new(),
            latest: Table::new(),
            history: Table::new(),
            nonces: Table::new(),
            paused: false,
            events: Vec::new(),
        };
        assert(r@.history =~= Map::<Seq<char>, Seq<MrvDataPoint>>::empty());
        r
    }

    /// Sets the administrator, once, and publishes it.
    pub fn initialize(&mut self, admin: Address) -> (r: Result<(), OracleError>)
        ensures
            old(self)@.admin is Some ==> r == Err::<(), OracleError>(OracleError::AlreadyInitialized)
                && final(self)@ == old(self)@,
            old(self)@.admin is None ==> r is Ok && final(self)@ == (OracleModel {
                admin: Some(admin),
                events: old(self)@.events.push(OracleEvent::Initialized { admin }),
                ..old(self)@
            }),
    {
        if self.admin.is_some() {
            return Err(OracleError::AlreadyInitialized);
        }
        self.admin = Some(admin.clone());
        self.events.push(OracleEvent::Initialized { admin });
        proof {
            assert(self@.history =~= old(self)@.history);
        }
        Ok(())
    }

    /// Checks that `caller` is the administrator.
    fn require_admin(&self, caller: &Address) -> (r: Result<(), OracleError>)
        ensures
            match admin_check(self@, caller@) {
                Some(e) => r == Err::<(), OracleError>(e),
                None => r is Ok,
            },
    {
        match &self.admin {
            None => Err(OracleError::NotInitialized),
            Some(a) => if *caller != *a {
                Err(OracleError::Unauthorized)
            } else {
                Ok(())
            },
        }
    }

    /// The administrator `admin` pauses the oracle.
    pub fn pause(&mut self, admin: Address) -> (r: Result<(), OracleError>)
        ensures
            match admin_check(old(self)@, admin@) {
                Some(e) => r == Err::<(), OracleError>(e) && final(self)@ == old(self)@,
                None => r is Ok && final(self)@ == (OracleModel {
                    paused: true,
                    events: old(self)@.events.push(OracleEvent::Paused { admin }),
                    ..old(self)@
                }),
            },
    {
        self.require_admin(&admin)?;
        self.paused = true;
        self.events.push(OracleEvent::Paused { admin });
        proof {
            assert(self@.history =~= old(self)@.history);
        }
        Ok(())
    }

    /// The administrator `admin` resumes the oracle.
    pub fn unpause(&mut self, admin: Address) -> (r: Result<(), OracleError>)
        ensures
            match admin_check(old(self)@, admin@) {
                Some(e) => r == Err::<(), OracleError>(e) && final(self)@ == old(self)@,
                None => r is Ok && final(self)@ == (OracleModel {
                    paused: false,
                    events: old(self)@.events.push(OracleEvent::Unpaused { admin }),
                    ..old(self)@
                }),
            },
    {
        self.require_admin(&admin)?;
        self.paused = false;
        self.events.push(OracleEvent::Unpaused { admin });
        proof {
            assert(self@.history =~= old(self)@.history);
        }
        Ok(())
    }

    /// Whether an administrator was set. From then on an administrator's
    /// request needs the caller's authorization before it is checked.
    pub fn has_admin(&self) -> (r: bool)
        ensures
            r == self@.admin is Some,
    {
        self.admin.is_some()
    }

    /// Whether the oracle is paused.
    pub fn paused(&self) -> (r: bool)
        ensures
            r == self@.paused,
    {
        self.is_paused()
    }

    fn is_paused(&self) -> (r: bool)
        ensures
            r == self@.paused,
    {
        self.paused
    }

    /// Whether `oracle` is a registered oracle.
    pub fn is_oracle(&self, oracle: &Address) -> (r: bool)
        ensures
            r == listed(self@.oracles, oracle@),
            addresses_distinct(self@.oracles),
    {
        self.oracles.contains(oracle)
    }

    /// The administrator `admin` registers `oracle`. Returns `true` when the
    /// oracle is new and `false` when it was already registered; either way an
    /// event says which.
    pub fn register_oracle(&mut self, admin: Address, oracle: Address) -> (r: Result<bool, OracleError>)
        ensures
            admin_check(old(self)@, admin@) matches Some(e) ==> r == Err::<bool, OracleError>(e) && final(self)@
                == old(self)@,
            admin_check(old(self)@, admin@) is None ==> r == Ok::<bool, OracleError>(
                !listed(old(self)@.oracles, oracle@),
            ),
            admin_check(old(self)@, admin@) is None && listed(old(self)@.oracles, oracle@) ==> final(self)@ == (
            OracleModel { events: old(self)@.events.push(OracleEvent::OracleDuplicate { oracle }), ..old(self)@ }),
            admin_check(old(self)@, admin@) is None && !listed(old(self)@.oracles, oracle@) ==> final(self)@ == (
            OracleModel {
                oracles: old(self)@.oracles.push(oracle),
                events: old(self)@.events.push(OracleEvent::OracleAdded { oracle }),
                ..old(self)@
            }),
            addresses_distinct(final(self)@.oracles),
    {
        proof {
            use_type_invariant(&self.oracles);
            self.oracles.lemma_members_distinct();
        }
        self.require_admin(&admin)?;
        if self.is_oracle(&oracle) {
            self.events.push(OracleEvent::OracleDuplicate { oracle });
            proof {
                assert(self@.history =~= old(self)@.history);
            }
            return Ok(false);
        }
        let mut oracles = self.oracles.to_vec();
        proof {
            lemma_push_keeps_distinct(oracles@, oracle);
        }
        oracles.push(oracle.clone());
        self.oracles = AddressSet::from_vec(oracles);
        self.events.push(OracleEvent::OracleAdded { oracle });
        proof {
            assert(self@.history =~= old(self)@.history);
        }
        Ok(true)
    }

    /// Checks that `expected` is the next nonce of `addr` and, if so, advances it.
    fn consume_nonce(&mut self, addr: &Address, expected: u64) -> (r: bool)
        requires
            expected == nonce_of(old(self)@, addr@) ==> expected < u64::MAX,
        ensures
            r == (expected == nonce_of(old(self)@, addr@)),
            r ==> final(self)@ == (OracleModel {
                nonces: old(self)@.nonces.insert(addr@, (expected + 1) as u64),
                ..old(self)@
            }),
            !r ==> final(self)@ == old(self)@,
    {
        let current = self.get_nonce(addr.clone());
        if current != expected {
            return false;
        }
        self.nonces.insert(addr.clone(), current + 1);
        proof {
            assert(self@.history =~= old(self)@.history);
        }
        true
    }

    /// Whether a reading of `new_tonnes` for `project_id` is an anomaly.
    fn detect_anomaly(&self, project_id: &String, new_tonnes: i128) -> (r: Result<bool, OracleError>)
        requires
            anomaly_computable(self@, project_id@, new_tonnes),
        ensures
            r == anomaly_of(self@, project_id@, new_tonnes),
    {
        match self.latest.get(project_id) {
            None => Ok(false),
            Some(p) => {
                if p.tonnes == 0 {
                    return Ok(false);
                }
                let delta = new_tonnes - p.tonnes;
                let diff = if delta < 0 { -delta } else { delta };
                let diff_times_5 = match diff.checked_mul(5) {
                    Some(d) => d,
                    None => return Err(OracleError::Overflow),
                };
                let prev_abs = if p.tonnes < 0 { -p.tonnes } else { p.tonnes };
                Ok(diff_times_5 > prev_abs)
            },
        }
    }

    /// The oracle `oracle` reports `tonnes` for `project_id`, presenting its
    /// next nonce. The reading becomes the project's latest and joins its
    /// history. Returns whether the reading is an anomaly.
    pub fn update_mrv_data(
        &mut self,
        env: &soroban_sdk::Env,
        oracle: Address,
        project_id: String,
        tonnes: i128,
        nonce: u64,
    ) -> (r: Result<bool, OracleError>)
        requires
            !old(self)@.paused && listed(old(self)@.oracles, oracle@) && nonce == nonce_of(old(self)@, oracle@) ==> {
                &&& nonce < u64::MAX
                &&& anomaly_computable(old(self)@, project_id@, tonnes)
            },
        ensures
            match update_check(old(self)@, oracle@, project_id@, tonnes, nonce) {
                Some(e) => r == Err::<bool, OracleError>(e) && final(self)@ == old(self)@,
                None => {
                    &&& anomaly_of(old(self)@, project_id@, tonnes) matches Ok(anomaly)
                    &&& r == Ok::<bool, OracleError>(anomaly)
                    &&& final(self)@ == after_update(
                        old(self)@,
                        MrvDataPoint {
                            oracle,
                            project_id,
                            tonnes,
                            recorded_at: final(self)@.latest[project_id@].recorded_at,
                            anomaly,
                        },
                    )
                },
            },
            r is Ok ==> nonce_of(final(self)@, oracle@) == nonce + 1,
            r matches Ok(a) ==> (a <==> (old(self)@.latest.contains_key(project_id@)
                && old(self)@.latest[project_id@].tonnes != 0 && 5 * abs(
                tonnes - old(self)@.latest[project_id@].tonnes,
            ) > abs(old(self)@.latest[project_id@].tonnes as int))),
            forall|q: Seq<char>| q != project_id@ ==> #[trigger] history_of(final(self)@, q) == history_of(old(self)@, q),
            forall|x: Seq<char>| x != oracle@ ==> #[trigger] nonce_of(final(self)@, x) == nonce_of(old(self)@, x),
            histories_bounded(old(self)@) ==> histories_bounded(final(self)@),
    {
        let now = ledger_timestamp(env);
        self.update_mrv_data_at(oracle, project_id, tonnes, nonce, now)
    }

    /// The oracle `oracle` reports `tonnes` for `project_id`, presenting its
    /// next nonce. The reading becomes the project's latest and joins its
    /// history, recorded at the ledger time `now`. Returns whether the reading is
    /// an anomaly.
    pub fn update_mrv_data_at(
        &mut self,
        oracle: Address,
        project_id: String,
        tonnes: i128,
        nonce: u64,
        now: u64,
    ) -> (r: Result<bool, OracleError>)
        requires
            !old(self)@.paused && listed(old(self)@.oracles, oracle@) && nonce == nonce_of(old(self)@, oracle@) ==> {
                &&& nonce < u64::MAX
                &&& anomaly_computable(old(self)@, project_id@, tonnes)
            },
        ensures
            match update_check(old(self)@, oracle@, project_id@, tonnes, nonce) {
                Some(e) => r == Err::<bool, OracleError>(e) && final(self)@ == old(self)@,
                None => {
                    &&& anomaly_of(old(self)@, project_id@, tonnes) matches Ok(anomaly)
                    &&& r == Ok::<bool, OracleError>(anomaly)
                    &&& final(self)@ == after_update(
                        old(self)@,
                        MrvDataPoint {
                            oracle,
                            project_id,
                            tonnes,
                            recorded_at: now,
                            anomaly,
                        },
                    )
                },
            },
            r is Ok ==> nonce_of(final(self)@, oracle@) == nonce + 1,
            r matches Ok(a) ==> (a <==> (old(self)@.latest.contains_key(project_id@)
                && old(self)@.latest[project_id@].tonnes != 0 && 5 * abs(
                tonnes - old(self)@.latest[project_id@].tonnes,
            ) > abs(old(self)@.latest[project_id@].tonnes as int))),
            forall|q: Seq<char>| q != project_id@ ==> #[trigger] history_of(final(self)@, q) == history_of(old(self)@, q),
            forall|x: Seq<char>| x != oracle@ ==> #[trigger] nonce_of(final(self)@, x) == nonce_of(old(self)@, x),
            histories_bounded(old(self)@) ==> histories_bounded(final(self)@),
    {
        if self.is_paused() {
            return Err(OracleError::ContractPaused);
        }
        if !self.is_oracle(&oracle) {
            return Err(OracleError::Unauthorized);
        }
        if self.get_nonce(oracle.clone()) != nonce {
            return Err(OracleError::InvalidNonce);
        }
        let anomaly = self.detect_anomaly(&project_id, tonnes)?;
        let accepted = self.consume_nonce(&oracle, nonce);
        assert(accepted);
        let point = MrvDataPoint {
            oracle: oracle.clone(),
            project_id: project_id.clone(),
            tonnes,
            recorded_at: now,
            anomaly,
        };
        self.latest.insert(project_id.clone(), point.clone());
        let mut history = self.get_history(project_id.clone());
        if history.len() >= MAX_HISTORY as usize {
            history.remove(0);
        }
        history.push(point.clone());
        self.history.insert(project_id.clone(), history);
        self.events.push(OracleEvent::MrvUpdated { oracle, project_id, tonnes, anomaly });
        proof {
            let p = point.project_id@;
            assert(self@.history =~= old(self)@.history.insert(p, keep_recent(history_of(old(self)@, p), point)));
            assert(self@.nonces =~= after_update(old(self)@, point).nonces);
            if histories_bounded(old(self)@) {
                lemma_history_stays_bounded(history_of(old(self)@, p), point);
            }
        }
        Ok(anomaly)
    }

    /// The latest reading for `project_id`, if any.
    pub fn get_latest(&self, project_id: String) -> (r: Option<MrvDataPoint>)
        ensures
            r is Some == self@.latest.contains_key(project_id@),
            r matches Some(p) ==> p == self@.latest[project_id@],
    {
        match self.latest.get(&project_id) {
            Some(p) => Some(p.clone()),
            None => None,
        }
    }

    /// The next nonce that `address` must present.
    pub fn get_nonce(&self, address: Address) -> (r: u64)
        ensures
            r == nonce_of(self@, address@),
    {
        match self.nonces.get(&address) {
            Some(n) => *n,
            None => 0,
        }
    }

    /// The administrator `admin` proposes `new_admin` as the next administrator.
    pub fn propose_admin(&mut self, admin: Address, new_admin: Address) -> (r: Result<(), OracleError>)
        ensures
            match admin_check(old(self)@, admin@) {
                Some(e) => r == Err::<(), OracleError>(e) && final(self)@ == old(self)@,
                None => r is Ok && final(self)@ == (OracleModel { pending_admin: Some(new_admin), ..old(self)@ }),
            },
    {
        self.require_admin(&admin)?;
        self.pending_admin = Some(new_admin);
        proof {
            assert(self@.history =~= old(self)@.history);
        }
        Ok(())
    }

    /// The proposed administrator `new_admin` takes the office.
    pub fn accept_admin(&mut self, new_admin: Address) -> (r: Result<(), OracleError>)
        ensures
            old(self)@.pending_admin is None ==> r == Err::<(), OracleError>(OracleError::NoPendingAdmin)
                && final(self)@ == old(self)@,
            old(self)@.pending_admin matches Some(p) && p@ != new_admin@ ==> r == Err::<(), OracleError>(
                OracleError::Unauthorized,
            ) && final(self)@ == old(self)@,
            old(self)@.pending_admin matches Some(p) && p@ == new_admin@ ==> r is Ok && final(self)@ == (OracleModel {
                admin: Some(new_admin),
                pending_admin: None,
                ..old(self)@
            }),
    {
        let pending = match &self.pending_admin {
            Some(p) => p.clone(),
            None => return Err(OracleError::NoPendingAdmin),
        };
        if new_admin != pending {
            return Err(OracleError::Unauthorized);
        }
        self.admin = Some(new_admin);
        self.pending_admin = None;
        proof {
            assert(self@.history =~= old(self)@.history);
        }
        Ok(())
    }

    /// The readings kept for `project_id`, oldest first.
    pub fn get_history(&self, project_id: String) -> (r: Vec<MrvDataPoint>)
        ensures
            r@ == history_of(self@, project_id@),
    {
        match self.history.get(&project_id) {
            Some(h) => {
                let mut out: Vec<MrvDataPoint> = Vec::new();
                let mut i: usize = 0;
                while i < h.len()
                    invariant
                        i <= h.len(),
                        out@ == h@.take(i as int),
                    decreases h.len() - i,
                {
                    out.push(h[i].clone());
                    assert(h@.take(i + 1) =~= h@.take(i as int).push(h@[i as int]));
                    i = i + 1;
                }
                assert(h@.take(h.len() as int) =~= h@);
                out
            },
            None => Vec::new(),
        }
    }
}

} // verus!
