//! An executable model of the persistence boundary: lease records, the
//! notify-role configuration and the append-only audit log, with the
//! uniqueness guarantees the real store enforces. The service layer runs
//! against this model; an unverified adapter may mirror the same operations
//! onto an external database.

use vstd::prelude::*;
use vstd::string::StringExecFns;
use crate::catalog::{Catalog, OrePoint, point_mask};

verus! {

/// One lease record: point `ore_point_id` of tenant `guild_id` is held by
/// `user_id` until `due_time` (seconds of the Unix epoch), contested by
/// `battle_user_id` if set.
#[derive(Clone, Copy, PartialEq, Eq, Debug)]
pub struct OccupyData {
    pub ore_point_id: i32,
    pub guild_id: u64,
    pub user_id: u64,
    pub due_time: i64,
    pub battle_user_id: Option<u64>,
}

/// One appended audit line.
pub struct AuditEntry {
    pub guild_id: Option<u64>,
    pub channel_id: u64,
    pub user_id: u64,
    pub content: String,
}

/// A distinguishable store failure. An insert that loses against an
/// existing record must fail distinctly, so a caller can classify a lost
/// race as an ordinary rejection.
#[derive(Clone, Copy, PartialEq, Eq, Debug)]
pub enum StoreError {
    Conflict,
}

/// Whether `r` is the record of point `point_id` in tenant `guild_id`.
pub open spec fn record_key_is(r: OccupyData, guild_id: u64, point_id: i32) -> bool {
    r.guild_id == guild_id && r.ore_point_id == point_id
}

/// Whether a record for (tenant, point) exists.
pub open spec fn has_record(recs: Seq<OccupyData>, guild_id: u64, point_id: i32) -> bool {
    exists|i: int| 0 <= i < recs.len() && record_key_is(#[trigger] recs[i], guild_id, point_id)
}

/// The index of the record for (tenant, point); meaningful only when
/// `has_record` holds and the keys are unique.
pub open spec fn record_index(recs: Seq<OccupyData>, guild_id: u64, point_id: i32) -> int {
    choose|i: int| 0 <= i < recs.len() && record_key_is(#[trigger] recs[i], guild_id, point_id)
}

/// The record for (tenant, point), if any.
pub open spec fn get_record(recs: Seq<OccupyData>, guild_id: u64, point_id: i32) -> Option<
    OccupyData,
> {
    if has_record(recs, guild_id, point_id) {
        Some(recs[record_index(recs, guild_id, point_id)])
    } else {
        None
    }
}

/// Whether `r` involves `user_id` in tenant `guild_id`, as holder or as
/// challenger.
pub open spec fn record_involves(r: OccupyData, guild_id: u64, user_id: u64) -> bool {
    r.guild_id == guild_id && (r.user_id == user_id || r.battle_user_id == Some(user_id))
}

/// Whether some record involving the user covers a category of `mask`:
/// the exclusivity test of the occupation rules.
pub open spec fn user_has_conflict(
    recs: Seq<OccupyData>,
    points: Seq<OrePoint>,
    guild_id: u64,
    user_id: u64,
    mask: i32,
) -> bool {
    exists|i: int|
        0 <= i < recs.len() && record_involves(#[trigger] recs[i], guild_id, user_id) && point_mask(
            points,
            recs[i].ore_point_id,
        ) & mask != 0
}

/// The bitwise OR of the category masks of every point the user holds or
/// contests in the tenant.
pub open spec fn user_mask(
    recs: Seq<OccupyData>,
    points: Seq<OrePoint>,
    guild_id: u64,
    user_id: u64,
) -> i32
    decreases recs.len(),
{
    if recs.len() == 0 {
        0
    } else {
        user_mask(recs.drop_last(), points, guild_id, user_id) | (if record_involves(
            recs.last(),
            guild_id,
            user_id,
        ) {
            point_mask(points, recs.last().ore_point_id)
        } else {
            0
        })
    }
}

/// The exclusivity test agrees with the combined mask: a user conflicts
/// with a category mask exactly when the OR of everything they hold or
/// contest meets it. The occupation rules use the former, the button
/// filter the latter.
pub proof fn lemma_user_mask_conflict(
    recs: Seq<OccupyData>,
    points: Seq<OrePoint>,
    guild_id: u64,
    user_id: u64,
    mask: i32,
)
    ensures
        user_has_conflict(recs, points, guild_id, user_id, mask) <==> user_mask(
            recs,
            points,
            guild_id,
            user_id,
        ) & mask != 0,
    decreases recs.len(),
{
    if recs.len() == 0 {
        assert(forall|m: i32| 0i32 & m == 0) by (bit_vector);
    } else {
        let prefix = recs.drop_last();
        lemma_user_mask_conflict(prefix, points, guild_id, user_id, mask);
        let a = user_mask(prefix, points, guild_id, user_id);
        let b = if record_involves(recs.last(), guild_id, user_id) {
            point_mask(points, recs.last().ore_point_id)
        } else {
            0
        };
        assert(forall|x: i32, y: i32, m: i32|
            ((x | y) & m != 0) <==> ((x & m != 0) || (y & m != 0))) by (bit_vector);
        if user_has_conflict(recs, points, guild_id, user_id, mask) {
            let i = choose|i: int|
                0 <= i < recs.len() && record_involves(#[trigger] recs[i], guild_id, user_id)
                    && point_mask(points, recs[i].ore_point_id) & mask != 0;
            if i < recs.len() - 1 {
                assert(prefix[i] == recs[i]);
                assert(user_has_conflict(prefix, points, guild_id, user_id, mask));
            } else {
                assert(b & mask != 0);
            }
        }
        if user_mask(recs, points, guild_id, user_id) & mask != 0 {
            if a & mask != 0 {
                let i = choose|i: int|
                    0 <= i < prefix.len() && record_involves(#[trigger] prefix[i], guild_id,
                    user_id) && point_mask(points, prefix[i].ore_point_id) & mask != 0;
                assert(recs[i] == prefix[i]);
                assert(record_involves(recs[i], guild_id, user_id));
                assert(user_has_conflict(recs, points, guild_id, user_id, mask));
            } else {
                assert(b & mask != 0);
                assert(forall|m: i32| 0i32 & m == 0) by (bit_vector);
                assert(record_involves(recs[recs.len() - 1], guild_id, user_id));
                assert(user_has_conflict(recs, points, guild_id, user_id, mask));
            }
        }
    }
}

/// At most one record per (tenant, point): the store's uniqueness
/// constraint.
pub open spec fn records_wf(recs: Seq<OccupyData>) -> bool {
    forall|i: int, j: int|
        0 <= i < j < recs.len() ==> !((#[trigger] recs[i]).guild_id == (#[trigger] recs[j]).guild_id
            && recs[i].ore_point_id == recs[j].ore_point_id)
}

/// At most one notify role per tenant.
pub open spec fn roles_wf(roles: Seq<(u64, u64)>) -> bool {
    forall|i: int, j: int|
        0 <= i < j < roles.len() ==> (#[trigger] roles[i]).0 != (#[trigger] roles[j]).0
}

/// Whether a notify role is configured for the tenant.
pub open spec fn has_role(roles: Seq<(u64, u64)>, guild_id: u64) -> bool {
    exists|i: int| 0 <= i < roles.len() && (#[trigger] roles[i]).0 == guild_id
}

/// The index of the tenant's notify-role row; meaningful only when
/// `has_role` holds and the tenants are unique.
pub open spec fn role_index(roles: Seq<(u64, u64)>, guild_id: u64) -> int {
    choose|i: int| 0 <= i < roles.len() && (#[trigger] roles[i]).0 == guild_id
}

/// The configured notify role of the tenant, if any.
pub open spec fn get_role(roles: Seq<(u64, u64)>, guild_id: u64) -> Option<u64> {
    if has_role(roles, guild_id) {
        Some(roles[role_index(roles, guild_id)].1)
    } else {
        None
    }
}

/// Checks the per-(tenant, point) uniqueness of a row set.
#[verifier::loop_isolation(false)]
fn records_unique(recs: &Vec<OccupyData>) -> (r: bool)
    ensures
        r == records_wf(recs@),
{
    let mut i: usize = 0;
    while i < recs.len()
        invariant
            i <= recs@.len(),
            forall|a: int, b: int|
                0 <= a < b < recs@.len() && a < i ==> !((#[trigger] recs@[a]).guild_id == (
                #[trigger] recs@[b]).guild_id && recs@[a].ore_point_id == recs@[b].ore_point_id),
        decreases recs@.len() - i,
    {
        let mut j: usize = i + 1;
        while j < recs.len()
            invariant
                i < j <= recs@.len(),
                forall|b: int|
                    i < b < j ==> !((#[trigger] recs@[b]).guild_id == recs@[i as int].guild_id
                        && recs@[b].ore_point_id == recs@[i as int].ore_point_id),
            decreases recs@.len() - j,
        {
            if recs[j].guild_id == recs[i].guild_id && recs[j].ore_point_id
                == recs[i].ore_point_id {
                return false;
            }
            j += 1;
        }
        i += 1;
    }
    true
}

/// Checks the per-tenant uniqueness of a notify-role row set.
#[verifier::loop_isolation(false)]
fn roles_unique(roles: &Vec<(u64, u64)>) -> (r: bool)
    ensures
        r == roles_wf(roles@),
{
    let mut i: usize = 0;
    while i < roles.len()
        invariant
            i <= roles@.len(),
            forall|a: int, b: int|
                0 <= a < b < roles@.len() && a < i ==> (#[trigger] roles@[a]).0 != (
                #[trigger] roles@[b]).0,
        decreases roles@.len() - i,
    {
        let mut j: usize = i + 1;
        while j < roles.len()
            invariant
                i < j <= roles@.len(),
                forall|b: int| i < b < j ==> (#[trigger] roles@[b]).0 != roles@[i as int].0,
            decreases roles@.len() - j,
        {
            if roles[j].0 == roles[i].0 {
                return false;
            }
            j += 1;
        }
        i += 1;
    }
    true
}

/// At most one record exists per (tenant, point): two records with the
/// same key are one and the same row.
pub proof fn lemma_record_unique(recs: Seq<OccupyData>, guild_id: u64, point_id: i32, i: int, j: int)
    requires
        records_wf(recs),
        0 <= i < recs.len(),
        0 <= j < recs.len(),
        record_key_is(recs[i], guild_id, point_id),
        record_key_is(recs[j], guild_id, point_id),
    ensures
        i == j,
{
}

/// Appending a record for a key the store lacks keeps the keys unique and
/// makes the new record the one found for that key.
pub proof fn lemma_get_record_push(recs: Seq<OccupyData>, data: OccupyData)
    requires
        records_wf(recs),
        !has_record(recs, data.guild_id, data.ore_point_id),
    ensures
        records_wf(recs.push(data)),
        get_record(recs.push(data), data.guild_id, data.ore_point_id) == Some(data),
{
    let post = recs.push(data);
    assert(forall|i: int| 0 <= i < recs.len() ==> post[i] == recs[i]);
    assert(post[recs.len() as int] == data);
    assert(record_key_is(post[recs.len() as int], data.guild_id, data.ore_point_id));
    assert(has_record(post, data.guild_id, data.ore_point_id));
    let ci = record_index(post, data.guild_id, data.ore_point_id);
    assert(record_key_is(post[ci], data.guild_id, data.ore_point_id));
    assert(ci == recs.len());
}

/// Replacing the record of a key with another record of the same key keeps
/// the keys unique and makes the replacement the one found for that key.
pub proof fn lemma_get_record_update(
    recs: Seq<OccupyData>,
    guild_id: u64,
    point_id: i32,
    updated: OccupyData,
)
    requires
        records_wf(recs),
        has_record(recs, guild_id, point_id),
        record_key_is(updated, guild_id, point_id),
    ensures
        records_wf(recs.update(record_index(recs, guild_id, point_id), updated)),
        get_record(recs.update(record_index(recs, guild_id, point_id), updated), guild_id, point_id)
            == Some(updated),
{
    let idx = record_index(recs, guild_id, point_id);
    assert(record_key_is(recs[idx], guild_id, point_id));
    let post = recs.update(idx, updated);
    assert(forall|i: int|
        0 <= i < post.len() ==> ((#[trigger] post[i]).guild_id == recs[i].guild_id && post[i].ore_point_id
            == recs[i].ore_point_id));
    assert(record_key_is(post[idx], guild_id, point_id));
    assert(has_record(post, guild_id, point_id));
    let ci = record_index(post, guild_id, point_id);
    assert(record_key_is(post[ci], guild_id, point_id));
    assert(ci == idx);
}

/// One row of the catalog joined with the tenant's lease data.
pub struct ListResult {
    pub id: i32,
    pub name: String,
    pub ore_type: i32,
    pub x: i32,
    pub y: i32,
    pub user_id: Option<u64>,
    pub due_time: Option<i64>,
    pub battle_user_id: Option<u64>,
}

/// Whether `lr` is the join of point `p` with lease record `rec`.
pub open spec fn list_result_matches(lr: ListResult, p: OrePoint, rec: Option<OccupyData>) -> bool {
    &&& lr.id == p.id
    &&& lr.name@ == p.name@
    &&& lr.ore_type == p.ore_type
    &&& lr.x == p.x
    &&& lr.y == p.y
    &&& lr.user_id == match rec {
        Some(r) => Some(r.user_id),
        None => None::<u64>,
    }
    &&& lr.due_time == match rec {
        Some(r) => Some(r.due_time),
        None => None::<i64>,
    }
    &&& lr.battle_user_id == match rec {
        Some(r) => r.battle_user_id,
        None => None::<u64>,
    }
}

impl ListResult {
    /// The emoji markup of this row's categories.
    pub fn emoji(&self, catalog: &Catalog) -> (r: String)
        ensures
            r@ == crate::catalog::emoji_seq(catalog.ore_types@, self.ore_type),
    {
        crate::catalog::emoji_of_mask(catalog, self.ore_type)
    }
}

/// The number of rows on the page that starts at row `start` of `total`
/// rows and shows at most `length` of them.
pub open spec fn page_len(total: nat, start: nat, length: nat) -> nat {
    if start >= total {
        0
    } else if start + length <= total {
        length
    } else {
        (total - start) as nat
    }
}

/// The in-memory store: lease records, notify-role rows and the audit log.
pub struct OccupancyStore {
    pub records: Vec<OccupyData>,
    pub notify_roles: Vec<(u64, u64)>,
    pub audit_log: Vec<AuditEntry>,
}

impl OccupancyStore {
    /// Both uniqueness constraints hold.
    pub open spec fn wf(self) -> bool {
        records_wf(self.records@) && roles_wf(self.notify_roles@)
    }

    /// An empty store.
    pub fn new() -> (r: OccupancyStore)
        ensures
            r.wf(),
            r.records@ == Seq::<OccupyData>::empty(),
            r.notify_roles@ == Seq::<(u64, u64)>::empty(),
            r.audit_log@ == Seq::<AuditEntry>::empty(),
    {
        OccupancyStore { records: Vec::new(), notify_roles: Vec::new(), audit_log: Vec::new() }
    }

    /// Builds a store from rows read elsewhere, after checking the
    /// uniqueness constraints they are supposed to satisfy; rows that
    /// break them are refused rather than trusted.
    pub fn from_rows(records: Vec<OccupyData>, notify_roles: Vec<(u64, u64)>) -> (r: Option<
        OccupancyStore,
    >)
        ensures
            match r {
                Some(s) => {
                    &&& s.wf()
                    &&& s.records@ == records@
                    &&& s.notify_roles@ == notify_roles@
                    &&& s.audit_log@ == Seq::<AuditEntry>::empty()
                },
                None => !(records_wf(records@) && roles_wf(notify_roles@)),
            },
    {
        if !records_unique(&records) {
            return None;
        }
        if !roles_unique(&notify_roles) {
            return None;
        }
        Some(OccupancyStore { records, notify_roles, audit_log: Vec::new() })
    }

    /// The index of the record for (tenant, point), if any.
    #[verifier::loop_isolation(false)]
    fn find_record_index(&self, guild_id: u64, ore_point_id: i32) -> (r: Option<usize>)
        requires
            self.wf(),
        ensures
            match r {
                Some(i) => {
                    &&& i < self.records@.len()
                    &&& record_key_is(self.records@[i as int], guild_id, ore_point_id)
                    &&& has_record(self.records@, guild_id, ore_point_id)
                    &&& record_index(self.records@, guild_id, ore_point_id) == i as int
                },
                None => !has_record(self.records@, guild_id, ore_point_id),
            },
    {
        let mut i: usize = 0;
        while i < self.records.len()
            invariant
                i <= self.records@.len(),
                forall|j: int|
                    0 <= j < i ==> !record_key_is(#[trigger] self.records@[j], guild_id,
                    ore_point_id),
            decreases self.records@.len() - i,
        {
            let rec = &self.records[i];
            if rec.guild_id == guild_id && rec.ore_point_id == ore_point_id {
                proof {
                    assert(record_key_is(self.records@[i as int], guild_id, ore_point_id));
                    let ci = record_index(self.records@, guild_id, ore_point_id);
                    assert(record_key_is(self.records@[ci], guild_id, ore_point_id));
                    assert(records_wf(self.records@));
                    assert(ci == i as int);
                }
                return Some(i);
            }
            i += 1;
        }
        None
    }

    /// The record of point `ore_point_id` in tenant `guild_id`, if any.
    pub fn get_occupy_data(&self, guild_id: u64, ore_point_id: i32) -> (r: Option<OccupyData>)
        requires
            self.wf(),
        ensures
            r == get_record(self.records@, guild_id, ore_point_id),
    {
        match self.find_record_index(guild_id, ore_point_id) {
            Some(i) => Some(self.records[i]),
            None => None,
        }
    }

    /// Inserts a fresh lease record; a fresh lease never carries a
    /// challenger, so the stored row has none whatever `data` holds.
    /// Fails with the distinguishable conflict error, changing nothing,
    /// when a record for the same (tenant, point) already exists.
    pub fn occupy(&mut self, data: OccupyData) -> (r: Result<(), StoreError>)
        requires
            old(self).wf(),
        ensures
            final(self).wf(),
            final(self).notify_roles@ == old(self).notify_roles@,
            final(self).audit_log@ == old(self).audit_log@,
            match r {
                Ok(()) => {
                    &&& !has_record(old(self).records@, data.guild_id, data.ore_point_id)
                    &&& final(self).records@ == old(self).records@.push(
                        (OccupyData { battle_user_id: None, ..data }),
                    )
                },
                Err(StoreError::Conflict) => {
                    &&& has_record(old(self).records@, data.guild_id, data.ore_point_id)
                    &&& final(self).records@ == old(self).records@
                },
            },
    {
        let stored = OccupyData {
            ore_point_id: data.ore_point_id,
            guild_id: data.guild_id,
            user_id: data.user_id,
            due_time: data.due_time,
            battle_user_id: None,
        };
        match self.find_record_index(data.guild_id, data.ore_point_id) {
            Some(_) => Err(StoreError::Conflict),
            None => {
                self.records.push(stored);
                Ok(())
            },
        }
    }

    /// Replaces the record for `data`'s (tenant, point) with `data`; a
    /// missing record leaves the store unchanged, as an update of no rows
    /// does.
    pub fn update_occupy_data(&mut self, data: OccupyData)
        requires
            old(self).wf(),
        ensures
            final(self).wf(),
            final(self).notify_roles@ == old(self).notify_roles@,
            final(self).audit_log@ == old(self).audit_log@,
            final(self).records@ == if has_record(
                old(self).records@,
                data.guild_id,
                data.ore_point_id,
            ) {
                old(self).records@.update(
                    record_index(old(self).records@, data.guild_id, data.ore_point_id),
                    data,
                )
            } else {
                old(self).records@
            },
    {
        match self.find_record_index(data.guild_id, data.ore_point_id) {
            Some(i) => {
                self.records[i] = data;
            },
            None => {},
        }
    }

    /// Unconditional upsert: after the call the (tenant, point) of `data`
    /// is held by `data.user_id` until `data.due_time` with no pending
    /// challenge, whatever was there before.
    pub fn force_occupy(&mut self, data: OccupyData)
        requires
            old(self).wf(),
        ensures
            final(self).wf(),
            final(self).notify_roles@ == old(self).notify_roles@,
            final(self).audit_log@ == old(self).audit_log@,
            final(self).records@ == {
                let stored = OccupyData { battle_user_id: None, ..data };
                if has_record(old(self).records@, data.guild_id, data.ore_point_id) {
                    old(self).records@.update(
                        record_index(old(self).records@, data.guild_id, data.ore_point_id),
                        stored,
                    )
                } else {
                    old(self).records@.push(stored)
                }
            },
    {
        let stored = OccupyData {
            ore_point_id: data.ore_point_id,
            guild_id: data.guild_id,
            user_id: data.user_id,
            due_time: data.due_time,
            battle_user_id: None,
        };
        match self.find_record_index(data.guild_id, data.ore_point_id) {
            Some(i) => {
                self.records[i] = stored;
            },
            None => {
                self.records.push(stored);
            },
        }
    }

    /// The exclusivity test: whether the user already holds or contests,
    /// in this tenant, a point sharing a category of `ore_type`.
    #[verifier::loop_isolation(false)]
    pub fn has_occupy_type(&self, guild_id: u64, user_id: u64, ore_type: i32, catalog: &Catalog)
        -> (r: bool)
        ensures
            r == user_has_conflict(
                self.records@,
                catalog.ore_points@,
                guild_id,
                user_id,
                ore_type,
            ),
    {
        let mut i: usize = 0;
        while i < self.records.len()
            invariant
                i <= self.records@.len(),
                forall|j: int|
                    0 <= j < i ==> !(record_involves(#[trigger] self.records@[j], guild_id, user_id)
                        && point_mask(catalog.ore_points@, self.records@[j].ore_point_id) & ore_type
                        != 0),
            decreases self.records@.len() - i,
        {
            let rec = &self.records[i];
            if rec.guild_id == guild_id && (rec.user_id == user_id || rec.battle_user_id
                == Some(user_id)) {
                let mask = match catalog.find_point_index(rec.ore_point_id) {
                    Some(p) => catalog.ore_points[p].ore_type,
                    None => 0,
                };
                if mask & ore_type != 0 {
                    proof {
                        assert(record_involves(self.records@[i as int], guild_id, user_id));
                    }
                    return true;
                }
            }
            i += 1;
        }
        false
    }

    /// The bitwise OR of the category masks of everything the user holds
    /// or contests in the tenant.
    #[verifier::loop_isolation(false)]
    pub fn get_user_occupy_type(&self, guild_id: u64, user_id: u64, catalog: &Catalog) -> (r: i32)
        ensures
            r == user_mask(self.records@, catalog.ore_points@, guild_id, user_id),
    {
        let mut acc: i32 = 0;
        let mut i: usize = 0;
        proof {
            assert(self.records@.take(0) =~= Seq::<OccupyData>::empty());
        }
        while i < self.records.len()
            invariant
                i <= self.records@.len(),
                acc == user_mask(
                    self.records@.take(i as int),
                    catalog.ore_points@,
                    guild_id,
                    user_id,
                ),
            decreases self.records@.len() - i,
        {
            let ghost prefix = self.records@.take(i as int);
            let rec = &self.records[i];
            let involved = rec.guild_id == guild_id && (rec.user_id == user_id
                || rec.battle_user_id == Some(user_id));
            let mask: i32 = if involved {
                match catalog.find_point_index(rec.ore_point_id) {
                    Some(p) => catalog.ore_points[p].ore_type,
                    None => 0,
                }
            } else {
                0
            };
            acc = acc | mask;
            proof {
                let next = self.records@.take(i as int + 1);
                assert(next.drop_last() =~= prefix);
                assert(next.last() == self.records@[i as int]);
            }
            i += 1;
        }
        proof {
            assert(self.records@.take(self.records@.len() as int) =~= self.records@);
        }
        acc
    }

    /// Sets the tenant's notify role, last write winning.
    #[verifier::loop_isolation(false)]
    pub fn set_guild_notify_role(&mut self, guild_id: u64, role_id: u64)
        requires
            old(self).wf(),
        ensures
            final(self).wf(),
            final(self).records@ == old(self).records@,
            final(self).audit_log@ == old(self).audit_log@,
            final(self).notify_roles@ == if has_role(old(self).notify_roles@, guild_id) {
                old(self).notify_roles@.update(
                    role_index(old(self).notify_roles@, guild_id),
                    (guild_id, role_id),
                )
            } else {
                old(self).notify_roles@.push((guild_id, role_id))
            },
            get_role(final(self).notify_roles@, guild_id) == Some(role_id),
    {
        let ghost pre = *old(self);
        let mut i: usize = 0;
        while i < self.notify_roles.len()
            invariant
                *self == pre,
                i <= self.notify_roles@.len(),
                forall|j: int| 0 <= j < i ==> (#[trigger] self.notify_roles@[j]).0 != guild_id,
            decreases self.notify_roles@.len() - i,
        {
            if self.notify_roles[i].0 == guild_id {
                proof {
                    assert(pre.notify_roles@[i as int].0 == guild_id);
                    assert(has_role(pre.notify_roles@, guild_id));
                    let ci = role_index(pre.notify_roles@, guild_id);
                    assert(pre.notify_roles@[ci].0 == guild_id);
                    assert(ci == i as int);
                }
                self.notify_roles[i] = (guild_id, role_id);
                proof {
                    let post = self.notify_roles@;
                    assert(forall|k: int|
                        0 <= k < post.len() ==> (#[trigger] post[k]).0 == pre.notify_roles@[k].0);
                    assert(roles_wf(post));
                    assert(post[i as int].0 == guild_id);
                    assert(has_role(post, guild_id));
                    let ci2 = role_index(post, guild_id);
                    assert(post[ci2].0 == guild_id);
                    assert(ci2 == i as int);
                }
                return ;
            }
            i += 1;
        }
        proof {
            assert(!has_role(pre.notify_roles@, guild_id));
        }
        self.notify_roles.push((guild_id, role_id));
        proof {
            let post = self.notify_roles@;
            let n = post.len() - 1;
            assert(post[n].0 == guild_id);
            assert(roles_wf(post));
            assert(has_role(post, guild_id));
            let ci = role_index(post, guild_id);
            assert(post[ci].0 == guild_id);
            assert(ci == n);
        }
    }

    /// The tenant's configured notify role, if any.
    #[verifier::loop_isolation(false)]
    pub fn get_guild_notify_role(&self, guild_id: u64) -> (r: Option<u64>)
        requires
            self.wf(),
        ensures
            r == get_role(self.notify_roles@, guild_id),
    {
        let mut i: usize = 0;
        while i < self.notify_roles.len()
            invariant
                i <= self.notify_roles@.len(),
                forall|j: int| 0 <= j < i ==> (#[trigger] self.notify_roles@[j]).0 != guild_id,
            decreases self.notify_roles@.len() - i,
        {
            if self.notify_roles[i].0 == guild_id {
                proof {
                    let ci = role_index(self.notify_roles@, guild_id);
                    assert(self.notify_roles@[ci].0 == guild_id);
                    assert(roles_wf(self.notify_roles@));
                    assert(ci == i as int);
                }
                return Some(self.notify_roles[i].1);
            }
            i += 1;
        }
        None
    }

    /// One page of the catalog joined with the tenant's lease data:
    /// rows `start .. start + length` of the catalog, in catalog order,
    /// clamped to the catalog's end (an out-of-range page is empty, not an
    /// error).
    #[verifier::loop_isolation(false)]
    pub fn get_point_data(&self, guild_id: u64, start: u32, length: u32, catalog: &Catalog) -> (r:
        Vec<ListResult>)
        requires
            self.wf(),
            catalog.wf(),
        ensures
            r@.len() == page_len(catalog.ore_points@.len(), start as nat, length as nat),
            forall|j: int|
                0 <= j < r@.len() ==> list_result_matches(
                    #[trigger] r@[j],
                    catalog.ore_points@[start + j],
                    get_record(self.records@, guild_id, catalog.ore_points@[start + j].id),
                ),
    {
        let mut out: Vec<ListResult> = Vec::new();
        let total = catalog.ore_points.len();
        if start as usize >= total {
            return out;
        }
        let avail = total - start as usize;
        let take: usize = if length as usize <= avail {
            length as usize
        } else {
            avail
        };
        let end = start as usize + take;
        let mut j = start as usize;
        while j < end
            invariant
                start as usize <= j <= end,
                end == start as usize + take,
                end <= catalog.ore_points@.len(),
                take == page_len(catalog.ore_points@.len(), start as nat, length as nat),
                out@.len() == j - start as usize,
                forall|k: int|
                    0 <= k < out@.len() ==> list_result_matches(
                        #[trigger] out@[k],
                        catalog.ore_points@[start + k],
                        get_record(self.records@, guild_id, catalog.ore_points@[start + k].id),
                    ),
            decreases end - j,
        {
            let p = &catalog.ore_points[j];
            let rec = self.get_occupy_data(guild_id, p.id);
            let row = ListResult {
                id: p.id,
                name: p.name.clone(),
                ore_type: p.ore_type,
                x: p.x,
                y: p.y,
                user_id: match rec {
                    Some(r) => Some(r.user_id),
                    None => None,
                },
                due_time: match rec {
                    Some(r) => Some(r.due_time),
                    None => None,
                },
                battle_user_id: match rec {
                    Some(r) => r.battle_user_id,
                    None => None,
                },
            };
            out.push(row);
            j += 1;
        }
        out
    }

    /// Appends one audit line; nothing else changes, and nothing already
    /// logged is touched.
    pub fn write_log(&mut self, guild_id: Option<u64>, channel_id: u64, user_id: u64, content: &str)
        ensures
            final(self).records@ == old(self).records@,
            final(self).notify_roles@ == old(self).notify_roles@,
            final(self).audit_log@.len() == old(self).audit_log@.len() + 1,
            final(self).audit_log@.subrange(0, old(self).audit_log@.len() as int) == old(
                self,
            ).audit_log@,
            final(self).audit_log@.last().guild_id == guild_id,
            final(self).audit_log@.last().channel_id == channel_id,
            final(self).audit_log@.last().user_id == user_id,
            final(self).audit_log@.last().content@ == content@,
    {
        let entry = AuditEntry {
            guild_id,
            channel_id,
            user_id,
            content: String::from_str(content),
        };
        self.audit_log.push(entry);
        proof {
            assert(self.audit_log@.subrange(0, old(self).audit_log@.len() as int) =~= old(
                self,
            ).audit_log@);
        }
    }
}

} // verus!
