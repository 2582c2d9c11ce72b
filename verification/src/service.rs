//! The occupation state machine: `occupy`, `force_occupy` and `judge`
//! transitions, validated and executed against the store, plus the pure
//! per-point decision step they share.

use vstd::prelude::*;
use crate::catalog::{Catalog, find_point};
use crate::store::{
    get_record, get_role, has_record, record_index, user_has_conflict, OccupancyStore, OccupyData,
    StoreError,
};

verus! {

/// The lease duration granted by every successful transition, in seconds.
pub const LEASE_SECONDS: i64 = 14 * 86400;

/// The state of one (tenant, point), computed once per access instead of
/// re-derived from nullable fields at every branch.
#[derive(Clone, Copy, PartialEq, Eq, Debug)]
pub enum PointState {
    Vacant,
    Leased { holder: u64, due_time: i64 },
    Contested { holder: u64, due_time: i64, challenger: u64 },
}

/// The state encoded by a stored record, if any.
pub open spec fn state_of(rec: Option<OccupyData>) -> PointState {
    match rec {
        None => PointState::Vacant,
        Some(r) => match r.battle_user_id {
            None => PointState::Leased { holder: r.user_id, due_time: r.due_time },
            Some(ch) => PointState::Contested {
                holder: r.user_id,
                due_time: r.due_time,
                challenger: ch,
            },
        },
    }
}

/// Computes the state encoded by a stored record.
pub fn point_state(rec: Option<OccupyData>) -> (r: PointState)
    ensures
        r == state_of(rec),
{
    match rec {
        None => PointState::Vacant,
        Some(r) => match r.battle_user_id {
            None => PointState::Leased { holder: r.user_id, due_time: r.due_time },
            Some(ch) => PointState::Contested {
                holder: r.user_id,
                due_time: r.due_time,
                challenger: ch,
            },
        },
    }
}

/// What an `occupy` attempt does: the write to perform, or the reason to
/// refuse, decided purely from the point's state and the exclusivity test.
#[derive(Clone, Copy, PartialEq, Eq, Debug)]
pub enum OccupyStep {
    /// Insert a fresh lease for the actor.
    DoOccupy { data: OccupyData },
    /// Register the actor as challenger, keeping holder and expiry.
    DoChallenge { updated: OccupyData, holder: u64 },
    /// The actor already holds or contests a point of the same category.
    RejectConflict,
    /// The lease has not expired yet.
    RejectLeased { due_time: i64 },
    /// Another challenger is already registered.
    RejectContested,
}

/// The decision table of the `occupy` transition. A category conflict
/// rejects in every state; a vacant point is occupied; an unexpired lease
/// rejects with its expiry; an expired, unchallenged lease takes the actor
/// as challenger; an expired, challenged lease rejects.
pub open spec fn occupy_step_spec(
    guild_id: u64,
    ore_point_id: i32,
    actor: u64,
    state: PointState,
    conflict: bool,
    now: i64,
) -> OccupyStep {
    if conflict {
        OccupyStep::RejectConflict
    } else {
        match state {
            PointState::Vacant => OccupyStep::DoOccupy {
                data: OccupyData {
                    ore_point_id,
                    guild_id,
                    user_id: actor,
                    due_time: (now + LEASE_SECONDS) as i64,
                    battle_user_id: None,
                },
            },
            PointState::Leased { holder, due_time } => {
                if due_time > now {
                    OccupyStep::RejectLeased { due_time }
                } else {
                    OccupyStep::DoChallenge {
                        updated: OccupyData {
                            ore_point_id,
                            guild_id,
                            user_id: holder,
                            due_time,
                            battle_user_id: Some(actor),
                        },
                        holder,
                    }
                }
            },
            PointState::Contested { holder: _, due_time, challenger: _ } => {
                if due_time > now {
                    OccupyStep::RejectLeased { due_time }
                } else {
                    OccupyStep::RejectContested
                }
            },
        }
    }
}

/// Decides one `occupy` attempt from the point's state and the result of
/// the exclusivity test, without touching any store.
pub fn occupy_step(
    guild_id: u64,
    ore_point_id: i32,
    actor: u64,
    state: &PointState,
    conflict: bool,
    now: i64,
) -> (r: OccupyStep)
    requires
        now <= i64::MAX - LEASE_SECONDS,
    ensures
        r == occupy_step_spec(guild_id, ore_point_id, actor, *state, conflict, now),
{
    if conflict {
        return OccupyStep::RejectConflict;
    }
    match state {
        PointState::Vacant => OccupyStep::DoOccupy {
            data: OccupyData {
                ore_point_id,
                guild_id,
                user_id: actor,
                due_time: now + LEASE_SECONDS,
                battle_user_id: None,
            },
        },
        PointState::Leased { holder, due_time } => {
            if *due_time > now {
                OccupyStep::RejectLeased { due_time: *due_time }
            } else {
                OccupyStep::DoChallenge {
                    updated: OccupyData {
                        ore_point_id,
                        guild_id,
                        user_id: *holder,
                        due_time: *due_time,
                        battle_user_id: Some(actor),
                    },
                    holder: *holder,
                }
            }
        },
        PointState::Contested { holder: _, due_time, challenger: _ } => {
            if *due_time > now {
                OccupyStep::RejectLeased { due_time: *due_time }
            } else {
                OccupyStep::RejectContested
            }
        },
    }
}

/// The user-facing result of an `occupy` or `force_occupy` attempt.
#[derive(Clone, Copy, PartialEq, Eq, Debug)]
pub enum OccupyOutcome {
    /// The catalog has no point with the given id.
    UnknownPoint,
    /// A fresh lease was inserted for the actor.
    Occupied,
    /// The actor was registered as challenger; the reply mentions the
    /// configured notify role, if any.
    ChallengeRegistered { holder: u64, notify_role: Option<u64> },
    /// The actor already holds or contests a point of the same category.
    RejectedConflict,
    /// The lease has not expired yet; the reply shows the expiry.
    RejectedLeased { due_time: i64 },
    /// Another challenger is already registered.
    RejectedContested,
}

/// No record names its own holder as challenger.
pub open spec fn challenger_distinct(recs: Seq<OccupyData>) -> bool {
    forall|i: int|
        0 <= i < recs.len() ==> (#[trigger] recs[i]).battle_user_id != Some(recs[i].user_id)
}

/// How `occupy` relates the store before the call, the store after it and
/// the outcome it returns.
pub open spec fn occupy_post(
    pre: OccupancyStore,
    post: OccupancyStore,
    r: OccupyOutcome,
    catalog: Catalog,
    guild_id: u64,
    actor: u64,
    ore_point_id: i32,
    now: i64,
) -> bool {
    match find_point(catalog.ore_points@, ore_point_id) {
        None => r == OccupyOutcome::UnknownPoint && post.records@ == pre.records@,
        Some(point) => {
            let conflict = user_has_conflict(
                pre.records@,
                catalog.ore_points@,
                guild_id,
                actor,
                point.ore_type,
            );
            let state = state_of(get_record(pre.records@, guild_id, ore_point_id));
            match occupy_step_spec(guild_id, ore_point_id, actor, state, conflict, now) {
                OccupyStep::DoOccupy { data } => {
                    &&& r == OccupyOutcome::Occupied
                    &&& post.records@ == pre.records@.push(data)
                },
                OccupyStep::DoChallenge { updated, holder } => {
                    &&& r == (OccupyOutcome::ChallengeRegistered {
                        holder,
                        notify_role: get_role(pre.notify_roles@, guild_id),
                    })
                    &&& post.records@ == pre.records@.update(
                        record_index(pre.records@, guild_id, ore_point_id),
                        updated,
                    )
                },
                OccupyStep::RejectConflict => {
                    &&& r == OccupyOutcome::RejectedConflict
                    &&& post.records@ == pre.records@
                },
                OccupyStep::RejectLeased { due_time } => {
                    &&& r == (OccupyOutcome::RejectedLeased { due_time })
                    &&& post.records@ == pre.records@
                },
                OccupyStep::RejectContested => {
                    &&& r == OccupyOutcome::RejectedContested
                    &&& post.records@ == pre.records@
                },
            }
        },
    }
}

/// The `occupy` transition: validates the point, runs the exclusivity
/// test and the decision step inside one access to the store, and applies
/// the decided write.
pub fn occupy(
    store: &mut OccupancyStore,
    catalog: &Catalog,
    guild_id: u64,
    user_id: u64,
    ore_point_id: i32,
    now: i64,
) -> (r: OccupyOutcome)
    requires
        old(store).wf(),
        catalog.wf(),
        now <= i64::MAX - LEASE_SECONDS,
    ensures
        final(store).wf(),
        final(store).notify_roles@ == old(store).notify_roles@,
        final(store).audit_log@ == old(store).audit_log@,
        occupy_post(
            *old(store),
            *final(store),
            r,
            *catalog,
            guild_id,
            user_id,
            ore_point_id,
            now,
        ),
        challenger_distinct(old(store).records@) ==> challenger_distinct(final(store).records@),
{
    let point_idx = match catalog.find_point_index(ore_point_id) {
        None => {
            return OccupyOutcome::UnknownPoint;
        },
        Some(i) => i,
    };
    let mask = catalog.ore_points[point_idx].ore_type;

    // The exclusivity test and the write below belong to one access; the
    // in-memory store makes the pair atomic by construction.
    if store.has_occupy_type(guild_id, user_id, mask, catalog) {
        return OccupyOutcome::RejectedConflict;
    }

    let rec = store.get_occupy_data(guild_id, ore_point_id);
    let state = point_state(rec);
    let step = occupy_step(guild_id, ore_point_id, user_id, &state, false, now);
    match step {
        OccupyStep::DoOccupy { data } => {
            match store.occupy(data) {
                Ok(()) => OccupyOutcome::Occupied,
                // The read above saw no record and nothing ran in between,
                // so the insert cannot lose a race here; an adapter over a
                // concurrent store classifies this case as an ordinary
                // rejection instead.
                Err(StoreError::Conflict) => vstd::pervasive::unreached(),
            }
        },
        OccupyStep::DoChallenge { updated, holder } => {
            let notify_role = store.get_guild_notify_role(guild_id);
            store.update_occupy_data(updated);
            proof {
                let prerecs = old(store).records@;
                let idx = record_index(prerecs, guild_id, ore_point_id);
                if challenger_distinct(prerecs) {
                    assert(prerecs[idx].user_id == holder);
                    assert(mask & mask == mask) by (bit_vector);
                    assert(crate::store::record_involves(prerecs[idx], guild_id, holder));
                    assert(crate::catalog::point_mask(catalog.ore_points@, ore_point_id)
                        == mask);
                    if user_id == holder {
                        assert(user_has_conflict(
                            prerecs,
                            catalog.ore_points@,
                            guild_id,
                            user_id,
                            mask,
                        ));
                    }
                    assert(forall|k: int|
                        0 <= k < store.records@.len() ==> (#[trigger] store.records@[k])
                            == if k == idx {
                            updated
                        } else {
                            prerecs[k]
                        });
                }
            }
            OccupyOutcome::ChallengeRegistered { holder, notify_role }
        },
        OccupyStep::RejectConflict => OccupyOutcome::RejectedConflict,
        OccupyStep::RejectLeased { due_time } => OccupyOutcome::RejectedLeased { due_time },
        OccupyStep::RejectContested => OccupyOutcome::RejectedContested,
    }
}

/// How `force_occupy` relates the store before the call, the store after
/// it and the outcome: for a known point it always succeeds, whatever the
/// prior state.
pub open spec fn force_occupy_post(
    pre: OccupancyStore,
    post: OccupancyStore,
    r: OccupyOutcome,
    catalog: Catalog,
    guild_id: u64,
    target: u64,
    ore_point_id: i32,
    now: i64,
) -> bool {
    match find_point(catalog.ore_points@, ore_point_id) {
        None => r == OccupyOutcome::UnknownPoint && post.records@ == pre.records@,
        Some(_) => {
            let stored = OccupyData {
                ore_point_id,
                guild_id,
                user_id: target,
                due_time: (now + LEASE_SECONDS) as i64,
                battle_user_id: None,
            };
            &&& r == OccupyOutcome::Occupied
            &&& post.records@ == if has_record(pre.records@, guild_id, ore_point_id) {
                pre.records@.update(record_index(pre.records@, guild_id, ore_point_id), stored)
            } else {
                pre.records@.push(stored)
            }
        },
    }
}

/// The privileged, unconditional transition: upserts the lease for the
/// target user with a fresh expiry and no challenger, with no exclusivity
/// test.
pub fn force_occupy(
    store: &mut OccupancyStore,
    catalog: &Catalog,
    guild_id: u64,
    target_user_id: u64,
    ore_point_id: i32,
    now: i64,
) -> (r: OccupyOutcome)
    requires
        old(store).wf(),
        catalog.wf(),
        now <= i64::MAX - LEASE_SECONDS,
    ensures
        final(store).wf(),
        final(store).notify_roles@ == old(store).notify_roles@,
        final(store).audit_log@ == old(store).audit_log@,
        force_occupy_post(
            *old(store),
            *final(store),
            r,
            *catalog,
            guild_id,
            target_user_id,
            ore_point_id,
            now,
        ),
        challenger_distinct(old(store).records@) ==> challenger_distinct(final(store).records@),
{
    if catalog.find_point_index(ore_point_id).is_none() {
        return OccupyOutcome::UnknownPoint;
    }
    let data = OccupyData {
        ore_point_id,
        guild_id,
        user_id: target_user_id,
        due_time: now + LEASE_SECONDS,
        battle_user_id: None,
    };
    store.force_occupy(data);
    proof {
        let prerecs = old(store).records@;
        if challenger_distinct(prerecs) {
            assert(forall|k: int|
                0 <= k < store.records@.len() ==> (#[trigger] store.records@[k]).battle_user_id
                    != Some(store.records@[k].user_id));
        }
    }
    OccupyOutcome::Occupied
}

/// The result of a `judge` attempt.
#[derive(Clone, Copy, PartialEq, Eq, Debug)]
pub enum JudgeOutcome {
    /// The challenge was resolved: the winner holds a fresh lease and the
    /// challenge is cleared.
    Resolved { winner: u64 },
    /// No record with a pending challenge exists for the point.
    NoPendingChallenge,
    /// The proposed winner is neither the holder nor the challenger.
    InvalidWinner,
}

/// How `judge` relates the store before the call, the store after it and
/// the outcome it returns.
pub open spec fn judge_post(
    pre: OccupancyStore,
    post: OccupancyStore,
    r: JudgeOutcome,
    guild_id: u64,
    ore_point_id: i32,
    winner: u64,
    now: i64,
) -> bool {
    match get_record(pre.records@, guild_id, ore_point_id) {
        None => r == JudgeOutcome::NoPendingChallenge && post.records@ == pre.records@,
        Some(rec) => match rec.battle_user_id {
            None => r == JudgeOutcome::NoPendingChallenge && post.records@ == pre.records@,
            Some(challenger) => {
                if winner == rec.user_id || winner == challenger {
                    &&& r == (JudgeOutcome::Resolved { winner })
                    &&& post.records@ == pre.records@.update(
                        record_index(pre.records@, guild_id, ore_point_id),
                        OccupyData {
                            ore_point_id,
                            guild_id,
                            user_id: winner,
                            due_time: (now + LEASE_SECONDS) as i64,
                            battle_user_id: None,
                        },
                    )
                } else {
                    r == JudgeOutcome::InvalidWinner && post.records@ == pre.records@
                }
            },
        },
    }
}

/// Resolves a pending challenge in favour of `winner_user_id`, which side
/// wins being the operator's decision: the winner gets a fresh lease and
/// the challenge is cleared. Rejected when no challenge is pending, or
/// when the proposed winner took no part in it.
pub fn judge(
    store: &mut OccupancyStore,
    guild_id: u64,
    ore_point_id: i32,
    winner_user_id: u64,
    now: i64,
) -> (r: JudgeOutcome)
    requires
        old(store).wf(),
        now <= i64::MAX - LEASE_SECONDS,
    ensures
        final(store).wf(),
        final(store).notify_roles@ == old(store).notify_roles@,
        final(store).audit_log@ == old(store).audit_log@,
        judge_post(
            *old(store),
            *final(store),
            r,
            guild_id,
            ore_point_id,
            winner_user_id,
            now,
        ),
        challenger_distinct(old(store).records@) ==> challenger_distinct(final(store).records@),
{
    let rec = match store.get_occupy_data(guild_id, ore_point_id) {
        None => {
            return JudgeOutcome::NoPendingChallenge;
        },
        Some(rec) => rec,
    };
    let challenger = match rec.battle_user_id {
        None => {
            return JudgeOutcome::NoPendingChallenge;
        },
        Some(ch) => ch,
    };
    if winner_user_id != rec.user_id && winner_user_id != challenger {
        return JudgeOutcome::InvalidWinner;
    }
    let updated = OccupyData {
        ore_point_id,
        guild_id,
        user_id: winner_user_id,
        due_time: now + LEASE_SECONDS,
        battle_user_id: None,
    };
    store.update_occupy_data(updated);
    proof {
        let prerecs = old(store).records@;
        if challenger_distinct(prerecs) {
            let idx = record_index(prerecs, guild_id, ore_point_id);
            assert(forall|k: int|
                0 <= k < store.records@.len() ==> (#[trigger] store.records@[k]) == if k == idx {
                    updated
                } else {
                    prerecs[k]
                });
        }
    }
    JudgeOutcome::Resolved { winner: winner_user_id }
}

/// Occupying a vacant point with no category conflict inserts a lease for
/// the actor that runs a full lease duration from `now`, with no
/// challenger, and reports the occupation.
pub proof fn lemma_occupy_vacant(
    pre: OccupancyStore,
    post: OccupancyStore,
    r: OccupyOutcome,
    catalog: Catalog,
    guild_id: u64,
    actor: u64,
    ore_point_id: i32,
    now: i64,
)
    requires
        pre.wf(),
        occupy_post(pre, post, r, catalog, guild_id, actor, ore_point_id, now),
        find_point(catalog.ore_points@, ore_point_id) is Some,
        !user_has_conflict(
            pre.records@,
            catalog.ore_points@,
            guild_id,
            actor,
            find_point(catalog.ore_points@, ore_point_id)->Some_0.ore_type,
        ),
        !has_record(pre.records@, guild_id, ore_point_id),
    ensures
        r == OccupyOutcome::Occupied,
        get_record(post.records@, guild_id, ore_point_id) == Some(
            OccupyData {
                ore_point_id,
                guild_id,
                user_id: actor,
                due_time: (now + LEASE_SECONDS) as i64,
                battle_user_id: None,
            },
        ),
{
    let data = OccupyData {
        ore_point_id,
        guild_id,
        user_id: actor,
        due_time: (now + LEASE_SECONDS) as i64,
        battle_user_id: None,
    };
    crate::store::lemma_get_record_push(pre.records@, data);
}

/// An actor who already holds or contests a point of the same category is
/// rejected, and no record changes.
pub proof fn lemma_occupy_conflict(
    pre: OccupancyStore,
    post: OccupancyStore,
    r: OccupyOutcome,
    catalog: Catalog,
    guild_id: u64,
    actor: u64,
    ore_point_id: i32,
    now: i64,
)
    requires
        occupy_post(pre, post, r, catalog, guild_id, actor, ore_point_id, now),
        find_point(catalog.ore_points@, ore_point_id) is Some,
        user_has_conflict(
            pre.records@,
            catalog.ore_points@,
            guild_id,
            actor,
            find_point(catalog.ore_points@, ore_point_id)->Some_0.ore_type,
        ),
    ensures
        r == OccupyOutcome::RejectedConflict,
        post.records@ == pre.records@,
{
}

/// Occupying a point whose lease has not expired changes nothing, and the
/// rejection carries the existing expiry.
pub proof fn lemma_occupy_unexpired(
    pre: OccupancyStore,
    post: OccupancyStore,
    r: OccupyOutcome,
    catalog: Catalog,
    guild_id: u64,
    actor: u64,
    ore_point_id: i32,
    now: i64,
    rec: OccupyData,
)
    requires
        occupy_post(pre, post, r, catalog, guild_id, actor, ore_point_id, now),
        find_point(catalog.ore_points@, ore_point_id) is Some,
        !user_has_conflict(
            pre.records@,
            catalog.ore_points@,
            guild_id,
            actor,
            find_point(catalog.ore_points@, ore_point_id)->Some_0.ore_type,
        ),
        get_record(pre.records@, guild_id, ore_point_id) == Some(rec),
        rec.due_time > now,
    ensures
        r == (OccupyOutcome::RejectedLeased { due_time: rec.due_time }),
        post.records@ == pre.records@,
{
}

/// Occupying an expired, unchallenged point as an eligible actor registers
/// the actor as challenger: the holder and the expiry stay, every other
/// record stays, and the reply names the configured notify role, if any.
pub proof fn lemma_occupy_expired_challenge(
    pre: OccupancyStore,
    post: OccupancyStore,
    r: OccupyOutcome,
    catalog: Catalog,
    guild_id: u64,
    actor: u64,
    ore_point_id: i32,
    now: i64,
    rec: OccupyData,
)
    requires
        pre.wf(),
        occupy_post(pre, post, r, catalog, guild_id, actor, ore_point_id, now),
        find_point(catalog.ore_points@, ore_point_id) is Some,
        !user_has_conflict(
            pre.records@,
            catalog.ore_points@,
            guild_id,
            actor,
            find_point(catalog.ore_points@, ore_point_id)->Some_0.ore_type,
        ),
        get_record(pre.records@, guild_id, ore_point_id) == Some(rec),
        rec.due_time <= now,
        rec.battle_user_id is None,
    ensures
        r == (OccupyOutcome::ChallengeRegistered {
            holder: rec.user_id,
            notify_role: get_role(pre.notify_roles@, guild_id),
        }),
        get_record(post.records@, guild_id, ore_point_id) == Some(
            OccupyData { battle_user_id: Some(actor), ..rec },
        ),
        post.records@.len() == pre.records@.len(),
        forall|k: int|
            0 <= k < pre.records@.len() && k != record_index(pre.records@, guild_id, ore_point_id)
                ==> post.records@[k] == pre.records@[k],
{
    let idx = record_index(pre.records@, guild_id, ore_point_id);
    assert(crate::store::record_key_is(pre.records@[idx], guild_id, ore_point_id));
    let updated = OccupyData { battle_user_id: Some(actor), ..rec };
    crate::store::lemma_get_record_update(pre.records@, guild_id, ore_point_id, updated);
}

/// A privileged force-occupation of a known point always succeeds: after
/// it the point is held by the target with a full lease from `now` and no
/// challenger, whatever the prior state was.
pub proof fn lemma_force_occupy_succeeds(
    pre: OccupancyStore,
    post: OccupancyStore,
    r: OccupyOutcome,
    catalog: Catalog,
    guild_id: u64,
    target: u64,
    ore_point_id: i32,
    now: i64,
)
    requires
        pre.wf(),
        force_occupy_post(pre, post, r, catalog, guild_id, target, ore_point_id, now),
        find_point(catalog.ore_points@, ore_point_id) is Some,
    ensures
        r == OccupyOutcome::Occupied,
        get_record(post.records@, guild_id, ore_point_id) == Some(
            OccupyData {
                ore_point_id,
                guild_id,
                user_id: target,
                due_time: (now + LEASE_SECONDS) as i64,
                battle_user_id: None,
            },
        ),
{
    let stored = OccupyData {
        ore_point_id,
        guild_id,
        user_id: target,
        due_time: (now + LEASE_SECONDS) as i64,
        battle_user_id: None,
    };
    if has_record(pre.records@, guild_id, ore_point_id) {
        crate::store::lemma_get_record_update(pre.records@, guild_id, ore_point_id, stored);
    } else {
        crate::store::lemma_get_record_push(pre.records@, stored);
    }
}

/// Relies on chrono::Utc::now paired with chrono::DateTime::timestamp for
/// the current moment, in whole seconds of the Unix epoch. Panics,
/// outside anything verified here, if the system clock reads before the
/// epoch.
#[verifier::external_body]
fn now_timestamp() -> i64 {
    chrono::Utc::now().timestamp()
}

/// Runs the `occupy` transition at the current wall-clock time. Refuses,
/// changing nothing, if the clock is so far ahead that a fresh lease's
/// expiry would not be representable.
pub fn occupy_at_current_time(
    store: &mut OccupancyStore,
    catalog: &Catalog,
    guild_id: u64,
    user_id: u64,
    ore_point_id: i32,
) -> (r: Option<OccupyOutcome>)
    requires
        old(store).wf(),
        catalog.wf(),
    ensures
        final(store).wf(),
        final(store).notify_roles@ == old(store).notify_roles@,
        final(store).audit_log@ == old(store).audit_log@,
        match r {
            Some(outcome) => exists|now: i64|
                now <= i64::MAX - LEASE_SECONDS && #[trigger] occupy_post(
                    *old(store),
                    *final(store),
                    outcome,
                    *catalog,
                    guild_id,
                    user_id,
                    ore_point_id,
                    now,
                ),
            None => final(store).records@ == old(store).records@,
        },
        challenger_distinct(old(store).records@) ==> challenger_distinct(final(store).records@),
{
    let now = now_timestamp();
    if now > i64::MAX - LEASE_SECONDS {
        return None;
    }
    let outcome = occupy(store, catalog, guild_id, user_id, ore_point_id, now);
    Some(outcome)
}

} // verus!
