//! The interaction router: decodes an opaque button token and dispatches
//! it to the service, the paginator or the button builder, re-encoding
//! fresh tokens into its reply. It holds no session state: everything a
//! handler needs travels in the token.

use vstd::prelude::*;
use crate::catalog::{Catalog, OrePoint};
use crate::list::{list, list_content_matches, ListContent};
use crate::service::{occupy, occupy_post, challenger_distinct, OccupyOutcome, LEASE_SECONDS};
use crate::store::{
    get_record, page_len, user_mask, OccupancyStore, OccupyData,
};
use crate::token::{
    cmd_challenge, cmd_judge, cmd_list_points, cmd_occupy, encode_challenge, encode_judge,
    encode_list_points, encode_occupy, page_token, parse_token, point_token, token_spec, Action,
    TokenError,
};

verus! {

/// Which kind of point buttons a show action asks for.
#[derive(Clone, Copy, PartialEq, Eq, Debug)]
pub enum ShowType {
    Occupy,
    Challenge,
    Judge,
}

/// The action name a show type's point buttons carry.
pub open spec fn show_cmd(t: ShowType) -> Seq<char> {
    match t {
        ShowType::Occupy => cmd_occupy(),
        ShowType::Challenge => cmd_challenge(),
        ShowType::Judge => cmd_judge(),
    }
}

/// Whether a point with record `rec` and mask `mask` is offered to a user
/// whose own holdings cover `user_type`: occupiable points are vacant and
/// category-free for the user; challengeable points hold an expired,
/// unchallenged lease and are category-free for the user; judgeable
/// points hold a pending challenge.
pub open spec fn show_pred(
    t: ShowType,
    rec: Option<OccupyData>,
    mask: i32,
    user_type: i32,
    now: i64,
) -> bool {
    match t {
        ShowType::Occupy => rec is None && mask & user_type == 0,
        ShowType::Challenge => (rec matches Some(r) && r.due_time < now
            && r.battle_user_id is None && mask & user_type == 0),
        ShowType::Judge => (rec matches Some(r) && r.battle_user_id is Some),
    }
}

/// The points of `points` that the show predicate keeps, in order.
pub open spec fn target_points(
    points: Seq<OrePoint>,
    recs: Seq<OccupyData>,
    guild_id: u64,
    t: ShowType,
    user_type: i32,
    now: i64,
) -> Seq<OrePoint>
    decreases points.len(),
{
    if points.len() == 0 {
        Seq::empty()
    } else {
        target_points(points.drop_last(), recs, guild_id, t, user_type, now) + (if show_pred(
            t,
            get_record(recs, guild_id, points.last().id),
            points.last().ore_type,
            user_type,
            now,
        ) {
            seq![points.last()]
        } else {
            Seq::<OrePoint>::empty()
        })
    }
}

/// One point button: the point's display data and its re-encoded token.
pub struct PointButton {
    pub ore_point_id: i32,
    pub name: String,
    pub x: i32,
    pub y: i32,
    pub custom_id: String,
}

/// Whether `b` is the button of point `p` for show type `t` on the given
/// page.
pub open spec fn point_button_matches(
    b: PointButton,
    p: OrePoint,
    t: ShowType,
    page_index: u32,
    page_size: u32,
) -> bool {
    &&& b.ore_point_id == p.id
    &&& b.name@ == p.name@
    &&& b.x == p.x
    &&& b.y == p.y
    &&& b.custom_id@ == point_token(show_cmd(t), p.id, page_index, page_size)
}

/// What the button builder promises: one button per kept point of the
/// requested page, in catalog order.
pub open spec fn show_buttons_match(
    buttons: Seq<PointButton>,
    store: OccupancyStore,
    catalog: Catalog,
    guild_id: u64,
    user_id: u64,
    t: ShowType,
    page_index: u32,
    page_size: u32,
    now: i64,
) -> bool {
    let total = catalog.ore_points@.len();
    let start = page_index as nat * page_size as nat;
    let page = if start >= total {
        Seq::<OrePoint>::empty()
    } else {
        catalog.ore_points@.subrange(
            start as int,
            (start + page_len(total, start, page_size as nat)) as int,
        )
    };
    let user_type = user_mask(store.records@, catalog.ore_points@, guild_id, user_id);
    let targets = target_points(page, store.records@, guild_id, t, user_type, now);
    &&& buttons.len() == targets.len()
    &&& forall|j: int|
        0 <= j < buttons.len() ==> point_button_matches(
            #[trigger] buttons[j],
            targets[j],
            t,
            page_index,
            page_size,
        )
}

/// Builds the point buttons of a show action: the points of the requested
/// page that the show predicate keeps for this user, each carrying a
/// re-encoded token of the action on that point.
#[verifier::loop_isolation(false)]
pub fn show_target_ore_point_buttons(
    store: &OccupancyStore,
    catalog: &Catalog,
    guild_id: u64,
    user_id: u64,
    t: ShowType,
    page_index: u32,
    page_size: u32,
    now: i64,
) -> (r: Vec<PointButton>)
    requires
        store.wf(),
        catalog.wf(),
    ensures
        show_buttons_match(
            r@,
            *store,
            *catalog,
            guild_id,
            user_id,
            t,
            page_index,
            page_size,
            now,
        ),
{
    proof {
        assert((page_index as int) * (page_size as int) <= 4294967295int * 4294967295int)
            by (nonlinear_arith)
            requires
                0 <= page_index as int <= 4294967295int,
                0 <= page_size as int <= 4294967295int,
        ;
    }
    let user_type = store.get_user_occupy_type(guild_id, user_id, catalog);
    let mut out: Vec<PointButton> = Vec::new();
    let total = catalog.ore_points.len();
    let start64 = page_index as u64 * page_size as u64;
    let ghost gstart = page_index as nat * page_size as nat;
    let ghost page = if gstart >= catalog.ore_points@.len() {
        Seq::<OrePoint>::empty()
    } else {
        catalog.ore_points@.subrange(
            gstart as int,
            (gstart + page_len(catalog.ore_points@.len(), gstart, page_size as nat)) as int,
        )
    };
    if start64 >= total as u64 {
        proof {
            assert(target_points(page, store.records@, guild_id, t, user_type, now)
                =~= Seq::<OrePoint>::empty());
        }
        return out;
    }
    let start = start64 as usize;
    let avail = total - start;
    let take: usize = if page_size as usize <= avail {
        page_size as usize
    } else {
        avail
    };
    let end = start + take;
    proof {
        assert(page =~= catalog.ore_points@.subrange(start as int, end as int));
        assert(page.take(0) =~= Seq::<OrePoint>::empty());
    }
    let mut j: usize = start;
    while j < end
        invariant
            start <= j <= end,
            end <= catalog.ore_points@.len(),
            page == catalog.ore_points@.subrange(start as int, end as int),
            show_buttons_ok(
                out@,
                target_points(
                    page.take(j - start),
                    store.records@,
                    guild_id,
                    t,
                    user_type,
                    now,
                ),
                t,
                page_index,
                page_size,
            ),
        decreases end - j,
    {
        let ghost prefix = page.take(j - start);
        let p = &catalog.ore_points[j];
        let rec = store.get_occupy_data(guild_id, p.id);
        let keep = match t {
            ShowType::Occupy => rec.is_none() && p.ore_type & user_type == 0,
            ShowType::Challenge => match rec {
                Some(r) => r.due_time < now && r.battle_user_id.is_none() && p.ore_type
                    & user_type == 0,
                None => false,
            },
            ShowType::Judge => match rec {
                Some(r) => r.battle_user_id.is_some(),
                None => false,
            },
        };
        if keep {
            let custom_id = match t {
                ShowType::Occupy => encode_occupy(p.id, page_index, page_size),
                ShowType::Challenge => encode_challenge(p.id, page_index, page_size),
                ShowType::Judge => encode_judge(p.id, page_index, page_size),
            };
            out.push(
                PointButton {
                    ore_point_id: p.id,
                    name: p.name.clone(),
                    x: p.x,
                    y: p.y,
                    custom_id,
                },
            );
        }
        proof {
            let next = page.take(j + 1 - start);
            assert(next.drop_last() =~= prefix);
            assert(next.last() == catalog.ore_points@[j as int]);
        }
        j += 1;
    }
    proof {
        assert(page.take(end - start) =~= page);
    }
    out
}

/// The default page size of a first page opened from a bare token.
pub const HOME_PAGE_SIZE: u32 = 20;

/// A routed reply, carrying everything a presentation layer needs.
pub enum Reply {
    /// A fresh first page, to be sent as a new message.
    NewPage(ListContent),
    /// A re-rendered page, replacing the pressed message.
    UpdatePage(ListContent),
    /// The point buttons of a show action, with the token of the back
    /// button.
    TargetButtons { buttons: Vec<PointButton>, back: String },
    /// An occupation outcome, with the re-rendered page after it.
    OccupyDone { outcome: OccupyOutcome, page: ListContent },
}

/// How the router relates the store before the call, the store after it,
/// and its reply, for every token.
pub open spec fn income_post(
    pre: OccupancyStore,
    post: OccupancyStore,
    r: Result<Reply, TokenError>,
    catalog: Catalog,
    guild_id: u64,
    user_id: u64,
    is_admin: bool,
    s: Seq<char>,
    now: i64,
) -> bool {
    match token_spec(s) {
        Err(e) => r == Err::<Reply, TokenError>(e) && post.records@ == pre.records@,
        Ok(a) => match a {
            Action::ListPointsHome => {
                &&& post.records@ == pre.records@
                &&& (r matches Ok(Reply::NewPage(c)) && list_content_matches(
                    c,
                    pre,
                    catalog,
                    guild_id,
                    0,
                    HOME_PAGE_SIZE,
                    is_admin,
                ))
            },
            Action::ListPoints { page_index, page_size } => {
                &&& post.records@ == pre.records@
                &&& if page_size == 0 {
                    r == Err::<Reply, TokenError>(TokenError::BadArguments)
                } else {
                    r matches Ok(Reply::UpdatePage(c)) && list_content_matches(
                        c,
                        pre,
                        catalog,
                        guild_id,
                        page_index,
                        page_size,
                        is_admin,
                    )
                }
            },
            Action::ShowOccupy { page_index, page_size } => {
                &&& post.records@ == pre.records@
                &&& (r matches Ok(Reply::TargetButtons { buttons, back })
                    && show_buttons_match(
                    buttons@,
                    pre,
                    catalog,
                    guild_id,
                    user_id,
                    ShowType::Occupy,
                    page_index,
                    page_size,
                    now,
                ) && back@ == page_token(cmd_list_points(), page_index, page_size))
            },
            Action::ShowChallenge { page_index, page_size } => {
                &&& post.records@ == pre.records@
                &&& (r matches Ok(Reply::TargetButtons { buttons, back })
                    && show_buttons_match(
                    buttons@,
                    pre,
                    catalog,
                    guild_id,
                    user_id,
                    ShowType::Challenge,
                    page_index,
                    page_size,
                    now,
                ) && back@ == page_token(cmd_list_points(), page_index, page_size))
            },
            Action::ShowJudge { page_index, page_size } => {
                &&& post.records@ == pre.records@
                &&& (r matches Ok(Reply::TargetButtons { buttons, back })
                    && show_buttons_match(
                    buttons@,
                    pre,
                    catalog,
                    guild_id,
                    user_id,
                    ShowType::Judge,
                    page_index,
                    page_size,
                    now,
                ) && back@ == page_token(cmd_list_points(), page_index, page_size))
            },
            Action::Occupy { ore_point_id, page_index, page_size } => {
                if page_size == 0 {
                    &&& r == Err::<Reply, TokenError>(TokenError::BadArguments)
                    &&& post.records@ == pre.records@
                } else {
                    r matches Ok(Reply::OccupyDone { outcome, page }) && occupy_post(
                        pre,
                        post,
                        outcome,
                        catalog,
                        guild_id,
                        user_id,
                        ore_point_id,
                        now,
                    ) && list_content_matches(
                        page,
                        post,
                        catalog,
                        guild_id,
                        page_index,
                        page_size,
                        is_admin,
                    )
                }
            },
        },
    }
}

/// Decodes one pressed token and runs it: paging and show actions read,
/// the occupy action writes under the service's rules, and a malformed or
/// unknown token is refused before anything changes.
pub fn interaction_income(
    store: &mut OccupancyStore,
    catalog: &Catalog,
    guild_id: u64,
    user_id: u64,
    is_admin: bool,
    custom_id: &str,
    now: i64,
) -> (r: Result<Reply, TokenError>)
    requires
        old(store).wf(),
        catalog.wf(),
        now <= i64::MAX - LEASE_SECONDS,
    ensures
        final(store).wf(),
        final(store).notify_roles@ == old(store).notify_roles@,
        final(store).audit_log@ == old(store).audit_log@,
        income_post(
            *old(store),
            *final(store),
            r,
            *catalog,
            guild_id,
            user_id,
            is_admin,
            custom_id@,
            now,
        ),
        challenger_distinct(old(store).records@) ==> challenger_distinct(final(store).records@),
{
    let action = match parse_token(custom_id) {
        Err(e) => {
            return Err(e);
        },
        Ok(a) => a,
    };
    match action {
        Action::ListPointsHome => Ok(
            Reply::NewPage(list(store, catalog, guild_id, 0, HOME_PAGE_SIZE, is_admin)),
        ),
        Action::ListPoints { page_index, page_size } => {
            if page_size == 0 {
                Err(TokenError::BadArguments)
            } else {
                Ok(
                    Reply::UpdatePage(
                        list(store, catalog, guild_id, page_index, page_size, is_admin),
                    ),
                )
            }
        },
        Action::ShowOccupy { page_index, page_size } => Ok(
            Reply::TargetButtons {
                buttons: show_target_ore_point_buttons(
                    store,
                    catalog,
                    guild_id,
                    user_id,
                    ShowType::Occupy,
                    page_index,
                    page_size,
                    now,
                ),
                back: encode_list_points(page_index, page_size),
            },
        ),
        Action::ShowChallenge { page_index, page_size } => Ok(
            Reply::TargetButtons {
                buttons: show_target_ore_point_buttons(
                    store,
                    catalog,
                    guild_id,
                    user_id,
                    ShowType::Challenge,
                    page_index,
                    page_size,
                    now,
                ),
                back: encode_list_points(page_index, page_size),
            },
        ),
        Action::ShowJudge { page_index, page_size } => Ok(
            Reply::TargetButtons {
                buttons: show_target_ore_point_buttons(
                    store,
                    catalog,
                    guild_id,
                    user_id,
                    ShowType::Judge,
                    page_index,
                    page_size,
                    now,
                ),
                back: encode_list_points(page_index, page_size),
            },
        ),
        Action::Occupy { ore_point_id, page_index, page_size } => {
            if page_size == 0 {
                Err(TokenError::BadArguments)
            } else {
                let outcome = occupy(store, catalog, guild_id, user_id, ore_point_id, now);
                let page = list(store, catalog, guild_id, page_index, page_size, is_admin);
                Ok(Reply::OccupyDone { outcome, page })
            }
        },
    }
}

/// The pairing the loop above maintains: buttons and kept points line up.
spec fn show_buttons_ok(
    buttons: Seq<PointButton>,
    targets: Seq<OrePoint>,
    t: ShowType,
    page_index: u32,
    page_size: u32,
) -> bool {
    buttons.len() == targets.len() && forall|j: int|
        0 <= j < buttons.len() ==> point_button_matches(
            #[trigger] buttons[j],
            targets[j],
            t,
            page_index,
            page_size,
        )
}

} // verus!
