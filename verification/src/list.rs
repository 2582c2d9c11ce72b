//! The stateless page renderer: one page of catalog and lease data, the
//! navigation buttons for the adjacent pages, and the command buttons,
//! each carrying a re-encoded token.

use vstd::prelude::*;
use vstd::string::StringExecFns;
use crate::catalog::Catalog;
use crate::store::{get_record, list_result_matches, page_len, ListResult, OccupancyStore};
use crate::token::{
    cmd_list_points, cmd_show_challenge, cmd_show_judge, cmd_show_occupy, encode_list_points,
    encode_show_challenge, encode_show_judge, encode_show_occupy, page_token,
};

verus! {

/// One navigation button: disabled buttons carry the placeholder id `0`,
/// which no action decodes.
pub struct PageButton {
    pub enabled: bool,
    pub custom_id: String,
}

/// One rendered page: the joined rows in catalog order, the page position,
/// the three navigation buttons, and the command buttons.
pub struct ListContent {
    pub rows: Vec<ListResult>,
    pub page_index: u32,
    pub max_page: u32,
    pub prev: PageButton,
    pub refresh: PageButton,
    pub next: PageButton,
    pub show_occupy: String,
    pub show_challenge: String,
    pub show_judge: Option<String>,
}

/// The number of pages: the total rounded up to whole pages.
pub open spec fn max_page(total: nat, page_size: nat) -> nat
    recommends
        page_size > 0,
{
    ((total + page_size - 1) / (page_size as int)) as nat
}

/// What `list` promises of the page it renders.
pub open spec fn list_content_matches(
    c: ListContent,
    store: OccupancyStore,
    catalog: Catalog,
    guild_id: u64,
    page_index: u32,
    page_size: u32,
    is_admin: bool,
) -> bool {
    let total = catalog.ore_points@.len();
    let mp = max_page(total, page_size as nat);
    let start = page_index as nat * page_size as nat;
    &&& c.page_index == page_index
    &&& c.max_page == mp
    &&& c.rows@.len() == page_len(total, start, page_size as nat)
    &&& forall|j: int|
        0 <= j < c.rows@.len() ==> list_result_matches(
            #[trigger] c.rows@[j],
            catalog.ore_points@[start + j],
            get_record(store.records@, guild_id, catalog.ore_points@[start + j].id),
        )
    &&& c.prev.enabled == (page_index > 0)
    &&& (page_index > 0 ==> c.prev.custom_id@ == page_token(
        cmd_list_points(),
        (page_index - 1) as u32,
        page_size,
    ))
    &&& (page_index == 0 ==> c.prev.custom_id@ == seq!['0'])
    &&& c.refresh.enabled
    &&& c.refresh.custom_id@ == page_token(cmd_list_points(), page_index, page_size)
    &&& c.next.enabled == (page_index as nat + 1 < mp)
    &&& (c.next.enabled ==> c.next.custom_id@ == page_token(
        cmd_list_points(),
        (page_index + 1) as u32,
        page_size,
    ))
    &&& (!c.next.enabled ==> c.next.custom_id@ == seq!['0'])
    &&& c.show_occupy@ == page_token(cmd_show_occupy(), page_index, page_size)
    &&& c.show_challenge@ == page_token(cmd_show_challenge(), page_index, page_size)
    &&& (is_admin ==> (c.show_judge matches Some(t) && t@ == page_token(
        cmd_show_judge(),
        page_index,
        page_size,
    )))
    &&& (!is_admin ==> c.show_judge is None)
}

/// Rounding up to whole pages never overflows the page counter.
proof fn lemma_max_page_bound(total: nat, page_size: nat)
    requires
        1 <= page_size,
        total <= u32::MAX,
    ensures
        max_page(total, page_size) == total / page_size + (if total % page_size != 0 {
            1nat
        } else {
            0nat
        }),
        max_page(total, page_size) <= u32::MAX,
{
    let t = total as int;
    let p = page_size as int;
    vstd::arithmetic::div_mod::lemma_fundamental_div_mod(t, p);
    let q = t / p;
    let r = t % p;
    vstd::arithmetic::div_mod::lemma_mod_pos_bound(t, p);
    if r == 0 {
        assert(t + p - 1 == q * p + (p - 1)) by (nonlinear_arith)
            requires
                t == p * q + r,
                r == 0,
        ;
        vstd::arithmetic::div_mod::lemma_fundamental_div_mod_converse(t + p - 1, p, q, p - 1);
        vstd::arithmetic::div_mod::lemma_div_is_ordered(t, u32::MAX as int, p);
        vstd::arithmetic::div_mod::lemma_div_is_ordered_by_denominator(u32::MAX as int, 1, p);
    } else {
        assert(t + p - 1 == (q + 1) * p + (r - 1)) by (nonlinear_arith)
            requires
                t == p * q + r,
        ;
        vstd::arithmetic::div_mod::lemma_fundamental_div_mod_converse(t + p - 1, p, q + 1, r - 1);
        // A remainder forces a page size of at least two, which keeps the
        // rounded-up count strictly under the total.
        assert(p >= 2);
        vstd::arithmetic::div_mod::lemma_div_is_ordered_by_denominator(t, 2, p);
        vstd::arithmetic::div_mod::lemma_div_is_ordered(t, u32::MAX as int, 2);
    }
}

/// Renders one page. The caller is not asked to clamp: an out-of-range
/// page yields an empty slice, not an error.
pub fn list(
    store: &OccupancyStore,
    catalog: &Catalog,
    guild_id: u64,
    page_index: u32,
    page_size: u32,
    is_admin: bool,
) -> (r: ListContent)
    requires
        store.wf(),
        catalog.wf(),
        page_size >= 1,
    ensures
        list_content_matches(r, *store, *catalog, guild_id, page_index, page_size, is_admin),
{
    let total = catalog.get_point_count();
    proof {
        lemma_max_page_bound(total as nat, page_size as nat);
    }
    let mp = total / page_size + (if total % page_size != 0 {
        1
    } else {
        0
    });
    proof {
        assert((page_index as int) * (page_size as int) <= 4294967295int * 4294967295int)
            by (nonlinear_arith)
            requires
                0 <= page_index as int <= 4294967295int,
                0 <= page_size as int <= 4294967295int,
        ;
    }
    let start64 = page_index as u64 * page_size as u64;
    let rows = if start64 <= u32::MAX as u64 {
        store.get_point_data(guild_id, start64 as u32, page_size, catalog)
    } else {
        proof {
            assert(page_len(
                catalog.ore_points@.len(),
                page_index as nat * page_size as nat,
                page_size as nat,
            ) == 0);
        }
        Vec::new()
    };
    let prev = if page_index > 0 {
        PageButton { enabled: true, custom_id: encode_list_points(page_index - 1, page_size) }
    } else {
        PageButton { enabled: false, custom_id: placeholder_id() }
    };
    let refresh = PageButton { enabled: true, custom_id: encode_list_points(
        page_index,
        page_size,
    ) };
    let next = if (page_index as u64) + 1 < mp as u64 {
        PageButton { enabled: true, custom_id: encode_list_points(page_index + 1, page_size) }
    } else {
        PageButton { enabled: false, custom_id: placeholder_id() }
    };
    let show_occupy = encode_show_occupy(page_index, page_size);
    let show_challenge = encode_show_challenge(page_index, page_size);
    let show_judge = if is_admin {
        Some(encode_show_judge(page_index, page_size))
    } else {
        None
    };
    ListContent {
        rows,
        page_index,
        max_page: mp,
        prev,
        refresh,
        next,
        show_occupy,
        show_challenge,
        show_judge,
    }
}

/// The id of a disabled button.
fn placeholder_id() -> (r: String)
    ensures
        r@ == seq!['0'],
{
    let r = String::from_str("0");
    proof {
        reveal_strlit("0");
        assert("0"@ =~= seq!['0']);
    }
    r
}

} // verus!
