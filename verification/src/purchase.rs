use vstd::prelude::*;

use crate::inventory::{
    can_purchase, can_release, can_reserve, catalog_wf, law_operations_keep_catalog_wf,
    law_refused_operations_change_nothing, product_named, spec_purchase, spec_release, spec_reserve,
    stock_update_of, with_levels, with_reserved, InventoryManager,
};
use crate::reservation::{is_hyphenated_v4, ReservationManager};
use crate::seq_facts::{indices, lemma_indices_filter_step, lemma_map_push};
use crate::types::{InventoryUpdateView, Product};

verus! {

/// One line of a bulk order: `quantity` units of product `product_id`.
#[derive(Debug, PartialEq, Eq)]
pub struct BulkOrderItem {
    pub product_id: String,
    pub quantity: u32,
}

impl Clone for BulkOrderItem {
    fn clone(&self) -> (r: Self)
        ensures
            r == *self,
    {
        BulkOrderItem { product_id: self.product_id.clone(), quantity: self.quantity }
    }
}

/// The lines of a bulk order that were bought and those that were not.
#[derive(Debug)]
pub struct PurchaseResult {
    pub successful_orders: Vec<BulkOrderItem>,
    pub failed_orders: Vec<BulkOrderItem>,
}

/// A reservation made while processing a bulk order; it is to be released
/// when the reservation manager's timeout has passed.
#[derive(Debug)]
pub struct Reservation {
    pub reservation_id: String,
    pub product_id: String,
    pub quantity: u32,
}

/// What a bulk purchase did: its result, and the reservations it made.
#[derive(Debug)]
pub struct BulkPurchaseOutcome {
    pub result: PurchaseResult,
    pub reservations: Vec<Reservation>,
}

/// Reservation `k` was made for line `k`, under a well-formed id.
pub open spec fn records_match(records: Seq<Reservation>, lines: Seq<BulkOrderItem>) -> bool {
    &&& records.len() == lines.len()
    &&& forall|k: int| 0 <= k < records.len() ==> {
        &&& #[trigger] records[k].product_id == lines[k].product_id
        &&& records[k].quantity == lines[k].quantity
        &&& is_hyphenated_v4(records[k].reservation_id@)
    }
}

/// The catalogue after attempting, in order, a reservation for each line.
pub open spec fn reserve_all(ps: Seq<Product>, orders: Seq<BulkOrderItem>) -> Seq<Product>
    decreases orders.len(),
{
    if orders.len() == 0 {
        ps
    } else {
        let o = orders.last();
        spec_reserve(reserve_all(ps, orders.drop_last()), o.product_id@, o.quantity)
    }
}

/// The lines whose reservation succeeded, in order.
pub open spec fn reserved_lines(ps: Seq<Product>, orders: Seq<BulkOrderItem>) -> Seq<BulkOrderItem>
    decreases orders.len(),
{
    if orders.len() == 0 {
        Seq::empty()
    } else {
        let o = orders.last();
        let prev = reserved_lines(ps, orders.drop_last());
        if can_reserve(reserve_all(ps, orders.drop_last()), o.product_id@, o.quantity) {
            prev.push(o)
        } else {
            prev
        }
    }
}

/// The lines whose reservation failed, in order.
pub open spec fn refused_lines(ps: Seq<Product>, orders: Seq<BulkOrderItem>) -> Seq<BulkOrderItem>
    decreases orders.len(),
{
    if orders.len() == 0 {
        Seq::empty()
    } else {
        let o = orders.last();
        let prev = refused_lines(ps, orders.drop_last());
        if can_reserve(reserve_all(ps, orders.drop_last()), o.product_id@, o.quantity) {
            prev
        } else {
            prev.push(o)
        }
    }
}

/// The stock updates that the reservations of `orders` announce, in order.
pub open spec fn reserve_log(ps: Seq<Product>, orders: Seq<BulkOrderItem>) -> Seq<InventoryUpdateView>
    decreases orders.len(),
{
    if orders.len() == 0 {
        Seq::empty()
    } else {
        let o = orders.last();
        let before = reserve_all(ps, orders.drop_last());
        let prev = reserve_log(ps, orders.drop_last());
        if can_reserve(before, o.product_id@, o.quantity) {
            prev.push(stock_update_of(product_named(spec_reserve(before, o.product_id@, o.quantity), o.product_id@)))
        } else {
            prev
        }
    }
}

/// The catalogue after purchasing, in order, each line.
pub open spec fn purchase_all(ps: Seq<Product>, lines: Seq<BulkOrderItem>) -> Seq<Product>
    decreases lines.len(),
{
    if lines.len() == 0 {
        ps
    } else {
        let o = lines.last();
        spec_purchase(purchase_all(ps, lines.drop_last()), o.product_id@, o.quantity)
    }
}

/// The stock updates that the purchases of `lines` announce, in order.
pub open spec fn purchase_log(ps: Seq<Product>, lines: Seq<BulkOrderItem>) -> Seq<InventoryUpdateView>
    decreases lines.len(),
{
    if lines.len() == 0 {
        Seq::empty()
    } else {
        let o = lines.last();
        let before = purchase_all(ps, lines.drop_last());
        let prev = purchase_log(ps, lines.drop_last());
        if can_purchase(before, o.product_id@, o.quantity) {
            prev.push(stock_update_of(product_named(spec_purchase(before, o.product_id@, o.quantity), o.product_id@)))
        } else {
            prev
        }
    }
}

/// The catalogue after releasing, in order, the reservation of each line.
pub open spec fn release_all(ps: Seq<Product>, lines: Seq<BulkOrderItem>) -> Seq<Product>
    decreases lines.len(),
{
    if lines.len() == 0 {
        ps
    } else {
        let o = lines.last();
        spec_release(release_all(ps, lines.drop_last()), o.product_id@, o.quantity)
    }
}

/// The stock updates that the releases of `lines` announce, in order.
pub open spec fn release_log(ps: Seq<Product>, lines: Seq<BulkOrderItem>) -> Seq<InventoryUpdateView>
    decreases lines.len(),
{
    if lines.len() == 0 {
        Seq::empty()
    } else {
        let o = lines.last();
        let before = release_all(ps, lines.drop_last());
        let prev = release_log(ps, lines.drop_last());
        if can_release(before, o.product_id@, o.quantity) {
            prev.push(stock_update_of(product_named(spec_release(before, o.product_id@, o.quantity), o.product_id@)))
        } else {
            prev
        }
    }
}

/// The catalogue once a bulk order has been processed.
pub open spec fn bulk_catalog(ps: Seq<Product>, orders: Seq<BulkOrderItem>) -> Seq<Product> {
    let reserved = reserve_all(ps, orders);
    let lines = reserved_lines(ps, orders);
    if refused_lines(ps, orders).len() == 0 {
        purchase_all(reserved, lines)
    } else {
        release_all(reserved, lines)
    }
}

/// The stock updates that processing a bulk order announces, in order.
pub open spec fn bulk_log(ps: Seq<Product>, orders: Seq<BulkOrderItem>) -> Seq<InventoryUpdateView> {
    let reserved = reserve_all(ps, orders);
    let lines = reserved_lines(ps, orders);
    reserve_log(ps, orders) + if refused_lines(ps, orders).len() == 0 {
        purchase_log(reserved, lines)
    } else {
        release_log(reserved, lines)
    }
}

/// Processes bulk orders against the inventory, all or nothing.
pub struct PurchaseManager {
    pub reservation_manager: ReservationManager,
}

impl PurchaseManager {
    /// Buys every line of `orders` or none of them. First each line is
    /// reserved, in order; a line whose reservation fails is recorded as
    /// failed. When no line failed, every reserved line is purchased and
    /// recorded as successful. When some line failed, every reservation that
    /// was made is released again.
    pub fn process_bulk_purchase(&self, inventory: &mut InventoryManager, orders: Vec<BulkOrderItem>) -> (r: BulkPurchaseOutcome)
        requires
            old(inventory).wf(),
        ensures
            final(inventory).wf(),
            final(inventory).catalog() == bulk_catalog(old(inventory).catalog(), orders@),
            final(inventory).pending_updates() == old(inventory).pending_updates() + bulk_log(old(inventory).catalog(), orders@),
            r.result.failed_orders@ == refused_lines(old(inventory).catalog(), orders@),
            r.result.successful_orders@ == (if refused_lines(old(inventory).catalog(), orders@).len() == 0 {
                reserved_lines(old(inventory).catalog(), orders@)
            } else {
                Seq::<BulkOrderItem>::empty()
            }),
            records_match(r.reservations@, reserved_lines(old(inventory).catalog(), orders@)),
            r.result.failed_orders@.len() + r.reservations@.len() == orders@.len(),
    {
        let ghost ps0 = inventory.catalog();
        let ghost log0 = inventory.pending_updates();
        let mut successful_orders: Vec<BulkOrderItem> = Vec::new();
        let mut failed_orders: Vec<BulkOrderItem> = Vec::new();
        let mut reserved: Vec<BulkOrderItem> = Vec::new();
        let mut reservations: Vec<Reservation> = Vec::new();

        // First phase: try to reserve every line.
        let mut i: usize = 0;
        while i < orders.len()
            invariant
                inventory.wf(),
                i <= orders@.len(),
                inventory.catalog() == reserve_all(ps0, orders@.take(i as int)),
                inventory.pending_updates() == log0 + reserve_log(ps0, orders@.take(i as int)),
                reserved@ == reserved_lines(ps0, orders@.take(i as int)),
                failed_orders@ == refused_lines(ps0, orders@.take(i as int)),
                successful_orders@.len() == 0,
                records_match(reservations@, reserved@),
            decreases orders@.len() - i,
        {
            let order = &orders[i];
            proof {
                assert(orders@.take(i + 1).drop_last() =~= orders@.take(i as int));
                assert(orders@.take(i + 1).last() == orders@[i as int]);
            }
            let ghost log_before = inventory.pending_updates();
            match self.reservation_manager.create_reservation(inventory, order.product_id.clone(), order.quantity) {
                Ok(reservation_id) => {
                    reservations.push(Reservation {
                        reservation_id,
                        product_id: order.product_id.clone(),
                        quantity: order.quantity,
                    });
                    reserved.push(order.clone());
                },
                Err(_) => {
                    failed_orders.push(order.clone());
                },
            }
            proof {
                assert(inventory.pending_updates() =~= log0 + reserve_log(ps0, orders@.take(i + 1)));
            }
            i = i + 1;
        }
        proof {
            assert(orders@.take(orders@.len() as int) =~= orders@);
            assert(reserved@ == reserved_lines(ps0, orders@));
        }

        let ghost reserved_catalog = inventory.catalog();
        let ghost log1 = inventory.pending_updates();

        // Second phase: when every line was reserved, purchase them all.
        if failed_orders.len() == 0 {
            let mut k: usize = 0;
            while k < reserved.len()
                invariant
                    inventory.wf(),
                    k <= reserved@.len(),
                    inventory.catalog() == purchase_all(reserved_catalog, reserved@.take(k as int)),
                    inventory.pending_updates() == log1 + purchase_log(reserved_catalog, reserved@.take(k as int)),
                    successful_orders@ == reserved@.take(k as int),
                    reserved@ == reserved_lines(ps0, orders@),
                    records_match(reservations@, reserved@),
                decreases reserved@.len() - k,
            {
                proof {
                    assert(reserved@.take(k + 1).drop_last() =~= reserved@.take(k as int));
                    assert(reserved@.take(k + 1).last() == reserved@[k as int]);
                }
                let _ = inventory.purchase_product(reserved[k].product_id.as_str(), reserved[k].quantity);
                successful_orders.push(reserved[k].clone());
                proof {
                    assert(inventory.pending_updates() =~= log1 + purchase_log(reserved_catalog, reserved@.take(k + 1)));
                    assert(successful_orders@ =~= reserved@.take(k + 1));
                }
                k = k + 1;
            }
            proof {
                assert(reserved@.take(reserved@.len() as int) =~= reserved@);
            }
        }

        // Third phase: when some line failed, give every reservation back.
        if failed_orders.len() != 0 {
            let mut k: usize = 0;
            while k < reserved.len()
                invariant
                    inventory.wf(),
                    k <= reserved@.len(),
                    inventory.catalog() == release_all(reserved_catalog, reserved@.take(k as int)),
                    inventory.pending_updates() == log1 + release_log(reserved_catalog, reserved@.take(k as int)),
                    reserved@ == reserved_lines(ps0, orders@),
                    records_match(reservations@, reserved@),
                decreases reserved@.len() - k,
            {
                proof {
                    assert(reserved@.take(k + 1).drop_last() =~= reserved@.take(k as int));
                    assert(reserved@.take(k + 1).last() == reserved@[k as int]);
                }
                inventory.release_reservation(reserved[k].product_id.as_str(), reserved[k].quantity);
                proof {
                    assert(inventory.pending_updates() =~= log1 + release_log(reserved_catalog, reserved@.take(k + 1)));
                }
                k = k + 1;
            }
            proof {
                assert(reserved@.take(reserved@.len() as int) =~= reserved@);
            }
        }
        proof {
            assert(inventory.pending_updates() =~= log0 + bulk_log(ps0, orders@));
            law_every_line_is_reserved_or_refused(ps0, orders@);
        }

        BulkPurchaseOutcome {
            result: PurchaseResult { successful_orders, failed_orders },
            reservations,
        }
    }
}

/// How many units of product `id` the lines ask for in all.
pub open spec fn total_quantity(lines: Seq<BulkOrderItem>, id: Seq<char>) -> int
    decreases lines.len(),
{
    if lines.len() == 0 {
        0
    } else {
        total_quantity(lines.drop_last(), id) + if lines.last().product_id@ == id {
            lines.last().quantity as int
        } else {
            0
        }
    }
}

/// The catalogue holds a product with id `id`.
pub open spec fn in_catalog(ps: Seq<Product>, id: Seq<char>) -> bool {
    exists|j: int| 0 <= j < ps.len() && ps[j].id@ == id
}

pub(crate) proof fn lemma_total_nonneg(lines: Seq<BulkOrderItem>, id: Seq<char>)
    ensures
        total_quantity(lines, id) >= 0,
    decreases lines.len(),
{
    if lines.len() > 0 {
        lemma_total_nonneg(lines.drop_last(), id);
    }
}

/// A prefix of the lines never asks for more than all of them.
proof fn lemma_total_prefix(lines: Seq<BulkOrderItem>, id: Seq<char>, k: int)
    requires
        0 <= k <= lines.len(),
    ensures
        0 <= total_quantity(lines.take(k), id) <= total_quantity(lines, id),
    decreases lines.len(),
{
    lemma_total_nonneg(lines.take(k), id);
    if k == lines.len() {
        assert(lines.take(k) =~= lines);
    } else {
        assert(lines.take(k) =~= lines.drop_last().take(k));
        lemma_total_prefix(lines.drop_last(), id, k);
    }
}

/// The effect of the reservation phase on each product: its reserved count
/// grows by what the reserved lines ask of it, and nothing else changes.
proof fn lemma_reserve_all(ps: Seq<Product>, orders: Seq<BulkOrderItem>)
    requires
        catalog_wf(ps),
    ensures
        reserve_all(ps, orders).len() == ps.len(),
        catalog_wf(reserve_all(ps, orders)),
        forall|j: int| 0 <= j < ps.len() ==> ps[j].reserved + total_quantity(reserved_lines(ps, orders), ps[j].id@) <= ps[j].stock,
        forall|j: int| 0 <= j < ps.len() ==> #[trigger] reserve_all(ps, orders)[j] == with_reserved(
            ps[j],
            (ps[j].reserved + total_quantity(reserved_lines(ps, orders), ps[j].id@)) as u32,
        ),
        forall|m: int| 0 <= m < reserved_lines(ps, orders).len() ==> in_catalog(ps, #[trigger] reserved_lines(ps, orders)[m].product_id@),
    decreases orders.len(),
{
    if orders.len() == 0 {
        assert forall|j: int| 0 <= j < ps.len() implies #[trigger] reserve_all(ps, orders)[j] == with_reserved(
            ps[j],
            (ps[j].reserved + total_quantity(reserved_lines(ps, orders), ps[j].id@)) as u32,
        ) by {
        }
    } else {
        let prev = orders.drop_last();
        let o = orders.last();
        lemma_reserve_all(ps, prev);
        let a = reserve_all(ps, prev);
        let s0 = reserved_lines(ps, prev);
        law_operations_keep_catalog_wf(a, o.product_id@, o.quantity);
        if can_reserve(a, o.product_id@, o.quantity) {
            let i = choose|i: int| 0 <= i < a.len() && a[i].id@ == o.product_id@ && a[i].stock - a[i].reserved >= o.quantity;
            let s1 = s0.push(o);
            assert(s1.drop_last() =~= s0);
            assert forall|j: int| 0 <= j < ps.len() implies
                ps[j].reserved + total_quantity(s1, ps[j].id@) <= ps[j].stock
                && #[trigger] reserve_all(ps, orders)[j] == with_reserved(ps[j], (ps[j].reserved + total_quantity(s1, ps[j].id@)) as u32)
            by {
                lemma_total_nonneg(s0, ps[j].id@);
                lemma_total_nonneg(s1, ps[j].id@);
                assert(ps[j].reserved + total_quantity(s0, ps[j].id@) <= ps[j].stock);
                assert(a[j] == with_reserved(ps[j], (ps[j].reserved + total_quantity(s0, ps[j].id@)) as u32));
                assert(s1.last() == o);
                assert(total_quantity(s1, ps[j].id@) == total_quantity(s0, ps[j].id@) + if o.product_id@ == ps[j].id@ {
                    o.quantity as int
                } else {
                    0
                });
                assert(reserve_all(ps, orders) == spec_reserve(a, o.product_id@, o.quantity));
                if ps[j].id@ == o.product_id@ {
                    assert(a[i].id@ == a[j].id@);
                    assert(i == j);
                    assert(reserve_all(ps, orders)[j] == with_reserved(a[j], (a[j].reserved + o.quantity) as u32));
                    assert(a[j].reserved == ps[j].reserved + total_quantity(s0, ps[j].id@));
                    assert(a[j].reserved + o.quantity <= ps[j].stock);
                    assert(ps[j].reserved + total_quantity(s1, ps[j].id@) <= ps[j].stock);
                    assert(reserve_all(ps, orders)[j] == with_reserved(ps[j], (ps[j].reserved + total_quantity(s1, ps[j].id@)) as u32));
                } else {
                    assert(reserve_all(ps, orders)[j] == a[j]);
                }
            }
            assert forall|m: int| 0 <= m < s1.len() implies in_catalog(ps, #[trigger] s1[m].product_id@) by {
                if m == s0.len() {
                    assert(ps[i].id@ == a[i].id@);
                } else {
                    assert(s1[m] == s0[m]);
                }
            }
        } else {
            law_refused_operations_change_nothing(a, o.product_id@, o.quantity);
        }
    }
}

/// The purchase phase, line by line, from a catalogue where every line's
/// units are reserved: each purchase goes through and moves its units out of
/// both stock and reserved.
pub(crate) proof fn lemma_purchase_all(ps: Seq<Product>, base: Seq<Product>, lines: Seq<BulkOrderItem>, k: int)
    requires
        0 <= k <= lines.len(),
        base.len() == ps.len(),
        forall|j: int| 0 <= j < ps.len() ==> ps[j].reserved + total_quantity(lines, ps[j].id@) <= ps[j].stock,
        forall|j: int| 0 <= j < ps.len() ==> #[trigger] base[j] == with_reserved(
            ps[j],
            (ps[j].reserved + total_quantity(lines, ps[j].id@)) as u32,
        ),
        forall|m: int| 0 <= m < lines.len() ==> in_catalog(ps, #[trigger] lines[m].product_id@),
    ensures
        purchase_all(base, lines.take(k)).len() == ps.len(),
        purchase_log(base, lines.take(k)).len() == k,
        forall|j: int| 0 <= j < ps.len() ==> #[trigger] purchase_all(base, lines.take(k))[j] == with_levels(
            ps[j],
            (ps[j].stock - total_quantity(lines.take(k), ps[j].id@)) as u32,
            (ps[j].reserved + total_quantity(lines, ps[j].id@) - total_quantity(lines.take(k), ps[j].id@)) as u32,
        ),
    decreases k,
{
    if k == 0 {
        assert(lines.take(0) =~= Seq::<BulkOrderItem>::empty());
        assert forall|j: int| 0 <= j < ps.len() implies #[trigger] purchase_all(base, lines.take(k))[j] == with_levels(
            ps[j],
            (ps[j].stock - total_quantity(lines.take(k), ps[j].id@)) as u32,
            (ps[j].reserved + total_quantity(lines, ps[j].id@) - total_quantity(lines.take(k), ps[j].id@)) as u32,
        ) by {
            lemma_total_nonneg(lines, ps[j].id@);
            assert(base[j] == with_reserved(ps[j], (ps[j].reserved + total_quantity(lines, ps[j].id@)) as u32));
        }
    } else {
        lemma_purchase_all(ps, base, lines, k - 1);
        let pre = lines.take(k - 1);
        let cur = purchase_all(base, pre);
        let o = lines[k - 1];
        assert(lines.take(k).drop_last() =~= pre);
        assert(lines.take(k).last() == o);
        assert(purchase_all(base, lines.take(k)) == spec_purchase(cur, o.product_id@, o.quantity));
        assert(in_catalog(ps, o.product_id@));
        let j0 = choose|j: int| 0 <= j < ps.len() && ps[j].id@ == o.product_id@;
        assert forall|j: int| 0 <= j < ps.len() && ps[j].id@ == o.product_id@ implies
            cur[j].reserved >= o.quantity && cur[j].stock >= o.quantity && cur[j].id == ps[j].id
        by {
            lemma_total_prefix(lines, ps[j].id@, k);
            lemma_total_prefix(lines, ps[j].id@, k - 1);
            assert(total_quantity(lines.take(k), ps[j].id@) == total_quantity(pre, ps[j].id@) + o.quantity);
            assert(cur[j] == with_levels(
                ps[j],
                (ps[j].stock - total_quantity(pre, ps[j].id@)) as u32,
                (ps[j].reserved + total_quantity(lines, ps[j].id@) - total_quantity(pre, ps[j].id@)) as u32,
            ));
        }
        assert(cur[j0].id == ps[j0].id);
        assert(can_purchase(cur, o.product_id@, o.quantity));
        assert forall|j: int| 0 <= j < ps.len() implies #[trigger] purchase_all(base, lines.take(k))[j] == with_levels(
            ps[j],
            (ps[j].stock - total_quantity(lines.take(k), ps[j].id@)) as u32,
            (ps[j].reserved + total_quantity(lines, ps[j].id@) - total_quantity(lines.take(k), ps[j].id@)) as u32,
        ) by {
            lemma_total_prefix(lines, ps[j].id@, k);
            lemma_total_prefix(lines, ps[j].id@, k - 1);
            assert(total_quantity(lines.take(k), ps[j].id@) == total_quantity(pre, ps[j].id@) + if o.product_id@ == ps[j].id@ {
                o.quantity as int
            } else {
                0
            });
            assert(cur[j] == with_levels(
                ps[j],
                (ps[j].stock - total_quantity(pre, ps[j].id@)) as u32,
                (ps[j].reserved + total_quantity(lines, ps[j].id@) - total_quantity(pre, ps[j].id@)) as u32,
            ));
        }
    }
}

/// The release phase, line by line, from a catalogue where every line's
/// units are reserved: each release goes through and gives its units back.
proof fn lemma_release_all(ps: Seq<Product>, base: Seq<Product>, lines: Seq<BulkOrderItem>, k: int)
    requires
        0 <= k <= lines.len(),
        base.len() == ps.len(),
        forall|j: int| 0 <= j < ps.len() ==> ps[j].reserved + total_quantity(lines, ps[j].id@) <= ps[j].stock,
        forall|j: int| 0 <= j < ps.len() ==> #[trigger] base[j] == with_reserved(
            ps[j],
            (ps[j].reserved + total_quantity(lines, ps[j].id@)) as u32,
        ),
        forall|m: int| 0 <= m < lines.len() ==> in_catalog(ps, #[trigger] lines[m].product_id@),
    ensures
        release_all(base, lines.take(k)).len() == ps.len(),
        release_log(base, lines.take(k)).len() == k,
        forall|j: int| 0 <= j < ps.len() ==> #[trigger] release_all(base, lines.take(k))[j] == with_reserved(
            ps[j],
            (ps[j].reserved + total_quantity(lines, ps[j].id@) - total_quantity(lines.take(k), ps[j].id@)) as u32,
        ),
    decreases k,
{
    if k == 0 {
        assert(lines.take(0) =~= Seq::<BulkOrderItem>::empty());
    } else {
        lemma_release_all(ps, base, lines, k - 1);
        let pre = lines.take(k - 1);
        let cur = release_all(base, pre);
        let o = lines[k - 1];
        assert(lines.take(k).drop_last() =~= pre);
        assert(lines.take(k).last() == o);
        assert(release_all(base, lines.take(k)) == spec_release(cur, o.product_id@, o.quantity));
        assert(in_catalog(ps, o.product_id@));
        let j0 = choose|j: int| 0 <= j < ps.len() && ps[j].id@ == o.product_id@;
        assert forall|j: int| 0 <= j < ps.len() && ps[j].id@ == o.product_id@ implies
            cur[j].reserved >= o.quantity && cur[j].id == ps[j].id
        by {
            lemma_total_prefix(lines, ps[j].id@, k);
            lemma_total_prefix(lines, ps[j].id@, k - 1);
            assert(total_quantity(lines.take(k), ps[j].id@) == total_quantity(pre, ps[j].id@) + o.quantity);
            assert(cur[j] == with_reserved(
                ps[j],
                (ps[j].reserved + total_quantity(lines, ps[j].id@) - total_quantity(pre, ps[j].id@)) as u32,
            ));
        }
        assert(cur[j0].id == ps[j0].id);
        assert(can_release(cur, o.product_id@, o.quantity));
        assert forall|j: int| 0 <= j < ps.len() implies #[trigger] release_all(base, lines.take(k))[j] == with_reserved(
            ps[j],
            (ps[j].reserved + total_quantity(lines, ps[j].id@) - total_quantity(lines.take(k), ps[j].id@)) as u32,
        ) by {
            lemma_total_prefix(lines, ps[j].id@, k);
            lemma_total_prefix(lines, ps[j].id@, k - 1);
            assert(total_quantity(lines.take(k), ps[j].id@) == total_quantity(pre, ps[j].id@) + if o.product_id@ == ps[j].id@ {
                o.quantity as int
            } else {
                0
            });
            assert(cur[j] == with_reserved(
                ps[j],
                (ps[j].reserved + total_quantity(lines, ps[j].id@) - total_quantity(pre, ps[j].id@)) as u32,
            ));
        }
    }
}

/// When no reservation was refused, every line was reserved.
proof fn lemma_no_refusal_reserves_every_line(ps: Seq<Product>, orders: Seq<BulkOrderItem>)
    requires
        refused_lines(ps, orders).len() == 0,
    ensures
        reserved_lines(ps, orders) == orders,
    decreases orders.len(),
{
    if orders.len() > 0 {
        let prev = orders.drop_last();
        let o = orders.last();
        if !can_reserve(reserve_all(ps, prev), o.product_id@, o.quantity) {
            assert(refused_lines(ps, orders).len() == refused_lines(ps, prev).len() + 1);
        }
        lemma_no_refusal_reserves_every_line(ps, prev);
        assert(prev.push(o) =~= orders);
    }
}

/// When every line names a product of the catalogue and no product is asked
/// for more units than it has available, no reservation is refused.
proof fn lemma_fitting_order_is_reserved(ps: Seq<Product>, orders: Seq<BulkOrderItem>)
    requires
        catalog_wf(ps),
        forall|m: int| 0 <= m < orders.len() ==> in_catalog(ps, #[trigger] orders[m].product_id@),
        forall|j: int| 0 <= j < ps.len() ==> ps[j].reserved + total_quantity(orders, ps[j].id@) <= ps[j].stock,
    ensures
        refused_lines(ps, orders).len() == 0,
    decreases orders.len(),
{
    if orders.len() > 0 {
        let prev = orders.drop_last();
        let o = orders.last();
        assert forall|m: int| 0 <= m < prev.len() implies in_catalog(ps, #[trigger] prev[m].product_id@) by {
            assert(prev[m] == orders[m]);
        }
        assert forall|j: int| 0 <= j < ps.len() implies ps[j].reserved + total_quantity(prev, ps[j].id@) <= ps[j].stock by {
            assert(ps[j].reserved + total_quantity(orders, ps[j].id@) <= ps[j].stock);
        }
        lemma_fitting_order_is_reserved(ps, prev);
        lemma_no_refusal_reserves_every_line(ps, prev);
        lemma_reserve_all(ps, prev);
        let a = reserve_all(ps, prev);
        assert(orders[orders.len() - 1] == o);
        assert(in_catalog(ps, o.product_id@));
        let j0 = choose|j: int| 0 <= j < ps.len() && ps[j].id@ == o.product_id@;
        lemma_total_nonneg(prev, o.product_id@);
        assert(ps[j0].reserved + total_quantity(orders, ps[j0].id@) <= ps[j0].stock);
        assert(a[j0] == with_reserved(ps[j0], (ps[j0].reserved + total_quantity(prev, ps[j0].id@)) as u32));
        assert(can_reserve(a, o.product_id@, o.quantity));
    }
}

/// A bulk order goes through exactly when every line names a product of
/// the catalogue and no product is asked for more units than it has
/// available (stock less reserved), counting all lines for it together.
pub proof fn law_bulk_purchase_succeeds_iff_it_fits(ps: Seq<Product>, orders: Seq<BulkOrderItem>)
    requires
        catalog_wf(ps),
    ensures
        refused_lines(ps, orders).len() == 0 <==> (
            (forall|m: int| 0 <= m < orders.len() ==> in_catalog(ps, #[trigger] orders[m].product_id@))
            && (forall|j: int| 0 <= j < ps.len() ==> ps[j].reserved + total_quantity(orders, ps[j].id@) <= ps[j].stock)),
{
    if refused_lines(ps, orders).len() == 0 {
        lemma_no_refusal_reserves_every_line(ps, orders);
        lemma_reserve_all(ps, orders);
    }
    if (forall|m: int| 0 <= m < orders.len() ==> in_catalog(ps, #[trigger] orders[m].product_id@))
        && (forall|j: int| 0 <= j < ps.len() ==> ps[j].reserved + total_quantity(orders, ps[j].id@) <= ps[j].stock) {
        lemma_fitting_order_is_reserved(ps, orders);
    }
}

/// A bulk order with a refused line changes nothing: every reservation it
/// made is released again, and each of those releases goes through.
pub proof fn law_refused_bulk_purchase_changes_nothing(ps: Seq<Product>, orders: Seq<BulkOrderItem>)
    requires
        catalog_wf(ps),
        refused_lines(ps, orders).len() > 0,
    ensures
        bulk_catalog(ps, orders) == ps,
        release_log(reserve_all(ps, orders), reserved_lines(ps, orders)).len() == reserved_lines(ps, orders).len(),
{
    let lines = reserved_lines(ps, orders);
    let base = reserve_all(ps, orders);
    lemma_reserve_all(ps, orders);
    lemma_release_all(ps, base, lines, lines.len() as int);
    assert(lines.take(lines.len() as int) =~= lines);
    assert forall|j: int| 0 <= j < ps.len() implies release_all(base, lines)[j] == ps[j] by {
        lemma_total_nonneg(lines, ps[j].id@);
    }
    assert(release_all(base, lines) =~= ps);
}

/// A bulk order without a refused line buys every line: each purchase goes
/// through, every product's stock drops by the units that the lines ask of
/// it, and its reserved count ends as it was.
pub proof fn law_accepted_bulk_purchase_buys_every_line(ps: Seq<Product>, orders: Seq<BulkOrderItem>)
    requires
        catalog_wf(ps),
        refused_lines(ps, orders).len() == 0,
    ensures
        reserved_lines(ps, orders) == orders,
        purchase_log(reserve_all(ps, orders), orders).len() == orders.len(),
        bulk_catalog(ps, orders) == ps.map_values(|p: Product|
            with_levels(p, (p.stock - total_quantity(orders, p.id@)) as u32, p.reserved)),
{
    lemma_no_refusal_reserves_every_line(ps, orders);
    let base = reserve_all(ps, orders);
    lemma_reserve_all(ps, orders);
    lemma_purchase_all(ps, base, orders, orders.len() as int);
    assert(orders.take(orders.len() as int) =~= orders);
    let target = ps.map_values(|p: Product|
        with_levels(p, (p.stock - total_quantity(orders, p.id@)) as u32, p.reserved));
    assert forall|j: int| 0 <= j < ps.len() implies purchase_all(base, orders)[j] == target[j] by {
        lemma_total_nonneg(orders, ps[j].id@);
    }
    assert(purchase_all(base, orders) =~= target);
}

/// The positions `k` whose line was refused: the reservation of
/// `orders[k]`, attempted after those of the lines before it, fails.
pub open spec fn refused_at(ps: Seq<Product>, orders: Seq<BulkOrderItem>) -> spec_fn(int) -> bool {
    |k: int| !can_reserve(reserve_all(ps, orders.take(k)), orders[k].product_id@, orders[k].quantity)
}

/// The line at position `k`.
pub open spec fn line_at(orders: Seq<BulkOrderItem>) -> spec_fn(int) -> BulkOrderItem {
    |k: int| orders[k]
}

proof fn lemma_lines_prefix(ps: Seq<Product>, orders: Seq<BulkOrderItem>, n: nat)
    requires
        n <= orders.len(),
    ensures
        reserved_lines(ps, orders.take(n as int)).len() + refused_lines(ps, orders.take(n as int)).len() == n,
        refused_lines(ps, orders.take(n as int)) == indices(n).filter(refused_at(ps, orders)).map_values(line_at(orders)),
    decreases n,
{
    let pred = refused_at(ps, orders);
    let f = line_at(orders);
    if n == 0 {
        reveal(Seq::filter);
        assert(orders.take(0) =~= Seq::<BulkOrderItem>::empty());
        assert(indices(0).filter(pred) =~= Seq::<int>::empty());
        assert(indices(0).filter(pred).map_values(f) =~= Seq::<BulkOrderItem>::empty());
    } else {
        let m = (n - 1) as nat;
        lemma_lines_prefix(ps, orders, m);
        lemma_indices_filter_step(m, pred);
        assert(orders.take(n as int).drop_last() =~= orders.take(m as int));
        assert(orders.take(n as int).last() == orders[m as int]);
        if pred(m as int) {
            lemma_map_push(indices(m).filter(pred), m as int, f);
        }
    }
}

/// Every line of a bulk order is either reserved or refused, never both
/// and never neither; the refused lines are, in order, those whose
/// reservation failed when its turn came.
pub proof fn law_every_line_is_reserved_or_refused(ps: Seq<Product>, orders: Seq<BulkOrderItem>)
    ensures
        reserved_lines(ps, orders).len() + refused_lines(ps, orders).len() == orders.len(),
        refused_lines(ps, orders) == indices(orders.len()).filter(refused_at(ps, orders)).map_values(line_at(orders)),
{
    lemma_lines_prefix(ps, orders, orders.len());
    assert(orders.take(orders.len() as int) =~= orders);
}

} // verus!
