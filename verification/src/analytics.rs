use vstd::prelude::*;

use crate::seq_facts::{
    indices, lemma_filter_keeps_exactly, lemma_filter_take_all, lemma_filter_take_step,
    lemma_indices_filter_step, lemma_map_push,
};
use crate::types::Product;

verus! {

/// Below this stock (and above zero) a product counts as running low.
pub const LOW_STOCK_THRESHOLD: u32 = 10;

/// A suggestion to restock a product.
#[derive(Debug, PartialEq, Eq)]
pub struct ReorderSuggestion {
    pub product_id: String,
    pub suggested_quantity: u32,
    pub reason: String,
}

/// The content of a [`ReorderSuggestion`] as plain values.
pub struct ReorderSuggestionView {
    pub product_id: Seq<char>,
    pub suggested_quantity: u32,
    pub reason: Seq<char>,
}

impl View for ReorderSuggestion {
    type V = ReorderSuggestionView;

    open spec fn view(&self) -> ReorderSuggestionView {
        ReorderSuggestionView {
            product_id: self.product_id@,
            suggested_quantity: self.suggested_quantity,
            reason: self.reason@,
        }
    }
}

/// The restocking levels of one product, worked out from its sales
/// velocity (units sold per day): restock when the stock is below
/// `reorder_below` (a week of sales), and then order `suggested_quantity`
/// (two weeks of sales).
#[derive(Debug, Clone, Copy, PartialEq, Eq)]
pub struct ReorderPlan {
    pub reorder_below: u32,
    pub suggested_quantity: u32,
}

pub open spec fn is_low_stock(p: Product) -> bool {
    p.stock < LOW_STOCK_THRESHOLD && p.stock > 0
}

pub open spec fn is_out_of_stock(p: Product) -> bool {
    p.stock == 0
}

/// No product counts both as running low and as out of stock.
pub proof fn law_low_and_out_of_stock_exclude_each_other(p: Product)
    ensures
        !(is_low_stock(p) && is_out_of_stock(p)),
{
}

/// The products that are running low (some stock, but less than the
/// threshold), in their order.
pub fn low_stock_items(products: &Vec<Product>) -> (r: Vec<Product>)
    ensures
        r@ == products@.filter(|p: Product| is_low_stock(p)),
        forall|i: int| 0 <= i < products@.len() ==> (#[trigger] r@.contains(products@[i]) <==> (0 < products@[i].stock
            && products@[i].stock < LOW_STOCK_THRESHOLD)),
{
    let ghost pred = |p: Product| is_low_stock(p);
    let mut r: Vec<Product> = Vec::new();
    let mut i: usize = 0;
    while i < products.len()
        invariant
            i <= products@.len(),
            pred == (|p: Product| is_low_stock(p)),
            r@ == products@.take(i as int).filter(pred),
        decreases products@.len() - i,
    {
        proof { lemma_filter_take_step(products@, pred, i as int); }
        if products[i].stock < LOW_STOCK_THRESHOLD && products[i].stock > 0 {
            r.push(products[i].clone());
        }
        i = i + 1;
    }
    proof {
        lemma_filter_take_all(products@, pred);
        assert forall|j: int| 0 <= j < products@.len() implies (#[trigger] r@.contains(products@[j]) <==> (0
            < products@[j].stock && products@[j].stock < LOW_STOCK_THRESHOLD)) by {
            law_stock_reports_go_by_stock_alone(products@, j);
        }
    }
    r
}

/// The products that have no stock left, in their order.
pub fn out_of_stock_items(products: &Vec<Product>) -> (r: Vec<Product>)
    ensures
        r@ == products@.filter(|p: Product| is_out_of_stock(p)),
        forall|i: int| 0 <= i < products@.len() ==> (#[trigger] r@.contains(products@[i]) <==> products@[i].stock == 0),
{
    let ghost pred = |p: Product| is_out_of_stock(p);
    let mut r: Vec<Product> = Vec::new();
    let mut i: usize = 0;
    while i < products.len()
        invariant
            i <= products@.len(),
            pred == (|p: Product| is_out_of_stock(p)),
            r@ == products@.take(i as int).filter(pred),
        decreases products@.len() - i,
    {
        proof { lemma_filter_take_step(products@, pred, i as int); }
        if products[i].stock == 0 {
            r.push(products[i].clone());
        }
        i = i + 1;
    }
    proof {
        lemma_filter_take_all(products@, pred);
        assert forall|j: int| 0 <= j < products@.len() implies (#[trigger] r@.contains(products@[j])
            <==> products@[j].stock == 0) by {
            law_stock_reports_go_by_stock_alone(products@, j);
        }
    }
    r
}

/// A product is in the low-stock report exactly when it has some stock but
/// less than the threshold, and in the out-of-stock report exactly when it
/// has none, whatever its reserved count; so every product below the
/// threshold is in one of the two reports.
pub proof fn law_stock_reports_go_by_stock_alone(products: Seq<Product>, i: int)
    requires
        0 <= i < products.len(),
    ensures
        products.filter(|p: Product| is_low_stock(p)).contains(products[i]) <==> (0 < products[i].stock
            && products[i].stock < LOW_STOCK_THRESHOLD),
        products.filter(|p: Product| is_out_of_stock(p)).contains(products[i]) <==> products[i].stock == 0,
        products[i].stock < LOW_STOCK_THRESHOLD ==> products.filter(|p: Product| is_low_stock(p)).contains(products[i])
            || products.filter(|p: Product| is_out_of_stock(p)).contains(products[i]),
{
    lemma_filter_keeps_exactly(products, |p: Product| is_low_stock(p), i);
    lemma_filter_keeps_exactly(products, |p: Product| is_out_of_stock(p), i);
}

/// The suggestions for `products`, where `plans[i]` holds the restocking
/// levels of `products[i]`: one for each product whose stock is below its
/// `reorder_below`, in order.
pub open spec fn reorder_suggestions(products: Seq<Product>, plans: Seq<ReorderPlan>) -> Seq<ReorderSuggestionView>
    decreases products.len(),
{
    if products.len() == 0 || plans.len() == 0 {
        Seq::empty()
    } else {
        let prev = reorder_suggestions(products.drop_last(), plans.drop_last());
        let p = products.last();
        let plan = plans.last();
        if p.stock < plan.reorder_below {
            prev.push(ReorderSuggestionView {
                product_id: p.id@,
                suggested_quantity: plan.suggested_quantity,
                reason: "Low stock based on sales velocity"@,
            })
        } else {
            prev
        }
    }
}

/// The indices `i` whose product's stock is below `plans[i].reorder_below`.
pub open spec fn below_reorder_level(products: Seq<Product>, plans: Seq<ReorderPlan>) -> spec_fn(int) -> bool {
    |i: int| products[i].stock < plans[i].reorder_below
}

/// The suggestion to restock `products[i]` by `plans[i].suggested_quantity`.
pub open spec fn restock_suggestion(products: Seq<Product>, plans: Seq<ReorderPlan>) -> spec_fn(int) -> ReorderSuggestionView {
    |i: int| ReorderSuggestionView {
        product_id: products[i].id@,
        suggested_quantity: plans[i].suggested_quantity,
        reason: "Low stock based on sales velocity"@,
    }
}

proof fn lemma_reorder_prefix(products: Seq<Product>, plans: Seq<ReorderPlan>, n: nat)
    requires
        products.len() == plans.len(),
        n <= products.len(),
    ensures
        reorder_suggestions(products.take(n as int), plans.take(n as int)) == indices(n).filter(
            below_reorder_level(products, plans),
        ).map_values(restock_suggestion(products, plans)),
    decreases n,
{
    let pred = below_reorder_level(products, plans);
    let f = restock_suggestion(products, plans);
    if n == 0 {
        reveal(Seq::filter);
        assert(indices(0).filter(pred) =~= Seq::<int>::empty());
        assert(indices(0).filter(pred).map_values(f) =~= Seq::<ReorderSuggestionView>::empty());
    } else {
        let m = (n - 1) as nat;
        lemma_reorder_prefix(products, plans, m);
        lemma_indices_filter_step(m, pred);
        assert(products.take(n as int).drop_last() =~= products.take(m as int));
        assert(plans.take(n as int).drop_last() =~= plans.take(m as int));
        assert(products.take(n as int).last() == products[m as int]);
        assert(plans.take(n as int).last() == plans[m as int]);
        if pred(m as int) {
            lemma_map_push(indices(m).filter(pred), m as int, f);
        }
    }
}

/// Every product whose stock is below its reorder level (an out-of-stock
/// one included) gets exactly one suggestion, by its plan's suggested
/// quantity, and no other product gets one: the suggestions are those
/// products, in order.
pub proof fn law_reorder_suggests_exactly_the_products_below_their_level(
    products: Seq<Product>,
    plans: Seq<ReorderPlan>,
)
    requires
        products.len() == plans.len(),
    ensures
        reorder_suggestions(products, plans) == indices(products.len()).filter(
            below_reorder_level(products, plans),
        ).map_values(restock_suggestion(products, plans)),
        reorder_suggestions(products, plans).len() == indices(products.len()).filter(
            below_reorder_level(products, plans),
        ).len(),
        forall|i: int| 0 <= i < products.len() && products[i].stock < plans[i].reorder_below ==> exists|k: int|
            0 <= k < reorder_suggestions(products, plans).len()
            && #[trigger] reorder_suggestions(products, plans)[k] == (ReorderSuggestionView {
                product_id: products[i].id@,
                suggested_quantity: plans[i].suggested_quantity,
                reason: "Low stock based on sales velocity"@,
            }),
{
    broadcast use vstd::seq_lib::group_filter_ensures;

    let n = products.len();
    let pred = below_reorder_level(products, plans);
    let f = restock_suggestion(products, plans);
    lemma_reorder_prefix(products, plans, n);
    assert(products.take(n as int) =~= products);
    assert(plans.take(n as int) =~= plans);
    assert forall|i: int| 0 <= i < products.len() && products[i].stock < plans[i].reorder_below implies exists|k: int|
        0 <= k < reorder_suggestions(products, plans).len()
        && #[trigger] reorder_suggestions(products, plans)[k] == (ReorderSuggestionView {
            product_id: products[i].id@,
            suggested_quantity: plans[i].suggested_quantity,
            reason: "Low stock based on sales velocity"@,
        }) by {
        assert(indices(n)[i] == i);
        assert(pred(indices(n)[i]));
        assert(indices(n).filter(pred).contains(i));
        let k = choose|k: int| 0 <= k < indices(n).filter(pred).len() && indices(n).filter(pred)[k] == i;
        assert(reorder_suggestions(products, plans)[k] == f(i));
    }
}

/// Suggests restocking each product whose stock is below its plan's
/// `reorder_below`, by its plan's `suggested_quantity`.
pub fn generate_reorder_suggestions(products: &Vec<Product>, plans: &Vec<ReorderPlan>) -> (r: Vec<ReorderSuggestion>)
    requires
        products@.len() == plans@.len(),
    ensures
        r@.map_values(|s: ReorderSuggestion| s@) == reorder_suggestions(products@, plans@),
        r@.map_values(|s: ReorderSuggestion| s@) == indices(products@.len()).filter(
            below_reorder_level(products@, plans@),
        ).map_values(restock_suggestion(products@, plans@)),
        forall|i: int| 0 <= i < products@.len() && products@[i].stock < plans@[i].reorder_below ==> exists|k: int|
            0 <= k < r@.len() && (#[trigger] r@[k]).product_id@ == products@[i].id@
            && r@[k].suggested_quantity == plans@[i].suggested_quantity,
{
    let mut r: Vec<ReorderSuggestion> = Vec::new();
    let mut i: usize = 0;
    while i < products.len()
        invariant
            i <= products@.len(),
            products@.len() == plans@.len(),
            r@.map_values(|s: ReorderSuggestion| s@) == reorder_suggestions(
                products@.take(i as int),
                plans@.take(i as int),
            ),
        decreases products@.len() - i,
    {
        proof {
            assert(products@.take(i + 1).drop_last() =~= products@.take(i as int));
            assert(plans@.take(i + 1).drop_last() =~= plans@.take(i as int));
            assert(products@.take(i + 1).last() == products@[i as int]);
            assert(plans@.take(i + 1).last() == plans@[i as int]);
        }
        let ghost before = r@;
        if products[i].stock < plans[i].reorder_below {
            let reason = "Low stock based on sales velocity".to_string();
            proof {
                broadcast use vstd::string::group_string_axioms;
            }
            r.push(ReorderSuggestion {
                product_id: products[i].id.clone(),
                suggested_quantity: plans[i].suggested_quantity,
                reason,
            });
            assert(r@.map_values(|s: ReorderSuggestion| s@) =~= before.map_values(|s: ReorderSuggestion| s@).push(r@.last()@));
        }
        i = i + 1;
    }
    proof {
        assert(products@.take(i as int) =~= products@);
        assert(plans@.take(i as int) =~= plans@);
        law_reorder_suggests_exactly_the_products_below_their_level(products@, plans@);
        assert forall|j: int| 0 <= j < products@.len() && products@[j].stock < plans@[j].reorder_below implies exists|k: int|
            0 <= k < r@.len() && (#[trigger] r@[k]).product_id@ == products@[j].id@
            && r@[k].suggested_quantity == plans@[j].suggested_quantity by {
            let k = choose|k: int| 0 <= k < reorder_suggestions(products@, plans@).len()
                && #[trigger] reorder_suggestions(products@, plans@)[k] == (ReorderSuggestionView {
                    product_id: products@[j].id@,
                    suggested_quantity: plans@[j].suggested_quantity,
                    reason: "Low stock based on sales velocity"@,
                });
            assert(r@.map_values(|s: ReorderSuggestion| s@)[k] == r@[k]@);
        }
    }
    r
}

/// Units sold as reported by the sales query: its total when there is one,
/// else zero, cut to 32 bits as the report stores it.
pub fn units_sold(total_units: Option<i64>) -> (r: u32)
    ensures
        r == (match total_units {
            Some(t) => t,
            None => 0,
        }) as u32,
{
    let total: i64 = match total_units {
        Some(t) => t,
        None => 0,
    };
    total as u32
}

} // verus!
