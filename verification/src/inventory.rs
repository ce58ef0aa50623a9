use vstd::prelude::*;

use crate::seq_facts::{lemma_filter_take_all, lemma_filter_take_step};
use crate::types::{InventoryOperation, InventoryUpdate, InventoryUpdateView, Product};

verus! {

/// The catalogue invariant: no two products share an id, and no product has
/// more units reserved than it has in stock.
pub open spec fn catalog_wf(ps: Seq<Product>) -> bool {
    &&& forall|i: int, j: int|
        0 <= i < ps.len() && 0 <= j < ps.len() && i != j ==> #[trigger] ps[i].id@ != #[trigger] ps[j].id@
    &&& forall|i: int| 0 <= i < ps.len() ==> #[trigger] ps[i].reserved <= ps[i].stock
}

/// `p` with `reserved` set to `r`, everything else unchanged.
pub open spec fn with_reserved(p: Product, r: u32) -> Product {
    Product { reserved: r, ..p }
}

/// `p` with `stock` and `reserved` set, everything else unchanged.
pub open spec fn with_levels(p: Product, s: u32, r: u32) -> Product {
    Product { stock: s, reserved: r, ..p }
}

/// The catalogue holds a product with id `id` that has `q` units available.
pub open spec fn can_reserve(ps: Seq<Product>, id: Seq<char>, q: u32) -> bool {
    exists|i: int| 0 <= i < ps.len() && ps[i].id@ == id && ps[i].stock - ps[i].reserved >= q
}

/// The catalogue after reserving `q` units of product `id`, where that succeeds.
pub open spec fn spec_reserve(ps: Seq<Product>, id: Seq<char>, q: u32) -> Seq<Product> {
    ps.map_values(|p: Product|
        if p.id@ == id && p.stock - p.reserved >= q {
            with_reserved(p, (p.reserved + q) as u32)
        } else {
            p
        })
}

/// The update that reports product `p`'s stock.
pub open spec fn stock_update_of(p: Product) -> InventoryUpdateView {
    InventoryUpdateView {
        product_id: p.id@,
        new_stock: p.stock,
        operation: InventoryOperation::StockUpdate,
    }
}

/// The product table of the marketplace, with the stock updates that are
/// still to be broadcast to the connected clients.
pub struct InventoryManager {
    products: Vec<Product>,
    updates: Vec<InventoryUpdate>,
}

impl InventoryManager {
    /// The products, in the order they were added.
    pub closed spec fn catalog(&self) -> Seq<Product> {
        self.products@
    }

    /// The stock updates not yet handed out, oldest first.
    pub closed spec fn pending_updates(&self) -> Seq<InventoryUpdateView> {
        self.updates@.map_values(|u: InventoryUpdate| u@)
    }

    /// The catalogue invariant holds.
    pub open spec fn wf(&self) -> bool {
        catalog_wf(self.catalog())
    }

    /// An empty inventory.
    pub fn new() -> (r: Self)
        ensures
            r.wf(),
            r.catalog() == Seq::<Product>::empty(),
            r.pending_updates() == Seq::<InventoryUpdateView>::empty(),
    {
        let r = InventoryManager { products: Vec::new(), updates: Vec::new() };
        assert(r.pending_updates() =~= Seq::<InventoryUpdateView>::empty());
        r
    }

    /// Index of the product with id `id`, if there is one.
    fn find(&self, id: &String) -> (r: Option<usize>)
        requires
            self.wf(),
        ensures
            r matches Some(i) ==> i < self.catalog().len() && self.catalog()[i as int].id@ == id@,
            r is None ==> forall|i: int| 0 <= i < self.catalog().len() ==> self.catalog()[i].id@ != id@,
    {
        let mut i: usize = 0;
        while i < self.products.len()
            invariant
                i <= self.products@.len(),
                forall|j: int| 0 <= j < i ==> self.products@[j].id@ != id@,
            decreases self.products@.len() - i,
        {
            if self.products[i].id == *id {
                return Some(i);
            }
            i = i + 1;
        }
        None
    }

    fn push_update(&mut self, u: InventoryUpdate)
        ensures
            final(self).catalog() == old(self).catalog(),
            final(self).pending_updates() == old(self).pending_updates().push(u@),
    {
        self.updates.push(u);
        assert(self.pending_updates() =~= old(self).pending_updates().push(u@));
    }

    /// Reserves `quantity` units of product `product_id`: succeeds when the
    /// product exists and has that many units available (stock less reserved).
    /// On success the product's new stock is queued for broadcast.
    pub fn reserve_product(&mut self, product_id: &str, quantity: u32) -> (ok: bool)
        requires
            old(self).wf(),
        ensures
            final(self).wf(),
            ok == can_reserve(old(self).catalog(), product_id@, quantity),
            final(self).catalog() == spec_reserve(old(self).catalog(), product_id@, quantity),
            final(self).pending_updates() == (if ok {
                old(self).pending_updates().push(stock_update_of(product_named(final(self).catalog(), product_id@)))
            } else {
                old(self).pending_updates()
            }),
    {
        let id = product_id.to_string();
        proof {
            broadcast use vstd::string::group_string_axioms;
        }
        let ghost ps = self.catalog();
        match self.find(&id) {
            Some(i) => {
                let stock = self.products[i].stock;
                let reserved = self.products[i].reserved;
                if stock - reserved >= quantity {
                    self.products[i].reserved = reserved + quantity;
                    assert(self.catalog() =~= spec_reserve(ps, product_id@, quantity));
                    proof { lemma_product_named(self.catalog(), i as int); }
                    let u = broadcast_update(product_id, &self.products[i]);
                    self.push_update(u);
                    true
                } else {
                    assert(self.catalog() =~= spec_reserve(ps, product_id@, quantity));
                    false
                }
            },
            None => {
                assert(self.catalog() =~= spec_reserve(ps, product_id@, quantity));
                false
            },
        }
    }

    /// Completes the purchase of `quantity` reserved units of product
    /// `product_id`: succeeds when the product exists and has at least
    /// `quantity` units both reserved and in stock; both counts then drop by
    /// `quantity` and the new stock is queued for broadcast.
    pub fn purchase_product(&mut self, product_id: &str, quantity: u32) -> (ok: bool)
        requires
            old(self).wf(),
        ensures
            final(self).wf(),
            ok == can_purchase(old(self).catalog(), product_id@, quantity),
            final(self).catalog() == spec_purchase(old(self).catalog(), product_id@, quantity),
            final(self).pending_updates() == (if ok {
                old(self).pending_updates().push(stock_update_of(product_named(final(self).catalog(), product_id@)))
            } else {
                old(self).pending_updates()
            }),
    {
        let id = product_id.to_string();
        proof {
            broadcast use vstd::string::group_string_axioms;
        }
        let ghost ps = self.catalog();
        match self.find(&id) {
            Some(i) => {
                let stock = self.products[i].stock;
                let reserved = self.products[i].reserved;
                if reserved >= quantity && stock >= quantity {
                    self.products[i].stock = stock - quantity;
                    self.products[i].reserved = reserved - quantity;
                    assert(self.catalog() =~= spec_purchase(ps, product_id@, quantity));
                    proof { lemma_product_named(self.catalog(), i as int); }
                    let u = broadcast_update(product_id, &self.products[i]);
                    self.push_update(u);
                    true
                } else {
                    assert(self.catalog() =~= spec_purchase(ps, product_id@, quantity));
                    false
                }
            },
            None => {
                assert(self.catalog() =~= spec_purchase(ps, product_id@, quantity));
                false
            },
        }
    }

    /// Gives back `quantity` reserved units of product `product_id`: when the
    /// product exists and has at least that many units reserved, its reserved
    /// count drops by `quantity` and its stock is queued for broadcast;
    /// otherwise nothing changes.
    pub fn release_reservation(&mut self, product_id: &str, quantity: u32)
        requires
            old(self).wf(),
        ensures
            final(self).wf(),
            final(self).catalog() == spec_release(old(self).catalog(), product_id@, quantity),
            final(self).pending_updates() == (if can_release(old(self).catalog(), product_id@, quantity) {
                old(self).pending_updates().push(stock_update_of(product_named(final(self).catalog(), product_id@)))
            } else {
                old(self).pending_updates()
            }),
    {
        let id = product_id.to_string();
        proof {
            broadcast use vstd::string::group_string_axioms;
        }
        let ghost ps = self.catalog();
        match self.find(&id) {
            Some(i) => {
                let reserved = self.products[i].reserved;
                if reserved >= quantity {
                    self.products[i].reserved = reserved - quantity;
                    assert(self.catalog() =~= spec_release(ps, product_id@, quantity));
                    proof { lemma_product_named(self.catalog(), i as int); }
                    let u = broadcast_update(product_id, &self.products[i]);
                    self.push_update(u);
                } else {
                    assert(self.catalog() =~= spec_release(ps, product_id@, quantity));
                }
            },
            None => {
                assert(self.catalog() =~= spec_release(ps, product_id@, quantity));
            },
        }
    }

    /// Adds `product` to the catalogue, replacing the product with the same
    /// id if there is one. A product with more units reserved than in stock
    /// is refused (`false`, nothing changes).
    pub fn insert_product(&mut self, product: Product) -> (ok: bool)
        requires
            old(self).wf(),
        ensures
            final(self).wf(),
            ok == (product.reserved <= product.stock),
            final(self).pending_updates() == old(self).pending_updates(),
            final(self).catalog() == (if !ok {
                old(self).catalog()
            } else if exists|i: int| 0 <= i < old(self).catalog().len() && old(self).catalog()[i].id@ == product.id@ {
                old(self).catalog().map_values(|p: Product| if p.id@ == product.id@ { product } else { p })
            } else {
                old(self).catalog().push(product)
            }),
    {
        if product.reserved > product.stock {
            return false;
        }
        let ghost ps = self.catalog();
        match self.find(&product.id) {
            Some(i) => {
                self.products.set(i, product);
                assert(self.catalog() =~= ps.map_values(|p: Product| if p.id@ == product.id@ { product } else { p }));
            },
            None => {
                self.products.push(product);
            },
        }
        true
    }

    /// The product with id `product_id`, if the catalogue holds one.
    pub fn get_product(&self, product_id: &str) -> (r: Option<Product>)
        requires
            self.wf(),
        ensures
            r is Some <==> exists|i: int| 0 <= i < self.catalog().len() && self.catalog()[i].id@ == product_id@,
            r matches Some(p) ==> p == product_named(self.catalog(), product_id@),
    {
        let id = product_id.to_string();
        proof {
            broadcast use vstd::string::group_string_axioms;
        }
        match self.find(&id) {
            Some(i) => {
                proof { lemma_product_named(self.catalog(), i as int); }
                Some(self.products[i].clone())
            },
            None => None,
        }
    }

    /// The products of seller `seller_id`, in catalogue order.
    pub fn get_seller_products(&self, seller_id: &str) -> (r: Vec<Product>)
        ensures
            r@ == self.catalog().filter(|p: Product| p.seller_id@ == seller_id@),
    {
        let seller = seller_id.to_string();
        proof {
            broadcast use vstd::string::group_string_axioms;
        }
        let ghost pred = |p: Product| p.seller_id@ == seller_id@;
        let mut r: Vec<Product> = Vec::new();
        let mut i: usize = 0;
        while i < self.products.len()
            invariant
                i <= self.products@.len(),
                seller@ == seller_id@,
                pred == (|p: Product| p.seller_id@ == seller_id@),
                r@ == self.products@.take(i as int).filter(pred),
            decreases self.products@.len() - i,
        {
            let is_match = self.products[i].seller_id == seller;
            proof {
                lemma_filter_take_step(self.products@, pred, i as int);
                assert(pred(self.products@[i as int]) == is_match);
            }
            if is_match {
                r.push(self.products[i].clone());
            }
            i = i + 1;
        }
        proof { lemma_filter_take_all(self.products@, pred); }
        r
    }

    /// Applies a stock update received from a client: the product named by
    /// the update gets `new_stock` as its stock, provided that it exists and
    /// that the new stock still covers its reserved units; otherwise nothing
    /// changes. Returns whether the update was applied.
    pub fn handle_update(&mut self, update: InventoryUpdate) -> (ok: bool)
        requires
            old(self).wf(),
        ensures
            final(self).wf(),
            final(self).pending_updates() == old(self).pending_updates(),
            ok == exists|i: int| 0 <= i < old(self).catalog().len()
                && old(self).catalog()[i].id@ == update.product_id@
                && old(self).catalog()[i].reserved <= update.new_stock,
            final(self).catalog() == old(self).catalog().map_values(|p: Product|
                if p.id@ == update.product_id@ && p.reserved <= update.new_stock {
                    with_levels(p, update.new_stock, p.reserved)
                } else {
                    p
                }),
    {
        let ghost ps = self.catalog();
        let ghost target = ps.map_values(|p: Product|
            if p.id@ == update.product_id@ && p.reserved <= update.new_stock {
                with_levels(p, update.new_stock, p.reserved)
            } else {
                p
            });
        match self.find(&update.product_id) {
            Some(i) => {
                if self.products[i].reserved <= update.new_stock {
                    self.products[i].stock = update.new_stock;
                    assert(self.catalog() =~= target);
                    true
                } else {
                    assert(self.catalog() =~= target);
                    false
                }
            },
            None => {
                assert(self.catalog() =~= target);
                false
            },
        }
    }

    /// Hands out the queued stock updates, oldest first, and empties the queue.
    pub fn take_updates(&mut self) -> (r: Vec<InventoryUpdate>)
        ensures
            final(self).catalog() == old(self).catalog(),
            final(self).pending_updates() == Seq::<InventoryUpdateView>::empty(),
            r@.map_values(|u: InventoryUpdate| u@) == old(self).pending_updates(),
    {
        let mut r = Vec::new();
        std::mem::swap(&mut r, &mut self.updates);
        assert(self.pending_updates() =~= Seq::<InventoryUpdateView>::empty());
        r
    }
}

/// The update announcing `product`'s stock, for product `product_id`.
pub fn broadcast_update(product_id: &str, product: &Product) -> (u: InventoryUpdate)
    ensures
        u@ == (InventoryUpdateView {
            product_id: product_id@,
            new_stock: product.stock,
            operation: InventoryOperation::StockUpdate,
        }),
{
    proof {
        broadcast use vstd::string::group_string_axioms;
    }
    InventoryUpdate {
        product_id: product_id.to_string(),
        new_stock: product.stock,
        operation: InventoryOperation::StockUpdate,
    }
}

/// The catalogue holds a product with id `id` that has at least `q` units
/// both reserved and in stock.
pub open spec fn can_purchase(ps: Seq<Product>, id: Seq<char>, q: u32) -> bool {
    exists|i: int| 0 <= i < ps.len() && ps[i].id@ == id && ps[i].reserved >= q && ps[i].stock >= q
}

/// The catalogue after purchasing `q` reserved units of product `id`, where that succeeds.
pub open spec fn spec_purchase(ps: Seq<Product>, id: Seq<char>, q: u32) -> Seq<Product> {
    ps.map_values(|p: Product|
        if p.id@ == id && p.reserved >= q && p.stock >= q {
            with_levels(p, (p.stock - q) as u32, (p.reserved - q) as u32)
        } else {
            p
        })
}

/// The catalogue holds a product with id `id` that has at least `q` units reserved.
pub open spec fn can_release(ps: Seq<Product>, id: Seq<char>, q: u32) -> bool {
    exists|i: int| 0 <= i < ps.len() && ps[i].id@ == id && ps[i].reserved >= q
}

/// The catalogue after releasing `q` reserved units of product `id`, where that succeeds.
pub open spec fn spec_release(ps: Seq<Product>, id: Seq<char>, q: u32) -> Seq<Product> {
    ps.map_values(|p: Product|
        if p.id@ == id && p.reserved >= q {
            with_reserved(p, (p.reserved - q) as u32)
        } else {
            p
        })
}

/// The product with id `id` (meaningful when there is one).
pub open spec fn product_named(ps: Seq<Product>, id: Seq<char>) -> Product {
    ps[choose|i: int| 0 <= i < ps.len() && ps[i].id@ == id]
}

/// In a well-formed catalogue, the product at `i` is the one named by its id.
pub proof fn lemma_product_named(ps: Seq<Product>, i: int)
    requires
        catalog_wf(ps),
        0 <= i < ps.len(),
    ensures
        product_named(ps, ps[i].id@) == ps[i],
{
    let j = choose|j: int| 0 <= j < ps.len() && ps[j].id@ == ps[i].id@;
    assert(ps[i].id@ == ps[i].id@);
    assert(j == i);
}

/// Releasing what was just reserved gives back the catalogue as it was.
pub proof fn law_reserve_then_release_restores(ps: Seq<Product>, id: Seq<char>, q: u32)
    requires
        catalog_wf(ps),
        can_reserve(ps, id, q),
    ensures
        can_release(spec_reserve(ps, id, q), id, q),
        spec_release(spec_reserve(ps, id, q), id, q) == ps,
{
    let r = spec_reserve(ps, id, q);
    let i = choose|i: int| 0 <= i < ps.len() && ps[i].id@ == id && ps[i].stock - ps[i].reserved >= q;
    assert(r[i].id@ == id && r[i].reserved >= q);
    assert(spec_release(r, id, q) =~= ps) by {
        assert forall|j: int| 0 <= j < ps.len() implies spec_release(r, id, q)[j] == ps[j] by {
            if ps[j].id@ == id {
                assert(j == i);
            }
        }
    }
}

/// A purchase right after a reservation of the same quantity always
/// succeeds; together they take `q` units off the product's stock and leave
/// its reserved count as it was.
pub proof fn law_reserve_then_purchase(ps: Seq<Product>, id: Seq<char>, q: u32)
    requires
        catalog_wf(ps),
        can_reserve(ps, id, q),
    ensures
        can_purchase(spec_reserve(ps, id, q), id, q),
        spec_purchase(spec_reserve(ps, id, q), id, q) == ps.map_values(|p: Product|
            if p.id@ == id { with_levels(p, (p.stock - q) as u32, p.reserved) } else { p }),
{
    let r = spec_reserve(ps, id, q);
    let i = choose|i: int| 0 <= i < ps.len() && ps[i].id@ == id && ps[i].stock - ps[i].reserved >= q;
    assert(r[i].id@ == id && r[i].reserved >= q && r[i].stock >= q);
    let target = ps.map_values(|p: Product|
        if p.id@ == id { with_levels(p, (p.stock - q) as u32, p.reserved) } else { p });
    assert(spec_purchase(r, id, q) =~= target) by {
        assert forall|j: int| 0 <= j < ps.len() implies spec_purchase(r, id, q)[j] == target[j] by {
            if ps[j].id@ == id {
                assert(j == i);
            }
        }
    }
}

/// A reservation, purchase or release that does not succeed leaves the
/// catalogue unchanged.
pub proof fn law_refused_operations_change_nothing(ps: Seq<Product>, id: Seq<char>, q: u32)
    ensures
        !can_reserve(ps, id, q) ==> spec_reserve(ps, id, q) == ps,
        !can_purchase(ps, id, q) ==> spec_purchase(ps, id, q) == ps,
        !can_release(ps, id, q) ==> spec_release(ps, id, q) == ps,
{
    if !can_reserve(ps, id, q) {
        assert(spec_reserve(ps, id, q) =~= ps);
    }
    if !can_purchase(ps, id, q) {
        assert(spec_purchase(ps, id, q) =~= ps);
    }
    if !can_release(ps, id, q) {
        assert(spec_release(ps, id, q) =~= ps);
    }
}

/// Each operation touches only the product it names; reservations and
/// releases never change a stock, and a purchase never changes how many
/// units of a product are available (stock less reserved).
pub proof fn law_operations_are_local(ps: Seq<Product>, id: Seq<char>, q: u32, j: int)
    requires
        catalog_wf(ps),
        0 <= j < ps.len(),
    ensures
        ps[j].id@ != id ==> spec_reserve(ps, id, q)[j] == ps[j] && spec_purchase(ps, id, q)[j] == ps[j]
            && spec_release(ps, id, q)[j] == ps[j],
        spec_reserve(ps, id, q)[j].stock == ps[j].stock,
        spec_release(ps, id, q)[j].stock == ps[j].stock,
        spec_purchase(ps, id, q)[j].stock - spec_purchase(ps, id, q)[j].reserved == ps[j].stock - ps[j].reserved,
        spec_reserve(ps, id, q)[j].id == ps[j].id && spec_purchase(ps, id, q)[j].id == ps[j].id
            && spec_release(ps, id, q)[j].id == ps[j].id,
{
}

/// The three operations keep the catalogue invariant: ids stay unique and
/// no product ever has more units reserved than in stock.
pub proof fn law_operations_keep_catalog_wf(ps: Seq<Product>, id: Seq<char>, q: u32)
    requires
        catalog_wf(ps),
    ensures
        catalog_wf(spec_reserve(ps, id, q)),
        catalog_wf(spec_purchase(ps, id, q)),
        catalog_wf(spec_release(ps, id, q)),
{
}

} // verus!
