use vstd::prelude::*;

use crate::inventory::{
    can_purchase, catalog_wf, product_named, spec_purchase, stock_update_of, with_levels,
    with_reserved, InventoryManager,
};
use crate::purchase::{
    in_catalog, lemma_purchase_all, lemma_total_nonneg, purchase_all, release_all, release_log,
    total_quantity, BulkOrderItem,
};
use crate::types::{ChatMessage, InventoryUpdate, InventoryUpdateView, Product};

verus! {

// ---------------------------------------------------------------- chat

/// The state of the live chat: the messages shown and the text being typed.
#[derive(Debug, PartialEq, Eq)]
pub struct ChatState {
    pub messages: Vec<ChatMessage>,
    pub message_input: String,
}

/// What the user does in the chat.
#[derive(Debug, PartialEq, Eq)]
pub enum ChatEvent {
    /// The text field now holds this text.
    InputChanged(String),
    /// The form was submitted.
    Submitted,
}

impl ChatState {
    /// No messages, nothing typed.
    pub fn new() -> (r: Self)
        ensures
            r.messages@.len() == 0,
            r.message_input@.len() == 0,
    {
        ChatState { messages: Vec::new(), message_input: String::new() }
    }
}

/// The chat's reaction to an event: typing replaces the text being typed;
/// submitting clears it. The messages are left as they are.
pub fn chat(state: ChatState, event: ChatEvent) -> (r: ChatState)
    ensures
        r.messages == state.messages,
        match event {
            ChatEvent::InputChanged(text) => r.message_input == text,
            ChatEvent::Submitted => r.message_input@.len() == 0,
        },
{
    match event {
        ChatEvent::InputChanged(text) => ChatState { messages: state.messages, message_input: text },
        ChatEvent::Submitted => ChatState { messages: state.messages, message_input: String::new() },
    }
}

// ---------------------------------------------------------------- product card

/// The state of a product card: the product as last reported, and how many
/// units of it this shopper has put in the cart.
#[derive(Debug, PartialEq, Eq)]
pub struct ProductCardState {
    pub product: Product,
    pub in_cart: u32,
}

/// What happens to a product card.
#[derive(Debug, PartialEq, Eq)]
pub enum ProductCardEvent {
    /// A stock update arrived over the WebSocket.
    InventoryUpdated(InventoryUpdate),
    /// The shopper pressed "Add to Cart".
    AddToCartClicked,
    /// The inventory answered the reservation of one unit.
    ReservationAnswered(bool),
}

/// What the card asks its surroundings to do.
#[derive(Debug, PartialEq, Eq)]
pub enum ProductCardAction {
    Nothing,
    /// Reserve one unit of this product.
    ReserveOne { product_id: String },
}

/// Units of `product` still free to be put in a cart.
pub fn available(product: &Product) -> (r: u32)
    requires
        product.reserved <= product.stock,
    ensures
        r == product.stock - product.reserved,
{
    product.stock - product.reserved
}

/// The label of the card's button.
pub fn add_to_cart_label(product: &Product) -> (r: &'static str)
    requires
        product.reserved <= product.stock,
    ensures
        product.stock == product.reserved ==> r@ == "Out of Stock"@,
        product.stock != product.reserved ==> r@ == "Add to Cart"@,
{
    if product.stock - product.reserved == 0 {
        "Out of Stock"
    } else {
        "Add to Cart"
    }
}

/// The card's reaction to an event.
/// A stock update for this product replaces its stock. A press of "Add to
/// Cart" asks for one unit to be reserved when a unit is available. A
/// successful reservation adds one unit to the cart count.
pub fn product_card(state: ProductCardState, event: ProductCardEvent) -> (r: (ProductCardState, ProductCardAction))
    requires
        event is AddToCartClicked ==> state.product.reserved <= state.product.stock,
        event matches ProductCardEvent::ReservationAnswered(ok) && ok ==> state.in_cart < u32::MAX,
    ensures
        match event {
            ProductCardEvent::InventoryUpdated(u) => {
                &&& r.1 == ProductCardAction::Nothing
                &&& r.0.in_cart == state.in_cart
                &&& r.0.product == if u.product_id@ == state.product.id@ {
                    with_levels(state.product, u.new_stock, state.product.reserved)
                } else {
                    state.product
                }
            },
            ProductCardEvent::AddToCartClicked => {
                &&& r.0 == state
                &&& if state.product.stock - state.product.reserved > 0 {
                    r.1 matches ProductCardAction::ReserveOne { product_id } && product_id@ == state.product.id@
                } else {
                    r.1 == ProductCardAction::Nothing
                }
            },
            ProductCardEvent::ReservationAnswered(ok) => {
                &&& r.1 == ProductCardAction::Nothing
                &&& r.0.product == state.product
                &&& r.0.in_cart == if ok { state.in_cart + 1 } else { state.in_cart as int }
            },
        },
{
    match event {
        ProductCardEvent::InventoryUpdated(update) => {
            if update.product_id == state.product.id {
                let mut product = state.product;
                product.stock = update.new_stock;
                (ProductCardState { product, in_cart: state.in_cart }, ProductCardAction::Nothing)
            } else {
                (state, ProductCardAction::Nothing)
            }
        },
        ProductCardEvent::AddToCartClicked => {
            if available(&state.product) > 0 {
                let product_id = state.product.id.clone();
                (state, ProductCardAction::ReserveOne { product_id })
            } else {
                (state, ProductCardAction::Nothing)
            }
        },
        ProductCardEvent::ReservationAnswered(ok) => {
            if ok {
                (ProductCardState { product: state.product, in_cart: state.in_cart + 1 }, ProductCardAction::Nothing)
            } else {
                (state, ProductCardAction::Nothing)
            }
        },
    }
}

// ---------------------------------------------------------------- pages

/// The state of a seller's store page: the products on show.
#[derive(Debug, PartialEq, Eq)]
pub struct SellerStoreState {
    pub products: Vec<Product>,
}

/// A store page opens with no products on show.
pub fn seller_store() -> (r: SellerStoreState)
    ensures
        r.products@.len() == 0,
{
    SellerStoreState { products: Vec::new() }
}

/// The content of the sign-in page.
#[derive(Debug, PartialEq, Eq)]
pub struct SignInPage {
    pub title: String,
    pub products: Vec<Product>,
}

/// The sign-in page: titled "Sign In", with no products.
pub fn sign_in() -> (r: SignInPage)
    ensures
        r.title@ == "Sign In"@,
        r.products@.len() == 0,
{
    let title = "Sign In".to_string();
    proof {
        broadcast use vstd::string::group_string_axioms;
    }
    SignInPage { title, products: Vec::new() }
}

// ---------------------------------------------------------------- cart

/// Purchasing the cart's lines in order, stopping at the first refusal:
/// the catalogue reached, and whether every purchase went through.
pub open spec fn checkout_run(ps: Seq<Product>, items: Seq<BulkOrderItem>) -> (Seq<Product>, bool)
    decreases items.len(),
{
    if items.len() == 0 {
        (ps, true)
    } else {
        let prev = checkout_run(ps, items.drop_last());
        let o = items.last();
        if prev.1 && can_purchase(prev.0, o.product_id@, o.quantity) {
            (spec_purchase(prev.0, o.product_id@, o.quantity), true)
        } else {
            (prev.0, false)
        }
    }
}

/// The stock updates that the purchases of [`checkout_run`] announce.
pub open spec fn checkout_log(ps: Seq<Product>, items: Seq<BulkOrderItem>) -> Seq<InventoryUpdateView>
    decreases items.len(),
{
    if items.len() == 0 {
        Seq::empty()
    } else {
        let prev = checkout_run(ps, items.drop_last());
        let o = items.last();
        if prev.1 && can_purchase(prev.0, o.product_id@, o.quantity) {
            checkout_log(ps, items.drop_last()).push(stock_update_of(
                product_named(spec_purchase(prev.0, o.product_id@, o.quantity), o.product_id@),
            ))
        } else {
            checkout_log(ps, items.drop_last())
        }
    }
}

/// The catalogue after a checkout: the purchases, and when one was refused,
/// the release of the reservation of every line of the cart.
pub open spec fn cart_catalog(ps: Seq<Product>, items: Seq<BulkOrderItem>) -> Seq<Product> {
    let run = checkout_run(ps, items);
    if run.1 {
        run.0
    } else {
        release_all(run.0, items)
    }
}

/// The stock updates that a checkout announces, in order.
pub open spec fn cart_log(ps: Seq<Product>, items: Seq<BulkOrderItem>) -> Seq<InventoryUpdateView> {
    let run = checkout_run(ps, items);
    checkout_log(ps, items) + if run.1 {
        Seq::empty()
    } else {
        release_log(run.0, items)
    }
}

proof fn lemma_checkout_stops(ps: Seq<Product>, items: Seq<BulkOrderItem>, i: int, k: int)
    requires
        0 <= i <= k <= items.len(),
        !checkout_run(ps, items.take(i)).1,
    ensures
        checkout_run(ps, items.take(k)) == checkout_run(ps, items.take(i)),
        checkout_log(ps, items.take(k)) == checkout_log(ps, items.take(i)),
    decreases k - i,
{
    if k > i {
        lemma_checkout_stops(ps, items, i, k - 1);
        assert(items.take(k).drop_last() =~= items.take(k - 1));
    }
}

/// Checks the cart out against the inventory. Each line is purchased in
/// turn (the cart's units are expected to be reserved already); at the
/// first purchase that is refused the checkout stops, and then the
/// reservation of every line of the cart is released. Returns whether
/// every line was bought, in which case the cart is to be emptied.
pub fn cart(inventory: &mut InventoryManager, items: &Vec<BulkOrderItem>) -> (success: bool)
    requires
        old(inventory).wf(),
    ensures
        final(inventory).wf(),
        success == checkout_run(old(inventory).catalog(), items@).1,
        final(inventory).catalog() == cart_catalog(old(inventory).catalog(), items@),
        final(inventory).pending_updates() == old(inventory).pending_updates() + cart_log(old(inventory).catalog(), items@),
{
    let ghost ps0 = inventory.catalog();
    let ghost log0 = inventory.pending_updates();
    let mut success = true;
    let mut i: usize = 0;
    while i < items.len() && success
        invariant
            inventory.wf(),
            i <= items@.len(),
            (inventory.catalog(), success) == checkout_run(ps0, items@.take(i as int)),
            inventory.pending_updates() == log0 + checkout_log(ps0, items@.take(i as int)),
        decreases items@.len() - i,
    {
        proof {
            assert(items@.take(i + 1).drop_last() =~= items@.take(i as int));
            assert(items@.take(i + 1).last() == items@[i as int]);
        }
        if !inventory.purchase_product(items[i].product_id.as_str(), items[i].quantity) {
            success = false;
        }
        proof {
            assert(inventory.pending_updates() =~= log0 + checkout_log(ps0, items@.take(i + 1)));
        }
        i = i + 1;
    }
    proof {
        if success {
            assert(items@.take(i as int) =~= items@);
        } else {
            lemma_checkout_stops(ps0, items@, i as int, items@.len() as int);
            assert(items@.take(items@.len() as int) =~= items@);
        }
    }

    if !success {
        let ghost stopped = inventory.catalog();
        let ghost log1 = inventory.pending_updates();
        let mut k: usize = 0;
        while k < items.len()
            invariant
                inventory.wf(),
                k <= items@.len(),
                inventory.catalog() == release_all(stopped, items@.take(k as int)),
                inventory.pending_updates() == log1 + release_log(stopped, items@.take(k as int)),
            decreases items@.len() - k,
        {
            proof {
                assert(items@.take(k + 1).drop_last() =~= items@.take(k as int));
                assert(items@.take(k + 1).last() == items@[k as int]);
            }
            inventory.release_reservation(items[k].product_id.as_str(), items[k].quantity);
            proof {
                assert(inventory.pending_updates() =~= log1 + release_log(stopped, items@.take(k + 1)));
            }
            k = k + 1;
        }
        proof {
            assert(items@.take(items@.len() as int) =~= items@);
        }
    }
    proof {
        assert(inventory.pending_updates() =~= log0 + cart_log(ps0, items@));
    }
    success
}

/// A cart whose units are all reserved is checked out in full: every line
/// names a product of the catalogue and, for each product, its lines ask
/// for no more units than it has reserved. Then every purchase goes through
/// and each product loses those units from both stock and reserved.
pub proof fn law_reserved_cart_checks_out(ps: Seq<Product>, items: Seq<BulkOrderItem>)
    requires
        catalog_wf(ps),
        forall|m: int| 0 <= m < items.len() ==> in_catalog(ps, #[trigger] items[m].product_id@),
        forall|j: int| 0 <= j < ps.len() ==> total_quantity(items, ps[j].id@) <= ps[j].reserved,
    ensures
        checkout_run(ps, items).1,
        cart_catalog(ps, items) == ps.map_values(|p: Product|
            with_levels(
                p,
                (p.stock - total_quantity(items, p.id@)) as u32,
                (p.reserved - total_quantity(items, p.id@)) as u32,
            )),
{
    let freed = ps.map_values(|p: Product| with_reserved(p, (p.reserved - total_quantity(items, p.id@)) as u32));
    assert forall|j: int| 0 <= j < freed.len() implies
        freed[j].reserved + total_quantity(items, freed[j].id@) <= freed[j].stock
        && #[trigger] ps[j] == with_reserved(freed[j], (freed[j].reserved + total_quantity(items, freed[j].id@)) as u32)
    by {
        lemma_total_nonneg(items, ps[j].id@);
    }
    assert forall|m: int| 0 <= m < items.len() implies in_catalog(freed, #[trigger] items[m].product_id@) by {
        assert(in_catalog(ps, items[m].product_id@));
        let j = choose|j: int| 0 <= j < ps.len() && ps[j].id@ == items[m].product_id@;
        assert(freed[j].id@ == ps[j].id@);
    }
    lemma_checkout_runs_through(freed, ps, items, items.len() as int);
    assert(items.take(items.len() as int) =~= items);
    lemma_purchase_all(freed, ps, items, items.len() as int);
    let target = ps.map_values(|p: Product|
        with_levels(
            p,
            (p.stock - total_quantity(items, p.id@)) as u32,
            (p.reserved - total_quantity(items, p.id@)) as u32,
        ));
    assert forall|j: int| 0 <= j < ps.len() implies purchase_all(ps, items)[j] == target[j] by {
        lemma_total_nonneg(items, ps[j].id@);
    }
    assert(purchase_all(ps, items) =~= target);
}

/// While every purchase goes through, a checkout is the plain purchase of
/// its lines.
proof fn lemma_checkout_runs_through(freed: Seq<Product>, ps: Seq<Product>, items: Seq<BulkOrderItem>, k: int)
    requires
        0 <= k <= items.len(),
        ps.len() == freed.len(),
        forall|j: int| 0 <= j < freed.len() ==> freed[j].reserved + total_quantity(items, freed[j].id@) <= freed[j].stock,
        forall|j: int| 0 <= j < freed.len() ==> #[trigger] ps[j] == with_reserved(
            freed[j],
            (freed[j].reserved + total_quantity(items, freed[j].id@)) as u32,
        ),
        forall|m: int| 0 <= m < items.len() ==> in_catalog(freed, #[trigger] items[m].product_id@),
    ensures
        checkout_run(ps, items.take(k)) == (purchase_all(ps, items.take(k)), true),
    decreases k,
{
    if k == 0 {
        assert(items.take(0) =~= Seq::<BulkOrderItem>::empty());
    } else {
        lemma_checkout_runs_through(freed, ps, items, k - 1);
        lemma_purchase_all(freed, ps, items, k - 1);
        lemma_purchase_all(freed, ps, items, k);
        assert(items.take(k).drop_last() =~= items.take(k - 1));
    }
}

} // verus!
