use marketplace::analytics::{
    generate_reorder_suggestions, low_stock_items, out_of_stock_items, units_sold, ReorderPlan,
    LOW_STOCK_THRESHOLD,
};
use marketplace::types::Product;

fn product(id: &str, stock: u32) -> Product {
    Product {
        id: id.to_string(),
        name: id.to_string(),
        description: String::new(),
        price_bits: 0,
        seller_id: "seller".to_string(),
        stock,
        reserved: 0,
    }
}

#[test]
fn stock_classes() {
    let ps = vec![product("a", 0), product("b", 1), product("c", 9), product("d", 10), product("e", 0)];
    let low: Vec<String> = low_stock_items(&ps).into_iter().map(|p| p.id).collect();
    let out: Vec<String> = out_of_stock_items(&ps).into_iter().map(|p| p.id).collect();
    assert_eq!(low, vec!["b".to_string(), "c".to_string()]);
    assert_eq!(out, vec!["a".to_string(), "e".to_string()]);
    assert_eq!(LOW_STOCK_THRESHOLD, 10);
}

#[test]
fn reorder_suggestions_for_products_below_their_level() {
    let ps = vec![product("a", 3), product("b", 7), product("c", 0)];
    let plans = vec![
        ReorderPlan { reorder_below: 7, suggested_quantity: 14 },
        ReorderPlan { reorder_below: 7, suggested_quantity: 14 },
        ReorderPlan { reorder_below: 0, suggested_quantity: 0 },
    ];
    let s = generate_reorder_suggestions(&ps, &plans);
    assert_eq!(s.len(), 1);
    assert_eq!(s[0].product_id, "a");
    assert_eq!(s[0].suggested_quantity, 14);
    assert_eq!(s[0].reason, "Low stock based on sales velocity");
}

#[test]
fn units_sold_defaults_and_truncates() {
    assert_eq!(units_sold(None), 0);
    assert_eq!(units_sold(Some(17)), 17);
    assert_eq!(units_sold(Some((1i64 << 32) + 5)), 5);
    assert_eq!(units_sold(Some(-1)), u32::MAX);
}
