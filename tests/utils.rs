use serde_arrow::utils::{Item, Items};

#[test]
fn wrappers_hold_their_values() {
    let Item(item) = Item(42u32);
    assert_eq!(item, 42);
    let Items(items) = Items(vec![13u32, 21]);
    assert_eq!(items, vec![13, 21]);
    assert_eq!(Item("a"), Item("a"));
}
