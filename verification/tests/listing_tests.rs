use shared::listing::{draft_item, filter_from_selection, filter_items, priority_from_selection};
use shared::models::{ItemCollection, Priority};

#[test]
fn no_filter_shows_everything() {
    let c = ItemCollection::with_sample_data();
    assert_eq!(filter_items(&c, "", None, true), c.items);
}

#[test]
fn hide_completed() {
    let c = ItemCollection::with_sample_data();
    let shown = filter_items(&c, "", None, false);
    assert_eq!(shown.len(), 3);
    assert!(shown.iter().all(|i| !i.completed));
}

#[test]
fn priority_filter() {
    let c = ItemCollection::with_sample_data();
    let shown = filter_items(&c, "", Some(Priority::High), true);
    assert_eq!(shown.len(), 1);
    assert_eq!(shown[0].id, "item-2");
}

#[test]
fn search_is_case_insensitive_in_title_or_description() {
    let c = ItemCollection::with_sample_data();
    let shown = filter_items(&c, "CLOUDFLARE", None, true);
    assert_eq!(shown.len(), 1);
    assert_eq!(shown[0].id, "item-1");
    let shown = filter_items(&c, "verify", None, true);
    assert_eq!(shown.iter().map(|i| i.id.as_str()).collect::<Vec<_>>(), vec!["item-2", "item-3"]);
    assert!(filter_items(&c, "nothing-like-this", None, true).is_empty());
}

#[test]
fn draft_from_form() {
    assert!(draft_item("   ", "x", Priority::Low, 1, 2).is_none());
    let it = draft_item("  Buy milk ", " two litres ", Priority::High, 1700, 1701).unwrap();
    assert_eq!(it.id, "item-1700");
    assert_eq!(it.title, "Buy milk");
    assert_eq!(it.description, "two litres");
    assert_eq!(it.priority, Priority::High);
    assert!(!it.completed);
    assert_eq!(it.created_at, 1701);
}

#[test]
fn selections() {
    assert_eq!(priority_from_selection("Low"), Priority::Low);
    assert_eq!(priority_from_selection("High"), Priority::High);
    assert_eq!(priority_from_selection("Critical"), Priority::Critical);
    assert_eq!(priority_from_selection("Medium"), Priority::Medium);
    assert_eq!(priority_from_selection("bogus"), Priority::Medium);
    assert_eq!(filter_from_selection("All"), None);
    assert_eq!(filter_from_selection("Medium"), Some(Priority::Medium));
    assert_eq!(filter_from_selection("Critical"), Some(Priority::Critical));
}
