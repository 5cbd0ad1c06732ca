use shared::models::{AppConfig, AppState, Item, ItemCollection, Priority, ThemeMode};

fn item(id: &str, completed: bool, priority: Priority) -> Item {
    let mut it = Item::new(id, &format!("title {}", id), "", priority);
    it.completed = completed;
    it
}

#[test]
fn theme_toggle_and_dark() {
    assert!(ThemeMode::Dark.is_dark());
    assert!(!ThemeMode::Light.is_dark());
    assert_eq!(ThemeMode::Dark.toggle(), ThemeMode::Light);
    assert_eq!(ThemeMode::Light.toggle(), ThemeMode::Dark);
    assert_eq!(ThemeMode::Dark.toggle().toggle(), ThemeMode::Dark);
    assert_eq!(ThemeMode::default(), ThemeMode::Dark);
}

#[test]
fn theme_names_round_trip() {
    assert_eq!(ThemeMode::Dark.as_str(), "dark");
    assert_eq!(ThemeMode::Light.as_str(), "light");
    assert_eq!(ThemeMode::from_name(ThemeMode::Light.as_str()), ThemeMode::Light);
    assert_eq!(ThemeMode::from_name(ThemeMode::Dark.as_str()), ThemeMode::Dark);
    assert_eq!(ThemeMode::from_name("LIGHT"), ThemeMode::Dark);
    assert_eq!(ThemeMode::from_name(""), ThemeMode::Dark);
}

#[test]
fn priority_labels_and_classes() {
    assert_eq!(Priority::Low.label(), "Low");
    assert_eq!(Priority::Medium.label(), "Medium");
    assert_eq!(Priority::High.label(), "High");
    assert_eq!(Priority::Critical.label(), "Critical");
    assert_eq!(Priority::Low.badge_class(), "priority-low");
    assert_eq!(Priority::Medium.badge_class(), "priority-medium");
    assert_eq!(Priority::High.badge_class(), "priority-high");
    assert_eq!(Priority::Critical.badge_class(), "priority-critical");
    assert_eq!(Priority::default(), Priority::Medium);
    assert!(Priority::Low < Priority::Medium);
    assert!(Priority::High < Priority::Critical);
}

#[test]
fn item_new_is_pending_at_zero() {
    let it = Item::new("a", "Title", "Desc", Priority::High);
    assert_eq!(it.id, "a");
    assert_eq!(it.title, "Title");
    assert_eq!(it.description, "Desc");
    assert_eq!(it.priority, Priority::High);
    assert!(!it.completed);
    assert_eq!(it.created_at, 0);
}

#[test]
fn sample_data_contents() {
    let c = ItemCollection::with_sample_data();
    assert_eq!(c.items.len(), 4);
    assert_eq!(c.items[0].id, "item-1");
    assert_eq!(c.items[0].title, "Deploy Serverless WebApp");
    assert_eq!(c.items[0].priority, Priority::Critical);
    assert_eq!(c.items[1].title, "Configure Native Desktop (Tauri)");
    assert_eq!(c.items[2].description, "Check Service Worker caching strategy for offline web support");
    assert!(c.items[2].completed);
    assert_eq!(c.items[3].id, "item-4");
    assert_eq!(c.items[3].created_at, 4);
    assert_eq!(c.total_count(), 4);
    assert_eq!(c.completed_count(), 1);
    assert_eq!(c.pending_count(), 3);
    assert_eq!(c.high_priority_count(), 2);
}

#[test]
fn new_collection_is_empty() {
    let c = ItemCollection::new();
    assert_eq!(c.total_count(), 0);
    assert_eq!(c.completed_count(), 0);
    assert_eq!(c.pending_count(), 0);
    assert_eq!(c.high_priority_count(), 0);
    assert_eq!(ItemCollection::default().total_count(), 0);
}

#[test]
fn add_appends_at_end() {
    let mut c = ItemCollection::new();
    c.add(item("x", false, Priority::Low));
    c.add(item("y", true, Priority::High));
    assert_eq!(c.total_count(), 2);
    assert_eq!(c.items[0].id, "x");
    assert_eq!(c.items[1].id, "y");
}

#[test]
fn remove_takes_first_match_only() {
    let mut c = ItemCollection::new();
    c.add(item("a", false, Priority::Low));
    c.add(item("b", false, Priority::Medium));
    c.add(item("a", true, Priority::High));
    assert!(c.remove("a"));
    assert_eq!(c.total_count(), 2);
    assert_eq!(c.items[0].id, "b");
    assert_eq!(c.items[1].id, "a");
    assert!(c.items[1].completed);
    assert!(!c.remove("zzz"));
    assert_eq!(c.total_count(), 2);
}

#[test]
fn add_then_remove_restores() {
    let mut c = ItemCollection::with_sample_data();
    let before = c.clone();
    c.add(item("fresh", false, Priority::Low));
    assert!(c.remove("fresh"));
    assert_eq!(c, before);
}

#[test]
fn toggle_flips_first_match() {
    let mut c = ItemCollection::new();
    c.add(item("a", false, Priority::Low));
    c.add(item("a", false, Priority::Low));
    c.toggle_completed("a");
    assert!(c.items[0].completed);
    assert!(!c.items[1].completed);
    c.toggle_completed("a");
    assert!(!c.items[0].completed);
    c.toggle_completed("missing");
    assert!(!c.items[0].completed && !c.items[1].completed);
}

#[test]
fn toggle_twice_restores() {
    let mut c = ItemCollection::with_sample_data();
    let before = c.clone();
    c.toggle_completed("item-3");
    assert!(!c.items[2].completed);
    c.toggle_completed("item-3");
    assert_eq!(c, before);
}

#[test]
fn counts_partition_and_urgent() {
    let mut c = ItemCollection::new();
    c.add(item("1", false, Priority::Critical));
    c.add(item("2", true, Priority::Critical));
    c.add(item("3", false, Priority::High));
    c.add(item("4", false, Priority::Medium));
    c.add(item("5", true, Priority::Low));
    assert_eq!(c.completed_count(), 2);
    assert_eq!(c.pending_count(), 3);
    assert_eq!(c.completed_count() + c.pending_count(), c.total_count());
    assert_eq!(c.high_priority_count(), 2);
}

#[test]
fn default_config_and_states() {
    let config = AppConfig::default();
    assert_eq!(config.theme, ThemeMode::Dark);
    assert!(config.auto_save);
    assert!(config.show_completed);
    assert_eq!(config.filter_priority, None);
    assert_eq!(config.search_query, "");
    let state = AppState::new();
    assert_eq!(state.collection, ItemCollection::with_sample_data());
    assert_eq!(state.config, config);
    let empty = AppState::default();
    assert_eq!(empty.collection.total_count(), 0);
    assert_eq!(empty.config, config);
}
