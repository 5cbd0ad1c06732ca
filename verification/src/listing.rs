//! The rules of the item list: which items a search and filter show, how a new item is
//! drafted from the form, and how the priority selectors read their values.

use vstd::prelude::*;
use crate::models::{Item, ItemCollection, ItemView, Priority, item_views};
use crate::text::{chars_of, contains_chars, has_infix, lower_text, to_lowercase, trim};

verus! {

/// Whether an item is shown: completed items only when they are shown at all, only items of
/// the chosen priority when there is one, and, for a non-empty lowercase query, only items
/// whose lowercase title or description holds the query.
pub open spec fn is_visible(
    it: ItemView,
    query: Seq<char>,
    priority: Option<Priority>,
    show_completed: bool,
) -> bool {
    &&& show_completed || !it.completed
    &&& priority matches Some(p) ==> it.priority == p
    &&& query.len() == 0 || has_infix(lower_text(it.title), query) || has_infix(
        lower_text(it.description),
        query,
    )
}

/// The shown items, in their order.
pub open spec fn visible_items(
    items: Seq<ItemView>,
    query: Seq<char>,
    priority: Option<Priority>,
    show_completed: bool,
) -> Seq<ItemView>
    decreases items.len(),
{
    if items.len() == 0 {
        Seq::empty()
    } else {
        let rest = visible_items(items.drop_last(), query, priority, show_completed);
        if is_visible(items.last(), query, priority, show_completed) {
            rest.push(items.last())
        } else {
            rest
        }
    }
}

/// A copy of an item.
pub fn copy_item(item: &Item) -> (copy: Item)
    ensures
        copy@ == item@,
{
    Item {
        id: item.id.clone(),
        title: item.title.clone(),
        description: item.description.clone(),
        priority: item.priority,
        completed: item.completed,
        created_at: item.created_at,
    }
}

/// Whether one item is shown, for an already lowercased query.
fn item_is_visible(
    item: &Item,
    query: &Vec<char>,
    priority: Option<Priority>,
    show_completed: bool,
) -> (shown: bool)
    ensures
        shown == is_visible(item@, query@, priority, show_completed),
{
    if !show_completed && item.completed {
        return false;
    }
    match priority {
        Some(p) => {
            if item.priority != p {
                return false;
            }
        },
        None => {},
    }
    if query.len() > 0 {
        let in_title = contains_chars(&chars_of(to_lowercase(item.title.as_str()).as_str()), query);
        let in_description = contains_chars(
            &chars_of(to_lowercase(item.description.as_str()).as_str()),
            query,
        );
        if !in_title && !in_description {
            return false;
        }
    }
    true
}

/// The items that a search query, a priority filter and the completed switch leave shown.
pub fn filter_items(
    collection: &ItemCollection,
    search_query: &str,
    priority: Option<Priority>,
    show_completed: bool,
) -> (shown: Vec<Item>)
    ensures
        item_views(shown@) == visible_items(
            collection@,
            lower_text(search_query@),
            priority,
            show_completed,
        ),
{
    let query = chars_of(to_lowercase(search_query).as_str());
    let mut shown: Vec<Item> = Vec::new();
    let n = collection.items.len();
    assert(item_views(shown@) =~= Seq::<ItemView>::empty());
    for i in 0..n
        invariant
            n == collection.items@.len() == collection@.len(),
            query@ == lower_text(search_query@),
            item_views(shown@) == visible_items(
                collection@.take(i as int),
                query@,
                priority,
                show_completed,
            ),
    {
        let item = &collection.items[i];
        assert(item@ == collection@[i as int]);
        assert(collection@.take(i + 1).drop_last() == collection@.take(i as int));
        assert(collection@.take(i + 1).last() == item@);
        let ghost before = item_views(shown@);
        if item_is_visible(item, &query, priority, show_completed) {
            shown.push(copy_item(item));
            assert(item_views(shown@) =~= before.push(item@));
        }
    }
    assert(collection@.take(n as int) == collection@);
    shown
}

/// What the item form makes: nothing when the trimmed title is empty, else a pending item
/// with the trimmed title and description, the id `item-` and `id_stamp`, created at
/// `created_at`.
pub open spec fn drafted(
    title: Seq<char>,
    description: Seq<char>,
    priority: Priority,
    id_stamp: u64,
    created_at: u64,
) -> Option<ItemView> {
    if trim(title).len() == 0 {
        None
    } else {
        Some(
            ItemView {
                id: "item-"@ + crate::text::decimal(id_stamp as nat),
                title: trim(title),
                description: trim(description),
                priority,
                completed: false,
                created_at,
            },
        )
    }
}

/// Makes a new item from the form fields.
pub fn draft_item(
    title: &str,
    description: &str,
    priority: Priority,
    id_stamp: u64,
    created_at: u64,
) -> (item: Option<Item>)
    ensures
        match item {
            Some(it) => drafted(title@, description@, priority, id_stamp, created_at) == Some(
                it@,
            ),
            None => drafted(title@, description@, priority, id_stamp, created_at) is None,
        },
{
    let title = crate::text::trim_str(title);
    if title.as_str().is_empty() {
        return None;
    }
    let description = crate::text::trim_str(description);
    let mut id = "item-".to_owned();
    crate::text::push_decimal(&mut id, id_stamp);
    Some(Item { id, title, description, priority, completed: false, created_at })
}

/// The priority a form selector value names; any other value is `Medium`.
pub open spec fn selected_priority(value: Seq<char>) -> Priority {
    if value == "Low"@ {
        Priority::Low
    } else if value == "High"@ {
        Priority::High
    } else if value == "Critical"@ {
        Priority::Critical
    } else {
        Priority::Medium
    }
}

/// The priority filter a filter selector value names; any other value is no filter.
pub open spec fn selected_filter(value: Seq<char>) -> Option<Priority> {
    if value == "Low"@ {
        Some(Priority::Low)
    } else if value == "Medium"@ {
        Some(Priority::Medium)
    } else if value == "High"@ {
        Some(Priority::High)
    } else if value == "Critical"@ {
        Some(Priority::Critical)
    } else {
        None
    }
}

/// Reads the priority selector of the item form.
pub fn priority_from_selection(value: &str) -> (p: Priority)
    ensures
        p == selected_priority(value@),
{
    if crate::text::str_equal(value, "Low") {
        Priority::Low
    } else if crate::text::str_equal(value, "High") {
        Priority::High
    } else if crate::text::str_equal(value, "Critical") {
        Priority::Critical
    } else {
        Priority::Medium
    }
}

/// Reads the priority selector of the filter bar.
pub fn filter_from_selection(value: &str) -> (p: Option<Priority>)
    ensures
        p == selected_filter(value@),
{
    if crate::text::str_equal(value, "Low") {
        Some(Priority::Low)
    } else if crate::text::str_equal(value, "Medium") {
        Some(Priority::Medium)
    } else if crate::text::str_equal(value, "High") {
        Some(Priority::High)
    } else if crate::text::str_equal(value, "Critical") {
        Some(Priority::Critical)
    } else {
        None
    }
}

} // verus!
