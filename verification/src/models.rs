//! Domain models and core state definitions.

use vstd::prelude::*;

verus! {

/// Theme preference mode.
#[derive(Debug, Clone, Copy, PartialEq, Eq, Structural)]
pub enum ThemeMode {
    Dark,
    Light,
}

impl Default for ThemeMode {
    fn default() -> (mode: Self)
        ensures
            mode == ThemeMode::Dark,
    {
        ThemeMode::Dark
    }
}

impl ThemeMode {
    pub fn is_dark(self) -> (dark: bool)
        ensures
            dark == (self == ThemeMode::Dark),
    {
        matches!(self, ThemeMode::Dark)
    }

    pub open spec fn toggled(self) -> ThemeMode {
        match self {
            ThemeMode::Dark => ThemeMode::Light,
            ThemeMode::Light => ThemeMode::Dark,
        }
    }

    /// The stored name of the theme.
    pub open spec fn name(self) -> Seq<char> {
        match self {
            ThemeMode::Dark => "dark"@,
            ThemeMode::Light => "light"@,
        }
    }

    /// The stored name of the theme: `dark` or `light`.
    pub fn as_str(self) -> (name: &'static str)
        ensures
            name@ == self.name(),
    {
        match self {
            ThemeMode::Dark => "dark",
            ThemeMode::Light => "light",
        }
    }

    /// The theme a stored name names: `light` is the light theme, anything else the dark one.
    pub fn from_name(name: &str) -> (mode: Self)
        ensures
            mode == (if name@ == "light"@ {
                ThemeMode::Light
            } else {
                ThemeMode::Dark
            }),
    {
        if crate::text::str_equal(name, "light") {
            ThemeMode::Light
        } else {
            ThemeMode::Dark
        }
    }

    pub fn toggle(self) -> (next: Self)
        ensures
            next == self.toggled(),
    {
        match self {
            ThemeMode::Dark => ThemeMode::Light,
            ThemeMode::Light => ThemeMode::Dark,
        }
    }
}

/// Task item priority level.
#[derive(Debug, Clone, Copy, PartialEq, Eq, Structural, PartialOrd, Ord, Hash)]
pub enum Priority {
    Low,
    Medium,
    High,
    Critical,
}

pub open spec fn priority_label(p: Priority) -> Seq<char> {
    match p {
        Priority::Low => seq!['L', 'o', 'w'],
        Priority::Medium => seq!['M', 'e', 'd', 'i', 'u', 'm'],
        Priority::High => seq!['H', 'i', 'g', 'h'],
        Priority::Critical => seq!['C', 'r', 'i', 't', 'i', 'c', 'a', 'l'],
    }
}

impl Priority {
    pub fn label(self) -> (text: &'static str)
        ensures
            text@ == priority_label(self),
    {
        match self {
            Priority::Low => {
                proof { reveal_strlit("Low"); }
                "Low"
            },
            Priority::Medium => {
                proof { reveal_strlit("Medium"); }
                "Medium"
            },
            Priority::High => {
                proof { reveal_strlit("High"); }
                "High"
            },
            Priority::Critical => {
                proof { reveal_strlit("Critical"); }
                "Critical"
            },
        }
    }

    pub fn badge_class(self) -> (class: &'static str)
        ensures
            class@ == priority_badge_class(self),
    {
        match self {
            Priority::Low => "priority-low",
            Priority::Medium => "priority-medium",
            Priority::High => "priority-high",
            Priority::Critical => "priority-critical",
        }
    }
}

impl Default for Priority {
    fn default() -> (p: Self)
        ensures
            p == Priority::Medium,
    {
        Priority::Medium
    }
}

pub open spec fn priority_badge_class(p: Priority) -> Seq<char> {
    match p {
        Priority::Low => "priority-low"@,
        Priority::Medium => "priority-medium"@,
        Priority::High => "priority-high"@,
        Priority::Critical => "priority-critical"@,
    }
}


/// What an item holds, as plain values.
pub struct ItemView {
    pub id: Seq<char>,
    pub title: Seq<char>,
    pub description: Seq<char>,
    pub priority: Priority,
    pub completed: bool,
    pub created_at: u64,
}

/// Core domain item.
#[derive(Debug, Clone, PartialEq, Eq)]
pub struct Item {
    pub id: String,
    pub title: String,
    pub description: String,
    pub priority: Priority,
    pub completed: bool,
    pub created_at: u64,
}

impl View for Item {
    type V = ItemView;

    open spec fn view(&self) -> ItemView {
        ItemView {
            id: self.id@,
            title: self.title@,
            description: self.description@,
            priority: self.priority,
            completed: self.completed,
            created_at: self.created_at,
        }
    }
}

impl Item {
    /// A pending item created at time zero.
    pub fn new(id: &str, title: &str, description: &str, priority: Priority) -> (item: Self)
        ensures
            item@ == (ItemView {
                id: id@,
                title: title@,
                description: description@,
                priority,
                completed: false,
                created_at: 0,
            }),
    {
        Item {
            id: id.to_owned(),
            title: title.to_owned(),
            description: description.to_owned(),
            priority,
            completed: false,
            created_at: 0,
        }
    }
}

/// The views of a sequence of items.
pub open spec fn item_views(items: Seq<Item>) -> Seq<ItemView> {
    items.map_values(|it: Item| it@)
}

/// Position of the first item whose id is `id`; the length of `items` when there is none.
pub open spec fn id_position(items: Seq<ItemView>, id: Seq<char>) -> nat
    decreases items.len(),
{
    if items.len() == 0 {
        0
    } else if items[0].id == id {
        0
    } else {
        1 + id_position(items.drop_first(), id)
    }
}

/// Whether some item has the id `id`.
pub open spec fn has_id(items: Seq<ItemView>, id: Seq<char>) -> bool {
    exists|i: int| 0 <= i < items.len() && #[trigger] items[i].id == id
}

/// `id_position` is the first matching position, or the length when nothing matches.
pub proof fn lemma_id_position(items: Seq<ItemView>, id: Seq<char>)
    ensures
        id_position(items, id) <= items.len(),
        id_position(items, id) < items.len() ==> items[id_position(items, id) as int].id == id,
        forall|j: int| 0 <= j < id_position(items, id) ==> #[trigger] items[j].id != id,
        has_id(items, id) <==> id_position(items, id) < items.len(),
    decreases items.len(),
{
    if items.len() > 0 && items[0].id != id {
        let rest = items.drop_first();
        lemma_id_position(rest, id);
        assert forall|j: int| 0 <= j < id_position(items, id) implies #[trigger] items[j].id != id by {
            if j > 0 {
                assert(items[j] == rest[j - 1]);
            }
        }
        if has_id(items, id) {
            let i = choose|i: int| 0 <= i < items.len() && #[trigger] items[i].id == id;
            assert(rest[i - 1].id == id);
        }
        if id_position(items, id) < items.len() {
            assert(items[id_position(items, id) as int] == rest[id_position(rest, id) as int]);
        }
    } else if items.len() > 0 {
        assert(items[0].id == id);
    }
}

/// The items with the first one whose id is `id` taken out; unchanged when there is none.
pub open spec fn without_id(items: Seq<ItemView>, id: Seq<char>) -> Seq<ItemView> {
    let p = id_position(items, id);
    if p < items.len() {
        items.remove(p as int)
    } else {
        items
    }
}

/// The items with the completion of the first one whose id is `id` flipped.
pub open spec fn toggled_id(items: Seq<ItemView>, id: Seq<char>) -> Seq<ItemView> {
    let p = id_position(items, id);
    if p < items.len() {
        items.update(p as int, ItemView { completed: !items[p as int].completed, ..items[p as int] })
    } else {
        items
    }
}

/// Number of completed items.
pub open spec fn completed_total(items: Seq<ItemView>) -> nat
    decreases items.len(),
{
    if items.len() == 0 {
        0
    } else {
        completed_total(items.drop_last()) + if items.last().completed {
            1nat
        } else {
            0nat
        }
    }
}

/// Number of items not yet completed.
pub open spec fn pending_total(items: Seq<ItemView>) -> nat
    decreases items.len(),
{
    if items.len() == 0 {
        0
    } else {
        pending_total(items.drop_last()) + if !items.last().completed {
            1nat
        } else {
            0nat
        }
    }
}

/// Whether an item is pending with priority `High` or `Critical`.
pub open spec fn is_urgent(item: ItemView) -> bool {
    !item.completed && (item.priority == Priority::High || item.priority == Priority::Critical)
}

/// Number of pending items of priority `High` or `Critical`.
pub open spec fn urgent_total(items: Seq<ItemView>) -> nat
    decreases items.len(),
{
    if items.len() == 0 {
        0
    } else {
        urgent_total(items.drop_last()) + if is_urgent(items.last()) {
            1nat
        } else {
            0nat
        }
    }
}

/// Collection wrapper for item operations.
#[derive(Debug, Clone, PartialEq, Eq)]
pub struct ItemCollection {
    pub items: Vec<Item>,
}

impl View for ItemCollection {
    type V = Seq<ItemView>;

    open spec fn view(&self) -> Seq<ItemView> {
        item_views(self.items@)
    }
}

impl Default for ItemCollection {
    fn default() -> (c: Self)
        ensures
            c@ == Seq::<ItemView>::empty(),
    {
        ItemCollection::new()
    }
}

/// The four items of the sample data set.
pub open spec fn sample_items() -> Seq<ItemView> {
    seq![
        ItemView {
            id: "item-1"@,
            title: "Deploy Serverless WebApp"@,
            description: "Publish high-performance WASM application directly to Cloudflare Pages"@,
            priority: Priority::Critical,
            completed: false,
            created_at: 1,
        },
        ItemView {
            id: "item-2"@,
            title: "Configure Native Desktop (Tauri)"@,
            description: "Verify cross-platform desktop compilation and local asset loading"@,
            priority: Priority::High,
            completed: false,
            created_at: 2,
        },
        ItemView {
            id: "item-3"@,
            title: "Verify Offline PWA Caching"@,
            description: "Check Service Worker caching strategy for offline web support"@,
            priority: Priority::Medium,
            completed: true,
            created_at: 3,
        },
        ItemView {
            id: "item-4"@,
            title: "Test JSON & CSV Interchange"@,
            description: "Import and export data with clipboard toasts and direct downloads"@,
            priority: Priority::Low,
            completed: false,
            created_at: 4,
        },
    ]
}

impl ItemCollection {
    pub fn with_sample_data() -> (c: Self)
        ensures
            c@ == sample_items(),
    {
        let mut items: Vec<Item> = Vec::new();
        items.push(
            Item {
                id: "item-1".to_owned(),
                title: "Deploy Serverless WebApp".to_owned(),
                description: "Publish high-performance WASM application directly to Cloudflare Pages".to_owned(),
                priority: Priority::Critical,
                completed: false,
                created_at: 1,
            },
        );
        items.push(
            Item {
                id: "item-2".to_owned(),
                title: "Configure Native Desktop (Tauri)".to_owned(),
                description: "Verify cross-platform desktop compilation and local asset loading".to_owned(),
                priority: Priority::High,
                completed: false,
                created_at: 2,
            },
        );
        items.push(
            Item {
                id: "item-3".to_owned(),
                title: "Verify Offline PWA Caching".to_owned(),
                description: "Check Service Worker caching strategy for offline web support".to_owned(),
                priority: Priority::Medium,
                completed: true,
                created_at: 3,
            },
        );
        items.push(
            Item {
                id: "item-4".to_owned(),
                title: "Test JSON & CSV Interchange".to_owned(),
                description: "Import and export data with clipboard toasts and direct downloads".to_owned(),
                priority: Priority::Low,
                completed: false,
                created_at: 4,
            },
        );
        let c = ItemCollection { items };
        assert(c@ =~= sample_items());
        c
    }

    pub fn new() -> (c: Self)
        ensures
            c@ == Seq::<ItemView>::empty(),
    {
        let c = ItemCollection { items: Vec::new() };
        assert(c@ =~= Seq::<ItemView>::empty());
        c
    }

    /// Appends `item` at the end.
    pub fn add(&mut self, item: Item)
        ensures
            final(self)@ == old(self)@.push(item@),
    {
        self.items.push(item);
        assert(final(self)@ =~= old(self)@.push(item@));
    }

    /// Position of the first item with id `id`, or the number of items.
    fn position(&self, id: &str) -> (pos: usize)
        ensures
            pos == id_position(self@, id@),
    {
        proof {
            lemma_id_position(self@, id@);
        }
        let n = self.items.len();
        for i in 0..n
            invariant
                n == self.items@.len() == self@.len(),
                forall|j: int| 0 <= j < i ==> #[trigger] self@[j].id != id@,
                id_position(self@, id@) <= self@.len(),
                id_position(self@, id@) < self@.len() ==> self@[id_position(self@, id@) as int].id
                    == id@,
                forall|j: int| 0 <= j < id_position(self@, id@) ==> #[trigger] self@[j].id != id@,
        {
            assert(self@[i as int] == self.items@[i as int]@);
            if crate::text::str_equal(self.items[i].id.as_str(), id) {
                assert(self@[i as int].id == id@);
                return i;
            }
        }
        n
    }

    /// Removes the first item whose id is `id`; tells whether one was found.
    pub fn remove(&mut self, id: &str) -> (found: bool)
        ensures
            found == has_id(old(self)@, id@),
            final(self)@ == without_id(old(self)@, id@),
    {
        proof {
            lemma_id_position(self@, id@);
        }
        let pos = self.position(id);
        if pos < self.items.len() {
            self.items.remove(pos);
            assert(final(self)@ =~= without_id(old(self)@, id@));
            true
        } else {
            false
        }
    }

    /// Flips the completion of the first item whose id is `id`, if there is one.
    pub fn toggle_completed(&mut self, id: &str)
        ensures
            final(self)@ == toggled_id(old(self)@, id@),
    {
        let pos = self.position(id);
        if pos < self.items.len() {
            let mut item = self.items.remove(pos);
            item.completed = !item.completed;
            self.items.insert(pos, item);
            assert(final(self)@ =~= toggled_id(old(self)@, id@));
        }
    }

    pub fn total_count(&self) -> (n: usize)
        ensures
            n == self@.len(),
    {
        self.items.len()
    }

    pub fn completed_count(&self) -> (n: usize)
        ensures
            n == completed_total(self@),
    {
        let mut count: usize = 0;
        for i in 0..self.items.len()
            invariant
                count <= i,
                count == completed_total(self@.take(i as int)),
        {
            assert(self@.take(i + 1).drop_last() == self@.take(i as int));
            assert(self@[i as int] == self.items@[i as int]@);
            if self.items[i].completed {
                count += 1;
            }
        }
        assert(self@.take(self.items.len() as int) == self@);
        count
    }

    pub fn pending_count(&self) -> (n: usize)
        ensures
            n == pending_total(self@),
    {
        let mut count: usize = 0;
        for i in 0..self.items.len()
            invariant
                count <= i,
                count == pending_total(self@.take(i as int)),
        {
            assert(self@.take(i + 1).drop_last() == self@.take(i as int));
            assert(self@[i as int] == self.items@[i as int]@);
            if !self.items[i].completed {
                count += 1;
            }
        }
        assert(self@.take(self.items.len() as int) == self@);
        count
    }

    pub fn high_priority_count(&self) -> (n: usize)
        ensures
            n == urgent_total(self@),
    {
        let mut count: usize = 0;
        for i in 0..self.items.len()
            invariant
                count <= i,
                count == urgent_total(self@.take(i as int)),
        {
            assert(self@.take(i + 1).drop_last() == self@.take(i as int));
            assert(self@[i as int] == self.items@[i as int]@);
            let item = &self.items[i];
            if !item.completed && (matches!(item.priority, Priority::High) || matches!(
                item.priority,
                Priority::Critical
            )) {
                count += 1;
            }
        }
        assert(self@.take(self.items.len() as int) == self@);
        count
    }
}


/// Global application configuration.
#[derive(Debug, Clone, PartialEq, Eq)]
pub struct AppConfig {
    pub theme: ThemeMode,
    pub auto_save: bool,
    pub show_completed: bool,
    pub filter_priority: Option<Priority>,
    pub search_query: String,
}

impl AppConfig {
    /// Whether this is the default configuration: dark theme, auto-save on, completed items
    /// shown, no priority filter and an empty search query.
    pub open spec fn is_default(&self) -> bool {
        &&& self.theme == ThemeMode::Dark
        &&& self.auto_save
        &&& self.show_completed
        &&& self.filter_priority is None
        &&& self.search_query@ == Seq::<char>::empty()
    }
}

impl Default for AppConfig {
    fn default() -> (config: Self)
        ensures
            config.is_default(),
    {
        AppConfig {
            theme: ThemeMode::Dark,
            auto_save: true,
            show_completed: true,
            filter_priority: None,
            search_query: String::new(),
        }
    }
}

/// Root state container.
#[derive(Debug, Clone, PartialEq, Eq)]
pub struct AppState {
    pub collection: ItemCollection,
    pub config: AppConfig,
}

impl Default for AppState {
    fn default() -> (state: Self)
        ensures
            state.collection@ == Seq::<ItemView>::empty(),
            state.config.is_default(),
    {
        AppState { collection: ItemCollection::new(), config: AppConfig::default() }
    }
}

impl AppState {
    /// The initial state: the sample data set and the default configuration.
    pub fn new() -> (state: Self)
        ensures
            state.collection@ == sample_items(),
            state.config.is_default(),
    {
        AppState { collection: ItemCollection::with_sample_data(), config: AppConfig::default() }
    }
}

} // verus!
