//! Laws that relate the operations of the domain model.

use vstd::prelude::*;
use crate::export::{
    CsvError, collect_items, csv_fields, data_lines, field_or, fields_from, import_csv,
    lemma_collect_items_error,
    line_item,
};
use crate::listing::{drafted, visible_items};
use crate::storage::{StorageDiagnostics, StorageWarning, warning_for};
use crate::text::{lower_text, trim};
use crate::models::{
    ItemView, Priority, ThemeMode, completed_total, has_id, id_position, lemma_id_position, pending_total,
    toggled_id, urgent_total, without_id,
};

verus! {

/// Toggling the theme twice gives the theme back, and toggling always changes it.
pub proof fn law_theme_toggle_involutive(mode: ThemeMode)
    ensures
        mode.toggled().toggled() == mode,
        mode.toggled() != mode,
{
}

/// A theme read back from its stored name is the theme that was stored.
pub proof fn law_theme_name_round_trip(mode: ThemeMode)
    ensures
        (if mode.name() == "light"@ {
            ThemeMode::Light
        } else {
            ThemeMode::Dark
        }) == mode,
{
    reveal_strlit("dark");
    reveal_strlit("light");
    assert("dark"@[0] != "light"@[0]);
}

/// Every item is either completed or pending: the two counts add up to the total.
pub proof fn law_completed_plus_pending(items: Seq<ItemView>)
    ensures
        completed_total(items) + pending_total(items) == items.len(),
    decreases items.len(),
{
    if items.len() > 0 {
        law_completed_plus_pending(items.drop_last());
    }
}

/// The high-priority count only counts pending items.
pub proof fn law_urgent_at_most_pending(items: Seq<ItemView>)
    ensures
        urgent_total(items) <= pending_total(items),
    decreases items.len(),
{
    if items.len() > 0 {
        law_urgent_at_most_pending(items.drop_last());
    }
}

/// Removing an id that is present takes out exactly one item; removing an absent id changes
/// nothing.
pub proof fn law_remove_length(items: Seq<ItemView>, id: Seq<char>)
    ensures
        has_id(items, id) ==> without_id(items, id).len() + 1 == items.len(),
        !has_id(items, id) ==> without_id(items, id) == items,
{
    lemma_id_position(items, id);
}

/// After a removal the removed item is the first one with that id, and the items before it
/// are kept in place.
pub proof fn law_remove_takes_first(items: Seq<ItemView>, id: Seq<char>)
    requires
        has_id(items, id),
    ensures
        exists|p: int|
            0 <= p < items.len() && items[p].id == id && (forall|j: int|
                0 <= j < p ==> #[trigger] items[j].id != id) && without_id(items, id)
                == items.remove(p),
{
    lemma_id_position(items, id);
    let p = id_position(items, id) as int;
    assert(0 <= p < items.len() && items[p].id == id && (forall|j: int|
        0 <= j < p ==> #[trigger] items[j].id != id) && without_id(items, id) == items.remove(p));
}

/// Adding an item whose id is not yet used and then removing that id gives back the
/// collection as it was.
pub proof fn law_add_then_remove(items: Seq<ItemView>, item: ItemView)
    requires
        !has_id(items, item.id),
    ensures
        without_id(items.push(item), item.id) == items,
{
    let grown = items.push(item);
    lemma_id_position(items, item.id);
    lemma_id_position(grown, item.id);
    assert forall|j: int| 0 <= j < items.len() implies #[trigger] grown[j].id != item.id by {
        assert(grown[j] == items[j]);
    }
    assert(has_id(grown, item.id)) by {
        assert(grown[items.len() as int].id == item.id);
    }
    let p = id_position(grown, item.id) as int;
    if p < items.len() {
        assert(grown[p].id != item.id);
    }
    assert(p == items.len());
    assert(grown.remove(p) =~= items);
}

/// Toggling the completion of the same id twice gives back the collection.
pub proof fn law_toggle_twice(items: Seq<ItemView>, id: Seq<char>)
    ensures
        toggled_id(toggled_id(items, id), id) == items,
{
    let once = toggled_id(items, id);
    lemma_id_position(items, id);
    lemma_id_position(once, id);
    let p = id_position(items, id) as int;
    if p < items.len() {
        let q = id_position(once, id) as int;
        assert(once[p].id == id);
        assert forall|j: int| 0 <= j < p implies #[trigger] once[j].id != id by {
            assert(once[j] == items[j]);
        }
        if q < p {
            assert(once[q].id != id);
        }
        assert(q == p);
        assert(toggled_id(once, id) =~= items);
    } else {
        assert(once == items);
    }
}

/// With an empty query, no priority filter and completed items shown, the list shows every
/// item in order.
pub proof fn law_filter_shows_all(items: Seq<ItemView>)
    ensures
        visible_items(items, Seq::empty(), None, true) == items,
    decreases items.len(),
{
    if items.len() > 0 {
        law_filter_shows_all(items.drop_last());
        assert(items.drop_last().push(items.last()) =~= items);
    }
}

/// Hiding completed items, with no query and no priority filter, shows as many items as the
/// pending count.
pub proof fn law_hidden_completed_matches_pending(items: Seq<ItemView>)
    ensures
        visible_items(items, Seq::empty(), None, false).len() == pending_total(items),
    decreases items.len(),
{
    if items.len() > 0 {
        law_hidden_completed_matches_pending(items.drop_last());
    }
}

/// Whether the priority field of a CSV line names no priority: once lowercased it is not
/// `low`, `medium`, `high` or `critical`.
pub open spec fn unknown_priority(line: Seq<char>) -> bool {
    let p = lower_text(field_or(csv_fields(trim(line)), 3, "Medium"@));
    trim(line).len() > 0 && p != "low"@ && p != "medium"@ && p != "high"@ && p != "critical"@
}

proof fn lemma_fields_not_empty(
    rest: Seq<char>,
    quoted: bool,
    current: Seq<char>,
    done: Seq<Seq<char>>,
)
    ensures
        fields_from(rest, quoted, current, done).len() > done.len(),
    decreases rest.len(),
{
    if rest.len() > 0 {
        let c = rest[0];
        if c == '"' && quoted {
            if rest.len() > 1 && rest[1] == '"' {
                lemma_fields_not_empty(rest.skip(2), true, current.push('"'), done);
            } else {
                lemma_fields_not_empty(rest.skip(1), false, current, done);
            }
        } else if c == '"' {
            lemma_fields_not_empty(rest.skip(1), true, current, done);
        } else if c == ',' && !quoted {
            lemma_fields_not_empty(rest.skip(1), false, Seq::empty(), done.push(trim(current)));
        } else {
            lemma_fields_not_empty(rest.skip(1), quoted, current.push(c), done);
        }
    }
}

/// A CSV line is read without error exactly when its priority field names a priority.
pub proof fn law_line_error_iff_unknown_priority(line: Seq<char>)
    ensures
        line_item(line) is Err <==> unknown_priority(line),
        line_item(line) is Err ==> line_item(line) == Err::<Option<ItemView>, CsvError>(
            CsvError::InvalidPriority(lower_text(field_or(csv_fields(trim(line)), 3, "Medium"@))),
        ),
{
    lemma_fields_not_empty(trim(line), false, Seq::empty(), Seq::empty());
}

proof fn lemma_collect_prefix_ok(lines: Seq<Seq<char>>, n: int)
    requires
        0 <= n <= lines.len(),
        forall|j: int| 0 <= j < n ==> !unknown_priority(#[trigger] lines[j]),
    ensures
        collect_items(lines.take(n)) is Ok,
    decreases n,
{
    if n > 0 {
        lemma_collect_prefix_ok(lines, n - 1);
        assert(lines.take(n).drop_last() == lines.take(n - 1));
        assert(lines.take(n).last() == lines[n - 1]);
        law_line_error_iff_unknown_priority(lines[n - 1]);
    }
}

/// Importing CSV text whose data lines include one with an unknown priority fails, with the
/// lowercased priority of the first such line, whatever valid lines come before it: no item
/// of the text is imported.
pub proof fn law_import_rejects_unknown_priority(text: Seq<char>, k: int)
    requires
        trim(text).len() > 0,
        0 <= k < data_lines(trim(text)).len(),
        unknown_priority(data_lines(trim(text))[k]),
        forall|j: int| 0 <= j < k ==> !unknown_priority(#[trigger] data_lines(trim(text))[j]),
    ensures
        import_csv(text) == Err::<Seq<ItemView>, CsvError>(
            CsvError::InvalidPriority(
                lower_text(field_or(csv_fields(trim(data_lines(trim(text))[k])), 3, "Medium"@)),
            ),
        ),
{
    let data = data_lines(trim(text));
    lemma_collect_prefix_ok(data, k);
    law_line_error_iff_unknown_priority(data[k]);
    assert(data.take(k + 1).drop_last() == data.take(k));
    assert(data.take(k + 1).last() == data[k]);
    lemma_collect_items_error(data, k + 1);
}

/// A successful CSV import means that every data line named a known priority.
pub proof fn law_import_ok_means_all_lines_valid(text: Seq<char>)
    ensures
        import_csv(text) is Ok ==> forall|j: int|
            0 <= j < data_lines(trim(text)).len() ==> !unknown_priority(
                #[trigger] data_lines(trim(text))[j],
            ),
{
    if import_csv(text) is Ok {
        let data = data_lines(trim(text));
        assert forall|j: int| 0 <= j < data.len() implies !unknown_priority(
            #[trigger] data[j],
        ) by {
            if unknown_priority(data[j]) {
                let k = choose_first_unknown(data, j);
                law_import_rejects_unknown_priority(text, k);
            }
        }
    }
}

/// The first line up to `j` with an unknown priority, given that line `j` has one.
proof fn choose_first_unknown(lines: Seq<Seq<char>>, j: int) -> (k: int)
    requires
        0 <= j < lines.len(),
        unknown_priority(lines[j]),
    ensures
        0 <= k <= j,
        unknown_priority(lines[k]),
        forall|i: int| 0 <= i < k ==> !unknown_priority(#[trigger] lines[i]),
    decreases j,
{
    if exists|i: int| 0 <= i < j && unknown_priority(#[trigger] lines[i]) {
        let i = choose|i: int| 0 <= i < j && unknown_priority(#[trigger] lines[i]);
        choose_first_unknown(lines, i)
    } else {
        j
    }
}

/// The item list shows only items of the collection; with completed items hidden none of them
/// is completed, whatever the query and the priority filter; with a priority filter all of
/// them have that priority.
pub proof fn law_filter_respects_switches(
    items: Seq<ItemView>,
    query: Seq<char>,
    priority: Option<Priority>,
    show_completed: bool,
)
    ensures
        visible_items(items, query, priority, show_completed).len() <= items.len(),
        forall|i: int|
            0 <= i < visible_items(items, query, priority, show_completed).len() ==> {
                let it = #[trigger] visible_items(items, query, priority, show_completed)[i];
                &&& items.contains(it)
                &&& !show_completed ==> !it.completed
                &&& priority matches Some(p) ==> it.priority == p
            },
    decreases items.len(),
{
    if items.len() > 0 {
        let init = items.drop_last();
        law_filter_respects_switches(init, query, priority, show_completed);
        let shown = visible_items(items, query, priority, show_completed);
        let before = visible_items(init, query, priority, show_completed);
        assert forall|i: int| 0 <= i < shown.len() implies {
            let it = #[trigger] shown[i];
            &&& items.contains(it)
            &&& !show_completed ==> !it.completed
            &&& priority matches Some(p) ==> it.priority == p
        } by {
            if i < before.len() {
                assert(shown[i] == before[i]);
                let k = choose|k: int| 0 <= k < init.len() && init[k] == before[i];
                assert(items[k] == init[k]);
            } else {
                assert(shown[i] == items.last());
                assert(items[items.len() - 1] == items.last());
            }
        }
    }
}

/// Toggling an id that is present flips the completion of the first item with that id,
/// whatever its priority, and changes nothing else; toggling an absent id changes nothing.
pub proof fn law_toggle_flips_first(items: Seq<ItemView>, id: Seq<char>)
    ensures
        toggled_id(items, id).len() == items.len(),
        !has_id(items, id) ==> toggled_id(items, id) == items,
        forall|p: int|
            0 <= p < items.len() && items[p].id == id && (forall|j: int|
                0 <= j < p ==> #[trigger] items[j].id != id) ==> {
                &&& toggled_id(items, id)[p] == ItemView {
                    completed: !items[p].completed,
                    ..items[p]
                }
                &&& forall|j: int|
                    0 <= j < items.len() && j != p ==> #[trigger] toggled_id(items, id)[j]
                        == items[j]
            },
{
    lemma_id_position(items, id);
    assert forall|p: int|
        0 <= p < items.len() && items[p].id == id && (forall|j: int|
            0 <= j < p ==> #[trigger] items[j].id != id) implies {
        &&& toggled_id(items, id)[p] == ItemView { completed: !items[p].completed, ..items[p] }
        &&& forall|j: int|
            0 <= j < items.len() && j != p ==> #[trigger] toggled_id(items, id)[j] == items[j]
    } by {
        let q = id_position(items, id) as int;
        if q < p {
            assert(items[q].id != id);
        }
        if p < q {
            assert(items[p].id != id);
        }
        assert(q == p);
    }
}

/// The item form makes an item exactly when the trimmed title is not empty, whatever the
/// description, an empty one included; the item carries the trimmed title and description,
/// the priority and creation time given, and is pending.
pub proof fn law_draft_needs_only_title(
    title: Seq<char>,
    description: Seq<char>,
    priority: Priority,
    id_stamp: u64,
    created_at: u64,
)
    ensures
        drafted(title, description, priority, id_stamp, created_at) is Some <==> trim(title).len()
            > 0,
        drafted(title, description, priority, id_stamp, created_at) matches Some(it) ==> {
            &&& it.title == trim(title)
            &&& it.description == trim(description)
            &&& it.priority == priority
            &&& !it.completed
            &&& it.created_at == created_at
        },
{
}

/// A full quota is always reported unless its warning was dismissed; on storage that is not
/// ephemeral it is reported as the quota warning. Ephemeral storage is always reported
/// unless both of its warnings were dismissed, and nothing is reported with no problem.
pub proof fn law_warning_reports_problems(
    diag: StorageDiagnostics,
    dismissed_combined: bool,
    dismissed_ephemeral: bool,
    dismissed_quota: bool,
)
    ensures
        diag.quota_exceeded && !dismissed_quota ==> warning_for(
            diag,
            dismissed_combined,
            dismissed_ephemeral,
            dismissed_quota,
        ) is Some,
        diag.quota_exceeded && !dismissed_quota && diag.is_persisted != Some(false)
            ==> warning_for(diag, dismissed_combined, dismissed_ephemeral, dismissed_quota)
            == Some(StorageWarning::QuotaExceeded),
        diag.is_persisted == Some(false) && !dismissed_ephemeral ==> warning_for(
            diag,
            dismissed_combined,
            dismissed_ephemeral,
            dismissed_quota,
        ) is Some,
        !diag.quota_exceeded && diag.is_persisted != Some(false) ==> warning_for(
            diag,
            dismissed_combined,
            dismissed_ephemeral,
            dismissed_quota,
        ) is None,
{
}

} // verus!
