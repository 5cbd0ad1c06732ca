//! CSV interchange, error type of the import and export engines, and the framing of
//! compressed backups.

use vstd::prelude::*;
use vstd::string::StringSliceAdditionalSpecFns;
use crate::models::{Item, ItemCollection, ItemView, Priority, priority_label};
use crate::text::{
    chars_eq_ignore_ascii_case, chars_equal, chars_of, contains_chars, decimal, eq_ignore_ascii_case,
    has_infix, lower_text, parse_u64, parse_u64_spec, push_char, push_decimal, string_from_chars,
    to_lowercase, trim,
};
use vstd::utf8::encode_utf8;

verus! {

broadcast use vstd::string::group_string_axioms;

/// `serde_json::Error`, carried through unchanged.
#[verifier::external_type_specification]
#[verifier::external_body]
pub struct ExJsonError(serde_json::Error);

/// Errors of the import and export engines.
#[derive(Debug)]
pub enum ExportError {
    JsonSerialize(serde_json::Error),
    CsvParse(String),
    InvalidPriority(String),
    EmptyData,
}

/// The CSV errors as plain values.
pub enum CsvError {
    Parse(Seq<char>),
    InvalidPriority(Seq<char>),
    Empty,
}

/// Whether `e` is the error that `c` describes.
pub open spec fn is_csv_error(e: &ExportError, c: CsvError) -> bool {
    match (e, c) {
        (ExportError::CsvParse(s), CsvError::Parse(t)) => s@ == t,
        (ExportError::InvalidPriority(s), CsvError::InvalidPriority(t)) => s@ == t,
        (ExportError::EmptyData, CsvError::Empty) => true,
        _ => false,
    }
}

/// The JSON text to deserialize: the input trimmed, or `EmptyData` when nothing is left.
pub fn json_import_text(json_str: &str) -> (res: Result<String, ExportError>)
    ensures
        match res {
            Ok(t) => t@ == trim(json_str@) && t@.len() > 0,
            Err(e) => trim(json_str@).len() == 0 && e is EmptyData,
        },
{
    let trimmed = crate::text::trim_str(json_str);
    if trimmed.as_str().is_empty() {
        return Err(ExportError::EmptyData);
    }
    Ok(trimmed)
}

// ---------------------------------------------------------------------------------------
// Writing CSV
// ---------------------------------------------------------------------------------------

/// Whether a field must be quoted: it holds a comma, a quote, a line feed or a carriage return.
pub open spec fn needs_quoting(s: Seq<char>) -> bool {
    s.contains(',') || s.contains('"') || s.contains('\n') || s.contains('\r')
}

/// A character of a quoted field: a quote is doubled.
pub open spec fn quote_piece(c: char) -> Seq<char> {
    if c == '"' {
        seq!['"', '"']
    } else {
        seq![c]
    }
}

/// `s` with every quote doubled.
pub open spec fn double_quotes(s: Seq<char>) -> Seq<char>
    decreases s.len(),
{
    if s.len() == 0 {
        Seq::empty()
    } else {
        double_quotes(s.drop_last()) + quote_piece(s.last())
    }
}

/// The CSV form of one field.
pub open spec fn escape_field(s: Seq<char>) -> Seq<char> {
    if needs_quoting(s) {
        seq!['"'] + double_quotes(s) + seq!['"']
    } else {
        s
    }
}

/// Escapes one CSV field: a field holding a comma, quote, line feed or carriage return is
/// put in quotes with its quotes doubled; any other field is copied as it is.
pub fn escape_csv_field(field: &str) -> (escaped: String)
    ensures
        escaped@ == escape_field(field@),
{
    let chars = chars_of(field);
    let n = chars.len();
    let mut special = false;
    for i in 0..n
        invariant
            n == chars@.len(),
            special == exists|k: int|
                0 <= k < i && (chars@[k] == ',' || chars@[k] == '"' || chars@[k] == '\n'
                    || chars@[k] == '\r'),
    {
        let c = chars[i];
        if c == ',' || c == '"' || c == '\n' || c == '\r' {
            special = true;
        }
    }
    assert(special == needs_quoting(field@)) by {
        if special {
            let k = choose|k: int|
                0 <= k < n && (chars@[k] == ',' || chars@[k] == '"' || chars@[k] == '\n'
                    || chars@[k] == '\r');
            assert(field@[k] == chars@[k]);
        }
        if field@.contains(',') || field@.contains('"') || field@.contains('\n')
            || field@.contains('\r') {
            assert(exists|k: int|
                0 <= k < n && (chars@[k] == ',' || chars@[k] == '"' || chars@[k] == '\n'
                    || chars@[k] == '\r'));
        }
    }
    if !special {
        return string_from_chars(&chars);
    }
    let mut out = String::new();
    push_char(&mut out, '"');
    for i in 0..n
        invariant
            n == chars@.len() == field@.len(),
            chars@ == field@,
            out@ == seq!['"'] + double_quotes(field@.take(i as int)),
    {
        let c = chars[i];
        if c == '"' {
            push_char(&mut out, '"');
            push_char(&mut out, '"');
        } else {
            push_char(&mut out, c);
        }
        assert(field@.take(i + 1).drop_last() == field@.take(i as int));
        assert(out@ =~= seq!['"'] + double_quotes(field@.take(i + 1)));
    }
    push_char(&mut out, '"');
    assert(field@.take(n as int) == field@);
    out
}

/// The text of a boolean.
pub open spec fn bool_text(b: bool) -> Seq<char> {
    if b {
        "true"@
    } else {
        "false"@
    }
}

/// The CSV row of one item, ended by a line feed.
pub open spec fn csv_row(it: ItemView) -> Seq<char> {
    escape_field(it.id) + seq![','] + escape_field(it.title) + seq![','] + escape_field(
        it.description,
    ) + seq![','] + priority_label(it.priority) + seq![','] + bool_text(it.completed) + seq![',']
        + decimal(it.created_at as nat) + seq!['\n']
}

/// The header line of the CSV form.
pub open spec fn csv_header() -> Seq<char> {
    "id,title,description,priority,completed,created_at\n"@
}

/// The rows of all items, in order.
pub open spec fn csv_rows(items: Seq<ItemView>) -> Seq<char>
    decreases items.len(),
{
    if items.len() == 0 {
        Seq::empty()
    } else {
        csv_rows(items.drop_last()) + csv_row(items.last())
    }
}

/// The CSV form of a collection: the header, then one row per item.
pub open spec fn csv_text(items: Seq<ItemView>) -> Seq<char> {
    csv_header() + csv_rows(items)
}

/// The CSV row of one item.
fn csv_row_text(item: &crate::models::Item) -> (row: String)
    ensures
        row@ == csv_row(item@),
{
    proof {
        reveal_strlit(",");
        reveal_strlit("\n");
    }
    let mut out = escape_csv_field(item.id.as_str());
    let ghost a = out@;
    out.append(",");
    let title = escape_csv_field(item.title.as_str());
    out.append(title.as_str());
    out.append(",");
    let ghost b = out@;
    assert(b == escape_field(item.id@) + seq![','] + escape_field(item.title@) + seq![',']);
    let description = escape_csv_field(item.description.as_str());
    out.append(description.as_str());
    out.append(",");
    out.append(item.priority.label());
    out.append(",");
    let ghost c = out@;
    assert(c == b + escape_field(item.description@) + seq![','] + priority_label(item.priority)
        + seq![',']);
    if item.completed {
        out.append("true");
    } else {
        out.append("false");
    }
    out.append(",");
    push_decimal(&mut out, item.created_at);
    out.append("\n");
    assert(out@ =~= c + bool_text(item.completed) + seq![','] + decimal(item.created_at as nat)
        + seq!['\n']);
    out
}

/// Serializes an item collection to CSV text; it always succeeds.
pub fn export_to_csv(collection: &ItemCollection) -> (csv: Result<String, ExportError>)
    ensures
        csv matches Ok(text) && text@ == csv_text(collection@),
{
    let mut out = "id,title,description,priority,completed,created_at\n".to_owned();
    let n = collection.items.len();
    for i in 0..n
        invariant
            n == collection.items@.len() == collection@.len(),
            out@ == csv_header() + csv_rows(collection@.take(i as int)),
    {
        let item = &collection.items[i];
        assert(item@ == collection@[i as int]);
        let row = csv_row_text(item);
        out.append(row.as_str());
        assert(collection@.take(i + 1).drop_last() == collection@.take(i as int));
        assert(out@ =~= csv_header() + csv_rows(collection@.take(i + 1)));
    }
    assert(collection@.take(n as int) == collection@);
    Ok(out)
}

// ---------------------------------------------------------------------------------------
// Hash of generated ids
// ---------------------------------------------------------------------------------------

/// The djb2 hash of a byte string: start at 5381, then `h * 33 + b` for each byte, modulo 2^32.
pub open spec fn djb2(bytes: Seq<u8>) -> u32
    decreases bytes.len(),
{
    if bytes.len() == 0 {
        5381
    } else {
        ((djb2(bytes.drop_last()) as int * 33 + bytes.last() as int) % 0x1_0000_0000) as u32
    }
}

proof fn lemma_wrapping_sum(x: int, y: int)
    requires
        0 <= x < 0x1_0000_0000,
        0 <= y < 0x1_0000_0000,
    ensures
        (if x + y > 0xffff_ffff {
            x + y - 0x1_0000_0000
        } else {
            x + y
        }) == (x + y) % 0x1_0000_0000,
{
    if x + y > 0xffff_ffff {
        vstd::arithmetic::div_mod::lemma_mod_add_multiples_vanish(x + y - 0x1_0000_0000, 0x1_0000_0000);
        vstd::arithmetic::div_mod::lemma_small_mod((x + y - 0x1_0000_0000) as nat, 0x1_0000_0000);
    } else {
        vstd::arithmetic::div_mod::lemma_small_mod((x + y) as nat, 0x1_0000_0000);
    }
}

/// The djb2 hash of the UTF-8 bytes of `val`.
pub fn items_hash(val: &str) -> (h: u32)
    ensures
        h == djb2(val.spec_bytes()),
{
    let bytes = val.as_bytes();
    let mut h: u32 = 5381;
    for i in 0..bytes.len()
        invariant
            bytes@ == val.spec_bytes(),
            h == djb2(bytes@.take(i as int)),
    {
        let b = bytes[i];
        assert(bytes@.take(i + 1).drop_last() == bytes@.take(i as int));
        let shifted = h << 5u32;
        assert(shifted == (h as int * 32) % 0x1_0000_0000) by (bit_vector)
            requires
                shifted == h << 5u32,
        ;
        let mixed = shifted.wrapping_add(h);
        let next = mixed.wrapping_add(b as u32);
        proof {
            lemma_wrapping_sum(shifted as int, h as int);
            lemma_wrapping_sum(mixed as int, b as int);
            vstd::arithmetic::div_mod::lemma_add_mod_noop_right(h as int, h as int * 32, 0x1_0000_0000);
            vstd::arithmetic::div_mod::lemma_add_mod_noop(h as int * 33, b as int, 0x1_0000_0000);
            vstd::arithmetic::div_mod::lemma_small_mod(b as nat, 0x1_0000_0000);
            vstd::arithmetic::div_mod::lemma_mod_twice(h as int * 33 + b as int, 0x1_0000_0000);
            assert(mixed == (h as int * 33) % 0x1_0000_0000);
        }
        h = next;
    }
    assert(bytes@.take(bytes@.len() as int) == bytes@);
    h
}


// ---------------------------------------------------------------------------------------
// Reading CSV
// ---------------------------------------------------------------------------------------

/// Splitting a line into fields, one character at a time: `rest` is still to be read,
/// `quoted` tells whether a quoted section is open, `current` is the field being read and
/// `done` the trimmed fields read so far. A doubled quote inside a quoted section is one quote.
pub open spec fn fields_from(
    rest: Seq<char>,
    quoted: bool,
    current: Seq<char>,
    done: Seq<Seq<char>>,
) -> Seq<Seq<char>>
    decreases rest.len(),
{
    if rest.len() == 0 {
        done.push(trim(current))
    } else {
        let c = rest[0];
        if c == '"' && quoted {
            if rest.len() > 1 && rest[1] == '"' {
                fields_from(rest.skip(2), true, current.push('"'), done)
            } else {
                fields_from(rest.skip(1), false, current, done)
            }
        } else if c == '"' {
            fields_from(rest.skip(1), true, current, done)
        } else if c == ',' && !quoted {
            fields_from(rest.skip(1), false, Seq::empty(), done.push(trim(current)))
        } else {
            fields_from(rest.skip(1), quoted, current.push(c), done)
        }
    }
}

/// The trimmed fields of one CSV line.
pub open spec fn csv_fields(line: Seq<char>) -> Seq<Seq<char>> {
    fields_from(line, false, Seq::empty(), Seq::empty())
}

/// The views of a sequence of strings.
pub open spec fn string_views(v: Seq<String>) -> Seq<Seq<char>> {
    v.map_values(|s: String| s@)
}

/// Splits one CSV line into its fields, each with surrounding white space trimmed.
pub fn parse_csv_fields(line: &str) -> (fields: Vec<String>)
    ensures
        string_views(fields@) == csv_fields(line@),
{
    let chars = chars_of(line);
    let n = chars.len();
    let mut fields: Vec<String> = Vec::new();
    let mut current: Vec<char> = Vec::new();
    let mut quoted = false;
    let mut i: usize = 0;
    assert(chars@.skip(0) == chars@);
    assert(string_views(fields@) =~= Seq::<Seq<char>>::empty());
    while i < n
        invariant
            i <= n == chars@.len(),
            chars@ == line@,
            fields_from(chars@.skip(i as int), quoted, current@, string_views(fields@))
                == csv_fields(line@),
        decreases n - i,
    {
        let c = chars[i];
        let ghost rest = chars@.skip(i as int);
        assert(rest[0] == c);
        if c == '"' && quoted {
            if i + 1 < n && chars[i + 1] == '"' {
                assert(rest[1] == chars@[i + 1]);
                assert(rest.skip(2) == chars@.skip(i + 2));
                current.push('"');
                i += 2;
            } else {
                assert(rest.skip(1) == chars@.skip(i + 1));
                quoted = false;
                i += 1;
            }
        } else if c == '"' {
            assert(rest.skip(1) == chars@.skip(i + 1));
            quoted = true;
            i += 1;
        } else if c == ',' && !quoted {
            assert(rest.skip(1) == chars@.skip(i + 1));
            let t = crate::text::trim_chars(&current);
            let f = string_from_chars(&t);
            let ghost before = string_views(fields@);
            fields.push(f);
            assert(string_views(fields@) =~= before.push(trim(current@)));
            current = Vec::new();
            i += 1;
        } else {
            assert(rest.skip(1) == chars@.skip(i + 1));
            current.push(c);
            i += 1;
        }
    }
    let t = crate::text::trim_chars(&current);
    let f = string_from_chars(&t);
    let ghost before = string_views(fields@);
    fields.push(f);
    assert(string_views(fields@) =~= before.push(trim(current@)));
    fields
}

/// Splitting text into lines, one character at a time, as `str::lines` does: a line ends at
/// a line feed, and a carriage return just before that line feed is dropped; a last line
/// without a line feed is kept when it is not empty.
pub open spec fn lines_from(rest: Seq<char>, current: Seq<char>, done: Seq<Seq<char>>) -> Seq<
    Seq<char>,
>
    decreases rest.len(),
{
    if rest.len() == 0 {
        if current.len() == 0 {
            done
        } else {
            done.push(current)
        }
    } else if rest[0] == '\n' {
        lines_from(rest.skip(1), Seq::empty(), done.push(strip_cr(current)))
    } else {
        lines_from(rest.skip(1), current.push(rest[0]), done)
    }
}

/// `line` without one trailing carriage return.
pub open spec fn strip_cr(line: Seq<char>) -> Seq<char> {
    if line.len() > 0 && line.last() == '\r' {
        line.drop_last()
    } else {
        line
    }
}

/// The lines of a text.
pub open spec fn split_lines(s: Seq<char>) -> Seq<Seq<char>> {
    lines_from(s, Seq::empty(), Seq::empty())
}

fn strip_cr_chars(line: Vec<char>) -> (out: Vec<char>)
    ensures
        out@ == strip_cr(line@),
{
    let mut line = line;
    if line.len() > 0 && line[line.len() - 1] == '\r' {
        line.pop();
    }
    line
}

/// The lines of `text`, as `str::lines` splits them.
pub fn split_text_lines(text: &Vec<char>) -> (lines: Vec<Vec<char>>)
    ensures
        lines@.map_values(|l: Vec<char>| l@) == split_lines(text@),
{
    let n = text.len();
    let mut lines: Vec<Vec<char>> = Vec::new();
    let mut current: Vec<char> = Vec::new();
    let mut i: usize = 0;
    assert(text@.skip(0) == text@);
    assert(lines@.map_values(|l: Vec<char>| l@) =~= Seq::<Seq<char>>::empty());
    while i < n
        invariant
            i <= n == text@.len(),
            lines_from(text@.skip(i as int), current@, lines@.map_values(|l: Vec<char>| l@))
                == split_lines(text@),
        decreases n - i,
    {
        let c = text[i];
        let ghost rest = text@.skip(i as int);
        assert(rest[0] == c);
        assert(rest.skip(1) == text@.skip(i + 1));
        if c == '\n' {
            let ghost before = lines@.map_values(|l: Vec<char>| l@);
            let done = strip_cr_chars(current);
            lines.push(done);
            assert(lines@.map_values(|l: Vec<char>| l@) =~= before.push(strip_cr(current@)));
            current = Vec::new();
        } else {
            current.push(c);
        }
        i += 1;
    }
    if current.len() > 0 {
        let ghost before = lines@.map_values(|l: Vec<char>| l@);
        lines.push(current);
        assert(lines@.map_values(|l: Vec<char>| l@) =~= before.push(current@));
    }
    lines
}


/// The field at `i`, or `default` when the line has fewer fields.
pub open spec fn field_or(fields: Seq<Seq<char>>, i: int, default: Seq<char>) -> Seq<char> {
    if i < fields.len() {
        fields[i]
    } else {
        default
    }
}

/// The priority named by a lowercase word.
pub open spec fn priority_from_lower(s: Seq<char>) -> Option<Priority> {
    if s == "low"@ {
        Some(Priority::Low)
    } else if s == "medium"@ {
        Some(Priority::Medium)
    } else if s == "high"@ {
        Some(Priority::High)
    } else if s == "critical"@ {
        Some(Priority::Critical)
    } else {
        None
    }
}

/// The completion flag of a field: `true` in any ASCII case, or `1`.
pub open spec fn completed_flag(s: Seq<char>) -> bool {
    eq_ignore_ascii_case(s, "true"@) || s == "1"@
}

/// The id given to an item whose id field is empty: `item-` and the hash of its title.
pub open spec fn generated_id(title: Seq<char>) -> Seq<char> {
    "item-"@ + decimal(djb2(encode_utf8(title)) as nat)
}

/// The creation time of a field: its value as an unsigned number, else 0.
pub open spec fn created_at_of(s: Seq<char>) -> u64 {
    match parse_u64_spec(s) {
        Some(v) => v,
        None => 0,
    }
}

/// What one CSV line gives: nothing for a blank line, an item, or the error of an unknown
/// priority. Missing fields take the defaults `""`, `Untitled`, `""`, `Medium`, `false`, `0`.
pub open spec fn line_item(line: Seq<char>) -> Result<Option<ItemView>, CsvError> {
    let t = trim(line);
    if t.len() == 0 {
        Ok(None)
    } else {
        let f = csv_fields(t);
        if f.len() == 0 {
            Ok(None)
        } else {
            let id = field_or(f, 0, Seq::empty());
            let title = field_or(f, 1, "Untitled"@);
            let description = field_or(f, 2, Seq::empty());
            let lowered = lower_text(field_or(f, 3, "Medium"@));
            match priority_from_lower(lowered) {
                None => Err(CsvError::InvalidPriority(lowered)),
                Some(priority) => Ok(
                    Some(
                        ItemView {
                            id: if id.len() == 0 {
                                generated_id(title)
                            } else {
                                id
                            },
                            title,
                            description,
                            priority,
                            completed: completed_flag(field_or(f, 4, "false"@)),
                            created_at: created_at_of(field_or(f, 5, "0"@)),
                        },
                    ),
                ),
            }
        }
    }
}

/// Whether `res` is what `spec` describes.
pub open spec fn line_result_matches(
    res: Result<Option<Item>, ExportError>,
    spec: Result<Option<ItemView>, CsvError>,
) -> bool {
    match (res, spec) {
        (Ok(None), Ok(None)) => true,
        (Ok(Some(it)), Ok(Some(v))) => it@ == v,
        (Err(e), Err(c)) => is_csv_error(&e, c),
        _ => false,
    }
}

/// The priority a lowercased priority field names, or the error that carries the field.
pub fn priority_from_lowered(lowered: String) -> (res: Result<Priority, ExportError>)
    ensures
        match res {
            Ok(p) => priority_from_lower(lowered@) == Some(p),
            Err(e) => priority_from_lower(lowered@) is None && is_csv_error(
                &e,
                CsvError::InvalidPriority(lowered@),
            ),
        },
{
    let chars = chars_of(lowered.as_str());
    if chars_equal(&chars, &chars_of("low")) {
        Ok(Priority::Low)
    } else if chars_equal(&chars, &chars_of("medium")) {
        Ok(Priority::Medium)
    } else if chars_equal(&chars, &chars_of("high")) {
        Ok(Priority::High)
    } else if chars_equal(&chars, &chars_of("critical")) {
        Ok(Priority::Critical)
    } else {
        Err(ExportError::InvalidPriority(lowered))
    }
}

/// The field at `i` of `fields`, or `default`.
fn field_text(fields: &Vec<String>, i: usize, default: &str) -> (f: String)
    ensures
        f@ == field_or(string_views(fields@), i as int, default@),
{
    if i < fields.len() {
        fields[i].clone()
    } else {
        default.to_owned()
    }
}

/// Parses one CSV line into an item: `Ok(None)` for a blank line, an error when the
/// priority field is no known priority.
pub fn parse_csv_line(line: &str) -> (res: Result<Option<Item>, ExportError>)
    ensures
        line_result_matches(res, line_item(line@)),
{
    let trimmed = crate::text::trim_str(line);
    if trimmed.as_str().is_empty() {
        return Ok(None);
    }
    let fields = parse_csv_fields(trimmed.as_str());
    if fields.len() == 0 {
        return Ok(None);
    }
    let ghost f = string_views(fields@);
    let id = field_text(&fields, 0, "");
    let title = field_text(&fields, 1, "Untitled");
    let description = field_text(&fields, 2, "");
    let priority_str = field_text(&fields, 3, "Medium");
    let completed_str = field_text(&fields, 4, "false");
    let created_at_str = field_text(&fields, 5, "0");
    proof {
        reveal_strlit("");
    }
    let lowered = to_lowercase(priority_str.as_str());
    let priority = match priority_from_lowered(lowered) {
        Ok(p) => p,
        Err(e) => {
            return Err(e);
        },
    };
    let completed_chars = chars_of(completed_str.as_str());
    let completed = chars_eq_ignore_ascii_case(&completed_chars, &chars_of("true")) || chars_equal(
        &completed_chars,
        &chars_of("1"),
    );
    let created_at = match parse_u64(&chars_of(created_at_str.as_str())) {
        Some(v) => v,
        None => 0,
    };
    let id = if id.as_str().is_empty() {
        let mut generated = "item-".to_owned();
        push_decimal(&mut generated, items_hash(title.as_str()) as u64);
        generated
    } else {
        id
    };
    let item = Item { id, title, description, priority, completed, created_at };
    proof {
        let spec = line_item(line@);
        assert(trimmed@ == trim(line@));
        assert(f == csv_fields(trim(line@)));
        assert(priority_from_lower(lower_text(priority_str@)) == Some(priority));
        assert(item@.id == (if field_or(f, 0, Seq::empty()).len() == 0 {
            generated_id(title@)
        } else {
            field_or(f, 0, Seq::empty())
        }));
        assert(item@.completed == completed_flag(field_or(f, 4, "false"@)));
        assert(item@.created_at == created_at_of(field_or(f, 5, "0"@)));
        assert(item@.title == field_or(f, 1, "Untitled"@));
        assert(item@.description == field_or(f, 2, Seq::empty()));
        assert(trim(line@).len() != 0);
        assert(f.len() != 0);
        assert(spec == Ok::<Option<ItemView>, CsvError>(Some(item@)));
    }
    Ok(Some(item))
}

/// Items of a sequence of lines, read in order; the first error stops the reading.
pub open spec fn collect_items(lines: Seq<Seq<char>>) -> Result<Seq<ItemView>, CsvError>
    decreases lines.len(),
{
    if lines.len() == 0 {
        Ok(Seq::empty())
    } else {
        match collect_items(lines.drop_last()) {
            Err(e) => Err(e),
            Ok(items) => match line_item(lines.last()) {
                Err(e) => Err(e),
                Ok(None) => Ok(items),
                Ok(Some(it)) => Ok(items.push(it)),
            },
        }
    }
}

/// Whether a first line is a header: its lowercase form holds `title`.
pub open spec fn is_header(line: Seq<char>) -> bool {
    has_infix(lower_text(line), "title"@)
}

/// The lines of a trimmed text that hold data: all of them but a header line.
pub open spec fn data_lines(t: Seq<char>) -> Seq<Seq<char>> {
    let ls = split_lines(t);
    if ls.len() > 0 && is_header(ls[0]) {
        ls.drop_first()
    } else {
        ls
    }
}

/// What importing CSV text gives: the items of its data lines, or the first error.
pub open spec fn import_csv(text: Seq<char>) -> Result<Seq<ItemView>, CsvError> {
    let t = trim(text);
    if t.len() == 0 {
        Err(CsvError::Empty)
    } else {
        match collect_items(data_lines(t)) {
            Err(e) => Err(e),
            Ok(items) => if items.len() == 0 {
                Err(CsvError::Parse("No valid items parsed from CSV"@))
            } else {
                Ok(items)
            },
        }
    }
}

/// Whether `res` is what `spec` describes.
pub open spec fn import_result_matches(
    res: Result<ItemCollection, ExportError>,
    spec: Result<Seq<ItemView>, CsvError>,
) -> bool {
    match (res, spec) {
        (Ok(c), Ok(items)) => c@ == items,
        (Err(e), Err(c)) => is_csv_error(&e, c),
        _ => false,
    }
}

/// Deserializes an item collection from CSV text. A first line holding `title` in any case
/// is a header and skipped; blank lines are skipped; the first line with an unknown priority
/// is an error, and so is text with no item at all.
pub fn import_from_csv(csv_str: &str) -> (res: Result<ItemCollection, ExportError>)
    ensures
        import_result_matches(res, import_csv(csv_str@)),
{
    let trimmed = crate::text::trim_str(csv_str);
    if trimmed.as_str().is_empty() {
        return Err(ExportError::EmptyData);
    }
    let text = chars_of(trimmed.as_str());
    let lines = split_text_lines(&text);
    let ghost ls = lines@.map_values(|l: Vec<char>| l@);
    let mut start: usize = 0;
    if lines.len() > 0 {
        let header = string_from_chars(&lines[0]);
        let lowered = to_lowercase(header.as_str());
        assert(header@ == ls[0]);
        if contains_chars(&chars_of(lowered.as_str()), &chars_of("title")) {
            start = 1;
        }
    }
    let ghost data = data_lines(trimmed@);
    assert(data == ls.skip(start as int));
    let mut items: Vec<crate::models::Item> = Vec::new();
    let mut i: usize = start;
    assert(data.take(0) =~= Seq::<Seq<char>>::empty());
    assert(crate::models::item_views(items@) =~= Seq::<ItemView>::empty());
    while i < lines.len()
        invariant
            start <= i <= lines@.len() == ls.len(),
            ls == lines@.map_values(|l: Vec<char>| l@),
            data == ls.skip(start as int),
            data == data_lines(trimmed@),
            trimmed@ == trim(csv_str@),
            trimmed@.len() > 0,
            collect_items(data.take(i - start)) == Ok::<Seq<ItemView>, CsvError>(
                crate::models::item_views(items@),
            ),
        decreases lines.len() - i,
    {
        let line = string_from_chars(&lines[i]);
        assert(line@ == data[i - start]);
        assert(data.take(i + 1 - start).drop_last() == data.take(i - start));
        let ghost before = crate::models::item_views(items@);
        match parse_csv_line(line.as_str()) {
            Ok(Some(item)) => {
                items.push(item);
                assert(crate::models::item_views(items@) =~= before.push(items@.last()@));
            },
            Ok(None) => {},
            Err(e) => {
                proof {
                    let k = i + 1 - start;
                    assert(data.take(k).last() == data[i - start]);
                    let c = line_item(data[i - start])->Err_0;
                    assert(is_csv_error(&e, c));
                    assert(collect_items(data.take(k)) == Err::<Seq<ItemView>, CsvError>(c));
                    lemma_collect_items_error(data, k);
                    assert(trimmed@ == trim(csv_str@));
                    assert(import_csv(csv_str@) == Err::<Seq<ItemView>, CsvError>(c));
                }
                return Err(e);
            },
        }
        i += 1;
    }
    assert(data.take(lines.len() - start) == data);
    if items.len() == 0 {
        return Err(ExportError::CsvParse("No valid items parsed from CSV".to_owned()));
    }
    Ok(ItemCollection { items })
}

/// Once reading stops at an error, the lines after it do not matter.
pub proof fn lemma_collect_items_error(lines: Seq<Seq<char>>, k: int)
    requires
        0 <= k <= lines.len(),
        collect_items(lines.take(k)) is Err,
    ensures
        collect_items(lines) == collect_items(lines.take(k)),
    decreases lines.len() - k,
{
    if k < lines.len() {
        assert(lines.drop_last().take(k) == lines.take(k));
        lemma_collect_items_error(lines.drop_last(), k);
    } else {
        assert(lines.take(k) == lines);
    }
}

} // verus!
