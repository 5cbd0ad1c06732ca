//! The CSV round trip: the items of an exported collection are what importing gives back.

use vstd::prelude::*;
use crate::export::{
    CsvError, bool_text, collect_items, csv_header, csv_row, csv_rows, csv_text, data_lines,
    import_csv, is_header, lines_from, split_lines, strip_cr, completed_flag, created_at_of, csv_fields, double_quotes, escape_field,
    field_or, fields_from, line_item, needs_quoting, priority_from_lower, quote_piece,
};
use crate::models::{ItemView, Priority, priority_label};
use crate::text::{
    all_digits, ascii_lower_seq, has_infix, decimal, eq_ignore_ascii_case, lower_text, digit_char, digit_value, digits_value, is_digit, is_white_space,
    parse_u64_spec, trim, trim_end, trim_start,
};

verus! {

proof fn lemma_digit_char(d: nat)
    requires
        d < 10,
    ensures
        is_digit(digit_char(d)),
        digit_value(digit_char(d)) == d,
{
}

/// The decimal notation of `n` is a non-empty string of digits whose value is `n`.
pub proof fn lemma_decimal(n: nat)
    ensures
        decimal(n).len() > 0,
        all_digits(decimal(n)),
        digits_value(decimal(n)) == n,
    decreases n,
{
    lemma_digit_char(n % 10);
    if n >= 10 {
        lemma_decimal(n / 10);
        let s = decimal(n / 10);
        let t = s.push(digit_char(n % 10));
        assert(t.drop_last() == s);
        assert(t.last() == digit_char(n % 10));
        assert(digits_value(t) == digits_value(s) * 10 + digit_value(digit_char(n % 10)));
        assert(n == (n / 10) * 10 + n % 10);
        assert forall|i: int| 0 <= i < t.len() implies is_digit(#[trigger] t[i]) by {
            if i < s.len() {
                assert(t[i] == s[i]);
            }
        }
    } else {
        let t = seq![digit_char(n)];
        assert(t.drop_last() =~= Seq::<char>::empty());
        assert(t.last() == digit_char(n));
        assert(digits_value(t) == digits_value(t.drop_last()) * 10 + digit_value(t.last()));
    }
}

/// Parsing the decimal notation of a 64-bit number gives the number back.
pub proof fn lemma_decimal_parses(n: u64)
    ensures
        parse_u64_spec(decimal(n as nat)) == Some(n),
{
    lemma_decimal(n as nat);
    let d = decimal(n as nat);
    assert(is_digit(d[0]));
}

/// A text with no white space at either end is its own trimmed form.
pub proof fn lemma_trim_unchanged(s: Seq<char>)
    requires
        s.len() > 0 ==> !is_white_space(s[0]) && !is_white_space(s.last()),
    ensures
        trim(s) == s,
{
    assert(trim_start(s) == s);
}

/// The characters of `double_quotes` of a concatenation.
proof fn lemma_double_quotes_concat(a: Seq<char>, b: Seq<char>)
    ensures
        double_quotes(a + b) == double_quotes(a) + double_quotes(b),
    decreases b.len(),
{
    if b.len() == 0 {
        assert(a + b =~= a);
        assert(double_quotes(a) + double_quotes(b) =~= double_quotes(a));
    } else {
        lemma_double_quotes_concat(a, b.drop_last());
        assert((a + b).drop_last() =~= a + b.drop_last());
        assert((a + b).last() == b.last());
        assert(double_quotes(a + b) =~= double_quotes(a) + double_quotes(b));
    }
}

/// `double_quotes` read from the front.
proof fn lemma_double_quotes_first(f: Seq<char>)
    requires
        f.len() > 0,
    ensures
        double_quotes(f) == quote_piece(f[0]) + double_quotes(f.drop_first()),
{
    lemma_double_quotes_concat(seq![f[0]], f.drop_first());
    assert(seq![f[0]] + f.drop_first() =~= f);
    let one = seq![f[0]];
    assert(one.drop_last() =~= Seq::<char>::empty());
    assert(double_quotes(Seq::<char>::empty()) =~= Seq::<char>::empty());
    assert(one.last() == f[0]);
    assert(double_quotes(one) == double_quotes(one.drop_last()) + quote_piece(one.last()));
    assert(double_quotes(one) =~= quote_piece(f[0]));
}

/// Reading a field with no comma and no quote appends it to the current field.
proof fn lemma_read_plain(
    f: Seq<char>,
    tail: Seq<char>,
    current: Seq<char>,
    done: Seq<Seq<char>>,
)
    requires
        !f.contains(','),
        !f.contains('"'),
    ensures
        fields_from(f + tail, false, current, done) == fields_from(tail, false, current + f, done),
    decreases f.len(),
{
    if f.len() == 0 {
        assert(f + tail =~= tail);
        assert(current + f =~= current);
    } else {
        let c = f[0];
        let input = f + tail;
        assert(input[0] == c);
        assert(c != ',' && c != '"');
        assert(input.skip(1) =~= f.drop_first() + tail);
        assert(!f.drop_first().contains(',')) by {
            if f.drop_first().contains(',') {
                let k = choose|k: int| 0 <= k < f.drop_first().len() && f.drop_first()[k] == ',';
                assert(f[k + 1] == ',');
            }
        }
        assert(!f.drop_first().contains('"')) by {
            if f.drop_first().contains('"') {
                let k = choose|k: int| 0 <= k < f.drop_first().len() && f.drop_first()[k] == '"';
                assert(f[k + 1] == '"');
            }
        }
        lemma_read_plain(f.drop_first(), tail, current.push(c), done);
        assert(current.push(c) + f.drop_first() =~= current + f);
    }
}

/// Reading the inside of a quoted field and its closing quote appends the field itself.
proof fn lemma_read_quoted(
    f: Seq<char>,
    tail: Seq<char>,
    current: Seq<char>,
    done: Seq<Seq<char>>,
)
    requires
        tail.len() == 0 || tail[0] != '"',
    ensures
        fields_from(double_quotes(f) + seq!['"'] + tail, true, current, done) == fields_from(
            tail,
            false,
            current + f,
            done,
        ),
    decreases f.len(),
{
    if f.len() == 0 {
        assert(double_quotes(f) =~= Seq::<char>::empty());
        let input = double_quotes(f) + seq!['"'] + tail;
        assert(input[0] == '"');
        assert(input.len() > 1 ==> input[1] == tail[0]);
        assert(input.skip(1) =~= tail);
        assert(current + f =~= current);
    } else {
        let c = f[0];
        let rest = f.drop_first();
        lemma_double_quotes_first(f);
        let input = double_quotes(f) + seq!['"'] + tail;
        if c == '"' {
            assert(input =~= seq!['"', '"'] + (double_quotes(rest) + seq!['"'] + tail));
            assert(input[0] == '"' && input[1] == '"');
            assert(input.skip(2) =~= double_quotes(rest) + seq!['"'] + tail);
        } else {
            assert(input =~= seq![c] + (double_quotes(rest) + seq!['"'] + tail));
            assert(input[0] == c);
            assert(input.skip(1) =~= double_quotes(rest) + seq!['"'] + tail);
        }
        lemma_read_quoted(rest, tail, current.push(c), done);
        assert(current.push(c) + rest =~= current + f);
    }
}

/// Reading one escaped field and the comma after it yields the field.
pub proof fn lemma_read_field(f: Seq<char>, tail: Seq<char>, done: Seq<Seq<char>>)
    requires
        trim(f) == f,
    ensures
        fields_from(escape_field(f) + seq![','] + tail, false, Seq::empty(), done) == fields_from(
            tail,
            false,
            Seq::empty(),
            done.push(f),
        ),
{
    let e = escape_field(f);
    let after = seq![','] + tail;
    assert(after[0] == ',');
    assert(after.skip(1) =~= tail);
    assert(Seq::<char>::empty() + f =~= f);
    assert(escape_field(f) + seq![','] + tail =~= e + after);
    if needs_quoting(f) {
        let input = e + after;
        assert(input =~= seq!['"'] + (double_quotes(f) + seq!['"'] + after));
        assert(input[0] == '"');
        assert(input.skip(1) =~= double_quotes(f) + seq!['"'] + after);
        lemma_read_quoted(f, after, Seq::empty(), done);
        assert(fields_from(input, false, Seq::empty(), done) == fields_from(
            input.skip(1),
            true,
            Seq::empty(),
            done,
        ));
    } else {
        lemma_read_plain(f, after, Seq::empty(), done);
        assert(e == f);
    }
    assert(fields_from(after, false, f, done) == fields_from(
        tail,
        false,
        Seq::empty(),
        done.push(trim(f)),
    ));
}

/// Reading a last field with no comma and no quote yields it.
pub proof fn lemma_read_last(f: Seq<char>, done: Seq<Seq<char>>)
    requires
        trim(f) == f,
        !f.contains(','),
        !f.contains('"'),
    ensures
        fields_from(f, false, Seq::empty(), done) == done.push(f),
{
    lemma_read_plain(f, Seq::empty(), Seq::empty(), done);
    assert(f + Seq::<char>::empty() =~= f);
    assert(Seq::<char>::empty() + f =~= f);
}


/// The CSV row of an item without its line feed.
pub open spec fn csv_line(it: ItemView) -> Seq<char> {
    escape_field(it.id) + seq![','] + escape_field(it.title) + seq![','] + escape_field(
        it.description,
    ) + seq![','] + priority_label(it.priority) + seq![','] + bool_text(it.completed) + seq![',']
        + decimal(it.created_at as nat)
}

/// Whether a text neither starts nor ends with white space.
pub open spec fn no_outer_space(s: Seq<char>) -> bool {
    s.len() > 0 ==> !is_white_space(s[0]) && !is_white_space(s.last())
}

/// Whether a text comes back unchanged from a CSV cell: no white space at either end and
/// no line feed.
pub open spec fn csv_safe_text(s: Seq<char>) -> bool {
    no_outer_space(s) && !s.contains('\n')
}

/// Whether an item comes back unchanged from a CSV row: a non-empty id, and id, title and
/// description each safe in a cell.
pub open spec fn csv_safe_item(it: ItemView) -> bool {
    &&& it.id.len() > 0
    &&& csv_safe_text(it.id)
    &&& csv_safe_text(it.title)
    &&& csv_safe_text(it.description)
}

proof fn lemma_concat_lacks(a: Seq<char>, b: Seq<char>, c: char)
    requires
        !a.contains(c),
        !b.contains(c),
    ensures
        !(a + b).contains(c),
{
    if (a + b).contains(c) {
        let k = choose|k: int| 0 <= k < (a + b).len() && (a + b)[k] == c;
        if k < a.len() {
            assert(a[k] == c);
        } else {
            assert(b[k - a.len()] == c);
        }
    }
}

proof fn lemma_double_quotes_lacks(f: Seq<char>, c: char)
    requires
        c != '"',
        !f.contains(c),
    ensures
        !double_quotes(f).contains(c),
    decreases f.len(),
{
    if f.len() > 0 {
        assert(!f.drop_last().contains(c)) by {
            if f.drop_last().contains(c) {
                let k = choose|k: int| 0 <= k < f.drop_last().len() && f.drop_last()[k] == c;
                assert(f[k] == c);
            }
        }
        lemma_double_quotes_lacks(f.drop_last(), c);
        let piece = quote_piece(f.last());
        assert(!piece.contains(c)) by {
            if piece.contains(c) {
                let k = choose|k: int| 0 <= k < piece.len() && piece[k] == c;
                assert(f.last() == c);
            }
        }
        lemma_concat_lacks(double_quotes(f.drop_last()), piece, c);
    }
}

proof fn lemma_escape_lacks_line_feed(f: Seq<char>)
    requires
        !f.contains('\n'),
    ensures
        !escape_field(f).contains('\n'),
{
    if needs_quoting(f) {
        lemma_double_quotes_lacks(f, '\n');
        lemma_concat_lacks(seq!['"'], double_quotes(f), '\n');
        lemma_concat_lacks(seq!['"'] + double_quotes(f), seq!['"'], '\n');
    }
}

proof fn lemma_digits_lack(s: Seq<char>, c: char)
    requires
        all_digits(s),
        !is_digit(c),
    ensures
        !s.contains(c),
{
    if s.contains(c) {
        let k = choose|k: int| 0 <= k < s.len() && s[k] == c;
        assert(is_digit(s[k]));
    }
}

proof fn lemma_label(p: Priority)
    ensures
        trim(priority_label(p)) == priority_label(p),
        !priority_label(p).contains(','),
        !priority_label(p).contains('"'),
        !priority_label(p).contains('\n'),
        priority_from_lower(lower_text(priority_label(p))) == Some(p),
{
    let l = priority_label(p);
    lemma_trim_unchanged(l);
    reveal_strlit("low");
    reveal_strlit("medium");
    reveal_strlit("high");
    reveal_strlit("critical");
    assert(vstd::utf8::is_ascii_chars(l));
    match p {
        Priority::Low => {
            assert(ascii_lower_seq(l) =~= "low"@);
        },
        Priority::Medium => {
            assert(ascii_lower_seq(l) =~= "medium"@);
        },
        Priority::High => {
            assert(ascii_lower_seq(l) =~= "high"@);
        },
        Priority::Critical => {
            assert(ascii_lower_seq(l) =~= "critical"@);
        },
    }
}

proof fn lemma_bool_text(b: bool)
    ensures
        trim(bool_text(b)) == bool_text(b),
        !bool_text(b).contains(','),
        !bool_text(b).contains('"'),
        !bool_text(b).contains('\n'),
        !bool_text(b).contains('\r'),
        completed_flag(bool_text(b)) == b,
{
    reveal_strlit("true");
    reveal_strlit("false");
    reveal_strlit("1");
    lemma_trim_unchanged(bool_text(b));
    if !b {
        assert(!eq_ignore_ascii_case("false"@, "true"@));
        assert("false"@ != "1"@);
    }
}

/// The fields of the row of a safe item are its id, title, description, priority label,
/// completion text and creation time.
#[verifier::rlimit(50)]
pub proof fn lemma_line_fields(it: ItemView)
    requires
        csv_safe_item(it),
    ensures
        csv_fields(csv_line(it)) == seq![
            it.id,
            it.title,
            it.description,
            priority_label(it.priority),
            bool_text(it.completed),
            decimal(it.created_at as nat),
        ],
{
    let label = priority_label(it.priority);
    let flag = bool_text(it.completed);
    let num = decimal(it.created_at as nat);
    lemma_label(it.priority);
    lemma_bool_text(it.completed);
    lemma_decimal(it.created_at as nat);
    lemma_digits_lack(num, ',');
    lemma_digits_lack(num, '"');
    lemma_trim_unchanged(num);
    lemma_trim_unchanged(it.id);
    lemma_trim_unchanged(it.title);
    lemma_trim_unchanged(it.description);
    let t5 = num;
    let t4 = flag + seq![','] + t5;
    let t3 = label + seq![','] + t4;
    let t2 = escape_field(it.description) + seq![','] + t3;
    let t1 = escape_field(it.title) + seq![','] + t2;
    let line = escape_field(it.id) + seq![','] + t1;
    assert(line =~= csv_line(it));
    let d0 = Seq::<Seq<char>>::empty();
    let d1 = d0.push(it.id);
    let d2 = d1.push(it.title);
    let d3 = d2.push(it.description);
    let d4 = d3.push(label);
    let d5 = d4.push(flag);
    lemma_read_field(it.id, t1, d0);
    lemma_read_field(it.title, t2, d1);
    lemma_read_field(it.description, t3, d2);
    assert(escape_field(label) == label);
    lemma_read_field(label, t4, d3);
    assert(escape_field(flag) == flag);
    lemma_read_field(flag, t5, d4);
    lemma_read_last(num, d5);
    assert(d5.push(num) =~= seq![it.id, it.title, it.description, label, flag, num]);
}

/// The row of a safe item reads back as that item.
pub proof fn lemma_line_item(it: ItemView)
    requires
        csv_safe_item(it),
    ensures
        line_item(csv_line(it)) == Ok::<Option<ItemView>, CsvError>(Some(it)),
        csv_line(it).len() > 0,
        !csv_line(it).contains('\n'),
        is_digit(csv_line(it).last()),
{
    let line = csv_line(it);
    lemma_decimal(it.created_at as nat);
    lemma_decimal_parses(it.created_at);
    let num = decimal(it.created_at as nat);
    let e = escape_field(it.id);
    assert(e.len() > 0 && !is_white_space(e[0])) by {
        if needs_quoting(it.id) {
            assert(e[0] == '"');
        }
    }
    assert(line[0] == e[0]);
    assert(line.last() == num.last());
    assert(is_digit(num[num.len() - 1]));
    lemma_trim_unchanged(line);
    lemma_line_fields(it);
    lemma_label(it.priority);
    lemma_bool_text(it.completed);
    let f = csv_fields(line);
    assert(field_or(f, 0, Seq::empty()) == it.id);
    assert(field_or(f, 5, "0"@) == num);
    assert(created_at_of(num) == it.created_at);
    lemma_escape_lacks_line_feed(it.id);
    lemma_escape_lacks_line_feed(it.title);
    lemma_escape_lacks_line_feed(it.description);
    lemma_digits_lack(num, '\n');
    let comma = seq![','];
    assert(!comma.contains('\n')) by {
        if comma.contains('\n') {
            let k = choose|k: int| 0 <= k < comma.len() && comma[k] == '\n';
            assert(comma[k] == ',');
        }
    }
    let p1 = escape_field(it.id) + comma;
    lemma_concat_lacks(escape_field(it.id), comma, '\n');
    let p2 = p1 + escape_field(it.title);
    lemma_concat_lacks(p1, escape_field(it.title), '\n');
    let p3 = p2 + comma;
    lemma_concat_lacks(p2, comma, '\n');
    let p4 = p3 + escape_field(it.description);
    lemma_concat_lacks(p3, escape_field(it.description), '\n');
    let p5 = p4 + comma;
    lemma_concat_lacks(p4, comma, '\n');
    let p6 = p5 + priority_label(it.priority);
    lemma_concat_lacks(p5, priority_label(it.priority), '\n');
    let p7 = p6 + comma;
    lemma_concat_lacks(p6, comma, '\n');
    let p8 = p7 + bool_text(it.completed);
    lemma_concat_lacks(p7, bool_text(it.completed), '\n');
    let p9 = p8 + comma;
    lemma_concat_lacks(p8, comma, '\n');
    lemma_concat_lacks(p9, num, '\n');
    assert(p9 + num =~= line);
}


/// Reading a line ended by a line feed closes it, without a carriage return at its end.
proof fn lemma_lines_one(l: Seq<char>, tail: Seq<char>, current: Seq<char>, done: Seq<Seq<char>>)
    requires
        !l.contains('\n'),
    ensures
        lines_from(l + seq!['\n'] + tail, current, done) == lines_from(
            tail,
            Seq::empty(),
            done.push(strip_cr(current + l)),
        ),
    decreases l.len(),
{
    let input = l + seq!['\n'] + tail;
    if l.len() == 0 {
        assert(input[0] == '\n');
        assert(input.skip(1) =~= tail);
        assert(current + l =~= current);
    } else {
        let c = l[0];
        assert(input[0] == c);
        assert(c != '\n');
        assert(input.skip(1) =~= l.drop_first() + seq!['\n'] + tail);
        assert(!l.drop_first().contains('\n')) by {
            if l.drop_first().contains('\n') {
                let k = choose|k: int| 0 <= k < l.drop_first().len() && l.drop_first()[k] == '\n';
                assert(l[k + 1] == '\n');
            }
        }
        lemma_lines_one(l.drop_first(), tail, current.push(c), done);
        assert(current.push(c) + l.drop_first() =~= current + l);
    }
}

/// Reading a last line with no line feed keeps it when it is not empty.
proof fn lemma_lines_last(l: Seq<char>, current: Seq<char>, done: Seq<Seq<char>>)
    requires
        !l.contains('\n'),
    ensures
        lines_from(l, current, done) == (if (current + l).len() == 0 {
            done
        } else {
            done.push(current + l)
        }),
    decreases l.len(),
{
    if l.len() == 0 {
        assert(current + l =~= current);
    } else {
        let c = l[0];
        assert(l.skip(1) =~= l.drop_first());
        assert(!l.drop_first().contains('\n')) by {
            if l.drop_first().contains('\n') {
                let k = choose|k: int| 0 <= k < l.drop_first().len() && l.drop_first()[k] == '\n';
                assert(l[k + 1] == '\n');
            }
        }
        lemma_lines_last(l.drop_first(), current.push(c), done);
        assert(current.push(c) + l.drop_first() =~= current + l);
    }
}

/// The header line of the CSV form, without its line feed.
pub open spec fn header_line() -> Seq<char> {
    "id,title,description,priority,completed,created_at"@
}

/// The rows of items, each without its line feed.
pub open spec fn csv_lines(items: Seq<ItemView>) -> Seq<Seq<char>> {
    items.map_values(|it: ItemView| csv_line(it))
}

proof fn lemma_header()
    ensures
        csv_header() == header_line() + seq!['\n'],
        header_line().len() > 0,
        header_line()[0] == 'i',
        header_line().last() == 't',
        !header_line().contains('\n'),
        is_header(header_line()),
{
    reveal_strlit("id,title,description,priority,completed,created_at\n");
    reveal_strlit("id,title,description,priority,completed,created_at");
    reveal_strlit("title");
    let h = header_line();
    assert(csv_header() =~= h + seq!['\n']);
    assert(vstd::utf8::is_ascii_chars(h));
    assert(ascii_lower_seq(h) =~= h);
    assert(lower_text(h) == h);
    assert(h.subrange(3int, 3int + "title"@.len()) =~= "title"@);
    assert(has_infix(h, "title"@));
    if h.contains('\n') {
        let k = choose|k: int| 0 <= k < h.len() && h[k] == '\n';
        assert(false);
    }
}

proof fn lemma_row(it: ItemView)
    ensures
        csv_row(it) == csv_line(it) + seq!['\n'],
{
    assert(csv_row(it) =~= csv_line(it) + seq!['\n']);
}

/// The lines of the CSV form of safe items followed by more text: the header, the rows, and
/// then the lines of the rest.
proof fn lemma_text_lines(items: Seq<ItemView>, tail: Seq<char>)
    requires
        forall|i: int| 0 <= i < items.len() ==> csv_safe_item(#[trigger] items[i]),
    ensures
        lines_from(csv_text(items) + tail, Seq::empty(), Seq::empty()) == lines_from(
            tail,
            Seq::empty(),
            seq![header_line()] + csv_lines(items),
        ),
    decreases items.len(),
{
    lemma_header();
    let h = header_line();
    if items.len() == 0 {
        assert(csv_rows(items) =~= Seq::<char>::empty());
        assert(csv_text(items) + tail =~= h + seq!['\n'] + tail);
        lemma_lines_one(h, tail, Seq::empty(), Seq::empty());
        assert(Seq::<char>::empty() + h =~= h);
        assert(strip_cr(h) == h);
        assert(seq![h] + csv_lines(items) =~= Seq::<Seq<char>>::empty().push(h));
    } else {
        let init = items.drop_last();
        let last = items.last();
        lemma_line_item(last);
        lemma_row(last);
        let l = csv_line(last);
        assert forall|i: int| 0 <= i < init.len() implies csv_safe_item(#[trigger] init[i]) by {
            assert(init[i] == items[i]);
        }
        assert(csv_text(items) + tail =~= csv_text(init) + (l + seq!['\n'] + tail));
        lemma_text_lines(init, l + seq!['\n'] + tail);
        lemma_lines_one(l, tail, Seq::empty(), seq![h] + csv_lines(init));
        assert(Seq::<char>::empty() + l =~= l);
        assert(strip_cr(l) == l);
        assert((seq![h] + csv_lines(init)).push(l) =~= seq![h] + csv_lines(items));
    }
}

/// Reading the rows of safe items gives the items.
proof fn lemma_collect_rows(items: Seq<ItemView>)
    requires
        forall|i: int| 0 <= i < items.len() ==> csv_safe_item(#[trigger] items[i]),
    ensures
        collect_items(csv_lines(items)) == Ok::<Seq<ItemView>, CsvError>(items),
    decreases items.len(),
{
    if items.len() == 0 {
        assert(csv_lines(items) =~= Seq::<Seq<char>>::empty());
        assert(items =~= Seq::<ItemView>::empty());
    } else {
        let init = items.drop_last();
        assert forall|i: int| 0 <= i < init.len() implies csv_safe_item(#[trigger] init[i]) by {
            assert(init[i] == items[i]);
        }
        lemma_collect_rows(init);
        lemma_line_item(items.last());
        assert(csv_lines(items).drop_last() =~= csv_lines(init));
        assert(csv_lines(items).last() == csv_line(items.last()));
        assert(init.push(items.last()) =~= items);
    }
}

/// Exporting a non-empty collection to CSV and importing the text gives back the same items,
/// in the same order, when every item has a non-empty id and no id, title or description holds
/// a line feed or starts or ends with white space.
pub proof fn law_csv_round_trip(items: Seq<ItemView>)
    requires
        items.len() > 0,
        forall|i: int| 0 <= i < items.len() ==> csv_safe_item(#[trigger] items[i]),
    ensures
        import_csv(csv_text(items)) == Ok::<Seq<ItemView>, CsvError>(items),
{
    lemma_header();
    let init = items.drop_last();
    let last = items.last();
    assert forall|i: int| 0 <= i < init.len() implies csv_safe_item(#[trigger] init[i]) by {
        assert(init[i] == items[i]);
    }
    lemma_line_item(last);
    lemma_row(last);
    let l = csv_line(last);
    let body = csv_text(init) + l;
    let text = csv_text(items);
    assert(text =~= body + seq!['\n']);
    assert(body[0] == 'i');
    assert(body.last() == l.last());
    assert(text[0] == 'i');
    assert(trim_start(text) == text);
    assert(text.drop_last() =~= body);
    assert(trim_end(text) == trim_end(body));
    assert(trim_end(body) == body);
    assert(trim(text) == body);
    lemma_text_lines(init, l);
    lemma_lines_last(l, Seq::empty(), seq![header_line()] + csv_lines(init));
    assert(Seq::<char>::empty() + l =~= l);
    assert((seq![header_line()] + csv_lines(init)).push(l) =~= seq![header_line()] + csv_lines(
        items,
    ));
    let ls = split_lines(body);
    assert(ls == seq![header_line()] + csv_lines(items));
    assert(ls[0] == header_line());
    assert(ls.drop_first() =~= csv_lines(items));
    assert(data_lines(body) == csv_lines(items));
    lemma_collect_rows(items);
}

} // verus!
