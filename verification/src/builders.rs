//! HTML builders for lists, selects and tables of serialized records.
//!
//! An item is what serializing a value gives: a record of named fields, each
//! a JSON string (shown as its text) or another JSON value (shown as its JSON
//! text), or a single such value.
use vstd::prelude::*;

use crate::text::{chars_of, is_whitespace, is_whitespace_exec, join, join_strings, push_str, str_eq, string_of, strings_view};

verus! {

/// A serialized value: a JSON string's text, or the JSON text of any other value.
#[derive(Debug)]
pub enum Cell {
    Text(String),
    Json(String),
}

/// A serialized item: a record of named fields, in their serialized order, or
/// a single value.
#[derive(Debug)]
pub enum Item {
    Record(Vec<(String, Cell)>),
    Value(Cell),
}

/// The text a value is shown as.
pub open spec fn cell_text(c: Cell) -> Seq<char> {
    match c {
        Cell::Text(s) => s@,
        Cell::Json(j) => j@,
    }
}

fn cell_str(c: &Cell) -> (r: &str)
    ensures
        r@ == cell_text(*c),
{
    match c {
        Cell::Text(s) => s.as_str(),
        Cell::Json(j) => j.as_str(),
    }
}

// ---------------------------------------------------------------------------
// Ignored field names
// ---------------------------------------------------------------------------

/// A character that separates field names: whitespace or a comma.
pub open spec fn is_field_sep(c: char) -> bool {
    is_whitespace(c) || c == ','
}

/// Reading `s` left to right: the names completed so far and the name being read.
pub open spec fn token_state(s: Seq<char>) -> (Seq<Seq<char>>, Seq<char>)
    decreases s.len(),
{
    if s.len() == 0 {
        (seq![], seq![])
    } else {
        let (done, cur) = token_state(s.drop_last());
        if is_field_sep(s.last()) {
            (if cur.len() > 0 {
                done.push(cur)
            } else {
                done
            }, seq![])
        } else {
            (done, cur.push(s.last()))
        }
    }
}

/// The field names listed in `s`: the non-empty runs between separators.
pub open spec fn ignore_tokens(s: Seq<char>) -> Seq<Seq<char>> {
    let (done, cur) = token_state(s);
    if cur.len() > 0 {
        done.push(cur)
    } else {
        done
    }
}

/// The field names listed in `fields`, split at whitespace and commas, empty
/// pieces dropped.
pub fn ignore_fields(fields: &str) -> (r: Vec<String>)
    ensures
        strings_view(r@) == ignore_tokens(fields@),
{
    let v = chars_of(fields);
    let mut done: Vec<String> = Vec::new();
    let mut cur: Vec<char> = Vec::new();
    let mut i: usize = 0;
    while i < v.len()
        invariant
            i <= v@.len(),
            v@ == fields@,
            (strings_view(done@), cur@) == token_state(v@.subrange(0, i as int)),
        decreases v@.len() - i,
    {
        let c = v[i];
        proof {
            assert(v@.subrange(0, i + 1).drop_last() =~= v@.subrange(0, i as int));
        }
        if is_whitespace_exec(c) || c == ',' {
            if cur.len() > 0 {
                let word = string_of(&cur);
                done.push(word);
                proof {
                    assert(strings_view(done@) =~= strings_view(done@.drop_last()).push(word@));
                    assert(done@.drop_last() =~= old_done(done@));
                }
                cur = Vec::new();
            }
        } else {
            cur.push(c);
        }
        i = i + 1;
    }
    assert(v@.subrange(0, v@.len() as int) =~= v@);
    if cur.len() > 0 {
        let word = string_of(&cur);
        done.push(word);
        assert(strings_view(done@) =~= strings_view(done@.drop_last()).push(word@));
    }
    done
}

/// All but the last element.
spec fn old_done(v: Seq<String>) -> Seq<String> {
    v.drop_last()
}

/// `k` is one of the ignored names.
pub open spec fn is_ignored(ignore: Seq<String>, k: Seq<char>) -> bool {
    exists|j: int| 0 <= j < ignore.len() && (#[trigger] ignore[j])@ == k
}

fn is_ignored_exec(ignore: &Vec<String>, k: &str) -> (r: bool)
    ensures
        r == is_ignored(ignore@, k@),
{
    let mut i: usize = 0;
    while i < ignore.len()
        invariant
            i <= ignore@.len(),
            forall|j: int| 0 <= j < i ==> (#[trigger] ignore@[j])@ != k@,
        decreases ignore@.len() - i,
    {
        if str_eq(ignore[i].as_str(), k) {
            return true;
        }
        i = i + 1;
    }
    false
}

// ---------------------------------------------------------------------------
// Item text
// ---------------------------------------------------------------------------

/// The `name: value` texts of a record's shown fields, in order.
pub open spec fn shown_pairs(fields: Seq<(String, Cell)>, ignore: Seq<String>) -> Seq<Seq<char>>
    decreases fields.len(),
{
    if fields.len() == 0 {
        seq![]
    } else {
        let rest = shown_pairs(fields.drop_last(), ignore);
        let (k, c) = fields.last();
        if is_ignored(ignore, k@) {
            rest
        } else {
            rest.push(k@ + ": "@ + cell_text(c))
        }
    }
}

/// The text an item is shown as: a record's shown fields as `name: value`
/// joined with `, `, or a single value's text.
pub open spec fn item_content(item: Item, ignore: Seq<String>) -> Seq<char> {
    match item {
        Item::Record(fields) => join(shown_pairs(fields@, ignore), ", "@),
        Item::Value(c) => cell_text(c),
    }
}

/// The text an item is shown as.
pub fn item_text(item: &Item, ignore: &Vec<String>) -> (r: String)
    ensures
        r@ == item_content(*item, ignore@),
{
    match item {
        Item::Record(fields) => {
            let mut pairs: Vec<String> = Vec::new();
            let mut i: usize = 0;
            while i < fields.len()
                invariant
                    i <= fields@.len(),
                    strings_view(pairs@) == shown_pairs(fields@.subrange(0, i as int), ignore@),
                decreases fields@.len() - i,
            {
                proof {
                    assert(fields@.subrange(0, i + 1).drop_last() =~= fields@.subrange(0, i as int));
                }
                let name = fields[i].0.as_str();
                if !is_ignored_exec(ignore, name) {
                    let mut p = String::from_str(name);
                    push_str(&mut p, ": ");
                    push_str(&mut p, cell_str(&fields[i].1));
                    pairs.push(p);
                    proof {
                        assert(strings_view(pairs@) =~= strings_view(pairs@.drop_last()).push(p@));
                        assert(pairs@.drop_last() =~= old_done(pairs@));
                    }
                }
                i = i + 1;
            }
            assert(fields@.subrange(0, fields@.len() as int) =~= fields@);
            join_strings(&pairs, ", ")
        },
        Item::Value(c) => String::from_str(cell_str(c)),
    }
}

// ---------------------------------------------------------------------------
// Tags
// ---------------------------------------------------------------------------

/// An opening tag with an optional class, as written before a list's items.
pub open spec fn open_line(name: Seq<char>, class: Option<String>) -> Seq<char> {
    match class {
        Some(c) => "<"@ + name + " class='"@ + c@ + "'>\n"@,
        None => "<"@ + name + ">\n"@,
    }
}

/// An element holding `content`, on a line of its own.
pub open spec fn element(name: Seq<char>, class: Option<String>, content: Seq<char>) -> Seq<char> {
    match class {
        Some(c) => "<"@ + name + " class='"@ + c@ + "'>"@ + content + "</"@ + name + ">\n"@,
        None => "<"@ + name + ">"@ + content + "</"@ + name + ">\n"@,
    }
}

/// The elements of all items, in order.
pub open spec fn elements(
    name: Seq<char>,
    class: Option<String>,
    items: Seq<Item>,
    ignore: Seq<String>,
) -> Seq<char>
    decreases items.len(),
{
    if items.len() == 0 {
        seq![]
    } else {
        elements(name, class, items.drop_last(), ignore) + element(
            name,
            class,
            item_content(items.last(), ignore),
        )
    }
}

/// A container holding one element per item.
pub open spec fn wrapped(
    outer: Seq<char>,
    inner: Seq<char>,
    outer_class: Option<String>,
    inner_class: Option<String>,
    items: Seq<Item>,
    ignore: Seq<String>,
) -> Seq<char> {
    open_line(outer, outer_class) + elements(inner, inner_class, items, ignore) + "</"@ + outer + ">"@
}

fn push_open_line(out: &mut String, name: &str, class: &Option<String>)
    ensures
        final(out)@ == old(out)@ + open_line(name@, *class),
{
    let ghost start = out@;
    push_str(out, "<");
    push_str(out, name);
    match class {
        Some(c) => {
            push_str(out, " class='");
            push_str(out, c.as_str());
            push_str(out, "'>\n");
        },
        None => {
            push_str(out, ">\n");
        },
    }
    assert(out@ =~= start + open_line(name@, *class));
}

fn push_element(out: &mut String, name: &str, class: &Option<String>, content: &str)
    ensures
        final(out)@ == old(out)@ + element(name@, *class, content@),
{
    let ghost start = out@;
    push_str(out, "<");
    push_str(out, name);
    match class {
        Some(c) => {
            push_str(out, " class='");
            push_str(out, c.as_str());
            push_str(out, "'>");
        },
        None => {
            push_str(out, ">");
        },
    }
    push_str(out, content);
    push_str(out, "</");
    push_str(out, name);
    push_str(out, ">\n");
    assert(out@ =~= start + element(name@, *class, content@));
}

fn build_wrapped(
    outer: &str,
    inner: &str,
    outer_class: &Option<String>,
    inner_class: &Option<String>,
    items: &Vec<Item>,
    ignore: &Vec<String>,
) -> (r: String)
    ensures
        r@ == wrapped(outer@, inner@, *outer_class, *inner_class, items@, ignore@),
{
    let mut html = String::new();
    push_open_line(&mut html, outer, outer_class);
    let ghost head = html@;
    let mut i: usize = 0;
    while i < items.len()
        invariant
            i <= items@.len(),
            html@ == head + elements(inner@, *inner_class, items@.subrange(0, i as int), ignore@),
        decreases items@.len() - i,
    {
        let content = item_text(&items[i], ignore);
        let ghost before = html@;
        push_element(&mut html, inner, inner_class, content.as_str());
        proof {
            let s = items@.subrange(0, i + 1);
            assert(s.drop_last() =~= items@.subrange(0, i as int));
            assert(s.last() == items@[i as int]);
            assert(html@ =~= head + elements(inner@, *inner_class, s, ignore@));
        }
        i = i + 1;
    }
    assert(items@.subrange(0, items@.len() as int) =~= items@);
    let ghost body = html@;
    push_str(&mut html, "</");
    push_str(&mut html, outer);
    push_str(&mut html, ">");
    assert(head =~= Seq::<char>::empty() + open_line(outer@, *outer_class));
    assert(html@ =~= wrapped(outer@, inner@, *outer_class, *inner_class, items@, ignore@));
    html
}

// ---------------------------------------------------------------------------
// Lists
// ---------------------------------------------------------------------------

/// The kind of list.
#[derive(Clone, Copy, Debug, PartialEq, Eq, Structural)]
pub enum ListType {
    Unordered,
    Ordered,
}

/// The tag of a list kind.
pub open spec fn list_tag(t: ListType) -> Seq<char> {
    match t {
        ListType::Ordered => "ol"@,
        ListType::Unordered => "ul"@,
    }
}

/// Builds an HTML list of items.
#[derive(Debug)]
pub struct ListBuilder {
    pub items: Vec<Item>,
    pub ignore: Vec<String>,
    pub list_type: ListType,
    pub list_class: Option<String>,
    pub item_class: Option<String>,
}

impl ListBuilder {
    /// A builder of the given kind, ignoring nothing and with no classes.
    pub fn new(list_type: ListType, items: Vec<Item>) -> (r: Self)
        ensures
            r.items@ == items@,
            r.ignore@.len() == 0,
            r.list_type == list_type,
            r.list_class is None,
            r.item_class is None,
    {
        ListBuilder { items, ignore: Vec::new(), list_type, list_class: None, item_class: None }
    }

    /// The builder ignoring the fields named in `fields` (separated by
    /// whitespace or commas), in place of those ignored before.
    pub fn with_ignore(self, fields: &str) -> (r: Self)
        ensures
            r.items@ == self.items@,
            strings_view(r.ignore@) == ignore_tokens(fields@),
            r.list_type == self.list_type,
            r.list_class == self.list_class,
            r.item_class == self.item_class,
    {
        ListBuilder { ignore: ignore_fields(fields), ..self }
    }

    /// The builder with the list's class set.
    pub fn with_list_class(self, class: &str) -> (r: Self)
        ensures
            r.items@ == self.items@,
            r.ignore@ == self.ignore@,
            r.list_type == self.list_type,
            r.list_class matches Some(c) && c@ == class@,
            r.item_class == self.item_class,
    {
        ListBuilder { list_class: Some(String::from_str(class)), ..self }
    }

    /// The builder with the items' class set.
    pub fn with_item_class(self, class: &str) -> (r: Self)
        ensures
            r.items@ == self.items@,
            r.ignore@ == self.ignore@,
            r.list_type == self.list_type,
            r.list_class == self.list_class,
            r.item_class matches Some(c) && c@ == class@,
    {
        ListBuilder { item_class: Some(String::from_str(class)), ..self }
    }

    /// The list's HTML: the opening tag on its own line, one `li` line per
    /// item, and the closing tag.
    pub fn build(&self) -> (r: String)
        ensures
            r@ == wrapped(list_tag(self.list_type), "li"@, self.list_class, self.item_class, self.items@, self.ignore@),
    {
        let tag = match self.list_type {
            ListType::Ordered => "ol",
            ListType::Unordered => "ul",
        };
        proof {
            reveal_strlit("ol");
            reveal_strlit("ul");
        }
        build_wrapped(tag, "li", &self.list_class, &self.item_class, &self.items, &self.ignore)
    }
}

// ---------------------------------------------------------------------------
// Selects
// ---------------------------------------------------------------------------

/// Builds an HTML select of items.
#[derive(Debug)]
pub struct SelectBuilder {
    pub items: Vec<Item>,
    pub ignore: Vec<String>,
    pub select_class: Option<String>,
    pub option_class: Option<String>,
}

impl SelectBuilder {
    /// A builder ignoring nothing and with no classes.
    pub fn new(items: Vec<Item>) -> (r: Self)
        ensures
            r.items@ == items@,
            r.ignore@.len() == 0,
            r.select_class is None,
            r.option_class is None,
    {
        SelectBuilder { items, ignore: Vec::new(), select_class: None, option_class: None }
    }

    /// The builder ignoring the fields named in `fields`.
    pub fn with_ignore(self, fields: &str) -> (r: Self)
        ensures
            r.items@ == self.items@,
            strings_view(r.ignore@) == ignore_tokens(fields@),
            r.select_class == self.select_class,
            r.option_class == self.option_class,
    {
        SelectBuilder { ignore: ignore_fields(fields), ..self }
    }

    /// The builder with the select's class set.
    pub fn with_select_class(self, class: &str) -> (r: Self)
        ensures
            r.items@ == self.items@,
            r.ignore@ == self.ignore@,
            r.select_class matches Some(c) && c@ == class@,
            r.option_class == self.option_class,
    {
        SelectBuilder { select_class: Some(String::from_str(class)), ..self }
    }

    /// The builder with the options' class set.
    pub fn with_option_class(self, class: &str) -> (r: Self)
        ensures
            r.items@ == self.items@,
            r.ignore@ == self.ignore@,
            r.select_class == self.select_class,
            r.option_class matches Some(c) && c@ == class@,
    {
        SelectBuilder { option_class: Some(String::from_str(class)), ..self }
    }

    /// The select's HTML: the opening tag on its own line, one `option` line
    /// per item, and the closing tag.
    pub fn build(&self) -> (r: String)
        ensures
            r@ == wrapped("select"@, "option"@, self.select_class, self.option_class, self.items@, self.ignore@),
    {
        build_wrapped("select", "option", &self.select_class, &self.option_class, &self.items, &self.ignore)
    }
}

// ---------------------------------------------------------------------------
// Tables
// ---------------------------------------------------------------------------

/// The names of a record's shown fields, in order.
pub open spec fn shown_keys(fields: Seq<(String, Cell)>, ignore: Seq<String>) -> Seq<Seq<char>>
    decreases fields.len(),
{
    if fields.len() == 0 {
        seq![]
    } else {
        let rest = shown_keys(fields.drop_last(), ignore);
        let k = fields.last().0;
        if is_ignored(ignore, k@) {
            rest
        } else {
            rest.push(k@)
        }
    }
}

/// A table's columns: the shown fields of its first item when that is a
/// record, none otherwise.
pub open spec fn columns_of(item: Item, ignore: Seq<String>) -> Seq<Seq<char>> {
    match item {
        Item::Record(fields) => shown_keys(fields@, ignore),
        Item::Value(_) => seq![],
    }
}

/// The first field of a record with the given name.
pub open spec fn field_lookup(fields: Seq<(String, Cell)>, k: Seq<char>) -> Option<Cell>
    decreases fields.len(),
{
    if fields.len() == 0 {
        None
    } else if fields[0].0@ == k {
        Some(fields[0].1)
    } else {
        field_lookup(fields.drop_first(), k)
    }
}

/// The text of a record's field with the given name; empty when it has none.
pub open spec fn lookup_text(fields: Seq<(String, Cell)>, k: Seq<char>) -> Seq<char> {
    match field_lookup(fields, k) {
        Some(c) => cell_text(c),
        None => seq![],
    }
}

/// A class attribute, or nothing.
pub open spec fn class_attr(class: Option<String>) -> Seq<char> {
    match class {
        Some(c) => " class='"@ + c@ + "'"@,
        None => seq![],
    }
}

/// An opening tag with an optional class.
pub open spec fn open_tag(name: Seq<char>, class: Option<String>) -> Seq<char> {
    match class {
        Some(c) => "<"@ + name + " class='"@ + c@ + "'>"@,
        None => "<"@ + name + ">"@,
    }
}

/// The header cells of the columns.
pub open spec fn header_cells(cols: Seq<Seq<char>>) -> Seq<char>
    decreases cols.len(),
{
    if cols.len() == 0 {
        seq![]
    } else {
        header_cells(cols.drop_last()) + "<th>"@ + cols.last() + "</th>"@
    }
}

/// A record's cells, one per column.
pub open spec fn row_cells(fields: Seq<(String, Cell)>, cols: Seq<Seq<char>>, td_class: Option<String>) -> Seq<
    char,
>
    decreases cols.len(),
{
    if cols.len() == 0 {
        seq![]
    } else {
        row_cells(fields, cols.drop_last(), td_class) + "<td"@ + class_attr(td_class) + ">"@ + lookup_text(
            fields,
            cols.last(),
        ) + "</td>"@
    }
}

/// An item's row: a record's cells in a `tr` line; nothing for a single value.
pub open spec fn row_of(
    item: Item,
    cols: Seq<Seq<char>>,
    tr_class: Option<String>,
    td_class: Option<String>,
) -> Seq<char> {
    match item {
        Item::Record(fields) => "<tr"@ + class_attr(tr_class) + ">"@ + row_cells(fields@, cols, td_class)
            + "</tr>\n"@,
        Item::Value(_) => seq![],
    }
}

/// The rows of all items, in order.
pub open spec fn body_rows(
    items: Seq<Item>,
    cols: Seq<Seq<char>>,
    tr_class: Option<String>,
    td_class: Option<String>,
) -> Seq<char>
    decreases items.len(),
{
    if items.len() == 0 {
        seq![]
    } else {
        body_rows(items.drop_last(), cols, tr_class, td_class) + row_of(items.last(), cols, tr_class, td_class)
    }
}

/// Builds an HTML table of records.
#[derive(Debug)]
pub struct TableBuilder {
    pub items: Vec<Item>,
    pub ignore: Vec<String>,
    pub table_class: Option<String>,
    pub thead_class: Option<String>,
    pub tr_class: Option<String>,
    pub td_class: Option<String>,
}

impl TableBuilder {
    /// The table's HTML: `<table></table>` for no items; otherwise a header
    /// row naming the first item's shown fields, and one row per record item
    /// with, for each column, that field's text.
    pub open spec fn html(&self) -> Seq<char> {
        if self.items@.len() == 0 {
            "<table></table>"@
        } else {
            let cols = columns_of(self.items@[0], self.ignore@);
            open_tag("table"@, self.table_class) + "\n"@ + open_tag("thead"@, self.thead_class) + "<tr"@
                + class_attr(self.tr_class) + ">"@ + header_cells(cols) + "</tr></thead>\n<tbody>\n"@
                + body_rows(self.items@, cols, self.tr_class, self.td_class) + "</tbody>\n</table>"@
        }
    }

    /// A builder ignoring nothing and with no classes.
    pub fn new(items: Vec<Item>) -> (r: Self)
        ensures
            r.items@ == items@,
            r.ignore@.len() == 0,
            r.table_class is None,
            r.thead_class is None,
            r.tr_class is None,
            r.td_class is None,
    {
        TableBuilder {
            items,
            ignore: Vec::new(),
            table_class: None,
            thead_class: None,
            tr_class: None,
            td_class: None,
        }
    }

    /// The builder ignoring the fields named in `fields`.
    pub fn with_ignore(self, fields: &str) -> (r: Self)
        ensures
            r.items@ == self.items@,
            strings_view(r.ignore@) == ignore_tokens(fields@),
            r.table_class == self.table_class,
            r.thead_class == self.thead_class,
            r.tr_class == self.tr_class,
            r.td_class == self.td_class,
    {
        TableBuilder { ignore: ignore_fields(fields), ..self }
    }

    /// The builder with the table's class set.
    pub fn with_table_class(self, class: &str) -> (r: Self)
        ensures
            r.items@ == self.items@,
            r.ignore@ == self.ignore@,
            r.table_class matches Some(c) && c@ == class@,
            r.thead_class == self.thead_class,
            r.tr_class == self.tr_class,
            r.td_class == self.td_class,
    {
        TableBuilder { table_class: Some(String::from_str(class)), ..self }
    }

    /// The builder with the header's class set.
    pub fn with_thead_class(self, class: &str) -> (r: Self)
        ensures
            r.items@ == self.items@,
            r.ignore@ == self.ignore@,
            r.table_class == self.table_class,
            r.thead_class matches Some(c) && c@ == class@,
            r.tr_class == self.tr_class,
            r.td_class == self.td_class,
    {
        TableBuilder { thead_class: Some(String::from_str(class)), ..self }
    }

    /// The builder with the rows' class set.
    pub fn with_tr_class(self, class: &str) -> (r: Self)
        ensures
            r.items@ == self.items@,
            r.ignore@ == self.ignore@,
            r.table_class == self.table_class,
            r.thead_class == self.thead_class,
            r.tr_class matches Some(c) && c@ == class@,
            r.td_class == self.td_class,
    {
        TableBuilder { tr_class: Some(String::from_str(class)), ..self }
    }

    /// The builder with the cells' class set.
    pub fn with_td_class(self, class: &str) -> (r: Self)
        ensures
            r.items@ == self.items@,
            r.ignore@ == self.ignore@,
            r.table_class == self.table_class,
            r.thead_class == self.thead_class,
            r.tr_class == self.tr_class,
            r.td_class matches Some(c) && c@ == class@,
    {
        TableBuilder { td_class: Some(String::from_str(class)), ..self }
    }

    /// The table's HTML.
    pub fn build(&self) -> (r: String)
        ensures
            r@ == self.html(),
    {
        if self.items.len() == 0 {
            return String::from_str("<table></table>");
        }
        let cols = table_columns(&self.items[0], &self.ignore);
        let mut html = String::new();
        push_open_tag(&mut html, "table", &self.table_class);
        push_str(&mut html, "\n");
        push_open_tag(&mut html, "thead", &self.thead_class);
        push_str(&mut html, "<tr");
        push_class_attr(&mut html, &self.tr_class);
        push_str(&mut html, ">");
        let ghost pre_head = html@;
        let mut i: usize = 0;
        while i < cols.len()
            invariant
                i <= cols@.len(),
                html@ == pre_head + header_cells(strings_view(cols@.subrange(0, i as int))),
            decreases cols@.len() - i,
        {
            push_str(&mut html, "<th>");
            push_str(&mut html, cols[i].as_str());
            push_str(&mut html, "</th>");
            proof {
                let s = strings_view(cols@.subrange(0, i + 1));
                assert(s.drop_last() =~= strings_view(cols@.subrange(0, i as int)));
                assert(s.last() == cols@[i as int]@);
                assert(html@ =~= pre_head + header_cells(s));
            }
            i = i + 1;
        }
        assert(cols@.subrange(0, cols@.len() as int) =~= cols@);
        push_str(&mut html, "</tr></thead>\n<tbody>\n");
        let ghost pre_body = html@;
        let mut j: usize = 0;
        while j < self.items.len()
            invariant
                j <= self.items@.len(),
                html@ == pre_body + body_rows(
                    self.items@.subrange(0, j as int),
                    strings_view(cols@),
                    self.tr_class,
                    self.td_class,
                ),
            decreases self.items@.len() - j,
        {
            push_row(&mut html, &self.items[j], &cols, &self.tr_class, &self.td_class);
            proof {
                let s = self.items@.subrange(0, j + 1);
                assert(s.drop_last() =~= self.items@.subrange(0, j as int));
                assert(s.last() == self.items@[j as int]);
                assert(html@ =~= pre_body + body_rows(s, strings_view(cols@), self.tr_class, self.td_class));
            }
            j = j + 1;
        }
        assert(self.items@.subrange(0, self.items@.len() as int) =~= self.items@);
        push_str(&mut html, "</tbody>\n</table>");
        assert(html@ =~= self.html());
        html
    }
}

fn table_columns(item: &Item, ignore: &Vec<String>) -> (r: Vec<String>)
    ensures
        strings_view(r@) == columns_of(*item, ignore@),
{
    let mut cols: Vec<String> = Vec::new();
    match item {
        Item::Record(fields) => {
            let mut i: usize = 0;
            while i < fields.len()
                invariant
                    i <= fields@.len(),
                    strings_view(cols@) == shown_keys(fields@.subrange(0, i as int), ignore@),
                decreases fields@.len() - i,
            {
                proof {
                    assert(fields@.subrange(0, i + 1).drop_last() =~= fields@.subrange(0, i as int));
                }
                let name = fields[i].0.as_str();
                if !is_ignored_exec(ignore, name) {
                    let k = String::from_str(name);
                    cols.push(k);
                    proof {
                        assert(strings_view(cols@) =~= strings_view(cols@.drop_last()).push(k@));
                        assert(cols@.drop_last() =~= old_done(cols@));
                    }
                }
                i = i + 1;
            }
            assert(fields@.subrange(0, fields@.len() as int) =~= fields@);
        },
        Item::Value(_) => {
            assert(strings_view(cols@) =~= Seq::<Seq<char>>::empty());
        },
    }
    cols
}

fn lookup_exec<'a>(fields: &'a Vec<(String, Cell)>, k: &str) -> (r: &'a str)
    ensures
        r@ == lookup_text(fields@, k@),
{
    let mut i: usize = 0;
    assert(fields@.subrange(0, fields@.len() as int) =~= fields@);
    while i < fields.len()
        invariant
            i <= fields@.len(),
            field_lookup(fields@, k@) == field_lookup(fields@.subrange(i as int, fields@.len() as int), k@),
        decreases fields@.len() - i,
    {
        let ghost rest = fields@.subrange(i as int, fields@.len() as int);
        if str_eq(fields[i].0.as_str(), k) {
            assert(rest[0] == fields@[i as int]);
            return cell_str(&fields[i].1);
        }
        assert(rest.drop_first() =~= fields@.subrange(i + 1, fields@.len() as int));
        i = i + 1;
    }
    assert(fields@.subrange(i as int, fields@.len() as int) =~= Seq::<(String, Cell)>::empty());
    proof {
        reveal_strlit("");
    }
    ""
}

fn push_open_tag(out: &mut String, name: &str, class: &Option<String>)
    ensures
        final(out)@ == old(out)@ + open_tag(name@, *class),
{
    let ghost start = out@;
    push_str(out, "<");
    push_str(out, name);
    match class {
        Some(c) => {
            push_str(out, " class='");
            push_str(out, c.as_str());
            push_str(out, "'>");
        },
        None => {
            push_str(out, ">");
        },
    }
    assert(out@ =~= start + open_tag(name@, *class));
}

fn push_class_attr(out: &mut String, class: &Option<String>)
    ensures
        final(out)@ == old(out)@ + class_attr(*class),
{
    let ghost start = out@;
    match class {
        Some(c) => {
            push_str(out, " class='");
            push_str(out, c.as_str());
            push_str(out, "'");
        },
        None => {},
    }
    assert(out@ =~= start + class_attr(*class));
}

fn push_row(
    out: &mut String,
    item: &Item,
    cols: &Vec<String>,
    tr_class: &Option<String>,
    td_class: &Option<String>,
)
    ensures
        final(out)@ == old(out)@ + row_of(*item, strings_view(cols@), *tr_class, *td_class),
{
    let ghost start = out@;
    match item {
        Item::Record(fields) => {
            push_str(out, "<tr");
            push_class_attr(out, tr_class);
            push_str(out, ">");
            let ghost pre = out@;
            let mut i: usize = 0;
            while i < cols.len()
                invariant
                    i <= cols@.len(),
                    out@ == pre + row_cells(fields@, strings_view(cols@.subrange(0, i as int)), *td_class),
                decreases cols@.len() - i,
            {
                push_str(out, "<td");
                push_class_attr(out, td_class);
                push_str(out, ">");
                push_str(out, lookup_exec(fields, cols[i].as_str()));
                push_str(out, "</td>");
                proof {
                    let s = strings_view(cols@.subrange(0, i + 1));
                    assert(s.drop_last() =~= strings_view(cols@.subrange(0, i as int)));
                    assert(s.last() == cols@[i as int]@);
                    assert(out@ =~= pre + row_cells(fields@, s, *td_class));
                }
                i = i + 1;
            }
            assert(cols@.subrange(0, cols@.len() as int) =~= cols@);
            push_str(out, "</tr>\n");
            assert(out@ =~= start + row_of(*item, strings_view(cols@), *tr_class, *td_class));
        },
        Item::Value(_) => {
            assert(out@ =~= start + row_of(*item, strings_view(cols@), *tr_class, *td_class));
        },
    }
}

} // verus!
