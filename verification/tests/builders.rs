use catalyst::builders::{ignore_fields, Cell, Item, ListBuilder, ListType, SelectBuilder, TableBuilder};
use catalyst::htmx::{HtmxInfo, HtmxWarning, IntoHtmx, MessageType};
use catalyst::meltdown::{MeltDown, MeltType};

fn record(fields: &[(&str, Cell)]) -> Item {
    Item::Record(fields.iter().map(|(k, c)| (k.to_string(), clone_cell(c))).collect())
}

fn clone_cell(c: &Cell) -> Cell {
    match c {
        Cell::Text(s) => Cell::Text(s.clone()),
        Cell::Json(s) => Cell::Json(s.clone()),
    }
}

fn people() -> Vec<Item> {
    vec![
        record(&[("age", Cell::Json("30".to_string())), ("name", Cell::Text("Ann".to_string()))]),
        record(&[("age", Cell::Json("41".to_string())), ("name", Cell::Text("Bo".to_string()))]),
    ]
}

#[test]
fn ignored_fields_are_split_on_spaces_and_commas() {
    assert_eq!(ignore_fields(" id, password_hash  created_at,"), vec!["id", "password_hash", "created_at"]);
    assert!(ignore_fields(" , ,").is_empty());
}

#[test]
fn lists_render_records_and_values() {
    let html = ListBuilder::new(ListType::Unordered, people()).build();
    assert_eq!(html, "<ul>\n<li>age: 30, name: Ann</li>\n<li>age: 41, name: Bo</li>\n</ul>");
    let html = ListBuilder::new(ListType::Ordered, people())
        .with_ignore("age")
        .with_list_class("l")
        .with_item_class("i")
        .build();
    assert_eq!(html, "<ol class='l'>\n<li class='i'>name: Ann</li>\n<li class='i'>name: Bo</li>\n</ol>");
    let html = ListBuilder::new(ListType::Unordered, vec![Item::Value(Cell::Text("x".to_string()))]).build();
    assert_eq!(html, "<ul>\n<li>x</li>\n</ul>");
}

#[test]
fn selects_render_options() {
    let html = SelectBuilder::new(people()).with_ignore("name").with_select_class("s").build();
    assert_eq!(html, "<select class='s'>\n<option>age: 30</option>\n<option>age: 41</option>\n</select>");
    let html = SelectBuilder::new(vec![]).with_option_class("o").build();
    assert_eq!(html, "<select>\n</select>");
}

#[test]
fn tables_take_columns_from_the_first_record() {
    assert_eq!(TableBuilder::new(vec![]).build(), "<table></table>");
    let html = TableBuilder::new(people()).with_ignore("age").build();
    assert_eq!(
        html,
        "<table>\n<thead><tr><th>name</th></tr></thead>\n<tbody>\n<tr><td>Ann</td></tr>\n<tr><td>Bo</td></tr>\n</tbody>\n</table>"
    );
    let items = vec![
        record(&[("a", Cell::Json("1".to_string()))]),
        Item::Value(Cell::Text("skipped".to_string())),
        record(&[("b", Cell::Json("2".to_string()))]),
    ];
    let html = TableBuilder::new(items)
        .with_table_class("t")
        .with_thead_class("h")
        .with_tr_class("r")
        .with_td_class("d")
        .build();
    assert_eq!(
        html,
        "<table class='t'>\n<thead class='h'><tr class='r'><th>a</th></tr></thead>\n<tbody>\n<tr class='r'><td class='d'>1</td></tr>\n<tr class='r'><td class='d'></td></tr>\n</tbody>\n</table>"
    );
}

#[test]
fn results_become_error_notifications() {
    let r: Result<i32, MeltDown> = Err(MeltDown::new(MeltType::NotFound, "Post"));
    let h = r.into_htmx().err().unwrap();
    assert_eq!(h.status().code, 404);
    assert_eq!(h.html(), "Post not found.");
    assert_eq!(h.message_type(), MessageType::Error);
    assert_eq!(h.headers()[0].1, "notification");
    let ok: Result<i32, MeltDown> = Ok(1);
    let h = ok.into_htmx().err().unwrap();
    assert_eq!(h.status().code, 500);
    assert_eq!(HtmxWarning::with_notification("w").headers()[1].1, "warning");
    assert_eq!(HtmxInfo::with_content("i").message_type(), MessageType::Info);
    assert_eq!(HtmxInfo::with_content("i").with_location("/l").headers()[2].0, "HX-Location");
}
