use tracing_defmt::location::lookup;
use tracing_defmt::location::Location;
use tracing_defmt::scope::ScopeStack;
use tracing_defmt::sink::make_event_attributes;
use tracing_defmt::sink::make_scope_attributes;
use tracing_defmt::sink::AttrValue;
use tracing_defmt::sink::Attribute;
use tracing_defmt::sink::SinkCall;

fn at(file: &str, line: u64, module: &str) -> Location {
    Location { file: file.to_string(), line, module: module.to_string() }
}

fn text(key: &str, value: &str) -> Attribute {
    Attribute { key: key.to_string(), value: AttrValue::Text(value.to_string()) }
}

fn number(key: &str, value: u64) -> Attribute {
    Attribute { key: key.to_string(), value: AttrValue::Number(value) }
}

#[test]
fn scope_attributes_follow_the_fixed_mapping() {
    let attrs = make_scope_attributes("f(x=1)", &at("src/a.rs", 42, "app::a"));
    assert_eq!(
        attrs,
        vec![
            text("code.function", "f(x=1)"),
            text("code.filepath", "src/a.rs"),
            number("code.lineno", 42),
            text("code.namespace", "app::a"),
        ]
    );
}

#[test]
fn event_attributes_follow_the_fixed_mapping() {
    let attrs = make_event_attributes(&at("src/a.rs", u64::MAX, "app::a"));
    assert_eq!(
        attrs,
        vec![
            text("code.filepath", "src/a.rs"),
            number("code.lineno", u64::MAX),
            text("code.namespace", "app::a"),
        ]
    );
}

#[test]
fn new_stack_is_empty() {
    let stack = ScopeStack::new();
    assert_eq!(stack.depth(), 0);
    assert_eq!(stack.top(), None);
}

#[test]
fn stack_nests_and_unnests() {
    let loc = at("f.rs", 1, "m");
    let mut stack = ScopeStack::new();
    let mut calls = Vec::new();
    stack.enter("a".to_string(), &loc, &mut calls);
    assert_eq!(stack.top(), Some(0));
    stack.enter("b".to_string(), &loc, &mut calls);
    assert_eq!(stack.top(), Some(1));
    assert_eq!(stack.depth(), 2);
    stack.log("msg", &loc, &mut calls);
    stack.exit(&mut calls);
    assert_eq!(stack.top(), Some(0));
    stack.exit(&mut calls);
    assert_eq!(stack.top(), None);
    stack.exit(&mut calls);
    assert_eq!(stack.depth(), 0);
    assert_eq!(calls.len(), 6);
    assert_eq!(
        calls[1],
        SinkCall::Begin {
            handle: 1,
            parent: Some(0),
            name: "b".to_string(),
            attributes: make_scope_attributes("b", &loc),
        }
    );
    assert_eq!(
        calls[2],
        SinkCall::Event {
            scope: Some(1),
            message: "msg".to_string(),
            attributes: make_event_attributes(&loc),
        }
    );
    assert_eq!(calls[3], SinkCall::Mirror { text: "msg".to_string() });
    assert_eq!(calls[4], SinkCall::End { handle: 1 });
    assert_eq!(calls[5], SinkCall::End { handle: 0 });
}

#[test]
fn close_all_appends_behind_what_is_there() {
    let loc = at("f.rs", 1, "m");
    let mut stack = ScopeStack::new();
    let mut calls = Vec::new();
    stack.enter("a".to_string(), &loc, &mut calls);
    stack.enter("b".to_string(), &loc, &mut calls);
    stack.close_all(&mut calls);
    assert_eq!(calls.len(), 4);
    assert_eq!(calls[2], SinkCall::End { handle: 1 });
    assert_eq!(calls[3], SinkCall::End { handle: 0 });
    assert_eq!(stack.depth(), 0);
}

#[test]
fn lookup_falls_back_to_the_placeholder() {
    let mut table = std::collections::BTreeMap::new();
    table.insert(7u64, at("src/x.rs", 3, "x"));
    assert_eq!(lookup(&table, 7), at("src/x.rs", 3, "x"));
    assert_eq!(lookup(&table, 8), at("", 0, "rp_pico"));
}
