use prometheus_metric_storage::declaration::{
    contains_text, expand, initializer, initializers, Attribute, AttributeBody, DeclarationError, Fault,
    FieldDeclaration, Key, ListItem, Literal, Meta, MetaValue, MetricAttrs, NestedItem, StructDeclaration,
};

fn text(value: &str) -> Literal {
    Literal::Str(value.to_string())
}

fn param(name: &str, value: &str) -> NestedItem {
    NestedItem::Meta(Meta { path: name.to_string(), value: MetaValue::NameValue(text(value)) })
}

fn strings(name: &str, values: &[&str]) -> NestedItem {
    let items = values.iter().map(|v| ListItem::Lit(text(v))).collect();
    NestedItem::Meta(Meta { path: name.to_string(), value: MetaValue::List(items) })
}

fn numbers(name: &str, values: Vec<Literal>) -> NestedItem {
    let items = values.into_iter().map(ListItem::Lit).collect();
    NestedItem::Meta(Meta { path: name.to_string(), value: MetaValue::List(items) })
}

fn metric(items: Vec<NestedItem>) -> Attribute {
    Attribute { path: "metric".to_string(), body: AttributeBody::List(items) }
}

fn doc(value: &str) -> Attribute {
    Attribute { path: "doc".to_string(), body: AttributeBody::NameValue(text(value)) }
}

fn fault(parsed: Result<MetricAttrs, DeclarationError>) -> (Fault, Option<usize>, Option<usize>, Option<usize>) {
    let e = parsed.unwrap_err();
    assert_eq!(e.field, None);
    (e.fault, e.attribute, e.parameter, e.element)
}

#[test]
fn struct_level_parameters_are_read() {
    let attrs = vec![
        doc(" Metrics of the transport. "),
        metric(vec![param("subsystem", "transport"), strings("labels", &["endpoint", "region"])]),
    ];
    let read = MetricAttrs::parse(&attrs, true).unwrap();
    assert_eq!(read.subsystem.as_deref(), Some("transport"));
    assert_eq!(read.labels, Some(vec!["endpoint".to_string(), "region".to_string()]));
    assert_eq!(read.help.as_deref(), Some("Metrics of the transport."));
    assert_eq!(read.name, None);
    assert_eq!(read.buckets, None);
}

#[test]
fn field_level_parameters_are_read() {
    let attrs = vec![
        metric(vec![param("name", "requests")]),
        Attribute { path: "allow".to_string(), body: AttributeBody::Malformed },
        metric(vec![
            param("help", "Number of requests."),
            strings("labels", &["url", "status"]),
            numbers(
                "buckets",
                vec![Literal::Float("0.1".to_string()), Literal::Int("1".to_string()), Literal::Float("2.5".to_string())],
            ),
        ]),
        doc(" Ignored, because help is set. "),
    ];
    let read = MetricAttrs::parse(&attrs, false).unwrap();
    assert_eq!(read.subsystem, None);
    assert_eq!(read.name.as_deref(), Some("requests"));
    assert_eq!(read.help.as_deref(), Some("Number of requests."));
    assert_eq!(read.labels, Some(vec!["url".to_string(), "status".to_string()]));
    assert_eq!(read.buckets, Some(vec!["0.1".to_string(), "1".to_string(), "2.5".to_string()]));
}

#[test]
fn no_attributes_set_nothing() {
    let read = MetricAttrs::parse(&Vec::new(), false).unwrap();
    assert!(read.subsystem.is_none() && read.name.is_none() && read.help.is_none());
    assert!(read.labels.is_none() && read.buckets.is_none());
    let read = MetricAttrs::new();
    assert!(read.subsystem.is_none() && read.name.is_none() && read.help.is_none());
}

#[test]
fn help_falls_back_to_the_first_doc_text() {
    let attrs = vec![
        Attribute { path: "doc".to_string(), body: AttributeBody::Path },
        Attribute { path: "doc".to_string(), body: AttributeBody::NameValue(Literal::Other) },
        doc("\t First line. \n"),
        doc(" Second line."),
        Attribute { path: "doc".to_string(), body: AttributeBody::Malformed },
    ];
    let read = MetricAttrs::parse(&attrs, false).unwrap();
    assert_eq!(read.help.as_deref(), Some("First line."));
    let read = MetricAttrs::parse(&vec![doc("   ")], false).unwrap();
    assert_eq!(read.help.as_deref(), Some(""));
}

#[test]
fn malformed_attributes_are_faults_where_they_are_read() {
    let bad = |path: &str| Attribute { path: path.to_string(), body: AttributeBody::Malformed };
    assert_eq!(fault(MetricAttrs::parse(&vec![doc("a"), bad("metric")], false)), (Fault::Malformed, Some(1), None, None));
    assert_eq!(fault(MetricAttrs::parse(&vec![bad("doc")], true)), (Fault::Malformed, Some(0), None, None));
    assert!(MetricAttrs::parse(&vec![doc("a"), bad("doc"), bad("serde")], true).is_ok());
}

#[test]
fn metric_attribute_must_hold_a_list() {
    let path = Attribute { path: "metric".to_string(), body: AttributeBody::Path };
    assert_eq!(fault(MetricAttrs::parse(&vec![path], false)), (Fault::NotAList, Some(0), None, None));
    let value = Attribute { path: "metric".to_string(), body: AttributeBody::NameValue(text("x")) };
    assert_eq!(fault(MetricAttrs::parse(&vec![metric(vec![]), value], true)), (Fault::NotAList, Some(1), None, None));
}

#[test]
fn literal_in_place_of_a_parameter_is_a_fault() {
    let attrs = vec![metric(vec![param("name", "x"), NestedItem::Lit])];
    assert_eq!(fault(MetricAttrs::parse(&attrs, false)), (Fault::ExpectedNamedParameter, Some(0), Some(1), None));
}

#[test]
fn parameters_belong_to_one_level() {
    for name in ["name", "help", "buckets", "unknown", "metric::labels", ""] {
        let attrs = vec![metric(vec![param(name, "x")])];
        assert_eq!(
            fault(MetricAttrs::parse(&attrs, true)),
            (Fault::UnexpectedParameter, Some(0), Some(0), None),
            "{}",
            name
        );
    }
    for name in ["subsystem", "unknown", "Name"] {
        let attrs = vec![metric(vec![strings("labels", &[]), param(name, "x")])];
        assert_eq!(
            fault(MetricAttrs::parse(&attrs, false)),
            (Fault::UnexpectedParameter, Some(0), Some(1), None),
            "{}",
            name
        );
    }
}

#[test]
fn parameter_is_set_once() {
    let twice = |first: NestedItem, second: NestedItem, level: bool| {
        fault(MetricAttrs::parse(&vec![metric(vec![first]), metric(vec![second])], level))
    };
    assert_eq!(
        twice(param("subsystem", "a"), param("subsystem", "b"), true),
        (Fault::Redefined(Key::Subsystem), Some(1), Some(0), None)
    );
    assert_eq!(twice(param("name", "a"), param("name", "a"), false), (Fault::Redefined(Key::Name), Some(1), Some(0), None));
    assert_eq!(twice(param("help", "a"), param("help", ""), false), (Fault::Redefined(Key::Help), Some(1), Some(0), None));
    assert_eq!(
        twice(strings("labels", &[]), param("labels", "x"), true),
        (Fault::Redefined(Key::Labels), Some(1), Some(0), None)
    );
    assert_eq!(
        twice(numbers("buckets", vec![]), numbers("buckets", vec![]), false),
        (Fault::Redefined(Key::Buckets), Some(1), Some(0), None)
    );
}

#[test]
fn values_have_the_shape_that_the_parameter_asks_for() {
    let one = |item: NestedItem, level: bool| fault(MetricAttrs::parse(&vec![metric(vec![item])], level));
    let meta = |name: &str, value: MetaValue| NestedItem::Meta(Meta { path: name.to_string(), value });
    assert_eq!(one(meta("subsystem", MetaValue::Path), true), (Fault::ExpectedValue, Some(0), Some(0), None));
    assert_eq!(one(strings("name", &["x"]), false), (Fault::ExpectedValue, Some(0), Some(0), None));
    assert_eq!(
        one(meta("help", MetaValue::NameValue(Literal::Int("1".to_string()))), false),
        (Fault::ExpectedString, Some(0), Some(0), None)
    );
    assert_eq!(one(param("labels", "x"), true), (Fault::ExpectedList, Some(0), Some(0), None));
    assert_eq!(one(meta("buckets", MetaValue::Path), false), (Fault::ExpectedList, Some(0), Some(0), None));
    let list = |name: &str, items: Vec<ListItem>| meta(name, MetaValue::List(items));
    assert_eq!(
        one(list("labels", vec![ListItem::Lit(text("a")), ListItem::Meta]), false),
        (Fault::ExpectedValue, Some(0), Some(0), Some(1))
    );
    assert_eq!(
        one(list("labels", vec![ListItem::Lit(Literal::Float("1.0".to_string()))]), false),
        (Fault::ExpectedString, Some(0), Some(0), Some(0))
    );
    assert_eq!(
        one(list("buckets", vec![ListItem::Lit(Literal::Int("1".to_string())), ListItem::Meta]), false),
        (Fault::ExpectedValue, Some(0), Some(0), Some(1))
    );
    assert_eq!(
        one(list("buckets", vec![ListItem::Lit(text("1"))]), false),
        (Fault::ExpectedNumber, Some(0), Some(0), Some(0))
    );
    assert_eq!(
        one(list("buckets", vec![ListItem::Lit(Literal::Other)]), false),
        (Fault::ExpectedNumber, Some(0), Some(0), Some(0))
    );
}

#[test]
fn label_may_not_occur_twice_in_a_list() {
    let attrs = vec![metric(vec![strings("labels", &["a", "b", "c", "b", "a"])])];
    assert_eq!(fault(MetricAttrs::parse(&attrs, true)), (Fault::DuplicateLabel, Some(0), Some(0), Some(3)));
    assert!(contains_text(&vec!["a".to_string(), "b".to_string()], "b"));
    assert!(!contains_text(&vec!["a".to_string(), "b".to_string()], "c"));
}

#[test]
fn first_fault_is_the_one_reported() {
    let attrs = vec![
        metric(vec![param("name", "x"), param("subsystem", "y"), NestedItem::Lit]),
        Attribute { path: "metric".to_string(), body: AttributeBody::Path },
    ];
    assert_eq!(fault(MetricAttrs::parse(&attrs, false)), (Fault::UnexpectedParameter, Some(0), Some(1), None));
}

#[test]
fn single_steps_of_the_reading() {
    let meta = Meta { path: "name".to_string(), value: MetaValue::NameValue(text("x")) };
    assert!(matches!(MetricAttrs::meta_to_value(&meta), Ok(Literal::Str(_))));
    assert_eq!(MetricAttrs::meta_to_list(&meta).unwrap_err(), Fault::ExpectedList);
    let list = Meta { path: "labels".to_string(), value: MetaValue::List(vec![ListItem::Meta]) };
    assert_eq!(MetricAttrs::meta_to_list(&list).unwrap().len(), 1);
    assert_eq!(MetricAttrs::meta_to_value(&list).unwrap_err(), Fault::ExpectedValue);
    assert_eq!(MetricAttrs::nested_meta_to_value(&ListItem::Meta).unwrap_err(), Fault::ExpectedValue);
    assert!(matches!(MetricAttrs::nested_meta_to_value(&ListItem::Lit(Literal::Other)), Ok(Literal::Other)));
    assert_eq!(MetricAttrs::value_to_string(&text("abc")).unwrap(), "abc");
    assert_eq!(MetricAttrs::value_to_string(&Literal::Int("1".to_string())).unwrap_err(), Fault::ExpectedString);
    assert_eq!(MetricAttrs::value_to_float(&Literal::Int("10".to_string())).unwrap(), "10");
    assert_eq!(MetricAttrs::value_to_float(&Literal::Float("1e3".to_string())).unwrap(), "1e3");
    assert_eq!(MetricAttrs::value_to_float(&text("1")).unwrap_err(), Fault::ExpectedNumber);
    assert!(MetricAttrs::check_none(Key::Name, false, 1, 2).is_ok());
    let e = MetricAttrs::check_none(Key::Name, true, 1, 2).unwrap_err();
    assert_eq!((e.fault, e.field, e.attribute, e.parameter, e.element), (Fault::Redefined(Key::Name), None, Some(1), Some(2), None));
    let mut attrs = MetricAttrs::new();
    assert!(attrs.parse_parameter(&meta, false, 0, 0).is_ok());
    assert_eq!(attrs.name.as_deref(), Some("x"));
    assert_eq!(attrs.parse_name(&meta, 3, 4).unwrap_err().fault, Fault::Redefined(Key::Name));
    assert_eq!(attrs.parse_parameter(&meta, true, 0, 0).unwrap_err().fault, Fault::UnexpectedParameter);
    assert!(attrs.parse_items(&vec![strings("labels", &["a"]), param("help", "h")], false, 0).is_ok());
    assert_eq!(attrs.labels, Some(vec!["a".to_string()]));
    assert_eq!(attrs.help.as_deref(), Some("h"));
}

fn field(ident: Option<&str>, attrs: Vec<Attribute>) -> FieldDeclaration {
    FieldDeclaration { ident: ident.map(|i| i.to_string()), attrs }
}

#[test]
fn field_declares_its_metric() {
    let plan = initializer(&field(Some("inflight"), vec![doc(" Number of requests in flight.")]), 0).unwrap();
    assert_eq!(plan.name, "inflight");
    assert_eq!(plan.help, "Number of requests in flight.");
    assert!(plan.labels.is_empty());
    assert!(plan.buckets.is_none());
    let attrs = vec![
        metric(vec![param("name", "requests"), param("help", "Requests."), strings("labels", &["status"])]),
        metric(vec![numbers("buckets", vec![Literal::Float("0.5".to_string())])]),
    ];
    let plan = initializer(&field(None, attrs), 0).unwrap();
    assert_eq!(plan.name, "requests");
    assert_eq!(plan.help, "Requests.");
    assert_eq!(plan.labels, vec!["status".to_string()]);
    assert_eq!(plan.buckets, Some(vec!["0.5".to_string()]));
}

#[test]
fn field_needs_a_name_and_a_help_text() {
    let missing = |f: FieldDeclaration, at: usize| {
        let e = initializer(&f, at).unwrap_err();
        (e.fault, e.field, e.attribute, e.parameter, e.element)
    };
    assert_eq!(missing(field(None, vec![doc("help")]), 2), (Fault::MissingName, Some(2), None, None, None));
    assert_eq!(
        missing(field(Some("x"), vec![doc("help"), metric(vec![param("name", "")])]), 0),
        (Fault::MissingName, Some(0), None, None, None)
    );
    assert_eq!(missing(field(Some(""), vec![doc("help")]), 0), (Fault::MissingName, Some(0), None, None, None));
    assert_eq!(missing(field(Some("x"), vec![]), 1), (Fault::MissingHelp, Some(1), None, None, None));
    assert_eq!(missing(field(Some("x"), vec![doc("  ")]), 1), (Fault::MissingHelp, Some(1), None, None, None));
    assert_eq!(
        missing(field(Some("x"), vec![doc("help"), metric(vec![param("help", "")])]), 1),
        (Fault::MissingHelp, Some(1), None, None, None)
    );
    assert_eq!(
        missing(field(None, vec![metric(vec![NestedItem::Lit])]), 4),
        (Fault::ExpectedNamedParameter, Some(4), Some(0), Some(0), None)
    );
}

#[test]
fn fields_are_read_in_order() {
    let fields = vec![
        field(Some("a"), vec![doc("A.")]),
        field(Some("b"), vec![doc("B."), metric(vec![strings("labels", &["x"])])]),
    ];
    let plans = initializers(&fields).unwrap();
    assert_eq!(plans.len(), 2);
    assert_eq!((plans[0].name.as_str(), plans[0].help.as_str()), ("a", "A."));
    assert_eq!((plans[1].name.as_str(), plans[1].labels.len()), ("b", 1));
    assert!(initializers(&Vec::new()).unwrap().is_empty());
    let fields = vec![field(Some("a"), vec![doc("A.")]), field(Some("b"), vec![]), field(None, vec![])];
    let e = initializers(&fields).unwrap_err();
    assert_eq!((e.fault, e.field), (Fault::MissingHelp, Some(1)));
}

#[test]
fn struct_declares_its_group() {
    let input = StructDeclaration {
        ident: "Metrics".to_string(),
        attrs: vec![metric(vec![param("subsystem", "transport"), strings("labels", &["endpoint"])])],
        fields: vec![
            field(Some("inflight"), vec![doc(" Number of requests that are currently inflight.")]),
            field(
                Some("requests_finished"),
                vec![doc(" Number of finished requests by response code."), metric(vec![strings("labels", &["status"])])],
            ),
            field(Some("requests_duration_seconds"), vec![doc(" Number of finished requests by total processing duration.")]),
        ],
    };
    let plan = expand(&input).unwrap();
    assert_eq!(plan.ident, "Metrics");
    assert_eq!(plan.subsystem, "transport");
    assert_eq!(plan.labels, vec!["endpoint".to_string()]);
    let names: Vec<&str> = plan.fields.iter().map(|f| f.name.as_str()).collect();
    assert_eq!(names, vec!["inflight", "requests_finished", "requests_duration_seconds"]);
    assert_eq!(plan.fields[1].labels, vec!["status".to_string()]);
    assert_eq!(plan.fields[0].help, "Number of requests that are currently inflight.");
}

#[test]
fn struct_without_parameters_has_no_subsystem_and_no_labels() {
    let input = StructDeclaration { ident: "Unit".to_string(), attrs: vec![doc("A unit.")], fields: Vec::new() };
    let plan = expand(&input).unwrap();
    assert_eq!(plan.subsystem, "");
    assert!(plan.labels.is_empty());
    assert!(plan.fields.is_empty());
}

#[test]
fn faults_of_the_struct_come_before_those_of_its_fields() {
    let mut input = StructDeclaration {
        ident: "Metrics".to_string(),
        attrs: vec![metric(vec![param("name", "x")])],
        fields: vec![field(None, vec![])],
    };
    let e = expand(&input).unwrap_err();
    assert_eq!((e.fault, e.field, e.attribute, e.parameter), (Fault::UnexpectedParameter, None, Some(0), Some(0)));
    input.attrs.clear();
    let e = expand(&input).unwrap_err();
    assert_eq!((e.fault, e.field, e.attribute), (Fault::MissingName, Some(0), None));
}

#[test]
fn doc_text_loses_the_white_space_at_both_ends() {
    let inner = "first\u{a0} line";
    let space = [
        '\u{9}', '\u{a}', '\u{b}', '\u{c}', '\u{d}', ' ', '\u{85}', '\u{a0}', '\u{1680}', '\u{2000}', '\u{2001}',
        '\u{2002}', '\u{2003}', '\u{2004}', '\u{2005}', '\u{2006}', '\u{2007}', '\u{2008}', '\u{2009}',
        '\u{200a}', '\u{2028}', '\u{2029}', '\u{202f}', '\u{205f}', '\u{3000}',
    ];
    for c in space {
        let text = format!("{}{}{}{}", c, c, inner, c);
        let read = MetricAttrs::parse(&vec![doc(&text)], false).unwrap();
        assert_eq!(read.help.as_deref(), Some(inner), "{:?}", c);
    }
    let all: String = space.iter().collect();
    let read = MetricAttrs::parse(&vec![doc(&all)], false).unwrap();
    assert_eq!(read.help.as_deref(), Some(""));
    for c in ['\u{8}', '\u{e}', '\u{1f}', '!', '\u{84}', '\u{86}', '\u{180e}', '\u{1fff}', '\u{200b}', '\u{2027}', '\u{202a}', '\u{2060}', '\u{feff}', '\u{3001}'] {
        let text = format!("{}{}{}", c, inner, c);
        let read = MetricAttrs::parse(&vec![doc(&text)], false).unwrap();
        assert_eq!(read.help.as_deref(), Some(text.as_str()), "{:?}", c);
    }
}

#[test]
fn failed_parameter_leaves_the_attributes_as_they_were() {
    let mut attrs = MetricAttrs::new();
    let twice = Meta {
        path: "labels".to_string(),
        value: MetaValue::List(vec![ListItem::Lit(text("url")), ListItem::Lit(text("status")), ListItem::Lit(text("url"))]),
    };
    let e = attrs.parse_labels(&twice, 0, 0).unwrap_err();
    assert_eq!((e.fault, e.element), (Fault::DuplicateLabel, Some(2)));
    assert!(attrs.labels.is_none());
    let bad = Meta { path: "buckets".to_string(), value: MetaValue::List(vec![ListItem::Lit(Literal::Int("1".to_string())), ListItem::Meta]) };
    assert!(attrs.parse_buckets(&bad, 0, 0).is_err());
    assert!(attrs.buckets.is_none());
    let path = |name: &str| Meta { path: name.to_string(), value: MetaValue::Path };
    assert!(attrs.parse_subsystem(&path("subsystem"), 0, 0).is_err() && attrs.subsystem.is_none());
    assert!(attrs.parse_name(&path("name"), 0, 0).is_err() && attrs.name.is_none());
    assert!(attrs.parse_help(&path("help"), 0, 0).is_err() && attrs.help.is_none());
    assert!(attrs.parse_parameter(&twice, false, 0, 0).is_err() && attrs.labels.is_none());
    let good = Meta { path: "labels".to_string(), value: MetaValue::List(vec![ListItem::Lit(text("url"))]) };
    assert!(attrs.parse_labels(&good, 0, 0).is_ok());
    assert!(attrs.parse_labels(&twice, 0, 1).is_err());
    assert_eq!(attrs.labels, Some(vec!["url".to_string()]));
}
