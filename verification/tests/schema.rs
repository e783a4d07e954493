use rest_gateway::schema::{
    all_distinct, answers, names_distinct, CatalogError, Field, MethodDescriptor, SchemaRegistry,
    Shape, ShapeKind,
};

fn descriptor(service: &str, method: &str, field: &str) -> MethodDescriptor {
    MethodDescriptor {
        service_name: service.to_string(),
        method_name: method.to_string(),
        request_shape: Shape::Message(vec![Field { name: field.to_string(), shape: Shape::Text }]),
        response_shape: Shape::Message(vec![]),
    }
}

#[test]
fn registry_finds_each_method_by_its_names() {
    let registry = SchemaRegistry::from_catalog(vec![
        descriptor("show.ShowInterface", "FindShow", "name"),
        descriptor("show.ShowInterface", "GetShows", "unused"),
        descriptor("job.JobInterface", "FindShow", "other"),
    ])
    .unwrap();
    assert_eq!(registry.len(), 3);
    let found = registry.lookup("show.ShowInterface", "FindShow").unwrap();
    assert_eq!(found, &descriptor("show.ShowInterface", "FindShow", "name"));
    let found = registry.lookup("job.JobInterface", "FindShow").unwrap();
    assert_eq!(found, &descriptor("job.JobInterface", "FindShow", "other"));
    let found = registry.lookup("show.ShowInterface", "GetShows").unwrap();
    assert_eq!(found.method_name, "GetShows");
}

#[test]
fn registry_reports_missing_methods_as_none() {
    let registry =
        SchemaRegistry::from_catalog(vec![descriptor("show.ShowInterface", "FindShow", "name")])
            .unwrap();
    assert!(registry.lookup("unknown.Service", "Method").is_none());
    assert!(registry.lookup("show.ShowInterface", "Method").is_none());
    assert!(registry.lookup("FindShow", "show.ShowInterface").is_none());
    assert!(registry.lookup("", "").is_none());
    let empty = SchemaRegistry::new();
    assert_eq!(empty.len(), 0);
    assert!(empty.lookup("show.ShowInterface", "FindShow").is_none());
}

#[test]
fn registry_refuses_a_catalog_with_a_repeated_method() {
    let outcome = SchemaRegistry::from_catalog(vec![
        descriptor("a", "x", "f"),
        descriptor("a", "y", "f"),
        descriptor("b", "x", "f"),
        descriptor("a", "y", "g"),
        descriptor("a", "x", "h"),
    ]);
    assert_eq!(outcome.err(), Some(CatalogError::DuplicateMethod { index: 3 }));
    let outcome = SchemaRegistry::from_catalog(vec![descriptor("a", "x", "f"), descriptor("a", "x", "f")]);
    assert_eq!(outcome.err(), Some(CatalogError::DuplicateMethod { index: 1 }));
    assert!(SchemaRegistry::from_catalog(vec![]).is_ok());
}

#[test]
fn answers_needs_both_names() {
    let d = descriptor("job.JobInterface", "Pause", "job");
    assert!(answers(&d, "job.JobInterface", "Pause"));
    assert!(!answers(&d, "job.JobInterface", "Resume"));
    assert!(!answers(&d, "show.ShowInterface", "Pause"));
}

#[test]
fn shape_kinds() {
    assert_eq!(Shape::Bool.kind(), ShapeKind::Bool);
    assert_eq!(Shape::Integer.kind(), ShapeKind::Integer);
    assert_eq!(Shape::Text.kind(), ShapeKind::Text);
    assert_eq!(Shape::Enum(vec!["A".to_string()]).kind(), ShapeKind::Enum);
    assert_eq!(Shape::Repeated(Box::new(Shape::Bool)).kind(), ShapeKind::Repeated);
    assert_eq!(Shape::Message(vec![]).kind(), ShapeKind::Message);
}

#[test]
fn shapes_are_well_formed_without_repeats_and_empty_enums() {
    let names = |list: &[&str]| list.iter().map(|s| s.to_string()).collect::<Vec<String>>();
    assert!(Shape::Bool.is_well_formed());
    assert!(Shape::Message(vec![]).is_well_formed());
    assert!(Shape::Enum(names(&["A", "B", "a"])).is_well_formed());
    assert!(!Shape::Enum(vec![]).is_well_formed());
    assert!(!Shape::Enum(names(&["A", "B", "A"])).is_well_formed());
    assert!(Shape::Repeated(Box::new(Shape::Enum(names(&["A"])))).is_well_formed());
    assert!(!Shape::Repeated(Box::new(Shape::Enum(vec![]))).is_well_formed());
    let message = |fields: Vec<Field>| Shape::Message(fields);
    let f = |name: &str, shape: Shape| Field { name: name.to_string(), shape };
    assert!(message(vec![f("a", Shape::Text), f("b", Shape::Text)]).is_well_formed());
    assert!(!message(vec![f("a", Shape::Text), f("b", Shape::Bool), f("a", Shape::Integer)]).is_well_formed());
    assert!(message(vec![f("a", message(vec![f("a", Shape::Text)]))]).is_well_formed());
    assert!(!message(vec![f("a", Shape::Text), f("b", message(vec![f("c", Shape::Enum(vec![]))]))]).is_well_formed());
    assert!(all_distinct(&names(&[])));
    assert!(all_distinct(&names(&["x"])));
    assert!(!all_distinct(&names(&["x", "y", "y"])));
    assert!(names_distinct(&vec![f("x", Shape::Bool), f("y", Shape::Bool)]));
    assert!(!names_distinct(&vec![f("x", Shape::Bool), f("x", Shape::Text)]));
}

#[test]
fn registry_refuses_a_catalog_with_a_malformed_shape() {
    let mut bad = descriptor("a", "y", "f");
    bad.response_shape = Shape::Enum(vec![]);
    let outcome = SchemaRegistry::from_catalog(vec![descriptor("a", "x", "f"), bad]);
    assert_eq!(outcome.err(), Some(CatalogError::MalformedShape { index: 1 }));

    let mut bad_and_repeated = descriptor("a", "x", "f");
    bad_and_repeated.request_shape = Shape::Message(vec![
        Field { name: "f".to_string(), shape: Shape::Text },
        Field { name: "f".to_string(), shape: Shape::Text },
    ]);
    let outcome = SchemaRegistry::from_catalog(vec![descriptor("a", "x", "f"), bad_and_repeated]);
    assert_eq!(outcome.err(), Some(CatalogError::MalformedShape { index: 1 }));

    let mut bad = descriptor("b", "x", "f");
    bad.request_shape = Shape::Repeated(Box::new(Shape::Enum(vec![])));
    let outcome = SchemaRegistry::from_catalog(vec![
        descriptor("a", "x", "f"),
        descriptor("a", "x", "g"),
        bad,
    ]);
    assert_eq!(outcome.err(), Some(CatalogError::DuplicateMethod { index: 1 }));
}
