use whitedog::sheet::cell::{is_readable, parse_cells, parse_col, try_parse_cells, CellValue};
use whitedog::sheet::table::Table;
use whitedog::sheet::error::SheetError;
use whitedog::sheet::index::MatrixIndex;
use whitedog::sheet::matrix::Matrix;
use whitedog::sheet::schema::{
    parse_object_properties, parse_schema, parse_type, struct_fields, InstanceType, SchemaKind,
};
use whitedog::sheet::shape::MatrixShape;
use whitedog::sheet::column::{find_field, find_in_column, holds_field, parse_matrix, FieldName};
use whitedog::models::metadata::Metadata;
use whitedog::sheet::worker::{FieldController, INTERVAL_SECS, NAMESPACE};

fn grid(rows: &[&[&str]]) -> Vec<Vec<String>> {
    rows.iter().map(|r| r.iter().map(|c| c.to_string()).collect()).collect()
}

fn matrix(range: &str, rows: &[&[&str]]) -> Matrix {
    Matrix::new(MatrixShape::from_str(range).unwrap(), grid(rows))
}

fn fields(items: &[(&str, InstanceType)]) -> Vec<(String, InstanceType)> {
    items.iter().map(|(n, t)| (n.to_string(), *t)).collect()
}

fn column(name: &str, ty: InstanceType) -> FieldName {
    FieldName { index: 0, name: name.to_string(), field: name.to_string(), ty }
}

#[test]
fn nested_structures_are_refused() {
    assert_eq!(parse_type(InstanceType::Object), Err(SheetError::NestedStruct));
    for ty in [
        InstanceType::Null,
        InstanceType::Boolean,
        InstanceType::Array,
        InstanceType::Number,
        InstanceType::String,
        InstanceType::Integer,
    ] {
        assert_eq!(parse_type(ty), Ok(ty));
    }
}

#[test]
fn schema_gives_one_type() {
    let name = || "alert".to_string();
    assert_eq!(
        parse_schema(name(), &SchemaKind::Single(InstanceType::String)),
        Ok((name(), InstanceType::String))
    );
    assert_eq!(
        parse_schema(name(), &SchemaKind::Many(vec![InstanceType::String, InstanceType::Null])),
        Ok((name(), InstanceType::String))
    );
    assert_eq!(
        parse_schema(name(), &SchemaKind::Many(vec![InstanceType::Null, InstanceType::Boolean, InstanceType::Null])),
        Ok((name(), InstanceType::Boolean))
    );
    assert_eq!(
        parse_schema(name(), &SchemaKind::Many(vec![InstanceType::Null, InstanceType::Null])),
        Ok((name(), InstanceType::Null))
    );
    assert_eq!(parse_schema(name(), &SchemaKind::Many(vec![])), Ok((name(), InstanceType::Null)));
}

#[test]
fn schema_without_one_type_is_refused() {
    let name = || "alert".to_string();
    assert_eq!(
        parse_schema(name(), &SchemaKind::Trivial),
        Err(SheetError::TrivialSchema { name: name() })
    );
    assert_eq!(
        parse_schema(name(), &SchemaKind::Untyped),
        Err(SheetError::UntypedField { name: name() })
    );
    assert_eq!(
        parse_schema(name(), &SchemaKind::Many(vec![InstanceType::String, InstanceType::Integer])),
        Err(SheetError::AmbiguousType { name: name() })
    );
    assert_eq!(
        parse_schema(name(), &SchemaKind::Many(vec![InstanceType::Object, InstanceType::Null, InstanceType::Object])),
        Err(SheetError::AmbiguousType { name: name() })
    );
    assert_eq!(
        parse_schema(name(), &SchemaKind::Single(InstanceType::Object)),
        Err(SheetError::NestedStruct)
    );
    assert_eq!(
        parse_schema(name(), &SchemaKind::Many(vec![InstanceType::Null, InstanceType::Object])),
        Err(SheetError::NestedStruct)
    );
}

#[test]
fn properties_are_read_in_order() {
    let properties = vec![
        ("activated".to_string(), SchemaKind::Single(InstanceType::Boolean)),
        ("alert".to_string(), SchemaKind::Many(vec![InstanceType::String, InstanceType::Null])),
    ];
    assert_eq!(
        parse_object_properties(properties.clone()),
        Ok(fields(&[("activated", InstanceType::Boolean), ("alert", InstanceType::String)]))
    );
    let mut broken = properties.clone();
    broken.insert(1, ("x".to_string(), SchemaKind::Untyped));
    broken.push(("y".to_string(), SchemaKind::Trivial));
    assert_eq!(
        parse_object_properties(broken),
        Err(SheetError::UntypedField { name: "x".to_string() })
    );
    assert_eq!(parse_object_properties(vec![]), Ok(vec![]));
}

#[test]
fn structure_needs_properties() {
    assert_eq!(
        struct_fields(Some("MyField".to_string()), None),
        Err(SheetError::NotAStruct { name: "MyField".to_string() })
    );
    assert_eq!(
        struct_fields(None, None),
        Err(SheetError::NotAStruct { name: "unknown field".to_string() })
    );
    assert_eq!(
        struct_fields(None, Some(vec![("a".to_string(), SchemaKind::Single(InstanceType::Integer))])),
        Ok(("unknown field".to_string(), fields(&[("a", InstanceType::Integer)])))
    );
    assert_eq!(
        struct_fields(Some("T".to_string()), Some(vec![("a".to_string(), SchemaKind::Trivial)])),
        Err(SheetError::TrivialSchema { name: "a".to_string() })
    );
}

#[test]
fn fields_are_looked_up_by_name() {
    let all = fields(&[("a", InstanceType::String), ("b", InstanceType::Integer), ("a", InstanceType::Null)]);
    assert_eq!(find_field(&all, &"a".to_string()), Some(0));
    assert_eq!(find_field(&all, &"b".to_string()), Some(1));
    assert_eq!(find_field(&all, &"c".to_string()), None);
    assert_eq!(find_field(&vec![], &"a".to_string()), None);
}

#[test]
fn header_cells_are_matched_in_snake_case() {
    let all = fields(&[("administrator", InstanceType::String), ("updated_date", InstanceType::String)]);
    let found = find_in_column(&all, &vec!["Updated Date".to_string()]).unwrap();
    assert_eq!(found.index, 1);
    assert_eq!(found.name, "updated_date");
    assert_eq!(found.field, "updated_date");
    assert_eq!(found.ty, InstanceType::String);
    let camel = find_in_column(&all, &vec!["note".to_string(), "updatedDate".to_string(), "Administrator".to_string()]).unwrap();
    assert_eq!(camel.field, "updated_date");
    assert!(find_in_column(&all, &vec!["Updated".to_string(), "".to_string()]).is_none());
    assert!(find_in_column(&all, &vec![]).is_none());
}

#[test]
fn table_columns_come_from_the_header() {
    let all = fields(&[
        ("activated", InstanceType::Boolean),
        ("administrator", InstanceType::String),
        ("version", InstanceType::Integer),
    ]);
    let header = matrix("Metadata!A1:D1", &[&["Administrator", "Comment", "Version", "Activated"]]);
    let found = parse_matrix("MyField", all.clone(), header).unwrap();
    let names: Vec<(u16, &str, &str, InstanceType)> =
        found.iter().map(|f| (f.index, f.name.as_str(), f.field.as_str(), f.ty)).collect();
    assert_eq!(
        names,
        vec![
            (1, "administrator", "administrator", InstanceType::String),
            (2, "version", "version", InstanceType::Integer),
            (0, "activated", "activated", InstanceType::Boolean),
        ]
    );
    assert!(holds_field(&found, &"version".to_string()));
    assert!(!holds_field(&found, &"comment".to_string()));
}

#[test]
fn header_of_two_rows_takes_the_first_match_from_the_top() {
    let all = fields(&[("a", InstanceType::String), ("b", InstanceType::String)]);
    let header = matrix("S!A1:B2", &[&["x", "B"], &["A"]]);
    let found = parse_matrix("T", all, header).unwrap();
    let names: Vec<&str> = found.iter().map(|f| f.field.as_str()).collect();
    assert_eq!(names, vec!["a", "b"]);
}

#[test]
fn missing_field_is_named_with_table_and_range() {
    let all = fields(&[
        ("activated", InstanceType::Boolean),
        ("alert", InstanceType::String),
        ("hash", InstanceType::String),
    ]);
    let header = matrix("Metadata!B1:C1", &[&["Activated", "Other"]]);
    assert_eq!(
        parse_matrix("MyField", all, header).map(|f| f.len()),
        Err(SheetError::FieldNotFound {
            field: "alert".to_string(),
            table: "MyField".to_string(),
            shape: "Metadata!B1:C1".to_string(),
        })
    );
}

#[test]
fn table_is_built_from_header() {
    let all = fields(&[("name", InstanceType::String), ("count", InstanceType::Integer)]);
    let table = Table::new("Row".to_string(), all, matrix("S!B1:C1", &[&["Count", "Name"]])).unwrap();
    assert_eq!(table.name, "Row");
    assert_eq!(table.fields_shape.to_string(), "S!B1:C1");
    assert_eq!(table.fields.len(), 2);
    assert_eq!(table.fields[0].field, "count");
    assert!(table.is_readable());
    assert_eq!(table.values_start(), MatrixIndex::new(1, Some(1)));
    assert_eq!(table.values_end(Some(5)), MatrixIndex::new(2, Some(5)));
    assert_eq!(table.values_end(None), MatrixIndex::new(2, None));
    assert_eq!(table.values_shape(Some(1)).to_string(), "S!B2:C2");
    assert_eq!(table.values_shape(Some(3)).to_string(), "S!B2:C4");
    assert_eq!(table.values_shape(None).to_string(), "S!B2:C");
    let missing = Table::new(
        "Row".to_string(),
        fields(&[("name", InstanceType::String)]),
        matrix("S!B1:C1", &[&["Count"]]),
    );
    assert!(matches!(missing, Err(SheetError::FieldNotFound { .. })));
}

#[test]
fn lists_cannot_be_read() {
    assert!(!is_readable(InstanceType::Array));
    assert!(!is_readable(InstanceType::Object));
    assert!(is_readable(InstanceType::Null));
    assert!(is_readable(InstanceType::Number));
    let table = Table {
        name: "T".to_string(),
        fields: vec![column("a", InstanceType::String), column("b", InstanceType::Array)],
        fields_shape: MatrixShape::from_str("S!A1:B1").unwrap(),
    };
    assert!(!table.is_readable());
}

#[test]
fn truth_values_are_read_from_words() {
    let field = column("activated", InstanceType::Boolean);
    for word in ["TRUE", "true", "True", "yes", "Y", "y", "o", "O", "v", "V"] {
        assert_eq!(parse_col(&field, word.to_string()), Ok(CellValue::Bool(true)), "{}", word);
    }
    for word in ["FALSE", "false", "no", "No", "n", "N", "x", "X"] {
        assert_eq!(parse_col(&field, word.to_string()), Ok(CellValue::Bool(false)), "{}", word);
    }
    for word in ["", "1", "0", " yes", "ja", "truee"] {
        assert_eq!(
            parse_col(&field, word.to_string()),
            Err(SheetError::InvalidBoolean { token: word.to_string(), field: "activated".to_string() })
        );
    }
}

#[test]
fn upper_case_follows_unicode() {
    let field = column("activated", InstanceType::Boolean);
    assert_eq!(parse_col(&field, "ye\u{17f}".to_string()), Ok(CellValue::Bool(true)));
}

#[test]
fn numbers_are_read_as_json_numbers() {
    for ty in [InstanceType::Integer, InstanceType::Number] {
        let field = column("n", ty);
        for token in ["0", "42", "-7", "1.5", "-0.25", "1e3", "2E-2", "18446744073709551615"] {
            assert_eq!(
                parse_col(&field, token.to_string()),
                Ok(CellValue::Number(token.to_string())),
                "{}",
                token
            );
        }
        for token in ["", "abc", "+1", "1.", ".5", "01", "1 ", " 1", "0x10", "NaN", "1,5", "--1"] {
            assert_eq!(
                parse_col(&field, token.to_string()),
                Err(SheetError::InvalidNumber { token: token.to_string() }),
                "{:?}",
                token
            );
        }
    }
}

#[test]
fn text_and_null_cells_are_read() {
    assert_eq!(
        parse_col(&column("s", InstanceType::String), " as is ".to_string()),
        Ok(CellValue::Text(" as is ".to_string()))
    );
    assert_eq!(parse_col(&column("z", InstanceType::Null), "anything".to_string()), Ok(CellValue::Null));
}

#[test]
fn cells_pair_with_columns_as_far_as_both_reach() {
    let columns = vec![column("a", InstanceType::String), column("n", InstanceType::Integer), column("b", InstanceType::Boolean)];
    let row = |cells: &[&str]| cells.iter().map(|c| c.to_string()).collect::<Vec<String>>();
    assert_eq!(
        parse_cells(&columns, &row(&["x", "3", "yes"])),
        Ok(vec![
            ("a".to_string(), CellValue::Text("x".to_string())),
            ("n".to_string(), CellValue::Number("3".to_string())),
            ("b".to_string(), CellValue::Bool(true)),
        ])
    );
    assert_eq!(
        parse_cells(&columns, &row(&["x"])),
        Ok(vec![("a".to_string(), CellValue::Text("x".to_string()))])
    );
    assert_eq!(parse_cells(&columns, &row(&[])), Ok(vec![]));
    assert_eq!(
        parse_cells(&columns, &row(&["x", "3", "no", "ignored", "too"])).map(|v| v.len()),
        Ok(3)
    );
    assert_eq!(
        parse_cells(&columns, &row(&["x", "three", "maybe"])),
        Err(SheetError::InvalidNumber { token: "three".to_string() })
    );
    assert_eq!(parse_cells(&vec![], &row(&["x"])), Ok(vec![]));
}

#[test]
fn unreadable_column_counts_only_where_it_is_reached() {
    let columns = vec![
        column("n", InstanceType::Integer),
        column("l", InstanceType::Array),
        column("b", InstanceType::Boolean),
    ];
    let row = |cells: &[&str]| cells.iter().map(|c| c.to_string()).collect::<Vec<String>>();
    assert_eq!(try_parse_cells(&columns, &row(&["1", "x", "yes"])), None);
    assert_eq!(try_parse_cells(&columns, &row(&["1", "x"])), None);
    assert_eq!(
        try_parse_cells(&columns, &row(&["1"])),
        Some(Ok(vec![("n".to_string(), CellValue::Number("1".to_string()))]))
    );
    assert_eq!(try_parse_cells(&columns, &row(&[])), Some(Ok(vec![])));
    assert_eq!(
        try_parse_cells(&columns, &row(&["one", "x", "yes"])),
        Some(Err(SheetError::InvalidNumber { token: "one".to_string() }))
    );
    let nested = vec![column("o", InstanceType::Object)];
    assert_eq!(try_parse_cells(&nested, &row(&["x"])), None);
    let readable = vec![column("n", InstanceType::Integer), column("b", InstanceType::Boolean)];
    for cells in [row(&["1", "no"]), row(&["1", "maybe"]), row(&["x", "maybe"]), row(&["1"])] {
        assert_eq!(try_parse_cells(&readable, &cells), Some(parse_cells(&readable, &cells)));
    }
}

#[test]
fn rows_of_values_are_read() {
    let table = Table::new(
        "Row".to_string(),
        fields(&[("count", InstanceType::Integer), ("name", InstanceType::String)]),
        matrix("S!A1:B1", &[&["Name", "Count"]]),
    )
    .unwrap();
    let values = matrix("S!A2:B4", &[&["pen", "2"], &["ink", "10"]]);
    assert_eq!(
        table.get_rows(values),
        Err(SheetError::InvalidNumber { token: "".to_string() })
    );
    let exact = matrix("S!A2:B3", &[&["pen", "2"], &["ink", "10"]]);
    assert_eq!(
        table.get_rows(exact),
        Ok(vec![
            vec![
                ("name".to_string(), CellValue::Text("pen".to_string())),
                ("count".to_string(), CellValue::Number("2".to_string())),
            ],
            vec![
                ("name".to_string(), CellValue::Text("ink".to_string())),
                ("count".to_string(), CellValue::Number("10".to_string())),
            ],
        ])
    );
}

#[derive(Debug, PartialEq)]
struct Counter(u32);

impl FieldController for Counter {
    fn on_update(self, last: Option<Self>, metadata: Option<Metadata>) -> Result<Option<Self>, String> {
        match (last, metadata) {
            (_, Some(Metadata { confirm: Some(false), .. })) => Err("not confirmed".to_string()),
            (Some(Counter(n)), _) if n >= self.0 => Ok(None),
            _ => Ok(Some(self)),
        }
    }
}

#[test]
fn row_structures_decide_on_their_updates() {
    assert_eq!(Counter(2).on_update(None, None), Ok(Some(Counter(2))));
    assert_eq!(Counter(2).on_update(Some(Counter(5)), None), Ok(None));
    let refused = Metadata { confirm: Some(false), alert: None, hash: None };
    assert_eq!(Counter(2).on_update(None, Some(refused)), Err("not confirmed".to_string()));
}

#[test]
fn worker_has_its_name_and_pace() {
    assert_eq!(NAMESPACE, "whitedog-sheet-system");
    assert_eq!(INTERVAL_SECS, 10);
}
