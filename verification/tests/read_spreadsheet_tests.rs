use motosan_agent_tool::tools::read_spreadsheet::{
    classify_field, open_failed, parse_csv, parse_range, select_sheet, sheet_read_failed, spreadsheet_format, CsvCell,
    choose_workbook_sheet, spreadsheet_request, ReadSpreadsheetOutput, ReadSpreadsheetTool, SheetFormat, DEFAULT_MAX_ROWS,
};

fn cell<'a>(out: &'a ReadSpreadsheetOutput<CsvCell>, row: usize, key: &str) -> &'a CsvCell {
    &out.rows[row].iter().find(|(k, _)| k == key).expect("column").1
}

fn text_f64(c: &CsvCell) -> f64 {
    match c {
        CsvCell::Text(t) => t.parse::<f64>().expect("number"),
        CsvCell::Int(n) => *n as f64,
        _ => panic!("not a number"),
    }
}

fn is_int(c: &CsvCell, v: i64) -> bool {
    matches!(c, CsvCell::Int(n) if *n == v)
}

fn is_text(c: &CsvCell, v: &str) -> bool {
    matches!(c, CsvCell::Text(t) if t == v)
}

#[test]
fn read_spreadsheet_should_have_correct_name_and_schema() {
    let def = ReadSpreadsheetTool::new().def();
    assert_eq!(def.name, "read_spreadsheet");
    let schema = def.input_schema;
    assert_eq!(schema.get("type").and_then(|t| t.as_str()), Some("object"));
    let props = schema.get("properties").unwrap();
    assert!(props.get("path").unwrap().is_object());
    assert!(props.get("sheet").unwrap().is_object());
    assert!(props.get("max_rows").unwrap().is_object());
    let required: Vec<&str> =
        schema.get("required").unwrap().as_array().unwrap().iter().map(|x| x.as_str().unwrap()).collect();
    assert_eq!(required, vec!["path"]);
}

#[test]
fn should_parse_csv_bytes() {
    let csv_data = b"name,age,active\nAlice,30,true\nBob,25,false\n";
    let result = parse_csv(csv_data, 500, "test.csv").unwrap();
    assert_eq!(result.path, "test.csv");
    assert_eq!(result.sheet, "csv");
    assert_eq!(result.headers, vec!["name", "age", "active"]);
    assert_eq!(result.row_count, 2);
    assert!(!result.truncated);
    assert!(is_text(cell(&result, 0, "name"), "Alice"));
    assert!(is_int(cell(&result, 0, "age"), 30));
    assert!(matches!(cell(&result, 0, "active"), CsvCell::Bool(true)));
    assert!(is_text(cell(&result, 1, "name"), "Bob"));
    assert!(is_int(cell(&result, 1, "age"), 25));
    assert!(matches!(cell(&result, 1, "active"), CsvCell::Bool(false)));
}

#[test]
fn should_truncate_csv_at_max_rows() {
    let csv_data = b"id,val\n1,a\n2,b\n3,c\n4,d\n5,e\n";
    let result = parse_csv(csv_data, 3, "test.csv").unwrap();
    assert_eq!(result.row_count, 3);
    assert!(result.truncated);
    assert!(is_int(cell(&result, 0, "id"), 1));
    assert!(is_int(cell(&result, 2, "id"), 3));
}

#[test]
fn should_handle_empty_csv() {
    let csv_data = b"name,age\n";
    let result = parse_csv(csv_data, 500, "empty.csv").unwrap();
    assert_eq!(result.headers, vec!["name", "age"]);
    assert_eq!(result.row_count, 0);
    assert!(!result.truncated);
}

#[test]
fn should_parse_csv_with_empty_fields() {
    let csv_data = b"a,b,c\n1,,3\n,2,\n";
    let result = parse_csv(csv_data, 500, "sparse.csv").unwrap();
    assert_eq!(result.row_count, 2);
    assert!(is_int(cell(&result, 0, "a"), 1));
    assert!(matches!(cell(&result, 0, "b"), CsvCell::Null));
    assert!(is_int(cell(&result, 0, "c"), 3));
    assert!(matches!(cell(&result, 1, "a"), CsvCell::Null));
    assert!(is_int(cell(&result, 1, "b"), 2));
    assert!(matches!(cell(&result, 1, "c"), CsvCell::Null));
}

#[test]
fn should_parse_csv_with_float_values() {
    let csv_data = b"price,qty\n19.99,1.5\n0.01,100\n";
    let result = parse_csv(csv_data, 500, "floats.csv").unwrap();
    assert_eq!(result.row_count, 2);
    assert_eq!(text_f64(cell(&result, 0, "price")), 19.99);
    assert_eq!(text_f64(cell(&result, 0, "qty")), 1.5);
    assert!(is_int(cell(&result, 1, "qty"), 100));
}

#[test]
fn should_fail_on_bad_xlsx_bytes() {
    let bad_bytes = b"not a real xlsx file";
    let opened = calamine::open_workbook_from_rs::<calamine::Xlsx<_>, _>(std::io::Cursor::new(bad_bytes.to_vec()))
        .map(|book| calamine::Reader::sheet_names(&book))
        .map_err(|e| e.to_string());
    let result = choose_workbook_sheet(SheetFormat::Xlsx, opened, None);
    assert!(result.is_err());
    assert!(result.unwrap_err().contains("Failed to open xlsx"));
}

#[test]
fn should_fail_on_bad_xls_bytes() {
    let bad_bytes = b"not a real xls file";
    let opened = calamine::open_workbook_from_rs::<calamine::Xls<_>, _>(std::io::Cursor::new(bad_bytes.to_vec()))
        .map(|book| calamine::Reader::sheet_names(&book))
        .map_err(|e| e.to_string());
    let result = choose_workbook_sheet(SheetFormat::Xls, opened, None);
    assert!(result.is_err());
    assert!(result.unwrap_err().contains("Failed to open xls"));
}

#[test]
fn open_failure_messages_name_the_format() {
    assert_eq!(open_failed(SheetFormat::Xlsx, "bad zip"), "Failed to open xlsx: bad zip");
    assert_eq!(open_failed(SheetFormat::Xls, "bad ole"), "Failed to open xls: bad ole");
}

#[test]
fn csv_skips_blank_lines_and_names_extra_columns() {
    let csv_data = b" x , y \r\n\n   \n1,2,3\n";
    let result = parse_csv(csv_data, 500, "p.csv").unwrap();
    assert_eq!(result.headers, vec!["x", "y"]);
    assert_eq!(result.row_count, 1);
    assert!(is_int(cell(&result, 0, "x"), 1));
    assert!(is_int(cell(&result, 0, "column_2"), 3));
}

#[test]
fn csv_duplicate_header_keeps_last_value() {
    let result = parse_csv(b"k,k\n1,2\n", 500, "d.csv").unwrap();
    assert_eq!(result.rows[0].len(), 1);
    assert!(is_int(cell(&result, 0, "k"), 2));
}

#[test]
fn csv_rejects_invalid_utf8() {
    let err = parse_csv(&[0x66, 0xff, 0x0a], 500, "bad.csv").unwrap_err();
    assert!(err.starts_with("Invalid UTF-8 in CSV: "));
}

#[test]
fn csv_of_no_lines_is_empty() {
    let result = parse_csv(b"", 5, "none.csv").unwrap();
    assert!(result.headers.is_empty());
    assert_eq!(result.row_count, 0);
    assert!(!result.truncated);
}

#[test]
fn csv_zero_limit_truncates_any_row() {
    let result = parse_csv(b"a\n1\n", 0, "z.csv").unwrap();
    assert_eq!(result.row_count, 0);
    assert!(result.truncated);
    let exact = parse_csv(b"a\n1\n2\n", 2, "z.csv").unwrap();
    assert!(!exact.truncated);
}

#[test]
fn fields_are_classified() {
    let field = |s: &str| {
        let v: Vec<char> = s.chars().collect();
        classify_field(&v, 0, v.len())
    };
    assert!(matches!(field(""), CsvCell::Null));
    assert!(matches!(field("-42"), CsvCell::Int(-42)));
    assert!(matches!(field("+7"), CsvCell::Int(7)));
    assert!(matches!(field("-9223372036854775808"), CsvCell::Int(i64::MIN)));
    assert!(matches!(field("9223372036854775808"), CsvCell::Text(_)));
    assert!(matches!(field("TRUE"), CsvCell::Bool(true)));
    assert!(matches!(field("False"), CsvCell::Bool(false)));
    assert!(matches!(field("-"), CsvCell::Text(_)));
    assert!(matches!(field("1e3"), CsvCell::Text(_)));
}

#[test]
fn format_follows_extension_in_any_case() {
    assert_eq!(spreadsheet_format("data.CSV"), Some(SheetFormat::Csv));
    assert_eq!(spreadsheet_format("r.xlsx"), Some(SheetFormat::Xlsx));
    assert_eq!(spreadsheet_format("r.XLS"), Some(SheetFormat::Xls));
    assert_eq!(spreadsheet_format("notes.txt"), None);
}

#[test]
fn sheet_is_chosen_by_name_or_first() {
    let names = vec!["Summary".to_string(), "Data".to_string()];
    assert_eq!(select_sheet(&names, None).unwrap(), "Summary");
    assert_eq!(select_sheet(&names, Some("Data")).unwrap(), "Data");
    assert_eq!(
        select_sheet(&names, Some("Other")).unwrap_err(),
        "Sheet 'Other' not found. Available sheets: Summary, Data"
    );
    assert_eq!(select_sheet(&vec![], None).unwrap_err(), "Workbook contains no sheets");
    assert_eq!(sheet_read_failed("Data", "corrupt"), "Failed to read sheet 'Data': corrupt");
}

#[test]
fn range_rows_take_header_keys() {
    let headers = vec!["a".to_string(), "b".to_string()];
    let body = vec![vec![1, 2, 3], vec![4], vec![5, 6]];
    let out = parse_range(Some(headers), body, "S", 2, "f.xlsx").unwrap();
    assert_eq!(out.sheet, "S");
    assert_eq!(out.row_count, 2);
    assert!(out.truncated);
    assert_eq!(out.rows[0], vec![("a".to_string(), 1), ("b".to_string(), 2), ("column_2".to_string(), 3)]);
    assert_eq!(out.rows[1], vec![("a".to_string(), 4)]);
    let empty = parse_range::<i32>(None, vec![], "S", 2, "f.xlsx").unwrap();
    assert!(empty.headers.is_empty());
    assert_eq!(empty.row_count, 0);
}

#[test]
fn default_row_limit_is_five_hundred() {
    assert_eq!(DEFAULT_MAX_ROWS, 500);
}

#[test]
fn workbook_sheet_choice_follows_opening() {
    let names = Ok(vec!["A".to_string(), "B".to_string()]);
    assert_eq!(choose_workbook_sheet(SheetFormat::Xlsx, names.clone(), Some("B")).unwrap(), "B");
    assert_eq!(choose_workbook_sheet(SheetFormat::Xlsx, names, None).unwrap(), "A");
    assert_eq!(
        choose_workbook_sheet(SheetFormat::Xls, Err("bad".to_string()), Some("B")).unwrap_err(),
        "Failed to open xls: bad"
    );
    assert_eq!(
        choose_workbook_sheet(SheetFormat::Xlsx, Ok(vec![]), None).unwrap_err(),
        "Workbook contains no sheets"
    );
}

#[test]
fn request_takes_format_and_row_limit() {
    assert_eq!(spreadsheet_request("a.CSV", None).unwrap(), (SheetFormat::Csv, 500));
    assert_eq!(spreadsheet_request("a.xlsx", Some(7)).unwrap(), (SheetFormat::Xlsx, 7));
    assert_eq!(
        spreadsheet_request("a.ods", Some(7)).unwrap_err(),
        "Unsupported file format. Supported formats: .xlsx, .xls, .csv"
    );
}
