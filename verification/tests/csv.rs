use geo_ingest::csv::{encode_record, escape_csv_field};

// A plain reader of one record, to read back what the writer wrote.
fn read_record(line: &str) -> Vec<String> {
    let chars: Vec<char> = line.chars().collect();
    let mut fields = Vec::new();
    let mut i = 0;
    loop {
        let mut field = String::new();
        if i < chars.len() && chars[i] == '"' {
            i += 1;
            loop {
                if chars[i] == '"' {
                    if i + 1 < chars.len() && chars[i + 1] == '"' {
                        field.push('"');
                        i += 2;
                    } else {
                        i += 1;
                        break;
                    }
                } else {
                    field.push(chars[i]);
                    i += 1;
                }
            }
        } else {
            while chars[i] != ',' && chars[i] != '\n' {
                field.push(chars[i]);
                i += 1;
            }
        }
        fields.push(field);
        if chars[i] == '\n' {
            assert_eq!(i + 1, chars.len());
            return fields;
        }
        assert_eq!(chars[i], ',');
        i += 1;
    }
}

#[test]
fn plain_field_is_unchanged() {
    assert_eq!(escape_csv_field("hello world"), "hello world");
    assert_eq!(escape_csv_field("POINT(1 2)"), "POINT(1 2)");
    assert_eq!(escape_csv_field("NULL"), "NULL");
}

#[test]
fn empty_field_is_unchanged() {
    assert_eq!(escape_csv_field(""), "");
}

#[test]
fn field_with_comma_is_quoted() {
    assert_eq!(escape_csv_field("a,b"), "\"a,b\"");
}

#[test]
fn field_with_quote_is_quoted_and_quote_doubled() {
    assert_eq!(escape_csv_field("say \"hi\""), "\"say \"\"hi\"\"\"");
    assert_eq!(escape_csv_field("\""), "\"\"\"\"");
}

#[test]
fn field_with_newline_is_quoted() {
    assert_eq!(escape_csv_field("line one\nline two"), "\"line one\nline two\"");
}

#[test]
fn field_with_all_three_is_quoted_once() {
    assert_eq!(escape_csv_field("a,\"b\"\nc"), "\"a,\"\"b\"\"\nc\"");
}

#[test]
fn other_characters_do_not_force_quotes() {
    assert_eq!(escape_csv_field("tab\there; semi 'single' \r"), "tab\there; semi 'single' \r");
    assert_eq!(escape_csv_field("Zürich 東京"), "Zürich 東京");
}

#[test]
fn record_joins_fields_and_ends_with_newline() {
    let fields = vec!["a".to_string(), "b,c".to_string(), "d".to_string()];
    assert_eq!(encode_record(&fields), "a,\"b,c\",d\n");
}

#[test]
fn record_of_one_field() {
    assert_eq!(encode_record(&vec!["only".to_string()]), "only\n");
}

#[test]
fn record_of_no_field_is_an_empty_line() {
    assert_eq!(encode_record(&Vec::new()), "\n");
}

#[test]
fn fields_read_back_as_they_were() {
    let cases: Vec<Vec<&str>> = vec![
        vec!["a", "b", "c"],
        vec!["", "", ""],
        vec!["a,b", "say \"hi\"", "two\nlines"],
        vec!["\"", "\"\"", ",\","],
        vec!["{\"name\":\"a, \\\"b\\\"\"}", "LINESTRING(1 2, 3 4)", ""],
        vec![",", "\n", "\"\n,\""],
    ];
    for case in cases {
        let fields: Vec<String> = case.iter().map(|s| s.to_string()).collect();
        assert_eq!(read_record(&encode_record(&fields)), fields);
    }
}
