use text_transform::dispatch::{process_csv, process_text};
use text_transform::error::ErrorKind;
use text_transform::table::Csv;

fn strings(fields: &[&str]) -> Vec<String> {
    fields.iter().map(|s| s.to_string()).collect()
}

#[test]
fn csv_name_age() {
    let out = process_text("csv", "name,age\nAlice,30\nBob,5").unwrap();
    assert_eq!(out, "name  | age\n------+----\nAlice | 30 \nBob   | 5  \n");
}

#[test]
fn csv_blank_line_is_a_parse_error() {
    let err = process_text("csv", "\n").unwrap_err();
    assert_eq!(err.kind, ErrorKind::Parse);
    assert_eq!(err.to_string(), "Empty CSV headers");
}

#[test]
fn csv_empty_input_is_a_parse_error() {
    let err = process_csv("").unwrap_err();
    assert_eq!(err.kind, ErrorKind::Parse);
    assert_eq!(err.message, "Empty CSV headers");
    assert!(Csv::from_str("").is_err());
    assert!(Csv::from_str("\n\n\n").is_err());
}

#[test]
fn csv_header_only() {
    assert_eq!(process_csv("id,name\n").unwrap(), "id | name\n---+-----\n");
    assert_eq!(process_csv("x").unwrap(), "x\n-\n");
}

#[test]
fn csv_fields_are_trimmed() {
    let table = Csv::from_str("  a , b\n 1 ,  22  \n").unwrap();
    assert_eq!(table.headers(), &strings(&["a", "b"]));
    assert_eq!(table.records(), &vec![strings(&["1", "22"])]);
    assert_eq!(table.render(), "a | b \n--+---\n1 | 22\n");
}

#[test]
fn csv_quoted_fields() {
    let table = Csv::from_str("name,note\n\"Smith, J\",\"two\nlines\"\n").unwrap();
    assert_eq!(table.headers(), &strings(&["name", "note"]));
    assert_eq!(table.records(), &vec![strings(&["Smith, J", "two\nlines"])]);
    assert_eq!(table.get_column_widths(), vec![8, 9]);
}

#[test]
fn csv_rows_keep_their_order() {
    let table = Csv::from_str("n\n3\n1\n2\n").unwrap();
    assert_eq!(table.records(), &vec![strings(&["3"]), strings(&["1"]), strings(&["2"])]);
    assert_eq!(table.render(), "n\n-\n3\n1\n2\n");
}

#[test]
fn csv_rows_of_any_length_are_read() {
    let table = Csv::from_str("a,b\n1\n2,3,4").unwrap();
    assert_eq!(table.headers(), &strings(&["a", "b"]));
    assert_eq!(table.records(), &vec![strings(&["1"]), strings(&["2", "3", "4"])]);
    assert_eq!(table.get_column_widths(), vec![1, 1]);
    assert_eq!(table.render(), "a | b\n--+--\n1\n2 | 3\n");
    assert_eq!(process_csv("a,b\n1\n2,3,4").unwrap(), "a | b\n--+--\n1\n2 | 3\n");
}

#[test]
fn csv_fields_lose_all_white_space_at_their_ends() {
    let text = "\u{a0}a\u{3000},\tb\u{2003}\n\u{85}1\u{a0},\u{2028}2 2\u{205f}\n";
    let table = Csv::from_str(text).unwrap();
    assert_eq!(table.headers(), &strings(&["a", "b"]));
    assert_eq!(table.records(), &vec![strings(&["1", "2 2"])]);
    for field in table.headers().iter().chain(table.records().iter().flatten()) {
        assert_eq!(field.as_str(), field.trim());
    }
}

#[test]
fn csv_blank_first_line_is_skipped() {
    assert_eq!(process_csv("\nid\n7\n").unwrap(), "id\n--\n7 \n");
}

#[test]
fn new_rejects_an_empty_header() {
    let err = Csv::new(Vec::new(), vec![strings(&["a"])]).unwrap_err();
    assert_eq!(err.kind, ErrorKind::Parse);
    assert_eq!(err.to_string(), "Empty CSV headers");
    assert!(Csv::new(strings(&[""]), Vec::new()).is_ok());
}

#[test]
fn widths_are_the_longest_field_of_each_column() {
    let table = Csv::new(
        strings(&["name", "age", ""]),
        vec![strings(&["Alice", "30", "x"]), strings(&["Bob", "5", ""])],
    )
    .unwrap();
    assert_eq!(table.get_column_widths(), vec![5, 3, 1]);
}

#[test]
fn widths_ignore_missing_and_extra_fields() {
    let table = Csv::new(
        strings(&["a", "bb"]),
        vec![strings(&["ccc"]), strings(&["d", "e", "ffffff"]), Vec::new()],
    )
    .unwrap();
    assert_eq!(table.get_column_widths(), vec![3, 2]);
}

#[test]
fn short_rows_are_not_padded_out() {
    let table = Csv::new(strings(&["a", "bb"]), vec![strings(&["ccc"]), Vec::new()]).unwrap();
    assert_eq!(table.render(), "a   | bb\n----+---\nccc\n\n");
}

#[test]
fn long_rows_lose_their_extra_fields() {
    let table = Csv::new(strings(&["a", "bb"]), vec![strings(&["d", "e", "f", "g"])]).unwrap();
    assert_eq!(table.render(), "a | bb\n--+---\nd | e \n");
    let table = Csv::new(strings(&["a"]), vec![strings(&["1", "zz"])]).unwrap();
    assert_eq!(table.render(), "a\n-\n1\n");
}

#[test]
fn widths_count_bytes_and_padding_counts_characters() {
    let table = Csv::new(strings(&["é", "n"]), vec![strings(&["ab", "1"])]).unwrap();
    assert_eq!(table.get_column_widths(), vec![2, 1]);
    assert_eq!(table.render(), "é  | n\n---+--\nab | 1\n");
}

#[test]
fn padded_cells_fill_their_columns() {
    let text = "city,country,pop\nBoston,United States,4628910\nOslo,Norway,700000\n";
    let table = Csv::from_str(text).unwrap();
    let widths = table.get_column_widths();
    assert_eq!(widths, vec![6, 13, 7]);
    let out = table.render();
    let lines: Vec<&str> = out.lines().collect();
    assert_eq!(lines.len(), 4);
    for (n, line) in lines.iter().enumerate() {
        if n == 1 {
            assert_eq!(*line, "-------+---------------+--------");
            continue;
        }
        let cells: Vec<&str> = line.split(" | ").collect();
        assert_eq!(cells.len(), 3);
        for (i, cell) in cells.iter().enumerate() {
            assert_eq!(cell.chars().count(), widths[i]);
        }
    }
    assert!(lines[2].starts_with("Boston | United States | 4628910"));
    assert!(out.ends_with('\n'));
}

#[test]
fn rendering_is_repeatable() {
    let table = Csv::from_str("a,b\n1,2\n").unwrap();
    assert_eq!(table.render(), table.render());
    assert_eq!(process_csv("a,b\n1,2\n").unwrap(), table.render());
}
