use upward::decode::bind_name;
use upward::numeric::{is_float, parse_i32};
use upward::record::Attr;
use upward::{decode, decode_rows, DecodeError, FaultKind, Row};

fn row(line: u64, cells: &[&str]) -> Row {
    Row { line, cells: cells.iter().map(|c| c.to_string()).collect() }
}

#[test]
fn decodes_time_and_value_pairs() {
    let payload = "_time,_value\n2024-01-01T00:00:00Z,1.5\n2024-01-01T00:01:00Z,2.0\n";
    let tables = decode(payload).unwrap();
    assert_eq!(tables.list.len(), 2);
    assert_eq!(tables.list[0].time.as_deref(), Some("2024-01-01T00:00:00Z"));
    assert_eq!(tables.list[0].value.as_deref().unwrap().parse::<f64>().unwrap(), 1.5);
    assert_eq!(tables.list[1].time.as_deref(), Some("2024-01-01T00:01:00Z"));
    assert_eq!(tables.list[1].value.as_deref().unwrap().parse::<f64>().unwrap(), 2.0);
    assert_eq!(tables.list[0].table, None);
    assert_eq!(tables.list[0].symbol, None);
}

#[test]
fn one_record_per_row_in_order() {
    let tables = decode("name,table\na,1\nb,2\nc,3\nd,4\n").unwrap();
    let names: Vec<_> = tables.list.iter().map(|r| r.name.clone().unwrap()).collect();
    assert_eq!(names, vec!["a", "b", "c", "d"]);
    let ids: Vec<_> = tables.list.iter().map(|r| r.table.unwrap()).collect();
    assert_eq!(ids, vec![1, 2, 3, 4]);
}

#[test]
fn underscore_header_decodes_like_plain_header() {
    let body = "2024-01-01T00:00:00Z,1.5,close,price,a,b\n";
    let plain = decode(&format!("time,value,field,measurement,start,stop\n{body}")).unwrap();
    let alias = decode(&format!("_time,_value,_field,_measurement,_start,_stop\n{body}")).unwrap();
    assert_eq!(plain, alias);
    assert_eq!(plain.list[0].value.as_deref(), Some("1.5"));
    assert_eq!(plain.list[0].start.as_deref(), Some("a"));
    assert_eq!(plain.list[0].stop.as_deref(), Some("b"));
}

#[test]
fn unknown_columns_are_ignored() {
    let narrow = decode("result,table,_value\nr,7,3.25\n").unwrap();
    let wide = decode(",result,extra,table,_value,more\nx,r,y,7,3.25,z\n").unwrap();
    assert_eq!(narrow, wide);
    assert_eq!(wide.list[0].result.as_deref(), Some("r"));
    assert_eq!(wide.list[0].table, Some(7));
}

#[test]
fn header_only_and_empty_payloads_have_no_records() {
    assert_eq!(decode("_time,_value\n").unwrap().list.len(), 0);
    assert_eq!(decode("_time,_value").unwrap().list.len(), 0);
    assert_eq!(decode("").unwrap().list.len(), 0);
    assert_eq!(decode("value,value\n").unwrap().list.len(), 0);
}

#[test]
fn empty_cells_are_absent() {
    let tables = decode("result,table,_value,isin\n,,,\n").unwrap();
    let r = &tables.list[0];
    assert_eq!((r.result.clone(), r.table, r.value.clone(), r.isin.clone()), (None, None, None, None));
}

#[test]
fn all_attributes_bind() {
    let header = "result,table,_start,_stop,_time,_value,_field,_measurement,country,currency,isin,name,source,symbol";
    let tables = decode(&format!("{header}\na,1,b,c,d,2,e,f,g,h,i,j,k,l\n")).unwrap();
    let r = &tables.list[0];
    assert_eq!(r.result.as_deref(), Some("a"));
    assert_eq!(r.table, Some(1));
    assert_eq!(r.start.as_deref(), Some("b"));
    assert_eq!(r.stop.as_deref(), Some("c"));
    assert_eq!(r.time.as_deref(), Some("d"));
    assert_eq!(r.value.as_deref(), Some("2"));
    assert_eq!(r.field.as_deref(), Some("e"));
    assert_eq!(r.measurement.as_deref(), Some("f"));
    assert_eq!(r.country.as_deref(), Some("g"));
    assert_eq!(r.currency.as_deref(), Some("h"));
    assert_eq!(r.isin.as_deref(), Some("i"));
    assert_eq!(r.name.as_deref(), Some("j"));
    assert_eq!(r.source.as_deref(), Some("k"));
    assert_eq!(r.symbol.as_deref(), Some("l"));
}

#[test]
fn quoted_cells_are_unquoted_by_the_reader() {
    let tables = decode("name,_value\n\"Doe, Jane\",\"1.5\"\n").unwrap();
    assert_eq!(tables.list[0].name.as_deref(), Some("Doe, Jane"));
    assert_eq!(tables.list[0].value.as_deref(), Some("1.5"));
}

#[test]
fn short_and_long_rows_are_column_count_faults() {
    let e = decode("_time,_value\nonly\n").unwrap_err();
    assert_eq!(e, DecodeError { line: 2, field: 1, kind: FaultKind::ColumnCount });
    let e = decode("_time,_value\na,1\nb,2,3\n").unwrap_err();
    assert_eq!(e, DecodeError { line: 3, field: 2, kind: FaultKind::ColumnCount });
}

#[test]
fn bad_numbers_are_faults_at_their_cell() {
    let e = decode("name,table\nx,seven\n").unwrap_err();
    assert_eq!(e, DecodeError { line: 2, field: 1, kind: FaultKind::Integer });
    let e = decode("_value,name\n1.0,a\nabc,b\n").unwrap_err();
    assert_eq!(e, DecodeError { line: 3, field: 0, kind: FaultKind::Number });
}

#[test]
fn repeated_attribute_is_a_fault_of_each_row() {
    let e = decode("value,name,_value\n1,a,2\n").unwrap_err();
    assert_eq!(e, DecodeError { line: 2, field: 2, kind: FaultKind::Duplicate });
}

#[test]
fn leftmost_fault_wins_and_first_row_wins() {
    let e = decode("table,_value\nx,y\n").unwrap_err();
    assert_eq!((e.field, e.kind), (0, FaultKind::Integer));
    let e = decode("table,_value\n1,y\nz,2\n").unwrap_err();
    assert_eq!((e.line, e.field, e.kind), (2, 1, FaultKind::Number));
}

#[test]
fn decode_rows_takes_rows_as_given() {
    let rows = vec![row(10, &["_time", "junk", "table"]), row(20, &["t", "", "0x1F"])];
    let tables = decode_rows(&rows).unwrap();
    assert_eq!(tables.list[0].time.as_deref(), Some("t"));
    assert_eq!(tables.list[0].table, Some(31));
    let rows = vec![row(10, &["table"]), row(20, &["1"]), row(30, &["2147483648"])];
    assert_eq!(
        decode_rows(&rows).unwrap_err(),
        DecodeError { line: 30, field: 0, kind: FaultKind::Integer }
    );
    assert_eq!(decode_rows(&Vec::new()).unwrap().list.len(), 0);
}

#[test]
fn header_names_bind_attributes() {
    assert_eq!(bind_name(&"_value".to_string()), Some(Attr::Value));
    assert_eq!(bind_name(&"value".to_string()), Some(Attr::Value));
    assert_eq!(bind_name(&"_start".to_string()), Some(Attr::Start));
    assert_eq!(bind_name(&"isin".to_string()), Some(Attr::Isin));
    assert_eq!(bind_name(&"_isin".to_string()), None);
    assert_eq!(bind_name(&"Value".to_string()), None);
    assert_eq!(bind_name(&"".to_string()), None);
    assert_eq!(Attr::Symbol.slot(), 13);
}

#[test]
fn integers_parse_like_the_standard_parser() {
    for text in ["0", "7", "-7", "+7", "007", "2147483647", "-2147483648", "2147483648",
        "-2147483649", "99999999999999999999", "", "+", "-", "1 ", " 1", "1.0", "1e3", "a", "١"] {
        assert_eq!(parse_i32(text), text.parse::<i32>().ok(), "{text:?}");
    }
    assert_eq!(parse_i32("0x1f"), Some(31));
    assert_eq!(parse_i32("0xFF"), Some(255));
    assert_eq!(parse_i32("0x-80000000"), Some(i32::MIN));
    assert_eq!(parse_i32("0x80000000"), None);
    assert_eq!(parse_i32("0x"), None);
    assert_eq!(parse_i32("0X1f"), None);
    assert_eq!(parse_i32("1f"), None);
}

#[test]
fn floats_are_recognised_like_the_standard_parser() {
    for text in ["1.5", "2.0", "0", "-0", "+1", "1.", ".5", "+.5", "-1.25e-3", "1E5", "1e+5",
        "inf", "-inf", "+Infinity", "NaN", "nan", "INF", "1e400", "0.000000000000000000001",
        "123456789012345678901234567890", "", "+", "-", ".", "e5", "1e", "1e+", "1.2.3", "1,5",
        " 1", "1 ", "0x10", "infinit", "nane", "1_000", "--1", "1e5.0", "١"] {
        assert_eq!(is_float(text), text.parse::<f64>().is_ok(), "{text:?}");
    }
}
