use magictax::amount::Amount;
use magictax::csv::{Csv, CsvRow, ParseError};

fn amount(cents: i64) -> Amount {
    Amount::from_cents(cents).expect("in range")
}

fn row(label: &str, cents: i64) -> CsvRow {
    CsvRow {
        label: label.to_string(),
        value: amount(cents),
    }
}

#[test]
fn parse_should_work() {
    let valid_file = "\
    foo bar,123.5
    something,0
    ,-1.0
    ";

    let csv = Csv::decode(valid_file).expect("Should be valid");

    assert_eq!(
        csv,
        Csv {
            rows: vec![row("foo bar", 12350), row("something", 0), row("", -100)],
        }
    );
}

#[test]
fn parse_should_fail() {
    let result = CsvRow::decode("");
    let error = result.expect_err("Should be invalid due to no label");
    assert_eq!(error, ParseError::MissingValue);

    let result = CsvRow::decode("no value,");
    let error = result.expect_err("Should be invalid due to no value");
    assert_eq!(error, ParseError::MissingValue);

    let result = CsvRow::decode("value not a number,foo");
    let error = result.expect_err("Should be invalid due to value not a number");
    assert_eq!(error, ParseError::ValueNotNumber);

    let result = CsvRow::decode("too many cells,123,unexpected cell");
    let error = result.expect_err("Should be invalid due to too many cells");
    assert_eq!(error, ParseError::TooManyCells);
}

#[test]
fn display_works() {
    let text = row("foo bar", 12350).encode();
    assert_eq!(text, "foo bar,123.5");

    let text = row("something", 0).encode();
    assert_eq!(text, "something,0");

    let text = row("", -100).encode();
    assert_eq!(text, ",-1");

    let csv = Csv {
        rows: vec![row("foo bar", 12350), row("something", 0), row("", -100)],
    };

    let file = csv.encode();

    assert_eq!(file, "foo bar,123.5\nsomething,0\n,-1\n");
}

#[test]
fn encode_renders_without_forced_decimals() {
    assert_eq!(row("x", 0).encode(), "x,0");
    assert_eq!(row("x", -100).encode(), "x,-1");
    assert_eq!(row("x", 1050).encode(), "x,10.5");
    assert_eq!(row("x", 12345).encode(), "x,123.45");
}

#[test]
fn decode_skips_blank_lines_and_aborts_on_first_error() {
    let csv = Csv::decode("\n  \na,1\n\n\t\nb,2\n").expect("Should be valid");
    assert_eq!(csv.rows, vec![row("a", 100), row("b", 200)]);

    let error = Csv::decode("a,1\nbroken\nb,2").expect_err("middle line has no value");
    assert_eq!(error, ParseError::MissingValue);

    let error = Csv::decode("a,1\nb,x\nc,zzz").expect_err("first bad line decides");
    assert_eq!(error, ParseError::ValueNotNumber);
}

#[test]
fn decode_encode_round_trip() {
    let original = Csv {
        rows: vec![
            row("rent", -85000),
            row("salary", 250000),
            row("", 1),
            row("coffee fund", -350),
        ],
    };
    let encoded = original.encode();
    let decoded = Csv::decode(&encoded).expect("encoded documents parse");
    assert_eq!(decoded, original);
}

#[test]
fn sum_and_count_work() {
    let csv = Csv {
        rows: vec![row("a", 10000), row("b", -10000), row("c", 0), row("d", 5000)],
    };
    assert_eq!(csv.sum(), 5000);
    assert_eq!(csv.count(), 4);

    let empty = Csv { rows: Vec::new() };
    assert_eq!(empty.sum(), 0);
    assert_eq!(empty.count(), 0);
}

#[test]
fn parse_error_messages() {
    assert_eq!(ParseError::MissingValue.message(), "Missing value");
    assert_eq!(ParseError::ValueNotNumber.message(), "Value is not a number");
    assert_eq!(ParseError::TooManyCells.message(), "Too many cells in row");
}
