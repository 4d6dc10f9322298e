use rustfaas::invoker::{Event, Invoker};
use rustfaas::response::respond_result;
use rustfaas::router::{route, Method, Route};
use rustfaas::store::ArtifactStore;
use rustfaas::sum::{invoke, to_decimal};

fn ok(text: &str) -> Result<String, String> {
    Ok(text.to_string())
}

fn parse_failure(reason: &str) -> Result<String, String> {
    Err(format!("Failed to parse numbers: {}", reason))
}

#[test]
fn sum_of_three_numbers() {
    assert_eq!(invoke("1,2,3".to_string()), ok("6"));
}

#[test]
fn single_number_is_its_own_sum() {
    assert_eq!(invoke("42".to_string()), ok("42"));
    assert_eq!(invoke("0".to_string()), ok("0"));
    assert_eq!(invoke("-0".to_string()), ok("0"));
    assert_eq!(invoke("+7".to_string()), ok("7"));
    assert_eq!(invoke("007".to_string()), ok("7"));
}

#[test]
fn white_space_around_numbers_is_ignored() {
    assert_eq!(invoke(" 1 ,\t2\n, 3 ".to_string()), ok("6"));
    assert_eq!(invoke("\u{a0}10\u{2003},\u{3000}-4".to_string()), ok("6"));
}

#[test]
fn negative_numbers_and_negative_sums() {
    assert_eq!(invoke("-5,3".to_string()), ok("-2"));
    assert_eq!(invoke("10,-10".to_string()), ok("0"));
    assert_eq!(invoke("-2147483648".to_string()), ok("-2147483648"));
    assert_eq!(invoke("2147483647".to_string()), ok("2147483647"));
    assert_eq!(invoke("-2147483648,2147483647".to_string()), ok("-1"));
}

#[test]
fn text_that_is_no_number_fails_with_invalid_digit() {
    let expected = parse_failure("invalid digit found in string");
    assert_eq!(invoke("1,x,3".to_string()), expected);
    assert_eq!(invoke("1 2".to_string()), expected);
    assert_eq!(invoke("-".to_string()), expected);
    assert_eq!(invoke("+".to_string()), expected);
    assert_eq!(invoke("--1".to_string()), expected);
    assert_eq!(invoke("1.5".to_string()), expected);
    assert_eq!(invoke("\u{663}".to_string()), expected);
}

#[test]
fn empty_field_fails_with_empty() {
    let expected = parse_failure("cannot parse integer from empty string");
    assert_eq!(invoke("".to_string()), expected);
    assert_eq!(invoke("1,".to_string()), expected);
    assert_eq!(invoke(",1".to_string()), expected);
    assert_eq!(invoke("1, ,2".to_string()), expected);
}

#[test]
fn number_out_of_range_fails() {
    assert_eq!(
        invoke("2147483648".to_string()),
        parse_failure("number too large to fit in target type")
    );
    assert_eq!(
        invoke("-2147483649".to_string()),
        parse_failure("number too small to fit in target type")
    );
    assert_eq!(
        invoke("99999999999x".to_string()),
        parse_failure("number too large to fit in target type")
    );
}

#[test]
fn first_faulty_field_decides_the_message() {
    assert_eq!(
        invoke("1,,x".to_string()),
        parse_failure("cannot parse integer from empty string")
    );
    assert_eq!(invoke("1,x,".to_string()), parse_failure("invalid digit found in string"));
}

#[test]
fn fault_in_a_field_comes_before_a_sum_that_does_not_fit() {
    assert_eq!(
        invoke("2147483647,1,x".to_string()),
        parse_failure("invalid digit found in string")
    );
}

#[test]
fn sum_that_does_not_fit_fails() {
    let expected: Result<String, String> =
        Err("Failed to add numbers: sum does not fit in target type".to_string());
    assert_eq!(invoke("2147483647,1".to_string()), expected);
    assert_eq!(invoke("-2147483648,-1".to_string()), expected);
    assert_eq!(invoke("2147483647,1,-5".to_string()), expected);
}

#[test]
fn agrees_with_the_standard_parser() {
    let samples = [
        "0", "-1", "+1", "12", " 12 ", "2147483647", "2147483648", "-2147483648", "-2147483649",
        "", "-", "+", "+-1", "1_000", "0x10", "١", "00000000000000000001", "99999999999999999999",
        "-99999999999999999999", "1e3", "9999999999a", "a9999999999",
    ];
    for sample in samples {
        let expected: Result<String, String> = match sample.trim().parse::<i32>() {
            Ok(n) => Ok(n.to_string()),
            Err(e) => Err(format!("Failed to parse numbers: {}", e)),
        };
        assert_eq!(invoke(sample.to_string()), expected);
    }
}

#[test]
fn decimal_text_of_numbers() {
    assert_eq!(to_decimal(0), "0");
    assert_eq!(to_decimal(9), "9");
    assert_eq!(to_decimal(10), "10");
    assert_eq!(to_decimal(-1), "-1");
    assert_eq!(to_decimal(1000000), "1000000");
    assert_eq!(to_decimal(i32::MAX), "2147483647");
    assert_eq!(to_decimal(i32::MIN), "-2147483648");
}

fn serve_sum(path: &[u8]) -> (u16, String) {
    let store = ArtifactStore::new(b"uploads".to_vec(), b"so".to_vec());
    let request = match route(Method::Get, path) {
        Ok(Route::Invoke(request)) => request,
        other => panic!("unexpected route {:?}", other),
    };
    let argument = String::from_utf8(request.argument.clone()).unwrap();
    let reply = match invoke(argument) {
        Ok(output) => Ok(output.into_bytes()),
        Err(message) => Err(message.into_bytes()),
    };
    let invoker = Invoker::start(&store, request)
        .step(Event::ArtifactChecked(true))
        .step(Event::ModuleLoaded(true))
        .step(Event::SymbolResolved(true))
        .step(Event::Returned(reply))
        .step(Event::Unloaded(true));
    let answer = respond_result(&invoker.result().unwrap());
    (answer.status, String::from_utf8(answer.body).unwrap())
}

#[test]
fn invoke_sum_of_one_two_three_returns_six() {
    assert_eq!(serve_sum(b"/invoke/sum/1,2,3"), (200, "Function returned: 6".to_string()));
}

#[test]
fn invoke_sum_with_bad_number_reports_parse_error() {
    let (status, body) = serve_sum(b"/invoke/sum/1,x,3");
    assert_ne!(status, 500);
    assert_ne!(status, 200);
    assert_eq!(
        body,
        "Invocation failed: Failed to parse numbers: invalid digit found in string"
    );
}
