use rustfaas::client::{invoke_url, parse_command, Command};
use rustfaas::router::{route, InvocationRequest, Method, Route};

fn args(list: &[&str]) -> Vec<Vec<u8>> {
    list.iter().map(|a| a.as_bytes().to_vec()).collect()
}

#[test]
fn upload_command_carries_the_path() {
    assert_eq!(
        parse_command(&args(&["cli", "upload", "target/libsum.so"])),
        Command::Upload(b"target/libsum.so".to_vec())
    );
}

#[test]
fn invoke_command_carries_name_and_argument() {
    assert_eq!(
        parse_command(&args(&["cli", "invoke", "sum", "1,2,3"])),
        Command::Invoke(b"sum".to_vec(), b"1,2,3".to_vec())
    );
}

#[test]
fn invoke_without_argument_has_an_empty_one() {
    assert_eq!(
        parse_command(&args(&["cli", "invoke", "sum"])),
        Command::Invoke(b"sum".to_vec(), Vec::new())
    );
}

#[test]
fn too_few_arguments_ask_for_usage() {
    assert_eq!(parse_command(&args(&[])), Command::Usage);
    assert_eq!(parse_command(&args(&["cli"])), Command::Usage);
    assert_eq!(parse_command(&args(&["cli", "invoke"])), Command::Usage);
    assert_eq!(parse_command(&args(&["cli", "delete"])), Command::Usage);
}

#[test]
fn other_action_is_unknown() {
    assert_eq!(parse_command(&args(&["cli", "delete", "sum"])), Command::UnknownAction);
    assert_eq!(parse_command(&args(&["cli", "Upload", "sum"])), Command::UnknownAction);
    assert_eq!(parse_command(&args(&["cli", "", "sum"])), Command::UnknownAction);
}

#[test]
fn invoke_url_is_base_and_invocation_path() {
    assert_eq!(
        invoke_url(b"http://127.0.0.1:8080", b"sum", b"1,2,3"),
        b"http://127.0.0.1:8080/invoke/sum/1,2,3".to_vec()
    );
    assert_eq!(invoke_url(b"", b"sum", b""), b"/invoke/sum/".to_vec());
}

#[test]
fn router_understands_the_clients_path() {
    let path = invoke_url(b"", b"sum", b"4/5");
    assert_eq!(
        route(Method::Get, &path),
        Ok(Route::Invoke(InvocationRequest {
            function_name: b"sum".to_vec(),
            argument: b"4/5".to_vec(),
        }))
    );
}
