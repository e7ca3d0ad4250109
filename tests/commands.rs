use desktop_commands::file_reader::{read_file_response, read_log_line};
use desktop_commands::greeting::greet;
use desktop_commands::registry::{
    Action, ArgValue, CommandRegistry, DispatchError, Handler, RegisterError,
};

fn text_args(pairs: &[(&str, &str)]) -> Vec<(String, ArgValue)> {
    pairs
        .iter()
        .map(|(k, v)| (k.to_string(), ArgValue::Text(v.to_string())))
        .collect()
}

#[test]
fn greet_world() {
    assert_eq!(greet("World"), "Hello, World! You've been greeted from Rust!");
}

#[test]
fn greet_empty_name() {
    assert_eq!(greet(""), "Hello, ! You've been greeted from Rust!");
}

#[test]
fn greet_keeps_name_verbatim() {
    assert_eq!(
        greet("Zoë {x} \n"),
        "Hello, Zoë {x} \n! You've been greeted from Rust!"
    );
}

#[test]
fn read_response_returns_content() {
    let r = read_file_response(Ok("abc\n".to_string()));
    assert_eq!(r, Ok("abc\n".to_string()));
}

#[test]
fn read_response_missing_file() {
    let msg = "No such file or directory (os error 2)".to_string();
    let r = read_file_response(Err(msg.clone()));
    assert_eq!(r, Err(msg));
}

#[test]
fn read_response_directory() {
    let msg = "Is a directory (os error 21)".to_string();
    let r = read_file_response(Err(msg.clone()));
    match r {
        Err(d) => {
            assert!(!d.is_empty());
            assert_eq!(d, msg);
        }
        Ok(_) => panic!("a directory must not read as content"),
    }
}

#[test]
fn read_response_empty_description_gets_fallback() {
    let r = read_file_response(Err(String::new()));
    assert_eq!(r, Err("file could not be read".to_string()));
}

#[test]
fn read_response_empty_content_is_success() {
    assert_eq!(read_file_response(Ok(String::new())), Ok(String::new()));
}

#[test]
fn repeated_reads_agree() {
    let first = read_file_response(Ok("same text\n".to_string()));
    let second = read_file_response(Ok("same text\n".to_string()));
    assert_eq!(first, second);
    assert_eq!(first, Ok("same text\n".to_string()));
}

#[test]
fn log_line_names_path() {
    assert_eq!(read_log_line("/tmp/a.txt"), "Reading file: /tmp/a.txt");
    assert_eq!(read_log_line(""), "Reading file: ");
}

#[test]
fn unknown_command_is_rejected() {
    let registry = CommandRegistry::with_app_commands();
    match registry.dispatch("delete_everything", &text_args(&[("name", "x")])) {
        Err(DispatchError::UnknownCommand(n)) => assert_eq!(n, "delete_everything"),
        other => panic!("unexpected {:?}", other),
    }
}

#[test]
fn empty_registry_knows_no_command() {
    let registry = CommandRegistry::new();
    assert_eq!(registry.lookup("greet"), None);
    assert!(matches!(
        registry.dispatch("greet", &text_args(&[("name", "x")])),
        Err(DispatchError::UnknownCommand(_))
    ));
}

#[test]
fn dispatch_greet() {
    let registry = CommandRegistry::with_app_commands();
    match registry.dispatch("greet", &text_args(&[("name", "World")])) {
        Ok(Action::Respond(t)) => {
            assert_eq!(t, "Hello, World! You've been greeted from Rust!")
        }
        other => panic!("unexpected {:?}", other),
    }
}

#[test]
fn dispatch_read_file_content() {
    let registry = CommandRegistry::with_app_commands();
    let args = text_args(&[("other", "1"), ("file_path", "/etc/hosts")]);
    match registry.dispatch("read_file_content", &args) {
        Ok(Action::ReadFile(p)) => assert_eq!(p, "/etc/hosts"),
        other => panic!("unexpected {:?}", other),
    }
}

#[test]
fn dispatch_missing_argument() {
    let registry = CommandRegistry::with_app_commands();
    match registry.dispatch("read_file_content", &text_args(&[("path", "/etc/hosts")])) {
        Err(DispatchError::InvalidArguments(k)) => assert_eq!(k, "file_path"),
        other => panic!("unexpected {:?}", other),
    }
}

#[test]
fn dispatch_non_text_argument() {
    let registry = CommandRegistry::with_app_commands();
    let args = vec![("name".to_string(), ArgValue::Other)];
    match registry.dispatch("greet", &args) {
        Err(DispatchError::InvalidArguments(k)) => assert_eq!(k, "name"),
        other => panic!("unexpected {:?}", other),
    }
}

#[test]
fn dispatch_first_argument_wins() {
    let registry = CommandRegistry::with_app_commands();
    let args = text_args(&[("name", "first"), ("name", "second")]);
    match registry.dispatch("greet", &args) {
        Ok(Action::Respond(t)) => {
            assert_eq!(t, "Hello, first! You've been greeted from Rust!")
        }
        other => panic!("unexpected {:?}", other),
    }
}

#[test]
fn app_registry_lookup() {
    let registry = CommandRegistry::with_app_commands();
    assert_eq!(registry.lookup("greet"), Some(Handler::Greet));
    assert_eq!(registry.lookup("read_file_content"), Some(Handler::ReadFileContent));
    assert_eq!(registry.lookup("Greet"), None);
}

#[test]
fn duplicate_registration_is_refused() {
    let mut registry = CommandRegistry::new();
    assert!(registry.register("greet", Handler::Greet).is_ok());
    match registry.register("greet", Handler::ReadFileContent) {
        Err(RegisterError::DuplicateCommand(n)) => assert_eq!(n, "greet"),
        Ok(()) => panic!("a name registered twice must be refused"),
    }
    assert_eq!(registry.lookup("greet"), Some(Handler::Greet));
}

#[test]
fn register_then_dispatch() {
    let mut registry = CommandRegistry::new();
    assert!(registry.register("open", Handler::ReadFileContent).is_ok());
    match registry.dispatch("open", &text_args(&[("file_path", "a.txt")])) {
        Ok(Action::ReadFile(p)) => assert_eq!(p, "a.txt"),
        other => panic!("unexpected {:?}", other),
    }
}
