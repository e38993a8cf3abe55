use amicis::greet::{Greetable, Name};
use amicis::service::{FooServer, GreetRequest, Server};

#[test]
fn name_greet_works() {
    let name = Name::new("Bugs Bunny");

    let greeting = name.greet();

    assert_eq!(greeting, "Hello, Bugs Bunny!");
}

#[test]
fn str_greet_works() {
    let name = "Bugs Bunny";

    let greeting = name.greet();

    assert_eq!(greeting, "Hello, Bugs Bunny!");
}

#[test]
fn string_greet_works() {
    let name = String::from("Bugs Bunny");

    let greeting = name.greet();

    assert_eq!(greeting, "Hello, Bugs Bunny!");
}

#[test]
fn greeting_for_greet_command() {
    let args = amicis::cli::HelloArgs {
        command: Some(amicis::cli::Command::Greet { name: Name::new("Daffy") }),
    };
    assert_eq!(args.greeting(), Some(String::from("Hello, Daffy!")));
}

#[test]
fn greeting_for_no_command() {
    let args = amicis::cli::HelloArgs { command: None };
    assert_eq!(args.greeting(), None);
}

#[test]
fn foo_server_greets() {
    let server = FooServer;
    let response = server
        .greet(GreetRequest { name: String::from("Bugs Bunny") })
        .expect("greeting should succeed");
    assert_eq!(response.greeting, "Hello, Bugs Bunny!");
}

#[test]
fn service_error_message() {
    let err = amicis::service::Error::Misc;
    assert_eq!(err.message(), "Misc Error");
}
