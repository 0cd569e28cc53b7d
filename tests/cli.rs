use telemetry_helpers::cli::{entrypoint, ArgumentsError};

fn args(v: &[&str]) -> Vec<String> {
    v.iter().map(|s| s.to_string()).collect()
}

#[test]
fn two_arguments_are_joined() {
    let (log, outcome) = entrypoint(&args(&["hello", "world"]));
    assert_eq!(log.join("\n") + "\n", "Retrieving first argument\nRetrieving second argument\nhello world\n");
    assert_eq!(outcome, Ok(()));
}

#[test]
fn one_argument_is_refused() {
    let (log, outcome) = entrypoint(&args(&["hello"]));
    assert_eq!(log.join("\n") + "\n", "Retrieving first argument\nRetrieving second argument\n");
    assert_eq!(outcome, Err(ArgumentsError::OneArgument));
    assert_eq!(
        ArgumentsError::OneArgument.message(),
        "You have only passed one argument to the program, you need another one!"
    );
}

#[test]
fn no_argument_is_refused() {
    let (log, outcome) = entrypoint(&[]);
    assert_eq!(log.join("\n") + "\n", "Retrieving first argument\n");
    assert_eq!(outcome, Err(ArgumentsError::NoArguments));
    assert_eq!(
        ArgumentsError::NoArguments.message(),
        "You haven't passed any argument to the program! Two is the minimum."
    );
}

#[test]
fn extra_arguments_are_ignored() {
    let (log, outcome) = entrypoint(&args(&["a", "b", "c"]));
    assert_eq!(log[2], "a b");
    assert_eq!(outcome, Ok(()));
}
