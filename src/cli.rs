//! A program that takes two arguments and reports their space-joined values, narrating
//! each step in its log.
use vstd::prelude::*;
use vstd::string::StringExecFns;

verus! {

/// Why the arguments were refused.
#[derive(Debug, Clone, Copy, PartialEq, Eq, Structural)]
pub enum ArgumentsError {
    /// No argument was given.
    NoArguments,
    /// Only one argument was given.
    OneArgument,
}

pub open spec fn arguments_error_text(e: ArgumentsError) -> Seq<char> {
    match e {
        ArgumentsError::NoArguments =>
            "You haven't passed any argument to the program! Two is the minimum."@,
        ArgumentsError::OneArgument =>
            "You have only passed one argument to the program, you need another one!"@,
    }
}

impl ArgumentsError {
    pub fn message(&self) -> (r: &'static str)
        ensures
            r@ == arguments_error_text(*self),
    {
        match self {
            ArgumentsError::NoArguments =>
                "You haven't passed any argument to the program! Two is the minimum.",
            ArgumentsError::OneArgument =>
                "You have only passed one argument to the program, you need another one!",
        }
    }
}

pub open spec fn first_step() -> Seq<char> {
    "Retrieving first argument"@
}

pub open spec fn second_step() -> Seq<char> {
    "Retrieving second argument"@
}

/// What the program logs for `args`, in order, and how it ends.
pub open spec fn run_of(args: Seq<Seq<char>>) -> (Seq<Seq<char>>, Result<(), ArgumentsError>) {
    if args.len() == 0 {
        (seq![first_step()], Err(ArgumentsError::NoArguments))
    } else if args.len() == 1 {
        (seq![first_step(), second_step()], Err(ArgumentsError::OneArgument))
    } else {
        (seq![first_step(), second_step(), args[0] + " "@ + args[1]], Ok(()))
    }
}

/// Takes the first two of `args`; returns the messages to log, in order, and the outcome.
pub fn entrypoint(args: &[String]) -> (r: (Vec<String>, Result<(), ArgumentsError>))
    ensures
        r.0@.map_values(|m: String| m@) == run_of(args@.map_values(|a: String| a@)).0,
        r.1 == run_of(args@.map_values(|a: String| a@)).1,
{
    let ghost views = args@.map_values(|a: String| a@);
    let mut log: Vec<String> = Vec::new();
    log.push(String::from_str("Retrieving first argument"));
    if args.len() < 1 {
        assert(log@.map_values(|m: String| m@) =~= run_of(views).0);
        return (log, Err(ArgumentsError::NoArguments));
    }
    let a = &args[0];
    log.push(String::from_str("Retrieving second argument"));
    if args.len() < 2 {
        assert(log@.map_values(|m: String| m@) =~= run_of(views).0);
        return (log, Err(ArgumentsError::OneArgument));
    }
    let b = &args[1];
    let mut joined = a.clone();
    joined.append(" ");
    joined.append(b.as_str());
    log.push(joined);
    assert(log@.map_values(|m: String| m@) =~= run_of(views).0);
    (log, Ok(()))
}

} // verus!
