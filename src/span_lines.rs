//! The line written when a span is entered, naming the spans it is linked to.
use vstd::prelude::*;
use vstd::string::StringExecFns;

verus! {

/// `" - <label>: <name>"` when a linked span is there, nothing otherwise.
pub open spec fn link_text(label: Seq<char>, linked: Option<Seq<char>>) -> Seq<char> {
    match linked {
        Some(n) => " - "@ + label + ": "@ + n,
        None => Seq::empty(),
    }
}

/// The span's name, then its parent, then the span it follows from, each if present.
pub open spec fn entry_line(
    name: Seq<char>,
    parent: Option<Seq<char>>,
    follows_from: Option<Seq<char>>,
) -> Seq<char> {
    name + link_text("parent"@, parent) + link_text("follows_from"@, follows_from)
}

/// The line for entering span `name`, with its parent and the span it follows from.
pub fn span_entry_line(name: &str, parent: Option<&str>, follows_from: Option<&str>) -> (r:
    String)
    ensures
        r@ == entry_line(
            name@,
            match parent {
                Some(p) => Some(p@),
                None => None,
            },
            match follows_from {
                Some(f) => Some(f@),
                None => None,
            },
        ),
{
    let mut line = String::from_str(name);
    if let Some(p) = parent {
        line.append(" - parent: ");
        line.append(p);
    }
    if let Some(f) = follows_from {
        line.append(" - follows_from: ");
        line.append(f);
    }
    proof {
        reveal_strlit(" - parent: ");
        reveal_strlit(" - ");
        reveal_strlit("parent");
        reveal_strlit(": ");
        reveal_strlit(" - follows_from: ");
        reveal_strlit("follows_from");
    }
    line
}

} // verus!
