use vstd::prelude::*;

verus! {

/// The greeting for `name`: `Hello, <name>!`.
pub open spec fn greeting_of(name: Seq<char>) -> Seq<char> {
    "Hello, "@ + name + "!"@
}

/// The message that the host's display primitive is to show for `name`.
pub fn greet(name: &str) -> (r: String)
    ensures
        r@ == greeting_of(name@),
{
    let mut r = String::from_str("Hello, ");
    r.append(name);
    r.append("!");
    r
}

/// Greeting the same name twice gives the same message both times.
pub proof fn greet_is_repeatable(a: Seq<char>, b: Seq<char>)
    requires
        a == b,
    ensures
        greeting_of(a) == greeting_of(b),
{
}

} // verus!
