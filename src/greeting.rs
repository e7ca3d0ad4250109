use vstd::prelude::*;

verus! {

/// The text that comes before the name in a greeting.
pub open spec fn greeting_prefix() -> Seq<char> {
    seq!['H', 'e', 'l', 'l', 'o', ',', ' ']
}

/// The text that comes after the name in a greeting.
pub open spec fn greeting_suffix() -> Seq<char> {
    seq![
        '!', ' ', 'Y', 'o', 'u', '\'', 'v', 'e', ' ', 'b', 'e', 'e', 'n', ' ',
        'g', 'r', 'e', 'e', 't', 'e', 'd', ' ', 'f', 'r', 'o', 'm', ' ',
        'R', 'u', 's', 't', '!',
    ]
}

/// The greeting for `name`: the name, verbatim, between the fixed prefix and suffix.
pub open spec fn greeting_text(name: Seq<char>) -> Seq<char> {
    greeting_prefix() + name + greeting_suffix()
}

/// Formats the greeting for `name`. Every name is accepted, the empty one included.
pub fn greet(name: &str) -> (r: String)
    ensures
        r@ == greeting_text(name@),
{
    let prefix = "Hello, ";
    let suffix = "! You've been greeted from Rust!";
    proof {
        reveal_strlit("Hello, ");
        reveal_strlit("! You've been greeted from Rust!");
        assert(prefix@ =~= greeting_prefix());
        assert(suffix@ =~= greeting_suffix());
    }
    let mut text = String::from_str(prefix);
    text.append(name);
    text.append(suffix);
    text
}

} // verus!
