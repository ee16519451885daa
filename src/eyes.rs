//! The table of named eye styles.
use vstd::prelude::*;
use crate::text::chars_of;

verus! {

/// The glyphs of the eye style `name`, or `name` itself when no style has that name.
pub open spec fn eyes_of(name: Seq<char>) -> Seq<char> {
    if name == seq!['b', 'o', 'r', 'g'] {
        seq!['=', '=']
    } else if name == seq!['d', 'e', 'a', 'd'] {
        seq!['x', 'x']
    } else if name == seq!['g', 'r', 'e', 'e', 'd', 'y'] {
        seq!['$', '$']
    } else if name == seq!['p', 'a', 'r', 'a', 'n', 'o', 'i', 'd'] {
        seq!['@', '@']
    } else if name == seq!['s', 't', 'o', 'n', 'e', 'd'] {
        seq!['*', '*']
    } else if name == seq!['t', 'i', 'r', 'e', 'd'] {
        seq!['-', '-']
    } else if name == seq!['w', 'i', 'r', 'e', 'd'] {
        seq!['O', 'O']
    } else if name == seq!['y', 'o', 'u', 't', 'h', 'f', 'u', 'l'] {
        seq!['.', '.']
    } else if name == seq!['d', 'e', 'f', 'a', 'u', 'l', 't'] {
        seq!['o', 'o']
    } else {
        name
    }
}

/// Whether the two character sequences are equal.
fn same_chars(a: &Vec<char>, b: &Vec<char>) -> (r: bool)
    ensures
        r == (a@ == b@),
{
    if a.len() != b.len() {
        return false;
    }
    let mut i: usize = 0;
    while i < a.len()
        invariant
            a@.len() == b@.len(),
            i <= a@.len(),
            forall|j: int| 0 <= j < i ==> a@[j] == b@[j],
        decreases a@.len() - i,
    {
        if a[i] != b[i] {
            return false;
        }
        i = i + 1;
    }
    assert(a@ =~= b@);
    true
}

/// The eye glyphs for a style name; a name that is no style is taken as the glyphs.
pub fn get_eyes<'a>(input: &'a str) -> (r: &'a str)
    ensures
        r@ == eyes_of(input@),
{
    let name = chars_of(input);
    if same_chars(&name, &vec!['b', 'o', 'r', 'g']) {
        proof {
            reveal_strlit("==");
        }
        "=="
    } else if same_chars(&name, &vec!['d', 'e', 'a', 'd']) {
        proof {
            reveal_strlit("xx");
        }
        "xx"
    } else if same_chars(&name, &vec!['g', 'r', 'e', 'e', 'd', 'y']) {
        proof {
            reveal_strlit("$$");
        }
        "$$"
    } else if same_chars(&name, &vec!['p', 'a', 'r', 'a', 'n', 'o', 'i', 'd']) {
        proof {
            reveal_strlit("@@");
        }
        "@@"
    } else if same_chars(&name, &vec!['s', 't', 'o', 'n', 'e', 'd']) {
        proof {
            reveal_strlit("**");
        }
        "**"
    } else if same_chars(&name, &vec!['t', 'i', 'r', 'e', 'd']) {
        proof {
            reveal_strlit("--");
        }
        "--"
    } else if same_chars(&name, &vec!['w', 'i', 'r', 'e', 'd']) {
        proof {
            reveal_strlit("OO");
        }
        "OO"
    } else if same_chars(&name, &vec!['y', 'o', 'u', 't', 'h', 'f', 'u', 'l']) {
        proof {
            reveal_strlit("..");
        }
        ".."
    } else if same_chars(&name, &vec!['d', 'e', 'f', 'a', 'u', 'l', 't']) {
        proof {
            reveal_strlit("oo");
        }
        "oo"
    } else {
        input
    }
}

} // verus!
