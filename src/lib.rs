//! Renders a figure template under a framed speech or thought bubble.
use vstd::prelude::*;

pub mod bubble;
pub mod catalog;
pub mod eyes;
pub mod figure;
pub mod laws;
pub mod text;

pub use bubble::{make_bubble, BubbleStyle};
pub use catalog::{cow_source, list_cows, CowSource};
pub use eyes::get_eyes;
pub use figure::format_animal;

verus! {

/// The connector between bubble and figure: `o` for a thought, `\` for speech.
pub open spec fn voice_of(think: bool) -> Seq<char> {
    if think {
        seq!['o']
    } else {
        seq!['\\']
    }
}

/// The whole picture: the bubble, a newline, then the rendered figure, whose eyes are the
/// glyphs of the eye style `eyes` (or `eyes` itself when it names no style).
pub open spec fn cow_spec(
    message: Seq<char>,
    cowbody: Seq<char>,
    width: int,
    think: bool,
    wrap: bool,
    eyes: Seq<char>,
    tongue: Seq<char>,
) -> Seq<char> {
    bubble::bubble_spec(message, width, think, wrap) + seq!['\n'] + figure::animal_spec(
        cowbody,
        voice_of(think),
        eyes::eyes_of(eyes),
        tongue,
    )
}

/// The bubble around `message` above the figure rendered from the template text
/// `cowbody`. `eyes` is an eye-style name, resolved to its glyphs, or literal eye glyphs;
/// `tongue` is the tongue's glyphs.
pub fn format_cow(
    message: &String,
    cowbody: &String,
    width: usize,
    think: bool,
    wrap: bool,
    eyes: &str,
    tongue: &str,
) -> (r: String)
    ensures
        r@ == cow_spec(message@, cowbody@, width as int, think, wrap, eyes@, tongue@),
{
    let voice = if think {
        proof {
            reveal_strlit("o");
        }
        "o"
    } else {
        proof {
            reveal_strlit("\\");
        }
        "\\"
    };
    assert(voice@ =~= voice_of(think));
    let bubble = make_bubble(message, width, think, wrap);
    let eye_glyphs = get_eyes(eyes);
    let animal = format_animal(cowbody.clone(), voice, eye_glyphs, tongue);
    proof {
        reveal_strlit("\n");
    }
    let r = bubble.concat("\n");
    assert("\n"@ =~= seq!['\n']);
    r.concat(animal.as_str())
}

} // verus!
