//! Names of the bundled templates and where a template is read from.
use vstd::prelude::*;
use crate::text::{chars_of, contains, contains_chars, push_all, replace_all, replace_chars, string_of};

verus! {

/// The extension of a template file.
pub open spec fn cow_ext() -> Seq<char> {
    seq!['.', 'c', 'o', 'w']
}

/// The name of a template file without its extension.
pub open spec fn cow_name(file: Seq<char>) -> Seq<char> {
    replace_all(file, cow_ext(), Seq::empty())
}

/// Where a template is read from.
#[derive(Debug)]
pub enum CowSource {
    /// A template file at this path.
    File(String),
    /// The bundled template file of this name.
    Bundled(String),
}

/// The names of the templates whose file names are `files`, in the same order.
pub fn list_cows(files: &Vec<String>) -> (r: Vec<String>)
    ensures
        r@.len() == files@.len(),
        forall|i: int| 0 <= i < files@.len() ==> (#[trigger] r@[i])@ == cow_name(files@[i]@),
{
    let ext = vec!['.', 'c', 'o', 'w'];
    let none: Vec<char> = Vec::new();
    assert(ext@ =~= cow_ext());
    assert(none@ =~= Seq::<char>::empty());
    let mut r: Vec<String> = Vec::new();
    let mut i: usize = 0;
    while i < files.len()
        invariant
            i <= files@.len(),
            r@.len() == i,
            ext@ == cow_ext(),
            none@ == Seq::<char>::empty(),
            forall|j: int| 0 <= j < i ==> (#[trigger] r@[j])@ == cow_name(files@[j]@),
        decreases files@.len() - i,
    {
        let name = replace_chars(&chars_of(files[i].as_str()), &ext, &none);
        r.push(string_of(&name));
        i = i + 1;
    }
    r
}

/// A name that holds the template extension is a path to a template file; any other
/// name is looked up among the bundled templates with the extension added.
pub fn cow_source(cow: &String) -> (r: CowSource)
    ensures
        contains(cow@, cow_ext()) ==> r is File && r->File_0@ == cow@,
        !contains(cow@, cow_ext()) ==> r is Bundled && r->Bundled_0@ == cow@ + cow_ext(),
{
    let name = chars_of(cow.as_str());
    let ext = vec!['.', 'c', 'o', 'w'];
    assert(ext@ =~= cow_ext());
    if contains_chars(&name, &ext) {
        CowSource::File(cow.clone())
    } else {
        let mut file = name;
        push_all(&mut file, &ext);
        CowSource::Bundled(string_of(&file))
    }
}

} // verus!
