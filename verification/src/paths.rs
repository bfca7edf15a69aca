use vstd::prelude::*;
use crate::text::{chars_of, concat_text};

verus! {

/// The path of `name` inside the directory `dir`, `/` separating the two unless `dir` is empty
/// or already ends with `/`.
pub open spec fn joined_path(dir: Seq<char>, name: Seq<char>) -> Seq<char> {
    if dir.len() == 0 {
        name
    } else if dir.last() == '/' {
        dir + name
    } else {
        dir + seq!['/'] + name
    }
}

/// The path of `name` inside the directory `dir`.
pub fn join_path(dir: &str, name: &str) -> (r: String)
    ensures
        r@ == joined_path(dir@, name@),
{
    let d = chars_of(dir);
    if d.len() == 0 {
        String::from_str(name)
    } else if d[d.len() - 1] == '/' {
        concat_text(dir, name)
    } else {
        let with_separator = concat_text(dir, "/");
        proof {
            reveal_strlit("/");
        }
        concat_text(with_separator.as_str(), name)
    }
}

} // verus!
