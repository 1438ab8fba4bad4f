//! The manifest: the list of files on offer, written once at startup for
//! clients to read.

use crate::tracker::names_of;
use vstd::prelude::*;
use vstd::string::StringExecFns;

verus! {

/// Name of the manifest file inside the served directory.
pub const MANIFEST_FILE_NAME: &'static str = "index.txt";

/// The names of `names` in order, with one newline between each two.
pub open spec fn lines_joined(names: Seq<Seq<char>>) -> Seq<char>
    decreases names.len(),
{
    if names.len() == 0 {
        Seq::empty()
    } else if names.len() == 1 {
        names[0]
    } else {
        lines_joined(names.drop_last()) + seq!['\n'] + names.last()
    }
}

/// The manifest's content for the listing `filenames`.
pub fn manifest_text(filenames: &Vec<String>) -> (text: String)
    ensures
        text@ == lines_joined(names_of(filenames@)),
{
    let ghost names = names_of(filenames@);
    let mut text = String::new();
    let mut i: usize = 0;
    proof {
        assert(names.take(0) =~= Seq::<Seq<char>>::empty());
    }
    while i < filenames.len()
        invariant
            names == names_of(filenames@),
            0 <= i <= filenames.len(),
            text@ == lines_joined(names.take(i as int)),
        decreases filenames.len() - i,
    {
        if i > 0 {
            text.append("\n");
        }
        text.append(filenames[i].as_str());
        proof {
            reveal_strlit("\n");
            assert("\n"@ =~= seq!['\n']);
            let upto = names.take(i + 1);
            assert(upto.drop_last() =~= names.take(i as int));
            assert(upto.last() == filenames@[i as int]@);
            if i == 0 {
                assert(text@ =~= upto[0]);
            }
        }
        i += 1;
    }
    proof {
        assert(names.take(i as int) =~= names);
    }
    text
}

/// Where the manifest of the directory `target_directory` is written.
pub fn manifest_path(target_directory: &str) -> (path: String)
    ensures
        path@ == target_directory@ + "/"@ + MANIFEST_FILE_NAME@,
{
    let mut path = target_directory.to_owned();
    path.append("/");
    path.append(MANIFEST_FILE_NAME);
    path
}

} // verus!
