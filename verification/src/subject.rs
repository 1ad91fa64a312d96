//! The subject line of an automatic commit.
use vstd::prelude::*;

use crate::text::{decimal, join, join_first, push_decimal};

verus! {

/// How many changed files a subject names before it counts the rest.
pub const NAMED: usize = 3;

/// The subject for a commit of `files`: `Update` and the files joined by a
/// comma and a space, in the order given; past the third file the rest are
/// counted rather than named.
pub open spec fn subject_for(files: Seq<Seq<char>>) -> Seq<char> {
    if files.len() <= NAMED {
        "Update "@ + join(files, ", "@)
    } else {
        "Update "@ + join(files.take(NAMED as int), ", "@) + " and "@ + decimal(
            (files.len() - NAMED) as nat,
        ) + " more"@
    }
}

/// The subject line for a commit of the staged `files`.
pub fn commit_subject(files: &Vec<String>) -> (s: String)
    ensures
        s@ == subject_for(files.deep_view()),
{
    let mut s = String::new();
    s.append("Update ");
    if files.len() <= NAMED {
        let joined = join_first(files, files.len(), ", ");
        assert(files.deep_view().take(files.len() as int) =~= files.deep_view());
        s.append(joined.as_str());
    } else {
        let joined = join_first(files, NAMED, ", ");
        s.append(joined.as_str());
        s.append(" and ");
        let rest = files.len() - NAMED;
        push_decimal(&mut s, rest as u64);
        s.append(" more");
    }
    s
}


/// Up to three files are each named, in order, after `Update` and separated
/// by a comma and a space; beyond three, the first three are named and the
/// rest counted.
pub proof fn law_a_subject_names_three_files_then_counts(
    a: Seq<char>,
    b: Seq<char>,
    c: Seq<char>,
    files: Seq<Seq<char>>,
)
    ensures
        subject_for(seq![a]) == "Update "@ + a,
        subject_for(seq![a, b]) == "Update "@ + a + ", "@ + b,
        subject_for(seq![a, b, c]) == "Update "@ + a + ", "@ + b + ", "@ + c,
        files.len() > 3 ==> subject_for(files) == "Update "@ + files[0] + ", "@ + files[1] + ", "@
            + files[2] + " and "@ + decimal((files.len() - 3) as nat) + " more"@,
{
    reveal_with_fuel(join, 4);
    assert(seq![a, b].drop_last() =~= seq![a]);
    assert(seq![a, b, c].drop_last() =~= seq![a, b]);
    assert(seq![a, b, c].drop_last().drop_last() =~= seq![a]);
    if files.len() > 3 {
        let t = files.take(3);
        assert(t.drop_last() =~= seq![files[0], files[1]]);
        assert(t.drop_last().drop_last() =~= seq![files[0]]);
    }
}
} // verus!
