//! Named values in a row, such as headers and form fields.
use vstd::prelude::*;

verus! {

/// Puts one more named value behind the others.
pub fn add_pair(pairs: &mut Vec<(String, String)>, name: &str, value: String)
    ensures
        final(pairs).deep_view() == old(pairs).deep_view().push((name@, value@)),
{
    let ghost before = pairs@;
    pairs.push((name.to_owned(), value));
    proof {
        let after = pairs@;
        assert(after.drop_last() =~= before);
        assert(after.last().deep_view() == (name@, value@));
        assert(pairs.deep_view() =~= old(pairs).deep_view().push((name@, value@)));
    }
}

/// No named values.
pub fn no_pairs() -> (res: Vec<(String, String)>)
    ensures
        res.deep_view() == Seq::<(Seq<char>, Seq<char>)>::empty(),
{
    let res: Vec<(String, String)> = Vec::new();
    assert(res.deep_view() =~= Seq::<(Seq<char>, Seq<char>)>::empty());
    res
}

} // verus!
