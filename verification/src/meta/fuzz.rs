//! Text formatting of generated rows.
use vstd::prelude::*;
use vstd::string::*;

verus! {

/// The strings of `items` joined with `", "`.
pub open spec fn comma_join(items: Seq<Seq<char>>) -> Seq<char>
    decreases items.len(),
{
    if items.len() == 0 {
        Seq::empty()
    } else if items.len() == 1 {
        items[0]
    } else {
        comma_join(items.drop_last()) + ", "@ + items.last()
    }
}

/// Joins the strings of `vec` with `", "`.
pub fn format_comma_line(vec: &Vec<String>) -> (r: String)
    ensures
        r@ == comma_join(vec@.map_values(|s: String| s@)),
{
    let ghost items = vec@.map_values(|s: String| s@);
    let mut s_ret = String::new();
    let mut i: usize = 0;
    while i < vec.len()
        invariant
            i <= vec@.len(),
            items == vec@.map_values(|s: String| s@),
            s_ret@ == comma_join(items.subrange(0, i as int)),
        decreases vec@.len() - i,
    {
        let ghost before = s_ret@;
        if i != 0 {
            s_ret.append(", ");
        }
        s_ret.append(vec[i].as_str());
        i += 1;
        proof {
            let prefix = items.subrange(0, i as int);
            assert(prefix.drop_last() =~= items.subrange(0, i - 1));
            assert(prefix.last() == vec@[i - 1]@);
            if i == 1 {
                assert(before == Seq::<char>::empty());
                assert(s_ret@ =~= prefix[0]);
            }
        }
    }
    assert(items.subrange(0, vec@.len() as int) =~= items);
    s_ret
}

} // verus!
