//! String helpers used when rendering fitted coefficients: a
//! thousands-separator formatter and a space-separated join.

use vstd::prelude::*;
use vstd::string::StrSliceExecFns;
use vstd::string::StringExecFns;

verus! {

/// The characters of `s` with an underscore inserted between each group of
/// three characters, counted from the right end.
pub open spec fn underscore_spec(s: Seq<char>) -> Seq<char>
    decreases s.len(),
{
    if s.len() <= 3 {
        s
    } else {
        underscore_spec(s.take(s.len() - 3)) + seq!['_'] + s.skip(s.len() - 3)
    }
}

/// Insert an underscore after every third character counted from the right,
/// i.e. a separator for large numbers.
pub fn underscore(s: &str) -> (r: String)
    ensures
        r@ == underscore_spec(s@),
    decreases s@.len(),
{
    let n = s.unicode_len();
    if n <= 3 {
        s.to_owned()
    } else {
        let head = s.substring_char(0, n - 3);
        let tail = s.substring_char(n - 3, n);
        let mut r = underscore(head);
        r.append("_");
        r.append(tail);
        proof {
            reveal_strlit("_");
            assert("_"@ =~= seq!['_']);
            assert(head@ == s@.take(n - 3));
            assert(tail@ == s@.skip(n - 3));
            assert(r@ =~= underscore_spec(s@));
        }
        r
    }
}

/// The name of the file that a pallet's generated code is written to.
pub fn weight_file_name(pallet: &str) -> (r: String)
    ensures
        r@ == pallet@ + ".rs"@,
{
    let mut r = pallet.to_owned();
    r.append(".rs");
    r
}

/// The given character sequences laid end to end with a single space
/// between each pair of neighbours.
pub open spec fn join_spec(parts: Seq<Seq<char>>) -> Seq<char>
    decreases parts.len(),
{
    if parts.len() == 0 {
        Seq::empty()
    } else if parts.len() == 1 {
        parts[0]
    } else {
        join_spec(parts.drop_last()) + seq![' '] + parts.last()
    }
}

/// Join a list of strings with a single space between neighbours.
pub fn join_strings(parts: &Vec<String>) -> (r: String)
    ensures
        r@ == join_spec(parts@.map_values(|p: String| p@)),
{
    let ghost vs = parts@.map_values(|p: String| p@);
    let mut r = String::new();
    let mut i: usize = 0;
    while i < parts.len()
        invariant
            i <= parts@.len(),
            vs == parts@.map_values(|p: String| p@),
            r@ == join_spec(vs.take(i as int)),
        decreases parts@.len() - i,
    {
        if i > 0 {
            r.append(" ");
        }
        r.append(parts[i].as_str());
        proof {
            reveal_strlit(" ");
            assert(" "@ =~= seq![' ']);
            let t = vs.take(i as int + 1);
            assert(t.drop_last() =~= vs.take(i as int));
            assert(t.last() == parts@[i as int]@);
            assert(r@ =~= join_spec(vs.take(i as int + 1)));
        }
        i += 1;
    }
    proof {
        assert(vs.take(vs.len() as int) =~= vs);
    }
    r
}

} // verus!
