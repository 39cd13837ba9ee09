//! Asset naming: a file path maps to the logical name the renderer looks
//! sprites up by — the path minus its extension. Loading and decoding the
//! image files stays outside the library.

use vstd::prelude::*;

verus! {

/// The index of the last `.` byte in `s`, or -1 when there is none.
pub open spec fn last_dot(s: Seq<u8>) -> int
    decreases s.len(),
{
    if s.len() == 0 {
        -1
    } else if s[s.len() - 1] == 46u8 {
        s.len() - 1
    } else {
        last_dot(s.drop_last())
    }
}

/// The logical asset name of a path: everything before the last dot, or the
/// empty name when the path has no extension to strip.
pub open spec fn asset_name_spec(path: Seq<u8>) -> Seq<u8> {
    if last_dot(path) < 0 {
        Seq::empty()
    } else {
        path.take(last_dot(path))
    }
}

/// The position of the last `.` byte in `path`, if any.
fn find_last_dot(path: &Vec<u8>) -> (r: Option<usize>)
    ensures
        (match r {
            Some(d) => d < path@.len() && last_dot(path@) == d,
            None => last_dot(path@) < 0,
        }),
{
    let mut j: usize = path.len();
    proof {
        assert(path@.take(path@.len() as int) =~= path@);
    }
    while j > 0
        invariant
            j <= path@.len(),
            last_dot(path@) == last_dot(path@.take(j as int)),
        decreases j,
    {
        if path[j - 1] == 46u8 {
            return Some(j - 1);
        }
        proof {
            assert(path@.take(j as int).drop_last() =~= path@.take(j as int - 1));
        }
        j = j - 1;
    }
    proof {
        assert(path@.take(0) =~= Seq::<u8>::empty());
    }
    None
}

/// The logical name for an asset path, as bytes.
pub fn asset_name(path: &Vec<u8>) -> (name: Vec<u8>)
    ensures
        name@ == asset_name_spec(path@),
{
    match find_last_dot(path) {
        Some(d) => {
            let mut name: Vec<u8> = Vec::new();
            let mut i: usize = 0;
            while i < d
                invariant
                    i <= d,
                    d < path@.len(),
                    name@ =~= path@.take(i as int),
                decreases d - i,
            {
                name.push(path[i]);
                i = i + 1;
            }
            name
        },
        None => Vec::new(),
    }
}

} // verus!
