//! The table: the declared label set as header plus the ordered extracted
//! rows, ready for rendering. Constructed once and never mutated afterwards.

use vstd::prelude::*;

verus! {

/// A finished table: an optional leading title (the view's name in the
/// named-view flow), the header labels, and the data rows in line order.
pub struct Table {
    pub title: Option<String>,
    pub labels: Vec<String>,
    pub rows: Vec<Vec<String>>,
}

/// Copies a vector of strings, cell for cell.
pub fn clone_strings(v: &Vec<String>) -> (r: Vec<String>)
    ensures
        r.deep_view() == v.deep_view(),
{
    let mut out: Vec<String> = Vec::new();
    let mut i: usize = 0;
    while i < v.len()
        invariant
            i <= v.len(),
            v.deep_view().len() == v@.len(),
            out.deep_view() == v.deep_view().take(i as int),
        decreases v.len() - i,
    {
        let s = v[i].clone();
        let ghost prevs = out@;
        let ghost prevd = out.deep_view();
        out.push(s);
        proof {
            assert(out@.len() == prevs.len() + 1);
            assert(prevd.len() == prevs.len());
            assert(prevs.len() == i);
            assert forall|k: int| 0 <= k < i + 1 implies #[trigger] out.deep_view()[k]
                == v.deep_view().take(i as int + 1)[k] by {
                assert(out.deep_view()[k] == out@[k]@);
                if k < i {
                    assert(out@[k] == prevs[k]);
                } else {
                    assert(out@[k]@ == v@[k]@);
                }
            }
            assert(out.deep_view() =~= v.deep_view().take(i as int + 1));
        }
        i += 1;
    }
    assert(v.deep_view().take(v.len() as int) =~= v.deep_view());
    out
}

} // verus!
