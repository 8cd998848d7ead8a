use vstd::prelude::*;

verus! {

/// A widget's path as the contracts see it: one string per level.
pub type PathModel = Seq<Seq<char>>;

/// Turns a list of path segments into an owned path.
pub fn path_from_strs(segments: &[&str]) -> (path: Vec<String>)
    ensures
        path.deep_view() == segments.deep_view(),
{
    let mut path: Vec<String> = Vec::new();
    let n = segments.len();
    for i in 0..n
        invariant
            n == segments@.len(),
            path@.len() == i,
            forall|j: int| 0 <= j < i ==> #[trigger] path@[j]@ == segments@[j]@,
    {
        path.push(segments[i].to_owned());
    }
    assert(path.deep_view() =~= segments.deep_view());
    path
}

/// Copies a path.
pub fn clone_path(path: &Vec<String>) -> (copy: Vec<String>)
    ensures
        copy.deep_view() == path.deep_view(),
{
    let mut copy: Vec<String> = Vec::new();
    let n = path.len();
    for i in 0..n
        invariant
            n == path@.len(),
            copy@.len() == i,
            forall|j: int| 0 <= j < i ==> #[trigger] copy@[j]@ == path@[j]@,
    {
        copy.push(path[i].clone());
    }
    assert(copy.deep_view() =~= path.deep_view());
    copy
}

/// Whether two paths hold the same segments in the same order.
pub fn paths_equal(a: &Vec<String>, b: &Vec<String>) -> (eq: bool)
    ensures
        eq == (a.deep_view() == b.deep_view()),
{
    if a.len() != b.len() {
        assert(a.deep_view().len() != b.deep_view().len());
        return false;
    }
    let n = a.len();
    for i in 0..n
        invariant
            n == a@.len(),
            n == b@.len(),
            forall|j: int| 0 <= j < i ==> #[trigger] a@[j]@ == b@[j]@,
    {
        if a[i] != b[i] {
            assert(a.deep_view()[i as int] != b.deep_view()[i as int]);
            return false;
        }
    }
    assert(a.deep_view() =~= b.deep_view());
    true
}

} // verus!
