use vstd::prelude::*;

verus! {

/// A dashboard card that shows a graph under a title.
pub struct GraphCard {
    pub title: String,
}

impl Default for GraphCard {
    fn default() -> (r: GraphCard)
        ensures
            r.title@ == "New Graph Card"@,
    {
        GraphCard { title: "New Graph Card".to_owned() }
    }
}

} // verus!
