use vstd::prelude::*;

verus! {

/// A placeholder widget, which containers drop.
#[derive(Clone, Copy, Debug, PartialEq, Eq, Structural)]
pub struct Nothing {}

/// A member of a container: either the placeholder, or a widget known by its id.
#[derive(Clone, Copy, Debug, PartialEq, Eq, Structural)]
pub enum Widget {
    Nothing(Nothing),
    Item(u64),
}

/// The members of `ws` that are not placeholders, in order.
pub open spec fn without_nothing(ws: Seq<Widget>) -> Seq<Widget> {
    ws.filter(|w: Widget| !(w is Nothing))
}

/// A row or a column of widgets.
pub struct Container {
    /// false means column
    pub is_row: bool,
    pub members: Vec<Widget>,
}

impl Container {
    /// Lays out `members` in a row or a column, leaving out the placeholders.
    pub fn new(is_row: bool, members: Vec<Widget>) -> (r: Container)
        ensures
            r.is_row == is_row,
            r.members@ == without_nothing(members@),
    {
        let mut kept: Vec<Widget> = Vec::new();
        let mut i: usize = 0;
        while i < members.len()
            invariant
                i <= members@.len(),
                kept@ == without_nothing(members@.subrange(0, i as int)),
            decreases members@.len() - i,
        {
            let w = members[i];
            proof {
                let pre = members@.subrange(0, i + 1);
                assert(pre.drop_last() =~= members@.subrange(0, i as int));
                reveal(Seq::filter);
            }
            match w {
                Widget::Nothing(_) => {},
                Widget::Item(_) => kept.push(w),
            }
            i = i + 1;
        }
        assert(members@.subrange(0, members@.len() as int) =~= members@);
        Container { is_row, members: kept }
    }
}

} // verus!
