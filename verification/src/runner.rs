//! How a target's commands become one shell command.

use crate::text::views;
use vstd::prelude::*;

verus! {

/// `list` joined with `sep` between neighbours, as `[T]::join` does.
pub open spec fn join_spec(list: Seq<Seq<char>>, sep: Seq<char>) -> Seq<char>
    decreases list.len(),
{
    if list.len() == 0 {
        Seq::empty()
    } else if list.len() == 1 {
        list[0]
    } else {
        join_spec(list.drop_last(), sep) + sep + list.last()
    }
}

/// The shell command a target runs: its commands chained with ` && `, so
/// that each runs only where the one before it succeeded.
pub fn join_commands(commands: &Vec<String>) -> (r: String)
    ensures
        r@ == join_spec(views(commands@), " && "@),
{
    let mut out = String::new();
    let ghost all = views(commands@);
    let mut i: usize = 0;
    while i < commands.len()
        invariant
            all == views(commands@),
            i <= commands@.len(),
            out@ == join_spec(all.take(i as int), " && "@),
        decreases commands.len() - i,
    {
        assert(all.take(i + 1).drop_last() =~= all.take(i as int));
        assert(all[i as int] == commands@[i as int]@);
        if i != 0 {
            out.append(" && ");
        } else {
            assert(all.take(0) =~= Seq::<Seq<char>>::empty());
        }
        out.append(commands[i].as_str());
        assert(out@ =~= join_spec(all.take(i + 1), " && "@));
        i = i + 1;
    }
    assert(all.take(commands@.len() as int) =~= all);
    out
}

} // verus!
