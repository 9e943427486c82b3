use vstd::prelude::*;

verus! {

/// A value occurs in a sequence that is not empty exactly when it is the
/// first item or occurs among the others.
pub proof fn lemma_contains_split<T>(events: Seq<T>, event: T)
    requires
        events.len() > 0,
    ensures
        events.contains(event) <==> (events.first() == event || events.drop_first().contains(
            event,
        )),
{
    let rest = events.drop_first();
    if events.contains(event) {
        let i = choose|i: int| 0 <= i < events.len() && events[i] == event;
        if i > 0 {
            assert(rest[i - 1] == event);
        }
    }
    if rest.contains(event) {
        let i = choose|i: int| 0 <= i < rest.len() && rest[i] == event;
        assert(events[i + 1] == event);
    }
}

} // verus!
