//! Which class is in session at a given instant.

use crate::class::Class;
use crate::time::Time;
use vstd::prelude::*;

verus! {

/// Whether the class at `index` is the one selected at `now`: it is in
/// session, and no class declared before it is.
pub open spec fn is_current(classes: Seq<Class>, now: Time, index: int) -> bool {
    &&& 0 <= index < classes.len()
    &&& classes[index].in_session_at(now)
    &&& forall|j: int| 0 <= j < index ==> !(#[trigger] classes[j]).in_session_at(now)
}

/// Whether no class is in session at `now`.
pub open spec fn none_current(classes: Seq<Class>, now: Time) -> bool {
    forall|j: int| 0 <= j < classes.len() ==> !(#[trigger] classes[j]).in_session_at(now)
}

/// The position of the class in session at `now`: the first in the order of
/// declaration that has a meeting whose window holds `now`. A class that
/// meets at no fixed time is never selected. `None` when no class is in
/// session.
pub fn current_class_index(classes: &Vec<Class>, now: Time) -> (found: Option<usize>)
    ensures
        match found {
            Some(index) => is_current(classes@, now, index as int),
            None => none_current(classes@, now),
        },
{
    let mut i: usize = 0;
    while i < classes.len()
        invariant
            i <= classes.len(),
            forall|j: int| 0 <= j < i ==> !(#[trigger] classes@[j]).in_session_at(now),
        decreases classes.len() - i,
    {
        if classes[i].get_times().active_at(now) {
            return Some(i);
        }
        i += 1;
    }
    None
}

/// The class in session at `now`, if there is one.
pub fn current_class(classes: &Vec<Class>, now: Time) -> (found: Option<&Class>)
    ensures
        match found {
            Some(class) => exists|index: int|
                is_current(classes@, now, index) && *class == classes@[index],
            None => none_current(classes@, now),
        },
{
    match current_class_index(classes, now) {
        Some(index) => Some(&classes[index]),
        None => None,
    }
}

/// A class that meets at no fixed time is never the one selected.
pub proof fn lemma_async_class_is_never_current(classes: Seq<Class>, now: Time, index: int)
    requires
        0 <= index < classes.len(),
        classes[index].times() is Async,
    ensures
        !is_current(classes, now, index),
{
}

/// When several classes are in session at once, the one declared first is
/// selected: the selected class comes no later than any class in session,
/// so there is exactly one selection, and a later class with an overlapping
/// window is never it.
pub proof fn lemma_earliest_declared_wins(
    classes: Seq<Class>,
    now: Time,
    selected: int,
    other: int,
)
    requires
        is_current(classes, now, selected),
        0 <= other < classes.len(),
        classes[other].in_session_at(now),
    ensures
        selected <= other,
        is_current(classes, now, other) ==> other == selected,
        !none_current(classes, now),
{
}

} // verus!
