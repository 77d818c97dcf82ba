//! Text as sequences of characters: the views of string lists, and joining.

use vstd::prelude::*;

verus! {

/// The views of a list of values, in order; for strings, their texts.
pub open spec fn views<T: View>(values: Seq<T>) -> Seq<T::V> {
    Seq::new(values.len(), |i: int| values[i]@)
}

/// The parts in order, with `sep` between each two neighbours.
pub open spec fn joined(parts: Seq<Seq<char>>, sep: Seq<char>) -> Seq<char>
    decreases parts.len(),
{
    if parts.len() == 0 {
        Seq::empty()
    } else if parts.len() == 1 {
        parts[0]
    } else {
        joined(parts.drop_last(), sep) + sep + parts.last()
    }
}

/// Joins the strings of `parts`, putting `sep` between each two neighbours.
pub fn join(parts: &Vec<String>, sep: &str) -> (text: String)
    ensures
        text@ == joined(views(parts@), sep@),
{
    let mut text = String::new();
    let mut i: usize = 0;
    while i < parts.len()
        invariant
            i <= parts.len(),
            text@ == joined(views(parts@).take(i as int), sep@),
        decreases parts.len() - i,
    {
        let ghost before = views(parts@).take(i as int);
        let ghost after = views(parts@).take(i + 1);
        assert(after.drop_last() =~= before);
        assert(after.last() == parts@[i as int]@);
        if i > 0 {
            text.append(sep);
        }
        text.append(parts[i].as_str());
        assert(text@ =~= joined(after, sep@));
        i += 1;
    }
    assert(views(parts@).take(parts.len() as int) =~= views(parts@));
    text
}

/// The text of `a` followed by the text of `b`.
pub fn followed(a: &str, b: &str) -> (text: String)
    ensures
        text@ == a@ + b@,
{
    let mut text = a.to_string();
    text.append(b);
    text
}

/// The first position of `list` that holds a string with the text of `wanted`.
pub fn position(list: &Vec<String>, wanted: &String) -> (place: Option<usize>)
    ensures
        match place {
            Some(k) => k < list.len() && list@[k as int]@ == wanted@ && !views(list@).take(
                k as int,
            ).contains(wanted@),
            None => !views(list@).contains(wanted@),
        },
{
    let mut i: usize = 0;
    while i < list.len()
        invariant
            i <= list.len(),
            forall|j: int| 0 <= j < i ==> list@[j]@ != wanted@,
        decreases list.len() - i,
    {
        if list[i] == *wanted {
            return Some(i);
        }
        i += 1;
    }
    None
}

/// Whether `list` holds a string with the text of `wanted`.
pub fn holds(list: &Vec<String>, wanted: &String) -> (found: bool)
    ensures
        found == views(list@).contains(wanted@),
{
    match position(list, wanted) {
        Some(k) => {
            assert(views(list@)[k as int] == wanted@);
            true
        },
        None => false,
    }
}

} // verus!
