use vstd::prelude::*;

verus! {

/// A sequence with `first` put in front holds `first` and what it held
/// before.
pub proof fn lemma_push_front_contains<A>(rest: Seq<A>, first: A, needle: A)
    ensures
        (seq![first] + rest).contains(needle) <==> (needle == first || rest.contains(needle)),
{
    let whole = seq![first] + rest;
    if needle == first {
        assert(whole[0] == needle);
    }
    if rest.contains(needle) {
        let i = choose|i: int| 0 <= i < rest.len() && rest[i] == needle;
        assert(whole[i + 1] == needle);
    }
    if whole.contains(needle) {
        let i = choose|i: int| 0 <= i < whole.len() && whole[i] == needle;
        if i > 0 {
            assert(rest[i - 1] == needle);
        }
    }
}

/// Putting a new item in front of a sequence without repetitions gives a
/// sequence without repetitions.
pub proof fn lemma_push_front_no_duplicates<A>(rest: Seq<A>, first: A)
    requires
        rest.no_duplicates(),
        !rest.contains(first),
    ensures
        (seq![first] + rest).no_duplicates(),
{
    let whole = seq![first] + rest;
    assert forall|i: int, j: int| 0 <= i < whole.len() && 0 <= j < whole.len() && i != j implies whole[i]
        != whole[j] by {
        if i > 0 {
            assert(whole[i] == rest[i - 1]);
        }
        if j > 0 {
            assert(whole[j] == rest[j - 1]);
        }
    }
}

/// Every item of a sequence is its last one or an item of the rest; if
/// nothing is repeated, the last one is not in the rest, and the rest
/// repeats nothing.
pub proof fn lemma_drop_last_contains<A>(items: Seq<A>, needle: A)
    requires
        items.len() > 0,
    ensures
        items.contains(needle) <==> (items.drop_last().contains(needle) || needle == items.last()),
        items.no_duplicates() ==> !items.drop_last().contains(items.last()),
        items.no_duplicates() ==> items.drop_last().no_duplicates(),
{
    let rest = items.drop_last();
    if items.contains(needle) {
        let i = choose|i: int| 0 <= i < items.len() && items[i] == needle;
        if i < items.len() - 1 {
            assert(rest[i] == needle);
        }
    }
    if rest.contains(needle) {
        let i = choose|i: int| 0 <= i < rest.len() && rest[i] == needle;
        assert(items[i] == needle);
    }
    if needle == items.last() {
        assert(items[items.len() - 1] == needle);
    }
    if items.no_duplicates() && rest.contains(items.last()) {
        let i = choose|i: int| 0 <= i < rest.len() && rest[i] == items.last();
        assert(items[i] == items[items.len() - 1]);
    }
}

/// A sequence with `last` put at its end holds `last` and what it held
/// before; if it repeated nothing and did not hold `last`, it still repeats
/// nothing.
pub proof fn lemma_push_contains<A>(items: Seq<A>, last: A, needle: A)
    ensures
        items.push(last).contains(needle) <==> (items.contains(needle) || needle == last),
        items.no_duplicates() && !items.contains(last) ==> items.push(last).no_duplicates(),
{
    let whole = items.push(last);
    if needle == last {
        assert(whole[items.len() as int] == needle);
    }
    if items.contains(needle) {
        let i = choose|i: int| 0 <= i < items.len() && items[i] == needle;
        assert(whole[i] == needle);
    }
    if whole.contains(needle) {
        let i = choose|i: int| 0 <= i < whole.len() && whole[i] == needle;
        if i < items.len() {
            assert(items[i] == needle);
        }
    }
    if items.no_duplicates() && !items.contains(last) {
        assert forall|i: int, j: int|
            0 <= i < whole.len() && 0 <= j < whole.len() && i != j implies whole[i] != whole[j] by {
            if i < items.len() && j < items.len() {
                assert(whole[i] == items[i] && whole[j] == items[j]);
            } else if i < items.len() {
                assert(items[i] == whole[i]);
            } else {
                assert(items[j] == whole[j]);
            }
        }
    }
}


} // verus!
