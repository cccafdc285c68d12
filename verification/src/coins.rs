//! Which of the buyer's outputs may pay for a trade, and which of them do.

use vstd::prelude::*;
use crate::ledger::{
    lemma_total_value_concat, lemma_total_value_push, lemma_total_value_reverse,
    lemma_total_value_take, total_value, UnspentOutput,
};

verus! {

/// An unspent output together with the oracle's answer for it.
#[derive(Clone, Debug, PartialEq, Eq)]
pub struct Classified {
    pub output: UnspentOutput,
    /// Whether the output holds an inscription.
    pub holds_inscription: bool,
}

/// The output must not be spent: it holds an inscription, or the wallet
/// lacks the keys to it.
pub open spec fn is_barred(entry: Classified) -> bool {
    entry.holds_inscription || !entry.output.spendable
}

/// The outputs that may be spent, in the order given.
pub open spec fn eligible(classified: Seq<Classified>) -> Seq<UnspentOutput>
    decreases classified.len(),
{
    if classified.len() == 0 {
        Seq::empty()
    } else if is_barred(classified.last()) {
        eligible(classified.drop_last())
    } else {
        eligible(classified.drop_last()).push(classified.last().output)
    }
}

/// Where an output of value `value` goes into an ascending run: behind the
/// last output whose value is not larger.
pub open spec fn insertion_point(sorted: Seq<UnspentOutput>, value: u64) -> int
    decreases sorted.len(),
{
    if sorted.len() == 0 || sorted.last().value <= value {
        sorted.len() as int
    } else {
        insertion_point(sorted.drop_last(), value)
    }
}

/// The outputs in ascending order of value; outputs of equal value keep the
/// order in which they were given.
pub open spec fn ascending(outputs: Seq<UnspentOutput>) -> Seq<UnspentOutput>
    decreases outputs.len(),
{
    if outputs.len() == 0 {
        outputs
    } else {
        let sorted = ascending(outputs.drop_last());
        sorted.insert(insertion_point(sorted, outputs.last().value), outputs.last())
    }
}

/// No output is followed by one of smaller value.
pub open spec fn is_ascending(outputs: Seq<UnspentOutput>) -> bool {
    forall|i: int, j: int| 0 <= i <= j < outputs.len() ==> outputs[i].value <= outputs[j].value
}

/// The outputs of value `value`, in the order given.
pub open spec fn of_value(outputs: Seq<UnspentOutput>, value: u64) -> Seq<UnspentOutput> {
    outputs.filter(|output: UnspentOutput| output.value == value)
}

/// The outputs chosen to pay for a trade, in the order in which they become
/// inputs, and what they hold beyond the sum that was asked for.
#[derive(Clone, Debug, PartialEq, Eq)]
pub struct Selection {
    pub inputs: Vec<UnspentOutput>,
    /// Sum of the chosen values less the threshold.
    pub change: u64,
}

/// The first `count` candidates in spending order: the last one given is spent
/// first. With candidates in ascending order that is largest first.
pub open spec fn spent_first(candidates: Seq<UnspentOutput>, count: int) -> Seq<UnspentOutput> {
    candidates.reverse().take(count)
}

/// Spending the first `count` candidates reaches `threshold`, and spending one
/// less does not.
pub open spec fn is_minimal_cover(candidates: Seq<UnspentOutput>, count: int, threshold: int)
    -> bool {
    &&& 0 <= count <= candidates.len()
    &&& total_value(spent_first(candidates, count)) >= threshold
    &&& count > 0 ==> total_value(spent_first(candidates, count - 1)) < threshold
}

/// `picks` names positions among the candidates, each once, in rising order.
pub open spec fn is_choice(candidates: Seq<UnspentOutput>, picks: Seq<int>) -> bool {
    &&& forall|i: int| 0 <= i < picks.len() ==> 0 <= #[trigger] picks[i] < candidates.len()
    &&& forall|i: int, j: int| 0 <= i < j < picks.len() ==> picks[i] < picks[j]
}

/// Sum of the values at the positions that `picks` names.
pub open spec fn picked_value(candidates: Seq<UnspentOutput>, picks: Seq<int>) -> int
    decreases picks.len(),
{
    if picks.len() == 0 {
        0
    } else {
        picked_value(candidates, picks.drop_last()) + candidates[picks.last()].value
    }
}

/// Index of the slot behind the last output whose value is not larger.
fn insertion_index(sorted: &Vec<UnspentOutput>, value: u64) -> (at: usize)
    ensures
        at == insertion_point(sorted@, value),
        at <= sorted.len(),
{
    let mut at: usize = sorted.len();
    proof {
        assert(sorted@.take(at as int) == sorted@);
    }
    while at > 0 && sorted[at - 1].value > value
        invariant
            at <= sorted.len(),
            insertion_point(sorted@, value) == insertion_point(sorted@.take(at as int), value),
        decreases at,
    {
        proof {
            assert(sorted@.take(at as int).drop_last() == sorted@.take(at - 1));
        }
        at -= 1;
    }
    at
}

/// Sorts the outputs by ascending value, keeping the given order among equals.
pub fn sort_ascending(outputs: &Vec<UnspentOutput>) -> (sorted: Vec<UnspentOutput>)
    ensures
        sorted@ == ascending(outputs@),
{
    let mut sorted: Vec<UnspentOutput> = Vec::new();
    let mut i: usize = 0;
    while i < outputs.len()
        invariant
            i <= outputs.len(),
            sorted@ == ascending(outputs@.take(i as int)),
        decreases outputs.len() - i,
    {
        let at: usize = insertion_index(&sorted, outputs[i].value);
        proof {
            assert(outputs@.take(i + 1).drop_last() == outputs@.take(i as int));
        }
        sorted.insert(at, outputs[i].duplicate());
        i += 1;
    }
    proof {
        assert(outputs@.take(outputs.len() as int) == outputs@);
    }
    sorted
}

/// The buyer's outputs that may pay: those that the wallet can spend and
/// that hold no inscription, by ascending value.
pub fn spendable_outputs(classified: &Vec<Classified>) -> (spendable: Vec<UnspentOutput>)
    ensures
        spendable@ == ascending(eligible(classified@)),
{
    let mut kept: Vec<UnspentOutput> = Vec::new();
    let mut i: usize = 0;
    while i < classified.len()
        invariant
            i <= classified.len(),
            kept@ == eligible(classified@.take(i as int)),
        decreases classified.len() - i,
    {
        proof {
            assert(classified@.take(i + 1).drop_last() == classified@.take(i as int));
        }
        if !classified[i].holds_inscription && classified[i].output.spendable {
            kept.push(classified[i].output.duplicate());
        }
        i += 1;
    }
    proof {
        assert(classified@.take(classified.len() as int) == classified@);
    }
    sort_ascending(&kept)
}

/// Picks payment inputs from the back of `candidates` until their sum reaches
/// `threshold`, and stops there. Where all candidates together fall short,
/// nothing is picked and the answer is `None`.
pub fn select_payment(candidates: &Vec<UnspentOutput>, threshold: u64) -> (selection: Option<
    Selection,
>)
    ensures
        selection is None <==> total_value(candidates@) < threshold,
        selection matches Some(chosen) ==> {
            &&& is_minimal_cover(candidates@, chosen.inputs@.len() as int, threshold as int)
            &&& chosen.inputs@ == spent_first(candidates@, chosen.inputs@.len() as int)
            &&& chosen.change == total_value(chosen.inputs@) - threshold
        },
{
    let mut inputs: Vec<UnspentOutput> = Vec::new();
    let mut sum: u128 = 0;
    let mut left: usize = candidates.len();
    proof {
        assert(spent_first(candidates@, 0) == Seq::<UnspentOutput>::empty());
    }
    while left > 0 && sum < threshold as u128
        invariant
            left <= candidates.len(),
            inputs@.len() == candidates.len() - left,
            inputs@ == spent_first(candidates@, inputs@.len() as int),
            sum == total_value(inputs@),
            inputs@.len() > 0 ==> total_value(spent_first(candidates@, inputs@.len() - 1))
                < threshold,
            inputs@.len() > 0 ==> sum - inputs@.last().value == total_value(
                spent_first(candidates@, inputs@.len() - 1),
            ),
        decreases left,
    {
        left -= 1;
        let ghost before = inputs@;
        inputs.push(candidates[left].duplicate());
        sum = sum + candidates[left].value as u128;
        proof {
            lemma_total_value_push(before, candidates@[left as int]);
            assert(candidates@.reverse()[before.len() as int] == candidates@[left as int]);
            assert(inputs@ == spent_first(candidates@, inputs@.len() as int));
            assert(spent_first(candidates@, inputs@.len() - 1) == before);
        }
    }
    proof {
        lemma_total_value_reverse(candidates@);
        lemma_total_value_take(candidates@.reverse(), inputs@.len() as int);
    }
    if sum < threshold as u128 {
        proof {
            assert(candidates@.reverse().take(candidates@.len() as int) == candidates@.reverse());
        }
        None
    } else {
        let change: u64 = (sum - threshold as u128) as u64;
        Some(Selection { inputs, change })
    }
}

/// The insertion point lies inside the run, everything from it on is larger
/// than `value`, and in an ascending run nothing before it is.
pub proof fn lemma_insertion_point(sorted: Seq<UnspentOutput>, value: u64)
    ensures
        0 <= insertion_point(sorted, value) <= sorted.len(),
        forall|k: int|
            insertion_point(sorted, value) <= k < sorted.len() ==> sorted[k].value > value,
        is_ascending(sorted) ==> forall|k: int|
            0 <= k < insertion_point(sorted, value) ==> sorted[k].value <= value,
    decreases sorted.len(),
{
    if sorted.len() == 0 || sorted.last().value <= value {
    } else {
        let rest = sorted.drop_last();
        lemma_insertion_point(rest, value);
        assert(insertion_point(sorted, value) == insertion_point(rest, value));
        assert forall|k: int|
            insertion_point(sorted, value) <= k < sorted.len() implies sorted[k].value > value by {
            if k < rest.len() {
                assert(rest[k] == sorted[k]);
            }
        }
        if is_ascending(sorted) {
            assert forall|i: int, j: int| 0 <= i <= j < rest.len() implies rest[i].value
                <= rest[j].value by {
                assert(rest[i] == sorted[i] && rest[j] == sorted[j]);
            }
            assert forall|k: int| 0 <= k < insertion_point(sorted, value) implies sorted[k].value
                <= value by {
                assert(rest[k] == sorted[k]);
            }
        }
    }
}

/// Sorting yields an ascending run.
pub proof fn lemma_ascending_is_ascending(outputs: Seq<UnspentOutput>)
    ensures
        is_ascending(ascending(outputs)),
        ascending(outputs).len() == outputs.len(),
    decreases outputs.len(),
{
    if outputs.len() > 0 {
        let sorted = ascending(outputs.drop_last());
        let last = outputs.last();
        let at = insertion_point(sorted, last.value);
        lemma_ascending_is_ascending(outputs.drop_last());
        lemma_insertion_point(sorted, last.value);
        let result = sorted.insert(at, last);
        assert forall|i: int, j: int| 0 <= i <= j < result.len() implies result[i].value
            <= result[j].value by {
            if i < at && j > at {
                assert(result[i] == sorted[i] && result[j] == sorted[j - 1]);
            } else if i < at && j < at {
                assert(result[i] == sorted[i] && result[j] == sorted[j]);
            } else if i > at {
                assert(result[i] == sorted[i - 1] && result[j] == sorted[j - 1]);
            } else if i == at && j > at {
                assert(result[j] == sorted[j - 1]);
            } else if j == at && i < at {
                assert(result[i] == sorted[i]);
            }
        }
    }
}

/// Sorting neither adds nor drops an output.
pub proof fn lemma_ascending_permutes(outputs: Seq<UnspentOutput>)
    ensures
        ascending(outputs).to_multiset() == outputs.to_multiset(),
    decreases outputs.len(),
{
    if outputs.len() > 0 {
        let rest = outputs.drop_last();
        let sorted = ascending(rest);
        let last = outputs.last();
        lemma_ascending_permutes(rest);
        lemma_insertion_point(sorted, last.value);
        vstd::seq_lib::to_multiset_insert(sorted, insertion_point(sorted, last.value), last);
        vstd::seq_lib::to_multiset_build(rest, last);
        assert(rest.push(last) == outputs);
    }
}

/// Sorting keeps outputs of equal value in the order in which they were
/// given.
pub proof fn lemma_ascending_is_stable(outputs: Seq<UnspentOutput>, value: u64)
    ensures
        of_value(ascending(outputs), value) == of_value(outputs, value),
    decreases outputs.len(),
{
    let same = |output: UnspentOutput| output.value == value;
    if outputs.len() == 0 {
    } else {
        let rest = outputs.drop_last();
        let last = outputs.last();
        let sorted = ascending(rest);
        let at = insertion_point(sorted, last.value);
        lemma_ascending_is_stable(rest, value);
        lemma_ascending_is_ascending(rest);
        lemma_insertion_point(sorted, last.value);
        let front = sorted.take(at);
        let back = sorted.skip(at);
        assert(sorted == front + back);
        assert(sorted.insert(at, last) == front.push(last) + back);
        Seq::filter_distributes_over_add(front, back, same);
        Seq::filter_distributes_over_add(front.push(last), back, same);
        front.lemma_filter_push(last, same);
        rest.lemma_filter_push(last, same);
        assert(rest.push(last) == outputs);
        if last.value == value {
            assert(back.all(|output: UnspentOutput| !same(output))) by {
                assert forall|k: int| 0 <= k < back.len() implies !same(#[trigger] back[k]) by {
                    assert(back[k] == sorted[at + k]);
                }
            }
            back.lemma_all_neg_filter_empty(same);
            assert(back.filter(same) == Seq::<UnspentOutput>::empty());
            assert(front.filter(same) + Seq::<UnspentOutput>::empty() == front.filter(same));
            assert(front.filter(same).push(last) + Seq::<UnspentOutput>::empty()
                == front.filter(same).push(last));
        }
    }
}

/// An output is kept exactly when some entry holds it and nothing bars it.
pub proof fn lemma_eligible(classified: Seq<Classified>, output: UnspentOutput)
    ensures
        eligible(classified).contains(output) <==> exists|i: int|
            0 <= i < classified.len() && #[trigger] classified[i].output == output
                && !is_barred(classified[i]),
    decreases classified.len(),
{
    if classified.len() > 0 {
        let rest = classified.drop_last();
        let last = classified.last();
        let kept = eligible(rest);
        lemma_eligible(rest, output);
        if eligible(classified).contains(output) {
            if !is_barred(last) && last.output == output {
                assert(classified[classified.len() - 1].output == output);
            } else {
                if !is_barred(last) {
                    let k = choose|k: int|
                        0 <= k < kept.push(last.output).len() && kept.push(last.output)[k]
                            == output;
                    assert(kept[k] == output);
                }
                assert(kept.contains(output));
                let i = choose|i: int|
                    0 <= i < rest.len() && #[trigger] rest[i].output == output
                        && !is_barred(rest[i]);
                assert(classified[i].output == output);
            }
        }
        if exists|i: int|
            0 <= i < classified.len() && #[trigger] classified[i].output == output
                && !is_barred(classified[i]) {
            let i = choose|i: int|
                0 <= i < classified.len() && #[trigger] classified[i].output == output
                    && !is_barred(classified[i]);
            if i == classified.len() - 1 {
                assert(kept.push(last.output)[kept.len() as int] == output);
            } else {
                assert(rest[i].output == output);
                assert(kept.contains(output));
                if !is_barred(last) {
                    let k = choose|k: int| 0 <= k < kept.len() && kept[k] == output;
                    assert(kept.push(last.output)[k] == output);
                }
            }
        }
    }
}

/// Whatever stands among the sorted outputs that may be spent was listed,
/// and nothing bars it: it holds no inscription and the wallet can spend it.
pub proof fn lemma_sorted_output_was_listed(classified: Seq<Classified>, output: UnspentOutput)
    requires
        ascending(eligible(classified)).contains(output),
    ensures
        exists|i: int|
            0 <= i < classified.len() && #[trigger] classified[i].output == output
                && !is_barred(classified[i]),
{
    let kept = eligible(classified);
    let sorted = ascending(kept);
    lemma_ascending_permutes(kept);
    sorted.to_multiset_ensures();
    kept.to_multiset_ensures();
    assert(sorted.to_multiset().count(output) > 0);
    assert(kept.to_multiset().count(output) > 0);
    assert(kept.contains(output));
    lemma_eligible(classified, output);
}

/// Nothing that the oracle found to hold an inscription is ever chosen to pay:
/// as long as the candidates come from the outputs that may be spent, every
/// chosen output was listed, and listed without an inscription.
pub proof fn lemma_selection_avoids_inscriptions(
    classified: Seq<Classified>,
    candidates: Seq<UnspentOutput>,
    count: int,
    k: int,
)
    requires
        forall|j: int|
            0 <= j < candidates.len() ==> ascending(eligible(classified)).contains(
                #[trigger] candidates[j],
            ),
        0 <= k < count <= candidates.len(),
    ensures
        exists|i: int|
            0 <= i < classified.len() && #[trigger] classified[i].output == spent_first(
                candidates,
                count,
            )[k] && !is_barred(classified[i]),
{
    let chosen = spent_first(candidates, count)[k];
    assert(chosen == candidates[candidates.len() - 1 - k]);
    lemma_sorted_output_was_listed(classified, chosen);
}

/// With candidates in ascending order, payment is chosen largest first:
/// nothing that is left is larger than anything chosen.
pub proof fn lemma_selection_is_largest_first(candidates: Seq<UnspentOutput>, count: int)
    requires
        is_ascending(candidates),
        0 <= count <= candidates.len(),
    ensures
        forall|k: int, j: int|
            #![trigger spent_first(candidates, count)[k], candidates[j]]
            0 <= k < count && 0 <= j < candidates.len() - count ==> candidates[j].value
                <= spent_first(candidates, count)[k].value,
        forall|k: int, l: int|
            #![trigger spent_first(candidates, count)[k], spent_first(candidates, count)[l]]
            0 <= k <= l < count ==> spent_first(candidates, count)[k].value >= spent_first(
                candidates,
                count,
            )[l].value,
{
    assert forall|k: int, j: int|
        #![trigger spent_first(candidates, count)[k], candidates[j]]
        0 <= k < count && 0 <= j < candidates.len() - count implies candidates[j].value
            <= spent_first(candidates, count)[k].value by {
        assert(spent_first(candidates, count)[k] == candidates[candidates.len() - 1 - k]);
    }
    assert forall|k: int, l: int|
        #![trigger spent_first(candidates, count)[k], spent_first(candidates, count)[l]]
        0 <= k <= l < count implies spent_first(candidates, count)[k].value >= spent_first(
        candidates,
        count,
    )[l].value by {
        assert(spent_first(candidates, count)[k] == candidates[candidates.len() - 1 - k]);
        assert(spent_first(candidates, count)[l] == candidates[candidates.len() - 1 - l]);
    }
}

/// What stands at the picked positions does not depend on what follows them.
proof fn lemma_picked_value_ignores_the_rest(
    candidates: Seq<UnspentOutput>,
    picks: Seq<int>,
    length: int,
)
    requires
        0 <= length <= candidates.len(),
        forall|i: int| 0 <= i < picks.len() ==> 0 <= #[trigger] picks[i] < length,
    ensures
        picked_value(candidates.take(length), picks) == picked_value(candidates, picks),
    decreases picks.len(),
{
    if picks.len() > 0 {
        let rest = picks.drop_last();
        assert forall|i: int| 0 <= i < rest.len() implies 0 <= #[trigger] rest[i] < length by {
            assert(rest[i] == picks[i]);
        }
        lemma_picked_value_ignores_the_rest(candidates, rest, length);
        assert(picks.last() == picks[picks.len() - 1]);
    }
}

/// Among ascending candidates, no choice holds more than the same number of
/// candidates taken from the back.
pub proof fn lemma_back_holds_most(candidates: Seq<UnspentOutput>, picks: Seq<int>)
    requires
        is_ascending(candidates),
        is_choice(candidates, picks),
    ensures
        picks.len() <= candidates.len(),
        picked_value(candidates, picks) <= total_value(
            spent_first(candidates, picks.len() as int),
        ),
    decreases picks.len(),
{
    let count = picks.len() as int;
    if count == 0 {
        assert(spent_first(candidates, 0) == Seq::<UnspentOutput>::empty());
    } else {
        let size = candidates.len() as int;
        let last = picks.last();
        assert(last == picks[count - 1]);
        let shorter = candidates.drop_last();
        let rest = picks.drop_last();
        assert forall|i: int| 0 <= i < rest.len() implies 0 <= #[trigger] rest[i] < size - 1 by {
            assert(rest[i] == picks[i]);
            assert(picks[i] < picks[count - 1]);
        }
        assert forall|i: int, j: int| 0 <= i < j < rest.len() implies rest[i] < rest[j] by {
            assert(rest[i] == picks[i] && rest[j] == picks[j]);
        }
        assert forall|i: int, j: int| 0 <= i <= j < shorter.len() implies shorter[i].value
            <= shorter[j].value by {
            assert(shorter[i] == candidates[i] && shorter[j] == candidates[j]);
        }
        lemma_back_holds_most(shorter, rest);
        assert(shorter == candidates.take(size - 1));
        lemma_picked_value_ignores_the_rest(candidates, rest, size - 1);
        let largest = seq![candidates[size - 1]];
        assert(spent_first(candidates, count) =~= largest + spent_first(shorter, count - 1)) by {
            assert forall|i: int| 0 <= i < count implies spent_first(candidates, count)[i] == (
            largest + spent_first(shorter, count - 1))[i] by {
                if i > 0 {
                    assert(spent_first(shorter, count - 1)[i - 1] == shorter[size - 2 - (i - 1)]);
                }
            }
        }
        lemma_total_value_concat(largest, spent_first(shorter, count - 1));
        assert(largest == Seq::<UnspentOutput>::empty().push(candidates[size - 1]));
        lemma_total_value_push(Seq::empty(), candidates[size - 1]);
        assert(candidates[last].value <= candidates[size - 1].value);
    }
}

/// Largest first needs the fewest inputs: among ascending candidates, any
/// choice that reaches the threshold names at least as many outputs as the
/// selection does.
pub proof fn lemma_selection_is_fewest(
    candidates: Seq<UnspentOutput>,
    count: int,
    threshold: int,
    picks: Seq<int>,
)
    requires
        is_ascending(candidates),
        is_minimal_cover(candidates, count, threshold),
        is_choice(candidates, picks),
        picked_value(candidates, picks) >= threshold,
    ensures
        picks.len() >= count,
{
    if picks.len() < count {
        lemma_back_holds_most(candidates, picks);
        let most = spent_first(candidates, count - 1);
        lemma_total_value_take(most, picks.len() as int);
        assert(most.take(picks.len() as int) == spent_first(candidates, picks.len() as int));
    }
}

} // verus!
