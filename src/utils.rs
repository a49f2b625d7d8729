//! Greedy packing of an ordered list of strings into batches whose total
//! byte length stays within a budget.
use vstd::prelude::*;

verus! {

/// Number of bytes in the UTF-8 encoding of `s`: what `str::len` returns.
pub open spec fn byte_len(s: Seq<char>) -> nat {
    vstd::utf8::encode_utf8(s).len()
}

/// Sum of the byte lengths of the strings of a batch.
pub open spec fn batch_len(b: Seq<Seq<char>>) -> nat
    decreases b.len(),
{
    if b.len() == 0 {
        0
    } else {
        batch_len(b.drop_last()) + byte_len(b.last())
    }
}

/// Every string of `items` fits alone within `budget`.
pub open spec fn all_fit(budget: nat, items: Seq<Seq<char>>) -> bool {
    forall|i: int| 0 <= i < items.len() ==> byte_len(#[trigger] items[i]) <= budget
}

/// Abstract state of a fold: the batches closed or in progress, the budget of
/// each batch, and the byte count of the batch in progress.
pub ghost struct FoldView {
    pub batches: Seq<Seq<Seq<char>>>,
    pub budget: nat,
    pub current: nat,
}

/// One greedy step: the item joins the last batch if it still fits, else it
/// opens a new batch of its own.
pub open spec fn fold_step(v: FoldView, item: Seq<char>) -> FoldView {
    if v.batches.len() == 0 || v.current + byte_len(item) > v.budget {
        FoldView { batches: v.batches.push(seq![item]), budget: v.budget, current: byte_len(item) }
    } else {
        FoldView {
            batches: v.batches.update(v.batches.len() - 1, v.batches.last().push(item)),
            budget: v.budget,
            current: v.current + byte_len(item),
        }
    }
}

/// The state after folding `items`, in order, from an empty state.
pub open spec fn fold_seq(budget: nat, items: Seq<Seq<char>>) -> FoldView
    decreases items.len(),
{
    if items.len() == 0 {
        FoldView { batches: Seq::empty(), budget, current: 0 }
    } else {
        fold_step(fold_seq(budget, items.drop_last()), items.last())
    }
}

/// The batches that the greedy fold of `items` produces.
pub open spec fn batches_of(budget: nat, items: Seq<Seq<char>>) -> Seq<Seq<Seq<char>>> {
    fold_seq(budget, items).batches
}

/// The contents of a list of batches of strings.
pub open spec fn batches_view(v: Seq<Vec<String>>) -> Seq<Seq<Seq<char>>> {
    v.map_values(|b: Vec<String>| strings_view(b@))
}

/// The contents of a list of strings.
pub open spec fn strings_view(v: Seq<String>) -> Seq<Seq<char>> {
    v.map_values(|s: String| s@)
}

/// Where every item fits within the budget, the greedy fold loses nothing and
/// reorders nothing (its batches, concatenated, give back the items), and no
/// batch is empty or goes over the budget.
pub proof fn lemma_fold_batches(budget: nat, items: Seq<Seq<char>>)
    requires
        all_fit(budget, items),
    ensures
        batches_of(budget, items).flatten() == items,
        forall|j: int|
            0 <= j < batches_of(budget, items).len() ==> batch_len(
                #[trigger] batches_of(budget, items)[j],
            ) <= budget,
        forall|j: int|
            0 <= j < batches_of(budget, items).len() ==> #[trigger] batches_of(
                budget,
                items,
            )[j].len() > 0,
{
    lemma_fold_shape(budget, items);
}

proof fn lemma_fold_shape(budget: nat, items: Seq<Seq<char>>)
    requires
        all_fit(budget, items),
    ensures
        fold_seq(budget, items).budget == budget,
        fold_seq(budget, items).batches.flatten() == items,
        fold_seq(budget, items).batches.len() == 0 ==> fold_seq(budget, items).current == 0,
        fold_seq(budget, items).batches.len() > 0 ==> fold_seq(budget, items).current
            == batch_len(fold_seq(budget, items).batches.last()),
        forall|j: int|
            0 <= j < fold_seq(budget, items).batches.len() ==> batch_len(
                #[trigger] fold_seq(budget, items).batches[j],
            ) <= budget,
        forall|j: int|
            0 <= j < fold_seq(budget, items).batches.len() ==> #[trigger] fold_seq(
                budget,
                items,
            ).batches[j].len() > 0,
    decreases items.len(),
{
    if items.len() == 0 {
        assert(fold_seq(budget, items).batches =~= Seq::<Seq<Seq<char>>>::empty());
    } else {
        let prev = items.drop_last();
        let item = items.last();
        assert(all_fit(budget, prev)) by {
            assert forall|i: int| 0 <= i < prev.len() implies byte_len(#[trigger] prev[i])
                <= budget by {
                assert(prev[i] == items[i]);
            }
        }
        assert(byte_len(item) <= budget) by {
            assert(items[items.len() - 1] == item);
        }
        lemma_fold_shape(budget, prev);
        let v = fold_seq(budget, prev);
        let w = fold_seq(budget, items);
        assert(w == fold_step(v, item));
        assert(prev.push(item) =~= items);
        if v.batches.len() == 0 || v.current + byte_len(item) > v.budget {
            v.batches.lemma_flatten_push(seq![item]);
            assert(batch_len(seq![item]) == byte_len(item)) by {
                assert(seq![item].drop_last() =~= Seq::<Seq<char>>::empty());
                assert(batch_len(Seq::<Seq<char>>::empty()) == 0);
                assert(seq![item].last() == item);
            }
            assert(w.batches.last() == seq![item]);
            assert(w.batches.flatten() =~= prev + seq![item]);
            assert forall|j: int| 0 <= j < w.batches.len() implies batch_len(
                #[trigger] w.batches[j],
            ) <= budget && w.batches[j].len() > 0 by {
                if j < v.batches.len() {
                    assert(w.batches[j] == v.batches[j]);
                }
            }
        } else {
            let n = v.batches.len();
            let last = v.batches.last();
            let init = v.batches.drop_last();
            assert(init.push(last) =~= v.batches);
            assert(init.push(last.push(item)) =~= w.batches);
            init.lemma_flatten_push(last);
            init.lemma_flatten_push(last.push(item));
            assert(w.batches.flatten() =~= v.batches.flatten() + seq![item]);
            assert(last.push(item).drop_last() =~= last);
            assert(batch_len(last.push(item)) == batch_len(last) + byte_len(item));
            assert(w.batches.last() == last.push(item));
            assert forall|j: int| 0 <= j < w.batches.len() implies batch_len(
                #[trigger] w.batches[j],
            ) <= budget && w.batches[j].len() > 0 by {
                if j < n - 1 {
                    assert(w.batches[j] == v.batches[j]);
                }
            }
        }
    }
}

/// Running state of a fold: the batches built so far, the byte budget of a
/// batch, and the byte count of the batch in progress.
pub struct FoldStrlenState {
    strings: Vec<Vec<String>>,
    partition_size: usize,
    current_character_count: usize,
}

impl View for FoldStrlenState {
    type V = FoldView;

    closed spec fn view(&self) -> FoldView {
        FoldView {
            batches: batches_view(self.strings@),
            budget: self.partition_size as nat,
            current: self.current_character_count as nat,
        }
    }
}

impl FoldStrlenState {
    /// An empty fold whose batches hold at most `nb_chars` bytes each.
    pub fn new(nb_chars: usize) -> (r: Self)
        ensures
            r@ == fold_seq(nb_chars as nat, Seq::empty()),
    {
        let r = FoldStrlenState {
            strings: Vec::new(),
            partition_size: nb_chars,
            current_character_count: 0,
        };
        assert(r@.batches =~= Seq::<Seq<Seq<char>>>::empty());
        r
    }

    /// The batches built so far, in order.
    pub fn extract(self) -> (r: Vec<Vec<String>>)
        ensures
            batches_view(r@) == self@.batches,
    {
        self.strings
    }
}

pub type FoldStrlenStateResult = Result<FoldStrlenState, String>;

/// Adds `item` to the fold: to the batch in progress if it still fits there,
/// else to a new batch. Fails, consuming the state, on an item longer than the
/// budget.
pub fn fold_by_strlen(state: FoldStrlenState, item: String) -> (r: FoldStrlenStateResult)
    ensures
        r is Err <==> byte_len(item@) > state@.budget,
        r matches Ok(s) ==> s@ == fold_step(state@, item@),
{
    let mut state = state;
    let item_len = item.as_str().as_bytes().len();
    if item_len > state.partition_size {
        return Err(String::from_str("A string is too long."));
    }
    let ghost old_strings = state.strings@;
    let ghost old_view = state@;
    let mut vector: Vec<String> = if state.strings.len() == 0 || state.current_character_count
        > state.partition_size || item_len > state.partition_size
        - state.current_character_count {
        state.current_character_count = 0;
        Vec::new()
    } else {
        match state.strings.pop() {
            Some(v) => v,
            None => Vec::new(),
        }
    };
    state.current_character_count = state.current_character_count + item_len;
    let ghost pushed = vector@;
    vector.push(item);
    state.strings.push(vector);
    proof {
        let n = old_strings.len();
        if old_view.batches.len() == 0 || old_view.current + byte_len(item@) > old_view.budget {
            assert(pushed.len() == 0);
            assert(strings_view(pushed.push(item)) =~= seq![item@]);
            assert(batches_view(old_strings.push(vector)) =~= old_view.batches.push(seq![item@]));
        } else {
            assert(pushed == old_strings[n - 1]@);
            assert(strings_view(pushed.push(item)) =~= strings_view(pushed).push(item@));
            assert(old_strings.drop_last().push(vector) == state.strings@);
            assert(batches_view(state.strings@) =~= old_view.batches.update(
                n - 1,
                old_view.batches.last().push(item@),
            ));
        }
    }
    Ok(state)
}

/// Why a fold failed.
#[derive(PartialEq, Eq, Structural, Debug, Clone, Copy)]
pub enum FoldError {
    /// One item is longer than the budget of a batch.
    ItemTooLarge,
}

/// Folds all of `items`, in order, into batches of at most `budget` bytes.
/// Fails as a whole, with no partial output, if one item is longer than the
/// budget.
pub fn fold_strings(budget: usize, items: Vec<String>) -> (r: Result<Vec<Vec<String>>, FoldError>)
    ensures
        r is Err <==> !all_fit(budget as nat, strings_view(items@)),
        r matches Ok(b) ==> batches_view(b@) == batches_of(budget as nat, strings_view(items@)),
        r matches Ok(b) ==> batches_view(b@).flatten() == strings_view(items@),
        r matches Ok(b) ==> forall|j: int|
            0 <= j < b@.len() ==> batch_len(#[trigger] batches_view(b@)[j]) <= budget,
{
    let ghost all = strings_view(items@);
    let mut state = FoldStrlenState::new(budget);
    let mut i: usize = 0;
    while i < items.len()
        invariant
            i <= items.len(),
            all == strings_view(items@),
            all_fit(budget as nat, all.take(i as int)),
            state@.budget == budget as nat,
            state@ == fold_seq(budget as nat, all.take(i as int)),
        decreases items.len() - i,
    {
        let item = items[i].clone();
        assert(all.take(i as int + 1).drop_last() =~= all.take(i as int));
        assert(all[i as int] == item@);
        match fold_by_strlen(state, item) {
            Ok(s) => {
                state = s;
            },
            Err(_) => {
                assert(!all_fit(budget as nat, all)) by {
                    assert(byte_len(all[i as int]) > budget);
                }
                return Err(FoldError::ItemTooLarge);
            },
        }
        assert(all_fit(budget as nat, all.take(i as int + 1))) by {
            assert forall|k: int| 0 <= k < i + 1 implies byte_len(
                #[trigger] all.take(i as int + 1)[k],
            ) <= budget by {
                if k < i {
                    assert(all.take(i as int + 1)[k] == all.take(i as int)[k]);
                }
            }
        }
        i = i + 1;
    }
    assert(all.take(i as int) =~= all);
    proof {
        lemma_fold_batches(budget as nat, all);
    }
    Ok(state.extract())
}

} // verus!
