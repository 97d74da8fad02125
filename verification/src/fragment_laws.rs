//! What holds of the order in which init fragments are emitted and of the
//! places that their texts take in a module's text.

use vstd::prelude::*;
use crate::init_fragment::{
    closing_text, emission_order, first_of_each_key, first_of_each_key_upto, has_earlier_key,
    in_emission_order, is_emission_order, lemma_emission_order_exists, opening_text, precedes,
    ranks_below, InitFragmentKeyView, InitFragmentView,
};

verus! {

/// Emission is a stable sort by stage and position. The fragments come out
/// with stage and position never falling, and two fragments of one stage and
/// position come out in the order in which they were contributed.
pub proof fn lemma_emission_is_stable_sort(fragments: Seq<InitFragmentView>)
    ensures
        is_emission_order(fragments, emission_order(fragments)),
        forall|k: int, l: int|
            0 <= k < l < fragments.len() ==> !ranks_below(
                #[trigger] in_emission_order(fragments)[l],
                #[trigger] in_emission_order(fragments)[k],
            ),
        forall|k: int, l: int|
            0 <= k < fragments.len() && 0 <= l < fragments.len() && (#[trigger] in_emission_order(
                fragments,
            )[k]).stage == (#[trigger] in_emission_order(fragments)[l]).stage && in_emission_order(
                fragments,
            )[k].position == in_emission_order(fragments)[l].position ==> (k < l
                <==> emission_order(fragments)[k] < emission_order(fragments)[l]),
{
    lemma_emission_order_exists(fragments);
}

/// The opening texts of a list are those of its first `k` fragments followed
/// by those of the rest.
pub proof fn lemma_opening_text_splits(kept: Seq<InitFragmentView>, k: int)
    requires
        0 <= k <= kept.len(),
    ensures
        opening_text(kept) == opening_text(kept.take(k)) + opening_text(kept.skip(k)),
    decreases kept.len(),
{
    if k == kept.len() {
        assert(kept.take(k) =~= kept);
    } else {
        let shorter = kept.drop_last();
        lemma_opening_text_splits(shorter, k);
        assert(shorter.take(k) =~= kept.take(k));
        assert(kept.skip(k).drop_last() =~= shorter.skip(k));
    }
}

/// The closing texts of a list are those of the fragments after the first
/// `k`, followed by those of the first `k`.
pub proof fn lemma_closing_text_splits(kept: Seq<InitFragmentView>, k: int)
    requires
        0 <= k <= kept.len(),
    ensures
        closing_text(kept) == closing_text(kept.skip(k)) + closing_text(kept.take(k)),
    decreases kept.len(),
{
    if k == 0 {
        assert(kept.skip(0) =~= kept);
    } else {
        let rest = kept.drop_first();
        lemma_closing_text_splits(rest, k - 1);
        assert(rest.skip(k - 1) =~= kept.skip(k));
        assert(kept.take(k).drop_first() =~= rest.take(k - 1));
    }
}

/// A single fragment opens with its opening text and closes with its closing
/// text.
proof fn lemma_texts_of_one(one: Seq<InitFragmentView>)
    requires
        one.len() == 1,
    ensures
        opening_text(one) == one[0].content,
        closing_text(one) == one[0].closing_text(),
{
    reveal_with_fuel(opening_text, 2);
    reveal_with_fuel(closing_text, 2);
}

/// Where the text that opens fragment `k` of `kept` starts in a module's
/// text.
pub open spec fn opening_start(kept: Seq<InitFragmentView>, k: int) -> int {
    opening_text(kept.take(k)).len() as int
}

/// Where the text that closes fragment `k` of `kept` starts in the text of a
/// module with the given body.
pub open spec fn closing_start(kept: Seq<InitFragmentView>, body: Seq<char>, k: int) -> int {
    (opening_text(kept).len() + body.len() + closing_text(kept.skip(k + 1)).len()) as int
}

/// The text of a module holds the opening and the closing text of each of
/// its fragments, at the places that `opening_start` and `closing_start`
/// give, the body between them.
pub proof fn lemma_fragment_places(kept: Seq<InitFragmentView>, body: Seq<char>, k: int)
    requires
        0 <= k < kept.len(),
    ensures
        ({
            let text = opening_text(kept) + body + closing_text(kept);
            let opens = opening_start(kept, k);
            let closes = closing_start(kept, body, k);
            &&& 0 <= opens
            &&& opens + kept[k].content.len() <= opening_text(kept).len()
            &&& text.subrange(opens, opens + kept[k].content.len()) == kept[k].content
            &&& text.subrange(
                opening_text(kept).len() as int,
                (opening_text(kept).len() + body.len()) as int,
            ) == body
            &&& opening_text(kept).len() + body.len() <= closes
            &&& closes + kept[k].closing_text().len() <= text.len()
            &&& text.subrange(closes, closes + kept[k].closing_text().len())
                == kept[k].closing_text()
        }),
{
    let from = kept.skip(k);
    lemma_opening_text_splits(kept, k);
    lemma_opening_text_splits(from, 1);
    lemma_texts_of_one(from.take(1));
    let upto = kept.take(k + 1);
    lemma_closing_text_splits(kept, k + 1);
    lemma_closing_text_splits(upto, k);
    lemma_texts_of_one(upto.skip(k));
}

/// Fragments nest. Of two emitted fragments the one that is opened first is
/// closed last: its opening text ends before the other's begins, and the
/// other's closing text ends before its own begins.
pub proof fn lemma_fragments_nest(
    kept: Seq<InitFragmentView>,
    body: Seq<char>,
    outer: int,
    inner: int,
)
    requires
        0 <= outer < inner < kept.len(),
    ensures
        opening_start(kept, outer) + kept[outer].content.len() <= opening_start(kept, inner),
        closing_start(kept, body, inner) + kept[inner].closing_text().len() <= closing_start(
            kept,
            body,
            outer,
        ),
{
    let upto = kept.take(inner);
    lemma_opening_text_splits(upto, outer + 1);
    assert(upto.take(outer + 1) =~= kept.take(outer + 1));
    lemma_opening_text_splits(kept.take(outer + 1), outer);
    assert(kept.take(outer + 1).take(outer) =~= kept.take(outer));
    let one = kept.take(outer + 1).skip(outer);
    lemma_texts_of_one(one);

    let after = kept.skip(outer + 1);
    lemma_closing_text_splits(after, inner - outer);
    assert(after.skip(inner - outer) =~= kept.skip(inner + 1));
    let between = after.take(inner - outer);
    lemma_closing_text_splits(between, inner - outer - 1);
    let last = between.skip(inner - outer - 1);
    lemma_texts_of_one(last);
}

/// Whether a fragment of `kept` has the key `key`.
pub open spec fn holds_key(kept: Seq<InitFragmentView>, key: InitFragmentKeyView) -> bool {
    exists|a: int| 0 <= a < kept.len() && (#[trigger] kept[a]).key == key
}

/// Whether `fragment` is among the first `count` fragments of `sorted`, with
/// no fragment of its key before it.
pub open spec fn is_first_of_its_key(
    sorted: Seq<InitFragmentView>,
    fragment: InitFragmentView,
    count: int,
) -> bool {
    exists|j: int| 0 <= j < count && #[trigger] sorted[j] == fragment && !has_earlier_key(sorted, j)
}

/// What is kept of the first `count` fragments holds each of their keys
/// once, with the first fragment of the key.
proof fn lemma_kept_upto_holds_each_key_once(sorted: Seq<InitFragmentView>, count: int)
    requires
        0 <= count <= sorted.len(),
    ensures
        forall|a: int, b: int|
            0 <= a < b < first_of_each_key_upto(sorted, count).len() ==> (
            #[trigger] first_of_each_key_upto(sorted, count)[a]).key != (
            #[trigger] first_of_each_key_upto(sorted, count)[b]).key,
        forall|j: int|
            0 <= j < count ==> holds_key(
                first_of_each_key_upto(sorted, count),
                (#[trigger] sorted[j]).key,
            ),
        forall|a: int|
            0 <= a < first_of_each_key_upto(sorted, count).len() ==> is_first_of_its_key(
                sorted,
                #[trigger] first_of_each_key_upto(sorted, count)[a],
                count,
            ),
    decreases count,
{
    if count > 0 {
        lemma_kept_upto_holds_each_key_once(sorted, count - 1);
        let last = count - 1;
        let before = first_of_each_key_upto(sorted, last);
        let kept = first_of_each_key_upto(sorted, count);
        assert forall|a: int| 0 <= a < kept.len() implies is_first_of_its_key(
            sorted,
            #[trigger] kept[a],
            count,
        ) by {
            if a < before.len() {
                assert(is_first_of_its_key(sorted, before[a], last));
            }
        }
        assert forall|j: int| 0 <= j < count implies holds_key(kept, (#[trigger] sorted[j]).key) by {
            if j < last {
                let a = choose|a: int|
                    0 <= a < before.len() && (#[trigger] before[a]).key == sorted[j].key;
                assert(kept[a].key == sorted[j].key);
            } else if has_earlier_key(sorted, last) {
                let i = choose|i: int| 0 <= i < last && (#[trigger] sorted[i]).key == sorted[last].key;
                let a = choose|a: int|
                    0 <= a < before.len() && (#[trigger] before[a]).key == sorted[i].key;
                assert(kept[a].key == sorted[j].key);
            } else {
                assert(kept[kept.len() - 1].key == sorted[j].key);
            }
        }
        assert forall|a: int, b: int| 0 <= a < b < kept.len() implies (#[trigger] kept[a]).key != (
        #[trigger] kept[b]).key by {
            if b >= before.len() {
                assert(is_first_of_its_key(sorted, before[a], last));
            }
        }
    }
}

/// Fragments that share a key collapse to one. What is emitted holds no key
/// twice. It holds every key that a fragment has, with the fragment of that
/// key that comes first in the order of emission.
pub proof fn lemma_each_key_is_emitted_once(sorted: Seq<InitFragmentView>)
    ensures
        forall|a: int, b: int|
            0 <= a < b < first_of_each_key(sorted).len() ==> (#[trigger] first_of_each_key(
                sorted,
            )[a]).key != (#[trigger] first_of_each_key(sorted)[b]).key,
        forall|j: int|
            0 <= j < sorted.len() ==> holds_key(first_of_each_key(sorted), (#[trigger] sorted[j]).key),
        forall|a: int|
            0 <= a < first_of_each_key(sorted).len() ==> is_first_of_its_key(
                sorted,
                #[trigger] first_of_each_key(sorted)[a],
                sorted.len() as int,
            ),
{
    lemma_kept_upto_holds_each_key_once(sorted, sorted.len() as int);
}

} // verus!
