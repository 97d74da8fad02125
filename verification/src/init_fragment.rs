//! Init fragments: keyed, staged snippets of wrapper code that the templates
//! of a module contribute, and the way they are merged into the module's text.
//!
//! Fragments are emitted by stage, then by position within the stage, then in
//! the order in which they were contributed. Of the fragments that share a key
//! only the first in that order is emitted. The text that opens a fragment is
//! written before the module's body; the texts that close the fragments follow
//! the body in reverse, so that the fragment opened last is closed first.

use vstd::prelude::*;
use vstd::string::StringExecFns;
use crate::module_graph::Identifier;

verus! {

/// The phase of a module's prologue to which a fragment belongs. Stages are
/// emitted in the order in which they are declared here.
#[derive(Clone, Copy, Debug, PartialEq, Eq, Structural)]
pub enum InitFragmentStage {
    StageConstants,
    StageHarmonyExports,
    StageHarmonyImports,
    StageAsyncBoundary,
}

impl InitFragmentStage {
    /// The place of the stage among the stages, counted from zero.
    pub open spec fn rank_spec(self) -> int {
        match self {
            InitFragmentStage::StageConstants => 0,
            InitFragmentStage::StageHarmonyExports => 1,
            InitFragmentStage::StageHarmonyImports => 2,
            InitFragmentStage::StageAsyncBoundary => 3,
        }
    }

    /// The place of the stage among the stages, counted from zero.
    pub fn rank(self) -> (rank: u8)
        ensures
            rank == self.rank_spec(),
    {
        match self {
            InitFragmentStage::StageConstants => 0,
            InitFragmentStage::StageHarmonyExports => 1,
            InitFragmentStage::StageHarmonyImports => 2,
            InitFragmentStage::StageAsyncBoundary => 3,
        }
    }
}

/// The identity under which a fragment is deduplicated.
#[derive(Clone, Debug, PartialEq, Eq)]
pub enum InitFragmentKey {
    /// The call that marks a module's exports as a namespace object.
    HarmonyCompatibility,
    /// The async boundary of one module. The key carries the module's
    /// identity, so no other module's boundary shares it.
    AsyncBoundary(Identifier),
}

/// A fragment key as contracts speak of it.
pub enum InitFragmentKeyView {
    HarmonyCompatibility,
    AsyncBoundary(Seq<char>),
}

impl View for InitFragmentKey {
    type V = InitFragmentKeyView;

    open spec fn view(&self) -> InitFragmentKeyView {
        match self {
            InitFragmentKey::HarmonyCompatibility => InitFragmentKeyView::HarmonyCompatibility,
            InitFragmentKey::AsyncBoundary(module) => InitFragmentKeyView::AsyncBoundary(module@),
        }
    }
}

impl InitFragmentKey {
    /// Whether two keys stand for the same fragment.
    pub fn same(&self, other: &InitFragmentKey) -> (equal: bool)
        ensures
            equal == (self@ == other@),
    {
        match (self, other) {
            (InitFragmentKey::HarmonyCompatibility, InitFragmentKey::HarmonyCompatibility) => true,
            (InitFragmentKey::AsyncBoundary(a), InitFragmentKey::AsyncBoundary(b)) => a.same(b),
            _ => false,
        }
    }
}

/// A snippet of wrapper code: the text that opens it, where it belongs among
/// the other fragments, the key under which it is deduplicated, and the text
/// that closes it, if it needs closing.
#[derive(Clone, Debug, PartialEq, Eq)]
pub struct NormalInitFragment {
    pub content: String,
    pub stage: InitFragmentStage,
    pub position: i32,
    pub key: InitFragmentKey,
    pub end_content: Option<String>,
}

/// A fragment as contracts speak of it.
pub struct InitFragmentView {
    pub content: Seq<char>,
    pub stage: InitFragmentStage,
    pub position: int,
    pub key: InitFragmentKeyView,
    pub end_content: Option<Seq<char>>,
}

impl View for NormalInitFragment {
    type V = InitFragmentView;

    open spec fn view(&self) -> InitFragmentView {
        InitFragmentView {
            content: self.content@,
            stage: self.stage,
            position: self.position as int,
            key: self.key@,
            end_content: match self.end_content {
                Some(text) => Some(text@),
                None => None,
            },
        }
    }
}

impl NormalInitFragment {
    pub fn new(
        content: String,
        stage: InitFragmentStage,
        position: i32,
        key: InitFragmentKey,
        end_content: Option<String>,
    ) -> (fragment: NormalInitFragment)
        ensures
            fragment == (NormalInitFragment { content, stage, position, key, end_content }),
    {
        NormalInitFragment { content, stage, position, key, end_content }
    }
}

impl InitFragmentView {
    /// The text that closes the fragment; empty where it needs no closing.
    pub open spec fn closing_text(self) -> Seq<char> {
        match self.end_content {
            Some(text) => text,
            None => Seq::empty(),
        }
    }
}

/// The fragments of a collector as contracts speak of them, in the order in
/// which they were contributed.
pub open spec fn fragment_views(fragments: Seq<NormalInitFragment>) -> Seq<InitFragmentView> {
    fragments.map_values(|fragment: NormalInitFragment| fragment@)
}

/// Whether `a` belongs to an earlier stage than `b`, or to the same stage at
/// an earlier position.
pub open spec fn ranks_below(a: InitFragmentView, b: InitFragmentView) -> bool {
    a.stage.rank_spec() < b.stage.rank_spec() || (a.stage == b.stage && a.position < b.position)
}

/// Whether the fragment contributed as number `i` is emitted before the one
/// contributed as number `j`: by stage, then by position, then by the order of
/// contribution.
pub open spec fn precedes(fragments: Seq<InitFragmentView>, i: int, j: int) -> bool {
    ranks_below(fragments[i], fragments[j]) || (!ranks_below(fragments[j], fragments[i]) && i < j)
}

/// Whether the fragment numbered `i` occurs in `order`.
pub open spec fn lists(order: Seq<int>, i: int) -> bool {
    exists|k: int| 0 <= k < order.len() && #[trigger] order[k] == i
}

/// Whether `order` lists the first `count` fragments, each once, so that each
/// precedes all that follow it.
pub open spec fn is_emission_order_of_first(
    fragments: Seq<InitFragmentView>,
    count: int,
    order: Seq<int>,
) -> bool {
    &&& order.len() == count
    &&& forall|k: int| 0 <= k < order.len() ==> 0 <= #[trigger] order[k] < count
    &&& forall|k: int, l: int|
        0 <= k < l < order.len() ==> precedes(fragments, #[trigger] order[k], #[trigger] order[l])
    &&& forall|i: int| 0 <= i < count ==> #[trigger] lists(order, i)
}

/// Whether `order` lists all fragments, each once, so that each precedes all
/// that follow it.
pub open spec fn is_emission_order(fragments: Seq<InitFragmentView>, order: Seq<int>) -> bool {
    is_emission_order_of_first(fragments, fragments.len() as int, order)
}

/// The order in which the fragments are emitted, as a list of their numbers
/// of contribution.
pub open spec fn emission_order(fragments: Seq<InitFragmentView>) -> Seq<int> {
    choose|order: Seq<int>| is_emission_order(fragments, order)
}

/// The fragments in the order of emission, duplicates included.
pub open spec fn in_emission_order(fragments: Seq<InitFragmentView>) -> Seq<InitFragmentView> {
    emission_order(fragments).map_values(|i: int| fragments[i])
}

/// Whether one of the first `upto` fragments of `sorted` has the key of
/// number `k`.
pub open spec fn has_earlier_key_upto(sorted: Seq<InitFragmentView>, k: int, upto: int) -> bool {
    exists|j: int| 0 <= j < upto && (#[trigger] sorted[j]).key == sorted[k].key
}

/// Whether a fragment before number `k` of `sorted` has the key of number `k`.
pub open spec fn has_earlier_key(sorted: Seq<InitFragmentView>, k: int) -> bool {
    has_earlier_key_upto(sorted, k, k)
}

/// The first `count` fragments of `sorted` without those whose key an earlier
/// one has.
pub open spec fn first_of_each_key_upto(sorted: Seq<InitFragmentView>, count: int) -> Seq<
    InitFragmentView,
>
    decreases count,
{
    if count <= 0 {
        Seq::empty()
    } else if has_earlier_key(sorted, count - 1) {
        first_of_each_key_upto(sorted, count - 1)
    } else {
        first_of_each_key_upto(sorted, count - 1).push(sorted[count - 1])
    }
}

/// The fragments of `sorted` without those whose key an earlier one has.
pub open spec fn first_of_each_key(sorted: Seq<InitFragmentView>) -> Seq<InitFragmentView> {
    first_of_each_key_upto(sorted, sorted.len() as int)
}

/// The fragments that are emitted, in the order of emission.
pub open spec fn emitted(fragments: Seq<InitFragmentView>) -> Seq<InitFragmentView> {
    first_of_each_key(in_emission_order(fragments))
}

/// The opening texts of `kept`, one after the other.
pub open spec fn opening_text(kept: Seq<InitFragmentView>) -> Seq<char>
    decreases kept.len(),
{
    if kept.len() == 0 {
        Seq::empty()
    } else {
        opening_text(kept.drop_last()) + kept.last().content
    }
}

/// The closing texts of `kept`, last fragment first.
pub open spec fn closing_text(kept: Seq<InitFragmentView>) -> Seq<char>
    decreases kept.len(),
{
    if kept.len() == 0 {
        Seq::empty()
    } else {
        closing_text(kept.drop_first()) + kept.first().closing_text()
    }
}

/// The text of a module: what opens its emitted fragments, the body, and what
/// closes the fragments.
pub open spec fn rendered(fragments: Seq<InitFragmentView>, body: Seq<char>) -> Seq<char> {
    let kept = emitted(fragments);
    opening_text(kept) + body + closing_text(kept)
}

/// Placing the next fragment into the order of those before it, behind the
/// last one that it does not precede, gives the order of all of them.
proof fn lemma_insert_into_order(
    fragments: Seq<InitFragmentView>,
    count: int,
    order: Seq<int>,
    slot: int,
)
    requires
        0 <= count < fragments.len(),
        is_emission_order_of_first(fragments, count, order),
        0 <= slot <= count,
        forall|q: int| slot <= q < count ==> precedes(fragments, count, #[trigger] order[q]),
        slot > 0 ==> !precedes(fragments, count, order[slot - 1]),
    ensures
        is_emission_order_of_first(fragments, count + 1, order.insert(slot, count)),
{
    let longer = order.insert(slot, count);
    assert forall|i: int| 0 <= i < count + 1 implies #[trigger] lists(longer, i) by {
        if i == count {
            assert(longer[slot] == i);
        } else {
            assert(lists(order, i));
            let k = choose|k: int| 0 <= k < order.len() && #[trigger] order[k] == i;
            if k < slot {
                assert(longer[k] == i);
            } else {
                assert(longer[k + 1] == i);
            }
        }
    }
}

/// Two orders of the same fragments agree on their first `upto` places.
proof fn lemma_orders_agree_upto(
    fragments: Seq<InitFragmentView>,
    count: int,
    first: Seq<int>,
    second: Seq<int>,
    upto: int,
)
    requires
        is_emission_order_of_first(fragments, count, first),
        is_emission_order_of_first(fragments, count, second),
        0 <= upto <= count,
    ensures
        forall|k: int| 0 <= k < upto ==> first[k] == second[k],
    decreases upto,
{
    if upto > 0 {
        lemma_orders_agree_upto(fragments, count, first, second, upto - 1);
        let a = first[upto - 1];
        let b = second[upto - 1];
        if a != b {
            // Each of the two occurs in the other order, and not before this
            // place, where the orders agree: so each precedes the other.
            assert(lists(second, a));
            assert(lists(first, b));
        }
    }
}

/// The fragments have one order of emission only.
pub proof fn lemma_emission_order_unique(fragments: Seq<InitFragmentView>, order: Seq<int>)
    requires
        is_emission_order(fragments, order),
    ensures
        order == emission_order(fragments),
{
    let chosen = emission_order(fragments);
    lemma_orders_agree_upto(fragments, fragments.len() as int, order, chosen, fragments.len() as int);
}

/// The first `count` fragments have an order of emission.
proof fn lemma_order_of_first_exists(fragments: Seq<InitFragmentView>, count: int) -> (order: Seq<
    int,
>)
    requires
        0 <= count <= fragments.len(),
    ensures
        is_emission_order_of_first(fragments, count, order),
    decreases count,
{
    if count == 0 {
        Seq::empty()
    } else {
        let shorter = lemma_order_of_first_exists(fragments, count - 1);
        let slot = lemma_slot_exists(fragments, count - 1, shorter, count - 1);
        lemma_insert_into_order(fragments, count - 1, shorter, slot);
        shorter.insert(slot, count - 1)
    }
}

/// Among the places up to `upto` there is one behind which the next fragment
/// belongs.
proof fn lemma_slot_exists(
    fragments: Seq<InitFragmentView>,
    count: int,
    order: Seq<int>,
    upto: int,
) -> (slot: int)
    requires
        0 <= count < fragments.len(),
        is_emission_order_of_first(fragments, count, order),
        0 <= upto <= count,
        forall|q: int| upto <= q < count ==> precedes(fragments, count, #[trigger] order[q]),
    ensures
        0 <= slot <= count,
        forall|q: int| slot <= q < count ==> precedes(fragments, count, #[trigger] order[q]),
        slot > 0 ==> !precedes(fragments, count, order[slot - 1]),
    decreases upto,
{
    if upto > 0 && precedes(fragments, count, order[upto - 1]) {
        lemma_slot_exists(fragments, count, order, upto - 1)
    } else {
        upto
    }
}

/// The order of emission lists all fragments, each once, so that each
/// precedes all that follow it: by stage, then by position, then by the order
/// of contribution.
pub proof fn lemma_emission_order_exists(fragments: Seq<InitFragmentView>)
    ensures
        is_emission_order(fragments, emission_order(fragments)),
{
    let order = lemma_order_of_first_exists(fragments, fragments.len() as int);
    assert(is_emission_order(fragments, order));
}

/// Fragment lists that agree on their first `count` places keep the same
/// fragments among those.
proof fn lemma_kept_of_equal_prefix(
    left: Seq<InitFragmentView>,
    right: Seq<InitFragmentView>,
    count: int,
)
    requires
        0 <= count <= left.len(),
        count <= right.len(),
        forall|k: int| 0 <= k < count ==> left[k] == right[k],
    ensures
        first_of_each_key_upto(left, count) == first_of_each_key_upto(right, count),
    decreases count,
{
    if count > 0 {
        lemma_kept_of_equal_prefix(left, right, count - 1);
    }
}

/// A fragment placed behind one that has its key takes no part in what is
/// kept.
proof fn lemma_kept_after_insert(
    sorted: Seq<InitFragmentView>,
    slot: int,
    fragment: InitFragmentView,
    count: int,
)
    requires
        0 <= slot <= count <= sorted.len(),
        exists|j: int| 0 <= j < slot && (#[trigger] sorted[j]).key == fragment.key,
    ensures
        first_of_each_key_upto(sorted.insert(slot, fragment), count + 1) == first_of_each_key_upto(
            sorted,
            count,
        ),
    decreases count - slot,
{
    let longer = sorted.insert(slot, fragment);
    let witness = choose|j: int| 0 <= j < slot && (#[trigger] sorted[j]).key == fragment.key;
    if count == slot {
        assert(longer[witness].key == longer[slot].key);
        lemma_kept_of_equal_prefix(longer, sorted, slot);
    } else {
        lemma_kept_after_insert(sorted, slot, fragment, count - 1);
        let last = count - 1;
        if has_earlier_key(sorted, last) {
            let j = choose|j: int| 0 <= j < last && (#[trigger] sorted[j]).key == sorted[last].key;
            if j < slot {
                assert(longer[j].key == longer[count].key);
            } else {
                assert(longer[j + 1].key == longer[count].key);
            }
        }
    }
}

/// Contributing a fragment again changes nothing: where a fragment with the
/// same key, stage and position was contributed before, the new one is not
/// emitted, and all that was emitted before still is, in the same order.
pub proof fn lemma_repeated_fragment_is_dropped(
    fragments: Seq<InitFragmentView>,
    again: InitFragmentView,
)
    requires
        exists|i: int|
            0 <= i < fragments.len() && (#[trigger] fragments[i]).key == again.key && fragments[i].stage
                == again.stage && fragments[i].position == again.position,
    ensures
        emitted(fragments.push(again)) == emitted(fragments),
{
    let earlier = choose|i: int|
        0 <= i < fragments.len() && (#[trigger] fragments[i]).key == again.key && fragments[i].stage
            == again.stage && fragments[i].position == again.position;
    let count = fragments.len() as int;
    let more = fragments.push(again);
    let order = emission_order(fragments);
    lemma_emission_order_exists(fragments);
    let slot = lemma_slot_exists(more, count, order, count);
    lemma_insert_into_order(more, count, order, slot);
    let longer = order.insert(slot, count);
    lemma_emission_order_unique(more, longer);
    let sorted = in_emission_order(fragments);
    assert(in_emission_order(more) =~= sorted.insert(slot, again));
    assert(lists(order, earlier));
    let place = choose|k: int| 0 <= k < order.len() && #[trigger] order[k] == earlier;
    assert(place < slot);
    assert(sorted[place].key == again.key);
    lemma_kept_after_insert(sorted, slot, again, count);
}

/// The numbers in `order`, as unbounded integers.
pub open spec fn as_numbers(order: Seq<usize>) -> Seq<int> {
    order.map_values(|i: usize| i as int)
}

impl NormalInitFragment {
    /// Whether this fragment belongs to an earlier stage than `other`, or to
    /// the same stage at an earlier position.
    pub fn ranks_below(&self, other: &NormalInitFragment) -> (below: bool)
        ensures
            below == ranks_below(self@, other@),
    {
        let mine = self.stage.rank();
        let theirs = other.stage.rank();
        mine < theirs || (mine == theirs && self.position < other.position)
    }
}

/// The order in which `fragments` are emitted: the numbers of the fragments,
/// sorted by stage, then by position, then by the order of contribution.
pub fn sort_init_fragments(fragments: &Vec<NormalInitFragment>) -> (order: Vec<usize>)
    ensures
        as_numbers(order@) == emission_order(fragment_views(fragments@)),
{
    let ghost views = fragment_views(fragments@);
    let mut order: Vec<usize> = Vec::new();
    let mut next: usize = 0;
    while next < fragments.len()
        invariant
            next <= fragments.len(),
            views == fragment_views(fragments@),
            is_emission_order_of_first(views, next as int, as_numbers(order@)),
            forall|k: int| 0 <= k < order.len() ==> #[trigger] order[k] < next,
        decreases fragments.len() - next,
    {
        let mut slot: usize = order.len();
        while slot > 0 && fragments[next].ranks_below(&fragments[order[slot - 1]])
            invariant
                next < fragments.len(),
                views == fragment_views(fragments@),
                is_emission_order_of_first(views, next as int, as_numbers(order@)),
                slot <= order.len(),
                forall|k: int| 0 <= k < order.len() ==> #[trigger] order[k] < next,
                forall|q: int|
                    slot <= q < order.len() ==> precedes(
                        views,
                        next as int,
                        #[trigger] as_numbers(order@)[q],
                    ),
            decreases slot,
        {
            slot = slot - 1;
        }
        proof {
            let numbers = as_numbers(order@);
            lemma_insert_into_order(views, next as int, numbers, slot as int);
            assert(as_numbers(order@.insert(slot as int, next)) =~= numbers.insert(
                slot as int,
                next as int,
            ));
        }
        order.insert(slot, next);
        next = next + 1;
    }
    proof {
        lemma_emission_order_unique(views, as_numbers(order@));
    }
    order
}

/// The fragments numbered by `kept`, as contracts speak of them.
pub open spec fn selected(fragments: Seq<NormalInitFragment>, kept: Seq<usize>) -> Seq<
    InitFragmentView,
> {
    kept.map_values(|i: usize| fragments[i as int]@)
}

/// The text of a module whose body is `source`: what opens the emitted
/// fragments, then the body, then what closes the fragments, the one opened
/// last first. Fragments are emitted by stage, position and order of
/// contribution; of those that share a key only the first is emitted.
pub fn render_init_fragments(source: &str, fragments: &Vec<NormalInitFragment>) -> (text: String)
    ensures
        text@ == rendered(fragment_views(fragments@), source@),
{
    let ghost views = fragment_views(fragments@);
    let ghost sorted = in_emission_order(views);
    let order = sort_init_fragments(fragments);
    proof {
        lemma_emission_order_exists(views);
        assert forall|k: int| 0 <= k < order.len() implies #[trigger] order[k] < fragments.len()
            && sorted[k] == fragments[order[k] as int]@ by {
            assert(0 <= as_numbers(order@)[k] < views.len());
        }
    }
    let mut text = String::new();
    let mut kept: Vec<usize> = Vec::new();
    let mut at: usize = 0;
    while at < order.len()
        invariant
            at <= order.len(),
            order.len() == sorted.len(),
            forall|k: int|
                0 <= k < order.len() ==> #[trigger] order[k] < fragments.len() && sorted[k]
                    == fragments[order[k] as int]@,
            forall|k: int| 0 <= k < kept.len() ==> #[trigger] kept[k] < fragments.len(),
            selected(fragments@, kept@) == first_of_each_key_upto(sorted, at as int),
            text@ == opening_text(first_of_each_key_upto(sorted, at as int)),
        decreases order.len() - at,
    {
        let current = order[at];
        let mut seen = false;
        let mut before: usize = 0;
        while before < at
            invariant
                before <= at < order.len(),
                current == order[at as int],
                order.len() == sorted.len(),
                forall|k: int|
                    0 <= k < order.len() ==> #[trigger] order[k] < fragments.len() && sorted[k]
                        == fragments[order[k] as int]@,
                seen == has_earlier_key_upto(sorted, at as int, before as int),
            decreases at - before,
        {
            if fragments[order[before]].key.same(&fragments[current].key) {
                seen = true;
            }
            before = before + 1;
        }
        if !seen {
            let ghost head = first_of_each_key_upto(sorted, at as int);
            text.append(fragments[current].content.as_str());
            kept.push(current);
            proof {
                assert(head.push(sorted[at as int]).drop_last() =~= head);
            }
        }
        at = at + 1;
    }
    let ghost all = first_of_each_key(sorted);
    text.append(source);
    let mut left: usize = kept.len();
    while left > 0
        invariant
            left <= kept.len(),
            all == selected(fragments@, kept@),
            forall|k: int| 0 <= k < kept.len() ==> #[trigger] kept[k] < fragments.len(),
            text@ == opening_text(all) + source@ + closing_text(all.skip(left as int)),
        decreases left,
    {
        left = left - 1;
        proof {
            assert(all.skip(left as int).drop_first() =~= all.skip(left + 1));
        }
        match &fragments[kept[left]].end_content {
            Some(closing) => {
                text.append(closing.as_str());
            },
            None => {},
        }
    }
    proof {
        assert(all.skip(0) =~= all);
    }
    text
}

} // verus!
