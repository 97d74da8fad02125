//! What the resolution of a request comes to when all callbacks have
//! answered, and what holds of it.

use vstd::prelude::*;
use crate::external::{
    callback_failure, decided_alone, decided_by_answer, external, keys_are_distinct, lookup,
    next_step, not_external, step_after_reply, CallbackReplyView, ExternalCallbackErrorView,
    ExternalItemFnCtxView, ExternalItemFnResultView, ExternalItemValueView, ExternalItemView,
    ResolveStepView,
};
use crate::raw_external::{lemma_no_repeat_means_distinct, refusal};

verus! {

/// What `item` decides for `request`, where `reply` is what its callback
/// came back with if it has one: a result, a failure, or, with `None`,
/// nothing, so that the next item is asked.
pub open spec fn item_decision(
    item: ExternalItemView,
    default_type: Seq<char>,
    request: ExternalItemFnCtxView,
    reply: CallbackReplyView,
) -> Option<Result<ExternalItemFnResultView, ExternalCallbackErrorView>> {
    match item {
        ExternalItemView::Dynamic(_) => match reply {
            CallbackReplyView::Failure(reason) => Some(Err(callback_failure(reason, request))),
            CallbackReplyView::Answer(answer) => match decided_by_answer(answer, default_type) {
                Some(result) => Some(Ok(result)),
                None => None,
            },
        },
        _ => match decided_alone(item, default_type, request.request) {
            Some(result) => Some(Ok(result)),
            None => None,
        },
    }
}

/// What `request` resolves to against the items from number `from` on, where
/// `replies[i]` is what the callback of item `i` comes back with when it is
/// asked. The first item that decides anything decides; a request that no
/// item decides is not external.
pub open spec fn resolution(
    items: Seq<ExternalItemView>,
    default_type: Seq<char>,
    request: ExternalItemFnCtxView,
    replies: Seq<CallbackReplyView>,
    from: int,
) -> Result<ExternalItemFnResultView, ExternalCallbackErrorView>
    decreases items.len() - from,
{
    if from < 0 || from >= items.len() {
        Ok(not_external())
    } else {
        match item_decision(items[from], default_type, request, replies[from]) {
            Some(decision) => decision,
            None => resolution(items, default_type, request, replies, from + 1),
        }
    }
}

/// The steps compute the resolution. Where a step ends resolution, its
/// result is what the request resolves to. Where it asks for a callback, the
/// request resolves to what the step after the callback's reply says: its
/// failure, its result, or the resolution against the items behind the
/// callback's.
pub proof fn lemma_steps_compute_resolution(
    items: Seq<ExternalItemView>,
    default_type: Seq<char>,
    request: ExternalItemFnCtxView,
    replies: Seq<CallbackReplyView>,
    from: int,
)
    requires
        0 <= from,
    ensures
        match next_step(items, default_type, request.request, from) {
            ResolveStepView::Done(result) => resolution(
                items,
                default_type,
                request,
                replies,
                from,
            ) == Ok::<ExternalItemFnResultView, ExternalCallbackErrorView>(result),
            ResolveStepView::Call { index, callback } => {
                &&& from <= index < items.len()
                &&& items[index] == ExternalItemView::Dynamic(callback)
                &&& resolution(items, default_type, request, replies, from) == match step_after_reply(
                    items,
                    default_type,
                    request,
                    index,
                    replies[index],
                ) {
                    Err(error) => Err(error),
                    Ok(ResolveStepView::Done(result)) => Ok(result),
                    Ok(ResolveStepView::Call { .. }) => resolution(
                        items,
                        default_type,
                        request,
                        replies,
                        index + 1,
                    ),
                }
            },
        },
    decreases items.len() - from,
{
    if from < items.len() {
        lemma_steps_compute_resolution(items, default_type, request, replies, from + 1);
    }
}

/// Items are tried in the order of configuration and the first that decides
/// anything decides: where no item from `from` up to `at` decides and item
/// `at` does, the request resolves to what item `at` decides, whatever the
/// items behind it are.
pub proof fn lemma_first_decision_wins(
    items: Seq<ExternalItemView>,
    default_type: Seq<char>,
    request: ExternalItemFnCtxView,
    replies: Seq<CallbackReplyView>,
    from: int,
    at: int,
)
    requires
        0 <= from <= at < items.len(),
        forall|j: int|
            from <= j < at ==> item_decision(
                #[trigger] items[j],
                default_type,
                request,
                replies[j],
            ) is None,
        item_decision(items[at], default_type, request, replies[at]) is Some,
    ensures
        Some(resolution(items, default_type, request, replies, from)) == item_decision(
            items[at],
            default_type,
            request,
            replies[at],
        ),
    decreases at - from,
{
    if from < at {
        lemma_first_decision_wins(items, default_type, request, replies, from + 1, at);
    }
}

/// A literal item matches every request: where no item before it decides,
/// the request resolves to the literal's specifier, bound in the configured
/// way.
pub proof fn lemma_literal_decides(
    items: Seq<ExternalItemView>,
    default_type: Seq<char>,
    request: ExternalItemFnCtxView,
    replies: Seq<CallbackReplyView>,
    at: int,
    specifier: Seq<char>,
)
    requires
        0 <= at < items.len(),
        items[at] == ExternalItemView::Literal(specifier),
        forall|j: int|
            0 <= j < at ==> item_decision(
                #[trigger] items[j],
                default_type,
                request,
                replies[j],
            ) is None,
    ensures
        resolution(items, default_type, request, replies, 0) == Ok::<
            ExternalItemFnResultView,
            ExternalCallbackErrorView,
        >(external(default_type, ExternalItemValueView::String(specifier))),
{
    lemma_first_decision_wins(items, default_type, request, replies, 0, at);
}

/// A callback that answers without a value decides nothing: the request is
/// resolved against the items behind it, and is not external where it was
/// the last item.
pub proof fn lemma_answer_without_value_hands_on(
    items: Seq<ExternalItemView>,
    default_type: Seq<char>,
    request: ExternalItemFnCtxView,
    replies: Seq<CallbackReplyView>,
    at: int,
)
    requires
        0 <= at < items.len(),
        items[at] is Dynamic,
        replies[at] matches CallbackReplyView::Answer(answer) && answer.result is None,
    ensures
        resolution(items, default_type, request, replies, at) == resolution(
            items,
            default_type,
            request,
            replies,
            at + 1,
        ),
        at == items.len() - 1 ==> resolution(items, default_type, request, replies, at) == Ok::<
            ExternalItemFnResultView,
            ExternalCallbackErrorView,
        >(not_external()),
        step_after_reply(items, default_type, request, at, replies[at]) == Ok::<
            ResolveStepView,
            ExternalCallbackErrorView,
        >(next_step(items, default_type, request.request, at + 1)),
{
}

/// A callback that fails fails the resolution of the request: where no item
/// before it decides, the request resolves to a failure that names the
/// request and whose message ends with the reason that the callback gave.
pub proof fn lemma_failed_callback_fails_request(
    items: Seq<ExternalItemView>,
    default_type: Seq<char>,
    request: ExternalItemFnCtxView,
    replies: Seq<CallbackReplyView>,
    at: int,
    reason: Seq<char>,
)
    requires
        0 <= at < items.len(),
        items[at] is Dynamic,
        replies[at] == CallbackReplyView::Failure(reason),
        forall|j: int|
            0 <= j < at ==> item_decision(
                #[trigger] items[j],
                default_type,
                request,
                replies[j],
            ) is None,
    ensures
        resolution(items, default_type, request, replies, 0) matches Err(error) && error
            == callback_failure(reason, request) && error.request == request.request
            && error.message.len() >= reason.len() && error.message.subrange(
            error.message.len() - reason.len(),
            error.message.len() as int,
        ) == reason,
{
    lemma_first_decision_wins(items, default_type, request, replies, 0, at);
    let error = callback_failure(reason, request);
}

/// What a request resolves to depends on the replies to its own callbacks
/// only: replies that agree wherever an item leaves the decision to a
/// callback give the same resolution.
pub proof fn lemma_resolution_reads_callback_replies_only(
    items: Seq<ExternalItemView>,
    default_type: Seq<char>,
    request: ExternalItemFnCtxView,
    first: Seq<CallbackReplyView>,
    second: Seq<CallbackReplyView>,
    from: int,
)
    requires
        0 <= from,
        forall|i: int|
            from <= i < items.len() && (#[trigger] items[i]) is Dynamic ==> first[i] == second[i],
    ensures
        resolution(items, default_type, request, first, from) == resolution(
            items,
            default_type,
            request,
            second,
            from,
        ),
    decreases items.len() - from,
{
    if from < items.len() {
        lemma_resolution_reads_callback_replies_only(
            items,
            default_type,
            request,
            first,
            second,
            from + 1,
        );
    }
}

/// Configuration refuses exactly the items that are not well-formed.
pub proof fn lemma_refused_means_ill_formed(item: ExternalItemView)
    ensures
        refusal(item) is None <==> item.wf(),
{
    match item {
        ExternalItemView::Mapping(entries) => {
            lemma_no_repeat_means_distinct(entries, 0);
        },
        _ => {},
    }
}

/// A mapping resolves the requests that are among its keys, each to the
/// value of its key, and decides nothing for any other request.
pub proof fn lemma_mapping_resolves_its_keys(
    entries: Seq<(Seq<char>, ExternalItemValueView)>,
    default_type: Seq<char>,
    request: Seq<char>,
)
    requires
        keys_are_distinct(entries),
    ensures
        forall|at: int|
            0 <= at < entries.len() && (#[trigger] entries[at]).0 == request ==> decided_alone(
                ExternalItemView::Mapping(entries),
                default_type,
                request,
            ) == Some(external(default_type, entries[at].1)),
        (forall|at: int| 0 <= at < entries.len() ==> (#[trigger] entries[at]).0 != request)
            ==> decided_alone(ExternalItemView::Mapping(entries), default_type, request) is None,
    decreases entries.len(),
{
    if entries.len() > 0 {
        let rest = entries.drop_first();
        lemma_mapping_resolves_its_keys(rest, default_type, request);
        assert forall|at: int|
            0 <= at < entries.len() && (#[trigger] entries[at]).0 == request implies decided_alone(
            ExternalItemView::Mapping(entries),
            default_type,
            request,
        ) == Some(external(default_type, entries[at].1)) by {
            if at > 0 {
                assert(rest[at - 1] == entries[at]);
            }
        }
    }
}

} // verus!
