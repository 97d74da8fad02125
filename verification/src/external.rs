//! Externals: the modules that are left out of the bundle, as they are
//! configured, and what a request resolves to.

use vstd::prelude::*;
use vstd::string::StringExecFns;
use crate::pattern::{pattern_is_valid, pattern_matches, test_pattern};

verus! {

/// What an external resolves to.
#[derive(Clone, Debug, PartialEq, Eq)]
pub enum ExternalItemValue {
    /// One specifier.
    String(String),
    /// Whether the request is external at all.
    Bool(bool),
    /// A specifier and the path of properties to read from what it yields.
    Array(Vec<String>),
    /// A list of specifiers for each of several environments.
    Object(Vec<(String, Vec<String>)>),
}

/// An external's value as contracts speak of it.
pub enum ExternalItemValueView {
    String(Seq<char>),
    Bool(bool),
    Array(Seq<Seq<char>>),
    Object(Seq<(Seq<char>, Seq<Seq<char>>)>),
}

impl DeepView for ExternalItemValue {
    type V = ExternalItemValueView;

    open spec fn deep_view(&self) -> ExternalItemValueView {
        match self {
            ExternalItemValue::String(text) => ExternalItemValueView::String(text@),
            ExternalItemValue::Bool(flag) => ExternalItemValueView::Bool(*flag),
            ExternalItemValue::Array(list) => ExternalItemValueView::Array(list.deep_view()),
            ExternalItemValue::Object(table) => ExternalItemValueView::Object(table.deep_view()),
        }
    }
}

/// A copy of `list`.
fn copy_strings(list: &Vec<String>) -> (copy: Vec<String>)
    ensures
        copy.deep_view() == list.deep_view(),
{
    let mut copy: Vec<String> = Vec::new();
    let mut at: usize = 0;
    while at < list.len()
        invariant
            at <= list.len(),
            copy.len() == at,
            forall|k: int| 0 <= k < at ==> copy[k]@ == list[k]@,
        decreases list.len() - at,
    {
        copy.push(list[at].clone());
        at = at + 1;
    }
    copy
}

/// A copy of `table`.
fn copy_table(table: &Vec<(String, Vec<String>)>) -> (copy: Vec<(String, Vec<String>)>)
    ensures
        copy.deep_view() == table.deep_view(),
{
    let mut copy: Vec<(String, Vec<String>)> = Vec::new();
    let mut at: usize = 0;
    while at < table.len()
        invariant
            at <= table.len(),
            copy.len() == at,
            forall|k: int| 0 <= k < at ==> copy[k].deep_view() == table[k].deep_view(),
        decreases table.len() - at,
    {
        let entry = &table[at];
        copy.push((entry.0.clone(), copy_strings(&entry.1)));
        at = at + 1;
    }
    copy
}

impl ExternalItemValue {
    /// A copy of the value.
    pub fn duplicate(&self) -> (copy: ExternalItemValue)
        ensures
            copy.deep_view() == self.deep_view(),
    {
        match self {
            ExternalItemValue::String(text) => ExternalItemValue::String(text.clone()),
            ExternalItemValue::Bool(flag) => ExternalItemValue::Bool(*flag),
            ExternalItemValue::Array(list) => ExternalItemValue::Array(copy_strings(list)),
            ExternalItemValue::Object(table) => ExternalItemValue::Object(copy_table(table)),
        }
    }
}

/// The request that is being resolved: what is imported, from where, and by
/// which kind of import.
#[derive(Clone, Debug, PartialEq, Eq)]
pub struct ExternalItemFnCtx {
    pub request: String,
    pub context: String,
    pub dependency_type: String,
}

/// A request as contracts speak of it.
pub struct ExternalItemFnCtxView {
    pub request: Seq<char>,
    pub context: Seq<char>,
    pub dependency_type: Seq<char>,
}

impl View for ExternalItemFnCtx {
    type V = ExternalItemFnCtxView;

    open spec fn view(&self) -> ExternalItemFnCtxView {
        ExternalItemFnCtxView {
            request: self.request@,
            context: self.context@,
            dependency_type: self.dependency_type@,
        }
    }
}

/// What a request resolves to: how the binding is expressed at runtime and
/// the value to bind. A request that is not external has neither.
#[derive(Clone, Debug, PartialEq, Eq)]
pub struct ExternalItemFnResult {
    pub external_type: Option<String>,
    pub result: Option<ExternalItemValue>,
}

/// A resolution result as contracts speak of it.
pub struct ExternalItemFnResultView {
    pub external_type: Option<Seq<char>>,
    pub result: Option<ExternalItemValueView>,
}

impl DeepView for ExternalItemFnResult {
    type V = ExternalItemFnResultView;

    open spec fn deep_view(&self) -> ExternalItemFnResultView {
        ExternalItemFnResultView {
            external_type: match self.external_type {
                Some(name) => Some(name@),
                None => None,
            },
            result: match self.result {
                Some(value) => Some(value.deep_view()),
                None => None,
            },
        }
    }
}

/// One configured external. A request is held against the configured
/// externals in the order of configuration.
#[derive(Clone, Debug, PartialEq, Eq)]
pub enum ExternalItem {
    /// Resolves every request to this specifier.
    Literal(String),
    /// Makes the requests external that the regular expression matches.
    Pattern { source: String, flags: String },
    /// Resolves the requests that are keys of the mapping, each to its value.
    /// No key occurs twice.
    Mapping(Vec<(String, ExternalItemValue)>),
    /// Leaves the decision to the callback that the host registered under
    /// this number.
    Dynamic(u32),
}

/// A configured external as contracts speak of it.
pub enum ExternalItemView {
    Literal(Seq<char>),
    Pattern { source: Seq<char>, flags: Seq<char> },
    Mapping(Seq<(Seq<char>, ExternalItemValueView)>),
    Dynamic(u32),
}

impl DeepView for ExternalItem {
    type V = ExternalItemView;

    open spec fn deep_view(&self) -> ExternalItemView {
        match self {
            ExternalItem::Literal(text) => ExternalItemView::Literal(text@),
            ExternalItem::Pattern { source, flags } => ExternalItemView::Pattern {
                source: source@,
                flags: flags@,
            },
            ExternalItem::Mapping(entries) => ExternalItemView::Mapping(entries.deep_view()),
            ExternalItem::Dynamic(callback) => ExternalItemView::Dynamic(*callback),
        }
    }
}

/// Whether no key occurs twice among `entries`.
pub open spec fn keys_are_distinct<V>(entries: Seq<(Seq<char>, V)>) -> bool {
    forall|i: int, j: int|
        0 <= i < j < entries.len() ==> (#[trigger] entries[i]).0 != (#[trigger] entries[j]).0
}

impl ExternalItemView {
    /// Whether the item is one that configuration accepts: a pattern is a
    /// regular expression, and a mapping has no key twice.
    pub open spec fn wf(self) -> bool {
        match self {
            ExternalItemView::Pattern { source, flags } => pattern_is_valid(source, flags),
            ExternalItemView::Mapping(entries) => keys_are_distinct(entries),
            _ => true,
        }
    }
}

/// The value of the first of `entries` whose key is `key`.
pub open spec fn lookup(
    entries: Seq<(Seq<char>, ExternalItemValueView)>,
    key: Seq<char>,
) -> Option<ExternalItemValueView>
    decreases entries.len(),
{
    if entries.len() == 0 {
        None
    } else if entries.first().0 == key {
        Some(entries.first().1)
    } else {
        lookup(entries.drop_first(), key)
    }
}

/// The result for a request that is external: bound to `value`, in the way
/// that `external_type` names.
pub open spec fn external(
    external_type: Seq<char>,
    value: ExternalItemValueView,
) -> ExternalItemFnResultView {
    ExternalItemFnResultView { external_type: Some(external_type), result: Some(value) }
}

/// The result for a request that is not external.
pub open spec fn not_external() -> ExternalItemFnResultView {
    ExternalItemFnResultView { external_type: None, result: None }
}

/// What `item` decides without asking anyone: the result for `request` if
/// the item matches it, `None` if it does not match or leaves the decision
/// to a callback. A matching item binds in the configured way,
/// `default_type`.
pub open spec fn decided_alone(
    item: ExternalItemView,
    default_type: Seq<char>,
    request: Seq<char>,
) -> Option<ExternalItemFnResultView> {
    match item {
        ExternalItemView::Literal(text) => Some(
            external(default_type, ExternalItemValueView::String(text)),
        ),
        ExternalItemView::Pattern { source, flags } => if pattern_matches(source, flags, request) {
            Some(external(default_type, ExternalItemValueView::String(request)))
        } else {
            None
        },
        ExternalItemView::Mapping(entries) => match lookup(entries, request) {
            Some(value) => Some(external(default_type, value)),
            None => None,
        },
        ExternalItemView::Dynamic(_) => None,
    }
}

/// What the answer of a callback decides: the request is external if the
/// answer holds a value, bound in the way that the answer names, or in the
/// configured way where it names none. An answer without a value decides
/// nothing.
pub open spec fn decided_by_answer(
    answer: ExternalItemFnResultView,
    default_type: Seq<char>,
) -> Option<ExternalItemFnResultView> {
    match answer.result {
        Some(value) => Some(
            external(
                match answer.external_type {
                    Some(name) => name,
                    None => default_type,
                },
                value,
            ),
        ),
        None => None,
    }
}

/// Where resolution stands after it has gone as far as it can by itself.
#[derive(Clone, Debug, PartialEq, Eq)]
pub enum ResolveStep {
    /// Resolution is over, with this result.
    Done(ExternalItemFnResult),
    /// The item at `index` leaves the decision to the callback numbered
    /// `callback`. Resolution goes on when the callback has answered.
    Call { index: usize, callback: u32 },
}

/// A step of resolution as contracts speak of it.
pub enum ResolveStepView {
    Done(ExternalItemFnResultView),
    Call { index: int, callback: u32 },
}

impl DeepView for ResolveStep {
    type V = ResolveStepView;

    open spec fn deep_view(&self) -> ResolveStepView {
        match self {
            ResolveStep::Done(result) => ResolveStepView::Done(result.deep_view()),
            ResolveStep::Call { index, callback } => ResolveStepView::Call {
                index: *index as int,
                callback: *callback,
            },
        }
    }
}

/// How far resolution of `request` gets from item number `from` on without
/// a callback: to the result of the first item that matches, to the first
/// item that leaves the decision to a callback, or to the end of the items,
/// where the request is not external.
pub open spec fn next_step(
    items: Seq<ExternalItemView>,
    default_type: Seq<char>,
    request: Seq<char>,
    from: int,
) -> ResolveStepView
    decreases items.len() - from,
{
    if from < 0 || from >= items.len() {
        ResolveStepView::Done(not_external())
    } else {
        match items[from] {
            ExternalItemView::Dynamic(callback) => ResolveStepView::Call { index: from, callback },
            item => match decided_alone(item, default_type, request) {
                Some(result) => ResolveStepView::Done(result),
                None => next_step(items, default_type, request, from + 1),
            },
        }
    }
}

/// Why the resolution of a request failed: the callback that was asked
/// failed. The error names the request and carries what the callback
/// reported.
#[derive(Clone, Debug, PartialEq, Eq)]
pub struct ExternalCallbackError {
    pub message: String,
    pub request: String,
    pub context: String,
    pub dependency_type: String,
}

/// A failure of resolution as contracts speak of it.
pub struct ExternalCallbackErrorView {
    pub message: Seq<char>,
    pub request: Seq<char>,
    pub context: Seq<char>,
    pub dependency_type: Seq<char>,
}

impl View for ExternalCallbackError {
    type V = ExternalCallbackErrorView;

    open spec fn view(&self) -> ExternalCallbackErrorView {
        ExternalCallbackErrorView {
            message: self.message@,
            request: self.request@,
            context: self.context@,
            dependency_type: self.dependency_type@,
        }
    }
}

/// The failure of the resolution of `request` on a callback that failed
/// with `reason`.
pub open spec fn callback_failure(
    reason: Seq<char>,
    request: ExternalItemFnCtxView,
) -> ExternalCallbackErrorView {
    ExternalCallbackErrorView {
        message: "Failed to call external function: "@ + reason,
        request: request.request,
        context: request.context,
        dependency_type: request.dependency_type,
    }
}

/// What a callback came back with: its answer, or the reason of its failure.
pub enum CallbackReplyView {
    Answer(ExternalItemFnResultView),
    Failure(Seq<char>),
}

/// A callback's reply as contracts speak of it.
pub open spec fn reply_view(reply: Result<ExternalItemFnResult, String>) -> CallbackReplyView {
    match reply {
        Ok(answer) => CallbackReplyView::Answer(answer.deep_view()),
        Err(reason) => CallbackReplyView::Failure(reason@),
    }
}

/// How resolution goes on when the callback of item number `index` has come
/// back with `reply`. A failure of the callback fails the resolution. An
/// answer with a value ends it. Any other answer hands the request on to the
/// items behind `index`.
pub open spec fn step_after_reply(
    items: Seq<ExternalItemView>,
    default_type: Seq<char>,
    request: ExternalItemFnCtxView,
    index: int,
    reply: CallbackReplyView,
) -> Result<ResolveStepView, ExternalCallbackErrorView> {
    match reply {
        CallbackReplyView::Failure(reason) => Err(callback_failure(reason, request)),
        CallbackReplyView::Answer(answer) => match decided_by_answer(answer, default_type) {
            Some(result) => Ok(ResolveStepView::Done(result)),
            None => Ok(next_step(items, default_type, request.request, index + 1)),
        },
    }
}

/// The value of the first of `entries` whose key is `key`.
pub fn find_entry<'a>(entries: &'a Vec<(String, ExternalItemValue)>, key: &String) -> (found:
    Option<&'a ExternalItemValue>)
    ensures
        match found {
            Some(value) => Some(value.deep_view()),
            None => None,
        } == lookup(entries.deep_view(), key@),
{
    let ghost all = entries.deep_view();
    let mut at: usize = 0;
    proof {
        assert(all.skip(0) =~= all);
    }
    while at < entries.len()
        invariant
            at <= entries.len(),
            all == entries.deep_view(),
            lookup(all, key@) == lookup(all.skip(at as int), key@),
        decreases entries.len() - at,
    {
        proof {
            assert(all.skip(at as int).drop_first() =~= all.skip(at + 1));
        }
        if entries[at].0 == *key {
            return Some(&entries[at].1);
        }
        at = at + 1;
    }
    None
}

/// The result for a request that is external: bound to `value`, in the way
/// that `external_type` names.
fn external_result(external_type: &str, value: ExternalItemValue) -> (result: ExternalItemFnResult)
    ensures
        result.deep_view() == external(external_type@, value.deep_view()),
{
    ExternalItemFnResult {
        external_type: Some(String::from_str(external_type)),
        result: Some(value),
    }
}

/// What a pattern item decides for `request` when the engine has held the
/// pattern against the request with `outcome`: the request is external,
/// bound to itself in the way `default_type`, if the pattern matched, and
/// the item decides nothing if it did not match or is no regular expression.
pub fn pattern_decision(
    outcome: Option<bool>,
    default_type: &str,
    request: &ExternalItemFnCtx,
) -> (decision: Option<ExternalItemFnResult>)
    ensures
        match decision {
            Some(result) => Some(result.deep_view()),
            None => None,
        } == if outcome == Some(true) {
            Some(external(default_type@, ExternalItemValueView::String(request.request@)))
        } else {
            None
        },
{
    match outcome {
        Some(true) => Some(
            external_result(default_type, ExternalItemValue::String(request.request.clone())),
        ),
        _ => None,
    }
}

/// Resolves the request `request` against `items`, from the first item on.
/// Items are tried in the order of configuration, and the first that matches
/// decides. See `resolve_external_from`.
pub fn resolve_external(
    items: &Vec<ExternalItem>,
    default_type: &str,
    request: &ExternalItemFnCtx,
) -> (step: ResolveStep)
    ensures
        step.deep_view() == next_step(items.deep_view(), default_type@, request.request@, 0),
{
    resolve_external_from(items, default_type, request, 0)
}

/// Resolves the request `request` against the items from number `from` on,
/// as far as that goes without a callback.
///
/// The step that comes back is `Done` with the result of the first item that
/// matches, or with the result "not external" where no item is left; or it is
/// `Call`, where an item that leaves the decision to a callback comes before
/// any match. The caller then invokes that callback with the request,
/// without blocking, and hands its reply to `resume_external`.
pub fn resolve_external_from(
    items: &Vec<ExternalItem>,
    default_type: &str,
    request: &ExternalItemFnCtx,
    from: usize,
) -> (step: ResolveStep)
    ensures
        step.deep_view() == next_step(
            items.deep_view(),
            default_type@,
            request.request@,
            from as int,
        ),
{
    let ghost views = items.deep_view();
    let mut at: usize = from;
    while at < items.len()
        invariant
            from <= at,
            views == items.deep_view(),
            next_step(views, default_type@, request.request@, from as int) == next_step(
                views,
                default_type@,
                request.request@,
                at as int,
            ),
        decreases items.len() - at,
    {
        match &items[at] {
            ExternalItem::Literal(text) => {
                return ResolveStep::Done(
                    external_result(default_type, ExternalItemValue::String(text.clone())),
                );
            },
            ExternalItem::Pattern { source, flags } => {
                let outcome = test_pattern(
                    source.as_str(),
                    flags.as_str(),
                    request.request.as_str(),
                );
                match pattern_decision(outcome, default_type, request) {
                    Some(result) => {
                        return ResolveStep::Done(result);
                    },
                    None => {},
                }
            },
            ExternalItem::Mapping(entries) => {
                match find_entry(entries, &request.request) {
                    Some(value) => {
                        return ResolveStep::Done(external_result(default_type, value.duplicate()));
                    },
                    None => {},
                }
            },
            ExternalItem::Dynamic(callback) => {
                return ResolveStep::Call { index: at, callback: *callback };
            },
        }
        at = at + 1;
    }
    ResolveStep::Done(ExternalItemFnResult { external_type: None, result: None })
}

/// Goes on with the resolution of `request` when the callback of item number
/// `index` has come back with `reply`.
///
/// A callback that failed fails the resolution of this request: the error
/// carries the reason that the callback gave and names the request. An
/// answer that holds a value makes the request external. Any other answer
/// hands the request on to the items behind `index`, as
/// `resolve_external_from` does.
pub fn resume_external(
    items: &Vec<ExternalItem>,
    default_type: &str,
    request: &ExternalItemFnCtx,
    index: usize,
    reply: Result<ExternalItemFnResult, String>,
) -> (outcome: Result<ResolveStep, ExternalCallbackError>)
    ensures
        match outcome {
            Ok(step) => Ok(step.deep_view()),
            Err(error) => Err(error@),
        } == step_after_reply(
            items.deep_view(),
            default_type@,
            request@,
            index as int,
            reply_view(reply),
        ),
{
    match reply {
        Err(reason) => {
            let mut message = String::from_str("Failed to call external function: ");
            message.append(reason.as_str());
            Err(
                ExternalCallbackError {
                    message,
                    request: request.request.clone(),
                    context: request.context.clone(),
                    dependency_type: request.dependency_type.clone(),
                },
            )
        },
        Ok(answer) => {
            match answer.result {
                Some(value) => {
                    let external_type = match answer.external_type {
                        Some(name) => name,
                        None => String::from_str(default_type),
                    };
                    Ok(
                        ResolveStep::Done(
                            ExternalItemFnResult {
                                external_type: Some(external_type),
                                result: Some(value),
                            },
                        ),
                    )
                },
                None => {
                    if index < items.len() {
                        Ok(resolve_external_from(items, default_type, request, index + 1))
                    } else {
                        Ok(
                            ResolveStep::Done(
                                ExternalItemFnResult { external_type: None, result: None },
                            ),
                        )
                    }
                },
            }
        },
    }
}

} // verus!
