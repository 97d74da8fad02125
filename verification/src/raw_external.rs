//! Externals as the host configures them, and their way into the forms that
//! resolution works on.

use vstd::prelude::*;
use crate::external::{
    keys_are_distinct, ExternalItem, ExternalItemFnCtx, ExternalItemFnCtxView, ExternalItemFnResult,
    ExternalItemFnResultView, ExternalItemValue, ExternalItemValueView, ExternalItemView,
};
use crate::pattern::{pattern_is_valid, test_pattern};

verus! {

/// Options of the plugin that makes requests over HTTP external.
#[derive(Clone, Copy, Debug, PartialEq, Eq, Structural)]
pub struct RawHttpExternalsRspackPluginOptions {
    pub css: bool,
    pub web_async: bool,
}

/// The targets whose built-in modules are external by preset.
#[derive(Clone, Copy, Debug, PartialEq, Eq, Structural)]
pub struct RawExternalsPresets {
    pub node: bool,
    pub web: bool,
    pub electron: bool,
    pub electron_main: bool,
    pub electron_preload: bool,
    pub electron_renderer: bool,
}

/// What an external resolves to, as configured.
#[derive(Clone, Debug, PartialEq, Eq)]
pub enum RawExternalItemValue {
    String(String),
    Bool(bool),
    Array(Vec<String>),
    Object(Vec<(String, Vec<String>)>),
}

impl DeepView for RawExternalItemValue {
    type V = ExternalItemValueView;

    open spec fn deep_view(&self) -> ExternalItemValueView {
        match self {
            RawExternalItemValue::String(text) => ExternalItemValueView::String(text@),
            RawExternalItemValue::Bool(flag) => ExternalItemValueView::Bool(*flag),
            RawExternalItemValue::Array(list) => ExternalItemValueView::Array(list.deep_view()),
            RawExternalItemValue::Object(table) => ExternalItemValueView::Object(table.deep_view()),
        }
    }
}

/// One external, as configured: a specifier, a regular expression with its
/// flags, a mapping from requests to values, or the number under which the
/// host registered a callback.
#[derive(Clone, Debug, PartialEq, Eq)]
pub enum RawExternalItem {
    String(String),
    RegExp { source: String, flags: String },
    Object(Vec<(String, RawExternalItemValue)>),
    Function(u32),
}

impl DeepView for RawExternalItem {
    type V = ExternalItemView;

    open spec fn deep_view(&self) -> ExternalItemView {
        match self {
            RawExternalItem::String(text) => ExternalItemView::Literal(text@),
            RawExternalItem::RegExp { source, flags } => ExternalItemView::Pattern {
                source: source@,
                flags: flags@,
            },
            RawExternalItem::Object(entries) => ExternalItemView::Mapping(entries.deep_view()),
            RawExternalItem::Function(callback) => ExternalItemView::Dynamic(*callback),
        }
    }
}

/// The options of the externals plugin: the way in which externals are
/// bound unless a callback says otherwise, and the externals in the order
/// in which requests are held against them.
#[derive(Clone, Debug, PartialEq, Eq)]
pub struct RawExternalsPluginOptions {
    pub externals_type: String,
    pub externals: Vec<RawExternalItem>,
}

/// What a callback answers, as the host hands it over.
#[derive(Clone, Debug, PartialEq, Eq)]
pub struct RawExternalItemFnResult {
    pub external_type: Option<String>,
    pub result: Option<RawExternalItemValue>,
}

impl DeepView for RawExternalItemFnResult {
    type V = ExternalItemFnResultView;

    open spec fn deep_view(&self) -> ExternalItemFnResultView {
        ExternalItemFnResultView {
            external_type: match self.external_type {
                Some(name) => Some(name@),
                None => None,
            },
            result: match self.result {
                Some(value) => Some(value.deep_view()),
                None => None,
            },
        }
    }
}

/// The request, as it is handed to a callback.
#[derive(Clone, Debug, PartialEq, Eq)]
pub struct RawExternalItemFnCtx {
    pub request: String,
    pub context: String,
    pub dependency_type: String,
}

impl View for RawExternalItemFnCtx {
    type V = ExternalItemFnCtxView;

    open spec fn view(&self) -> ExternalItemFnCtxView {
        ExternalItemFnCtxView {
            request: self.request@,
            context: self.context@,
            dependency_type: self.dependency_type@,
        }
    }
}

impl ExternalItemValue {
    /// The configured value in the form that resolution works on.
    pub fn from(value: RawExternalItemValue) -> (converted: ExternalItemValue)
        ensures
            converted.deep_view() == value.deep_view(),
    {
        match value {
            RawExternalItemValue::String(text) => ExternalItemValue::String(text),
            RawExternalItemValue::Bool(flag) => ExternalItemValue::Bool(flag),
            RawExternalItemValue::Array(list) => ExternalItemValue::Array(list),
            RawExternalItemValue::Object(table) => ExternalItemValue::Object(table),
        }
    }
}

impl ExternalItemFnResult {
    /// The answer of a callback in the form that resolution works on.
    pub fn from(value: RawExternalItemFnResult) -> (converted: ExternalItemFnResult)
        ensures
            converted.deep_view() == value.deep_view(),
    {
        ExternalItemFnResult {
            external_type: value.external_type,
            result: match value.result {
                Some(raw) => Some(ExternalItemValue::from(raw)),
                None => None,
            },
        }
    }
}

impl RawExternalItemFnCtx {
    /// The request in the form in which it is handed to a callback.
    pub fn from(value: ExternalItemFnCtx) -> (converted: RawExternalItemFnCtx)
        ensures
            converted@ == value@,
    {
        RawExternalItemFnCtx {
            request: value.request,
            dependency_type: value.dependency_type,
            context: value.context,
        }
    }
}

/// Why a configured external is refused.
#[derive(Clone, Debug, PartialEq, Eq)]
pub enum ExternalItemError {
    /// The pattern with its flags is not a regular expression.
    InvalidPattern { source: String, flags: String },
    /// The mapping has this key more than once.
    DuplicateKey(String),
}

/// A refusal as contracts speak of it.
pub enum ExternalItemErrorView {
    InvalidPattern { source: Seq<char>, flags: Seq<char> },
    DuplicateKey(Seq<char>),
}

impl View for ExternalItemError {
    type V = ExternalItemErrorView;

    open spec fn view(&self) -> ExternalItemErrorView {
        match self {
            ExternalItemError::InvalidPattern { source, flags } => {
                ExternalItemErrorView::InvalidPattern { source: source@, flags: flags@ }
            },
            ExternalItemError::DuplicateKey(key) => ExternalItemErrorView::DuplicateKey(key@),
        }
    }
}

/// Whether the key of entry number `at` occurs among the entries before it.
pub open spec fn repeats_a_key<V>(entries: Seq<(Seq<char>, V)>, at: int) -> bool {
    exists|i: int| 0 <= i < at && (#[trigger] entries[i]).0 == entries[at].0
}

/// The number of the first entry, from `from` on, whose key occurs among the
/// entries before it.
pub open spec fn first_repeat<V>(entries: Seq<(Seq<char>, V)>, from: int) -> Option<int>
    decreases entries.len() - from,
{
    if from < 0 || from >= entries.len() {
        None
    } else if repeats_a_key(entries, from) {
        Some(from)
    } else {
        first_repeat(entries, from + 1)
    }
}

/// Why `item` is refused, if it is: a pattern that is no regular expression,
/// or a mapping with a key that occurs twice. Of several such keys the one
/// that is repeated first is named.
pub open spec fn refusal(item: ExternalItemView) -> Option<ExternalItemErrorView> {
    match item {
        ExternalItemView::Pattern { source, flags } => if pattern_is_valid(source, flags) {
            None
        } else {
            Some(ExternalItemErrorView::InvalidPattern { source, flags })
        },
        ExternalItemView::Mapping(entries) => match first_repeat(entries, 0) {
            Some(at) => Some(ExternalItemErrorView::DuplicateKey(entries[at].0)),
            None => None,
        },
        _ => None,
    }
}

/// A mapping without a repeated entry has no key twice, and the other way
/// round.
pub proof fn lemma_no_repeat_means_distinct<V>(entries: Seq<(Seq<char>, V)>, from: int)
    requires
        0 <= from <= entries.len(),
        forall|j: int| 0 <= j < from ==> !repeats_a_key(entries, j),
    ensures
        first_repeat(entries, from) is None <==> keys_are_distinct(entries),
        first_repeat(entries, from) matches Some(at) ==> from <= at < entries.len()
            && repeats_a_key(entries, at),
    decreases entries.len() - from,
{
    if from >= entries.len() {
        assert forall|i: int, j: int| 0 <= i < j < entries.len() implies (#[trigger] entries[i]).0
            != (#[trigger] entries[j]).0 by {
            assert(!repeats_a_key(entries, j));
        }
    } else if !repeats_a_key(entries, from) {
        lemma_no_repeat_means_distinct(entries, from + 1);
    }
}

/// The list with its last element first.
fn reversed<T>(list: Vec<T>) -> (turned: Vec<T>)
    ensures
        turned@ == list@.reverse(),
{
    let ghost all = list@;
    let mut rest = list;
    let mut turned: Vec<T> = Vec::new();
    while rest.len() > 0
        invariant
            rest@ == all.take(rest.len() as int),
            rest.len() + turned.len() == all.len(),
            forall|k: int| 0 <= k < turned.len() ==> turned[k] == all[all.len() - 1 - k],
        decreases rest.len(),
    {
        let element = rest.pop().unwrap();
        turned.push(element);
    }
    turned
}

/// The number of the first entry whose key occurs among the entries before
/// it.
fn find_repeat(entries: &Vec<(String, RawExternalItemValue)>) -> (found: Option<usize>)
    ensures
        match found {
            Some(at) => Some(at as int),
            None => None,
        } == first_repeat(entries.deep_view(), 0),
{
    let ghost all = entries.deep_view();
    let mut at: usize = 0;
    while at < entries.len()
        invariant
            at <= entries.len(),
            all == entries.deep_view(),
            first_repeat(all, 0) == first_repeat(all, at as int),
        decreases entries.len() - at,
    {
        let mut before: usize = 0;
        let mut repeated = false;
        while before < at
            invariant
                before <= at < entries.len(),
                all == entries.deep_view(),
                repeated == (exists|i: int|
                    0 <= i < before && (#[trigger] all[i]).0 == all[at as int].0),
            decreases at - before,
        {
            proof {
                assert(all[before as int].0 == entries[before as int].0@);
            }
            if entries[before].0 == entries[at].0 {
                repeated = true;
            }
            before = before + 1;
        }
        if repeated {
            return Some(at);
        }
        at = at + 1;
    }
    None
}

/// The pattern item of `source` and `flags`, where `outcome` is what the
/// engine made of the pattern on some text: the pattern is taken over if the
/// engine could read it, and refused if it could not.
pub fn checked_pattern(source: String, flags: String, outcome: Option<bool>) -> (converted: Result<
    ExternalItem,
    ExternalItemError,
>)
    ensures
        match converted {
            Ok(item) => outcome is Some && item.deep_view() == (ExternalItemView::Pattern {
                source: source@,
                flags: flags@,
            }),
            Err(error) => outcome is None && error@ == (ExternalItemErrorView::InvalidPattern {
                source: source@,
                flags: flags@,
            }),
        },
{
    match outcome {
        Some(_) => Ok(ExternalItem::Pattern { source, flags }),
        None => Err(ExternalItemError::InvalidPattern { source, flags }),
    }
}

impl ExternalItem {
    /// The configured external in the form that resolution works on, if
    /// configuration accepts it.
    ///
    /// A pattern is refused if it is not a regular expression, and a mapping
    /// if it has a key twice. Everything else is taken over as it is.
    pub fn try_from(value: RawExternalItem) -> (converted: Result<ExternalItem, ExternalItemError>)
        ensures
            match converted {
                Ok(item) => item.deep_view() == value.deep_view() && refusal(value.deep_view())
                    is None && item.deep_view().wf(),
                Err(error) => refusal(value.deep_view()) == Some(error@),
            },
    {
        match value {
            RawExternalItem::String(text) => Ok(ExternalItem::Literal(text)),
            RawExternalItem::RegExp { source, flags } => {
                let outcome = test_pattern(source.as_str(), flags.as_str(), "");
                proof {
                    reveal_strlit("");
                }
                checked_pattern(source, flags, outcome)
            },
            RawExternalItem::Object(entries) => {
                let ghost all = entries.deep_view();
                proof {
                    lemma_no_repeat_means_distinct(all, 0);
                }
                match find_repeat(&entries) {
                    Some(at) => Err(ExternalItemError::DuplicateKey(entries[at].0.clone())),
                    None => {
                        let mut rest = reversed(entries);
                        let mut converted: Vec<(String, ExternalItemValue)> = Vec::new();
                        while rest.len() > 0
                            invariant
                                rest.len() + converted.len() == all.len(),
                                forall|k: int|
                                    0 <= k < rest.len() ==> (#[trigger] rest[k]).deep_view()
                                        == all[all.len() - 1 - k],
                                forall|k: int|
                                    0 <= k < converted.len() ==> (
                                    #[trigger] converted[k]).deep_view() == all[k],
                            decreases rest.len(),
                        {
                            let entry = rest.pop().unwrap();
                            converted.push((entry.0, ExternalItemValue::from(entry.1)));
                        }
                        proof {
                            assert(converted.deep_view() =~= all);
                        }
                        Ok(ExternalItem::Mapping(converted))
                    },
                }
            },
            RawExternalItem::Function(callback) => Ok(ExternalItem::Dynamic(callback)),
        }
    }
}

} // verus!
