//! The text of a module while its dependency templates edit it.
//!
//! A template edits by replacing a range of the text as it was parsed.
//! Ranges are counted in characters of that text, whatever was replaced
//! before, so edits by different templates do not disturb each other as
//! long as their ranges are apart.

use vstd::prelude::*;
use vstd::string::{StrSliceExecFns, StringExecFns};

verus! {

/// One edit: the characters from `start` up to `end` of the parsed text give
/// way to `content`.
#[derive(Clone, Debug, PartialEq, Eq)]
pub struct Replacement {
    pub start: usize,
    pub end: usize,
    pub content: String,
}

/// An edit as contracts speak of it.
pub struct ReplacementView {
    pub start: int,
    pub end: int,
    pub content: Seq<char>,
}

impl View for Replacement {
    type V = ReplacementView;

    open spec fn view(&self) -> ReplacementView {
        ReplacementView { start: self.start as int, end: self.end as int, content: self.content@ }
    }
}

/// Whether the range from `start` to `end` lies before the range from
/// `other_start` to `other_end`, so that they share neither a character nor,
/// both being empty, their place.
pub open spec fn lies_before(start: int, end: int, other_start: int, other_end: int) -> bool {
    end <= other_start && start < other_end
}

/// Whether the range from `start` to `end` is apart from every edit in
/// `edits`.
pub open spec fn is_apart(edits: Seq<ReplacementView>, start: int, end: int) -> bool {
    forall|k: int|
        0 <= k < edits.len() ==> lies_before(
            (#[trigger] edits[k]).start,
            edits[k].end,
            start,
            end,
        ) || lies_before(start, end, edits[k].start, edits[k].end)
}

/// Whether `edits` are edits of a text of `length` characters, apart from
/// each other and in the order of the text.
pub open spec fn edits_fit(length: int, edits: Seq<ReplacementView>) -> bool {
    &&& forall|k: int|
        0 <= k < edits.len() ==> 0 <= (#[trigger] edits[k]).start <= edits[k].end <= length
    &&& forall|k: int, l: int|
        0 <= k < l < edits.len() ==> lies_before(
            (#[trigger] edits[k]).start,
            edits[k].end,
            (#[trigger] edits[l]).start,
            edits[l].end,
        )
}

/// How many of `edits` lie before the range from `start` to `end`, where
/// the edits are in the order of the text.
pub open spec fn edits_before(edits: Seq<ReplacementView>, start: int, end: int) -> int
    decreases edits.len(),
{
    if edits.len() == 0 {
        0
    } else if lies_before(edits.last().start, edits.last().end, start, end) {
        edits.len() as int
    } else {
        edits_before(edits.drop_last(), start, end)
    }
}

/// The text `whole` with `edits` made, where the edits are apart from
/// each other and in the order of the text: the last edit's content stands
/// between the edited text before its range and the text behind its range.
pub open spec fn spliced(whole: Seq<char>, edits: Seq<ReplacementView>) -> Seq<char>
    decreases edits.len(),
{
    if edits.len() == 0 {
        whole
    } else {
        let last = edits.last();
        spliced(whole.subrange(0, last.start), edits.drop_last()) + last.content
            + whole.subrange(last.end, whole.len() as int)
    }
}

/// Text behind all edits is carried over as it is.
proof fn lemma_spliced_extends(
    whole: Seq<char>,
    edits: Seq<ReplacementView>,
    upto: int,
    further: int,
)
    requires
        edits_fit(upto, edits),
        0 <= upto <= further <= whole.len(),
    ensures
        spliced(whole.subrange(0, further), edits) == spliced(whole.subrange(0, upto), edits)
            + whole.subrange(upto, further),
{
    if edits.len() > 0 {
        let before = edits.last().start;
        assert(whole.subrange(0, further).subrange(0, before) =~= whole.subrange(0, upto).subrange(
            0,
            before,
        ));
    }
}

/// An edit that is apart from the edits made so far takes its place among
/// them: behind the edits that lie before it.
proof fn lemma_edit_takes_its_place(
    length: int,
    edits: Seq<ReplacementView>,
    added: ReplacementView,
    slot: int,
)
    requires
        edits_fit(length, edits),
        0 <= added.start <= added.end <= length,
        is_apart(edits, added.start, added.end),
        0 <= slot <= edits.len(),
        slot > 0 ==> lies_before(edits[slot - 1].start, edits[slot - 1].end, added.start, added.end),
        forall|k: int|
            slot <= k < edits.len() ==> !lies_before(
                (#[trigger] edits[k]).start,
                edits[k].end,
                added.start,
                added.end,
            ),
    ensures
        edits_fit(length, edits.insert(slot, added)),
{
}

/// The text of a module as it was parsed, with the edits made so far.
#[derive(Debug, PartialEq, Eq)]
pub struct TemplateReplaceSource {
    source: String,
    replacements: Vec<Replacement>,
}

impl TemplateReplaceSource {
    /// The text as it was parsed.
    pub closed spec fn parsed(&self) -> Seq<char> {
        self.source@
    }

    /// The edits made so far, in the order of the text.
    pub closed spec fn edits(&self) -> Seq<ReplacementView> {
        self.replacements@.map_values(|edit: Replacement| edit@)
    }

    /// The edits are edits of the parsed text, apart from each other and in
    /// the order of the text.
    #[verifier::type_invariant]
    closed spec fn edits_are_apart(&self) -> bool {
        edits_fit(self.source@.len() as int, self.replacements@.map_values(|edit: Replacement| edit@))
    }

    /// Whether the range from `start` to `end` can be replaced: it is a range
    /// of the parsed text, apart from every range replaced so far.
    pub open spec fn accepts(&self, start: int, end: int) -> bool {
        0 <= start <= end <= self.parsed().len() && is_apart(self.edits(), start, end)
    }

    /// The text `source`, not edited yet.
    pub fn new(source: String) -> (text: TemplateReplaceSource)
        ensures
            text.parsed() == source@,
            text.edits() == Seq::<ReplacementView>::empty(),
    {
        let replacements: Vec<Replacement> = Vec::new();
        TemplateReplaceSource { source, replacements }
    }

    /// Whether the range from `start` to `end` can be replaced.
    pub fn can_replace(&self, start: usize, end: usize) -> (accepted: bool)
        ensures
            accepted == self.accepts(start as int, end as int),
    {
        if start > end || end > self.source.as_str().unicode_len() {
            return false;
        }
        let mut at: usize = 0;
        while at < self.replacements.len()
            invariant
                at <= self.replacements.len(),
                is_apart(self.edits().take(at as int), start as int, end as int),
            decreases self.replacements.len() - at,
        {
            let edit = &self.replacements[at];
            proof {
                assert(self.edits()[at as int] == edit@);
            }
            let before = edit.end <= start && edit.start < end;
            let behind = end <= edit.start && start < edit.end;
            if !before && !behind {
                return false;
            }
            at = at + 1;
        }
        proof {
            assert(self.edits().take(at as int) =~= self.edits());
        }
        true
    }

    /// Replaces the characters from `start` up to `end` of the parsed text
    /// by `content`. With `start == end` the content is inserted.
    ///
    /// The range must be apart from every range replaced before: edits that
    /// overlap are a mistake of the templates that make them.
    pub fn replace(&mut self, start: usize, end: usize, content: String)
        requires
            old(self).accepts(start as int, end as int),
        ensures
            final(self).parsed() == old(self).parsed(),
            final(self).edits() == old(self).edits().insert(
                edits_before(old(self).edits(), start as int, end as int),
                ReplacementView { start: start as int, end: end as int, content: content@ },
            ),
    {
        proof {
            use_type_invariant(&*self);
        }
        let ghost edits = self.edits();
        let ghost added = ReplacementView {
            start: start as int,
            end: end as int,
            content: content@,
        };
        let mut slot: usize = self.replacements.len();
        proof {
            assert(edits.take(slot as int) =~= edits);
        }
        while slot > 0 && !(self.replacements[slot - 1].end <= start && self.replacements[slot
            - 1].start < end)
            invariant
                slot <= self.replacements.len(),
                edits == self.edits(),
                *self == *old(self),
                edits_before(edits, start as int, end as int) == edits_before(
                    edits.take(slot as int),
                    start as int,
                    end as int,
                ),
                forall|k: int|
                    slot <= k < edits.len() ==> !lies_before(
                        (#[trigger] edits[k]).start,
                        edits[k].end,
                        start as int,
                        end as int,
                    ),
            decreases slot,
        {
            proof {
                assert(edits.take(slot as int).drop_last() =~= edits.take(slot - 1));
            }
            slot = slot - 1;
        }
        proof {
            lemma_edit_takes_its_place(self.parsed().len() as int, edits, added, slot as int);
        }
        let mut taken = TemplateReplaceSource::new(String::new());
        core::mem::swap(self, &mut taken);
        let TemplateReplaceSource { source, mut replacements } = taken;
        replacements.insert(slot, Replacement { start, end, content });
        proof {
            assert(replacements@.map_values(|edit: Replacement| edit@) =~= edits.insert(
                slot as int,
                added,
            ));
        }
        *self = TemplateReplaceSource { source, replacements };
    }

    /// The text with all edits made.
    pub fn source(&self) -> (text: String)
        ensures
            text@ == spliced(self.parsed(), self.edits()),
    {
        proof {
            use_type_invariant(self);
        }
        let ghost whole = self.parsed();
        let ghost edits = self.edits();
        let input = self.source.as_str();
        let length = input.unicode_len();
        let mut text = String::new();
        let mut from: usize = 0;
        let mut at: usize = 0;
        while at < self.replacements.len()
            invariant
                at <= self.replacements.len(),
                whole == self.parsed(),
                edits == self.edits(),
                input@ == whole,
                length == whole.len(),
                edits_fit(length as int, edits),
                from <= length,
                edits_fit(from as int, edits.take(at as int)),
                forall|k: int| at <= k < edits.len() ==> from <= (#[trigger] edits[k]).start,
                text@ == spliced(whole.subrange(0, from as int), edits.take(at as int)),
            decreases self.replacements.len() - at,
        {
            let edit = &self.replacements[at];
            proof {
                assert(edits[at as int] == edit@);
                lemma_spliced_extends(whole, edits.take(at as int), from as int, edit.start as int);
                let upto = edits.take(at + 1);
                assert(upto.drop_last() =~= edits.take(at as int));
                let reached = whole.subrange(0, edit.end as int);
                assert(reached.subrange(0, edit.start as int) =~= whole.subrange(
                    0,
                    edit.start as int,
                ));
            }
            text.append(input.substring_char(from, edit.start));
            text.append(edit.content.as_str());
            from = edit.end;
            at = at + 1;
        }
        proof {
            assert(edits.take(at as int) =~= edits);
            lemma_spliced_extends(whole, edits, from as int, length as int);
            assert(whole.subrange(0, length as int) =~= whole);
        }
        text.append(input.substring_char(from, length));
        text
    }
}

} // verus!
