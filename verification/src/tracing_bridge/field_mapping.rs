//! The values of span fields that were asked for.

use vstd::prelude::*;

use crate::key_map::KeyMap;
use crate::text::str_eq;

verus! {

/// The value of a span field, as it was recorded. A value that is none of the
/// plain kinds comes as its debug text.
pub enum FieldValue {
    Str(String),
    U64(u64),
    I64(i64),
    Bool(bool),
    Debug(String),
}

/// The value of a span field, with its text as characters.
pub enum FieldView {
    Str(Seq<char>),
    U64(u64),
    I64(i64),
    Bool(bool),
    Debug(Seq<char>),
}

impl View for FieldValue {
    type V = FieldView;

    open spec fn view(&self) -> FieldView {
        match *self {
            FieldValue::Str(text) => FieldView::Str(text@),
            FieldValue::U64(value) => FieldView::U64(value),
            FieldValue::I64(value) => FieldView::I64(value),
            FieldValue::Bool(value) => FieldView::Bool(value),
            FieldValue::Debug(text) => FieldView::Debug(text@),
        }
    }
}

/// The fields of a span in the order in which they were recorded.
pub type Recording = Vec<(String, FieldValue)>;

/// A recording with its texts as characters.
pub open spec fn recording_view(recording: Seq<(String, FieldValue)>) -> Seq<
    (Seq<char>, FieldView),
> {
    Seq::new(recording.len(), |i: int| (recording[i].0@, recording[i].1@))
}

/// The texts of a list of names.
pub open spec fn name_views(names: Seq<&'static str>) -> Seq<Seq<char>> {
    Seq::new(names.len(), |i: int| names[i]@)
}

/// Field values by name, and the names of the fields that the user set.
#[verifier::ext_equal]
pub struct ExtractedView {
    pub strings: Map<Seq<char>, Seq<char>>,
    pub u64s: Map<Seq<char>, u64>,
    pub i64s: Map<Seq<char>, i64>,
    pub bools: Map<Seq<char>, bool>,
    pub user_set: Set<Seq<char>>,
}

impl ExtractedView {
    /// No values.
    pub open spec fn empty() -> Self {
        ExtractedView {
            strings: Map::empty(),
            u64s: Map::empty(),
            i64s: Map::empty(),
            bools: Map::empty(),
            user_set: Set::empty(),
        }
    }

    /// Whether a field has a value of any kind.
    pub open spec fn holds(self, name: Seq<char>) -> bool {
        self.strings.contains_key(name) || self.u64s.contains_key(name) || self.i64s.contains_key(
            name,
        ) || self.bools.contains_key(name)
    }

    /// Whether no field has a value.
    pub open spec fn has_no_values(self) -> bool {
        self.strings == Map::<Seq<char>, Seq<char>>::empty() && self.u64s == Map::<
            Seq<char>,
            u64,
        >::empty() && self.i64s == Map::<Seq<char>, i64>::empty() && self.bools == Map::<
            Seq<char>,
            bool,
        >::empty()
    }

    /// Keep a value under its kind. A debug text counts only where the field has
    /// no value yet.
    pub open spec fn with(self, name: Seq<char>, value: FieldView) -> Self {
        match value {
            FieldView::Str(text) => ExtractedView {
                strings: self.strings.insert(name, text),
                ..self
            },
            FieldView::U64(number) => ExtractedView {
                u64s: self.u64s.insert(name, number),
                ..self
            },
            FieldView::I64(number) => ExtractedView {
                i64s: self.i64s.insert(name, number),
                ..self
            },
            FieldView::Bool(flag) => ExtractedView { bools: self.bools.insert(name, flag), ..self },
            FieldView::Debug(text) => if self.holds(name) {
                self
            } else {
                ExtractedView { strings: self.strings.insert(name, text), ..self }
            },
        }
    }

    /// Keep the value of a field that was asked for.
    pub open spec fn record(
        self,
        targets: Seq<Seq<char>>,
        name: Seq<char>,
        value: FieldView,
    ) -> Self {
        if targets.contains(name) {
            self.with(name, value)
        } else {
            self
        }
    }

    /// Keep the values of a whole recording.
    pub open spec fn record_all(
        self,
        targets: Seq<Seq<char>>,
        recording: Seq<(Seq<char>, FieldView)>,
    ) -> Self
        decreases recording.len(),
    {
        if recording.len() == 0 {
            self
        } else {
            let before = self.record_all(targets, recording.drop_last());
            before.record(targets, recording.last().0, recording.last().1)
        }
    }

    /// Count those of the given fields that have a value as set by the user.
    pub open spec fn marked(self, names: Seq<Seq<char>>) -> Self {
        ExtractedView {
            user_set: self.user_set.union(
                Set::new(|name: Seq<char>| names.contains(name) && self.holds(name)),
            ),
            ..self
        }
    }

    /// Take over the values of a later recording.
    pub open spec fn merged(self, later: ExtractedView) -> Self {
        ExtractedView {
            strings: self.strings.union_prefer_right(later.strings),
            u64s: self.u64s.union_prefer_right(later.u64s),
            i64s: self.i64s.union_prefer_right(later.i64s),
            bools: self.bools.union_prefer_right(later.bools),
            user_set: self.user_set.union(later.user_set),
        }
    }
}

/// Field values by name, and the fields that the user set.
pub struct ExtractedFields {
    pub string_values: KeyMap<String>,
    pub u64_values: KeyMap<u64>,
    pub i64_values: KeyMap<i64>,
    pub bool_values: KeyMap<bool>,
    pub user_set_fields: KeyMap<()>,
}

/// The characters of texts by name.
pub open spec fn text_values(values: Map<Seq<char>, String>) -> Map<Seq<char>, Seq<char>> {
    values.map_values(|text: String| text@)
}

impl View for ExtractedFields {
    type V = ExtractedView;

    open spec fn view(&self) -> ExtractedView {
        ExtractedView {
            strings: text_values(self.string_values@),
            u64s: self.u64_values@,
            i64s: self.i64_values@,
            bools: self.bool_values@,
            user_set: self.user_set_fields@.dom(),
        }
    }
}

impl ExtractedFields {
    /// No values.
    pub fn new() -> (r: Self)
        ensures
            r@ == ExtractedView::empty(),
    {
        let r = ExtractedFields {
            string_values: KeyMap::new(),
            u64_values: KeyMap::new(),
            i64_values: KeyMap::new(),
            bool_values: KeyMap::new(),
            user_set_fields: KeyMap::new(),
        };
        assert(r@ =~= ExtractedView::empty());
        r
    }

    /// Whether no field has a value.
    pub fn is_empty(&self) -> (r: bool)
        ensures
            r == self@.has_no_values(),
    {
        proof {
            if self.string_values@ == Map::<Seq<char>, String>::empty() {
                assert(self@.strings =~= Map::<Seq<char>, Seq<char>>::empty());
            } else if self@.strings == Map::<Seq<char>, Seq<char>>::empty() {
                assert forall|k: Seq<char>| !self.string_values@.dom().contains(k) by {
                    assert(!self@.strings.dom().contains(k));
                }
                assert(self.string_values@ =~= Map::<Seq<char>, String>::empty());
            }
        }
        self.string_values.is_empty() && self.u64_values.is_empty() && self.i64_values.is_empty()
            && self.bool_values.is_empty()
    }

    /// Whether a field has a value of any kind.
    pub fn holds(&self, name: &str) -> (r: bool)
        ensures
            r == self@.holds(name@),
    {
        self.string_values.contains_key(name) || self.u64_values.contains_key(name)
            || self.i64_values.contains_key(name) || self.bool_values.contains_key(name)
    }

    /// Count a field as set by the user.
    pub fn mark_user_set(&mut self, field: &'static str)
        ensures
            final(self)@ == (ExtractedView {
                user_set: old(self)@.user_set.insert(field@),
                ..old(self)@
            }),
    {
        let ghost before = self@;
        let _ = self.user_set_fields.insert(field, ());
        assert(self@.user_set =~= before.user_set.insert(field@));
    }

    /// Keep a value under its kind.
    pub fn set(&mut self, name: &'static str, value: FieldValue)
        ensures
            final(self)@ == old(self)@.with(name@, value@),
    {
        let ghost before = self@;
        match value {
            FieldValue::Str(text) => {
                let _ = self.string_values.insert(name, text);
                assert(self@.strings =~= before.strings.insert(name@, text@));
            },
            FieldValue::U64(number) => {
                let _ = self.u64_values.insert(name, number);
            },
            FieldValue::I64(number) => {
                let _ = self.i64_values.insert(name, number);
            },
            FieldValue::Bool(flag) => {
                let _ = self.bool_values.insert(name, flag);
            },
            FieldValue::Debug(text) => {
                if !self.holds(name) {
                    let _ = self.string_values.insert(name, text);
                    assert(self@.strings =~= before.strings.insert(name@, text@));
                }
            },
        }
    }

    /// Count those of the given fields that have a value as set by the user.
    pub fn mark_all(&mut self, names: &Vec<&'static str>)
        ensures
            final(self)@ == old(self)@.marked(name_views(names@)),
    {
        let ghost before = self@;
        let ghost all = name_views(names@);
        let mut i: usize = 0;
        assert(before.marked(all.take(0)) =~= before);
        while i < names.len()
            invariant
                i <= names@.len(),
                all == name_views(names@),
                self@ == before.marked(all.take(i as int)),
            decreases names@.len() - i,
        {
            let name = names[i];
            let ghost here = self@;
            if self.holds(name) {
                self.mark_user_set(name);
            }
            proof {
                let done = all.take(i as int);
                let next = all.take(i + 1);
                assert(next =~= done.push(name@));
                assert(here.holds(name@) == before.holds(name@));
                assert forall|k: Seq<char>| #[trigger]
                    next.contains(k) == (done.contains(k) || k == name@) by {
                    if done.contains(k) {
                        let a = choose|a: int| 0 <= a < done.len() && done[a] == k;
                        assert(next[a] == k);
                    }
                    if k == name@ {
                        assert(next[done.len() as int] == k);
                    }
                    if next.contains(k) {
                        let a = choose|a: int| 0 <= a < next.len() && next[a] == k;
                        if a < done.len() {
                            assert(done[a] == k);
                        }
                    }
                }
                assert(self@.user_set =~= before.marked(next).user_set);
                assert(self@ =~= before.marked(next));
            }
            i = i + 1;
        }
        assert(all.take(i as int) =~= all);
    }

    /// Take over the values of a later recording.
    pub fn merge(&mut self, later: ExtractedFields)
        ensures
            final(self)@ == old(self)@.merged(later@),
    {
        let ghost before = self@;
        self.string_values.absorb(later.string_values);
        self.u64_values.absorb(later.u64_values);
        self.i64_values.absorb(later.i64_values);
        self.bool_values.absorb(later.bool_values);
        self.user_set_fields.absorb(later.user_set_fields);
        assert(self@.strings =~= before.strings.union_prefer_right(later@.strings));
        assert(self@.user_set =~= before.user_set.union(later@.user_set));
        assert(self@ =~= before.merged(later@));
    }
}

/// Keeps the values of the fields that were asked for.
pub struct FieldExtractor<'a> {
    /// The names of those fields.
    pub target_fields: &'a Vec<&'static str>,
    pub extracted: ExtractedFields,
}

impl<'a> FieldExtractor<'a> {
    /// The names that are asked for.
    pub open spec fn targets(&self) -> Seq<Seq<char>> {
        name_views(self.target_fields@)
    }

    /// Asks for the given fields.
    pub fn new(target_fields: &'a Vec<&'static str>) -> (r: Self)
        ensures
            r.target_fields == target_fields,
            r.extracted@ == ExtractedView::empty(),
    {
        FieldExtractor { target_fields, extracted: ExtractedFields::new() }
    }

    /// The name that was asked for, where the field is one of those.
    pub fn is_target(&self, field: &str) -> (r: Option<&'static str>)
        ensures
            match r {
                Some(name) => name@ == field@ && self.targets().contains(field@),
                None => !self.targets().contains(field@),
            },
    {
        let ghost all = self.targets();
        let mut i: usize = 0;
        while i < self.target_fields.len()
            invariant
                i <= self.target_fields@.len(),
                all == name_views(self.target_fields@),
                forall|j: int| 0 <= j < i ==> #[trigger] all[j] != field@,
            decreases self.target_fields@.len() - i,
        {
            let name = self.target_fields[i];
            if str_eq(name, field) {
                assert(all[i as int] == field@);
                return Some(name);
            }
            i = i + 1;
        }
        None
    }

    fn record(&mut self, field: &str, value: FieldValue)
        ensures
            final(self).target_fields == old(self).target_fields,
            final(self).extracted@ == old(self).extracted@.record(
                old(self).targets(),
                field@,
                value@,
            ),
    {
        match self.is_target(field) {
            Some(name) => {
                self.extracted.set(name, value);
            },
            None => {},
        }
    }

    /// A text was recorded.
    pub fn record_str(&mut self, field: &str, value: &str)
        ensures
            final(self).target_fields == old(self).target_fields,
            final(self).extracted@ == old(self).extracted@.record(
                old(self).targets(),
                field@,
                FieldView::Str(value@),
            ),
    {
        self.record(field, FieldValue::Str(value.to_owned()));
    }

    /// A value that has only a debug text was recorded.
    pub fn record_debug(&mut self, field: &str, value: &str)
        ensures
            final(self).target_fields == old(self).target_fields,
            final(self).extracted@ == old(self).extracted@.record(
                old(self).targets(),
                field@,
                FieldView::Debug(value@),
            ),
    {
        self.record(field, FieldValue::Debug(value.to_owned()));
    }

    /// An unsigned number was recorded.
    pub fn record_u64(&mut self, field: &str, value: u64)
        ensures
            final(self).target_fields == old(self).target_fields,
            final(self).extracted@ == old(self).extracted@.record(
                old(self).targets(),
                field@,
                FieldView::U64(value),
            ),
    {
        self.record(field, FieldValue::U64(value));
    }

    /// A signed number was recorded.
    pub fn record_i64(&mut self, field: &str, value: i64)
        ensures
            final(self).target_fields == old(self).target_fields,
            final(self).extracted@ == old(self).extracted@.record(
                old(self).targets(),
                field@,
                FieldView::I64(value),
            ),
    {
        self.record(field, FieldValue::I64(value));
    }

    /// A truth value was recorded.
    pub fn record_bool(&mut self, field: &str, value: bool)
        ensures
            final(self).target_fields == old(self).target_fields,
            final(self).extracted@ == old(self).extracted@.record(
                old(self).targets(),
                field@,
                FieldView::Bool(value),
            ),
    {
        self.record(field, FieldValue::Bool(value));
    }

    /// A whole recording.
    pub fn record_all(&mut self, recording: &Recording)
        ensures
            final(self).target_fields == old(self).target_fields,
            final(self).extracted@ == old(self).extracted@.record_all(
                old(self).targets(),
                recording_view(recording@),
            ),
    {
        let ghost all = recording_view(recording@);
        let ghost before = self.extracted@;
        let ghost targets = self.targets();
        let mut i: usize = 0;
        assert(all.take(0) =~= Seq::<(Seq<char>, FieldView)>::empty());
        while i < recording.len()
            invariant
                i <= recording@.len(),
                all == recording_view(recording@),
                self.target_fields == old(self).target_fields,
                targets == self.targets(),
                self.extracted@ == before.record_all(targets, all.take(i as int)),
            decreases recording@.len() - i,
        {
            let field = recording[i].0.as_str();
            match &recording[i].1 {
                FieldValue::Str(text) => self.record_str(field, text.as_str()),
                FieldValue::U64(number) => self.record_u64(field, *number),
                FieldValue::I64(number) => self.record_i64(field, *number),
                FieldValue::Bool(flag) => self.record_bool(field, *flag),
                FieldValue::Debug(text) => self.record_debug(field, text.as_str()),
            }
            proof {
                let next = all.take(i + 1);
                assert(next.drop_last() =~= all.take(i as int));
                assert(next.last() == all[i as int]);
            }
            i = i + 1;
        }
        assert(all.take(i as int) =~= all);
    }
}

} // verus!
