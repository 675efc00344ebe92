//! Match results: the structured events that a sink renders.
//!
//! A result is a record of named fields. Each field carries a JSON value
//! and says whether it belongs to the compact form of the result. No two
//! fields of a result share a name, so a result is a JSON object.

use crate::json::{insert_entry, new_object, no_entries, object_entries};
use vstd::prelude::*;

verus! {

/// One named field of a result.
#[derive(Debug, PartialEq)]
pub struct Field {
    /// The key under which the field is rendered.
    pub name: String,
    /// What the field holds.
    pub value: serde_json::Value,
    /// Whether the compact form of the result keeps the field.
    pub summary: bool,
}

/// What a field is: its name as a sequence of characters, its value, and
/// whether the compact form keeps it.
pub struct FieldView {
    pub name: Seq<char>,
    pub value: serde_json::Value,
    pub summary: bool,
}

impl View for Field {
    type V = FieldView;

    open spec fn view(&self) -> FieldView {
        FieldView { name: self.name@, value: self.value, summary: self.summary }
    }
}

impl Clone for Field {
    fn clone(&self) -> (r: Field)
        ensures
            r@ == self@,
    {
        Field { name: self.name.clone(), value: self.value.clone(), summary: self.summary }
    }
}

impl Field {
    /// A field of the given name and value.
    pub fn new(name: String, value: serde_json::Value, summary: bool) -> (r: Field)
        ensures
            r@ == field_view(name@, value, summary),
    {
        Field { name, value, summary }
    }
}

/// The field of the given name, value and mark.
pub open spec fn field_view(name: Seq<char>, value: serde_json::Value, summary: bool) -> FieldView {
    FieldView { name, value, summary }
}

/// `after` is `before` with `field` in the place of the first field that
/// has its name.
pub open spec fn replaces(before: Seq<FieldView>, field: FieldView, after: Seq<FieldView>) -> bool {
    exists|i: int|
        0 <= i < before.len() && (#[trigger] before[i]).name == field.name && !has_name(
            before.take(i),
            field.name,
        ) && after == before.update(i, field)
}

/// No two fields of the sequence share a name.
pub open spec fn names_distinct(fields: Seq<FieldView>) -> bool {
    forall|i: int, j: int|
        0 <= i < j < fields.len() ==> (#[trigger] fields[i]).name != (#[trigger] fields[j]).name
}

/// Whether one of the fields has the given name.
pub open spec fn has_name(fields: Seq<FieldView>, name: Seq<char>) -> bool {
    exists|i: int| 0 <= i < fields.len() && (#[trigger] fields[i]).name == name
}

/// The fields that the compact form keeps, in their order.
pub open spec fn summary_of(fields: Seq<FieldView>) -> Seq<FieldView> {
    fields.filter(|f: FieldView| f.summary)
}

/// The entries of the JSON object that the fields make up: each field's
/// value under its name, a later field taking the place of an earlier one
/// of the same name.
pub open spec fn entries_of(fields: Seq<FieldView>) -> Map<Seq<char>, serde_json::Value>
    decreases fields.len(),
{
    if fields.len() == 0 {
        no_entries()
    } else {
        entries_of(fields.drop_last()).insert(fields.last().name, fields.last().value)
    }
}

/// A structured event: a record of fields with distinct names. A result
/// without fields is a valid result, the empty object.
#[derive(Debug, PartialEq)]
pub struct MatchResult {
    fields: Vec<Field>,
}

impl View for MatchResult {
    type V = Seq<FieldView>;

    closed spec fn view(&self) -> Seq<FieldView> {
        self.fields@.map_values(|f: Field| f@)
    }
}

impl MatchResult {
    /// The invariant of a result: no two fields share a name. `new`
    /// establishes it and `set` keeps it.
    pub open spec fn wf(self) -> bool {
        names_distinct(self@)
    }

    /// A result without fields.
    pub fn new() -> (r: MatchResult)
        ensures
            r.wf(),
            r@ == Seq::<FieldView>::empty(),
    {
        let r = MatchResult { fields: Vec::new() };
        assert(r@ =~= Seq::<FieldView>::empty());
        r
    }

    /// The number of fields.
    pub fn len(&self) -> (n: usize)
        ensures
            n == self@.len(),
    {
        self.fields.len()
    }

    /// The field at the given position, if there is one.
    pub fn get(&self, index: usize) -> (r: Option<&Field>)
        ensures
            index < self@.len() ==> r is Some && r.unwrap()@ == self@[index as int],
            index >= self@.len() ==> r is None,
    {
        if index < self.fields.len() {
            Some(&self.fields[index])
        } else {
            None
        }
    }

    /// The position of the field with the given name, if there is one.
    pub fn position(&self, name: &String) -> (r: Option<usize>)
        ensures
            match r {
                Some(i) => i < self@.len() && self@[i as int].name == name@ && !has_name(
                    self@.take(i as int),
                    name@,
                ),
                None => !has_name(self@, name@),
            },
    {
        let mut i: usize = 0;
        while i < self.fields.len()
            invariant
                0 <= i <= self.fields.len(),
                forall|k: int| 0 <= k < i ==> (#[trigger] self@[k]).name != name@,
            decreases self.fields.len() - i,
        {
            if self.fields[i].name == *name {
                assert forall|k: int| 0 <= k < self@.take(i as int).len() implies (
                #[trigger] self@.take(i as int)[k]).name != name@ by {
                    assert(self@.take(i as int)[k] == self@[k]);
                }
                return Some(i);
            }
            i += 1;
        }
        None
    }

    /// Sets the field of the given name: the field takes the place of the
    /// one that has the name, or comes last where none has it.
    pub fn set(&mut self, name: String, value: serde_json::Value, summary: bool)
        ensures
            old(self).wf() ==> final(self).wf(),
            has_name(old(self)@, name@) ==> replaces(
                old(self)@,
                field_view(name@, value, summary),
                final(self)@,
            ),
            !has_name(old(self)@, name@) ==> final(self)@ == old(self)@.push(
                field_view(name@, value, summary),
            ),
    {
        let found = self.position(&name);
        let field = Field::new(name, value, summary);
        match found {
            Some(i) => {
                self.fields.set(i, field);
                assert(self@ =~= old(self)@.update(i as int, field@));
            },
            None => {
                self.fields.push(field);
                assert(self@ =~= old(self)@.push(field@));
            },
        }
    }

    /// The compact form of the result: the fields marked for it, in their
    /// order, and nothing else. It depends on the result alone.
    pub fn compact(&self) -> (r: MatchResult)
        ensures
            r@ == summary_of(self@),
            self.wf() ==> r.wf(),
    {
        let mut kept: Vec<Field> = Vec::new();
        let mut i: usize = 0;
        while i < self.fields.len()
            invariant
                0 <= i <= self.fields.len(),
                kept@.map_values(|f: Field| f@) == summary_of(self@.take(i as int)),
            decreases self.fields.len() - i,
        {
            proof {
                lemma_summary_step(self@, i as int);
            }
            if self.fields[i].summary {
                let field = self.fields[i].clone();
                kept.push(field);
                assert(kept@.map_values(|f: Field| f@) =~= summary_of(self@.take(i as int)).push(
                    self@[i as int],
                ));
            }
            i += 1;
        }
        proof {
            assert(self@.take(i as int) =~= self@);
            if self.wf() {
                lemma_summary_is_part(self@);
            }
        }
        MatchResult { fields: kept }
    }

    /// The JSON object that the result makes up.
    pub fn to_object(&self) -> (r: serde_json::Map<String, serde_json::Value>)
        ensures
            object_entries(r) == entries_of(self@),
    {
        let mut object = new_object();
        let mut i: usize = 0;
        while i < self.fields.len()
            invariant
                0 <= i <= self.fields.len(),
                object_entries(object) == entries_of(self@.take(i as int)),
            decreases self.fields.len() - i,
        {
            let name = self.fields[i].name.clone();
            let value = self.fields[i].value.clone();
            proof {
                assert(self@.take(i + 1).drop_last() =~= self@.take(i as int));
                assert(self@.take(i + 1).last() == self@[i as int]);
            }
            insert_entry(&mut object, name, value);
            i += 1;
        }
        proof {
            assert(self@.take(i as int) =~= self@);
        }
        object
    }
}

/// Taking one more field into account adds that field to the compact form
/// exactly when it is marked for it.
pub proof fn lemma_summary_step(fields: Seq<FieldView>, i: int)
    requires
        0 <= i < fields.len(),
    ensures
        summary_of(fields.take(i + 1)) == if fields[i].summary {
            summary_of(fields.take(i)).push(fields[i])
        } else {
            summary_of(fields.take(i))
        },
{
    assert(fields.take(i + 1).drop_last() =~= fields.take(i));
    assert(fields.take(i + 1).last() == fields[i]);
    reveal_with_fuel(Seq::filter, 2);
}

/// The compact form is a part of the result: each of its fields is a field
/// of the result and is marked, each marked field of the result is in it,
/// and where the result's names are distinct, so are its own.
pub proof fn lemma_summary_is_part(fields: Seq<FieldView>)
    ensures
        forall|k: int|
            0 <= k < summary_of(fields).len() ==> (#[trigger] summary_of(fields)[k]).summary
                && fields.contains(summary_of(fields)[k]),
        forall|j: int|
            0 <= j < fields.len() && (#[trigger] fields[j]).summary ==> summary_of(fields).contains(
                fields[j],
            ),
        summary_of(fields).len() <= fields.len(),
        names_distinct(fields) ==> names_distinct(summary_of(fields)),
    decreases fields.len(),
{
    reveal_with_fuel(Seq::filter, 2);
    if fields.len() > 0 {
        let rest = fields.drop_last();
        let last = fields.last();
        lemma_summary_is_part(rest);
        let c = summary_of(fields);
        let cr = summary_of(rest);
        assert(c == if last.summary { cr.push(last) } else { cr });
        assert forall|k: int| 0 <= k < c.len() implies (#[trigger] c[k]).summary && fields.contains(
            c[k],
        ) by {
            if k < cr.len() {
                assert(c[k] == cr[k]);
                assert(rest.contains(cr[k]));
                let j = choose|j: int| 0 <= j < rest.len() && rest[j] == cr[k];
                assert(fields[j] == cr[k]);
            } else {
                assert(c[k] == last);
                assert(fields[fields.len() - 1] == last);
            }
        }
        assert forall|j: int|
            0 <= j < fields.len() && (#[trigger] fields[j]).summary implies c.contains(
            fields[j],
        ) by {
            if j < rest.len() {
                assert(rest[j] == fields[j]);
                assert(cr.contains(rest[j]));
                let k = choose|k: int| 0 <= k < cr.len() && cr[k] == rest[j];
                assert(c[k] == fields[j]);
            } else {
                assert(c[c.len() - 1] == last);
            }
        }
        if names_distinct(fields) {
            assert(names_distinct(rest)) by {
                assert forall|i: int, j: int| 0 <= i < j < rest.len() implies (
                #[trigger] rest[i]).name != (#[trigger] rest[j]).name by {
                    assert(rest[i] == fields[i]);
                    assert(rest[j] == fields[j]);
                }
            }
            assert forall|a: int, b: int| 0 <= a < b < c.len() implies (#[trigger] c[a]).name != (
            #[trigger] c[b]).name by {
                if b < cr.len() {
                    assert(c[a] == cr[a]);
                    assert(c[b] == cr[b]);
                } else {
                    assert(c[b] == last);
                    assert(c[a] == cr[a]);
                    assert(rest.contains(cr[a]));
                    let j = choose|j: int| 0 <= j < rest.len() && rest[j] == cr[a];
                    assert(fields[j] == cr[a]);
                    assert(fields[fields.len() - 1] == last);
                }
            }
        }
    }
}

/// The object of a result holds a key exactly for each name among the
/// fields, and where the names are distinct, each field's own value under
/// its name.
pub proof fn lemma_entries_of_fields(fields: Seq<FieldView>)
    ensures
        forall|key: Seq<char>| #[trigger]
            entries_of(fields).contains_key(key) <==> has_name(fields, key),
        names_distinct(fields) ==> forall|i: int|
            0 <= i < fields.len() ==> entries_of(fields)[(#[trigger] fields[i]).name]
                == fields[i].value,
    decreases fields.len(),
{
    if fields.len() > 0 {
        let rest = fields.drop_last();
        let last = fields.last();
        lemma_entries_of_fields(rest);
        assert forall|key: Seq<char>| #[trigger]
            entries_of(fields).contains_key(key) <==> has_name(fields, key) by {
            let m = entries_of(rest);
            assert(entries_of(fields) == m.insert(last.name, last.value));
            if has_name(fields, key) {
                let i = choose|i: int| 0 <= i < fields.len() && (#[trigger] fields[i]).name == key;
                if i < rest.len() {
                    assert(rest[i].name == key);
                    assert(has_name(rest, key));
                    assert(m.contains_key(key));
                } else {
                    assert(key == last.name);
                }
            }
            if entries_of(fields).contains_key(key) {
                if key == last.name {
                    assert(fields[fields.len() - 1].name == key);
                } else {
                    assert(m.contains_key(key));
                    assert(has_name(rest, key));
                    let i = choose|i: int| 0 <= i < rest.len() && (#[trigger] rest[i]).name == key;
                    assert(fields[i].name == key);
                }
            }
        }
        if names_distinct(fields) {
            assert(names_distinct(rest)) by {
                assert forall|i: int, j: int| 0 <= i < j < rest.len() implies (
                #[trigger] rest[i]).name != (#[trigger] rest[j]).name by {
                    assert(rest[i] == fields[i]);
                    assert(rest[j] == fields[j]);
                }
            }
            assert forall|i: int| 0 <= i < fields.len() implies entries_of(fields)[(
            #[trigger] fields[i]).name] == fields[i].value by {
                if i < rest.len() {
                    assert(rest[i] == fields[i]);
                    assert(fields[i].name != fields[fields.len() - 1].name);
                }
            }
        }
    }
}

/// The compact form holds nothing that the full form does not: where the
/// names of a result are distinct, each key of the compact object is a key
/// of the full object, with the same value.
pub proof fn lemma_compact_within_full(fields: Seq<FieldView>)
    requires
        names_distinct(fields),
    ensures
        names_distinct(summary_of(fields)),
        entries_of(summary_of(fields)).submap_of(entries_of(fields)),
        entries_of(summary_of(fields)).len() <= entries_of(fields).len(),
{
    let c = summary_of(fields);
    lemma_summary_is_part(fields);
    lemma_entries_of_fields(fields);
    lemma_entries_of_fields(c);
    assert forall|key: Seq<char>| #[trigger] entries_of(c).dom().contains(key) implies entries_of(
        fields,
    ).dom().contains(key) && entries_of(c)[key] == entries_of(fields)[key] by {
        assert(has_name(c, key));
        let k = choose|k: int| 0 <= k < c.len() && (#[trigger] c[k]).name == key;
        assert(fields.contains(c[k]));
        let j = choose|j: int| 0 <= j < fields.len() && fields[j] == c[k];
        assert(fields[j].name == key);
        assert(entries_of(fields)[fields[j].name] == fields[j].value);
        assert(entries_of(c)[c[k].name] == c[k].value);
    }
    lemma_entries_finite(fields);
    lemma_entries_finite(c);
    vstd::set_lib::lemma_len_subset(entries_of(c).dom(), entries_of(fields).dom());
}

/// The object of a result has finitely many keys.
pub proof fn lemma_entries_finite(fields: Seq<FieldView>)
    ensures
        entries_of(fields).dom().finite(),
    decreases fields.len(),
{
    if fields.len() > 0 {
        lemma_entries_finite(fields.drop_last());
    }
}

/// Reducing a result twice gives what reducing it once gives.
pub proof fn lemma_compact_idempotent(fields: Seq<FieldView>)
    ensures
        summary_of(summary_of(fields)) == summary_of(fields),
    decreases fields.len(),
{
    reveal_with_fuel(Seq::filter, 2);
    if fields.len() > 0 {
        let rest = fields.drop_last();
        lemma_compact_idempotent(rest);
        if fields.last().summary {
            let c = summary_of(rest).push(fields.last());
            assert(summary_of(fields) == c);
            assert(c.drop_last() =~= summary_of(rest));
            assert(c.last() == fields.last());
        }
    } else {
        assert(summary_of(fields) =~= fields);
    }
}

/// The compact form leaves out what is not marked for it: where the names
/// of a result are distinct, the name of an unmarked field is no key of
/// the compact object, which then has fewer keys than the full one.
pub proof fn lemma_compact_omits_unmarked(fields: Seq<FieldView>, j: int)
    requires
        names_distinct(fields),
        0 <= j < fields.len(),
        !fields[j].summary,
    ensures
        entries_of(fields).contains_key(fields[j].name),
        !entries_of(summary_of(fields)).contains_key(fields[j].name),
        entries_of(summary_of(fields)).len() < entries_of(fields).len(),
{
    let c = summary_of(fields);
    let key = fields[j].name;
    lemma_summary_is_part(fields);
    lemma_entries_of_fields(fields);
    lemma_entries_of_fields(c);
    lemma_compact_within_full(fields);
    assert(has_name(fields, key));
    if has_name(c, key) {
        let k = choose|k: int| 0 <= k < c.len() && (#[trigger] c[k]).name == key;
        assert(fields.contains(c[k]));
        let i = choose|i: int| 0 <= i < fields.len() && fields[i] == c[k];
        assert(fields[i].name == fields[j].name);
        assert(i == j);
    }
    lemma_entries_finite(fields);
    lemma_entries_finite(c);
    let small = entries_of(c).dom();
    let large = entries_of(fields).dom();
    assert(small.subset_of(large.remove(key)));
    vstd::set_lib::lemma_len_subset(small, large.remove(key));
}

} // verus!
