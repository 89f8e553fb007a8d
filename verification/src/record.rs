//! Records as callers submit them: a mapping from field names to JSON values.

use vstd::prelude::*;

use crate::text::str_equal;

verus! {

/// A JSON value. Only `Text` is ever inspected by the gateway; every other
/// shape is carried through untouched.
#[derive(Debug, PartialEq, Eq)]
pub enum JsonValue {
    Null,
    Bool(bool),
    /// A number, kept as its decimal literal.
    Number(String),
    Text(String),
    Array(Vec<JsonValue>),
    Object(Vec<(String, JsonValue)>),
}

/// One named value of a record.
#[derive(Debug, PartialEq, Eq)]
pub struct Field {
    pub name: String,
    pub value: JsonValue,
}

/// A record: field names with their values, no name twice.
///
/// The view of a record is the mapping from each name to its value. The
/// fields keep the order in which their names were first stored, and `==`
/// on records compares them in that order.
#[derive(Debug, PartialEq, Eq)]
pub struct Record {
    fields: Vec<Field>,
}

/// The names of a run of fields, in order.
pub open spec fn field_names(fields: Seq<Field>) -> Seq<Seq<char>> {
    fields.map_values(|field: Field| field.name@)
}

/// The mapping that a run of fields with distinct names stands for.
pub open spec fn field_map(fields: Seq<Field>) -> Map<Seq<char>, JsonValue> {
    Map::new(
        |name: Seq<char>| field_names(fields).contains(name),
        |name: Seq<char>| fields[field_names(fields).index_of(name)].value,
    )
}

/// The text stored under `field`, if the record has that field and its value
/// is a string.
pub open spec fn text_under(record: Map<Seq<char>, JsonValue>, field: Seq<char>) -> Option<
    Seq<char>,
> {
    if record.contains_key(field) {
        match record[field] {
            JsonValue::Text(text) => Some(text@),
            _ => None,
        }
    } else {
        None
    }
}

/// In a run of fields with distinct names, the field at position `at` is the
/// one its name maps to.
proof fn lemma_field_at(fields: Seq<Field>, at: int)
    requires
        field_names(fields).no_duplicates(),
        0 <= at < fields.len(),
    ensures
        field_map(fields).contains_key(fields[at].name@),
        field_map(fields)[fields[at].name@] == fields[at].value,
{
    let names = field_names(fields);
    assert(names[at] == fields[at].name@);
    assert(names.contains(fields[at].name@));
    let found = names.index_of(fields[at].name@);
    assert(0 <= found < names.len() && names[found] == names[at]);
}

impl View for Record {
    type V = Map<Seq<char>, JsonValue>;

    closed spec fn view(&self) -> Map<Seq<char>, JsonValue> {
        field_map(self.fields@)
    }
}

impl Record {
    #[verifier::type_invariant]
    spec fn names_are_distinct(self) -> bool {
        field_names(self.fields@).no_duplicates()
    }

    /// The record without fields.
    pub fn new() -> (record: Record)
        ensures
            record@ == Map::<Seq<char>, JsonValue>::empty(),
    {
        let record = Record { fields: Vec::new() };
        assert(record@ =~= Map::<Seq<char>, JsonValue>::empty());
        record
    }

    /// Where the field called `name` stands, if there is one.
    fn position(&self, name: &str) -> (at: Option<usize>)
        ensures
            match at {
                Some(i) => i < self.fields@.len() && self.fields@[i as int].name@ == name@,
                None => !field_names(self.fields@).contains(name@),
            },
    {
        let mut i: usize = 0;
        while i < self.fields.len()
            invariant
                i <= self.fields@.len(),
                forall|j: int| 0 <= j < i ==> self.fields@[j].name@ != name@,
            decreases self.fields@.len() - i,
        {
            if str_equal(self.fields[i].name.as_str(), name) {
                return Some(i);
            }
            i += 1;
        }
        None
    }

    /// The value stored under `name`.
    pub fn get(&self, name: &str) -> (value: Option<&JsonValue>)
        ensures
            match value {
                Some(found) => self@.contains_key(name@) && self@[name@] == *found,
                None => !self@.contains_key(name@),
            },
    {
        proof {
            use_type_invariant(self);
        }
        match self.position(name) {
            Some(i) => {
                proof {
                    lemma_field_at(self.fields@, i as int);
                }
                Some(&self.fields[i].value)
            },
            None => None,
        }
    }

    /// The text stored under `field`: `Some` exactly when the record has that
    /// field and its value is a string.
    pub fn text_of(&self, field: &str) -> (text: Option<String>)
        ensures
            match text {
                Some(found) => text_under(self@, field@) == Some(found@),
                None => text_under(self@, field@) is None,
            },
    {
        match self.get(field) {
            Some(JsonValue::Text(found)) => Some(found.clone()),
            _ => None,
        }
    }

    /// Stores `value` under `name`, in place of what was stored there before.
    pub fn insert(&mut self, name: String, value: JsonValue)
        ensures
            final(self)@ == old(self)@.insert(name@, value),
    {
        proof {
            use_type_invariant(&*self);
        }
        let ghost before = self.fields@;
        let ghost key = name@;
        let at = self.position(name.as_str());
        let mut fields: Vec<Field> = Vec::new();
        assert(field_names(fields@) =~= Seq::<Seq<char>>::empty());
        core::mem::swap(&mut self.fields, &mut fields);
        match at {
            Some(i) => {
                fields.set(i, Field { name, value });
                proof {
                    let after = fields@;
                    let names = field_names(before);
                    assert(field_names(after) =~= names);
                    assert(names[i as int] == key);
                    assert(names.contains(key));
                    assert forall|k: Seq<char>| #[trigger]
                        field_map(after).contains_key(k) implies field_map(after)[k]
                        == field_map(before).insert(key, value)[k] by {
                        let found = names.index_of(k);
                        assert(0 <= found < names.len() && names[found] == k);
                        assert(k == key <==> found == i);
                    }
                    assert(field_map(after) =~= field_map(before).insert(key, value));
                }
            },
            None => {
                fields.push(Field { name, value });
                proof {
                    let after = fields@;
                    assert(field_names(after) =~= field_names(before).push(key));
                    assert forall|k: Seq<char>|
                        field_map(before).insert(key, value).contains_key(k) implies #[trigger]
                        field_map(after).contains_key(k) by {
                        if k == key {
                            assert(field_names(after)[before.len() as int] == key);
                        } else {
                            let was = field_names(before).index_of(k);
                            assert(field_names(after)[was] == k);
                        }
                    }
                    assert forall|k: Seq<char>| #[trigger]
                        field_map(after).contains_key(k) implies field_map(after)[k]
                        == field_map(before).insert(key, value)[k] by {
                        let found = field_names(after).index_of(k);
                        if k != key {
                            let was = field_names(before).index_of(k);
                            assert(field_names(before)[found] == k);
                            assert(field_names(after)[was] == k);
                        } else {
                            assert(field_names(after)[before.len() as int] == key);
                        }
                    }
                    assert(field_map(after) =~= field_map(before).insert(key, value));
                }
            },
        }
        core::mem::swap(&mut self.fields, &mut fields);
    }

    /// Gives up the record for its fields.
    pub fn into_fields(self) -> (fields: Vec<Field>)
        ensures
            field_names(fields@).no_duplicates(),
            self@ == field_map(fields@),
    {
        proof {
            use_type_invariant(&self);
        }
        self.fields
    }

    /// The fields, in the order in which their names were first stored.
    pub fn fields(&self) -> (fields: &Vec<Field>)
        ensures
            field_names(fields@).no_duplicates(),
            self@ == field_map(fields@),
    {
        proof {
            use_type_invariant(self);
        }
        &self.fields
    }
}

} // verus!
