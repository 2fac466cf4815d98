//! The data of a todo list: the record of one todo, the states a todo goes through,
//! and what is done with a todo that is deleted.

use vstd::prelude::*;
use crate::levenshtein::{edit_distance, levenshtein};
use crate::split::{fields, split_fields};
use crate::text::{chars_of, push_all, string_of, views};

verus! {

/// Where a todo stands. Each state has a file of its own, which holds the todos in
/// that state.
#[derive(Clone, Copy, Debug, PartialEq, Eq, Structural)]
pub enum TodoState {
    Open,
    Done,
    Deleted,
}

impl TodoState {
    /// The name of the file that holds the todos in this state.
    pub open spec fn file_name_text(self) -> Seq<char> {
        match self {
            TodoState::Open => ".todo.todo"@,
            TodoState::Done => ".todo.finished"@,
            TodoState::Deleted => ".todo.deleted"@,
        }
    }

    /// The name of the file that holds the todos in this state.
    pub fn file_name(&self) -> (r: String)
        ensures
            r@ == self.file_name_text(),
    {
        match self {
            TodoState::Open => String::from_str(".todo.todo"),
            TodoState::Done => String::from_str(".todo.finished"),
            TodoState::Deleted => String::from_str(".todo.deleted"),
        }
    }
}

/// What is done with a todo that is deleted: it is marked as deleted, that is moved
/// to the file of deleted todos, or it is deleted for good.
#[derive(Clone, Copy, Debug, PartialEq, Eq, Structural)]
pub enum DeletionMethod {
    Mark,
    Delete,
}

impl DeletionMethod {
    /// The word that stands for this method in the config.
    pub open spec fn token_text(self) -> Seq<char> {
        match self {
            DeletionMethod::Mark => "keep"@,
            DeletionMethod::Delete => "discard"@,
        }
    }

    /// The method whose word is nearest to `value` by Levenshtein distance; `Mark`
    /// where both are equally near.
    pub open spec fn nearest(value: Seq<char>) -> DeletionMethod {
        if levenshtein(value, "keep"@) <= levenshtein(value, "discard"@) {
            DeletionMethod::Mark
        } else {
            DeletionMethod::Delete
        }
    }

    /// The word that stands for this method in the config.
    pub fn token(&self) -> (r: String)
        ensures
            r@ == self.token_text(),
    {
        match self {
            DeletionMethod::Mark => String::from_str("keep"),
            DeletionMethod::Delete => String::from_str("discard"),
        }
    }

    /// The method that `value` most likely means.
    pub fn closest_to(value: &str) -> (r: DeletionMethod)
        ensures
            r == DeletionMethod::nearest(value@),
    {
        if edit_distance(value, "keep") <= edit_distance(value, "discard") {
            DeletionMethod::Mark
        } else {
            DeletionMethod::Delete
        }
    }
}

/// The mathematical value of a [`Todo`]: its six fields as texts.
pub struct Record {
    pub owner_name: Seq<char>,
    pub description: Seq<char>,
    pub due_date: Seq<char>,
    pub due_time: Seq<char>,
    pub created_time: Seq<char>,
    pub created_date: Seq<char>,
}

/// The field at `index`, or the empty text where the line has fewer fields.
pub open spec fn field_or_empty(fields: Seq<Seq<char>>, index: int) -> Seq<char> {
    if 0 <= index < fields.len() {
        fields[index]
    } else {
        Seq::empty()
    }
}

impl Record {
    /// The line that stores the record: its fields in order, a tab between each two.
    pub open spec fn line(self) -> Seq<char> {
        self.owner_name.push('\t') + self.description.push('\t') + self.due_date.push('\t')
            + self.due_time.push('\t') + self.created_time.push('\t') + self.created_date
    }

    /// The record that a line stores: field by field, what stands between the tabs.
    pub open spec fn of_line(line: Seq<char>) -> Record {
        let parts = fields(line, '\t');
        Record {
            owner_name: field_or_empty(parts, 0),
            description: field_or_empty(parts, 1),
            due_date: field_or_empty(parts, 2),
            due_time: field_or_empty(parts, 3),
            created_time: field_or_empty(parts, 4),
            created_date: field_or_empty(parts, 5),
        }
    }
}

/// One todo.
#[derive(Debug)]
pub struct Todo {
    pub owner_name: String,
    pub description: String,
    pub due_date: String,
    pub due_time: String,
    pub created_time: String,
    pub created_date: String,
}

impl View for Todo {
    type V = Record;

    open spec fn view(&self) -> Record {
        Record {
            owner_name: self.owner_name@,
            description: self.description@,
            due_date: self.due_date@,
            due_time: self.due_time@,
            created_time: self.created_time@,
            created_date: self.created_date@,
        }
    }
}

fn field_at(parts: &Vec<Vec<char>>, index: usize) -> (r: String)
    ensures
        r@ == field_or_empty(views(parts@), index as int),
{
    if index < parts.len() {
        string_of(&parts[index])
    } else {
        String::new()
    }
}

impl Todo {
    pub fn new(
        owner_name: String,
        description: String,
        due_date: String,
        due_time: String,
        created_time: String,
        created_date: String,
    ) -> (r: Todo)
        ensures
            r.owner_name == owner_name,
            r.description == description,
            r.due_date == due_date,
            r.due_time == due_time,
            r.created_time == created_time,
            r.created_date == created_date,
    {
        Todo { owner_name, description, due_date, due_time, created_time, created_date }
    }

    /// The line that stores this todo.
    pub fn to_line(&self) -> (r: String)
        ensures
            r@ == self@.line(),
    {
        let mut out: Vec<char> = Vec::new();
        push_all(&mut out, &chars_of(self.owner_name.as_str()));
        out.push('\t');
        push_all(&mut out, &chars_of(self.description.as_str()));
        out.push('\t');
        push_all(&mut out, &chars_of(self.due_date.as_str()));
        out.push('\t');
        push_all(&mut out, &chars_of(self.due_time.as_str()));
        out.push('\t');
        push_all(&mut out, &chars_of(self.created_time.as_str()));
        out.push('\t');
        push_all(&mut out, &chars_of(self.created_date.as_str()));
        assert(out@ == self@.line());
        string_of(&out)
    }

    /// The todo that `line` stores.
    pub fn from_line(line: &str) -> (r: Todo)
        ensures
            r@ == Record::of_line(line@),
    {
        let parts = split_fields(&chars_of(line), '\t');
        Todo {
            owner_name: field_at(&parts, 0),
            description: field_at(&parts, 1),
            due_date: field_at(&parts, 2),
            due_time: field_at(&parts, 3),
            created_time: field_at(&parts, 4),
            created_date: field_at(&parts, 5),
        }
    }
}

} // verus!
