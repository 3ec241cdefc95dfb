use vstd::prelude::*;
use crate::store::Todo;
use crate::text::chars_of;

verus! {

#[verifier::external_type_specification]
#[verifier::external_body]
pub struct ExYamlError(serde_yaml::Error);

/// Why a document could not be read back as a task list.
pub enum StoreError {
    /// The text is not YAML, or not a single `tasks` key holding a list of strings.
    Format,
}

/// The text that the YAML emitter writes for a mapping with the single entry `key: items`.
pub uninterp spec fn yaml_single_entry(key: Seq<char>, items: Seq<Seq<char>>) -> Seq<char>;

/// The entries, in key order, of `text` read as a YAML mapping from strings to
/// lists of strings, or `None` where it is not one.
pub uninterp spec fn yaml_string_lists(text: Seq<char>) -> Option<Seq<(Seq<char>, Seq<Seq<char>>)>>;

/// The characters of each string.
pub open spec fn strings_view(v: Seq<String>) -> Seq<Seq<char>> {
    v.map_values(|s: String| s@)
}

/// Each entry as its key's characters and its strings' characters.
pub open spec fn entries_view(v: Seq<(String, Vec<String>)>) -> Seq<(Seq<char>, Seq<Seq<char>>)> {
    v.map_values(|e: (String, Vec<String>)| (e.0@, strings_view(e.1@)))
}

/// Relies on `serde_yaml::to_string` of a one-entry `BTreeMap` from a string
/// to a list of strings: such a value has no bytes, tags or nested enums, which
/// are what its serializer refuses, so it succeeds, and the text is a function
/// of the key and the items.
#[verifier::external_body]
fn emit_single_entry(key: &str, items: &Vec<String>) -> (r: Result<String, serde_yaml::Error>)
    ensures
        r is Ok,
        r matches Ok(t) ==> t@ == yaml_single_entry(key@, strings_view(items@)),
{
    serde_yaml::to_string(&std::collections::BTreeMap::from([(key, items)]))
}

/// Relies on `serde_yaml::from_str` into a `BTreeMap<String, Vec<String>>`:
/// whether it succeeds, and the entries it yields, depend on the text alone.
#[verifier::external_body]
fn parse_string_lists(text: &str) -> (r: Result<Vec<(String, Vec<String>)>, serde_yaml::Error>)
    ensures
        r is Ok <==> yaml_string_lists(text@) is Some,
        r matches Ok(v) ==> entries_view(v@) == yaml_string_lists(text@)->0,
{
    match serde_yaml::from_str::<std::collections::BTreeMap<String, Vec<String>>>(text) {
        Ok(m) => Ok(m.into_iter().collect()),
        Err(e) => Err(e),
    }
}

/// The key under which the document holds the tasks.
pub open spec fn tasks_key() -> Seq<char> {
    seq!['t', 'a', 's', 'k', 's']
}

/// The tasks that a document's entries hold: there must be exactly one
/// entry, keyed `tasks`.
pub open spec fn tasks_of_entries(e: Seq<(Seq<char>, Seq<Seq<char>>)>) -> Option<Seq<Seq<char>>> {
    if e.len() == 1 && e[0].0 == tasks_key() {
        Some(e[0].1)
    } else {
        None
    }
}

/// The tasks that a saved document holds, or `None` where it is malformed.
pub open spec fn document_tasks(text: Seq<char>) -> Option<Seq<Seq<char>>> {
    match yaml_string_lists(text) {
        Some(e) => tasks_of_entries(e),
        None => None,
    }
}

/// The document that saving `tasks` writes.
pub open spec fn document_text(tasks: Seq<Seq<char>>) -> Seq<char> {
    yaml_single_entry(tasks_key(), tasks)
}

/// The one entry that saving hands to the emitter, keyed `tasks`, is a shape
/// that the check on parsed entries accepts, and that check yields the same
/// tasks, in order. This speaks of the entries only, not of the YAML text
/// between emitter and parser.
pub proof fn document_shape_round_trip(tasks: Seq<Seq<char>>)
    ensures
        tasks_of_entries(seq![(tasks_key(), tasks)]) == Some(tasks),
{
}

/// Builds the task list from the entries of a parsed document.
pub fn tasks_from_entries(entries: Vec<(String, Vec<String>)>) -> (r: Result<Todo, StoreError>)
    ensures
        match tasks_of_entries(entries_view(entries@)) {
            Some(s) => r matches Ok(t) && t@ == s,
            None => r matches Err(StoreError::Format),
        },
{
    let ghost ev = entries_view(entries@);
    if entries.len() != 1 {
        return Err(StoreError::Format);
    }
    let key = chars_of(entries[0].0.as_str());
    assert(key@ == ev[0].0);
    if !(key.len() == 5 && key[0] == 't' && key[1] == 'a' && key[2] == 's' && key[3] == 'k'
        && key[4] == 's') {
        return Err(StoreError::Format);
    }
    assert(key@ =~= tasks_key());
    let mut entries = entries;
    match entries.pop() {
        Some(e) => {
            let t = Todo { tasks: e.1 };
            assert(t@ =~= ev[0].1);
            Ok(t)
        },
        None => Err(StoreError::Format),
    }
}

impl Todo {
    /// Renders the list as a YAML document with a single `tasks` key.
    pub fn save_tasks(&self) -> (r: String)
        ensures
            r@ == document_text(self@),
    {
        let key = "tasks";
        proof {
            reveal_strlit("tasks");
        }
        assert(key@ =~= tasks_key());
        assert(strings_view(self.tasks@) =~= self@);
        match emit_single_entry(key, &self.tasks) {
            Ok(t) => t,
            Err(_) => {
                assert(false);
                String::new()
            },
        }
    }

    /// Reads a list back from a YAML document with a single `tasks` key
    /// holding a list of strings.
    pub fn load_tasks(text: &str) -> (r: Result<Todo, StoreError>)
        ensures
            match document_tasks(text@) {
                Some(s) => r matches Ok(t) && t@ == s,
                None => r matches Err(StoreError::Format),
            },
    {
        match parse_string_lists(text) {
            Ok(entries) => tasks_from_entries(entries),
            Err(_) => Err(StoreError::Format),
        }
    }

    /// The list to start with: empty where there is no saved document, the
    /// saved tasks where it reads back, and otherwise empty with `true` to
    /// ask for a warning.
    pub fn load_or_empty(text: Option<&str>) -> (r: (Todo, bool))
        ensures
            text is None ==> r.0@ == Seq::<Seq<char>>::empty() && !r.1,
            text matches Some(t) ==> match document_tasks(t@) {
                Some(s) => r.0@ == s && !r.1,
                None => r.0@ == Seq::<Seq<char>>::empty() && r.1,
            },
    {
        match text {
            None => (Todo::new(), false),
            Some(t) => match Todo::load_tasks(t) {
                Ok(todo) => (todo, false),
                Err(_) => (Todo::new(), true),
            },
        }
    }
}

} // verus!
