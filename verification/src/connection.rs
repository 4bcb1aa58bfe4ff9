//! The connection profile record and its mathematical value.

use vstd::prelude::*;

verus! {

/// The value of a [`Connection`]: each field as a sequence of characters.
pub struct ConnectionView {
    pub id: Seq<char>,
    pub organization: Seq<char>,
    pub project: Seq<char>,
    pub base_url: Seq<char>,
    pub label: Option<Seq<char>>,
    pub auth_method: Seq<char>,
}

/// Profile metadata of one remote-service connection. It never holds the
/// secret; `id` is the key under which both the profile and its secret are
/// stored.
#[derive(Debug, PartialEq, Eq)]
pub struct Connection {
    pub id: String,
    pub organization: String,
    pub project: String,
    pub base_url: String,
    pub label: Option<String>,
    pub auth_method: String,
}

/// The value of an optional text.
pub open spec fn text_view(text: Option<String>) -> Option<Seq<char>> {
    match text {
        Some(s) => Some(s@),
        None => None,
    }
}

impl View for Connection {
    type V = ConnectionView;

    open spec fn view(&self) -> ConnectionView {
        ConnectionView {
            id: self.id@,
            organization: self.organization@,
            project: self.project@,
            base_url: self.base_url@,
            label: text_view(self.label),
            auth_method: self.auth_method@,
        }
    }
}

impl Clone for Connection {
    fn clone(&self) -> (copy: Self)
        ensures
            copy@ == self@,
    {
        let label = match &self.label {
            Some(s) => Some(s.clone()),
            None => None,
        };
        Connection {
            id: self.id.clone(),
            organization: self.organization.clone(),
            project: self.project.clone(),
            base_url: self.base_url.clone(),
            label,
            auth_method: self.auth_method.clone(),
        }
    }
}

/// The values of a sequence of records, in the same order.
pub open spec fn views(records: Seq<Connection>) -> Seq<ConnectionView> {
    records.map_values(|c: Connection| c@)
}

/// Copies a collection record by record.
pub fn clone_all(records: &Vec<Connection>) -> (copy: Vec<Connection>)
    ensures
        views(copy@) == views(records@),
{
    let mut copy: Vec<Connection> = Vec::new();
    let mut i: usize = 0;
    while i < records.len()
        invariant
            i <= records.len(),
            copy@.len() == i,
            forall|j: int| 0 <= j < i ==> (#[trigger] copy@[j])@ == records@[j]@,
        decreases records.len() - i,
    {
        copy.push(records[i].clone());
        i += 1;
    }
    assert(views(copy@) =~= views(records@));
    copy
}

} // verus!
