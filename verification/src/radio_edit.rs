//! The Radio page's per-field edit flow. Only one field is in flight at a
//! time: the pencil opens the confirm popup, confirming unlocks the typed
//! input, and the check or the x commits or discards it.

use vstd::prelude::*;

verus! {

/// Per-field edit flow on the Radio page, over the page's typed value `V`.
#[derive(Clone, Debug)]
pub enum RadioEdit<V> {
    /// No field is being edited.
    Idle,
    /// The confirm popup is open for this field (Edit / Cancel).
    Confirm { section: String, key: String },
    /// The field is unlocked with a typed input plus a check and an x.
    Active { section: String, key: String, val: V },
}

impl<V> Default for RadioEdit<V> {
    fn default() -> (r: Self)
        ensures
            r is Idle,
    {
        RadioEdit::Idle
    }
}

impl<V> RadioEdit<V> {
    /// The pencil on a field: ask before unlocking it. Any other field in
    /// flight is dropped, so only one is ever open.
    pub fn ask(section: String, key: String) -> (r: Self)
        ensures
            r matches RadioEdit::Confirm { section: s, key: k } && s == section && k == key,
    {
        RadioEdit::Confirm { section, key }
    }

    /// Confirming the popup unlocks the field with its current value; from
    /// any other state there is nothing to unlock and nothing changes.
    pub fn confirm(self, val: V) -> (r: Self)
        ensures
            match self {
                RadioEdit::Confirm { section, key } => r matches RadioEdit::Active {
                    section: s,
                    key: k,
                    val: v,
                } && s == section && k == key && v == val,
                _ => r == self,
            },
    {
        match self {
            RadioEdit::Confirm { section, key } => RadioEdit::Active { section, key, val },
            other => other,
        }
    }

    /// Whether this field (`section`, `key`) is the one in flight.
    pub fn is_for(&self, section: &str, key: &str) -> (r: bool)
        ensures
            r == match self {
                RadioEdit::Idle => false,
                RadioEdit::Confirm { section: s, key: k } => s@ == section@ && k@ == key@,
                RadioEdit::Active { section: s, key: k, .. } => s@ == section@ && k@ == key@,
            },
    {
        match self {
            RadioEdit::Idle => false,
            RadioEdit::Confirm { section: s, key: k } => str_eq(s.as_str(), section) && str_eq(
                k.as_str(),
                key,
            ),
            RadioEdit::Active { section: s, key: k, .. } => str_eq(s.as_str(), section) && str_eq(
                k.as_str(),
                key,
            ),
        }
    }
}

/// Whether two strings hold the same characters.
pub fn str_eq(a: &str, b: &str) -> (r: bool)
    ensures
        r == (a@ == b@),
{
    let n = a.unicode_len();
    if n != b.unicode_len() {
        return false;
    }
    let mut i: usize = 0;
    while i < n
        invariant
            n == a@.len() == b@.len(),
            i <= n,
            forall|j: int| 0 <= j < i ==> a@[j] == b@[j],
        decreases n - i,
    {
        if a.get_char(i) != b.get_char(i) {
            return false;
        }
        i = i + 1;
    }
    assert(a@ =~= b@);
    true
}

} // verus!
