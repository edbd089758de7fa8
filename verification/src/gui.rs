//! The view-state of the graphical front end: what the window shows and
//! edits. The rendering itself lives with the adapter; the core only keeps
//! this state coherent.

use vstd::prelude::*;

verus! {

/// The window's state: sealed (asking for the master password) or showing
/// the decrypted entries with edit fields.
pub struct VaultApp {
    pub db_path: String,
    pub sealed: bool,
    pub password: String,
    pub entries: Vec<(String, String)>,
    pub new_name: String,
    pub new_value: String,
    pub error: String,
}

impl VaultApp {
    /// A freshly opened window: sealed, with every field empty.
    pub fn new(db_path: String) -> (r: Self)
        ensures
            r.db_path == db_path,
            r.sealed,
            r.password@.len() == 0,
            r.entries@.len() == 0,
            r.new_name@.len() == 0,
            r.new_value@.len() == 0,
            r.error@.len() == 0,
    {
        Self {
            db_path,
            sealed: true,
            password: String::new(),
            entries: Vec::new(),
            new_name: String::new(),
            new_value: String::new(),
            error: String::new(),
        }
    }

    /// A successful unlock: show the decrypted entries and clear any error.
    /// The password stays in the field, as the window reuses it for writes.
    pub fn unlock_with(&mut self, entries: Vec<(String, String)>)
        ensures
            !final(self).sealed,
            final(self).entries == entries,
            final(self).error@.len() == 0,
            final(self).db_path == old(self).db_path,
            final(self).password == old(self).password,
            final(self).new_name == old(self).new_name,
            final(self).new_value == old(self).new_value,
    {
        self.entries = entries;
        self.sealed = false;
        self.error = String::new();
    }

    /// A failed unlock: stay sealed and show the message.
    pub fn unlock_failed(&mut self, message: String)
        ensures
            final(self).sealed == old(self).sealed,
            final(self).error == message,
            final(self).db_path == old(self).db_path,
            final(self).password == old(self).password,
            final(self).entries == old(self).entries,
    {
        self.error = message;
    }

    /// Lock the window: seal and discard the password, the shown entries
    /// and any half-typed input.
    pub fn lock(&mut self)
        ensures
            final(self).sealed,
            final(self).password@.len() == 0,
            final(self).entries@.len() == 0,
            final(self).new_name@.len() == 0,
            final(self).new_value@.len() == 0,
            final(self).db_path == old(self).db_path,
    {
        self.sealed = true;
        self.password = String::new();
        self.entries = Vec::new();
        self.new_name = String::new();
        self.new_value = String::new();
    }

    /// One shown entry was deleted from the store: drop that row.
    pub fn remove_entry_at(&mut self, idx: usize)
        requires
            idx < old(self).entries@.len(),
        ensures
            final(self).entries@ == old(self).entries@.remove(idx as int),
            final(self).sealed == old(self).sealed,
            final(self).db_path == old(self).db_path,
            final(self).password == old(self).password,
    {
        self.entries.remove(idx);
    }

    /// A new entry was written to the store: show it and clear the input
    /// fields.
    pub fn record_added(&mut self, name: String, value: String)
        ensures
            final(self).entries@ == old(self).entries@.push((name, value)),
            final(self).new_name@.len() == 0,
            final(self).new_value@.len() == 0,
            final(self).sealed == old(self).sealed,
            final(self).db_path == old(self).db_path,
            final(self).password == old(self).password,
    {
        self.entries.push((name, value));
        self.new_name = String::new();
        self.new_value = String::new();
    }
}

} // verus!
