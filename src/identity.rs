use vstd::prelude::*;

verus! {

/// A partial change to an identity record: each field that is present replaces
/// the stored one.
#[derive(Debug)]
pub struct IdentityUpdate {
    pub name: Option<String>,
    pub age: Option<u8>,
}

impl IdentityUpdate {
    /// An update is acceptable when it changes at least one field.
    pub open spec fn changes_something(&self) -> bool {
        self.name.is_some() || self.age.is_some()
    }

    /// Rejects an update that carries neither a name nor an age.
    pub fn validate(&self) -> (r: Result<(), String>)
        ensures
            r.is_ok() == self.changes_something(),
            r matches Err(m) ==> m@ == "Either age or name must be provided."@,
    {
        if self.age.is_none() && self.name.is_none() {
            Err("Either age or name must be provided.".to_string())
        } else {
            Ok(())
        }
    }
}

} // verus!
