//! The program's own version data, displayed by a few commands.

use vstd::prelude::*;

verus! {

/// Stores the REM data.
pub struct RemData {
    recent_version: String,
    edit_date: String,
    morning: bool,
}

/// The mathematical content of a `RemData`.
#[verifier::ext_equal]
pub struct RemDataV {
    pub recent_version: Seq<char>,
    pub edit_date: Seq<char>,
    pub morning: bool,
}

impl View for RemData {
    type V = RemDataV;

    closed spec fn view(&self) -> RemDataV {
        RemDataV {
            recent_version: self.recent_version@,
            edit_date: self.edit_date@,
            morning: self.morning,
        }
    }
}

/// The one-line rendering of the data.
pub open spec fn remdata_display(d: RemDataV) -> Seq<char> {
    "R: v"@ + d.recent_version + ", E: "@ + d.edit_date + ", M: "@ + (if d.morning {
        "[success]"@
    } else {
        "[failure]"@
    })
}

impl RemData {
    /// Create a new RemData.
    pub fn new(recent_version: &str, edit_date: &str, morning: bool) -> (r: RemData)
        ensures
            r@ == (RemDataV { recent_version: recent_version@, edit_date: edit_date@, morning }),
    {
        RemData {
            recent_version: recent_version.to_owned(),
            edit_date: edit_date.to_owned(),
            morning,
        }
    }

    /// Represent the data as a one-line string.
    pub fn to_string(&self) -> (r: String)
        ensures
            r@ == remdata_display(self@),
    {
        let mut r = String::from_str("R: v");
        r.append(self.recent_version.as_str());
        r.append(", E: ");
        r.append(self.edit_date.as_str());
        r.append(", M: ");
        if self.morning {
            r.append("[success]");
        } else {
            r.append("[failure]");
        }
        r
    }

    /// An identical copy.
    pub fn clone(&self) -> (r: RemData)
        ensures
            r@ == self@,
    {
        RemData {
            recent_version: self.recent_version.clone(),
            edit_date: self.edit_date.clone(),
            morning: self.morning,
        }
    }

    /// Get the recent version.
    pub fn get_r(&self) -> (r: String)
        ensures
            r@ == self@.recent_version,
    {
        self.recent_version.clone()
    }

    /// Get the edit date.
    pub fn get_e(&self) -> (r: String)
        ensures
            r@ == self@.edit_date,
    {
        self.edit_date.clone()
    }

    /// Get the morning value.
    pub fn get_m(&self) -> (r: bool)
        ensures
            r == self@.morning,
    {
        self.morning
    }
}

} // verus!
