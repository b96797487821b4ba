use crate::text::eq_ignoring_case;
use crate::text::same_ignoring_case;
use vstd::prelude::*;
use vstd::string::*;

verus! {

/// Shape of the cutting tool: a full disc, or a ring swept by a blade.
#[derive(Debug, Clone, Copy, PartialEq, Eq, Structural)]
pub enum CutterType {
    Blade,
    Circular,
}

impl CutterType {
    /// The name of the cutter type.
    pub open spec fn name(self) -> Seq<char> {
        match self {
            CutterType::Circular => "circular"@,
            CutterType::Blade => "blade"@,
        }
    }

    /// The name of the cutter type.
    pub fn as_str(&self) -> (s: &str)
        ensures
            s@ == self.name(),
    {
        match self {
            CutterType::Circular => "circular",
            CutterType::Blade => "blade",
        }
    }

    /// The cutter type whose name is `s`, the case of letters aside.
    pub open spec fn named(s: Seq<char>) -> Option<CutterType> {
        if same_ignoring_case(s, CutterType::Circular.name()) {
            Some(CutterType::Circular)
        } else if same_ignoring_case(s, CutterType::Blade.name()) {
            Some(CutterType::Blade)
        } else {
            None
        }
    }

    /// The cutter type of the given name, the case of letters aside.
    pub fn from_name(s: &str) -> (cutter: Option<CutterType>)
        ensures
            cutter == CutterType::named(s@),
    {
        if eq_ignoring_case(s, "circular") {
            Some(CutterType::Circular)
        } else if eq_ignoring_case(s, "blade") {
            Some(CutterType::Blade)
        } else {
            None
        }
    }
}

impl std::str::FromStr for CutterType {
    type Err = String;

    /// The cutter type of the given name, the case of letters aside, or a
    /// message that tells the name where it is the name of no cutter type.
    fn from_str(s: &str) -> (cutter: Result<Self, String>)
        ensures
            match cutter {
                Ok(found) => CutterType::named(s@) == Some(found),
                Err(message) => CutterType::named(s@) is None && message@
                    == "Invalid cutter type: "@ + s@,
            },
    {
        match CutterType::from_name(s) {
            Some(cutter) => Ok(cutter),
            None => Err("Invalid cutter type: ".to_owned().concat(s)),
        }
    }
}

} // verus!
