use vstd::prelude::*;

verus! {

/// Whom the service should notify about a change to an event.
#[derive(Debug, Clone, Copy, PartialEq, Eq, Structural, Default)]
pub enum SendUpdates {
    #[default]
    All,
    ExternalOnly,
    NoOne,
}

impl SendUpdates {
    /// The wire name of this choice.
    pub open spec fn spec_wire_name(self) -> Seq<char> {
        match self {
            SendUpdates::All => "all"@,
            SendUpdates::ExternalOnly => "externalOnly"@,
            SendUpdates::NoOne => "none"@,
        }
    }

    /// The wire name of this choice, as it appears in a query string.
    pub fn to_string(&self) -> (r: String)
        ensures
            r@ == self.spec_wire_name(),
    {
        let s: &str = match self {
            SendUpdates::All => "all",
            SendUpdates::ExternalOnly => "externalOnly",
            SendUpdates::NoOne => "none",
        };
        s.to_owned()
    }
}

/// The access a user holds on a calendar.
#[derive(Debug, Clone, Copy, PartialEq, Eq, Structural, Default)]
pub enum CalendarAccessRole {
    FreeBusyReader,
    Reader,
    Writer,
    #[default]
    Owner,
}

impl CalendarAccessRole {
    /// The wire name of this role.
    pub open spec fn spec_wire_name(self) -> Seq<char> {
        match self {
            CalendarAccessRole::Owner => "owner"@,
            CalendarAccessRole::Writer => "writer"@,
            CalendarAccessRole::Reader => "reader"@,
            CalendarAccessRole::FreeBusyReader => "freeBusyReader"@,
        }
    }

    /// The wire name of this role, as it appears in a query string.
    pub fn to_str(self) -> (r: &'static str)
        ensures
            r@ == self.spec_wire_name(),
    {
        match self {
            CalendarAccessRole::Owner => "owner",
            CalendarAccessRole::Writer => "writer",
            CalendarAccessRole::Reader => "reader",
            CalendarAccessRole::FreeBusyReader => "freeBusyReader",
        }
    }
}

} // verus!
