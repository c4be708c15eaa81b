use gcal::{CalendarAccessRole, SendUpdates};

#[test]
fn access_role_wire_names() {
    assert_eq!(CalendarAccessRole::Owner.to_str(), "owner");
    assert_eq!(CalendarAccessRole::Writer.to_str(), "writer");
    assert_eq!(CalendarAccessRole::Reader.to_str(), "reader");
    assert_eq!(CalendarAccessRole::FreeBusyReader.to_str(), "freeBusyReader");
}

#[test]
fn access_role_defaults_to_owner() {
    assert_eq!(CalendarAccessRole::default(), CalendarAccessRole::Owner);
}

#[test]
fn send_updates_wire_names() {
    assert_eq!(SendUpdates::All.to_string(), "all");
    assert_eq!(SendUpdates::ExternalOnly.to_string(), "externalOnly");
    assert_eq!(SendUpdates::NoOne.to_string(), "none");
    assert_eq!(SendUpdates::default(), SendUpdates::All);
}
