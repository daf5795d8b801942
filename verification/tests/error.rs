use init_stage_1::error::{Error, ErrorClass, RequiredKey};
use init_stage_1::sys::Reply;

#[test]
fn required_keys_have_their_names() {
    assert_eq!(RequiredKey::SystemPartition.name(), "system_partition");
    assert_eq!(RequiredKey::UserPartition.name(), "user_partition");
}

#[test]
fn every_error_has_its_message() {
    assert_eq!(
        Error::MissingKey { key: RequiredKey::SystemPartition }.message(),
        "missing kernel argument: system_partition"
    );
    assert_eq!(Error::InteriorNul.message(), "nul byte found in provided data");
    assert_eq!(
        Error::BackingFileNotFound { path: "/a/b".to_string() }.message(),
        "Backing file not found: /a/b"
    );
    assert_eq!(Error::PartitionNotFound { uuid: "12-34".to_string() }.message(), "UUID 12-34 not found");
    assert_eq!(
        Error::NewRootNotFound { path: "/system".to_string() }.message(),
        "new root /system does not exist"
    );
    assert_eq!(Error::Os { code: 2 }.message(), "os error 2");
    assert_eq!(Error::Os { code: -5 }.message(), "os error -5");
    assert_eq!(Error::UnexpectedReply.message(), "reply does not answer the pending request");
}

#[test]
fn every_error_has_its_class() {
    assert_eq!(Error::MissingKey { key: RequiredKey::UserPartition }.class(), ErrorClass::Input);
    assert_eq!(Error::InteriorNul.class(), ErrorClass::Input);
    assert_eq!(Error::BackingFileNotFound { path: String::new() }.class(), ErrorClass::NotFound);
    assert_eq!(Error::PartitionNotFound { uuid: String::new() }.class(), ErrorClass::NotFound);
    assert_eq!(Error::NewRootNotFound { path: String::new() }.class(), ErrorClass::NotFound);
    assert_eq!(Error::Os { code: 1 }.class(), ErrorClass::Os);
    assert_eq!(Error::UnexpectedReply.class(), ErrorClass::Protocol);
}

#[test]
fn completion_reads_zero_as_success() {
    assert_eq!(Reply::Done.completion(), Ok(()));
    assert_eq!(Reply::Returned { value: 0, errno: 11 }.completion(), Ok(()));
    assert_eq!(Reply::Returned { value: -1, errno: 11 }.completion(), Err(Error::Os { code: 11 }));
    assert_eq!(Reply::Returned { value: 1, errno: 12 }.completion(), Err(Error::Os { code: 12 }));
    assert_eq!(
        Reply::Failed { error: Error::InteriorNul }.completion(),
        Err(Error::InteriorNul)
    );
    assert_eq!(Reply::Exists { exists: true }.completion(), Err(Error::UnexpectedReply));
    assert_eq!(Reply::Text { contents: String::new() }.completion(), Err(Error::UnexpectedReply));
    assert_eq!(Reply::Uevents { entries: Vec::new() }.completion(), Err(Error::UnexpectedReply));
}

#[test]
fn control_value_reads_negative_as_failure() {
    assert_eq!(Reply::Returned { value: 0, errno: 9 }.control_value(), Ok(0));
    assert_eq!(Reply::Returned { value: 12, errno: 9 }.control_value(), Ok(12));
    assert_eq!(Reply::Returned { value: -1, errno: 9 }.control_value(), Err(Error::Os { code: 9 }));
    assert_eq!(Reply::Done.control_value(), Err(Error::UnexpectedReply));
    assert_eq!(
        Reply::Failed { error: Error::Os { code: 4 } }.control_value(),
        Err(Error::Os { code: 4 })
    );
}

#[test]
fn existence_and_text_read_their_replies() {
    assert_eq!(Reply::Exists { exists: true }.existence(), Ok(true));
    assert_eq!(Reply::Exists { exists: false }.existence(), Ok(false));
    assert_eq!(Reply::Done.existence(), Err(Error::UnexpectedReply));
    assert_eq!(
        Reply::Failed { error: Error::Os { code: 13 } }.existence(),
        Err(Error::Os { code: 13 })
    );
    assert_eq!(Reply::Text { contents: "x".to_string() }.text(), Ok("x".to_string()));
    assert_eq!(Reply::Done.text(), Err(Error::UnexpectedReply));
    assert_eq!(Reply::Failed { error: Error::Os { code: 2 } }.text(), Err(Error::Os { code: 2 }));
}
