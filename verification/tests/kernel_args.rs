use init_stage_1::error::{Error, ErrorClass, RequiredKey};
use init_stage_1::kernel_args::Args;

#[test]
fn parses_both_required_keys() {
    let args = Args::parse("system_partition=UUID=1111 user_partition=UUID=2222").unwrap();
    assert_eq!(args.system_data_partition, "UUID=1111");
    assert_eq!(args.user_data_partition, "UUID=2222");
}

#[test]
fn values_are_taken_as_they_stand() {
    let args = Args::parse("user_partition=a=b=c system_partition=").unwrap();
    assert_eq!(args.user_data_partition, "a=b=c");
    assert_eq!(args.system_data_partition, "");
}

#[test]
fn keys_may_stand_in_any_order_among_other_words() {
    let line = "console=ttyS0 user_partition=UUID=2222 quiet  root=/dev/ram0\tsystem_partition=UUID=1111 rw";
    let args = Args::parse(line).unwrap();
    assert_eq!(args.system_data_partition, "UUID=1111");
    assert_eq!(args.user_data_partition, "UUID=2222");
}

#[test]
fn last_duplicate_key_wins() {
    let args = Args::parse("system_partition=A system_partition=B user_partition=C").unwrap();
    assert_eq!(args.system_data_partition, "B");
    assert_eq!(args.user_data_partition, "C");
}

#[test]
fn last_duplicate_wins_for_the_user_partition_too() {
    let args = Args::parse("user_partition=1 system_partition=S user_partition=2 user_partition=3")
        .unwrap();
    assert_eq!(args.user_data_partition, "3");
    assert_eq!(args.system_data_partition, "S");
}

#[test]
fn words_without_equals_sign_are_passed_over() {
    let args = Args::parse("system_partition user_partition system_partition=S user_partition=U")
        .unwrap();
    assert_eq!(args.system_data_partition, "S");
    assert_eq!(args.user_data_partition, "U");
}

#[test]
fn a_key_is_the_whole_text_before_the_first_equals_sign() {
    let r = Args::parse("xsystem_partition=S system_partitionx=S user_partition=U =system_partition");
    assert_eq!(r, Err(Error::MissingKey { key: RequiredKey::SystemPartition }));
}

#[test]
fn missing_system_partition_is_named() {
    match Args::parse("quiet user_partition=UUID=2222") {
        Err(Error::MissingKey { key }) => {
            assert_eq!(key, RequiredKey::SystemPartition);
            assert_eq!(key.name(), "system_partition");
        }
        other => panic!("unexpected: {:?}", other),
    }
}

#[test]
fn missing_user_partition_is_named() {
    let e = Args::parse("system_partition=UUID=1111").unwrap_err();
    assert_eq!(e, Error::MissingKey { key: RequiredKey::UserPartition });
    assert_eq!(e.message(), "missing kernel argument: user_partition");
    assert_eq!(e.class(), ErrorClass::Input);
}

#[test]
fn empty_command_line_names_the_system_partition_first() {
    assert_eq!(Args::parse(""), Err(Error::MissingKey { key: RequiredKey::SystemPartition }));
    assert_eq!(Args::parse(" \t\n"), Err(Error::MissingKey { key: RequiredKey::SystemPartition }));
}

#[test]
fn unicode_whitespace_separates_words() {
    let args = Args::parse("system_partition=S\u{3000}user_partition=U\u{a0}x").unwrap();
    assert_eq!(args.system_data_partition, "S");
    assert_eq!(args.user_data_partition, "U");
}

#[test]
fn parse_agrees_with_a_map_filled_in_order() {
    let lines = [
        "system_partition=A user_partition=B",
        "a=1 system_partition=UUID=x b user_partition=UUID=y system_partition=UUID=z",
        "user_partition=é system_partition=ü=ö",
        "  user_partition==  system_partition===  ",
    ];
    for line in lines {
        let mut map = std::collections::BTreeMap::new();
        for word in line.split_whitespace() {
            if let Some((k, v)) = word.split_once("=") {
                map.insert(k, v);
            }
        }
        let args = Args::parse(line).unwrap();
        assert_eq!(args.system_data_partition, map["system_partition"]);
        assert_eq!(args.user_data_partition, map["user_partition"]);
    }
}

#[test]
fn uuid_prefix_is_stripped_before_use() {
    let args = Args::parse("system_partition=UUID=1111 user_partition=2222").unwrap();
    assert_eq!(args.system_partition_uuid(), "1111");
    assert_eq!(args.user_partition_uuid(), "2222");
    assert_eq!(args.system_data_partition, "UUID=1111");
}

#[test]
fn repeated_uuid_prefix_is_stripped_each_time() {
    let args = Args::parse("system_partition=UUID=UUID=ab user_partition=UUID=").unwrap();
    assert_eq!(args.system_partition_uuid(), "ab");
    assert_eq!(args.user_partition_uuid(), "");
    assert_eq!(args.system_partition_uuid(), "UUID=UUID=ab".trim_start_matches("UUID="));
}
