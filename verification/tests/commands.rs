use eventstore::commands::{
    authorization_value, basic_auth, convert_expected_version, convert_settings_create,
    convert_settings_update, join_credentials, Credentials, ExpectedStreamRevision, Filter,
    FilterConf, Window,
};
use eventstore::event_store::client::persistent::{create_req, update_req};
use eventstore::internal::commands::{Roles, RolesForm, StreamAclInternal};
use eventstore::types::{
    ExpectedVersion, PersistentSubscriptionSettings, StreamAcl, SystemConsumerStrategy,
};
use std::time::Duration;

#[test]
fn a_filter_on_stream_names_starts_empty() {
    let options = FilterConf::based_on_stream_name().into_proto();
    assert_eq!(options.checkpoint_interval_multiplier, 1);
    assert!(matches!(options.window, Some(Window::Count)));
    match options.filter {
        Some(Filter::StreamIdentifier(expr)) => {
            assert_eq!(expr.regex, "");
            assert!(expr.prefix.is_empty());
        }
        other => panic!("unexpected filter {:?}", other),
    }
}

#[test]
fn a_filter_on_event_types_starts_empty() {
    let options = FilterConf::based_on_event_type().into_proto();
    assert!(matches!(options.window, Some(Window::Count)));
    match options.filter {
        Some(Filter::EventType(expr)) => {
            assert_eq!(expr.regex, "");
            assert!(expr.prefix.is_empty());
        }
        other => panic!("unexpected filter {:?}", other),
    }
}

#[test]
fn a_filter_keeps_what_it_is_given() {
    let options = FilterConf::based_on_event_type()
        .max(7)
        .regex("^a".to_string())
        .add_prefix("x-".to_string())
        .max(9)
        .add_prefix("y-".to_string())
        .regex("^b".to_string())
        .into_proto();
    assert!(matches!(options.window, Some(Window::Max(9))));
    match options.filter {
        Some(Filter::EventType(expr)) => {
            assert_eq!(expr.regex, "^b");
            assert_eq!(expr.prefix, vec!["x-".to_string(), "y-".to_string()]);
        }
        other => panic!("unexpected filter {:?}", other),
    }
    let options = FilterConf::based_on_stream_name().add_prefix("$".to_string()).into_proto();
    match options.filter {
        Some(Filter::StreamIdentifier(expr)) => assert_eq!(expr.prefix, vec!["$".to_string()]),
        other => panic!("unexpected filter {:?}", other),
    }
}

#[test]
fn an_expected_version_keeps_its_meaning() {
    assert_eq!(convert_expected_version(ExpectedVersion::Any), ExpectedStreamRevision::Any);
    assert_eq!(
        convert_expected_version(ExpectedVersion::StreamExists),
        ExpectedStreamRevision::StreamExists
    );
    assert_eq!(
        convert_expected_version(ExpectedVersion::NoStream),
        ExpectedStreamRevision::NoStream
    );
    assert_eq!(
        convert_expected_version(ExpectedVersion::Exact(42)),
        ExpectedStreamRevision::Revision(42)
    );
}

fn settings(strategy: SystemConsumerStrategy, timeout: Duration) -> PersistentSubscriptionSettings {
    PersistentSubscriptionSettings {
        resolve_links: true,
        revision: 17,
        extra_stats: false,
        message_timeout: timeout,
        max_retry_count: 10,
        live_buffer_size: 500,
        read_batch_size: 20,
        history_buffer_size: 501,
        checkpoint_after: Duration::from_secs(2),
        min_checkpoint_count: 11,
        max_checkpoint_count: 1000,
        max_subscriber_count: 3,
        named_consumer_strategy: strategy,
    }
}

#[test]
fn the_settings_of_a_new_subscription_are_carried_over() {
    let converted = convert_settings_create(settings(
        SystemConsumerStrategy::RoundRobin,
        Duration::from_micros(30_000_999),
    ));
    assert_eq!(
        converted,
        create_req::Settings {
            resolve_links: true,
            revision: 17,
            extra_statistics: false,
            max_retry_count: 10,
            min_checkpoint_count: 11,
            max_checkpoint_count: 1000,
            max_subscriber_count: 3,
            live_buffer_size: 500,
            read_batch_size: 20,
            history_buffer_size: 501,
            named_consumer_strategy: 1,
            message_timeout: Some(create_req::settings::MessageTimeout::MessageTimeoutMs(30_000)),
            checkpoint_after: Some(create_req::settings::CheckpointAfter::CheckpointAfterMs(2000)),
        }
    );
}

#[test]
fn the_settings_of_an_update_are_carried_over() {
    let converted = convert_settings_update(settings(
        SystemConsumerStrategy::Pinned,
        Duration::from_millis(1),
    ));
    assert_eq!(
        converted,
        update_req::Settings {
            resolve_links: true,
            revision: 17,
            extra_statistics: false,
            max_retry_count: 10,
            min_checkpoint_count: 11,
            max_checkpoint_count: 1000,
            max_subscriber_count: 3,
            live_buffer_size: 500,
            read_batch_size: 20,
            history_buffer_size: 501,
            named_consumer_strategy: 2,
            message_timeout: Some(update_req::settings::MessageTimeout::MessageTimeoutMs(1)),
            checkpoint_after: Some(update_req::settings::CheckpointAfter::CheckpointAfterMs(2000)),
        }
    );
}

#[test]
fn each_strategy_has_its_number() {
    for (strategy, number) in [
        (SystemConsumerStrategy::DispatchToSingle, 0),
        (SystemConsumerStrategy::RoundRobin, 1),
        (SystemConsumerStrategy::Pinned, 2),
    ] {
        let created = convert_settings_create(settings(strategy, Duration::ZERO));
        let updated = convert_settings_update(settings(strategy, Duration::ZERO));
        assert_eq!(created.named_consumer_strategy, number);
        assert_eq!(updated.named_consumer_strategy, number);
    }
    assert_eq!(create_req::ConsumerStrategy::DispatchToSingle.number(), 0);
    assert_eq!(create_req::ConsumerStrategy::RoundRobin.number(), 1);
    assert_eq!(update_req::ConsumerStrategy::Pinned.number(), 2);
}

#[test]
fn a_long_span_keeps_the_lowest_bits_of_its_milliseconds() {
    let long = Duration::from_millis((1u64 << 32) + 5);
    let created = convert_settings_create(settings(SystemConsumerStrategy::Pinned, long));
    assert_eq!(
        created.message_timeout,
        Some(create_req::settings::MessageTimeout::MessageTimeoutMs(5))
    );
    let negative = Duration::from_millis(u32::MAX as u64);
    let updated = convert_settings_update(settings(SystemConsumerStrategy::Pinned, negative));
    assert_eq!(
        updated.message_timeout,
        Some(update_req::settings::MessageTimeout::MessageTimeoutMs(-1))
    );
}

#[test]
fn roles_say_nothing_or_name_the_roles() {
    assert!(Roles::default().is_empty());
    assert!(Roles(None).is_empty());
    assert!(!Roles(Some(vec![])).is_empty());
    let greg = Roles::from_string("greg".to_string());
    assert!(!greg.is_empty());
    assert_eq!(greg, Roles(Some(vec!["greg".to_string()])));
}

#[test]
fn one_role_is_written_alone_and_several_as_a_list() {
    assert_eq!(Roles(None).form(), RolesForm::Nothing);
    let greg = "greg".to_string();
    assert_eq!(Roles::from_string(greg.clone()).form(), RolesForm::One(&greg));
    let two = vec!["greg".to_string(), "john".to_string()];
    assert_eq!(Roles(Some(two.clone())).form(), RolesForm::List(&two));
    assert_eq!(Roles(Some(vec![])).form(), RolesForm::List(&vec![]));
}

fn acl() -> StreamAcl {
    StreamAcl {
        read_roles: Some(vec!["greg".to_string(), "john".to_string()]),
        write_roles: Some(vec!["greg".to_string()]),
        delete_roles: None,
        meta_read_roles: Some(vec![]),
        meta_write_roles: None,
    }
}

#[test]
fn an_access_control_list_goes_there_and_back() {
    let internal = StreamAclInternal::from_acl(acl());
    assert_eq!(
        internal,
        StreamAclInternal {
            read_roles: Roles(Some(vec!["greg".to_string(), "john".to_string()])),
            write_roles: Roles::from_string("greg".to_string()),
            delete_roles: Roles(None),
            meta_read_roles: Roles(Some(vec![])),
            meta_write_roles: Roles(None),
        }
    );
    assert!(!internal.is_empty());
    assert_eq!(internal.build_acl(), acl());
}

#[test]
fn an_access_control_list_is_empty_where_no_roles_are_named() {
    assert!(StreamAclInternal::default().is_empty());
    let none = StreamAcl {
        read_roles: None,
        write_roles: None,
        delete_roles: None,
        meta_read_roles: None,
        meta_write_roles: None,
    };
    assert!(StreamAclInternal::from_acl(none.clone()).is_empty());
    for k in 0..5 {
        let mut one = none.clone();
        let slot = match k {
            0 => &mut one.read_roles,
            1 => &mut one.write_roles,
            2 => &mut one.delete_roles,
            3 => &mut one.meta_read_roles,
            _ => &mut one.meta_write_roles,
        };
        *slot = Some(vec!["x".to_string()]);
        assert!(!StreamAclInternal::from_acl(one).is_empty());
    }
}

#[test]
fn credentials_are_encoded_for_the_authorization_header() {
    let creds = Credentials { login: b"admin".to_vec(), password: b"changeit".to_vec() };
    assert_eq!(basic_auth(&creds), "Basic YWRtaW46Y2hhbmdlaXQ=");
    let creds = Credentials { login: vec![], password: vec![] };
    assert_eq!(basic_auth(&creds), "Basic Og==");
    let creds = Credentials { login: vec![b'a', 0xff], password: "pä:ss".as_bytes().to_vec() };
    assert_eq!(basic_auth(&creds), format!("Basic {}", base64::encode("a\u{fffd}:pä:ss")));
    assert_eq!(join_credentials("a", "b:c"), "a:b:c");
    assert_eq!(join_credentials("", ""), ":");
    assert_eq!(authorization_value("xyz"), "Basic xyz");
}
