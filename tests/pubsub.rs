use cyclonedds_rs::common::{Entity, ReturnCodes};
use cyclonedds_rs::domain::{DomainCreationError, DomainParticipant, EntityKind, DOMAIN_DEFAULT};
use cyclonedds_rs::subscriber::{
    InstanceState, SampleState, ViewState, NOT_READ_SAMPLE_STATE, READ_SAMPLE_STATE,
};
use cyclonedds_rs::topic::{KeyDescriptor, Topic, TopicDescriptor, TopicType, TypeMetaSer};

fn descriptor(typename: &str, key_offsets: &[u32]) -> TopicDescriptor {
    TopicDescriptor {
        m_size: 8,
        m_align: 4,
        m_flagset: 0,
        m_nkeys: key_offsets.len() as u32,
        m_typename: typename.to_string(),
        m_keys: key_offsets
            .iter()
            .enumerate()
            .map(|(i, o)| KeyDescriptor { name: format!("k{}", i), m_offset: *o, index: i as u32 })
            .collect(),
        m_nops: 0,
        m_ops: vec![],
        m_meta: String::new(),
        type_information: vec![],
        type_mapping: TypeMetaSer { data: vec![] },
        restrict_data_representation: 0,
    }
}

struct Foo;
impl TopicType for Foo {
    fn name() -> &'static str {
        "Foo"
    }
    fn typename() -> &'static str {
        "Foo"
    }
    fn topic_descriptor() -> TopicDescriptor {
        descriptor("Foo", &[0])
    }
}

struct Bar;
impl TopicType for Bar {
    fn name() -> &'static str {
        "Bar"
    }
    fn typename() -> &'static str {
        "Bar"
    }
    fn topic_descriptor() -> TopicDescriptor {
        descriptor("Bar", &[])
    }
}

/// Same topic name as `Foo`, another type.
struct FooImpostor;
impl TopicType for FooImpostor {
    fn name() -> &'static str {
        "Foo"
    }
    fn typename() -> &'static str {
        "Other"
    }
    fn topic_descriptor() -> TopicDescriptor {
        descriptor("Other", &[])
    }
}

#[test]
fn participant_in_common_range_answers_queries() {
    for id in [0u32, 1, 100, 232] {
        let p = DomainParticipant::new(id).expect("participant");
        let ih = p.instance_handle().expect("instance handle");
        assert_eq!(ih.handle, 1);
        let g = p.guid().expect("guid");
        assert_eq!(&g.v[0..4], &id.to_be_bytes());
        assert_eq!(p.domain_id(), Ok(id));
    }
}

#[test]
fn participant_out_of_common_range_still_created() {
    assert!(DomainParticipant::new(1000).is_ok());
}

#[test]
fn participant_default_domain_refused() {
    assert!(matches!(DomainParticipant::new(DOMAIN_DEFAULT), Err(DomainCreationError::BadParameter)));
}

#[test]
fn delete_participant_cascades() {
    let mut p = DomainParticipant::default();
    let publisher = p.publisher().unwrap();
    let subscriber = p.subscriber().unwrap();
    let mut pub2 = p.publisher().unwrap();
    let topic: Topic<Foo> = p.topic().unwrap();
    let writer = pub2.create_datawriter(&mut p, &topic).unwrap();
    let reader = subscriber.create_reader(&mut p, &topic).unwrap();
    assert_eq!(p.delete(0), Ok(()));
    for h in [publisher.handle(), subscriber.handle(), topic.handle(), writer.handle(), reader.handle()] {
        assert_eq!(p.entity_instance_handle(h), Err(ReturnCodes::AlreadyDeleted));
        assert_eq!(p.delete(h), Err(ReturnCodes::AlreadyDeleted));
    }
    assert_eq!(reader.read(&mut p, 10).err(), Some(ReturnCodes::AlreadyDeleted));
    assert_eq!(p.delete(0), Err(ReturnCodes::AlreadyDeleted));
}

#[test]
fn delete_subtree_keeps_siblings() {
    let mut p = DomainParticipant::default();
    let pub1 = p.publisher().unwrap();
    let mut pub2 = p.publisher().unwrap();
    let topic: Topic<Foo> = p.topic().unwrap();
    let w2 = pub2.create_datawriter(&mut p, &topic).unwrap();
    assert_eq!(p.delete(pub2.handle()), Ok(()));
    assert_eq!(p.entity_kind(w2.handle()), Err(ReturnCodes::AlreadyDeleted));
    assert_eq!(p.entity_kind(pub1.handle()), Ok(EntityKind::Publisher));
    assert_eq!(p.delete(99), Err(ReturnCodes::BadParameter));
}

#[test]
fn write_then_read_round_trip() {
    let mut p = DomainParticipant::default();
    let mut publisher = p.publisher().unwrap();
    let subscriber = p.subscriber().unwrap();
    let topic: Topic<Foo> = p.topic().unwrap();
    let mut writer = publisher.create_datawriter(&mut p, &topic).unwrap();
    let reader = subscriber.create_reader(&mut p, &topic).unwrap();
    let sample = [7u8, 0, 0, 0, 42, 43];
    let ih = writer.register_instance(&mut p, &sample).unwrap();
    writer.write_cdr(&mut p, &sample).unwrap();
    let got = reader.read(&mut p, 10).unwrap();
    assert_eq!(got.len(), 1);
    assert_eq!(got[0].data, sample.to_vec());
    assert_eq!(&got[0].data[0..4], &sample[0..4]);
    assert_eq!(got[0].info.instance_handle, ih);
    assert_eq!(got[0].info.sample_state, SampleState::NotRead);
    assert_eq!(got[0].info.view_state, ViewState::New);
    assert_eq!(got[0].info.instance_state, InstanceState::Alive);
    let again = reader.read(&mut p, 10).unwrap();
    assert_eq!(again[0].info.sample_state, SampleState::Read);
}

#[test]
fn same_key_same_instance() {
    let mut p = DomainParticipant::default();
    let mut publisher = p.publisher().unwrap();
    let topic: Topic<Foo> = p.topic().unwrap();
    let mut writer = publisher.create_datawriter(&mut p, &topic).unwrap();
    let a = writer.register_instance(&mut p, &[1, 0, 0, 0, 9]).unwrap();
    let b = writer.register_instance(&mut p, &[1, 0, 0, 0, 8]).unwrap();
    let c = writer.register_instance(&mut p, &[2, 0, 0, 0, 9]).unwrap();
    assert_eq!(a, b);
    assert_ne!(a, c);
}

#[test]
fn short_sample_is_bad_parameter() {
    let mut p = DomainParticipant::default();
    let mut publisher = p.publisher().unwrap();
    let topic: Topic<Foo> = p.topic().unwrap();
    let mut writer = publisher.create_datawriter(&mut p, &topic).unwrap();
    assert_eq!(writer.write_cdr(&mut p, &[1, 2]), Err(ReturnCodes::BadParameter));
}

#[test]
fn wait_for_acks_without_readers_is_ok() {
    let mut p = DomainParticipant::default();
    let mut publisher = p.publisher().unwrap();
    let topic: Topic<Bar> = p.topic().unwrap();
    let mut writer = publisher.create_datawriter(&mut p, &topic).unwrap();
    assert_eq!(writer.publication_matched_status(&mut p).unwrap().current_count(), 0);
    assert_eq!(writer.wait_for_acks(&p, 0), Ok(()));
    assert_eq!(publisher.wait_for_acks(&p, 0), Ok(()));
}

#[test]
fn take_removes_from_cache() {
    let mut p = DomainParticipant::default();
    let mut publisher = p.publisher().unwrap();
    let subscriber = p.subscriber().unwrap();
    let topic: Topic<Foo> = p.topic().unwrap();
    let mut writer = publisher.create_datawriter(&mut p, &topic).unwrap();
    let reader = subscriber.create_reader(&mut p, &topic).unwrap();
    writer.write_cdr(&mut p, &[1, 0, 0, 0]).unwrap();
    writer.write_cdr(&mut p, &[1, 0, 0, 0]).unwrap();
    writer.write_cdr(&mut p, &[2, 0, 0, 0]).unwrap();
    let ih = writer.register_instance(&mut p, &[1, 0, 0, 0]).unwrap();
    let taken = reader.take_instance(&mut p, 10, ih).unwrap();
    assert_eq!(taken.len(), 2);
    assert!(reader.read_instance(&mut p, 10, ih).unwrap().is_empty());
    assert_eq!(reader.read(&mut p, 10).unwrap().len(), 1);
}

#[test]
fn peek_leaves_state_and_masks_select() {
    let mut p = DomainParticipant::default();
    let mut publisher = p.publisher().unwrap();
    let subscriber = p.subscriber().unwrap();
    let topic: Topic<Bar> = p.topic().unwrap();
    let mut writer = publisher.create_datawriter(&mut p, &topic).unwrap();
    let reader = subscriber.create_reader(&mut p, &topic).unwrap();
    writer.write_cdr(&mut p, &[1]).unwrap();
    writer.write_cdr(&mut p, &[2]).unwrap();
    assert_eq!(reader.peek(&mut p, 10).unwrap().len(), 2);
    assert_eq!(reader.read_next(&mut p).unwrap()[0].data, vec![1]);
    assert_eq!(reader.read_mask(&mut p, 10, NOT_READ_SAMPLE_STATE).unwrap()[0].data, vec![2]);
    assert_eq!(reader.peek_with_collector(&mut p, 10, READ_SAMPLE_STATE).unwrap().len(), 2);
    assert!(reader.take_next(&mut p).unwrap().is_empty());
    assert_eq!(reader.take(&mut p, 1).unwrap()[0].data, vec![1]);
    assert_eq!(reader.takecdr(&mut p, 10, 0).unwrap()[0].data, vec![2]);
    assert!(reader.peek(&mut p, 10).unwrap().is_empty());
}

#[test]
fn any_topic_type_mismatch_is_error() {
    let mut p = DomainParticipant::default();
    let foo: Topic<Foo> = p.topic().unwrap();
    let any = foo.into_any();
    assert_eq!(any.typename(&p).unwrap(), "Foo");
    assert_eq!(Topic::<Bar>::try_from_any(any).err(), Some(ReturnCodes::BadParameter));
    let foo2: Topic<Foo> = p.topic().unwrap();
    assert!(Topic::<Foo>::try_from_any(foo2.into_any()).is_ok());
}

#[test]
fn same_topic_name_other_type_refused() {
    let mut p = DomainParticipant::default();
    let _foo: Topic<Foo> = p.topic().unwrap();
    assert_eq!(p.topic::<FooImpostor>().err(), Some(ReturnCodes::PreconditionNotMet));
}

#[test]
fn reader_needs_subscriber_parent() {
    let mut p = DomainParticipant::default();
    let mut publisher = p.publisher().unwrap();
    let topic: Topic<Foo> = p.topic().unwrap();
    let writer = publisher.create_datawriter(&mut p, &topic).unwrap();
    assert_eq!(p.get_topic(writer.handle()).unwrap().handle(), topic.handle());
    assert_eq!(p.entity_assert_liveliness(topic.handle()), Err(ReturnCodes::IllegalOperation));
}

#[test]
fn suspend_and_resume() {
    let mut p = DomainParticipant::default();
    let mut publisher = p.publisher().unwrap();
    assert_eq!(publisher.resume(&mut p), Err(ReturnCodes::PreconditionNotMet));
    assert_eq!(publisher.suspend(&mut p), Ok(()));
    assert_eq!(publisher.suspend(&mut p), Err(ReturnCodes::PreconditionNotMet));
    assert_eq!(publisher.resume(&mut p), Ok(()));
}

#[test]
fn return_code_from_magnitude() {
    assert_eq!(ReturnCodes::from_code(-8), ReturnCodes::AlreadyDeleted);
    assert_eq!(ReturnCodes::from_code(9), ReturnCodes::Timeout);
    assert_eq!(ReturnCodes::from_code(0), ReturnCodes::Success);
    assert_eq!(ReturnCodes::Timeout.code(), -9);
    assert_eq!(DomainCreationError::from_code(-4), DomainCreationError::PreconditionNotMet);
}

#[test]
fn matched_status_counts_readers() {
    let mut p = DomainParticipant::default();
    let mut publisher = p.publisher().unwrap();
    let subscriber = p.subscriber().unwrap();
    let topic: Topic<Foo> = p.topic().unwrap();
    let writer = publisher.create_datawriter(&mut p, &topic).unwrap();
    let r1 = subscriber.create_reader(&mut p, &topic).unwrap();
    let _r2 = subscriber.create_reader(&mut p, &topic).unwrap();
    p.delete(r1.handle()).unwrap();
    let st = writer.publication_matched_status(&mut p).unwrap();
    assert_eq!(st.current_count, 1);
    assert_eq!(st.total_count, 2);
}

#[test]
fn matched_status_changes_reset() {
    let mut p = DomainParticipant::default();
    let mut publisher = p.publisher().unwrap();
    let subscriber = p.subscriber().unwrap();
    let topic: Topic<Foo> = p.topic().unwrap();
    let writer = publisher.create_datawriter(&mut p, &topic).unwrap();
    let _r1 = subscriber.create_reader(&mut p, &topic).unwrap();
    let first = writer.publication_matched_status(&mut p).unwrap();
    assert_eq!(first.current_count_change, 1);
    assert_eq!(first.total_count_change, 1);
    let second = writer.publication_matched_status(&mut p).unwrap();
    assert_eq!(second.current_count, 1);
    assert_eq!(second.current_count_change, 0);
    assert_eq!(second.total_count_change, 0);
}

#[test]
fn any_topic_names_after_participant_deleted() {
    let mut p = DomainParticipant::default();
    let t = p.any_topic().unwrap();
    assert_eq!(t.name(&p).unwrap(), "DCPSParticipant");
    assert_eq!(t.typename(&p).unwrap(), "ParticipantBuiltinTopicData");
    p.delete(0).unwrap();
    assert_eq!(t.name(&p), Err(ReturnCodes::AlreadyDeleted));
    assert_eq!(t.typename(&p), Err(ReturnCodes::AlreadyDeleted));
}

#[test]
fn create_writer_after_participant_deleted() {
    let mut p = DomainParticipant::default();
    let mut publisher = p.publisher().unwrap();
    let topic: Topic<Foo> = p.topic().unwrap();
    p.delete(0).unwrap();
    assert_eq!(publisher.create_datawriter(&mut p, &topic).err(), Some(ReturnCodes::AlreadyDeleted));
}

#[test]
fn same_topic_twice_same_registry_entry() {
    let mut p = DomainParticipant::default();
    let mut publisher = p.publisher().unwrap();
    let subscriber = p.subscriber().unwrap();
    let t1: Topic<Foo> = p.topic().unwrap();
    let t2: Topic<Foo> = p.topic().unwrap();
    assert_ne!(t1.handle(), t2.handle());
    let mut writer = publisher.create_datawriter(&mut p, &t1).unwrap();
    let reader = subscriber.create_reader(&mut p, &t2).unwrap();
    writer.write_cdr(&mut p, &[4, 0, 0, 0]).unwrap();
    assert_eq!(reader.read(&mut p, 10).unwrap().len(), 1);
}

#[test]
fn unregister_known_and_unknown_instances() {
    let mut p = DomainParticipant::default();
    let mut publisher = p.publisher().unwrap();
    let topic: Topic<Foo> = p.topic().unwrap();
    let mut writer = publisher.create_anydatawriter(&mut p, &topic.into_any()).unwrap();
    assert_eq!(writer.unregister_instance(&mut p, &[1, 0, 0, 0]), Err(ReturnCodes::PreconditionNotMet));
    let a = writer.register_instance(&mut p, &[1, 0, 0, 0, 7]).unwrap();
    let b = writer.register_instance(&mut p, &[1, 0, 0, 0, 8]).unwrap();
    assert_eq!(a, b);
    assert_eq!(writer.unregister_instance(&mut p, &[1, 0, 0, 0]), Ok(()));
    assert_eq!(writer.unregister_instance(&mut p, &[1, 0, 0, 0]), Err(ReturnCodes::PreconditionNotMet));
}

#[test]
fn into_any_carries_registered_names() {
    let mut p = DomainParticipant::default();
    let foo: Topic<Foo> = p.topic().unwrap();
    let any = foo.into_any();
    assert_eq!(any.name(&p).unwrap(), "Foo");
    assert_eq!(any.typename(&p).unwrap(), "Foo");
    let back = Topic::<Foo>::try_from_any(any).unwrap();
    assert_eq!(Topic::<Bar>::try_from_any(back.into_any()).err(), Some(ReturnCodes::BadParameter));
}

#[test]
fn forwardcdr_keeps_time_stamp() {
    let mut p = DomainParticipant::default();
    let mut publisher = p.publisher().unwrap();
    let subscriber = p.subscriber().unwrap();
    let topic: Topic<Bar> = p.topic().unwrap();
    let mut writer = publisher.create_datawriter(&mut p, &topic).unwrap();
    let reader = subscriber.create_reader(&mut p, &topic).unwrap();
    writer.forwardcdr(&mut p, &[5], 1234).unwrap();
    assert_eq!(reader.peek(&mut p, 1).unwrap()[0].info.source_timestamp, 1234);
}

#[test]
fn read_goes_instance_by_instance() {
    let mut p = DomainParticipant::default();
    let mut publisher = p.publisher().unwrap();
    let subscriber = p.subscriber().unwrap();
    let topic: Topic<Foo> = p.topic().unwrap();
    let mut writer = publisher.create_datawriter(&mut p, &topic).unwrap();
    let reader = subscriber.create_reader(&mut p, &topic).unwrap();
    writer.write_cdr(&mut p, &[1, 0, 0, 0, 10]).unwrap();
    writer.write_cdr(&mut p, &[2, 0, 0, 0, 20]).unwrap();
    writer.write_cdr(&mut p, &[1, 0, 0, 0, 11]).unwrap();
    let got: Vec<u8> = reader.read(&mut p, 10).unwrap().iter().map(|s| s.data[4]).collect();
    assert_eq!(got, vec![10, 11, 20]);
    let two: Vec<u8> = reader.take(&mut p, 2).unwrap().iter().map(|s| s.data[4]).collect();
    assert_eq!(two, vec![10, 11]);
    assert_eq!(reader.peek(&mut p, 10).unwrap()[0].data[4], 20);
}
