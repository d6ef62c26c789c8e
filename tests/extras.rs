use cyclonedds_rs::qos::{DurabilityKind, Qos};
use cyclonedds_rs::subscriber::InstanceState;
use cyclonedds_rs::common::{convert_log_level, Entity, LogLevel, ReturnCodes};
use cyclonedds_rs::domain::DomainParticipant;
use cyclonedds_rs::dynamic::{
    DynamicType, DynamicTypeDescriptor, DynamicTypeKind, MemberDescriptor, TypeExtensibility,
    TypeSpec, MEMBER_ID_INVALID,
};
use cyclonedds_rs::statistics::{StatKind, Statistics};
use cyclonedds_rs::topic::{Topic, TopicDescriptor, TopicType, TypeMetaSer};

fn member(name: &str, id: u32) -> MemberDescriptor {
    MemberDescriptor {
        name: name.to_string(),
        id,
        dynamic_type: TypeSpec {},
        default_value: String::new(),
        index: 0,
        num_labels: 0,
        labels: vec![],
        default_label: false,
    }
}

fn structure(p: &DomainParticipant) -> DynamicType {
    DynamicType::create(p, DynamicTypeDescriptor { kind: DynamicTypeKind::Structure, name: "S".to_string() })
        .unwrap()
}

#[test]
fn dynamic_type_needs_constructed_kind() {
    let p = DomainParticipant::default();
    let r = DynamicType::create(&p, DynamicTypeDescriptor { kind: DynamicTypeKind::Int32, name: "I".to_string() });
    assert_eq!(r.err(), Some(ReturnCodes::BadParameter));
}

#[test]
fn dynamic_type_extensibility_only_for_aggregates() {
    let p = DomainParticipant::default();
    let mut s = structure(&p);
    assert_eq!(s.set_extensibility(&TypeExtensibility::Mutable), Ok(()));
    assert_eq!(s.set_nested(true), Ok(()));
    assert_eq!(s.set_bit_bound(8), Err(ReturnCodes::BadParameter));
    let mut e = DynamicType::create(&p, DynamicTypeDescriptor { kind: DynamicTypeKind::Enumeration, name: "E".to_string() }).unwrap();
    assert_eq!(e.set_bit_bound(16), Ok(()));
    assert_eq!(e.set_extensibility(&TypeExtensibility::Mutable), Err(ReturnCodes::BadParameter));
}

#[test]
fn dynamic_type_errors_stick() {
    let p = DomainParticipant::default();
    let mut s = structure(&p);
    assert_eq!(s.add_member(member("a", 1)), Ok(()));
    assert_eq!(s.member_set_hashid(7, "x"), Err(ReturnCodes::BadParameter));
    assert_eq!(s.ret(), ReturnCodes::BadParameter);
    assert_eq!(s.member_set_hashid(1, "x"), Err(ReturnCodes::BadParameter));
    assert_eq!(s.set_nested(true), Err(ReturnCodes::BadParameter));
}

#[test]
fn dynamic_type_members() {
    let p = DomainParticipant::default();
    let mut s = structure(&p);
    assert_eq!(s.add_member(member("a", MEMBER_ID_INVALID)), Ok(()));
    assert_eq!(s.add_member(member("b", 10)), Ok(()));
    assert_eq!(s.add_member(member("c", MEMBER_ID_INVALID)), Ok(()));
    assert_eq!(s.member_set_key(0, true), Ok(()));
    assert_eq!(s.member_set_key(11, true), Ok(()));
    assert_eq!(s.member_set_optional(10, true), Ok(()));
    assert_eq!(s.member_set_hashid(10, "bee"), Ok(()));
    assert_eq!(s.ret(), ReturnCodes::Success);
    let mut dup_name = structure(&p);
    dup_name.add_member(member("a", 1)).unwrap();
    assert_eq!(dup_name.add_member(member("a", 20)), Err(ReturnCodes::BadParameter));
    let mut dup_id = structure(&p);
    dup_id.add_member(member("a", 10)).unwrap();
    assert_eq!(dup_id.add_member(member("d", 10)), Err(ReturnCodes::BadParameter));
    let mut empty = structure(&p);
    assert_eq!(empty.add_member(member("", 30)), Err(ReturnCodes::BadParameter));
    let mut no_key = structure(&p);
    assert_eq!(no_key.member_set_key(12, true), Err(ReturnCodes::BadParameter));
}

#[test]
fn bitmask_fields_below_bound() {
    let p = DomainParticipant::default();
    let mut b = DynamicType::create(&p, DynamicTypeDescriptor { kind: DynamicTypeKind::Bitmask, name: "B".to_string() }).unwrap();
    assert_eq!(b.set_bit_bound(8), Ok(()));
    assert_eq!(b.add_bitmask_field("f0", 0), Ok(()));
    assert_eq!(b.add_bitmask_field("f1", 1), Ok(()));
    assert_eq!(b.add_bitmask_field("f8", 8), Err(ReturnCodes::BadParameter));
    let mut c = DynamicType::create(&p, DynamicTypeDescriptor { kind: DynamicTypeKind::Bitmask, name: "C".to_string() }).unwrap();
    c.add_bitmask_field("f0", 0).unwrap();
    assert_eq!(c.add_bitmask_field("again", 0), Err(ReturnCodes::BadParameter));
}

struct Keyless;
impl TopicType for Keyless {
    fn name() -> &'static str {
        "Keyless"
    }
    fn typename() -> &'static str {
        "Keyless"
    }
    fn topic_descriptor() -> TopicDescriptor {
        TopicDescriptor {
            m_size: 0,
            m_align: 1,
            m_flagset: 0,
            m_nkeys: 0,
            m_typename: "Keyless".to_string(),
            m_keys: vec![],
            m_nops: 0,
            m_ops: vec![],
            m_meta: String::new(),
            type_information: vec![],
            type_mapping: TypeMetaSer { data: vec![] },
            restrict_data_representation: 0,
        }
    }
}

#[derive(Debug, PartialEq)]
struct Msg {
    id: i32,
    text: String,
}

impl serde::Serialize for Msg {
    fn serialize<S: serde::Serializer>(&self, s: S) -> Result<S::Ok, S::Error> {
        (self.id, &self.text).serialize(s)
    }
}

impl<'de> serde::Deserialize<'de> for Msg {
    fn deserialize<D: serde::Deserializer<'de>>(d: D) -> Result<Self, D::Error> {
        let (id, text) = <(i32, String)>::deserialize(d)?;
        Ok(Msg { id, text })
    }
}

#[test]
fn typed_write_and_read_values() {
    let mut p = DomainParticipant::default();
    let mut publisher = p.publisher().unwrap();
    let subscriber = p.subscriber().unwrap();
    let raw: Topic<Keyless> = p.topic().unwrap();
    let topic: Topic<Msg> = raw.into_any().into_typed("Keyless").unwrap();
    let mut writer = publisher.create_datawriter(&mut p, &topic).unwrap();
    let reader = subscriber.create_reader(&mut p, &topic).unwrap();
    let msg = Msg { id: 5, text: "hi".to_string() };
    writer.write(&mut p, &msg).unwrap();
    let raw_samples = reader.peek(&mut p, 10).unwrap();
    assert_eq!(raw_samples[0].data, vec![5, 0, 0, 0, 2, 0, 0, 0, 0, 0, 0, 0, b'h', b'i']);
    let values = reader.read_values(&mut p, 10).unwrap();
    assert_eq!(values, vec![msg]);
}

#[test]
fn undecodable_sample_is_bad_parameter() {
    let mut p = DomainParticipant::default();
    let mut publisher = p.publisher().unwrap();
    let subscriber = p.subscriber().unwrap();
    let raw: Topic<Keyless> = p.topic().unwrap();
    let topic: Topic<Msg> = raw.into_any().into_typed("Keyless").unwrap();
    let mut writer = publisher.create_datawriter(&mut p, &topic).unwrap();
    let reader = subscriber.create_reader(&mut p, &topic).unwrap();
    writer.write_cdr(&mut p, &[1]).unwrap();
    assert_eq!(reader.read_values(&mut p, 10).err(), Some(ReturnCodes::BadParameter));
}

#[test]
fn statistics_of_writer_and_reader() {
    let mut p = DomainParticipant::default();
    let mut publisher = p.publisher().unwrap();
    let subscriber = p.subscriber().unwrap();
    let topic: Topic<Keyless> = p.topic().unwrap();
    let mut writer = publisher.create_datawriter(&mut p, &topic).unwrap();
    let reader = subscriber.create_reader(&mut p, &topic).unwrap();
    let ws = Statistics::create(&p, &writer).unwrap();
    assert_eq!(ws.count(), 2);
    assert_eq!(ws.lookup("current_matched").unwrap().1, StatKind::UInt32(1));
    assert_eq!(ws.lookup("nothing").err(), Some(ReturnCodes::Error));
    let mut rs = Statistics::create(&p, &reader).unwrap();
    assert_eq!(rs.lookup("samples_cached").unwrap().1, StatKind::UInt64(0));
    writer.write_cdr(&mut p, &[1, 2]).unwrap();
    rs.refresh(&p).unwrap();
    assert_eq!(rs.lookup("samples_cached").unwrap().1, StatKind::UInt64(1));
    assert_eq!(rs.kv()[0].name(), "samples_cached");
    assert_eq!(Statistics::create(&p, &topic).err(), Some(ReturnCodes::Error));
}

#[test]
fn triggered_while_unread_samples() {
    let mut p = DomainParticipant::default();
    let mut publisher = p.publisher().unwrap();
    let subscriber = p.subscriber().unwrap();
    let topic: Topic<Keyless> = p.topic().unwrap();
    let mut writer = publisher.create_datawriter(&mut p, &topic).unwrap();
    let reader = subscriber.create_reader(&mut p, &topic).unwrap();
    assert_eq!(p.triggered(reader.handle()), Ok(false));
    writer.write_cdr(&mut p, &[3]).unwrap();
    assert_eq!(p.triggered(reader.handle()), Ok(true));
    reader.read(&mut p, 1).unwrap();
    assert_eq!(p.triggered(reader.handle()), Ok(false));
}

#[test]
fn log_levels() {
    assert_eq!(convert_log_level(1), LogLevel::Error);
    assert_eq!(convert_log_level(2), LogLevel::Error);
    assert_eq!(convert_log_level(3), LogLevel::Warn);
    assert_eq!(convert_log_level(4), LogLevel::Info);
    assert_eq!(convert_log_level(5), LogLevel::Debug);
    assert_eq!(convert_log_level(6), LogLevel::Trace);
    assert_eq!(convert_log_level(99), LogLevel::Trace);
}

#[test]
fn qos_change_on_live_entity() {
    let mut p = DomainParticipant::default();
    let publisher = p.publisher().unwrap();
    let mut q = Qos::new();
    q.qset_deadline(1000);
    assert_eq!(p.set_entity_qos(publisher.handle(), &q), Ok(()));
    assert_eq!(p.entity_qos(publisher.handle()).unwrap().deadline(), Ok(1000));
    q.qset_durability(DurabilityKind::Persistent);
    assert_eq!(p.set_entity_qos(publisher.handle(), &q), Err(ReturnCodes::ImmutablePolicy));
    assert_eq!(p.entity_qos(publisher.handle()).unwrap().durability(), Ok(DurabilityKind::Volatile));
}

#[test]
fn dispose_marks_instance_samples() {
    let mut p = DomainParticipant::default();
    let mut publisher = p.publisher().unwrap();
    let subscriber = p.subscriber().unwrap();
    let topic: Topic<Keyless> = p.topic().unwrap();
    let mut writer = publisher.create_datawriter(&mut p, &topic).unwrap();
    let reader = subscriber.create_reader(&mut p, &topic).unwrap();
    writer.write_cdr(&mut p, &[1]).unwrap();
    let ih = writer.register_instance(&mut p, &[9]).unwrap();
    writer.dispose_ih_ts(&mut p, ih, 0).unwrap();
    let got = reader.peek(&mut p, 10).unwrap();
    assert_eq!(got[0].info.instance_state, InstanceState::NotAliveDisposed);
    let bad = cyclonedds_rs::domain::InstanceHandle { handle: 77 };
    assert_eq!(writer.dispose_ih_ts(&mut p, bad, 0), Err(ReturnCodes::PreconditionNotMet));
}

#[test]
fn type_path_names() {
    assert_eq!(cyclonedds_rs::topic::short_typename("my_crate::domain::HelloWorldData"), "HelloWorldData");
    assert_eq!(cyclonedds_rs::topic::short_typename("Plain"), "Plain");
    assert_eq!(cyclonedds_rs::topic::typename_without_crate("my_crate::domain::HelloWorldData"), "domain::HelloWorldData");
    assert_eq!(cyclonedds_rs::topic::typename_without_crate("Plain"), "Plain");
    assert_eq!(cyclonedds_rs::topic::short_typename("a::"), "");
}
