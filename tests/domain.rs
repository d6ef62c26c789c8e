use cyclonedds_rs::domain::DomainParticipant;
use cyclonedds_rs::topic::{KeyDescriptor, TopicDescriptor, TopicType, TypeMetaSer};

#[derive(Default, Clone, PartialEq, Debug)]
struct HelloWorldData {
    id: i32,
    data: String,
}

impl TopicType for HelloWorldData {
    fn name() -> &'static str {
        "HelloWorldData"
    }

    fn typename() -> &'static str {
        "domain::test::HelloWorldData"
    }

    fn topic_descriptor() -> TopicDescriptor {
        TopicDescriptor {
            m_size: 32,
            m_align: 0,
            m_flagset: 1 << 6,
            m_nkeys: 1,
            m_typename: Self::typename().to_string(),
            m_keys: vec![KeyDescriptor {
                name: "userID".to_string(),
                m_offset: 5,
                index: 0,
            }],
            m_nops: 3,
            m_ops: vec![],
            m_meta: "".to_string(),
            type_information: vec![16777216 | 1 << 0 | 1 << 3 | 196608 | 1 << 2],
            type_mapping: TypeMetaSer {
                data: vec![
                    0x4c, 0x00, 0x00, 0x00, 0x01, 0x00, 0x00, 0x00, 0xf1, 0x51, 0x01, 0x00,
                    0x6e, 0x42, 0x14, 0x9e, 0xb1, 0x41, 0xa0, 0xd7, 0x25, 0x94, 0xc6, 0x50,
                    0xd7, 0x3c, 0x00, 0x34, 0x00, 0x00, 0x00, 0xf1, 0x51, 0x01, 0x00, 0x01,
                ],
            },
            restrict_data_representation: 0,
        }
    }
}

#[test]
fn domain_test_participant() {
    let participant = DomainParticipant::new(0).unwrap();
    drop(participant);
}

#[test]
fn onefile_test_participant() {
    let participant = DomainParticipant::new(0).unwrap();
    drop(participant);
}

#[test]
fn test_participant_subscriber() {
    let mut participant = DomainParticipant::default();

    let _subscriber = participant
        .subscriber()
        .expect("Unable to create subscriber");
}

#[test]
fn test_participant_publisher() {
    let mut participant = DomainParticipant::default();

    let _publisher = participant.publisher().expect("Unable to create publisher");
}

#[test]
fn test_participant_topic() {
    let mut participant = DomainParticipant::default();

    let _topic = participant
        .topic::<HelloWorldData>()
        .expect("Unable to create topic");
}

#[test]
fn test_participant_any_topic() {
    let mut participant = DomainParticipant::default();

    let _topic = participant.any_topic().expect("Unable to create topic");
}

#[test]
fn test_participant_lifecycle() {
    {
        let participant = DomainParticipant::new(0).expect("Failed to create participant");

        participant
            .assert_liveliness()
            .expect("Failed to assert liveliness");
    }
}
