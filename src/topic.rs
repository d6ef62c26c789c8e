use vstd::prelude::*;

use crate::common::Entity;

use crate::common::ReturnCodes;
use vstd::string::StrSliceExecFns;

verus! {

/// Used to describe a named key field in a type with the offset from the
/// start of a serialized sample.
#[derive(Debug)]
pub struct KeyDescriptor {
    pub name: String,
    pub m_offset: u32,
    pub index: u32,
}

/// Serialized type information.
#[derive(Debug)]
pub struct TypeMetaSer {
    pub data: Vec<u8>,
}

/// The binary layout of a topic type.
#[derive(Debug)]
pub struct TopicDescriptor {
    /// Size of topic type
    pub m_size: u32,
    /// Alignment of topic type
    pub m_align: u32,
    /// Flags
    pub m_flagset: u32,
    /// Number of keys (can be 0)
    pub m_nkeys: u32,
    /// Type name
    pub m_typename: String,
    /// Key descriptors
    pub m_keys: Vec<KeyDescriptor>,
    /// Number of operations in m_ops
    pub m_nops: u32,
    /// Marshalling meta data
    pub m_ops: Vec<u32>,
    /// Topic description meta data
    pub m_meta: String,
    /// Serialized type information
    pub type_information: Vec<u32>,
    /// Serialized type mapping
    pub type_mapping: TypeMetaSer,
    /// Restrictions on the data representations allowed for the type
    pub restrict_data_representation: u32,
}

/// The key offsets of a descriptor, in order.
pub open spec fn key_offsets_of(keys: Seq<KeyDescriptor>) -> Seq<u32> {
    keys.map_values(|k: KeyDescriptor| k.m_offset)
}

impl TopicDescriptor {
    /// The byte offsets of the key fields, in order.
    pub fn key_offsets(&self) -> (r: Vec<u32>)
        ensures
            r@ == key_offsets_of(self.m_keys@),
    {
        let mut r: Vec<u32> = Vec::new();
        let mut i: usize = 0;
        while i < self.m_keys.len()
            invariant
                i <= self.m_keys@.len(),
                r@ == key_offsets_of(self.m_keys@.take(i as int)),
            decreases self.m_keys@.len() - i,
        {
            r.push(self.m_keys[i].m_offset);
            proof {
                assert(key_offsets_of(self.m_keys@.take(i + 1)) =~= key_offsets_of(self.m_keys@.take(i as int)).push(self.m_keys@[i as int].m_offset));
            }
            i = i + 1;
        }
        proof {
            assert(self.m_keys@.take(i as int) =~= self.m_keys@);
        }
        r
    }
}

/// A type whose values are samples of a topic: it names itself and
/// describes its layout.
pub trait TopicType {
    /// The topic name, by default the type's own name.
    fn name() -> &'static str;

    /// The type's qualified name.
    fn typename() -> &'static str;

    /// The type's layout.
    fn topic_descriptor() -> TopicDescriptor;
}

/// The outcome of registering topic `name` of type `typename`: the
/// registration's error and no change, or the registered topic entity.
pub open spec fn topic_outcome<T>(
    old_v: crate::domain::ParticipantView,
    new_v: crate::domain::ParticipantView,
    name: Seq<char>,
    typename: Seq<char>,
    r: Result<Topic<T>, ReturnCodes>,
) -> bool {
    match crate::domain::topic_registration(old_v, name, typename) {
        Err(e) => r == Err::<Topic<T>, _>(e) && new_v == old_v,
        Ok(t) => crate::domain::topic_registered(old_v, new_v, name, typename, t)
            && (r matches Ok(tp) && tp.entity_id() == old_v.entities.len() && tp.name_view() == name
                && tp.typename_view() == typename),
    }
}

/// A topic whose samples have the type `T`.
pub struct Topic<T> {
    pub(crate) topic: i32,
    pub(crate) name: String,
    pub(crate) typename: String,
    pub(crate) _marker: std::marker::PhantomData<T>,
}

/// A topic of a type known only by name.
pub struct AnyTopic {
    pub(crate) topic: i32,
    pub(crate) name: String,
    pub(crate) typename: String,
}

impl AnyTopic {
    pub closed spec fn name_view(&self) -> Seq<char> {
        self.name@
    }

    pub closed spec fn typename_view(&self) -> Seq<char> {
        self.typename@
    }

    pub(crate) fn from_parts(h: i32, name: String, typename: String) -> (r: AnyTopic)
        ensures
            r.entity_id() == h,
            r.name_view() == name@,
            r.typename_view() == typename@,
    {
        AnyTopic { topic: h, name, typename }
    }

    /// The topic's name, for a live topic.
    pub fn name(&self, participant: &crate::domain::DomainParticipant) -> (r: Result<String, ReturnCodes>)
        requires
            participant.wf(),
        ensures
            crate::domain::kind_error(participant@, self.entity_id(), crate::domain::EntityKind::Topic) matches Some(e) ==> r == Err::<String, _>(e),
            crate::domain::kind_error(participant@, self.entity_id(), crate::domain::EntityKind::Topic) is None ==> (r matches Ok(s) && s@ == self.name_view()),
    {
        match participant.check_kind(self.topic, crate::domain::EntityKind::Topic) {
            Some(e) => Err(e),
            None => Ok(self.name.clone()),
        }
    }

    /// The name of the topic's type, for a live topic.
    pub fn typename(&self, participant: &crate::domain::DomainParticipant) -> (r: Result<String, ReturnCodes>)
        requires
            participant.wf(),
        ensures
            crate::domain::kind_error(participant@, self.entity_id(), crate::domain::EntityKind::Topic) matches Some(e) ==> r == Err::<String, _>(e),
            crate::domain::kind_error(participant@, self.entity_id(), crate::domain::EntityKind::Topic) is None ==> (r matches Ok(s) && s@ == self.typename_view()),
    {
        match participant.check_kind(self.topic, crate::domain::EntityKind::Topic) {
            Some(e) => Err(e),
            None => Ok(self.typename.clone()),
        }
    }

    /// Turns this topic into a typed one where `expected_typename` is the
    /// name of its type; any other name is a type mismatch.
    pub fn into_typed<T>(self, expected_typename: &str) -> (r: Result<Topic<T>, ReturnCodes>)
        ensures
            expected_typename@ != self.typename_view() ==> r == Err::<Topic<T>, _>(ReturnCodes::BadParameter),
            expected_typename@ == self.typename_view() ==> (r matches Ok(t) && t.entity_id() == self.entity_id()
                && t.name_view() == self.name_view() && t.typename_view() == self.typename_view()),
    {
        let expected = crate::qos::str_to_string(expected_typename);
        if expected != self.typename {
            return Err(ReturnCodes::BadParameter);
        }
        Ok(Topic { topic: self.topic, name: self.name, typename: self.typename, _marker: std::marker::PhantomData })
    }
}

impl crate::common::Entity for AnyTopic {
    closed spec fn entity_id(&self) -> int {
        self.topic as int
    }

    fn handle(&self) -> (r: i32) {
        self.topic
    }
}

impl<T> crate::common::Entity for Topic<T> {
    closed spec fn entity_id(&self) -> int {
        self.topic as int
    }

    fn handle(&self) -> (r: i32) {
        self.topic
    }
}

impl<T> Topic<T> {
    /// The name the topic is registered under.
    pub closed spec fn name_view(&self) -> Seq<char> {
        self.name@
    }

    /// The type name the topic is registered under.
    pub closed spec fn typename_view(&self) -> Seq<char> {
        self.typename@
    }

    /// The type-erased form of this topic, carrying the names it is
    /// registered under.
    pub fn into_any(self) -> (r: AnyTopic)
        ensures
            r.entity_id() == self.entity_id(),
            r.name_view() == self.name_view(),
            r.typename_view() == self.typename_view(),
    {
        AnyTopic { topic: self.topic, name: self.name, typename: self.typename }
    }

    /// Registers topic `name` of type `typename` with the given key offsets,
    /// or attaches to the topic already registered under `name`, and gives
    /// it the sample type `T`.
    pub fn new_named(participant: &mut crate::domain::DomainParticipant, name: &str, typename: &str, key_offsets: &[u32]) -> (r: Result<Topic<T>, ReturnCodes>)
        requires
            old(participant).wf(),
        ensures
            final(participant).wf(),
            topic_outcome(old(participant)@, final(participant)@, name@, typename@, r),
    {
        match participant.create_topic(name, typename, key_offsets) {
            Ok(a) => a.into_typed(typename),
            Err(e) => Err(e),
        }
    }
}

impl<T: TopicType> Topic<T> {
    /// Registers the topic of `T` under `T::name()` and `T::typename()` with
    /// `T`'s key offsets, as `new_named` does, or attaches to the one already
    /// registered under that name.
    pub fn new(participant: &mut crate::domain::DomainParticipant) -> (r: Result<Topic<T>, ReturnCodes>)
        requires
            old(participant).wf(),
        ensures
            final(participant).wf(),
            exists|name: Seq<char>, typename: Seq<char>|
                topic_outcome(old(participant)@, final(participant)@, name, typename, r),
            r matches Ok(t) ==> topic_outcome(old(participant)@, final(participant)@, t.name_view(), t.typename_view(), r),
    {
        let d = T::topic_descriptor();
        let keys = d.key_offsets();
        let n = T::name();
        let tn = T::typename();
        let r = Topic::new_named(participant, n, tn, keys.as_slice());
        proof {
            assert(topic_outcome(old(participant)@, final(participant)@, n@, tn@, r));
        }
        r
    }

    /// The typed form of `any`, as `any.into_typed(T::typename())`: a type
    /// mismatch (`BadParameter`) where `any`'s type name is not `T`'s.
    pub fn try_from_any(any: AnyTopic) -> (r: Result<Topic<T>, ReturnCodes>)
        ensures
            r is Err ==> r == Err::<Topic<T>, _>(ReturnCodes::BadParameter),
            r matches Ok(t) ==> t.entity_id() == any.entity_id() && t.name_view() == any.name_view()
                && t.typename_view() == any.typename_view(),
    {
        any.into_typed(T::typename())
    }
}

/// Where a topic is looked up.
#[derive(Debug, Clone, Copy, PartialEq, Eq, Structural)]
pub enum FindScope {
    Global,
    LocalDomain,
    Participant,
}

/// The shape of a topic filter.
#[derive(Debug, Clone, Copy, PartialEq, Eq, Structural)]
pub enum FilterMode {
    NoFilter,
    Sample,
    SampleArg,
    SampleinfoArg,
    SampleSampleinfoArg,
}

/// A listener on a topic.
pub struct TopicListener {
    pub(crate) listener: i32,
}

/// Support for a topic's type.
pub trait TopicSupport {}

/// The kinds of type identifier.
#[derive(Debug, Clone, Copy, PartialEq, Eq, Structural)]
pub enum TopicIdKind {
    Minimal,
    Complete,
}

/// The QoS of a topic.
pub struct TopicQos {}

/// A content filter of a topic.
pub struct Filter {}

/// A message type that names itself at run time.
pub trait MessageType {
    fn name() -> String;

    fn typename() -> String;
}

/// A topic type that extends another.
pub trait XType: TopicType {
    type Extends;

    fn extends() -> Self::Extends;

    fn extends_name() -> String;
}

/// Built-in topic data of a participant.
pub struct ParticipantBuiltinTopicData {}

/// Built-in topic data of a topic.
pub struct TopicBuiltinTopicData {}

/// Built-in topic data of a writer.
pub struct PublicationBuiltinTopicData {}

/// Built-in topic data of a reader.
pub struct SubscriptionBuiltinTopicData {}

/// The description of a topic.
pub struct TopicDescription {}

/// The network identifier of a topic.
pub struct TopicGuid {
    pub guid: crate::domain::DdsGuid,
}

impl crate::common::Guid for TopicGuid {
    fn guid(&self) -> [u8; 16] {
        self.guid.v
    }
}

/// Serialized type information held as text.
pub struct MetaSer {
    pub data: String,
}

/// Type identifier kind for getting an endpoint's type identifier.
#[derive(Debug, Clone, Copy, PartialEq, Eq, Structural)]
pub enum TypeidKind {
    /// Minimal type identifier
    Minimal,
    /// Complete type identifier
    Complete,
}

/// A built-in topic.
pub struct BuiltinTopic {}

/// A built-in topic endpoint.
pub struct BuiltinTopicEndpoint {}

/// The identifier of a built-in topic.
pub struct BuiltinTopicGuid {}

impl AnyTopic {
    /// The INCONSISTENT_TOPIC status: a participant refuses a second type
    /// under a registered name, so a live topic never meets an inconsistent
    /// one.
    pub fn inconsistent_topic_status(&self, participant: &crate::domain::DomainParticipant) -> (r: Result<crate::InconsistentTopicStatus, ReturnCodes>)
        requires
            participant.wf(),
        ensures
            crate::domain::kind_error(participant@, self.entity_id(), crate::domain::EntityKind::Topic) matches Some(e) ==> r == Err::<crate::InconsistentTopicStatus, _>(e),
            crate::domain::kind_error(participant@, self.entity_id(), crate::domain::EntityKind::Topic) is None ==> r == Ok::<_, ReturnCodes>(crate::InconsistentTopicStatus { total_count: 0, total_count_change: 0 }),
    {
        match participant.check_kind(self.topic, crate::domain::EntityKind::Topic) {
            Some(e) => Err(e),
            None => Ok(crate::InconsistentTopicStatus { total_count: 0, total_count_change: 0 }),
        }
    }
}


/// A path separator `::` starts at `k`.
pub open spec fn sep_at(s: Seq<char>, k: int) -> bool {
    0 <= k && k + 1 < s.len() && s[k] == ':' && s[k + 1] == ':'
}

/// Start of the last separator lying wholly before `n`, or -1.
pub open spec fn last_sep_before(s: Seq<char>, n: int) -> int
    decreases n,
{
    if n < 2 {
        -1
    } else if sep_at(s, n - 2) {
        n - 2
    } else {
        last_sep_before(s, n - 1)
    }
}

/// Start of the first separator at or after `k`, or -1.
pub open spec fn first_sep_from(s: Seq<char>, k: int) -> int
    decreases s.len() - k,
{
    if k < 0 || k + 1 >= s.len() {
        -1
    } else if sep_at(s, k) {
        k
    } else {
        first_sep_from(s, k + 1)
    }
}

/// The last segment of a `::`-separated path.
pub open spec fn last_segment(s: Seq<char>) -> Seq<char> {
    let k = last_sep_before(s, s.len() as int);
    if k < 0 {
        s
    } else {
        s.subrange(k + 2, s.len() as int)
    }
}

/// A `::`-separated path without its first segment (the crate), or the
/// whole path where it has a single segment.
pub open spec fn without_first_segment(s: Seq<char>) -> Seq<char> {
    let k = first_sep_from(s, 0);
    if k < 0 {
        s
    } else {
        s.subrange(k + 2, s.len() as int)
    }
}

/// The short name of a type from its full path: the part after the last
/// `::`. It is the default topic name of a type.
pub fn short_typename(full: &str) -> (r: &str)
    ensures
        r@ == last_segment(full@),
{
    let n = full.unicode_len();
    let mut i: usize = n;
    while i >= 2
        invariant
            n == full@.len(),
            i <= n,
            last_sep_before(full@, n as int) == last_sep_before(full@, i as int),
        decreases i,
    {
        if full.get_char(i - 2) == ':' && full.get_char(i - 1) == ':' {
            return full.substring_char(i, n);
        }
        i = i - 1;
    }
    full
}

/// The qualified name of a type from its full path, without the crate:
/// the part after the first `::`.
pub fn typename_without_crate(full: &str) -> (r: &str)
    ensures
        r@ == without_first_segment(full@),
{
    let n = full.unicode_len();
    let mut i: usize = 0;
    while i < n && n - i > 1
        invariant
            n == full@.len(),
            i <= n,
            first_sep_from(full@, 0) == first_sep_from(full@, i as int),
        decreases n - i,
    {
        if full.get_char(i) == ':' && full.get_char(i + 1) == ':' {
            return full.substring_char(i + 2, n);
        }
        i = i + 1;
    }
    full
}

} // verus!
