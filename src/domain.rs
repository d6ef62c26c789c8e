use vstd::prelude::*;

use crate::common::Entity;

use crate::common::{EntityParticipantError, ParentError, ReturnCodes};
use crate::qos::{Qos, QosView, default_qos, first_named, lemma_first_named_bounds, lemma_first_named_prefix};

verus! {

/// The kinds of entity.
#[derive(Debug, Clone, Copy, PartialEq, Eq, Structural)]
pub enum EntityKind {
    DontCare,
    Topic,
    Particpant,
    Reader,
    Writer,
    Subscriber,
    Publisher,
    CondRead,
    CondQuarry,
    CondGuard,
    Waitset,
    Domain,
    CycloneDds,
}

impl EntityKind {
    /// The kind that a numeric kind code stands for; codes past the last kind
    /// are not admitted.
    pub fn from_c(entity_kind: u32) -> (r: EntityKind)
        requires
            entity_kind <= 12,
        ensures
            r == kind_of_code(entity_kind as int),
    {
        match entity_kind {
            0 => EntityKind::DontCare,
            1 => EntityKind::Topic,
            2 => EntityKind::Particpant,
            3 => EntityKind::Reader,
            4 => EntityKind::Writer,
            5 => EntityKind::Subscriber,
            6 => EntityKind::Publisher,
            7 => EntityKind::CondRead,
            8 => EntityKind::CondQuarry,
            9 => EntityKind::CondGuard,
            10 => EntityKind::Waitset,
            11 => EntityKind::Domain,
            _ => EntityKind::CycloneDds,
        }
    }
}

pub open spec fn kind_of_code(c: int) -> EntityKind {
    if c == 0 {
        EntityKind::DontCare
    } else if c == 1 {
        EntityKind::Topic
    } else if c == 2 {
        EntityKind::Particpant
    } else if c == 3 {
        EntityKind::Reader
    } else if c == 4 {
        EntityKind::Writer
    } else if c == 5 {
        EntityKind::Subscriber
    } else if c == 6 {
        EntityKind::Publisher
    } else if c == 7 {
        EntityKind::CondRead
    } else if c == 8 {
        EntityKind::CondQuarry
    } else if c == 9 {
        EntityKind::CondGuard
    } else if c == 10 {
        EntityKind::Waitset
    } else if c == 11 {
        EntityKind::Domain
    } else {
        EntityKind::CycloneDds
    }
}

/// The handle that names an instance (a key value of a topic) or an entity.
#[derive(Debug, Clone, Copy, PartialEq, Eq, Structural)]
pub struct InstanceHandle {
    pub handle: u64,
}

/// A 16-byte network identifier.
#[derive(Debug, Clone, Copy)]
pub struct DdsGuid {
    pub v: [u8; 16],
}

/// One node of a participant's entity tree.
#[derive(Debug, Clone, Copy, PartialEq, Eq, Structural)]
pub struct EntityRecord {
    pub kind: EntityKind,
    /// Index of the parent; the participant at index 0 is its own parent.
    pub parent: usize,
    pub deleted: bool,
    /// For a topic, reader or writer: index of the topic in the registry.
    pub topic: usize,
    /// For a reader or writer: index of the topic entity it was created with.
    pub topic_entity: usize,
    /// For a publisher: whether sending is suspended.
    pub suspended: bool,
}

/// A registered topic: its name, its type's name and the byte offsets of its
/// 32-bit key fields in a serialized sample.
pub struct TopicRecord {
    pub name: String,
    pub typename: String,
    pub key_offsets: Vec<u32>,
}

pub struct TopicView {
    pub name: Seq<char>,
    pub typename: Seq<char>,
    pub key_offsets: Seq<u32>,
}

impl View for TopicRecord {
    type V = TopicView;

    open spec fn view(&self) -> TopicView {
        TopicView { name: self.name@, typename: self.typename@, key_offsets: self.key_offsets@ }
    }
}

/// Largest number of entities that one participant holds.
pub const MAX_ENTITIES: usize = 0x7fff_fff0;

/// What a participant holds: its domain, its entity tree and the QoS of each
/// entity, its topic registry, its instances and its readers' history caches.
pub struct ParticipantView {
    pub domain_id: u32,
    pub entities: Seq<EntityRecord>,
    pub qos: Seq<QosView>,
    pub topics: Seq<TopicView>,
    pub instances: Seq<(usize, Seq<u8>)>,
    pub samples: Seq<crate::subscriber::SampleView>,
    /// For each entity, the live and total match counts last reported.
    pub reported: Seq<(u32, u32)>,
    /// The (writer, instance handle) pairs registered and not unregistered.
    pub registrations: Seq<(usize, u64)>,
}

/// `i` lies in the subtree rooted at `h`.
pub open spec fn descends(ents: Seq<EntityRecord>, i: int, h: int) -> bool
    decreases i,
{
    if i == h {
        true
    } else if h < i && i < ents.len() && ents[i].parent < i {
        descends(ents, ents[i].parent as int, h)
    } else {
        false
    }
}

/// The tree shape: the participant is the root at index 0 and every other
/// node's parent comes before it; a deleted node's children are deleted.
pub open spec fn tree_wf(ents: Seq<EntityRecord>) -> bool {
    &&& 1 <= ents.len() <= MAX_ENTITIES
    &&& ents[0].kind == EntityKind::Particpant
    &&& ents[0].parent == 0
    &&& forall|i: int| 0 < i < ents.len() ==> #[trigger] ents[i].parent < i
    &&& forall|i: int|
        0 < i < ents.len() ==> (#[trigger] ents[i]).kind != EntityKind::Particpant
    &&& forall|i: int| 0 < i < ents.len() ==> #[trigger] deletion_closed_at(ents, i)
}

/// Where the parent of `i` is deleted, so is `i`.
pub open spec fn deletion_closed_at(ents: Seq<EntityRecord>, i: int) -> bool {
    ents[ents[i].parent as int].deleted ==> ents[i].deleted
}

/// A reader or writer names a topic entity of the same topic.
pub open spec fn endpoint_ok(v: ParticipantView, i: int) -> bool {
    (v.entities[i].kind == EntityKind::Reader || v.entities[i].kind == EntityKind::Writer)
        ==> (v.entities[i].topic_entity < v.entities.len()
        && v.entities[v.entities[i].topic_entity as int].kind == EntityKind::Topic
        && v.entities[v.entities[i].topic_entity as int].topic == v.entities[i].topic)
}

pub open spec fn valid_handle(v: ParticipantView, h: int) -> bool {
    0 <= h < v.entities.len()
}

pub open spec fn live(v: ParticipantView, h: int) -> bool {
    valid_handle(v, h) && !v.entities[h].deleted
}

/// The error that an operation on handle `h` reports before anything else:
/// a handle that names nothing is a bad parameter, a deleted one is already
/// deleted.
pub open spec fn handle_error(v: ParticipantView, h: int) -> Option<ReturnCodes> {
    if !valid_handle(v, h) {
        Some(ReturnCodes::BadParameter)
    } else if v.entities[h].deleted {
        Some(ReturnCodes::AlreadyDeleted)
    } else {
        None
    }
}

/// The records after deleting the subtree rooted at `h`.
pub open spec fn deleted_subtree(ents: Seq<EntityRecord>, h: int) -> Seq<EntityRecord> {
    Seq::new(
        ents.len(),
        |i: int|
            if descends(ents, i, h) {
                EntityRecord { deleted: true, ..ents[i] }
            } else {
                ents[i]
            },
    )
}

/// The instance handle of entity `i`.
pub open spec fn entity_instance_handle(i: int) -> u64 {
    (i + 1) as u64
}

/// The identifier of entity `i` in domain `d`: the domain id and the entity
/// index, each as four big-endian bytes, around eight zero bytes.
pub open spec fn guid_bytes(d: u32, i: u32) -> Seq<u8> {
    seq![
        (d >> 24u32) as u8, (d >> 16u32) as u8, (d >> 8u32) as u8, d as u8,
        0u8, 0u8, 0u8, 0u8, 0u8, 0u8, 0u8, 0u8,
        (i >> 24u32) as u8, (i >> 16u32) as u8, (i >> 8u32) as u8, i as u8,
    ]
}

/// The domain id that stands for "the default domain"; it names no domain of
/// its own and cannot be created explicitly.
pub const DOMAIN_DEFAULT: u32 = 0xffff_ffff;

/// The name of the participant built-in topic.
pub const BUILTIN_PARTICIPANT_TOPIC: &'static str = "DCPSParticipant";

/// The name of the type of the participant built-in topic.
pub const BUILTIN_PARTICIPANT_TYPE: &'static str = "ParticipantBuiltinTopicData";

/// The domain ids in common use.
pub const MAX_TYPICAL_DOMAIN_ID: u32 = 232;

/// Why a participant or domain could not be created.
#[derive(Debug, Clone, Copy, PartialEq, Eq, Structural)]
pub enum DomainCreationError {
    /// The default-domain id is not allowed here.
    BadParameter,
    /// The domain already existed and cannot be created again.
    PreconditionNotMet,
    /// An internal error has occurred.
    Error,
}

impl DomainCreationError {
    /// The error that a creation return code stands for, by its magnitude.
    pub fn from_code(value: i32) -> (r: DomainCreationError)
        requires
            value == 1 || value == -1 || value == 3 || value == -3 || value == 4 || value == -4,
        ensures
            (value == 1 || value == -1) ==> r == DomainCreationError::Error,
            (value == 3 || value == -3) ==> r == DomainCreationError::BadParameter,
            (value == 4 || value == -4) ==> r == DomainCreationError::PreconditionNotMet,
    {
        if value == 3 || value == -3 {
            DomainCreationError::BadParameter
        } else if value == 4 || value == -4 {
            DomainCreationError::PreconditionNotMet
        } else {
            DomainCreationError::Error
        }
    }
}

/// A builder of participants.
pub struct DomainParticipandBuilder {}

/// A listener on participant events.
pub trait DomainParticipantListener {}

/// The QoS of a participant.
pub struct DomainParticipantQos {}

/// Configuration handed over when a domain is created explicitly.
pub struct DomainParticipantConfigParams {
    pub config: Vec<u8>,
}

/// The root of an entity tree in one domain. It owns its publishers,
/// subscribers, topics, writers and readers, which are named by handles.
pub struct DomainParticipant {
    pub(crate) domain_id: u32,
    pub(crate) entities: Vec<EntityRecord>,
    pub(crate) qos: Vec<Qos>,
    pub(crate) topics: Vec<TopicRecord>,
    pub(crate) instances: Vec<(usize, Vec<u8>)>,
    pub(crate) samples: Vec<crate::subscriber::CachedSample>,
    pub(crate) reported: Vec<(u32, u32)>,
    pub(crate) registrations: Vec<(usize, u64)>,
}

pub open spec fn qos_views(q: Seq<Qos>) -> Seq<QosView> {
    q.map_values(|x: Qos| x@)
}

pub open spec fn topic_views(t: Seq<TopicRecord>) -> Seq<TopicView> {
    t.map_values(|x: TopicRecord| x@)
}

pub open spec fn instance_views(t: Seq<(usize, Vec<u8>)>) -> Seq<(usize, Seq<u8>)> {
    t.map_values(|x: (usize, Vec<u8>)| (x.0, x.1@))
}

impl View for DomainParticipant {
    type V = ParticipantView;

    closed spec fn view(&self) -> ParticipantView {
        ParticipantView {
            domain_id: self.domain_id,
            entities: self.entities@,
            qos: qos_views(self.qos@),
            topics: topic_views(self.topics@),
            instances: instance_views(self.instances@),
            samples: crate::subscriber::sample_views(self.samples@),
            reported: self.reported@,
            registrations: self.registrations@,
        }
    }
}

/// The participant's invariant.
pub open spec fn participant_wf(v: ParticipantView) -> bool {
    &&& tree_wf(v.entities)
    &&& v.qos.len() == v.entities.len()
    &&& v.reported.len() == v.entities.len()
    &&& forall|i: int| 0 <= i < v.reported.len() ==> (#[trigger] v.reported[i]).0 <= MAX_ENTITIES && v.reported[i].1 <= MAX_ENTITIES
    &&& forall|i: int|
        0 <= i < v.entities.len() && ((#[trigger] v.entities[i]).kind == EntityKind::Topic
            || v.entities[i].kind == EntityKind::Reader || v.entities[i].kind
            == EntityKind::Writer) ==> v.entities[i].topic < v.topics.len()
    &&& forall|i: int| 0 <= i < v.entities.len() ==> #[trigger] endpoint_ok(v, i)
    &&& forall|i: int|
        0 <= i < v.instances.len() ==> (#[trigger] v.instances[i]).0 < v.topics.len()
    &&& v.instances.len() < 0xffff_fff0
    &&& forall|i: int|
        0 <= i < v.samples.len() ==> (#[trigger] v.samples[i]).reader < v.entities.len()
}

impl DomainParticipant {
    pub closed spec fn wf(&self) -> bool {
        participant_wf(self@)
    }

    /// What the invariant says of the participant's contents.
    pub proof fn lemma_wf(&self)
        requires
            self.wf(),
        ensures
            participant_wf(self@),
    {
    }

    fn create(domain_id: u32) -> (p: DomainParticipant)
        ensures
            p.wf(),
            p@.domain_id == domain_id,
            p@.entities.len() == 1,
            !p@.entities[0].deleted,
            p@.topics.len() == 0,
            p@.samples.len() == 0,
            p@.qos[0] == default_qos(),
    {
        let mut entities: Vec<EntityRecord> = Vec::new();
        entities.push(
            EntityRecord {
                kind: EntityKind::Particpant,
                parent: 0,
                deleted: false,
                topic: 0,
                topic_entity: 0,
                suspended: false,
            },
        );
        let mut qos: Vec<Qos> = Vec::new();
        qos.push(Qos::new());
        let mut reported: Vec<(u32, u32)> = Vec::new();
        reported.push((0, 0));
        let p = DomainParticipant {
            domain_id,
            entities,
            qos,
            topics: Vec::new(),
            instances: Vec::new(),
            samples: Vec::new(),
            reported,
            registrations: Vec::new(),
        };
        proof {
            assert(topic_views(p.topics@) =~= Seq::empty());
            assert(crate::subscriber::sample_views(p.samples@) =~= Seq::empty());
            assert(instance_views(p.instances@) =~= Seq::empty());
            assert(qos_views(p.qos@)[0] == p.qos@[0]@);
            assert(participant_wf(p@));
        }
        p
    }

    /// Creates a participant in domain `domain_id`. Any id other than the
    /// default-domain sentinel is accepted; ids past the common range are
    /// only unusual.
    pub fn new(domain_id: u32) -> (r: Result<DomainParticipant, DomainCreationError>)
        ensures
            domain_id == DOMAIN_DEFAULT ==> r == Err::<DomainParticipant, _>(DomainCreationError::BadParameter),
            domain_id != DOMAIN_DEFAULT ==> (r matches Ok(p) && p.wf() && p@.domain_id == domain_id
                && p@.entities.len() == 1 && !p@.entities[0].deleted && p@.topics.len() == 0
                && p@.samples.len() == 0 && p@.qos[0] == default_qos()),
    {
        if domain_id == DOMAIN_DEFAULT {
            return Err(DomainCreationError::BadParameter);
        }
        Ok(DomainParticipant::create(domain_id))
    }

    /// Creates a participant in a domain set up from a raw configuration.
    /// The default-domain sentinel is refused.
    pub fn raw_config(domain_id: u32, config: &DomainParticipantConfigParams) -> (r: Result<
        DomainParticipant,
        DomainCreationError,
    >)
        ensures
            domain_id == DOMAIN_DEFAULT ==> r == Err::<DomainParticipant, _>(DomainCreationError::BadParameter),
            domain_id != DOMAIN_DEFAULT ==> (r matches Ok(p) && p.wf() && p@.domain_id == domain_id
                && p@.entities.len() == 1 && !p@.entities[0].deleted),
    {
        DomainParticipant::new(domain_id)
    }

    /// The error that an operation on handle `h` reports first, if any.
    pub fn check_handle(&self, h: i32) -> (r: Option<ReturnCodes>)
        requires
            self.wf(),
        ensures
            r == handle_error(self@, h as int),
    {
        if h < 0 || h as usize >= self.entities.len() {
            Some(ReturnCodes::BadParameter)
        } else if self.entities[h as usize].deleted {
            Some(ReturnCodes::AlreadyDeleted)
        } else {
            None
        }
    }

    /// The kind of entity `h`.
    pub fn entity_kind(&self, h: i32) -> (r: Result<EntityKind, ReturnCodes>)
        requires
            self.wf(),
        ensures
            handle_error(self@, h as int) matches Some(e) ==> r == Err::<EntityKind, _>(e),
            handle_error(self@, h as int) is None ==> r == Ok::<_, ReturnCodes>(self@.entities[h as int].kind),
    {
        match self.check_handle(h) {
            Some(e) => Err(e),
            None => Ok(self.entities[h as usize].kind),
        }
    }
}


/// Everything in `i`'s subtree lies at or after `h`.
pub proof fn lemma_descends_after(ents: Seq<EntityRecord>, i: int, h: int)
    requires
        descends(ents, i, h),
    ensures
        h <= i,
    decreases i,
{
    if i != h {
        lemma_descends_after(ents, ents[i].parent as int, h);
    }
}

/// With the tree shape, every node lies in the participant's subtree.
pub proof fn lemma_all_descend_from_root(ents: Seq<EntityRecord>, i: int)
    requires
        tree_wf(ents),
        0 <= i < ents.len(),
    ensures
        descends(ents, i, 0),
    decreases i,
{
    if i > 0 {
        assert(ents[i].parent < i);
        lemma_all_descend_from_root(ents, ents[i].parent as int);
    }
}

impl DomainParticipant {
    /// Adds a child of `parent` and gives its handle.
    pub(crate) fn create_entity(&mut self, kind: EntityKind, parent: i32, topic: usize, topic_entity: usize, qos: Qos) -> (r: Result<i32, ReturnCodes>)
        requires
            old(self).wf(),
            kind != EntityKind::Particpant,
            (kind == EntityKind::Topic || kind == EntityKind::Reader || kind == EntityKind::Writer) ==> topic < old(self)@.topics.len(),
            (kind == EntityKind::Reader || kind == EntityKind::Writer) ==> (topic_entity < old(self)@.entities.len()
                && old(self)@.entities[topic_entity as int].kind == EntityKind::Topic
                && old(self)@.entities[topic_entity as int].topic == topic),
        ensures
            final(self).wf(),
            handle_error(old(self)@, parent as int) matches Some(e) ==> r == Err::<i32, _>(e) && final(self)@ == old(self)@,
            handle_error(old(self)@, parent as int) is None && old(self)@.entities.len() >= MAX_ENTITIES ==> r == Err::<i32, _>(ReturnCodes::OutOfResources) && final(self)@ == old(self)@,
            handle_error(old(self)@, parent as int) is None && old(self)@.entities.len() < MAX_ENTITIES ==> r == Ok::<i32, ReturnCodes>(old(self)@.entities.len() as i32)
                && final(self)@ == (ParticipantView {
                    entities: old(self)@.entities.push(EntityRecord { kind, parent: parent as usize, deleted: false, topic, topic_entity, suspended: false }),
                    qos: old(self)@.qos.push(qos@),
                    reported: old(self)@.reported.push((0u32, 0u32)),
                    ..old(self)@
                }),
    {
        if let Some(e) = self.check_handle(parent) {
            return Err(e);
        }
        if self.entities.len() >= MAX_ENTITIES {
            return Err(ReturnCodes::OutOfResources);
        }
        let ghost ov = self@;
        let h = self.entities.len();
        self.entities.push(EntityRecord { kind, parent: parent as usize, deleted: false, topic, topic_entity, suspended: false });
        let ghost oq = self.qos@;
        let ghost q = qos@;
        self.qos.push(qos);
        self.reported.push((0, 0));
        proof {
            assert(qos_views(self.qos@) =~= qos_views(oq).push(q));
            let nv = self@;
            assert forall|i: int| 0 < i < nv.entities.len() implies #[trigger] deletion_closed_at(nv.entities, i) by {
                if i < ov.entities.len() {
                    assert(deletion_closed_at(ov.entities, i));
                }
            }
            assert forall|i: int| 0 <= i < nv.entities.len() implies #[trigger] endpoint_ok(nv, i) by {
                if i < ov.entities.len() {
                    assert(endpoint_ok(ov, i));
                }
            }
            assert(tree_wf(nv.entities));
        }
        Ok(h as i32)
    }

    /// Deletes entity `h` together with everything below it in the tree.
    /// Deleting a handle a second time reports `AlreadyDeleted`.
    pub fn delete(&mut self, h: i32) -> (r: Result<(), ReturnCodes>)
        requires
            old(self).wf(),
        ensures
            final(self).wf(),
            handle_error(old(self)@, h as int) matches Some(e) ==> r == Err::<(), _>(e) && final(self)@ == old(self)@,
            handle_error(old(self)@, h as int) is None ==> r == Ok::<(), ReturnCodes>(())
                && final(self)@ == (ParticipantView { entities: deleted_subtree(old(self)@.entities, h as int), ..old(self)@ }),
    {
        if let Some(e) = self.check_handle(h) {
            return Err(e);
        }
        let ghost old_ents = self.entities@;
        let ghost ov = self@;
        let hu = h as usize;
        let mut desc: Vec<bool> = Vec::new();
        let mut i: usize = 0;
        while i < self.entities.len()
            invariant
                tree_wf(old_ents),
                hu < old_ents.len(),
                self.entities@.len() == old_ents.len(),
                i <= old_ents.len(),
                desc@.len() == i,
                forall|k: int| 0 <= k < i ==> desc@[k] == descends(old_ents, k, hu as int),
                forall|k: int| 0 <= k < i ==> #[trigger] self.entities@[k] == deleted_subtree(old_ents, hu as int)[k],
                forall|k: int| i <= k < old_ents.len() ==> #[trigger] self.entities@[k] == old_ents[k],
                self.domain_id == old(self).domain_id,
                self.qos@ == old(self).qos@,
                self.topics@ == old(self).topics@,
                self.instances@ == old(self).instances@,
                self.samples@ == old(self).samples@,
                self.reported@ == old(self).reported@,
                self.registrations@ == old(self).registrations@,
            decreases old_ents.len() - i,
        {
            let rec = self.entities[i];
            let d = i == hu || (i > hu && rec.parent < i && desc[rec.parent]);
            proof {
                if i > hu {
                    assert(old_ents[i as int].parent < i);
                }
            }
            desc.push(d);
            if d {
                self.entities.set(i, EntityRecord { deleted: true, ..rec });
            }
            i = i + 1;
        }
        proof {
            assert(self.entities@ =~= deleted_subtree(old_ents, hu as int));
            let ne = self.entities@;
            assert forall|c: int| 0 < c < ne.len() implies #[trigger] deletion_closed_at(ne, c) by {
                let p = ne[c].parent as int;
                assert(old_ents[c].parent == ne[c].parent);
                assert(deletion_closed_at(old_ents, c));
                if ne[p].deleted && !old_ents[p].deleted {
                    assert(descends(old_ents, p, hu as int));
                    lemma_descends_after(old_ents, p, hu as int);
                    assert(descends(old_ents, c, hu as int));
                }
            }
            assert forall|k: int| 0 < k < ne.len() implies #[trigger] ne[k].parent < k by {
                assert(old_ents[k].parent == ne[k].parent);
            }
            assert forall|k: int| 0 < k < ne.len() implies (#[trigger] ne[k]).kind != EntityKind::Particpant by {
                assert(old_ents[k].kind == ne[k].kind);
            }
            assert(tree_wf(ne));
            assert forall|k: int| 0 <= k < ne.len() implies #[trigger] ne[k].kind == old_ents[k].kind && ne[k].topic == old_ents[k].topic && ne[k].topic_entity == old_ents[k].topic_entity by {}
            let nv = self@;
            assert forall|i: int| 0 <= i < nv.entities.len() implies #[trigger] endpoint_ok(nv, i) by {
                assert(endpoint_ok(ov, i));
                let t = ne[i].topic_entity as int;
                if 0 <= t < ne.len() {
                    assert(ne[t].kind == old_ents[t].kind && ne[t].topic == old_ents[t].topic);
                }
            }
        }
        Ok(())
    }

    /// The instance handle of entity `h`.
    pub fn entity_instance_handle(&self, h: i32) -> (r: Result<InstanceHandle, ReturnCodes>)
        requires
            self.wf(),
        ensures
            handle_error(self@, h as int) matches Some(e) ==> r == Err::<InstanceHandle, _>(e),
            handle_error(self@, h as int) is None ==> r == Ok::<_, ReturnCodes>(InstanceHandle { handle: entity_instance_handle(h as int) }),
    {
        match self.check_handle(h) {
            Some(e) => Err(e),
            None => Ok(InstanceHandle { handle: (h as u64) + 1 }),
        }
    }

    /// The network identifier of entity `h`; only participants, readers and
    /// writers have one.
    pub fn entity_guid(&self, h: i32) -> (r: Result<DdsGuid, ReturnCodes>)
        requires
            self.wf(),
        ensures
            handle_error(self@, h as int) matches Some(e) ==> r == Err::<DdsGuid, _>(e),
            handle_error(self@, h as int) is None ==> {
                let k = self@.entities[h as int].kind;
                if k == EntityKind::Particpant || k == EntityKind::Reader || k == EntityKind::Writer {
                    r matches Ok(g) && g.v@ == guid_bytes(self@.domain_id, h as u32)
                } else {
                    r matches Err(e) && e == ReturnCodes::IllegalOperation
                }
            },
    {
        match self.check_handle(h) {
            Some(e) => Err(e),
            None => {
                let k = self.entities[h as usize].kind;
                if k == EntityKind::Particpant || k == EntityKind::Reader || k == EntityKind::Writer {
                    let d = self.domain_id;
                    let i = h as u32;
                    let v: [u8; 16] = [
                        (d >> 24u32) as u8, (d >> 16u32) as u8, (d >> 8u32) as u8, d as u8,
                        0u8, 0u8, 0u8, 0u8, 0u8, 0u8, 0u8, 0u8,
                        (i >> 24u32) as u8, (i >> 16u32) as u8, (i >> 8u32) as u8, i as u8,
                    ];
                    proof {
                        assert(v@ =~= guid_bytes(self@.domain_id, h as u32));
                    }
                    Ok(DdsGuid { v })
                } else {
                    Err(ReturnCodes::IllegalOperation)
                }
            },
        }
    }

    /// The id of the domain that entity `h` belongs to.
    pub fn entity_domain_id(&self, h: i32) -> (r: Result<u32, ReturnCodes>)
        requires
            self.wf(),
        ensures
            handle_error(self@, h as int) matches Some(e) ==> r == Err::<u32, _>(e),
            handle_error(self@, h as int) is None ==> r == Ok::<_, ReturnCodes>(self@.domain_id),
    {
        match self.check_handle(h) {
            Some(e) => Err(e),
            None => Ok(self.domain_id),
        }
    }

    /// The handle of the participant that entity `h` belongs to.
    pub fn entity_participant(&self, h: i32) -> (r: Result<i32, EntityParticipantError>)
        requires
            self.wf(),
        ensures
            handle_error(self@, h as int) == Some(ReturnCodes::BadParameter) ==> r == Err::<i32, _>(EntityParticipantError::IllegalOperation),
            handle_error(self@, h as int) == Some(ReturnCodes::AlreadyDeleted) ==> r == Err::<i32, _>(EntityParticipantError::AlreadyDeleted),
            handle_error(self@, h as int) is None ==> r == Ok::<i32, EntityParticipantError>(0),
    {
        match self.check_handle(h) {
            Some(ReturnCodes::AlreadyDeleted) => Err(EntityParticipantError::AlreadyDeleted),
            Some(_) => Err(EntityParticipantError::IllegalOperation),
            None => Ok(0),
        }
    }

    /// The handle of the parent of entity `h`; a participant has none.
    pub fn entity_parent(&self, h: i32) -> (r: Result<i32, ParentError>)
        requires
            self.wf(),
        ensures
            handle_error(self@, h as int) == Some(ReturnCodes::BadParameter) ==> r == Err::<i32, _>(ParentError::IllegalOperation),
            handle_error(self@, h as int) == Some(ReturnCodes::AlreadyDeleted) ==> r == Err::<i32, _>(ParentError::AlreadyDeleted),
            handle_error(self@, h as int) is None && h == 0 ==> r == Err::<i32, _>(ParentError::NIL),
            handle_error(self@, h as int) is None && h != 0 ==> r == Ok::<i32, ParentError>(self@.entities[h as int].parent as i32),
    {
        match self.check_handle(h) {
            Some(ReturnCodes::AlreadyDeleted) => Err(ParentError::AlreadyDeleted),
            Some(_) => Err(ParentError::IllegalOperation),
            None => {
                if h == 0 {
                    Err(ParentError::NIL)
                } else {
                    Ok(self.entities[h as usize].parent as i32)
                }
            },
        }
    }

    /// Renews the liveliness of entity `h`: only a participant or a writer can
    /// assert it.
    pub fn entity_assert_liveliness(&self, h: i32) -> (r: Result<(), ReturnCodes>)
        requires
            self.wf(),
        ensures
            handle_error(self@, h as int) matches Some(e) ==> r == Err::<(), _>(e),
            handle_error(self@, h as int) is None ==> {
                let k = self@.entities[h as int].kind;
                if k == EntityKind::Particpant || k == EntityKind::Writer {
                    r == Ok::<(), ReturnCodes>(())
                } else {
                    r == Err::<(), _>(ReturnCodes::IllegalOperation)
                }
            },
    {
        match self.check_handle(h) {
            Some(e) => Err(e),
            None => {
                let k = self.entities[h as usize].kind;
                if k == EntityKind::Particpant || k == EntityKind::Writer {
                    Ok(())
                } else {
                    Err(ReturnCodes::IllegalOperation)
                }
            },
        }
    }

    /// The QoS that entity `h` was created with.
    pub fn entity_qos(&self, h: i32) -> (r: Result<Qos, ReturnCodes>)
        requires
            self.wf(),
        ensures
            handle_error(self@, h as int) matches Some(e) ==> r is Err && r == Err::<Qos, _>(e),
            handle_error(self@, h as int) is None ==> (r matches Ok(q) && q@ == self@.qos[h as int]),
    {
        match self.check_handle(h) {
            Some(e) => Err(e),
            None => {
                proof {
                    assert(qos_views(self.qos@)[h as int] == self.qos@[h as int]@);
                }
                Ok(self.qos[h as usize].copy())
            },
        }
    }

    /// The participant's own QoS.
    pub fn qos(&self) -> (r: Result<Qos, ReturnCodes>)
        requires
            self.wf(),
        ensures
            self@.entities[0].deleted ==> r is Err && r == Err::<Qos, _>(ReturnCodes::AlreadyDeleted),
            !self@.entities[0].deleted ==> (r matches Ok(q) && q@ == self@.qos[0]),
    {
        self.entity_qos(0)
    }

    /// The participant's instance handle.
    pub fn instance_handle(&self) -> (r: Result<InstanceHandle, ReturnCodes>)
        requires
            self.wf(),
        ensures
            self@.entities[0].deleted ==> r == Err::<InstanceHandle, _>(ReturnCodes::AlreadyDeleted),
            !self@.entities[0].deleted ==> r == Ok::<_, ReturnCodes>(InstanceHandle { handle: entity_instance_handle(0) }),
    {
        self.entity_instance_handle(0)
    }

    /// The participant's network identifier.
    pub fn guid(&self) -> (r: Result<DdsGuid, ReturnCodes>)
        requires
            self.wf(),
        ensures
            self@.entities[0].deleted ==> r is Err && r == Err::<DdsGuid, _>(ReturnCodes::AlreadyDeleted),
            !self@.entities[0].deleted ==> (r matches Ok(g) && g.v@ == guid_bytes(self@.domain_id, 0)),
    {
        self.entity_guid(0)
    }

    /// The participant's domain id.
    pub fn domain_id(&self) -> (r: Result<u32, ReturnCodes>)
        requires
            self.wf(),
        ensures
            self@.entities[0].deleted ==> r == Err::<u32, _>(ReturnCodes::AlreadyDeleted),
            !self@.entities[0].deleted ==> r == Ok::<_, ReturnCodes>(self@.domain_id),
    {
        self.entity_domain_id(0)
    }

    /// Renews the participant's liveliness.
    pub fn assert_liveliness(&self) -> (r: Result<(), ReturnCodes>)
        requires
            self.wf(),
        ensures
            self@.entities[0].deleted ==> r == Err::<(), _>(ReturnCodes::AlreadyDeleted),
            !self@.entities[0].deleted ==> r == Ok::<(), ReturnCodes>(()),
    {
        self.entity_assert_liveliness(0)
    }

    /// The handle of the participant itself.
    pub fn participant(&self) -> (r: Result<i32, EntityParticipantError>)
        requires
            self.wf(),
        ensures
            self@.entities[0].deleted ==> r == Err::<i32, _>(EntityParticipantError::AlreadyDeleted),
            !self@.entities[0].deleted ==> r == Ok::<i32, EntityParticipantError>(0),
    {
        self.entity_participant(0)
    }

    /// Creates a publisher under this participant.
    pub fn publisher(&mut self) -> (r: Result<crate::publisher::Publisher, ReturnCodes>)
        requires
            old(self).wf(),
        ensures
            final(self).wf(),
            old(self)@.entities[0].deleted ==> r == Err::<crate::publisher::Publisher, _>(ReturnCodes::AlreadyDeleted),
            !old(self)@.entities[0].deleted && old(self)@.entities.len() >= MAX_ENTITIES ==> r == Err::<crate::publisher::Publisher, _>(ReturnCodes::OutOfResources),
            !old(self)@.entities[0].deleted && old(self)@.entities.len() < MAX_ENTITIES ==> (r matches Ok(p) && p.entity_id() == old(self)@.entities.len())
                && final(self)@ == (ParticipantView {
                    entities: old(self)@.entities.push(EntityRecord { kind: EntityKind::Publisher, parent: 0, deleted: false, topic: 0, topic_entity: 0, suspended: false }),
                    qos: old(self)@.qos.push(default_qos()),
                    reported: old(self)@.reported.push((0u32, 0u32)),
                    ..old(self)@
                }),
    {
        match self.create_entity(EntityKind::Publisher, 0, 0, 0, Qos::new()) {
            Ok(h) => Ok(crate::publisher::Publisher::from_handle(h)),
            Err(e) => Err(e),
        }
    }

    /// Creates a subscriber under this participant.
    pub fn subscriber(&mut self) -> (r: Result<crate::subscriber::Subscriber, ReturnCodes>)
        requires
            old(self).wf(),
        ensures
            final(self).wf(),
            old(self)@.entities[0].deleted ==> r == Err::<crate::subscriber::Subscriber, _>(ReturnCodes::AlreadyDeleted),
            !old(self)@.entities[0].deleted && old(self)@.entities.len() >= MAX_ENTITIES ==> r == Err::<crate::subscriber::Subscriber, _>(ReturnCodes::OutOfResources),
            !old(self)@.entities[0].deleted && old(self)@.entities.len() < MAX_ENTITIES ==> (r matches Ok(p) && p.entity_id() == old(self)@.entities.len())
                && final(self)@ == (ParticipantView {
                    entities: old(self)@.entities.push(EntityRecord { kind: EntityKind::Subscriber, parent: 0, deleted: false, topic: 0, topic_entity: 0, suspended: false }),
                    qos: old(self)@.qos.push(default_qos()),
                    reported: old(self)@.reported.push((0u32, 0u32)),
                    ..old(self)@
                }),
    {
        match self.create_entity(EntityKind::Subscriber, 0, 0, 0, Qos::new()) {
            Ok(h) => Ok(crate::subscriber::Subscriber::from_handle(h)),
            Err(e) => Err(e),
        }
    }
}

/// Deleting a participant deletes every entity of its tree, so that each
/// handle of it reports `AlreadyDeleted` from then on: every query, every
/// read, take or peek, every write or registration, and every creation of
/// a child under it.
pub proof fn lemma_participant_delete_cascades(v: ParticipantView, h: int)
    requires
        participant_wf(v),
        0 <= h < v.entities.len(),
    ensures
        ({
            let d = ParticipantView { entities: deleted_subtree(v.entities, 0), ..v };
            &&& handle_error(d, h) == Some(ReturnCodes::AlreadyDeleted)
            &&& forall|k: EntityKind| #[trigger] kind_error(d, h, k) == Some(ReturnCodes::AlreadyDeleted)
            &&& read_error(d, h) == Some(ReturnCodes::AlreadyDeleted)
            &&& forall|data: Seq<u8>| #[trigger] write_error(d, h, data) == Some(ReturnCodes::AlreadyDeleted)
            &&& forall|k: EntityKind, th: int| #[trigger] endpoint_error(d, k, h, th) == Some(ReturnCodes::AlreadyDeleted)
        }),
{
    lemma_all_descend_from_root(v.entities, h);
}


/// The registry seen as (name, type name) pairs.
pub open spec fn topic_pairs(t: Seq<TopicView>) -> Seq<(Seq<char>, Seq<char>)> {
    t.map_values(|x: TopicView| (x.name, x.typename))
}

/// The outcome of registering a topic named `name` of type `typename`:
/// the registry index it gets, or the error.
pub open spec fn topic_registration(v: ParticipantView, name: Seq<char>, typename: Seq<char>) -> Result<int, ReturnCodes> {
    let f = first_named(topic_pairs(v.topics), name);
    if v.entities[0].deleted {
        Err(ReturnCodes::AlreadyDeleted)
    } else if f >= 0 && v.topics[f].typename != typename {
        Err(ReturnCodes::PreconditionNotMet)
    } else if v.entities.len() >= MAX_ENTITIES {
        Err(ReturnCodes::OutOfResources)
    } else if f >= 0 {
        Ok(f)
    } else {
        Ok(v.topics.len() as int)
    }
}

/// The participant after a successful registration of topic `name` of
/// type `typename` at registry index `t`: a live topic entity is added, and
/// the registry gains the topic only where the name was new.
pub open spec fn topic_registered(old_v: ParticipantView, new_v: ParticipantView, name: Seq<char>, typename: Seq<char>, t: int) -> bool {
    &&& new_v.entities == old_v.entities.push(EntityRecord { kind: EntityKind::Topic, parent: 0, deleted: false, topic: t as usize, topic_entity: 0, suspended: false })
    &&& new_v.qos == old_v.qos.push(default_qos())
    &&& new_v.reported == old_v.reported.push((0u32, 0u32))
    &&& (t < old_v.topics.len() ==> new_v.topics == old_v.topics)
    &&& (t == old_v.topics.len() ==> new_v.topics == old_v.topics.push(
        TopicView { name, typename, key_offsets: new_v.topics.last().key_offsets },
    ))
    &&& new_v.domain_id == old_v.domain_id
    &&& new_v.instances == old_v.instances
    &&& new_v.samples == old_v.samples
}

impl DomainParticipant {
    fn find_topic(&self, name: &String) -> (r: Option<usize>)
        ensures
            match r {
                Some(i) => i as int == first_named(topic_pairs(self@.topics), name@) && i < self@.topics.len(),
                None => first_named(topic_pairs(self@.topics), name@) == -1,
            },
    {
        let ghost ps = topic_pairs(self@.topics);
        proof {
            assert(self@.topics =~= topic_views(self.topics@));
        }
        let mut i: usize = 0;
        while i < self.topics.len()
            invariant
                i <= self.topics@.len(),
                ps == topic_pairs(topic_views(self.topics@)),
                first_named(ps.take(i as int), name@) == -1,
            decreases self.topics@.len() - i,
        {
            proof {
                assert(ps.take(i + 1).drop_last() =~= ps.take(i as int));
            }
            if self.topics[i].name == *name {
                proof {
                    lemma_first_named_prefix(ps, name@, i as int);
                }
                return Some(i);
            }
            i = i + 1;
        }
        proof {
            assert(ps.take(i as int) =~= ps);
        }
        None
    }

    /// Registers the topic `name` of type `typename`, or attaches to the
    /// topic already registered under that name, and creates a topic entity
    /// for it. A name already registered with another type is refused.
    pub fn create_topic(&mut self, name: &str, typename: &str, key_offsets: &[u32]) -> (r: Result<crate::topic::AnyTopic, ReturnCodes>)
        requires
            old(self).wf(),
        ensures
            final(self).wf(),
            topic_registration(old(self)@, name@, typename@) matches Err(e) ==> r == Err::<crate::topic::AnyTopic, _>(e) && final(self)@ == old(self)@,
            topic_registration(old(self)@, name@, typename@) matches Ok(t) ==> (r matches Ok(a)
                && a.entity_id() == old(self)@.entities.len()
                && a.name_view() == name@ && a.typename_view() == typename@
                && final(self)@.entities == old(self)@.entities.push(EntityRecord { kind: EntityKind::Topic, parent: 0, deleted: false, topic: t as usize, topic_entity: 0, suspended: false })
                && final(self)@.qos == old(self)@.qos.push(default_qos())
                && final(self)@.reported == old(self)@.reported.push((0u32, 0u32))
                && (t < old(self)@.topics.len() ==> final(self)@.topics == old(self)@.topics)
                && (t == old(self)@.topics.len() ==> final(self)@.topics == old(self)@.topics.push(TopicView { name: name@, typename: typename@, key_offsets: key_offsets@ }))
                && final(self)@.domain_id == old(self)@.domain_id
                && final(self)@.instances == old(self)@.instances
                && final(self)@.samples == old(self)@.samples),
    {
        if self.entities[0].deleted {
            return Err(ReturnCodes::AlreadyDeleted);
        }
        let n = crate::qos::str_to_string(name);
        let tn = crate::qos::str_to_string(typename);
        let found = self.find_topic(&n);
        proof {
            lemma_first_named_bounds(topic_pairs(self@.topics), name@);
        }
        match found {
            Some(i) => {
                proof {
                    assert(topic_pairs(self@.topics)[i as int] == (self@.topics[i as int].name, self@.topics[i as int].typename));
                    assert(self@.topics[i as int] == self.topics@[i as int]@);
                }
                if self.topics[i].typename != tn {
                    return Err(ReturnCodes::PreconditionNotMet);
                }
            },
            None => {},
        }
        if self.entities.len() >= MAX_ENTITIES {
            return Err(ReturnCodes::OutOfResources);
        }
        let t: usize = match found {
            Some(i) => i,
            None => {
                let ghost ot = self.topics@;
                let ghost ov = self@;
                let keys = copy_u32s(key_offsets);
                let idx = self.topics.len();
                self.topics.push(TopicRecord { name: n, typename: tn, key_offsets: keys });
                proof {
                    assert(topic_views(self.topics@) =~= topic_views(ot).push(TopicView { name: name@, typename: typename@, key_offsets: key_offsets@ }));
                    let nv = self@;
                    assert forall|i: int| 0 <= i < nv.entities.len() implies #[trigger] endpoint_ok(nv, i) by {
                        assert(endpoint_ok(ov, i));
                    }
                }
                idx
            },
        };
        let n2 = crate::qos::str_to_string(name);
        let tn2 = crate::qos::str_to_string(typename);
        match self.create_entity(EntityKind::Topic, 0, t, 0, Qos::new()) {
            Ok(h) => Ok(crate::topic::AnyTopic::from_parts(h, n2, tn2)),
            Err(e) => Err(e),
        }
    }
}

fn copy_u32s(v: &[u32]) -> (r: Vec<u32>)
    ensures
        r@ == v@,
{
    let mut r: Vec<u32> = Vec::new();
    let mut i: usize = 0;
    while i < v.len()
        invariant
            i <= v@.len(),
            r@ == v@.take(i as int),
        decreases v@.len() - i,
    {
        r.push(v[i]);
        proof {
            assert(v@.take(i + 1) =~= v@.take(i as int).push(v@[i as int]));
        }
        i = i + 1;
    }
    proof {
        assert(v@.take(v@.len() as int) =~= v@);
    }
    r
}


/// The 32-bit key fields of a serialized sample, in order, laid end to end.
pub open spec fn key_of(offs: Seq<u32>, d: Seq<u8>) -> Seq<u8>
    decreases offs.len(),
{
    if offs.len() == 0 {
        Seq::empty()
    } else {
        key_of(offs.drop_last(), d) + d.subrange(offs.last() as int, offs.last() + 4)
    }
}

/// Every key field lies within the sample.
pub open spec fn keys_fit(offs: Seq<u32>, len: int) -> bool {
    forall|i: int| 0 <= i < offs.len() ==> offs[i] + 4 <= len
}

/// Index of the first instance of topic `t` with key `k`, or -1.
pub open spec fn first_inst(insts: Seq<(usize, Seq<u8>)>, t: usize, k: Seq<u8>) -> int
    decreases insts.len(),
{
    if insts.len() == 0 {
        -1
    } else {
        let f = first_inst(insts.drop_last(), t, k);
        if f >= 0 {
            f
        } else if insts.last() == (t, k) {
            insts.len() - 1
        } else {
            -1
        }
    }
}

/// The handle of the instance of topic `t` with key `k`, and the instances
/// once it is known: an instance seen before keeps its handle, a new one is
/// added with the next handle.
pub open spec fn instance_for(insts: Seq<(usize, Seq<u8>)>, t: usize, k: Seq<u8>) -> (u64, Seq<(usize, Seq<u8>)>) {
    let f = first_inst(insts, t, k);
    if f >= 0 {
        ((f + 1) as u64, insts)
    } else {
        ((insts.len() + 1) as u64, insts.push((t, k)))
    }
}

/// Registering a key a second time gives the handle of the first time and
/// adds nothing, so a write after a registration stamps its samples with the
/// registered handle.
pub proof fn lemma_instance_registration_stable(insts: Seq<(usize, Seq<u8>)>, t: usize, k: Seq<u8>)
    ensures
        instance_for(instance_for(insts, t, k).1, t, k) == instance_for(insts, t, k),
{
    let f = first_inst(insts, t, k);
    if f < 0 {
        assert(insts.push((t, k)).drop_last() =~= insts);
    }
}

/// The information of a freshly written sample.
pub open spec fn fresh_info(ih: u64, writer: int, ts: i64) -> crate::subscriber::SampleInfo {
    crate::subscriber::SampleInfo {
        sample_state: crate::subscriber::SampleState::NotRead,
        view_state: crate::subscriber::ViewState::New,
        instance_state: crate::subscriber::InstanceState::Alive,
        valid_data: true,
        source_timestamp: ts,
        instance_handle: InstanceHandle { handle: ih },
        publication_handle: entity_instance_handle(writer),
        disposed_generation_count: 0,
        no_writers_generation_count: 0,
        sample_rank: 0,
        generation_rank: 0,
        absolute_generation_rank: 0,
    }
}

/// A live reader of topic `t`.
pub open spec fn reads_topic(e: EntityRecord, t: usize) -> bool {
    e.kind == EntityKind::Reader && !e.deleted && e.topic == t
}

/// The copies of a written sample, one for each live reader of its topic,
/// in the readers' order of creation.
pub open spec fn deliveries(ents: Seq<EntityRecord>, t: usize, d: Seq<u8>, info: crate::subscriber::SampleInfo) -> Seq<crate::subscriber::SampleView>
    decreases ents.len(),
{
    if ents.len() == 0 {
        Seq::empty()
    } else {
        let p = deliveries(ents.drop_last(), t, d, info);
        if reads_topic(ents.last(), t) {
            p.push(crate::subscriber::SampleView { reader: (ents.len() - 1) as usize, data: d, info })
        } else {
            p
        }
    }
}

/// Why a write or registration on handle `h` with `data` fails, if it does.
pub open spec fn write_error(v: ParticipantView, h: int, data: Seq<u8>) -> Option<ReturnCodes> {
    if handle_error(v, h) is Some {
        handle_error(v, h)
    } else if v.entities[h].kind != EntityKind::Writer {
        Some(ReturnCodes::IllegalOperation)
    } else if !keys_fit(v.topics[v.entities[h].topic as int].key_offsets, data.len() as int) {
        Some(ReturnCodes::BadParameter)
    } else if v.instances.len() >= 0xffff_ffe0 {
        Some(ReturnCodes::OutOfResources)
    } else {
        None
    }
}

/// The key of `data` under the topic that writer `h` writes.
pub open spec fn writer_key(v: ParticipantView, h: int, data: Seq<u8>) -> Seq<u8> {
    key_of(v.topics[v.entities[h].topic as int].key_offsets, data)
}

/// Why a read on handle `h` fails, if it does.
pub open spec fn read_error(v: ParticipantView, h: int) -> Option<ReturnCodes> {
    if handle_error(v, h) is Some {
        handle_error(v, h)
    } else if v.entities[h].kind != EntityKind::Reader {
        Some(ReturnCodes::IllegalOperation)
    } else {
        None
    }
}

fn copy_sample(s: &crate::subscriber::CachedSample) -> (r: crate::subscriber::CachedSample)
    ensures
        r@ == s@,
{
    let d = s.data.clone();
    proof {
        assert(d@ =~= s.data@);
    }
    crate::subscriber::CachedSample { reader: s.reader, data: d, info: s.info }
}

impl DomainParticipant {
    fn extract_key(&self, t: usize, data: &[u8]) -> (r: Option<Vec<u8>>)
        requires
            t < self@.topics.len(),
        ensures
            keys_fit(self@.topics[t as int].key_offsets, data@.len() as int) ==> (r matches Some(k) && k@ == key_of(self@.topics[t as int].key_offsets, data@)),
            !keys_fit(self@.topics[t as int].key_offsets, data@.len() as int) ==> r is None,
    {
        proof {
            assert(self@.topics[t as int] == self.topics@[t as int]@);
        }
        let offs = &self.topics[t].key_offsets;
        let mut key: Vec<u8> = Vec::new();
        let mut i: usize = 0;
        while i < offs.len()
            invariant
                i <= offs@.len(),
                offs@ == self@.topics[t as int].key_offsets,
                keys_fit(offs@.take(i as int), data@.len() as int),
                key@ == key_of(offs@.take(i as int), data@),
            decreases offs@.len() - i,
        {
            let o = offs[i];
            if o as usize > data.len() || data.len() - (o as usize) < 4 {
                proof {
                    assert(!(offs@[i as int] + 4 <= data@.len()));
                }
                return None;
            }
            let ou = o as usize;
            key.push(data[ou]);
            key.push(data[ou + 1]);
            key.push(data[ou + 2]);
            key.push(data[ou + 3]);
            proof {
                let ti = offs@.take(i + 1);
                assert(ti.drop_last() =~= offs@.take(i as int));
                assert(data@.subrange(o as int, o + 4) =~= seq![data@[o as int], data@[o + 1], data@[o + 2], data@[o + 3]]);
                assert(key@ =~= key_of(ti, data@));
                assert forall|k: int| 0 <= k < ti.len() implies ti[k] + 4 <= data@.len() by {
                    if k < i {
                        assert(offs@.take(i as int)[k] == ti[k]);
                    }
                }
            }
            i = i + 1;
        }
        proof {
            assert(offs@.take(i as int) =~= offs@);
        }
        Some(key)
    }

    fn lookup_instance(&mut self, t: usize, key: Vec<u8>) -> (r: u64)
        requires
            old(self).wf(),
            t < old(self)@.topics.len(),
            old(self)@.instances.len() < 0xffff_ffe0,
        ensures
            final(self).wf(),
            (r, final(self)@.instances) == instance_for(old(self)@.instances, t, key@),
            final(self)@ == (ParticipantView { instances: final(self)@.instances, ..old(self)@ }),
    {
        let ghost insts = self@.instances;
        let mut i: usize = 0;
        while i < self.instances.len()
            invariant
                i <= self.instances@.len(),
                self.wf(),
                self@ == old(self)@,
                insts == instance_views(self.instances@),
                first_inst(insts.take(i as int), t, key@) == -1,
            decreases self.instances@.len() - i,
        {
            proof {
                assert(insts.take(i + 1).drop_last() =~= insts.take(i as int));
            }
            if self.instances[i].0 == t && crate::qos::bytes_equal(&self.instances[i].1, &key) {
                proof {
                    assert(insts[i as int] == (t, key@));
                    assert(insts.take(i + 1).last() == insts[i as int]);
                    assert(first_inst(insts.take(i + 1), t, key@) == i);
                    lemma_first_inst_prefix(insts, t, key@, i as int);
                }
                return (i + 1) as u64;
            }
            i = i + 1;
        }
        proof {
            assert(insts.take(i as int) =~= insts);
        }
        let n = self.instances.len();
        let ghost k = key@;
        let ghost ov = self@;
        self.instances.push((t, key));
        proof {
            assert(instance_views(self.instances@) =~= insts.push((t, k)));
            let nv = self@;
            assert forall|i: int| 0 <= i < nv.entities.len() implies #[trigger] endpoint_ok(nv, i) by {
                assert(endpoint_ok(ov, i));
            }
        }
        (n + 1) as u64
    }
}

/// Once a prefix holds no match, a match right after it is the first.
pub proof fn lemma_first_inst_prefix(insts: Seq<(usize, Seq<u8>)>, t: usize, k: Seq<u8>, i: int)
    requires
        0 <= i < insts.len(),
        first_inst(insts.take(i + 1), t, k) == i,
    ensures
        first_inst(insts, t, k) == i,
    decreases insts.len() - i,
{
    if insts.len() > i + 1 {
        let d = insts.drop_last();
        assert(d.take(i + 1) =~= insts.take(i + 1));
        lemma_first_inst_prefix(d, t, k, i);
    } else {
        assert(insts.take(i + 1) =~= insts);
    }
}


impl DomainParticipant {
    /// Writes `data` through writer `h`, stamped with `ts`: its instance is
    /// looked up by key (or added), and a copy goes to the history cache of
    /// every live reader of the writer's topic.
    pub fn write_sample(&mut self, h: i32, data: &[u8], ts: i64) -> (r: Result<InstanceHandle, ReturnCodes>)
        requires
            old(self).wf(),
        ensures
            final(self).wf(),
            write_error(old(self)@, h as int, data@) matches Some(e) ==> r == Err::<InstanceHandle, _>(e) && final(self)@ == old(self)@,
            write_error(old(self)@, h as int, data@) is None ==> {
                let t = old(self)@.entities[h as int].topic;
                let found = instance_for(old(self)@.instances, t, writer_key(old(self)@, h as int, data@));
                &&& r == Ok::<_, ReturnCodes>(InstanceHandle { handle: found.0 })
                &&& final(self)@ == (ParticipantView {
                    instances: found.1,
                    samples: old(self)@.samples + deliveries(old(self)@.entities, t, data@, fresh_info(found.0, h as int, ts)),
                    ..old(self)@
                })
            },
    {
        let ih = match self.register_key(h, data) {
            Ok(ih) => ih,
            Err(e) => return Err(e),
        };
        let t = self.entities[h as usize].topic;
        let info = crate::subscriber::SampleInfo {
            sample_state: crate::subscriber::SampleState::NotRead,
            view_state: crate::subscriber::ViewState::New,
            instance_state: crate::subscriber::InstanceState::Alive,
            valid_data: true,
            source_timestamp: ts,
            instance_handle: ih,
            publication_handle: (h as u64) + 1,
            disposed_generation_count: 0,
            no_writers_generation_count: 0,
            sample_rank: 0,
            generation_rank: 0,
            absolute_generation_rank: 0,
        };
        let ghost ents = self@.entities;
        let ghost old_samples = self@.samples;
        let ghost mid = self@;
        let mut j: usize = 0;
        while j < self.entities.len()
            invariant
                j <= ents.len(),
                self.entities@ == ents,
                self@ == (ParticipantView { samples: self@.samples, ..mid }),
                participant_wf(mid),
                t < mid.topics.len(),
                self@.samples == old_samples + deliveries(ents.take(j as int), t, data@, info),
                forall|k: int| 0 <= k < self@.samples.len() ==> (#[trigger] self@.samples[k]).reader < ents.len(),
            decreases ents.len() - j,
        {
            let e = self.entities[j];
            let ghost before = self.samples@;
            if e.kind == EntityKind::Reader && !e.deleted && e.topic == t {
                let d = crate::qos::copy_bytes(data);
                self.samples.push(crate::subscriber::CachedSample { reader: j, data: d, info });
                proof {
                    assert(crate::subscriber::sample_views(self.samples@) =~= crate::subscriber::sample_views(before).push(crate::subscriber::SampleView { reader: j, data: data@, info }));
                }
            }
            proof {
                assert(ents.take(j + 1).drop_last() =~= ents.take(j as int));
                assert(ents.take(j + 1).last() == ents[j as int]);
            }
            j = j + 1;
        }
        proof {
            assert(ents.take(j as int) =~= ents);
            let nv = self@;
            assert forall|i: int| 0 <= i < nv.entities.len() implies #[trigger] endpoint_ok(nv, i) by {
                assert(endpoint_ok(mid, i));
            }
        }
        Ok(ih)
    }

    /// Looks up (or adds) the instance of `data` for writer `h`.
    pub fn register_key(&mut self, h: i32, data: &[u8]) -> (r: Result<InstanceHandle, ReturnCodes>)
        requires
            old(self).wf(),
        ensures
            final(self).wf(),
            write_error(old(self)@, h as int, data@) matches Some(e) ==> r == Err::<InstanceHandle, _>(e) && final(self)@ == old(self)@,
            write_error(old(self)@, h as int, data@) is None ==> {
                let t = old(self)@.entities[h as int].topic;
                let found = instance_for(old(self)@.instances, t, writer_key(old(self)@, h as int, data@));
                &&& r == Ok::<_, ReturnCodes>(InstanceHandle { handle: found.0 })
                &&& final(self)@ == (ParticipantView { instances: found.1, ..old(self)@ })
            },
    {
        if let Some(e) = self.check_handle(h) {
            return Err(e);
        }
        let rec = self.entities[h as usize];
        if rec.kind != EntityKind::Writer {
            return Err(ReturnCodes::IllegalOperation);
        }
        proof {
            assert(endpoint_ok(self@, h as int));
        }
        let key = match self.extract_key(rec.topic, data) {
            Some(k) => k,
            None => return Err(ReturnCodes::BadParameter),
        };
        if self.instances.len() >= 0xffff_ffe0 {
            proof {
                assert(self@.instances.len() == self.instances@.len());
            }
            return Err(ReturnCodes::OutOfResources);
        }
        proof {
            assert(self@.instances.len() == self.instances@.len());
        }
        let ih = self.lookup_instance(rec.topic, key);
        Ok(InstanceHandle { handle: ih })
    }

    /// Hands out up to `max` samples of reader `h` that match `mask` and
    /// `instance` (or every instance, in the order of their handles), oldest
    /// first within an instance; `op` says whether they are left as they are,
    /// marked read or removed. Where nothing matches, the result is an empty
    /// batch, not an error.
    pub fn collect(&mut self, h: i32, max: usize, mask: u32, instance: Option<u64>, op: crate::subscriber::ReadOp) -> (r: Result<Vec<crate::subscriber::Sample>, ReturnCodes>)
        requires
            old(self).wf(),
        ensures
            final(self).wf(),
            read_error(old(self)@, h as int) matches Some(e) ==> r is Err && r == Err::<Vec<crate::subscriber::Sample>, _>(e) && final(self)@ == old(self)@,
            read_error(old(self)@, h as int) is None ==> {
                let q = crate::subscriber::Query { reader: h as usize, mask, instance };
                let res = crate::subscriber::read_result(old(self)@.samples, q, max as nat, op, old(self)@.instances.len());
                &&& r matches Ok(v) && crate::subscriber::results_view(v@) == res.0
                &&& final(self)@ == (ParticipantView { samples: res.1, ..old(self)@ })
            },
    {
        if instance.is_some() {
            return self.collect_query(h, max, mask, instance, op);
        }
        if let Some(e) = self.check_handle(h) {
            return Err(e);
        }
        if self.entities[h as usize].kind != EntityKind::Reader {
            return Err(ReturnCodes::IllegalOperation);
        }
        let ghost q = crate::subscriber::Query { reader: h as usize, mask, instance };
        let ghost ss = self@.samples;
        let ghost ov = self@;
        proof {
            assert(self@.instances.len() == self.instances@.len());
        }
        let n: u64 = self.instances.len() as u64;
        let mut out: Vec<crate::subscriber::Sample> = Vec::new();
        let mut i: u64 = 0;
        proof {
            assert(crate::subscriber::results_view(out@) =~= Seq::empty());
        }
        while i < n
            invariant
                i <= n,
                n == ov.instances.len(),
                self.wf(),
                read_error(ov, h as int) is None,
                q == (crate::subscriber::Query { reader: h as usize, mask, instance: None }),
                crate::subscriber::results_view(out@) == crate::subscriber::by_instance(ss, q, max as nat, op, i as nat).0,
                self@ == (ParticipantView { samples: crate::subscriber::by_instance(ss, q, max as nat, op, i as nat).1, ..ov }),
            decreases n - i,
        {
            let rem: usize = if out.len() >= max {
                0
            } else {
                max - out.len()
            };
            proof {
                assert(crate::subscriber::results_view(out@).len() == out@.len());
            }
            let ghost before = out@;
            let mut part = match self.collect_query(h, rem, mask, Some(i + 1), op) {
                Ok(p) => p,
                Err(e) => return Err(e),
            };
            let ghost pv = part@;
            out.append(&mut part);
            proof {
                assert(crate::subscriber::results_view(out@) =~= crate::subscriber::results_view(before) + crate::subscriber::results_view(pv));
                let qi = crate::subscriber::Query { instance: Some((i + 1) as u64), ..q };
                assert(qi == (crate::subscriber::Query { reader: h as usize, mask, instance: Some((i + 1) as u64) }));
            }
            i = i + 1;
        }
        Ok(out)
    }

    /// As `collect`, for the one query given.
    fn collect_query(&mut self, h: i32, max: usize, mask: u32, instance: Option<u64>, op: crate::subscriber::ReadOp) -> (r: Result<Vec<crate::subscriber::Sample>, ReturnCodes>)
        requires
            old(self).wf(),
        ensures
            final(self).wf(),
            read_error(old(self)@, h as int) matches Some(e) ==> r is Err && r == Err::<Vec<crate::subscriber::Sample>, _>(e) && final(self)@ == old(self)@,
            read_error(old(self)@, h as int) is None ==> {
                let q = crate::subscriber::Query { reader: h as usize, mask, instance };
                &&& r matches Ok(v) && crate::subscriber::results_view(v@) == crate::subscriber::selected(old(self)@.samples, q, max as nat)
                &&& final(self)@ == (ParticipantView { samples: crate::subscriber::after_op(old(self)@.samples, q, max as nat, op), ..old(self)@ })
            },
    {
        if let Some(e) = self.check_handle(h) {
            return Err(e);
        }
        if self.entities[h as usize].kind != EntityKind::Reader {
            return Err(ReturnCodes::IllegalOperation);
        }
        let hu = h as usize;
        let ghost q = crate::subscriber::Query { reader: hu, mask, instance };
        let ghost ss = self@.samples;
        let ghost ov = self@;
        let mut out: Vec<crate::subscriber::Sample> = Vec::new();
        let mut rest: Vec<crate::subscriber::CachedSample> = Vec::new();
        let mut n: usize = 0;
        let ghost mut cnt: nat = 0;
        let mut i: usize = 0;
        while i < self.samples.len()
            invariant
                i <= ss.len(),
                self@ == ov,
                q == (crate::subscriber::Query { reader: hu, mask, instance }),
                ss == crate::subscriber::sample_views(self.samples@),
                participant_wf(ov),
                cnt == crate::subscriber::count_matching(ss.take(i as int), q),
                n as int == if cnt < max { cnt as int } else { max as int },
                n <= max,
                crate::subscriber::results_view(out@) == crate::subscriber::selected(ss.take(i as int), q, max as nat),
                op == crate::subscriber::ReadOp::Read ==> crate::subscriber::sample_views(rest@) == crate::subscriber::after_read(ss.take(i as int), q, max as nat),
                op == crate::subscriber::ReadOp::Take ==> crate::subscriber::sample_views(rest@) == crate::subscriber::after_take(ss.take(i as int), q, max as nat),
                forall|k: int| 0 <= k < rest@.len() ==> (#[trigger] rest@[k]).reader < ov.entities.len(),
            decreases ss.len() - i,
        {
            let s = &self.samples[i];
            proof {
                assert(ss[i as int] == s@);
            }
            let inst_ok = match instance {
                Some(ih) => s.info.instance_handle.handle == ih,
                None => true,
            };
            let mm = crate::subscriber::info_matches(&s.info, mask);
            let m = s.reader == hu && mm && inst_ok;
            let ghost old_out = out@;
            let ghost old_rest = rest@;
            proof {
                let ti = ss.take(i + 1);
                assert(ti.drop_last() =~= ss.take(i as int));
                assert(ti.last() == ss[i as int]);
                assert(ti.take(i as int) =~= ss.take(i as int));
                assert(q.reader == hu && q.mask == mask && q.instance == instance);
                assert(ss[i as int].reader == s.reader);
                assert(mm == crate::subscriber::mask_matches(ss[i as int].info, q.mask));
                assert(inst_ok == match q.instance {
                    Some(x) => ss[i as int].info.instance_handle.handle == x,
                    None => true,
                });
                assert(m == crate::subscriber::qmatch(ss[i as int], q));
            }
            if m && n < max {
                let d = s.data.clone();
                proof {
                    assert(d@ =~= s.data@);
                }
                out.push(crate::subscriber::Sample { data: d, info: s.info });
                if op == crate::subscriber::ReadOp::Read {
                    let c = copy_sample(s);
                    let mut mk = c;
                    mk.info = crate::subscriber::SampleInfo {
                        sample_state: crate::subscriber::SampleState::Read,
                        view_state: crate::subscriber::ViewState::Old,
                        ..mk.info
                    };
                    rest.push(mk);
                }
                n = n + 1;
            } else {
                if op != crate::subscriber::ReadOp::Peek {
                    rest.push(copy_sample(s));
                }
            }
            proof {
                let ti = ss.take(i + 1);
                assert(crate::subscriber::results_view(out@) =~= crate::subscriber::selected(ti, q, max as nat));
                if op == crate::subscriber::ReadOp::Read {
                    assert(crate::subscriber::sample_views(rest@) =~= crate::subscriber::after_read(ti, q, max as nat));
                }
                if op == crate::subscriber::ReadOp::Take {
                    assert(crate::subscriber::sample_views(rest@) =~= crate::subscriber::after_take(ti, q, max as nat));
                }
                if m {
                    cnt = cnt + 1;
                }
            }
            i = i + 1;
        }
        proof {
            assert(ss.take(i as int) =~= ss);
        }
        if op != crate::subscriber::ReadOp::Peek {
            self.samples = rest;
            proof {
                let nv = self@;
                assert forall|i: int| 0 <= i < nv.entities.len() implies #[trigger] endpoint_ok(nv, i) by {
                    assert(endpoint_ok(ov, i));
                }
                assert forall|k: int| 0 <= k < nv.samples.len() implies (#[trigger] nv.samples[k]).reader < nv.entities.len() by {
                    assert(nv.samples[k] == self.samples@[k]@);
                }
            }
        }
        Ok(out)
    }
}


/// Why an operation that needs a live entity of kind `k` at `h` fails, if it
/// does.
pub open spec fn kind_error(v: ParticipantView, h: int, k: EntityKind) -> Option<ReturnCodes> {
    if handle_error(v, h) is Some {
        handle_error(v, h)
    } else if v.entities[h].kind != k {
        Some(ReturnCodes::IllegalOperation)
    } else {
        None
    }
}

/// Why creating an endpoint of kind `k` under `parent` on topic entity `th`
/// fails, if it does.
pub open spec fn endpoint_error(v: ParticipantView, k: EntityKind, parent: int, th: int) -> Option<ReturnCodes> {
    let pk = if k == EntityKind::Writer {
        EntityKind::Publisher
    } else {
        EntityKind::Subscriber
    };
    if kind_error(v, parent, pk) is Some {
        kind_error(v, parent, pk)
    } else if kind_error(v, th, EntityKind::Topic) is Some {
        kind_error(v, th, EntityKind::Topic)
    } else if v.entities.len() >= MAX_ENTITIES {
        Some(ReturnCodes::OutOfResources)
    } else {
        None
    }
}

/// The number of live readers of topic `t`.
pub open spec fn live_readers(ents: Seq<EntityRecord>, t: usize) -> nat
    decreases ents.len(),
{
    if ents.len() == 0 {
        0
    } else {
        live_readers(ents.drop_last(), t) + if reads_topic(ents.last(), t) {
            1nat
        } else {
            0nat
        }
    }
}

/// The number of readers ever created on topic `t`.
pub open spec fn all_readers(ents: Seq<EntityRecord>, t: usize) -> nat
    decreases ents.len(),
{
    if ents.len() == 0 {
        0
    } else {
        all_readers(ents.drop_last(), t) + if ents.last().kind == EntityKind::Reader && ents.last().topic == t {
            1nat
        } else {
            0nat
        }
    }
}

pub proof fn lemma_reader_counts_bounded(ents: Seq<EntityRecord>, t: usize)
    ensures
        live_readers(ents, t) <= all_readers(ents, t) <= ents.len(),
    decreases ents.len(),
{
    if ents.len() > 0 {
        lemma_reader_counts_bounded(ents.drop_last(), t);
    }
}

/// The participant after creating a live endpoint of kind `k` under
/// `parent` on topic entity `th`: one record added at the end, with its
/// default QoS, and nothing else changed.
pub open spec fn endpoint_created(old_v: ParticipantView, new_v: ParticipantView, k: EntityKind, parent: int, th: int) -> bool {
    new_v == (ParticipantView {
        entities: old_v.entities.push(EntityRecord {
            kind: k,
            parent: parent as usize,
            deleted: false,
            topic: old_v.entities[th].topic,
            topic_entity: th as usize,
            suspended: false,
        }),
        qos: old_v.qos.push(default_qos()),
        reported: old_v.reported.push((0u32, 0u32)),
        ..old_v
    })
}

impl DomainParticipant {
    /// The error that an operation needing a live entity of kind `k` at `h`
    /// reports, if any.
    pub fn check_kind(&self, h: i32, k: EntityKind) -> (r: Option<ReturnCodes>)
        requires
            self.wf(),
        ensures
            r == kind_error(self@, h as int, k),
    {
        match self.check_handle(h) {
            Some(e) => Some(e),
            None => {
                if self.entities[h as usize].kind != k {
                    Some(ReturnCodes::IllegalOperation)
                } else {
                    None
                }
            },
        }
    }

    /// Creates a writer (under a publisher) or a reader (under a subscriber)
    /// of the topic that topic entity `th` names.
    pub fn create_endpoint(&mut self, k: EntityKind, parent: i32, th: i32) -> (r: Result<i32, ReturnCodes>)
        requires
            old(self).wf(),
            k == EntityKind::Writer || k == EntityKind::Reader,
        ensures
            final(self).wf(),
            endpoint_error(old(self)@, k, parent as int, th as int) matches Some(e) ==> r == Err::<i32, _>(e) && final(self)@ == old(self)@,
            endpoint_error(old(self)@, k, parent as int, th as int) is None ==> r == Ok::<i32, ReturnCodes>(old(self)@.entities.len() as i32)
                && final(self)@ == (ParticipantView {
                    entities: old(self)@.entities.push(EntityRecord {
                        kind: k,
                        parent: parent as usize,
                        deleted: false,
                        topic: old(self)@.entities[th as int].topic,
                        topic_entity: th as usize,
                        suspended: false,
                    }),
                    qos: old(self)@.qos.push(default_qos()),
                    reported: old(self)@.reported.push((0u32, 0u32)),
                    ..old(self)@
                }),
    {
        let pk = if k == EntityKind::Writer {
            EntityKind::Publisher
        } else {
            EntityKind::Subscriber
        };
        if let Some(e) = self.check_kind(parent, pk) {
            return Err(e);
        }
        if let Some(e) = self.check_kind(th, EntityKind::Topic) {
            return Err(e);
        }
        let t = self.entities[th as usize].topic;
        proof {
            assert(self@.entities[th as int].kind == EntityKind::Topic);
        }
        self.create_entity(k, parent, t, th as usize, Qos::new())
    }

    /// Suspends (or resumes) sending on publisher `h`. Suspending a
    /// suspended publisher, or resuming one that is not, is refused.
    pub fn set_suspended(&mut self, h: i32, suspend: bool) -> (r: Result<(), ReturnCodes>)
        requires
            old(self).wf(),
        ensures
            final(self).wf(),
            kind_error(old(self)@, h as int, EntityKind::Publisher) matches Some(e) ==> r == Err::<(), _>(e) && final(self)@ == old(self)@,
            kind_error(old(self)@, h as int, EntityKind::Publisher) is None && old(self)@.entities[h as int].suspended == suspend ==> r == Err::<(), _>(ReturnCodes::PreconditionNotMet) && final(self)@ == old(self)@,
            kind_error(old(self)@, h as int, EntityKind::Publisher) is None && old(self)@.entities[h as int].suspended != suspend ==> r == Ok::<(), ReturnCodes>(())
                && final(self)@ == (ParticipantView {
                    entities: old(self)@.entities.update(h as int, EntityRecord { suspended: suspend, ..old(self)@.entities[h as int] }),
                    ..old(self)@
                }),
    {
        if let Some(e) = self.check_kind(h, EntityKind::Publisher) {
            return Err(e);
        }
        let rec = self.entities[h as usize];
        if rec.suspended == suspend {
            return Err(ReturnCodes::PreconditionNotMet);
        }
        let ghost ov = self@;
        self.entities.set(h as usize, EntityRecord { suspended: suspend, ..rec });
        proof {
            let nv = self@;
            assert forall|i: int| 0 < i < nv.entities.len() implies #[trigger] deletion_closed_at(nv.entities, i) by {
                assert(deletion_closed_at(ov.entities, i));
            }
            assert forall|i: int| 0 <= i < nv.entities.len() implies #[trigger] endpoint_ok(nv, i) by {
                assert(endpoint_ok(ov, i));
            }
            assert forall|i: int| 0 < i < nv.entities.len() implies #[trigger] nv.entities[i].parent < i by {
                assert(ov.entities[i].parent < i);
            }
            assert forall|i: int| 0 < i < nv.entities.len() implies (#[trigger] nv.entities[i]).kind != EntityKind::Particpant by {
                assert(ov.entities[i].kind != EntityKind::Particpant);
            }
        }
        Ok(())
    }

    /// The live and the total number of readers of writer `h`'s topic.
    pub fn matched_readers(&self, h: i32) -> (r: Result<(u32, u32), ReturnCodes>)
        requires
            self.wf(),
        ensures
            kind_error(self@, h as int, EntityKind::Writer) matches Some(e) ==> r == Err::<(u32, u32), _>(e),
            kind_error(self@, h as int, EntityKind::Writer) is None ==> r == Ok::<_, ReturnCodes>((
                live_readers(self@.entities, self@.entities[h as int].topic) as u32,
                all_readers(self@.entities, self@.entities[h as int].topic) as u32,
            )),
    {
        if let Some(e) = self.check_kind(h, EntityKind::Writer) {
            return Err(e);
        }
        let t = self.entities[h as usize].topic;
        let ghost ents = self@.entities;
        let mut live: u32 = 0;
        let mut all: u32 = 0;
        let mut j: usize = 0;
        while j < self.entities.len()
            invariant
                j <= ents.len() <= MAX_ENTITIES,
                ents == self.entities@,
                live == live_readers(ents.take(j as int), t),
                all == all_readers(ents.take(j as int), t),
            decreases ents.len() - j,
        {
            proof {
                assert(ents.take(j + 1).drop_last() =~= ents.take(j as int));
                lemma_reader_counts_bounded(ents.take(j as int), t);
            }
            let e = self.entities[j];
            if e.kind == EntityKind::Reader && e.topic == t {
                all = all + 1;
                if !e.deleted {
                    live = live + 1;
                }
            }
            j = j + 1;
        }
        proof {
            assert(ents.take(j as int) =~= ents);
        }
        Ok((live, all))
    }

    /// Whether reader `h` holds a sample it has not read yet.
    pub fn triggered(&self, h: i32) -> (r: Result<bool, ReturnCodes>)
        requires
            self.wf(),
        ensures
            handle_error(self@, h as int) matches Some(e) ==> r == Err::<bool, _>(e),
            handle_error(self@, h as int) is None ==> r == Ok::<bool, ReturnCodes>(exists|k: int|
                0 <= k < self@.samples.len() && (#[trigger] self@.samples[k]).reader == h
                    && self@.samples[k].info.sample_state == crate::subscriber::SampleState::NotRead),
    {
        if let Some(e) = self.check_handle(h) {
            return Err(e);
        }
        let mut k: usize = 0;
        while k < self.samples.len()
            invariant
                k <= self.samples@.len(),
                handle_error(self@, h as int) is None,
                self@.samples == crate::subscriber::sample_views(self.samples@),
                forall|m: int| 0 <= m < k ==> !((#[trigger] self@.samples[m]).reader == h
                    && self@.samples[m].info.sample_state == crate::subscriber::SampleState::NotRead),
            decreases self.samples@.len() - k,
        {
            proof {
                assert(self@.samples[k as int] == self.samples@[k as int]@);
            }
            if self.samples[k].reader == h as usize && self.samples[k].info.sample_state == crate::subscriber::SampleState::NotRead {
                return Ok(true);
            }
            k = k + 1;
        }
        Ok(false)
    }

    /// The topic entity that reader or writer `h` was created with.
    pub fn endpoint_topic(&self, h: i32) -> (r: Result<crate::topic::AnyTopic, ReturnCodes>)
        requires
            self.wf(),
        ensures
            handle_error(self@, h as int) matches Some(e) ==> r is Err && r == Err::<crate::topic::AnyTopic, _>(e),
            handle_error(self@, h as int) is None && self@.entities[h as int].kind != EntityKind::Reader
                && self@.entities[h as int].kind != EntityKind::Writer ==> r is Err && r == Err::<crate::topic::AnyTopic, _>(ReturnCodes::IllegalOperation),
            handle_error(self@, h as int) is None && (self@.entities[h as int].kind == EntityKind::Reader
                || self@.entities[h as int].kind == EntityKind::Writer) ==> (r matches Ok(a)
                && a.entity_id() == self@.entities[h as int].topic_entity
                && a.name_view() == self@.topics[self@.entities[h as int].topic as int].name
                && a.typename_view() == self@.topics[self@.entities[h as int].topic as int].typename),
    {
        if let Some(e) = self.check_handle(h) {
            return Err(e);
        }
        let rec = self.entities[h as usize];
        if rec.kind != EntityKind::Reader && rec.kind != EntityKind::Writer {
            return Err(ReturnCodes::IllegalOperation);
        }
        proof {
            assert(endpoint_ok(self@, h as int));
            assert(self@.topics[rec.topic as int] == self.topics@[rec.topic as int]@);
        }
        let tr = &self.topics[rec.topic];
        Ok(crate::topic::AnyTopic::from_parts(rec.topic_entity as i32, tr.name.clone(), tr.typename.clone()))
    }
}


impl DomainParticipant {
    /// Registers the topic of `T`, or attaches to the one already registered
    /// under its name.
    pub fn topic<T: crate::topic::TopicType>(&mut self) -> (r: Result<crate::topic::Topic<T>, ReturnCodes>)
        requires
            old(self).wf(),
        ensures
            final(self).wf(),
            exists|name: Seq<char>, typename: Seq<char>|
                crate::topic::topic_outcome(old(self)@, final(self)@, name, typename, r),
            r matches Ok(t) ==> crate::topic::topic_outcome(old(self)@, final(self)@, t.name_view(), t.typename_view(), r),
    {
        crate::topic::Topic::new(self)
    }

    /// Creates a topic entity for the participant built-in topic, whose type
    /// is known here only by name.
    pub fn any_topic(&mut self) -> (r: Result<crate::topic::AnyTopic, ReturnCodes>)
        requires
            old(self).wf(),
        ensures
            final(self).wf(),
            topic_registration(old(self)@, BUILTIN_PARTICIPANT_TOPIC@, BUILTIN_PARTICIPANT_TYPE@) matches Err(e) ==> r is Err && r == Err::<crate::topic::AnyTopic, _>(e),
            topic_registration(old(self)@, BUILTIN_PARTICIPANT_TOPIC@, BUILTIN_PARTICIPANT_TYPE@) is Ok ==> (r matches Ok(a)
                && a.entity_id() == old(self)@.entities.len()),
    {
        self.create_topic(BUILTIN_PARTICIPANT_TOPIC, BUILTIN_PARTICIPANT_TYPE, &[])
    }

    /// The same as `any_topic`.
    pub fn any_tpic(&mut self) -> (r: Result<crate::topic::AnyTopic, ReturnCodes>)
        requires
            old(self).wf(),
        ensures
            final(self).wf(),
            topic_registration(old(self)@, BUILTIN_PARTICIPANT_TOPIC@, BUILTIN_PARTICIPANT_TYPE@) matches Err(e) ==> r is Err && r == Err::<crate::topic::AnyTopic, _>(e),
            topic_registration(old(self)@, BUILTIN_PARTICIPANT_TOPIC@, BUILTIN_PARTICIPANT_TYPE@) is Ok ==> (r matches Ok(a)
                && a.entity_id() == old(self)@.entities.len()),
    {
        self.any_topic()
    }

    /// The topic of reader or writer `h`.
    pub fn get_topic(&self, h: i32) -> (r: Result<crate::topic::AnyTopic, ReturnCodes>)
        requires
            self.wf(),
        ensures
            handle_error(self@, h as int) matches Some(e) ==> r is Err && r == Err::<crate::topic::AnyTopic, _>(e),
            handle_error(self@, h as int) is None && (self@.entities[h as int].kind == EntityKind::Reader
                || self@.entities[h as int].kind == EntityKind::Writer) ==> (r matches Ok(a)
                && a.entity_id() == self@.entities[h as int].topic_entity),
    {
        self.endpoint_topic(h)
    }
}

impl Default for DomainParticipant {
    /// A participant in domain 0.
    fn default() -> (r: DomainParticipant)
        ensures
            r.wf(),
            r@.domain_id == 0,
            r@.entities.len() == 1,
            !r@.entities[0].deleted,
            r@.topics.len() == 0,
            r@.samples.len() == 0,
            r@.qos[0] == default_qos(),
    {
        DomainParticipant::create(0)
    }
}

/// A participant that is not deleted answers queries on itself: its
/// instance handle, its identifier and its domain id come without error.
/// Every domain id in the common range gives such a participant.
pub proof fn lemma_live_participant_answers(v: ParticipantView, domain_id: u32)
    requires
        participant_wf(v),
        !v.entities[0].deleted,
    ensures
        handle_error(v, 0) is None,
        v.entities[0].kind == EntityKind::Particpant,
        domain_id <= MAX_TYPICAL_DOMAIN_ID ==> domain_id != DOMAIN_DEFAULT,
{
}


impl DomainParticipant {
    /// The number of samples in the history cache of reader `h`.
    pub fn cached_count(&self, h: i32) -> (r: u64)
        requires
            self.wf(),
            0 <= h,
        ensures
            r == crate::subscriber::count_matching(self@.samples, crate::subscriber::Query { reader: h as usize, mask: 0, instance: None }) as u64,
    {
        let ghost q = crate::subscriber::Query { reader: h as usize, mask: 0, instance: None };
        let ghost ss = self@.samples;
        let mut n: u64 = 0;
        let mut i: usize = 0;
        while i < self.samples.len()
            invariant
                i <= ss.len(),
                0 <= h,
                q == (crate::subscriber::Query { reader: h as usize, mask: 0, instance: None }),
                ss == crate::subscriber::sample_views(self.samples@),
                n as int == crate::subscriber::count_matching(ss.take(i as int), q),
                n <= i,
            decreases ss.len() - i,
        {
            proof {
                assert(ss.take(i + 1).drop_last() =~= ss.take(i as int));
                assert(ss[i as int] == self.samples@[i as int]@);
                assert(crate::subscriber::mask_matches(ss[i as int].info, 0)) by (bit_vector);
            }
            if self.samples[i].reader == h as usize {
                n = n + 1;
            }
            i = i + 1;
        }
        proof {
            assert(ss.take(i as int) =~= ss);
        }
        n
    }
}


/// A sample once its instance is disposed.
pub open spec fn disposed(s: crate::subscriber::SampleView) -> crate::subscriber::SampleView {
    crate::subscriber::SampleView {
        info: crate::subscriber::SampleInfo { instance_state: crate::subscriber::InstanceState::NotAliveDisposed, ..s.info },
        ..s
    }
}

/// The samples after instance `ih` is disposed.
pub open spec fn dispose_samples(ss: Seq<crate::subscriber::SampleView>, ih: u64) -> Seq<crate::subscriber::SampleView> {
    ss.map_values(|s: crate::subscriber::SampleView| if s.info.instance_handle.handle == ih { disposed(s) } else { s })
}

/// Why disposing instance `ih` through writer `h` fails, if it does: the
/// instance must be one of the writer's topic.
pub open spec fn dispose_error(v: ParticipantView, h: int, ih: u64) -> Option<ReturnCodes> {
    if kind_error(v, h, EntityKind::Writer) is Some {
        kind_error(v, h, EntityKind::Writer)
    } else if ih == 0 || ih > v.instances.len() || v.instances[ih - 1].0 != v.entities[h].topic {
        Some(ReturnCodes::PreconditionNotMet)
    } else {
        None
    }
}

impl DomainParticipant {
    /// Gives entity `h` a new QoS. A change to a policy that cannot change
    /// once attached is refused as an immutable policy.
    pub fn set_entity_qos(&mut self, h: i32, qos: &Qos) -> (r: Result<(), ReturnCodes>)
        requires
            old(self).wf(),
        ensures
            final(self).wf(),
            handle_error(old(self)@, h as int) matches Some(e) ==> r == Err::<(), _>(e) && final(self)@ == old(self)@,
            handle_error(old(self)@, h as int) is None && crate::qos::immutable_part(old(self)@.qos[h as int]) != crate::qos::immutable_part(qos@)
                ==> r == Err::<(), _>(ReturnCodes::ImmutablePolicy) && final(self)@ == old(self)@,
            handle_error(old(self)@, h as int) is None && crate::qos::immutable_part(old(self)@.qos[h as int]) == crate::qos::immutable_part(qos@)
                ==> r == Ok::<(), ReturnCodes>(()) && final(self)@ == (ParticipantView { qos: old(self)@.qos.update(h as int, qos@), ..old(self)@ }),
    {
        if let Some(e) = self.check_handle(h) {
            return Err(e);
        }
        proof {
            assert(qos_views(self.qos@)[h as int] == self.qos@[h as int]@);
        }
        if !self.qos[h as usize].same_immutable(qos) {
            return Err(ReturnCodes::ImmutablePolicy);
        }
        let ghost oq = self.qos@;
        let ghost ov = self@;
        self.qos.set(h as usize, qos.copy());
        proof {
            assert(qos_views(self.qos@) =~= qos_views(oq).update(h as int, qos@));
            let nv = self@;
            assert forall|i: int| 0 <= i < nv.entities.len() implies #[trigger] endpoint_ok(nv, i) by {
                assert(endpoint_ok(ov, i));
            }
        }
        Ok(())
    }

    /// Disposes instance `ih` through writer `h`: every cached sample of the
    /// instance becomes not-alive-disposed.
    pub fn dispose_instance(&mut self, h: i32, ih: u64) -> (r: Result<(), ReturnCodes>)
        requires
            old(self).wf(),
        ensures
            final(self).wf(),
            dispose_error(old(self)@, h as int, ih) matches Some(e) ==> r == Err::<(), _>(e) && final(self)@ == old(self)@,
            dispose_error(old(self)@, h as int, ih) is None ==> r == Ok::<(), ReturnCodes>(())
                && final(self)@ == (ParticipantView { samples: dispose_samples(old(self)@.samples, ih), ..old(self)@ }),
    {
        if let Some(e) = self.check_kind(h, EntityKind::Writer) {
            return Err(e);
        }
        proof {
            assert(self@.instances.len() == self.instances@.len());
        }
        if ih == 0 || ih > self.instances.len() as u64 {
            return Err(ReturnCodes::PreconditionNotMet);
        }
        proof {
            assert(self@.instances[ih - 1] == (self.instances@[ih - 1].0, self.instances@[ih - 1].1@));
        }
        if self.instances[(ih - 1) as usize].0 != self.entities[h as usize].topic {
            return Err(ReturnCodes::PreconditionNotMet);
        }
        let ghost ss = self@.samples;
        let ghost ov = self@;
        let mut i: usize = 0;
        while i < self.samples.len()
            invariant
                i <= ss.len(),
                self@ == (ParticipantView { samples: self@.samples, ..ov }),
                participant_wf(ov),
                self@.samples.len() == ss.len(),
                forall|k: int| 0 <= k < i ==> #[trigger] self@.samples[k] == dispose_samples(ss, ih)[k],
                forall|k: int| i <= k < ss.len() ==> #[trigger] self@.samples[k] == ss[k],
                self@.samples == crate::subscriber::sample_views(self.samples@),
            decreases ss.len() - i,
        {
            proof {
                assert(self@.samples[i as int] == self.samples@[i as int]@);
            }
            if self.samples[i].info.instance_handle.handle == ih {
                let ghost before = self.samples@;
                let mut s = self.samples.remove(i);
                s.info = crate::subscriber::SampleInfo {
                    instance_state: crate::subscriber::InstanceState::NotAliveDisposed,
                    ..s.info
                };
                self.samples.insert(i, s);
                proof {
                    assert(self.samples@ =~= before.update(i as int, self.samples@[i as int]));
                    assert(crate::subscriber::sample_views(self.samples@) =~= crate::subscriber::sample_views(before).update(i as int, self.samples@[i as int]@));
                }
            }
            i = i + 1;
        }
        proof {
            assert(self@.samples =~= dispose_samples(ss, ih));
            let nv = self@;
            assert forall|i: int| 0 <= i < nv.entities.len() implies #[trigger] endpoint_ok(nv, i) by {
                assert(endpoint_ok(ov, i));
            }
            assert forall|k: int| 0 <= k < nv.samples.len() implies (#[trigger] nv.samples[k]).reader < nv.entities.len() by {
                assert(nv.samples[k].reader == ss[k].reader);
            }
        }
        Ok(())
    }
}


/// Every copy a write delivers holds the written bytes and information.
pub proof fn lemma_deliveries_carry(ents: Seq<EntityRecord>, t: usize, d: Seq<u8>, info: crate::subscriber::SampleInfo)
    ensures
        forall|i: int| 0 <= i < deliveries(ents, t, d, info).len() ==> (#[trigger] deliveries(ents, t, d, info)[i]).data == d
            && deliveries(ents, t, d, info)[i].info == info,
    decreases ents.len(),
{
    if ents.len() > 0 {
        lemma_deliveries_carry(ents.drop_last(), t, d, info);
    }
}

/// Round trip: once the key of `data` is registered through writer `h`,
/// writing `data` finds the registered instance and stamps every copy it
/// delivers with the registered handle and the written bytes.
pub proof fn lemma_write_after_register(v: ParticipantView, h: int, data: Seq<u8>, ts: i64)
    requires
        participant_wf(v),
        write_error(v, h, data) is None,
    ensures
        ({
            let t = v.entities[h].topic;
            let reg = instance_for(v.instances, t, writer_key(v, h, data));
            let v1 = ParticipantView { instances: reg.1, ..v };
            let w = instance_for(v1.instances, t, writer_key(v1, h, data));
            &&& w.0 == reg.0
            &&& w.1 == v1.instances
            &&& forall|i: int| 0 <= i < deliveries(v1.entities, t, data, fresh_info(w.0, h, ts)).len()
                ==> (#[trigger] deliveries(v1.entities, t, data, fresh_info(w.0, h, ts))[i]).data == data
                && deliveries(v1.entities, t, data, fresh_info(w.0, h, ts))[i].info.instance_handle.handle == reg.0
        }),
{
    let t = v.entities[h].topic;
    let k = writer_key(v, h, data);
    lemma_instance_registration_stable(v.instances, t, k);
    let reg = instance_for(v.instances, t, k);
    lemma_deliveries_carry(v.entities, t, data, fresh_info(reg.0, h, ts));
}


/// Registering the same topic name and type a second time attaches to the
/// registry entry of the first registration.
pub proof fn lemma_topic_registration_repeats(v: ParticipantView, v1: ParticipantView, name: Seq<char>, typename: Seq<char>, t: int)
    requires
        participant_wf(v),
        topic_registration(v, name, typename) == Ok::<int, ReturnCodes>(t),
        topic_registered(v, v1, name, typename, t),
        v1.entities.len() < MAX_ENTITIES,
    ensures
        topic_registration(v1, name, typename) == Ok::<int, ReturnCodes>(t),
{
    let ps = topic_pairs(v.topics);
    lemma_first_named_bounds(ps, name);
    assert(v1.entities[0] == v.entities[0]);
    if t == v.topics.len() {
        assert(topic_pairs(v1.topics) =~= ps.push((name, typename)));
        assert(ps.push((name, typename)).drop_last() =~= ps);
    }
}


impl DomainParticipant {
    fn find_instance(&self, t: usize, key: &Vec<u8>) -> (r: Option<usize>)
        ensures
            match r {
                Some(i) => i as int == first_inst(self@.instances, t, key@) && i < self@.instances.len(),
                None => first_inst(self@.instances, t, key@) == -1,
            },
    {
        let ghost insts = self@.instances;
        let mut i: usize = 0;
        while i < self.instances.len()
            invariant
                i <= self.instances@.len(),
                insts == instance_views(self.instances@),
                first_inst(insts.take(i as int), t, key@) == -1,
            decreases self.instances@.len() - i,
        {
            proof {
                assert(insts.take(i + 1).drop_last() =~= insts.take(i as int));
            }
            if self.instances[i].0 == t && crate::qos::bytes_equal(&self.instances[i].1, key) {
                proof {
                    assert(insts[i as int] == (t, key@));
                    assert(insts.take(i + 1).last() == insts[i as int]);
                    assert(first_inst(insts.take(i + 1), t, key@) == i);
                    lemma_first_inst_prefix(insts, t, key@, i as int);
                }
                return Some(i);
            }
            i = i + 1;
        }
        proof {
            assert(insts.take(i as int) =~= insts);
        }
        None
    }

    /// The handle of the instance of `data` for writer `h`, where it is
    /// known; nothing changes.
    pub fn find_key(&self, h: i32, data: &[u8]) -> (r: Result<Option<u64>, ReturnCodes>)
        requires
            self.wf(),
        ensures
            write_error(self@, h as int, data@) matches Some(e) ==> r == Err::<Option<u64>, _>(e),
            write_error(self@, h as int, data@) is None ==> {
                let f = first_inst(self@.instances, self@.entities[h as int].topic, writer_key(self@, h as int, data@));
                &&& f >= 0 ==> r == Ok::<_, ReturnCodes>(Some((f + 1) as u64))
                &&& f < 0 ==> r == Ok::<Option<u64>, ReturnCodes>(None)
            },
    {
        if let Some(e) = self.check_handle(h) {
            return Err(e);
        }
        let rec = self.entities[h as usize];
        if rec.kind != EntityKind::Writer {
            return Err(ReturnCodes::IllegalOperation);
        }
        proof {
            assert(endpoint_ok(self@, h as int));
        }
        let key = match self.extract_key(rec.topic, data) {
            Some(k) => k,
            None => return Err(ReturnCodes::BadParameter),
        };
        proof {
            assert(self@.instances.len() == self.instances@.len());
        }
        if self.instances.len() >= 0xffff_ffe0 {
            return Err(ReturnCodes::OutOfResources);
        }
        match self.find_instance(rec.topic, &key) {
            Some(i) => Ok(Some((i + 1) as u64)),
            None => Ok(None),
        }
    }
}


impl DomainParticipant {
    /// The kind of the entity at valid handle `h`.
    pub fn entities_kind(&self, h: i32) -> (r: EntityKind)
        requires
            self.wf(),
            0 <= h < self@.entities.len(),
        ensures
            r == self@.entities[h as int].kind,
    {
        self.entities[h as usize].kind
    }
}


/// A reader that held nothing matching a query before a write holds, after
/// it, exactly the one copy delivered to it, if the write delivers to it.
pub proof fn lemma_deliveries_read_back(
    ss: Seq<crate::subscriber::SampleView>,
    ents: Seq<EntityRecord>,
    t: usize,
    d: Seq<u8>,
    info: crate::subscriber::SampleInfo,
    q: crate::subscriber::Query,
    max: nat,
)
    requires
        crate::subscriber::count_matching(ss, q) == 0,
        ents.len() <= MAX_ENTITIES,
        max >= 1,
        crate::subscriber::mask_matches(info, q.mask),
        q.instance == Some(info.instance_handle.handle),
    ensures
        ({
            let hit = (q.reader as int) < ents.len() && reads_topic(ents[q.reader as int], t);
            &&& crate::subscriber::selected(ss + deliveries(ents, t, d, info), q, max)
                == if hit { seq![(d, info)] } else { Seq::<(Seq<u8>, crate::subscriber::SampleInfo)>::empty() }
            &&& crate::subscriber::count_matching(ss + deliveries(ents, t, d, info), q) == if hit { 1nat } else { 0nat }
        }),
    decreases ents.len(),
{
    if ents.len() == 0 {
        assert(ss + deliveries(ents, t, d, info) =~= ss);
        crate::subscriber::lemma_none_matching_selects_nothing(ss, q, max);
    } else {
        let e = ents.drop_last();
        let n = ents.len() - 1;
        lemma_deliveries_read_back(ss, e, t, d, info, q, max);
        assert forall|i: int| 0 <= i < e.len() implies #[trigger] e[i] == ents[i] by {}
        let de = deliveries(e, t, d, info);
        let sa = ss + de;
        if reads_topic(ents.last(), t) {
            let x = crate::subscriber::SampleView { reader: n as usize, data: d, info };
            assert(ss + deliveries(ents, t, d, info) =~= sa.push(x));
            assert(sa.push(x).drop_last() =~= sa);
            assert(sa.push(x).take(sa.len() as int) =~= sa);
            crate::subscriber::lemma_count_push(sa, x, q);
            let sp = sa.push(x);
            assert(sp.last() == x);
            assert(crate::subscriber::qmatch(x, q) == (q.reader as int == n));
            if q.reader as int == n {
                assert(crate::subscriber::picked(sp, q, max, sp.len() - 1));
                assert(crate::subscriber::selected(sp, q, max) == crate::subscriber::selected(sa, q, max).push((d, info)));
                assert(crate::subscriber::selected(sp, q, max) =~= seq![(d, info)]);
            } else {
                assert(!crate::subscriber::picked(sp, q, max, sp.len() - 1));
                assert(crate::subscriber::selected(sp, q, max) == crate::subscriber::selected(sa, q, max));
                if (q.reader as int) < e.len() {
                    assert(e[q.reader as int] == ents[q.reader as int]);
                }
            }
        } else {
            assert(deliveries(ents, t, d, info) == de);
            if (q.reader as int) < e.len() {
                assert(e[q.reader as int] == ents[q.reader as int]);
            }
        }
    }
}

/// Round trip: where reader `r` of the topic that writer `h` writes held no
/// sample of the instance of `data`, registering the instance and then
/// writing `data` leaves exactly one sample of it for `r`: a read of that
/// instance hands back the written bytes, and so the same key fields, with
/// the handle that the registration gave.
pub proof fn lemma_write_then_read_instance(v: ParticipantView, h: int, data: Seq<u8>, ts: i64, r: int, max: nat)
    requires
        participant_wf(v),
        write_error(v, h, data) is None,
        0 <= r < v.entities.len(),
        reads_topic(v.entities[r], v.entities[h].topic),
        max >= 1,
        crate::subscriber::count_matching(v.samples, crate::subscriber::Query {
            reader: r as usize,
            mask: 0,
            instance: Some(instance_for(v.instances, v.entities[h].topic, writer_key(v, h, data)).0),
        }) == 0,
    ensures
        ({
            let t = v.entities[h].topic;
            let reg = instance_for(v.instances, t, writer_key(v, h, data));
            let v1 = ParticipantView { instances: reg.1, ..v };
            let w = instance_for(v1.instances, t, writer_key(v1, h, data));
            let after = v1.samples + deliveries(v1.entities, t, data, fresh_info(w.0, h, ts));
            let q = crate::subscriber::Query { reader: r as usize, mask: 0, instance: Some(reg.0) };
            &&& w.0 == reg.0
            &&& crate::subscriber::selected(after, q, max) == seq![(data, fresh_info(reg.0, h, ts))]
        }),
{
    let t = v.entities[h].topic;
    let k = writer_key(v, h, data);
    lemma_instance_registration_stable(v.instances, t, k);
    let reg = instance_for(v.instances, t, k);
    let info = fresh_info(reg.0, h, ts);
    assert(crate::subscriber::mask_matches(info, 0)) by (bit_vector);
    let q = crate::subscriber::Query { reader: r as usize, mask: 0, instance: Some(reg.0) };
    lemma_deliveries_read_back(v.samples, v.entities, t, data, info, q, max);
}


impl DomainParticipant {
    /// The live and total number of readers of writer `h`'s topic, with the
    /// changes since the counts were last reported; the counts reported now
    /// become the new reference.
    pub fn report_matched(&mut self, h: i32) -> (r: Result<(u32, u32, i32, i32), ReturnCodes>)
        requires
            old(self).wf(),
        ensures
            final(self).wf(),
            kind_error(old(self)@, h as int, EntityKind::Writer) matches Some(e) ==> r == Err::<(u32, u32, i32, i32), _>(e) && final(self)@ == old(self)@,
            kind_error(old(self)@, h as int, EntityKind::Writer) is None ==> {
                let t = old(self)@.entities[h as int].topic;
                let cur = live_readers(old(self)@.entities, t);
                let tot = all_readers(old(self)@.entities, t);
                let last = old(self)@.reported[h as int];
                &&& r == Ok::<_, ReturnCodes>((cur as u32, tot as u32, (cur - last.0) as i32, (tot - last.1) as i32))
                &&& final(self)@ == (ParticipantView { reported: old(self)@.reported.update(h as int, (cur as u32, tot as u32)), ..old(self)@ })
            },
    {
        let (cur, tot) = match self.matched_readers(h) {
            Ok(p) => p,
            Err(e) => return Err(e),
        };
        proof {
            lemma_reader_counts_bounded(self@.entities, self@.entities[h as int].topic);
        }
        let last = self.reported[h as usize];
        let dc: i32 = (cur as i32) - (last.0 as i32);
        let dt: i32 = (tot as i32) - (last.1 as i32);
        let ghost ov = self@;
        self.reported.set(h as usize, (cur, tot));
        proof {
            let nv = self@;
            assert forall|i: int| 0 <= i < nv.entities.len() implies #[trigger] endpoint_ok(nv, i) by {
                assert(endpoint_ok(ov, i));
            }
            assert forall|i: int| 0 <= i < nv.reported.len() implies (#[trigger] nv.reported[i]).0 <= MAX_ENTITIES && nv.reported[i].1 <= MAX_ENTITIES by {
                if i != h {
                    assert(nv.reported[i] == ov.reported[i]);
                }
            }
        }
        Ok((cur, tot, dc, dt))
    }
}


/// A writer or reader just created is live and of its kind, so queries that
/// need one (such as waiting for acknowledgements) succeed on it.
pub proof fn lemma_new_endpoint_live(old_v: ParticipantView, new_v: ParticipantView, k: EntityKind, parent: int, th: int)
    requires
        endpoint_created(old_v, new_v, k, parent, th),
    ensures
        kind_error(new_v, old_v.entities.len() as int, k) is None,
        new_v.entities[old_v.entities.len() as int].parent == parent as usize,
{
}


/// The registrations after writer `w` registers instance `ih`.
pub open spec fn with_registration(regs: Seq<(usize, u64)>, w: usize, ih: u64) -> Seq<(usize, u64)> {
    if regs.contains((w, ih)) {
        regs
    } else {
        regs.push((w, ih))
    }
}

/// The registrations after writer `w` unregisters instance `ih`.
pub open spec fn without_registration(regs: Seq<(usize, u64)>, w: usize, ih: u64) -> Seq<(usize, u64)> {
    regs.filter(|p: (usize, u64)| p != (w, ih))
}

impl DomainParticipant {
    fn is_registered(&self, w: usize, ih: u64) -> (r: bool)
        ensures
            r == self@.registrations.contains((w, ih)),
    {
        let mut i: usize = 0;
        while i < self.registrations.len()
            invariant
                i <= self.registrations@.len(),
                forall|k: int| 0 <= k < i ==> self.registrations@[k] != (w, ih),
            decreases self.registrations@.len() - i,
        {
            if self.registrations[i].0 == w && self.registrations[i].1 == ih {
                proof {
                    assert(self@.registrations[i as int] == (w, ih));
                }
                return true;
            }
            i = i + 1;
        }
        false
    }

    /// Registers the instance of `data` with writer `h` and gives its handle.
    pub fn register_with(&mut self, h: i32, data: &[u8]) -> (r: Result<InstanceHandle, ReturnCodes>)
        requires
            old(self).wf(),
        ensures
            final(self).wf(),
            write_error(old(self)@, h as int, data@) matches Some(e) ==> r == Err::<InstanceHandle, _>(e) && final(self)@ == old(self)@,
            write_error(old(self)@, h as int, data@) is None ==> {
                let t = old(self)@.entities[h as int].topic;
                let found = instance_for(old(self)@.instances, t, writer_key(old(self)@, h as int, data@));
                &&& r == Ok::<_, ReturnCodes>(InstanceHandle { handle: found.0 })
                &&& final(self)@ == (ParticipantView {
                    instances: found.1,
                    registrations: with_registration(old(self)@.registrations, h as usize, found.0),
                    ..old(self)@
                })
            },
    {
        let ih = match self.register_key(h, data) {
            Ok(ih) => ih,
            Err(e) => return Err(e),
        };
        if !self.is_registered(h as usize, ih.handle) {
            let ghost ov = self@;
            self.registrations.push((h as usize, ih.handle));
            proof {
                let nv = self@;
                assert forall|i: int| 0 <= i < nv.entities.len() implies #[trigger] endpoint_ok(nv, i) by {
                    assert(endpoint_ok(ov, i));
                }
            }
        }
        Ok(ih)
    }

    /// Unregisters the instance of `data` from writer `h`. An instance that
    /// this writer has not registered is refused.
    pub fn unregister_with(&mut self, h: i32, data: &[u8]) -> (r: Result<(), ReturnCodes>)
        requires
            old(self).wf(),
        ensures
            final(self).wf(),
            write_error(old(self)@, h as int, data@) matches Some(e) ==> r == Err::<(), _>(e) && final(self)@ == old(self)@,
            write_error(old(self)@, h as int, data@) is None ==> {
                let f = first_inst(old(self)@.instances, old(self)@.entities[h as int].topic, writer_key(old(self)@, h as int, data@));
                let ih = (f + 1) as u64;
                if f >= 0 && old(self)@.registrations.contains((h as usize, ih)) {
                    &&& r == Ok::<(), ReturnCodes>(())
                    &&& final(self)@ == (ParticipantView {
                        registrations: without_registration(old(self)@.registrations, h as usize, ih),
                        ..old(self)@
                    })
                } else {
                    r == Err::<(), _>(ReturnCodes::PreconditionNotMet) && final(self)@ == old(self)@
                }
            },
    {
        let ih = match self.find_key(h, data) {
            Ok(Some(ih)) => ih,
            Ok(None) => return Err(ReturnCodes::PreconditionNotMet),
            Err(e) => return Err(e),
        };
        if !self.is_registered(h as usize, ih) {
            return Err(ReturnCodes::PreconditionNotMet);
        }
        let ghost regs = self@.registrations;
        let ghost ov = self@;
        let hu = h as usize;
        let mut kept: Vec<(usize, u64)> = Vec::new();
        let mut i: usize = 0;
        while i < self.registrations.len()
            invariant
                i <= regs.len(),
                regs == self.registrations@,
                kept@ == regs.take(i as int).filter(|p: (usize, u64)| p != (hu, ih)),
            decreases regs.len() - i,
        {
            let p = self.registrations[i];
            proof {
                assert(regs.take(i + 1).drop_last() =~= regs.take(i as int));
                reveal(Seq::filter);
            }
            if !(p.0 == hu && p.1 == ih) {
                kept.push(p);
            }
            i = i + 1;
        }
        proof {
            assert(regs.take(i as int) =~= regs);
        }
        self.registrations = kept;
        proof {
            let nv = self@;
            assert forall|i: int| 0 <= i < nv.entities.len() implies #[trigger] endpoint_ok(nv, i) by {
                assert(endpoint_ok(ov, i));
            }
        }
        Ok(())
    }
}


/// Unregistering removes exactly the given (writer, instance) pair, which a
/// registration adds.
pub proof fn lemma_unregister_removes(regs: Seq<(usize, u64)>, w: usize, ih: u64, p: (usize, u64))
    ensures
        with_registration(regs, w, ih).contains((w, ih)),
        !without_registration(regs, w, ih).contains((w, ih)),
        p != (w, ih) ==> (without_registration(regs, w, ih).contains(p) == regs.contains(p)),
{
    if !regs.contains((w, ih)) {
        assert(regs.push((w, ih))[regs.len() as int] == (w, ih));
    }
    let f = without_registration(regs, w, ih);
    reveal(Seq::filter);
    if f.contains((w, ih)) {
        regs.filter_lemma(|q: (usize, u64)| q != (w, ih));
    }
    if p != (w, ih) && regs.contains(p) {
        regs.filter_lemma(|q: (usize, u64)| q != (w, ih));
        assert(f.contains(p));
    }
    if p != (w, ih) && f.contains(p) {
        regs.lemma_filter_contains_rev(|q: (usize, u64)| q != (w, ih), p);
    }
}

/// Two registrations of the same topic name and type name, made one after
/// the other, reach the same registry entry.
pub proof fn lemma_topic_twice_same_entry(
    v0: ParticipantView,
    v1: ParticipantView,
    v2: ParticipantView,
    name: Seq<char>,
    typename: Seq<char>,
    t1: int,
    t2: int,
)
    requires
        participant_wf(v0),
        participant_wf(v1),
        topic_registration(v0, name, typename) == Ok::<int, ReturnCodes>(t1),
        topic_registered(v0, v1, name, typename, t1),
        topic_registration(v1, name, typename) == Ok::<int, ReturnCodes>(t2),
    ensures
        t1 == t2,
{
    lemma_topic_registration_repeats(v0, v1, name, typename, t1);
}

} // verus!
