use vstd::prelude::*;

use crate::common::{Entity, ReturnCodes};
use crate::domain::{
    DomainParticipant, EntityKind, InstanceHandle, ParticipantView, all_readers, deliveries,
    dispose_error, dispose_samples,
    endpoint_created, endpoint_error, first_inst, fresh_info, with_registration, without_registration, instance_for, kind_error, live_readers, write_error, writer_key,
};
use crate::topic::{AnyTopic, Topic};

verus! {

/// A publisher: the parent of data writers.
pub struct Publisher {
    pub(crate) publisher: i32,
}

impl Publisher {
    pub(crate) fn from_handle(h: i32) -> (r: Publisher)
        ensures
            r.entity_id() == h,
    {
        Publisher { publisher: h }
    }
}

impl crate::common::Entity for Publisher {
    closed spec fn entity_id(&self) -> int {
        self.publisher as int
    }

    fn handle(&self) -> (r: i32) {
        self.publisher
    }
}


/// The match counts of a writer: how many readers of its topic are alive,
/// how many were ever created, and how much each count changed since the
/// status was last taken.
#[derive(Debug, Clone, Copy, PartialEq, Eq, Structural)]
pub struct PublicationMatchedStatus {
    pub total_count: u32,
    pub total_count_change: i32,
    pub current_count: u32,
    pub current_count_change: i32,
}

impl PublicationMatchedStatus {
    /// The number of live matched readers.
    pub fn current_count(&self) -> (r: u32)
        ensures
            r == self.current_count,
    {
        self.current_count
    }
}

/// Relies on bincode::serialize: the sample in bincode's format, or nothing
/// where its serializer fails.
#[verifier::external_body]
fn encode_sample<T: serde::Serialize>(value: &T) -> (r: Option<Vec<u8>>)
{
    bincode::serialize(value).ok()
}

/// The outcome of writing `data` through writer `h`: an error and no change,
/// or success and exactly the change that `write_sample` makes.
pub open spec fn write_outcome(
    old_v: ParticipantView,
    new_v: ParticipantView,
    h: int,
    data: Seq<u8>,
    ts: i64,
    r: Result<(), ReturnCodes>,
) -> bool {
    match write_error(old_v, h, data) {
        Some(e) => r == Err::<(), _>(e) && new_v == old_v,
        None => {
            let t = old_v.entities[h].topic;
            let found = instance_for(old_v.instances, t, writer_key(old_v, h, data));
            &&& r == Ok::<(), ReturnCodes>(())
            &&& new_v == (ParticipantView {
                instances: found.1,
                samples: old_v.samples + deliveries(old_v.entities, t, data, fresh_info(found.0, h, ts)),
                ..old_v
            })
        },
    }
}

impl Publisher {
    /// Suspends sending by this publisher's writers.
    pub fn suspend(&mut self, participant: &mut DomainParticipant) -> (r: Result<(), ReturnCodes>)
        requires
            old(participant).wf(),
        ensures
            *final(self) == *old(self),
            final(participant).wf(),
            kind_error(old(participant)@, old(self).entity_id(), EntityKind::Publisher) matches Some(e) ==> r == Err::<(), _>(e),
            kind_error(old(participant)@, old(self).entity_id(), EntityKind::Publisher) is None ==> (
                old(participant)@.entities[old(self).entity_id()].suspended ==> r == Err::<(), _>(ReturnCodes::PreconditionNotMet))
                && (!old(participant)@.entities[old(self).entity_id()].suspended ==> r == Ok::<(), ReturnCodes>(())
                && final(participant)@.entities[old(self).entity_id()].suspended),
    {
        participant.set_suspended(self.publisher, true)
    }

    /// Resumes sending by this publisher's writers.
    pub fn resume(&mut self, participant: &mut DomainParticipant) -> (r: Result<(), ReturnCodes>)
        requires
            old(participant).wf(),
        ensures
            *final(self) == *old(self),
            final(participant).wf(),
            kind_error(old(participant)@, old(self).entity_id(), EntityKind::Publisher) matches Some(e) ==> r == Err::<(), _>(e),
            kind_error(old(participant)@, old(self).entity_id(), EntityKind::Publisher) is None ==> (
                !old(participant)@.entities[old(self).entity_id()].suspended ==> r == Err::<(), _>(ReturnCodes::PreconditionNotMet))
                && (old(participant)@.entities[old(self).entity_id()].suspended ==> r == Ok::<(), ReturnCodes>(())
                && !final(participant)@.entities[old(self).entity_id()].suspended),
    {
        participant.set_suspended(self.publisher, false)
    }

    /// Creates a writer of `topic` under this publisher.
    pub fn create_datawriter<T>(&mut self, participant: &mut DomainParticipant, topic: &Topic<T>) -> (r: Result<DataWriter<T>, ReturnCodes>)
        requires
            old(participant).wf(),
        ensures
            *final(self) == *old(self),
            final(participant).wf(),
            endpoint_error(old(participant)@, EntityKind::Writer, old(self).entity_id(), topic.entity_id()) matches Some(e) ==> r is Err && r == Err::<DataWriter<T>, _>(e) && final(participant)@ == old(participant)@,
            endpoint_error(old(participant)@, EntityKind::Writer, old(self).entity_id(), topic.entity_id()) is None ==> (r matches Ok(w) && w.entity_id() == old(participant)@.entities.len()
                && endpoint_created(old(participant)@, final(participant)@, EntityKind::Writer, old(self).entity_id(), topic.entity_id())),
    {
        match participant.create_endpoint(EntityKind::Writer, self.publisher, topic.handle()) {
            Ok(h) => Ok(DataWriter { writer: h, _marker: std::marker::PhantomData }),
            Err(e) => Err(e),
        }
    }

    /// Creates a writer of the type-erased `topic` under this publisher.
    pub fn create_anydatawriter(&mut self, participant: &mut DomainParticipant, topic: &AnyTopic) -> (r: Result<AnyDataWriter, ReturnCodes>)
        requires
            old(participant).wf(),
        ensures
            *final(self) == *old(self),
            final(participant).wf(),
            endpoint_error(old(participant)@, EntityKind::Writer, old(self).entity_id(), topic.entity_id()) matches Some(e) ==> r is Err && r == Err::<AnyDataWriter, _>(e) && final(participant)@ == old(participant)@,
            endpoint_error(old(participant)@, EntityKind::Writer, old(self).entity_id(), topic.entity_id()) is None ==> (r matches Ok(w) && w.entity_id() == old(participant)@.entities.len()
                && endpoint_created(old(participant)@, final(participant)@, EntityKind::Writer, old(self).entity_id(), topic.entity_id())),
    {
        match participant.create_endpoint(EntityKind::Writer, self.publisher, topic.handle()) {
            Ok(h) => Ok(AnyDataWriter { writer: h }),
            Err(e) => Err(e),
        }
    }

    /// Waits for the acknowledgement of everything this publisher's writers
    /// wrote. Delivery within a participant is immediate, so a live publisher
    /// has nothing to wait for, whatever the timeout.
    pub fn wait_for_acks(&mut self, participant: &DomainParticipant, timeout: i64) -> (r: Result<(), ReturnCodes>)
        requires
            participant.wf(),
        ensures
            *final(self) == *old(self),
            kind_error(participant@, old(self).entity_id(), EntityKind::Publisher) matches Some(e) ==> r == Err::<(), _>(e),
            kind_error(participant@, old(self).entity_id(), EntityKind::Publisher) is None ==> r == Ok::<(), ReturnCodes>(()),
    {
        match participant.check_kind(self.publisher, EntityKind::Publisher) {
            Some(e) => Err(e),
            None => Ok(()),
        }
    }
}

/// A writer of samples of type `T`.
pub struct DataWriter<T> {
    pub(crate) writer: i32,
    pub(crate) _marker: std::marker::PhantomData<T>,
}

impl<T> DataWriter<T> {
    /// Writes the serialized sample `data`.
    pub fn write_cdr(&mut self, participant: &mut DomainParticipant, data: &[u8]) -> (r: Result<(), ReturnCodes>)
        requires
            old(participant).wf(),
        ensures
            *final(self) == *old(self),
            final(participant).wf(),
            write_outcome(old(participant)@, final(participant)@, old(self).entity_id(), data@, 0, r),
    {
        self.write_ts(participant, data, 0)
    }

    /// Writes the serialized sample `data` with the source time stamp
    /// `timestamp`.
    pub fn write_ts(&self, participant: &mut DomainParticipant, data: &[u8], timestamp: i64) -> (r: Result<(), ReturnCodes>)
        requires
            old(participant).wf(),
        ensures
            final(participant).wf(),
            write_outcome(old(participant)@, final(participant)@, self.entity_id(), data@, timestamp, r),
    {
        match participant.write_sample(self.writer, data, timestamp) {
            Ok(_) => Ok(()),
            Err(e) => Err(e),
        }
    }

    /// Disposes the instance `handle` at `timestamp`: every cached sample of
    /// it becomes not-alive-disposed.
    pub fn dispose_ih_ts(&self, participant: &mut DomainParticipant, handle: InstanceHandle, timestamp: i64) -> (r: Result<(), ReturnCodes>)
        requires
            old(participant).wf(),
        ensures
            final(participant).wf(),
            dispose_error(old(participant)@, self.entity_id(), handle.handle) matches Some(e) ==> r == Err::<(), _>(e) && final(participant)@ == old(participant)@,
            dispose_error(old(participant)@, self.entity_id(), handle.handle) is None ==> r == Ok::<(), ReturnCodes>(())
                && final(participant)@ == (ParticipantView { samples: dispose_samples(old(participant)@.samples, handle.handle), ..old(participant)@ }),
    {
        participant.dispose_instance(self.writer, handle.handle)
    }

    /// Flushes batched writes: delivery is immediate, so a live writer has
    /// nothing left to send.
    pub fn write_flush(&mut self, participant: &DomainParticipant) -> (r: Result<(), ReturnCodes>)
        requires
            participant.wf(),
        ensures
            *final(self) == *old(self),
            kind_error(participant@, old(self).entity_id(), EntityKind::Writer) matches Some(e) ==> r == Err::<(), _>(e),
            kind_error(participant@, old(self).entity_id(), EntityKind::Writer) is None ==> r == Ok::<(), ReturnCodes>(()),
    {
        match participant.check_kind(self.writer, EntityKind::Writer) {
            Some(e) => Err(e),
            None => Ok(()),
        }
    }

    /// Forwards an already serialized sample that carries its own source
    /// time stamp `timestamp`, which is kept as it is.
    pub fn forwardcdr(&mut self, participant: &mut DomainParticipant, data: &[u8], timestamp: i64) -> (r: Result<(), ReturnCodes>)
        requires
            old(participant).wf(),
        ensures
            *final(self) == *old(self),
            final(participant).wf(),
            write_outcome(old(participant)@, final(participant)@, old(self).entity_id(), data@, timestamp, r),
    {
        self.write_ts(participant, data, timestamp)
    }

    /// Waits for the acknowledgement of everything this writer wrote. Delivery
    /// within a participant is immediate, so a live writer has nothing to wait
    /// for, whatever the timeout and whether or not any reader matches.
    pub fn wait_for_acks(&mut self, participant: &DomainParticipant, timeout: i64) -> (r: Result<(), ReturnCodes>)
        requires
            participant.wf(),
        ensures
            *final(self) == *old(self),
            kind_error(participant@, old(self).entity_id(), EntityKind::Writer) matches Some(e) ==> r == Err::<(), _>(e),
            kind_error(participant@, old(self).entity_id(), EntityKind::Writer) is None ==> r == Ok::<(), ReturnCodes>(()),
    {
        match participant.check_kind(self.writer, EntityKind::Writer) {
            Some(e) => Err(e),
            None => Ok(()),
        }
    }

    /// The writer's match counts and their changes since the last call; the
    /// changes start again from zero afterwards.
    pub fn publication_matched_status(&self, participant: &mut DomainParticipant) -> (r: Result<PublicationMatchedStatus, ReturnCodes>)
        requires
            old(participant).wf(),
        ensures
            final(participant).wf(),
            kind_error(old(participant)@, self.entity_id(), EntityKind::Writer) matches Some(e) ==> r == Err::<PublicationMatchedStatus, _>(e) && final(participant)@ == old(participant)@,
            kind_error(old(participant)@, self.entity_id(), EntityKind::Writer) is None ==> {
                let t = old(participant)@.entities[self.entity_id()].topic;
                let cur = live_readers(old(participant)@.entities, t);
                let tot = all_readers(old(participant)@.entities, t);
                let last = old(participant)@.reported[self.entity_id()];
                &&& r == Ok::<_, ReturnCodes>(PublicationMatchedStatus {
                    current_count: cur as u32,
                    total_count: tot as u32,
                    current_count_change: (cur - last.0) as i32,
                    total_count_change: (tot - last.1) as i32,
                })
                &&& final(participant)@ == (ParticipantView {
                    reported: old(participant)@.reported.update(self.entity_id(), (cur as u32, tot as u32)),
                    ..old(participant)@
                })
            },
    {
        match participant.report_matched(self.writer) {
            Ok((cur, tot, dc, dt)) => Ok(PublicationMatchedStatus {
                current_count: cur,
                total_count: tot,
                current_count_change: dc,
                total_count_change: dt,
            }),
            Err(e) => Err(e),
        }
    }

    /// Registers the instance of the serialized sample `data` with this
    /// writer and gives its handle; samples with equal keys share a handle.
    pub fn register_instance(&mut self, participant: &mut DomainParticipant, data: &[u8]) -> (r: Result<InstanceHandle, ReturnCodes>)
        requires
            old(participant).wf(),
        ensures
            *final(self) == *old(self),
            final(participant).wf(),
            write_error(old(participant)@, old(self).entity_id(), data@) matches Some(e) ==> r == Err::<InstanceHandle, _>(e) && final(participant)@ == old(participant)@,
            write_error(old(participant)@, old(self).entity_id(), data@) is None ==> {
                let t = old(participant)@.entities[old(self).entity_id()].topic;
                let found = instance_for(old(participant)@.instances, t, writer_key(old(participant)@, old(self).entity_id(), data@));
                &&& r == Ok::<_, ReturnCodes>(InstanceHandle { handle: found.0 })
                &&& final(participant)@ == (ParticipantView {
                    instances: found.1,
                    registrations: with_registration(old(participant)@.registrations, old(self).entity_id() as usize, found.0),
                    ..old(participant)@
                })
            },
    {
        participant.register_with(self.writer, data)
    }

    /// The type-erased form of this writer.
    pub fn into_any(self) -> (r: AnyDataWriter)
        ensures
            r.entity_id() == self.entity_id(),
    {
        AnyDataWriter { writer: self.writer }
    }
}

impl<T: serde::Serialize> DataWriter<T> {
    /// Serializes `data` and writes it. A writer that is not live fails
    /// first; a sample that cannot be serialized is unsupported; otherwise the
    /// participant changes as `write_cdr` of the serialized bytes would
    /// change it.
    pub fn write(&mut self, participant: &mut DomainParticipant, data: &T) -> (r: Result<(), ReturnCodes>)
        requires
            old(participant).wf(),
        ensures
            *final(self) == *old(self),
            final(participant).wf(),
            kind_error(old(participant)@, old(self).entity_id(), EntityKind::Writer) matches Some(e) ==> r == Err::<(), _>(e) && final(participant)@ == old(participant)@,
            kind_error(old(participant)@, old(self).entity_id(), EntityKind::Writer) is None ==> (
                r == Err::<(), _>(ReturnCodes::Unsupported) && final(participant)@ == old(participant)@
                || exists|b: Seq<u8>| write_outcome(old(participant)@, final(participant)@, old(self).entity_id(), b, 0, r)),
    {
        if let Some(e) = participant.check_kind(self.writer, EntityKind::Writer) {
            return Err(e);
        }
        match encode_sample(data) {
            None => Err(ReturnCodes::Unsupported),
            Some(bytes) => {
                let r = self.write_cdr(participant, bytes.as_slice());
                proof {
                    assert(write_outcome(old(participant)@, final(participant)@, old(self).entity_id(), bytes@, 0, r));
                }
                r
            },
        }
    }
}

impl<T> crate::common::Entity for DataWriter<T> {
    closed spec fn entity_id(&self) -> int {
        self.writer as int
    }

    fn handle(&self) -> (r: i32) {
        self.writer
    }
}

/// A writer whose sample type is known only by name.
pub struct AnyDataWriter {
    pub(crate) writer: i32,
}

impl AnyDataWriter {
    /// Waits for the acknowledgement of everything this writer wrote; a live
    /// writer has nothing to wait for.
    pub fn wait_for_acks(&mut self, participant: &DomainParticipant, timeout: i64) -> (r: Result<(), ReturnCodes>)
        requires
            participant.wf(),
        ensures
            *final(self) == *old(self),
            kind_error(participant@, old(self).entity_id(), EntityKind::Writer) matches Some(e) ==> r == Err::<(), _>(e),
            kind_error(participant@, old(self).entity_id(), EntityKind::Writer) is None ==> r == Ok::<(), ReturnCodes>(()),
    {
        match participant.check_kind(self.writer, EntityKind::Writer) {
            Some(e) => Err(e),
            None => Ok(()),
        }
    }

    /// Registers the instance of the serialized sample `data` with this
    /// writer and gives its handle; samples with equal keys share a handle.
    pub fn register_instance(&mut self, participant: &mut DomainParticipant, data: &[u8]) -> (r: Result<InstanceHandle, ReturnCodes>)
        requires
            old(participant).wf(),
        ensures
            *final(self) == *old(self),
            final(participant).wf(),
            write_error(old(participant)@, old(self).entity_id(), data@) matches Some(e) ==> r == Err::<InstanceHandle, _>(e) && final(participant)@ == old(participant)@,
            write_error(old(participant)@, old(self).entity_id(), data@) is None ==> {
                let t = old(participant)@.entities[old(self).entity_id()].topic;
                let found = instance_for(old(participant)@.instances, t, writer_key(old(participant)@, old(self).entity_id(), data@));
                &&& r == Ok::<_, ReturnCodes>(InstanceHandle { handle: found.0 })
                &&& final(participant)@ == (ParticipantView {
                    instances: found.1,
                    registrations: with_registration(old(participant)@.registrations, old(self).entity_id() as usize, found.0),
                    ..old(participant)@
                })
            },
    {
        participant.register_with(self.writer, data)
    }

    /// Unregisters the instance of the serialized sample `data` from this
    /// writer. An instance this writer has not registered is refused and
    /// nothing changes.
    pub fn unregister_instance(&mut self, participant: &mut DomainParticipant, data: &[u8]) -> (r: Result<(), ReturnCodes>)
        requires
            old(participant).wf(),
        ensures
            *final(self) == *old(self),
            final(participant).wf(),
            write_error(old(participant)@, old(self).entity_id(), data@) matches Some(e) ==> r == Err::<(), _>(e) && final(participant)@ == old(participant)@,
            write_error(old(participant)@, old(self).entity_id(), data@) is None ==> {
                let w = old(self).entity_id();
                let f = first_inst(old(participant)@.instances, old(participant)@.entities[w].topic, writer_key(old(participant)@, w, data@));
                let ih = (f + 1) as u64;
                if f >= 0 && old(participant)@.registrations.contains((w as usize, ih)) {
                    &&& r == Ok::<(), ReturnCodes>(())
                    &&& final(participant)@ == (ParticipantView {
                        registrations: without_registration(old(participant)@.registrations, w as usize, ih),
                        ..old(participant)@
                    })
                } else {
                    r == Err::<(), _>(ReturnCodes::PreconditionNotMet) && final(participant)@ == old(participant)@
                }
            },
    {
        participant.unregister_with(self.writer, data)
    }

    /// Writes the serialized sample `data`.
    pub fn write_cdr(&mut self, participant: &mut DomainParticipant, data: &[u8]) -> (r: Result<(), ReturnCodes>)
        requires
            old(participant).wf(),
        ensures
            *final(self) == *old(self),
            final(participant).wf(),
            write_outcome(old(participant)@, final(participant)@, old(self).entity_id(), data@, 0, r),
    {
        match participant.write_sample(self.writer, data, 0) {
            Ok(_) => Ok(()),
            Err(e) => Err(e),
        }
    }
}

impl crate::common::Entity for AnyDataWriter {
    closed spec fn entity_id(&self) -> int {
        self.writer as int
    }

    fn handle(&self) -> (r: i32) {
        self.writer
    }
}

} // verus!
