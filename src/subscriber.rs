use vstd::prelude::*;

use crate::common::Entity;

use crate::common::ReturnCodes;
use crate::domain::{
    DomainParticipant, EntityKind, InstanceHandle, ParticipantView, endpoint_created, endpoint_error, kind_error,
    read_error,
};
use crate::topic::Topic;

verus! {

/// Read state of a sample.
#[derive(Debug, Clone, Copy, PartialEq, Eq, Structural)]
pub enum SampleState {
    /// The reader has already accessed the sample by read.
    Read,
    /// The reader has not accessed the sample before.
    NotRead,
}

/// View state of an instance relative to the samples.
#[derive(Debug, Clone, Copy, PartialEq, Eq, Structural)]
pub enum ViewState {
    /// The reader is accessing the sample for the first time.
    New,
    /// The reader accessed the sample before.
    Old,
}

/// The state of an instance.
#[derive(Debug, Clone, Copy, PartialEq, Eq, Structural)]
pub enum InstanceState {
    /// Samples received for the instance from live writers.
    Alive,
    /// The instance was explicitly disposed by a writer.
    NotAliveDisposed,
    /// No live writer writes the instance.
    NotAliveNoWriters,
}

/// What comes with each sample handed out by a read, take or peek.
#[derive(Debug, Clone, Copy, PartialEq, Eq, Structural)]
pub struct SampleInfo {
    pub sample_state: SampleState,
    pub view_state: ViewState,
    pub instance_state: InstanceState,
    /// Whether there is data associated with the sample.
    pub valid_data: bool,
    /// Time stamp given when the sample was written, in nanoseconds.
    pub source_timestamp: i64,
    /// Handle of the sample's instance.
    pub instance_handle: InstanceHandle,
    /// Handle of the writer that wrote the sample.
    pub publication_handle: u64,
    pub disposed_generation_count: u32,
    pub no_writers_generation_count: u32,
    pub sample_rank: u32,
    pub generation_rank: u32,
    pub absolute_generation_rank: u32,
}

/// A subscriber: the parent of data readers.
pub struct Subscriber {
    pub(crate) subscriber: i32,
}

impl Subscriber {
    pub(crate) fn from_handle(h: i32) -> (r: Subscriber)
        ensures
            r.entity_id() == h,
    {
        Subscriber { subscriber: h }
    }
}

impl crate::common::Entity for Subscriber {
    closed spec fn entity_id(&self) -> int {
        self.subscriber as int
    }

    fn handle(&self) -> (r: i32) {
        self.subscriber
    }
}

/// A sample in a reader's history cache.
pub struct CachedSample {
    pub reader: usize,
    pub data: Vec<u8>,
    pub info: SampleInfo,
}

pub struct SampleView {
    pub reader: usize,
    pub data: Seq<u8>,
    pub info: SampleInfo,
}

impl View for CachedSample {
    type V = SampleView;

    open spec fn view(&self) -> SampleView {
        SampleView { reader: self.reader, data: self.data@, info: self.info }
    }
}

pub open spec fn sample_views(s: Seq<CachedSample>) -> Seq<SampleView> {
    s.map_values(|x: CachedSample| x@)
}


/// Sample-state mask bits.
pub const READ_SAMPLE_STATE: u32 = 1;
pub const NOT_READ_SAMPLE_STATE: u32 = 2;
pub const ANY_SAMPLE_STATE: u32 = 3;
/// View-state mask bits.
pub const NEW_VIEW_STATE: u32 = 4;
pub const NOT_NEW_VIEW_STATE: u32 = 8;
pub const ANY_VIEW_STATE: u32 = 12;
/// Instance-state mask bits.
pub const ALIVE_INSTANCE_STATE: u32 = 16;
pub const NOT_ALIVE_DISPOSED_INSTANCE_STATE: u32 = 32;
pub const NOT_ALIVE_NO_WRITERS_INSTANCE_STATE: u32 = 64;
pub const ANY_INSTANCE_STATE: u32 = 112;
/// Every state.
pub const ANY_STATE: u32 = 127;

/// The mask bit of each state of a sample.
pub open spec fn state_bits(i: SampleInfo) -> (u32, u32, u32) {
    (
        match i.sample_state {
            SampleState::Read => 1u32,
            SampleState::NotRead => 2u32,
        },
        match i.view_state {
            ViewState::New => 4u32,
            ViewState::Old => 8u32,
        },
        match i.instance_state {
            InstanceState::Alive => 16u32,
            InstanceState::NotAliveDisposed => 32u32,
            InstanceState::NotAliveNoWriters => 64u32,
        },
    )
}

/// A sample matches a mask when, for each of the three state components,
/// the mask names no state of that component or names the sample's.
pub open spec fn mask_matches(i: SampleInfo, mask: u32) -> bool {
    let b = state_bits(i);
    &&& (mask & 3u32 == 0 || mask & b.0 != 0)
    &&& (mask & 12u32 == 0 || mask & b.1 != 0)
    &&& (mask & 112u32 == 0 || mask & b.2 != 0)
}

pub fn info_matches(i: &SampleInfo, mask: u32) -> (r: bool)
    ensures
        r == mask_matches(*i, mask),
{
    let sb: u32 = match i.sample_state {
        SampleState::Read => 1,
        SampleState::NotRead => 2,
    };
    let vb: u32 = match i.view_state {
        ViewState::New => 4,
        ViewState::Old => 8,
    };
    let ib: u32 = match i.instance_state {
        InstanceState::Alive => 16,
        InstanceState::NotAliveDisposed => 32,
        InstanceState::NotAliveNoWriters => 64,
    };
    (mask & 3 == 0 || mask & sb != 0) && (mask & 12 == 0 || mask & vb != 0) && (mask & 112 == 0 || mask & ib != 0)
}

/// Which samples a read, take or peek considers: those of one reader that
/// match a state mask and, where given, belong to one instance.
#[derive(Clone, Copy)]
pub struct Query {
    pub reader: usize,
    pub mask: u32,
    pub instance: Option<u64>,
}

pub open spec fn qmatch(s: SampleView, q: Query) -> bool {
    &&& s.reader == q.reader
    &&& mask_matches(s.info, q.mask)
    &&& match q.instance {
        Some(h) => s.info.instance_handle.handle == h,
        None => true,
    }
}

/// How many samples of `ss` the query matches.
pub open spec fn count_matching(ss: Seq<SampleView>, q: Query) -> nat
    decreases ss.len(),
{
    if ss.len() == 0 {
        0
    } else {
        count_matching(ss.drop_last(), q) + if qmatch(ss.last(), q) {
            1nat
        } else {
            0nat
        }
    }
}

/// Sample `k` is handed out: it matches and fewer than `max` matching
/// samples come before it.
pub open spec fn picked(ss: Seq<SampleView>, q: Query, max: nat, k: int) -> bool {
    qmatch(ss[k], q) && count_matching(ss.take(k), q) < max
}

/// The samples handed out, oldest first, with their information.
pub open spec fn selected(ss: Seq<SampleView>, q: Query, max: nat) -> Seq<(Seq<u8>, SampleInfo)>
    decreases ss.len(),
{
    if ss.len() == 0 {
        Seq::empty()
    } else {
        let p = selected(ss.drop_last(), q, max);
        if picked(ss, q, max, ss.len() - 1) {
            p.push((ss.last().data, ss.last().info))
        } else {
            p
        }
    }
}

/// The cache after a take: the samples handed out are gone.
pub open spec fn after_take(ss: Seq<SampleView>, q: Query, max: nat) -> Seq<SampleView>
    decreases ss.len(),
{
    if ss.len() == 0 {
        Seq::empty()
    } else {
        let p = after_take(ss.drop_last(), q, max);
        if picked(ss, q, max, ss.len() - 1) {
            p
        } else {
            p.push(ss.last())
        }
    }
}

/// A sample once it has been read.
pub open spec fn marked(s: SampleView) -> SampleView {
    SampleView {
        info: SampleInfo { sample_state: SampleState::Read, view_state: ViewState::Old, ..s.info },
        ..s
    }
}

/// The cache after a read: the samples handed out are marked read.
pub open spec fn after_read(ss: Seq<SampleView>, q: Query, max: nat) -> Seq<SampleView>
    decreases ss.len(),
{
    if ss.len() == 0 {
        Seq::empty()
    } else {
        let p = after_read(ss.drop_last(), q, max);
        if picked(ss, q, max, ss.len() - 1) {
            p.push(marked(ss.last()))
        } else {
            p.push(ss.last())
        }
    }
}

/// A sample handed out by a read, take or peek.
pub struct Sample {
    pub data: Vec<u8>,
    pub info: SampleInfo,
}

pub open spec fn results_view(r: Seq<Sample>) -> Seq<(Seq<u8>, SampleInfo)> {
    r.map_values(|s: Sample| (s.data@, s.info))
}

/// How a read treats the samples it hands out.
#[derive(Debug, Clone, Copy, PartialEq, Eq, Structural)]
pub enum ReadOp {
    /// Leaves them as they are.
    Peek,
    /// Marks them read.
    Read,
    /// Removes them.
    Take,
}

pub open spec fn after_op(ss: Seq<SampleView>, q: Query, max: nat, op: ReadOp) -> Seq<SampleView> {
    match op {
        ReadOp::Peek => ss,
        ReadOp::Read => after_read(ss, q, max),
        ReadOp::Take => after_take(ss, q, max),
    }
}

/// An unfiltered read over instances 1 to `n`: instance by instance, in
/// the order of their handles (oldest first), each in order of arrival,
/// until `max` samples are handed out. Gives the samples handed out and the
/// cache afterwards.
pub open spec fn by_instance(ss: Seq<SampleView>, q: Query, max: nat, op: ReadOp, n: nat) -> (Seq<(Seq<u8>, SampleInfo)>, Seq<SampleView>)
    decreases n,
{
    if n == 0 {
        (Seq::empty(), ss)
    } else {
        let p = by_instance(ss, q, max, op, (n - 1) as nat);
        let qi = Query { instance: Some(n as u64), ..q };
        let m: nat = if p.0.len() >= max { 0 } else { (max - p.0.len()) as nat };
        (p.0 + selected(p.1, qi, m), after_op(p.1, qi, m, op))
    }
}

/// What a read, take or peek hands out and leaves: for one instance, its
/// samples in order of arrival; for all of them, instance by instance over
/// the `n` known instances.
pub open spec fn read_result(ss: Seq<SampleView>, q: Query, max: nat, op: ReadOp, n: nat) -> (Seq<(Seq<u8>, SampleInfo)>, Seq<SampleView>) {
    match q.instance {
        Some(_) => (selected(ss, q, max), after_op(ss, q, max, op)),
        None => by_instance(ss, q, max, op, n),
    }
}

pub proof fn lemma_count_push(ss: Seq<SampleView>, s: SampleView, q: Query)
    ensures
        count_matching(ss.push(s), q) == count_matching(ss, q) + if qmatch(s, q) {
            1nat
        } else {
            0nat
        },
{
    assert(ss.push(s).drop_last() =~= ss);
}

/// Where every matching sample is taken, none is left to match.
pub proof fn lemma_take_all_leaves_none(ss: Seq<SampleView>, q: Query, max: nat)
    requires
        count_matching(ss, q) <= max,
    ensures
        count_matching(after_take(ss, q, max), q) == 0,
    decreases ss.len(),
{
    if ss.len() > 0 {
        let d = ss.drop_last();
        assert(ss.take(ss.len() - 1) =~= d);
        lemma_take_all_leaves_none(d, q, max);
        let p = after_take(d, q, max);
        if !picked(ss, q, max, ss.len() - 1) {
            lemma_count_push(p, ss.last(), q);
        }
    }
}

/// A query that matches nothing hands out nothing.
pub proof fn lemma_none_matching_selects_nothing(ss: Seq<SampleView>, q: Query, max: nat)
    requires
        count_matching(ss, q) == 0,
    ensures
        selected(ss, q, max) == Seq::<(Seq<u8>, SampleInfo)>::empty(),
    decreases ss.len(),
{
    if ss.len() > 0 {
        let d = ss.drop_last();
        assert(ss.take(ss.len() - 1) =~= d);
        lemma_none_matching_selects_nothing(d, q, max);
    }
}

/// A take splits the cache: every sample is either handed out or stays,
/// in order, and nothing else stays.
pub proof fn lemma_take_partitions(ss: Seq<SampleView>, q: Query, max: nat)
    ensures
        after_take(ss, q, max).len() + selected(ss, q, max).len() == ss.len(),
        forall|x: SampleView| after_take(ss, q, max).contains(x) ==> ss.contains(x),
    decreases ss.len(),
{
    if ss.len() > 0 {
        let d = ss.drop_last();
        lemma_take_partitions(d, q, max);
        assert forall|x: SampleView| after_take(ss, q, max).contains(x) implies ss.contains(x) by {
            let a = after_take(d, q, max);
            if a.contains(x) {
                let k = choose|k: int| 0 <= k < a.len() && a[k] == x;
                assert(d.contains(x));
                let j = choose|j: int| 0 <= j < d.len() && d[j] == x;
                assert(ss[j] == x);
            } else {
                assert(after_take(ss, q, max) == a.push(ss.last()));
                let k = choose|k: int| 0 <= k < a.push(ss.last()).len() && a.push(ss.last())[k] == x;
                assert(x == ss.last());
                assert(ss[ss.len() - 1] == x);
            }
        }
    }
}

/// A take that may hand out every sample of an instance leaves none of it:
/// a read of that instance right after it hands out nothing.
pub proof fn lemma_take_then_read_is_empty(ss: Seq<SampleView>, q: Query, max: nat, read_max: nat)
    requires
        count_matching(ss, q) <= max,
    ensures
        selected(after_take(ss, q, max), q, read_max) == Seq::<(Seq<u8>, SampleInfo)>::empty(),
{
    lemma_take_all_leaves_none(ss, q, max);
    lemma_none_matching_selects_nothing(after_take(ss, q, max), q, read_max);
}


/// The outcome of a read, take or peek on reader `h`: an error and no
/// change, or the samples that the query selects and the cache after `op`.
/// A live reader with nothing to hand out gives `Ok` with an empty batch;
/// `NoData` is never reported.
pub open spec fn read_outcome(
    old_v: ParticipantView,
    new_v: ParticipantView,
    h: int,
    max: nat,
    mask: u32,
    instance: Option<u64>,
    op: ReadOp,
    r: Result<Vec<Sample>, ReturnCodes>,
) -> bool {
    match read_error(old_v, h) {
        Some(e) => r is Err && r == Err::<Vec<Sample>, _>(e) && new_v == old_v,
        None => {
            let q = Query { reader: h as usize, mask, instance };
            let res = read_result(old_v.samples, q, max, op, old_v.instances.len());
            &&& r matches Ok(v) && results_view(v@) == res.0
            &&& new_v == (ParticipantView { samples: res.1, ..old_v })
        },
    }
}

/// A state mask built from one state.
pub enum ReaderMask {
    SampleState(SampleState),
    ViewState(ViewState),
    InstanceState(InstanceState),
}

impl ReaderMask {
    /// The mask bits of this state.
    pub fn bits(&self) -> (r: u32)
        ensures
            match self {
                ReaderMask::SampleState(s) => r == (match s {
                    SampleState::Read => READ_SAMPLE_STATE,
                    SampleState::NotRead => NOT_READ_SAMPLE_STATE,
                }),
                ReaderMask::ViewState(s) => r == (match s {
                    ViewState::New => NEW_VIEW_STATE,
                    ViewState::Old => NOT_NEW_VIEW_STATE,
                }),
                ReaderMask::InstanceState(s) => r == (match s {
                    InstanceState::Alive => ALIVE_INSTANCE_STATE,
                    InstanceState::NotAliveDisposed => NOT_ALIVE_DISPOSED_INSTANCE_STATE,
                    InstanceState::NotAliveNoWriters => NOT_ALIVE_NO_WRITERS_INSTANCE_STATE,
                }),
            },
    {
        match self {
            ReaderMask::SampleState(s) => match s {
                SampleState::Read => READ_SAMPLE_STATE,
                SampleState::NotRead => NOT_READ_SAMPLE_STATE,
            },
            ReaderMask::ViewState(s) => match s {
                ViewState::New => NEW_VIEW_STATE,
                ViewState::Old => NOT_NEW_VIEW_STATE,
            },
            ReaderMask::InstanceState(s) => match s {
                InstanceState::Alive => ALIVE_INSTANCE_STATE,
                InstanceState::NotAliveDisposed => NOT_ALIVE_DISPOSED_INSTANCE_STATE,
                InstanceState::NotAliveNoWriters => NOT_ALIVE_NO_WRITERS_INSTANCE_STATE,
            },
        }
    }
}

impl Subscriber {
    /// Creates a reader of `topic` under this subscriber.
    pub fn create_reader<T>(&self, participant: &mut DomainParticipant, topic: &Topic<T>) -> (r: Result<DataReader<T>, ReturnCodes>)
        requires
            old(participant).wf(),
        ensures
            final(participant).wf(),
            endpoint_error(old(participant)@, EntityKind::Reader, self.entity_id(), topic.entity_id()) matches Some(e) ==> r is Err && r == Err::<DataReader<T>, _>(e) && final(participant)@ == old(participant)@,
            endpoint_error(old(participant)@, EntityKind::Reader, self.entity_id(), topic.entity_id()) is None ==> (r matches Ok(rd) && rd.entity_id() == old(participant)@.entities.len()
                && endpoint_created(old(participant)@, final(participant)@, EntityKind::Reader, self.entity_id(), topic.entity_id())),
    {
        match participant.create_endpoint(EntityKind::Reader, self.subscriber, topic.handle()) {
            Ok(h) => Ok(DataReader { reader: h, _marker: std::marker::PhantomData }),
            Err(e) => Err(e),
        }
    }

    /// Signals data availability to this subscriber's readers; a live
    /// subscriber always succeeds.
    pub fn notify_readers(&self, participant: &DomainParticipant) -> (r: Result<(), ReturnCodes>)
        requires
            participant.wf(),
        ensures
            kind_error(participant@, self.entity_id(), EntityKind::Subscriber) matches Some(e) ==> r == Err::<(), _>(e),
            kind_error(participant@, self.entity_id(), EntityKind::Subscriber) is None ==> r == Ok::<(), ReturnCodes>(()),
    {
        match participant.check_kind(self.subscriber, EntityKind::Subscriber) {
            Some(e) => Err(e),
            None => Ok(()),
        }
    }
}

/// A reader of samples of type `T`.
pub struct DataReader<T> {
    pub(crate) reader: i32,
    pub(crate) _marker: std::marker::PhantomData<T>,
}

impl<T> crate::common::Entity for DataReader<T> {
    closed spec fn entity_id(&self) -> int {
        self.reader as int
    }

    fn handle(&self) -> (r: i32) {
        self.reader
    }
}

/// A reader whose sample type is known only by name.
pub struct AnyDataReader {
    pub(crate) reader: i32,
}

impl crate::common::Entity for AnyDataReader {
    closed spec fn entity_id(&self) -> int {
        self.reader as int
    }

    fn handle(&self) -> (r: i32) {
        self.reader
    }
}

impl<T> DataReader<T> {
    /// Creates a reader of `topic` under `subscriber`.
    pub fn new(subscriber: &mut Subscriber, participant: &mut DomainParticipant, topic: &Topic<T>) -> (r: Result<DataReader<T>, ReturnCodes>)
        requires
            old(participant).wf(),
        ensures
            final(participant).wf(),
            endpoint_error(old(participant)@, EntityKind::Reader, old(subscriber).entity_id(), topic.entity_id()) matches Some(e) ==> r is Err && r == Err::<DataReader<T>, _>(e) && final(participant)@ == old(participant)@,
            endpoint_error(old(participant)@, EntityKind::Reader, old(subscriber).entity_id(), topic.entity_id()) is None ==> (r matches Ok(rd) && rd.entity_id() == old(participant)@.entities.len()
                && endpoint_created(old(participant)@, final(participant)@, EntityKind::Reader, old(subscriber).entity_id(), topic.entity_id())),
    {
        subscriber.create_reader(participant, topic)
    }

    /// Waits until the historical data has arrived: local delivery is
    /// immediate, so a live reader has it already.
    pub fn wait_for_historical_data(&self, participant: &DomainParticipant, duration: i64) -> (r: Result<(), ReturnCodes>)
        requires
            participant.wf(),
        ensures
            kind_error(participant@, self.entity_id(), EntityKind::Reader) matches Some(e) ==> r == Err::<(), _>(e),
            kind_error(participant@, self.entity_id(), EntityKind::Reader) is None ==> r == Ok::<(), ReturnCodes>(()),
    {
        match participant.check_kind(self.reader, EntityKind::Reader) {
            Some(e) => Err(e),
            None => Ok(()),
        }
    }

    /// Hands out up to `max_samples` samples, oldest first, leaving them as they are.
    pub fn peek(&self, participant: &mut DomainParticipant, max_samples: usize) -> (r: Result<Vec<Sample>, ReturnCodes>)
        requires
            old(participant).wf(),
        ensures
            final(participant).wf(),
            read_outcome(old(participant)@, final(participant)@, self.entity_id(), max_samples as nat, 0u32, None, ReadOp::Peek, r),
    {
        participant.collect(self.reader, max_samples, 0u32, None, ReadOp::Peek)
    }

    /// Hands out up to `max_samples` samples of one instance, leaving them as they are.
    pub fn peek_instance(&self, participant: &mut DomainParticipant, max_samples: usize, instance_handle: InstanceHandle) -> (r: Result<Vec<Sample>, ReturnCodes>)
        requires
            old(participant).wf(),
        ensures
            final(participant).wf(),
            read_outcome(old(participant)@, final(participant)@, self.entity_id(), max_samples as nat, 0u32, Some(instance_handle.handle), ReadOp::Peek, r),
    {
        participant.collect(self.reader, max_samples, 0u32, Some(instance_handle.handle), ReadOp::Peek)
    }

    /// Hands out up to `max_samples` samples of one instance in the states of `mask`, leaving them as they are.
    pub fn peek_instance_mask(&self, participant: &mut DomainParticipant, max_samples: usize, instance_handle: InstanceHandle, mask: u32) -> (r: Result<Vec<Sample>, ReturnCodes>)
        requires
            old(participant).wf(),
        ensures
            final(participant).wf(),
            read_outcome(old(participant)@, final(participant)@, self.entity_id(), max_samples as nat, mask, Some(instance_handle.handle), ReadOp::Peek, r),
    {
        participant.collect(self.reader, max_samples, mask, Some(instance_handle.handle), ReadOp::Peek)
    }

    /// Hands out the first sample not yet read, leaving it as it is.
    pub fn peek_next(&self, participant: &mut DomainParticipant) -> (r: Result<Vec<Sample>, ReturnCodes>)
        requires
            old(participant).wf(),
        ensures
            final(participant).wf(),
            read_outcome(old(participant)@, final(participant)@, self.entity_id(), 1nat, NOT_READ_SAMPLE_STATE, None, ReadOp::Peek, r),
    {
        participant.collect(self.reader, 1usize, NOT_READ_SAMPLE_STATE, None, ReadOp::Peek)
    }

    /// Hands out up to `max_samples` samples in the states of `mask`, leaving them as they are.
    pub fn peek_with_collector(&self, participant: &mut DomainParticipant, max_samples: usize, mask: u32) -> (r: Result<Vec<Sample>, ReturnCodes>)
        requires
            old(participant).wf(),
        ensures
            final(participant).wf(),
            read_outcome(old(participant)@, final(participant)@, self.entity_id(), max_samples as nat, mask, None, ReadOp::Peek, r),
    {
        participant.collect(self.reader, max_samples, mask, None, ReadOp::Peek)
    }

    /// Hands out up to `max_samples` serialized samples in the states of `mask`, leaving them as they are.
    pub fn peekcdr(&self, participant: &mut DomainParticipant, max_samples: usize, mask: u32) -> (r: Result<Vec<Sample>, ReturnCodes>)
        requires
            old(participant).wf(),
        ensures
            final(participant).wf(),
            read_outcome(old(participant)@, final(participant)@, self.entity_id(), max_samples as nat, mask, None, ReadOp::Peek, r),
    {
        participant.collect(self.reader, max_samples, mask, None, ReadOp::Peek)
    }

    /// Hands out up to `max_samples` serialized samples of one instance in the states of `mask`, leaving them as they are.
    pub fn peekcdr_instance(&self, participant: &mut DomainParticipant, max_samples: usize, instance_handle: InstanceHandle, mask: u32) -> (r: Result<Vec<Sample>, ReturnCodes>)
        requires
            old(participant).wf(),
        ensures
            final(participant).wf(),
            read_outcome(old(participant)@, final(participant)@, self.entity_id(), max_samples as nat, mask, Some(instance_handle.handle), ReadOp::Peek, r),
    {
        participant.collect(self.reader, max_samples, mask, Some(instance_handle.handle), ReadOp::Peek)
    }

    /// Hands out up to `max_samples` samples, oldest first, and marks them read.
    pub fn read(&self, participant: &mut DomainParticipant, max_samples: usize) -> (r: Result<Vec<Sample>, ReturnCodes>)
        requires
            old(participant).wf(),
        ensures
            final(participant).wf(),
            read_outcome(old(participant)@, final(participant)@, self.entity_id(), max_samples as nat, 0u32, None, ReadOp::Read, r),
    {
        participant.collect(self.reader, max_samples, 0u32, None, ReadOp::Read)
    }

    /// Hands out up to `max_samples` samples and marks them read.
    pub fn read_wl(&self, participant: &mut DomainParticipant, max_samples: usize) -> (r: Result<Vec<Sample>, ReturnCodes>)
        requires
            old(participant).wf(),
        ensures
            final(participant).wf(),
            read_outcome(old(participant)@, final(participant)@, self.entity_id(), max_samples as nat, 0u32, None, ReadOp::Read, r),
    {
        participant.collect(self.reader, max_samples, 0u32, None, ReadOp::Read)
    }

    /// Hands out up to `max_samples` samples in the states of `mask` and marks them read.
    pub fn read_mask(&self, participant: &mut DomainParticipant, max_samples: usize, mask: u32) -> (r: Result<Vec<Sample>, ReturnCodes>)
        requires
            old(participant).wf(),
        ensures
            final(participant).wf(),
            read_outcome(old(participant)@, final(participant)@, self.entity_id(), max_samples as nat, mask, None, ReadOp::Read, r),
    {
        participant.collect(self.reader, max_samples, mask, None, ReadOp::Read)
    }

    /// Hands out up to `max_samples` samples in the states of `mask` and marks them read.
    pub fn read_mask_wl(&self, participant: &mut DomainParticipant, max_samples: usize, mask: u32) -> (r: Result<Vec<Sample>, ReturnCodes>)
        requires
            old(participant).wf(),
        ensures
            final(participant).wf(),
            read_outcome(old(participant)@, final(participant)@, self.entity_id(), max_samples as nat, mask, None, ReadOp::Read, r),
    {
        participant.collect(self.reader, max_samples, mask, None, ReadOp::Read)
    }

    /// Hands out up to `max_samples` samples of one instance and marks them read.
    pub fn read_instance(&self, participant: &mut DomainParticipant, max_samples: usize, instance_handle: InstanceHandle) -> (r: Result<Vec<Sample>, ReturnCodes>)
        requires
            old(participant).wf(),
        ensures
            final(participant).wf(),
            read_outcome(old(participant)@, final(participant)@, self.entity_id(), max_samples as nat, 0u32, Some(instance_handle.handle), ReadOp::Read, r),
    {
        participant.collect(self.reader, max_samples, 0u32, Some(instance_handle.handle), ReadOp::Read)
    }

    /// Hands out up to `max_samples` samples of one instance and marks them read.
    pub fn read_instance_wl(&self, participant: &mut DomainParticipant, max_samples: usize, instance_handle: InstanceHandle) -> (r: Result<Vec<Sample>, ReturnCodes>)
        requires
            old(participant).wf(),
        ensures
            final(participant).wf(),
            read_outcome(old(participant)@, final(participant)@, self.entity_id(), max_samples as nat, 0u32, Some(instance_handle.handle), ReadOp::Read, r),
    {
        participant.collect(self.reader, max_samples, 0u32, Some(instance_handle.handle), ReadOp::Read)
    }

    /// Hands out up to `max_samples` samples of one instance in the states of `mask` and marks them read.
    pub fn read_instance_mask(&self, participant: &mut DomainParticipant, max_samples: usize, instance_handle: InstanceHandle, mask: u32) -> (r: Result<Vec<Sample>, ReturnCodes>)
        requires
            old(participant).wf(),
        ensures
            final(participant).wf(),
            read_outcome(old(participant)@, final(participant)@, self.entity_id(), max_samples as nat, mask, Some(instance_handle.handle), ReadOp::Read, r),
    {
        participant.collect(self.reader, max_samples, mask, Some(instance_handle.handle), ReadOp::Read)
    }

    /// Hands out up to `max_samples` samples of one instance in the states of `mask` and marks them read.
    pub fn read_instance_mask_wl(&self, participant: &mut DomainParticipant, max_samples: usize, instance_handle: InstanceHandle, mask: u32) -> (r: Result<Vec<Sample>, ReturnCodes>)
        requires
            old(participant).wf(),
        ensures
            final(participant).wf(),
            read_outcome(old(participant)@, final(participant)@, self.entity_id(), max_samples as nat, mask, Some(instance_handle.handle), ReadOp::Read, r),
    {
        participant.collect(self.reader, max_samples, mask, Some(instance_handle.handle), ReadOp::Read)
    }

    /// Hands out the first sample not yet read and marks it read.
    pub fn read_next(&self, participant: &mut DomainParticipant) -> (r: Result<Vec<Sample>, ReturnCodes>)
        requires
            old(participant).wf(),
        ensures
            final(participant).wf(),
            read_outcome(old(participant)@, final(participant)@, self.entity_id(), 1nat, NOT_READ_SAMPLE_STATE, None, ReadOp::Read, r),
    {
        participant.collect(self.reader, 1usize, NOT_READ_SAMPLE_STATE, None, ReadOp::Read)
    }

    /// Hands out the first sample not yet read and marks it read.
    pub fn read_next_wl(&self, participant: &mut DomainParticipant) -> (r: Result<Vec<Sample>, ReturnCodes>)
        requires
            old(participant).wf(),
        ensures
            final(participant).wf(),
            read_outcome(old(participant)@, final(participant)@, self.entity_id(), 1nat, NOT_READ_SAMPLE_STATE, None, ReadOp::Read, r),
    {
        participant.collect(self.reader, 1usize, NOT_READ_SAMPLE_STATE, None, ReadOp::Read)
    }

    /// Hands out up to `max_samples` samples in the states of `mask` and marks them read.
    pub fn read__with_collector(&self, participant: &mut DomainParticipant, max_samples: usize, mask: u32) -> (r: Result<Vec<Sample>, ReturnCodes>)
        requires
            old(participant).wf(),
        ensures
            final(participant).wf(),
            read_outcome(old(participant)@, final(participant)@, self.entity_id(), max_samples as nat, mask, None, ReadOp::Read, r),
    {
        participant.collect(self.reader, max_samples, mask, None, ReadOp::Read)
    }

    /// Hands out up to `max_samples` serialized samples in the states of `mask` and marks them read.
    pub fn readcdr(&self, participant: &mut DomainParticipant, max_samples: usize, mask: u32) -> (r: Result<Vec<Sample>, ReturnCodes>)
        requires
            old(participant).wf(),
        ensures
            final(participant).wf(),
            read_outcome(old(participant)@, final(participant)@, self.entity_id(), max_samples as nat, mask, None, ReadOp::Read, r),
    {
        participant.collect(self.reader, max_samples, mask, None, ReadOp::Read)
    }

    /// Hands out up to `max_samples` serialized samples of one instance in the states of `mask` and marks them read.
    pub fn readcdr_instance(&self, participant: &mut DomainParticipant, max_samples: usize, instance_handle: InstanceHandle, mask: u32) -> (r: Result<Vec<Sample>, ReturnCodes>)
        requires
            old(participant).wf(),
        ensures
            final(participant).wf(),
            read_outcome(old(participant)@, final(participant)@, self.entity_id(), max_samples as nat, mask, Some(instance_handle.handle), ReadOp::Read, r),
    {
        participant.collect(self.reader, max_samples, mask, Some(instance_handle.handle), ReadOp::Read)
    }

    /// Hands out up to `max_samples` samples, oldest first, and removes them from the history cache.
    pub fn take(&self, participant: &mut DomainParticipant, max_samples: usize) -> (r: Result<Vec<Sample>, ReturnCodes>)
        requires
            old(participant).wf(),
        ensures
            final(participant).wf(),
            read_outcome(old(participant)@, final(participant)@, self.entity_id(), max_samples as nat, 0u32, None, ReadOp::Take, r),
    {
        participant.collect(self.reader, max_samples, 0u32, None, ReadOp::Take)
    }

    /// Hands out up to `max_samples` samples and removes them.
    pub fn take_wl(&self, participant: &mut DomainParticipant, max_samples: usize) -> (r: Result<Vec<Sample>, ReturnCodes>)
        requires
            old(participant).wf(),
        ensures
            final(participant).wf(),
            read_outcome(old(participant)@, final(participant)@, self.entity_id(), max_samples as nat, 0u32, None, ReadOp::Take, r),
    {
        participant.collect(self.reader, max_samples, 0u32, None, ReadOp::Take)
    }

    /// Hands out up to `max_samples` samples in the states of `mask` and removes them.
    pub fn take_mask(&self, participant: &mut DomainParticipant, max_samples: usize, mask: u32) -> (r: Result<Vec<Sample>, ReturnCodes>)
        requires
            old(participant).wf(),
        ensures
            final(participant).wf(),
            read_outcome(old(participant)@, final(participant)@, self.entity_id(), max_samples as nat, mask, None, ReadOp::Take, r),
    {
        participant.collect(self.reader, max_samples, mask, None, ReadOp::Take)
    }

    /// Hands out up to `max_samples` samples in the states of `mask` and removes them.
    pub fn take_mask_wl(&self, participant: &mut DomainParticipant, max_samples: usize, mask: u32) -> (r: Result<Vec<Sample>, ReturnCodes>)
        requires
            old(participant).wf(),
        ensures
            final(participant).wf(),
            read_outcome(old(participant)@, final(participant)@, self.entity_id(), max_samples as nat, mask, None, ReadOp::Take, r),
    {
        participant.collect(self.reader, max_samples, mask, None, ReadOp::Take)
    }

    /// Hands out up to `max_samples` samples of one instance and removes them.
    pub fn take_instance(&self, participant: &mut DomainParticipant, max_samples: usize, instance_handle: InstanceHandle) -> (r: Result<Vec<Sample>, ReturnCodes>)
        requires
            old(participant).wf(),
        ensures
            final(participant).wf(),
            read_outcome(old(participant)@, final(participant)@, self.entity_id(), max_samples as nat, 0u32, Some(instance_handle.handle), ReadOp::Take, r),
    {
        participant.collect(self.reader, max_samples, 0u32, Some(instance_handle.handle), ReadOp::Take)
    }

    /// Hands out the first sample not yet read and removes it.
    pub fn take_next(&self, participant: &mut DomainParticipant) -> (r: Result<Vec<Sample>, ReturnCodes>)
        requires
            old(participant).wf(),
        ensures
            final(participant).wf(),
            read_outcome(old(participant)@, final(participant)@, self.entity_id(), 1nat, NOT_READ_SAMPLE_STATE, None, ReadOp::Take, r),
    {
        participant.collect(self.reader, 1usize, NOT_READ_SAMPLE_STATE, None, ReadOp::Take)
    }

    /// Hands out up to `max_samples` samples in the states of `mask` and removes them.
    pub fn take_with_collector(&self, participant: &mut DomainParticipant, max_samples: usize, mask: u32) -> (r: Result<Vec<Sample>, ReturnCodes>)
        requires
            old(participant).wf(),
        ensures
            final(participant).wf(),
            read_outcome(old(participant)@, final(participant)@, self.entity_id(), max_samples as nat, mask, None, ReadOp::Take, r),
    {
        participant.collect(self.reader, max_samples, mask, None, ReadOp::Take)
    }

    /// Hands out up to `max_samples` serialized samples in the states of `mask` and removes them.
    pub fn takecdr(&self, participant: &mut DomainParticipant, max_samples: usize, mask: u32) -> (r: Result<Vec<Sample>, ReturnCodes>)
        requires
            old(participant).wf(),
        ensures
            final(participant).wf(),
            read_outcome(old(participant)@, final(participant)@, self.entity_id(), max_samples as nat, mask, None, ReadOp::Take, r),
    {
        participant.collect(self.reader, max_samples, mask, None, ReadOp::Take)
    }

    /// Hands out up to `max_samples` serialized samples of one instance in the states of `mask` and removes them.
    pub fn takecdr_instance(&self, participant: &mut DomainParticipant, max_samples: usize, instance_handle: InstanceHandle, mask: u32) -> (r: Result<Vec<Sample>, ReturnCodes>)
        requires
            old(participant).wf(),
        ensures
            final(participant).wf(),
            read_outcome(old(participant)@, final(participant)@, self.entity_id(), max_samples as nat, mask, Some(instance_handle.handle), ReadOp::Take, r),
    {
        participant.collect(self.reader, max_samples, mask, Some(instance_handle.handle), ReadOp::Take)
    }

}


/// Relies on bincode::deserialize: the value decoded from bincode's format,
/// or nothing where the bytes do not decode.
#[verifier::external_body]
fn decode_sample<T: serde::de::DeserializeOwned>(bytes: &Vec<u8>) -> (r: Option<T>)
{
    bincode::deserialize(bytes.as_slice()).ok()
}

impl<T: serde::de::DeserializeOwned> DataReader<T> {
    /// Reads up to `max_samples` samples, as `read` does, and decodes each.
    /// Samples that do not decode make the whole call a bad parameter; the
    /// samples are marked read either way.
    pub fn read_values(&self, participant: &mut DomainParticipant, max_samples: usize) -> (r: Result<Vec<T>, ReturnCodes>)
        requires
            old(participant).wf(),
        ensures
            final(participant).wf(),
            read_error(old(participant)@, self.entity_id()) matches Some(e) ==> r is Err && final(participant)@ == old(participant)@,
            read_error(old(participant)@, self.entity_id()) is None ==> {
                let q = Query { reader: self.entity_id() as usize, mask: 0, instance: None };
                let res = read_result(old(participant)@.samples, q, max_samples as nat, ReadOp::Read, old(participant)@.instances.len());
                &&& final(participant)@ == (ParticipantView { samples: res.1, ..old(participant)@ })
                &&& (r is Err ==> r == Err::<Vec<T>, _>(ReturnCodes::BadParameter))
                &&& (r matches Ok(v) ==> v@.len() == res.0.len())
            },
    {
        let samples = match participant.collect(self.reader, max_samples, 0, None, ReadOp::Read) {
            Ok(s) => s,
            Err(e) => return Err(e),
        };
        proof {
            assert(results_view(samples@).len() == samples@.len());
        }
        match decode_all(&samples) {
            Some(out) => Ok(out),
            None => Err(ReturnCodes::BadParameter),
        }
    }
}

fn decode_all<T: serde::de::DeserializeOwned>(samples: &Vec<Sample>) -> (r: Option<Vec<T>>)
    ensures
        r matches Some(v) ==> v@.len() == samples@.len(),
{
    let mut out: Vec<T> = Vec::new();
    let mut i: usize = 0;
    while i < samples.len()
        invariant
            i <= samples@.len(),
            out@.len() == i,
        decreases samples@.len() - i,
    {
        match decode_sample(&samples[i].data) {
            Some(v) => out.push(v),
            None => return None,
        }
        i = i + 1;
    }
    Some(out)
}

} // verus!
