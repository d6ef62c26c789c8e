use vstd::prelude::*;

verus! {

/// Durability QoS: Applies to Topic, DataReader, DataWriter.
#[derive(Debug, Clone, Copy, PartialEq, Eq, Structural)]
pub enum DurabilityKind {
    /// Volatile durability
    Volatile,
    /// Transient Local durability
    TransientLocal,
    /// Transient durability
    Transient,
    /// Persistent durability
    Persistent,
}

/// History QoS: Applies to Topic, DataReader, DataWriter.
#[derive(Debug, Clone, Copy, PartialEq, Eq, Structural)]
pub enum HistoryKind {
    /// Keep Last history
    KeepLast,
    /// Keep All history
    KeepAll,
}

/// Ownership QoS: Applies to Topic, DataReader, DataWriter.
#[derive(Debug, Clone, Copy, PartialEq, Eq, Structural)]
pub enum OwnershipKind {
    /// Shared Ownership
    Shared,
    /// Exclusive Ownership
    Exclusive,
}

/// Liveliness QoS: Applies to Topic, DataReader, DataWriter.
#[derive(Debug, Clone, Copy, PartialEq, Eq, Structural)]
pub enum LivelinessKind {
    Automatic,
    ManualByParticipant,
    ManualByTopic,
}

/// Reliability QoS: Applies to Topic, DataReader, DataWriter.
#[derive(Debug, Clone, Copy, PartialEq, Eq, Structural)]
pub enum ReliabilityKind {
    BestEffort,
    Reliable,
}

/// DestinationOrder QoS: Applies to Topic, DataReader, DataWriter.
#[derive(Debug, Clone, Copy, PartialEq, Eq, Structural)]
pub enum DestinationOrderKind {
    ByReceptionTimestamp,
    BySourceTimestamp,
}

/// Ignore-local QoS: Applies to DataReader, DataWriter.
#[derive(Debug, Clone, Copy, PartialEq, Eq, Structural)]
pub enum IgnorelocalKind {
    NoneIgnored,
    Participant,
    Process,
}

#[derive(Debug, Clone, Copy, PartialEq, Eq, Structural)]
pub enum AccessScopeKind {
    INSTANCE,
    TOPIC,
}

#[derive(Debug, Clone, Copy, PartialEq, Eq, Structural)]
pub enum TypeConsistencyKind {
    DisallowTypeCoercion,
    AllowTypeCoercion,
}

/// A duration in nanoseconds.
pub type DurationNanos = i64;

/// The duration that never elapses.
pub const DURATION_INFINITE: i64 = 0x7fff_ffff_ffff_ffff;

#[derive(Debug, Clone, Copy, PartialEq, Eq, Structural)]
pub struct History {
    pub kind: HistoryKind,
    pub depth: i32,
}

#[derive(Debug, Clone, Copy, PartialEq, Eq, Structural)]
pub struct ResourceLimits {
    pub max_samples: i32,
    pub max_instances: i32,
    pub max_samples_per_instance: i32,
}

#[derive(Debug, Clone, Copy, PartialEq, Eq, Structural)]
pub struct Presentation {
    pub access_scope: AccessScopeKind,
    pub coherent_access: bool,
    pub ordered_access: bool,
}

#[derive(Debug, Clone, Copy, PartialEq, Eq, Structural)]
pub struct Liveliness {
    pub kind: LivelinessKind,
    pub lease_duration: DurationNanos,
}

#[derive(Debug, Clone, Copy, PartialEq, Eq, Structural)]
pub struct Reliability {
    pub kind: ReliabilityKind,
    pub max_blocking_time: DurationNanos,
}

#[derive(Debug, Clone, Copy, PartialEq, Eq, Structural)]
pub struct ReaderDataLifecycle {
    pub autopurge_nowriter_samples_delay: DurationNanos,
    pub autopurge_disposed_samples_delay: DurationNanos,
}

#[derive(Debug, Clone, Copy, PartialEq, Eq, Structural)]
pub struct DurabilityService {
    pub service_cleanup_delay: DurationNanos,
    pub history_kind: HistoryKind,
    pub history_depth: i32,
    pub max_samples: i32,
    pub max_instances: i32,
    pub max_samples_per_instance: i32,
}

#[derive(Debug, Clone, Copy, PartialEq, Eq, Structural)]
pub struct TypeConsistency {
    /// type consistency enforcement kind
    pub kind: TypeConsistencyKind,
    /// ignore sequence bounds in type assignability checking
    pub ignore_sequence_bounds: bool,
    /// ignore string bounds in type assignability checking
    pub ignore_string_bounds: bool,
    /// ignore member names in type assignability checking
    pub ignore_member_names: bool,
    /// prevent type widening in type assignability checking
    pub prevent_type_widening: bool,
    /// force type validation in assignability checking
    pub force_type_validation: bool,
}

#[derive(Debug, Clone, Copy, PartialEq, Eq, Structural)]
pub struct TransportPriority(pub i32);

/// A named string property.
#[derive(Debug)]
pub struct Property {
    pub name: String,
    pub value: String,
}

/// A named binary property.
#[derive(Debug)]
pub struct BinaryProperty {
    pub name: String,
    pub value: Vec<u8>,
}

impl View for Property {
    type V = (Seq<char>, Seq<char>);

    open spec fn view(&self) -> (Seq<char>, Seq<char>) {
        (self.name@, self.value@)
    }
}

impl View for BinaryProperty {
    type V = (Seq<char>, Seq<u8>);

    open spec fn view(&self) -> (Seq<char>, Seq<u8>) {
        (self.name@, self.value@)
    }
}

impl Property {
    pub fn copy(&self) -> (r: Property)
        ensures
            r@ == self@,
    {
        Property { name: self.name.clone(), value: self.value.clone() }
    }
}

impl BinaryProperty {
    pub fn copy(&self) -> (r: BinaryProperty)
        ensures
            r@ == self@,
    {
        let v = self.value.clone();
        proof {
            assert(v@ =~= self.value@);
        }
        BinaryProperty { name: self.name.clone(), value: v }
    }
}

pub open spec fn strs_view(v: Seq<String>) -> Seq<Seq<char>> {
    v.map_values(|s: String| s@)
}

pub open spec fn props_view(v: Seq<Property>) -> Seq<(Seq<char>, Seq<char>)> {
    v.map_values(|p: Property| p@)
}

pub open spec fn bprops_view(v: Seq<BinaryProperty>) -> Seq<(Seq<char>, Seq<u8>)> {
    v.map_values(|p: BinaryProperty| p@)
}

pub open spec fn opt_str_view(o: Option<String>) -> Option<Seq<char>> {
    match o {
        Some(s) => Some(s@),
        None => None,
    }
}

pub open spec fn opt_strs_view(o: Option<Vec<String>>) -> Option<Seq<Seq<char>>> {
    match o {
        Some(v) => Some(strs_view(v@)),
        None => None,
    }
}

pub open spec fn opt_i16s_view(o: Option<Vec<i16>>) -> Option<Seq<i16>> {
    match o {
        Some(v) => Some(v@),
        None => None,
    }
}

/// What a QoS record holds: each policy is `None` while it is at its default.
pub struct QosView {
    pub userdata: Option<Seq<char>>,
    pub topicdata: Option<Seq<char>>,
    pub groupdata: Option<Seq<char>>,
    pub durability: Option<DurabilityKind>,
    pub history: Option<History>,
    pub resource_limits: Option<ResourceLimits>,
    pub presentation: Option<Presentation>,
    pub lifespan: Option<DurationNanos>,
    pub deadline: Option<DurationNanos>,
    pub latency_budget: Option<DurationNanos>,
    pub ownership: Option<OwnershipKind>,
    pub ownership_strength: Option<i32>,
    pub liveliness: Option<Liveliness>,
    pub time_based_filter: Option<DurationNanos>,
    pub partition: Option<Seq<Seq<char>>>,
    pub reliability: Option<Reliability>,
    pub transport_priority: Option<i32>,
    pub destination_order: Option<DestinationOrderKind>,
    pub writer_data_lifecycle: Option<bool>,
    pub reader_data_lifecycle: Option<ReaderDataLifecycle>,
    pub writer_batching: Option<bool>,
    pub durability_service: Option<DurabilityService>,
    pub ignore_local: Option<IgnorelocalKind>,
    pub props: Seq<(Seq<char>, Seq<char>)>,
    pub bprops: Seq<(Seq<char>, Seq<u8>)>,
    pub type_consistency: Option<TypeConsistency>,
    pub data_representation: Option<Seq<i16>>,
    pub entity_name: Option<Seq<char>>,
    pub psmx_instances: Option<Seq<Seq<char>>>,
}

/// A record of quality-of-service policies. A policy that was never set
/// stands at its documented default.
pub struct Qos {
    userdata: Option<String>,
    topicdata: Option<String>,
    groupdata: Option<String>,
    durability: Option<DurabilityKind>,
    history: Option<History>,
    resource_limits: Option<ResourceLimits>,
    presentation: Option<Presentation>,
    lifespan: Option<DurationNanos>,
    deadline: Option<DurationNanos>,
    latency_budget: Option<DurationNanos>,
    ownership: Option<OwnershipKind>,
    ownership_strength: Option<i32>,
    liveliness: Option<Liveliness>,
    time_based_filter: Option<DurationNanos>,
    partition: Option<Vec<String>>,
    reliability: Option<Reliability>,
    transport_priority: Option<i32>,
    destination_order: Option<DestinationOrderKind>,
    writer_data_lifecycle: Option<bool>,
    reader_data_lifecycle: Option<ReaderDataLifecycle>,
    writer_batching: Option<bool>,
    durability_service: Option<DurabilityService>,
    ignore_local: Option<IgnorelocalKind>,
    props: Vec<Property>,
    bprops: Vec<BinaryProperty>,
    type_consistency: Option<TypeConsistency>,
    data_representation: Option<Vec<i16>>,
    entity_name: Option<String>,
    psmx_instances: Option<Vec<String>>,
}

impl View for Qos {
    type V = QosView;

    closed spec fn view(&self) -> QosView {
        QosView {
            userdata: opt_str_view(self.userdata),
            topicdata: opt_str_view(self.topicdata),
            groupdata: opt_str_view(self.groupdata),
            durability: self.durability,
            history: self.history,
            resource_limits: self.resource_limits,
            presentation: self.presentation,
            lifespan: self.lifespan,
            deadline: self.deadline,
            latency_budget: self.latency_budget,
            ownership: self.ownership,
            ownership_strength: self.ownership_strength,
            liveliness: self.liveliness,
            time_based_filter: self.time_based_filter,
            partition: opt_strs_view(self.partition),
            reliability: self.reliability,
            transport_priority: self.transport_priority,
            destination_order: self.destination_order,
            writer_data_lifecycle: self.writer_data_lifecycle,
            reader_data_lifecycle: self.reader_data_lifecycle,
            writer_batching: self.writer_batching,
            durability_service: self.durability_service,
            ignore_local: self.ignore_local,
            props: props_view(self.props@),
            bprops: bprops_view(self.bprops@),
            type_consistency: self.type_consistency,
            data_representation: opt_i16s_view(self.data_representation),
            entity_name: opt_str_view(self.entity_name),
            psmx_instances: opt_strs_view(self.psmx_instances),
        }
    }
}

/// The record in which every policy stands at its default.
pub open spec fn default_qos() -> QosView {
    QosView {
        userdata: None,
        topicdata: None,
        groupdata: None,
        durability: None,
        history: None,
        resource_limits: None,
        presentation: None,
        lifespan: None,
        deadline: None,
        latency_budget: None,
        ownership: None,
        ownership_strength: None,
        liveliness: None,
        time_based_filter: None,
        partition: None,
        reliability: None,
        transport_priority: None,
        destination_order: None,
        writer_data_lifecycle: None,
        reader_data_lifecycle: None,
        writer_batching: None,
        durability_service: None,
        ignore_local: None,
        props: Seq::empty(),
        bprops: Seq::empty(),
        type_consistency: None,
        data_representation: None,
        entity_name: None,
        psmx_instances: None,
    }
}

pub open spec fn fill<T>(a: Option<T>, b: Option<T>) -> Option<T> {
    match a {
        Some(x) => Some(x),
        None => b,
    }
}

pub open spec fn fill_seq<T>(a: Seq<T>, b: Seq<T>) -> Seq<T> {
    if a.len() == 0 {
        b
    } else {
        a
    }
}

/// `a` with every policy that stands at its default taken from `b`.
pub open spec fn merged(a: QosView, b: QosView) -> QosView {
    QosView {
        userdata: fill(a.userdata, b.userdata),
        topicdata: fill(a.topicdata, b.topicdata),
        groupdata: fill(a.groupdata, b.groupdata),
        durability: fill(a.durability, b.durability),
        history: fill(a.history, b.history),
        resource_limits: fill(a.resource_limits, b.resource_limits),
        presentation: fill(a.presentation, b.presentation),
        lifespan: fill(a.lifespan, b.lifespan),
        deadline: fill(a.deadline, b.deadline),
        latency_budget: fill(a.latency_budget, b.latency_budget),
        ownership: fill(a.ownership, b.ownership),
        ownership_strength: fill(a.ownership_strength, b.ownership_strength),
        liveliness: fill(a.liveliness, b.liveliness),
        time_based_filter: fill(a.time_based_filter, b.time_based_filter),
        partition: fill(a.partition, b.partition),
        reliability: fill(a.reliability, b.reliability),
        transport_priority: fill(a.transport_priority, b.transport_priority),
        destination_order: fill(a.destination_order, b.destination_order),
        writer_data_lifecycle: fill(a.writer_data_lifecycle, b.writer_data_lifecycle),
        reader_data_lifecycle: fill(a.reader_data_lifecycle, b.reader_data_lifecycle),
        writer_batching: fill(a.writer_batching, b.writer_batching),
        durability_service: fill(a.durability_service, b.durability_service),
        ignore_local: fill(a.ignore_local, b.ignore_local),
        props: fill_seq(a.props, b.props),
        bprops: fill_seq(a.bprops, b.bprops),
        type_consistency: fill(a.type_consistency, b.type_consistency),
        data_representation: fill(a.data_representation, b.data_representation),
        entity_name: fill(a.entity_name, b.entity_name),
        psmx_instances: fill(a.psmx_instances, b.psmx_instances),
    }
}

/// Merging the same record a second time changes nothing: every policy that
/// the first merge left at its default is at its default in the source too.
pub proof fn lemma_merge_idempotent(a: QosView, b: QosView)
    ensures
        merged(merged(a, b), b) == merged(a, b),
{
}

fn clone_opt_string(o: &Option<String>) -> (r: Option<String>)
    ensures
        opt_str_view(r) == opt_str_view(*o),
{
    match o {
        Some(s) => Some(s.clone()),
        None => None,
    }
}

fn clone_strings(v: &Vec<String>) -> (r: Vec<String>)
    ensures
        strs_view(r@) == strs_view(v@),
{
    let r = v.clone();
    proof {
        assert(r@ =~= v@);
    }
    r
}

fn clone_opt_strings(o: &Option<Vec<String>>) -> (r: Option<Vec<String>>)
    ensures
        opt_strs_view(r) == opt_strs_view(*o),
{
    match o {
        Some(v) => Some(clone_strings(v)),
        None => None,
    }
}

fn clone_opt_i16s(o: &Option<Vec<i16>>) -> (r: Option<Vec<i16>>)
    ensures
        opt_i16s_view(r) == opt_i16s_view(*o),
{
    match o {
        Some(v) => {
            let c = v.clone();
            proof {
                assert(c@ =~= v@);
            }
            Some(c)
        },
        None => None,
    }
}

fn clone_props(v: &Vec<Property>) -> (r: Vec<Property>)
    ensures
        props_view(r@) == props_view(v@),
{
    let mut r: Vec<Property> = Vec::new();
    let mut i: usize = 0;
    while i < v.len()
        invariant
            i <= v.len(),
            r@.len() == i,
            props_view(r@) == props_view(v@.subrange(0, i as int)),
        decreases v.len() - i,
    {
        let ghost before = r@;
        r.push(v[i].copy());
        proof {
            assert(v@.subrange(0, i + 1) == v@.subrange(0, i as int).push(v@[i as int]));
            assert forall|k: int| 0 <= k < i implies #[trigger] r@[k]@ == v@[k]@ by {
                assert(r@[k] == before[k]);
                assert(props_view(before)[k] == props_view(v@.subrange(0, i as int))[k]);
            }
            assert(props_view(r@) =~= props_view(v@.subrange(0, i + 1)));
        }
        i = i + 1;
    }
    proof {
        assert(v@.subrange(0, v.len() as int) == v@);
    }
    r
}

fn clone_bprops(v: &Vec<BinaryProperty>) -> (r: Vec<BinaryProperty>)
    ensures
        bprops_view(r@) == bprops_view(v@),
{
    let mut r: Vec<BinaryProperty> = Vec::new();
    let mut i: usize = 0;
    while i < v.len()
        invariant
            i <= v.len(),
            r@.len() == i,
            bprops_view(r@) == bprops_view(v@.subrange(0, i as int)),
        decreases v.len() - i,
    {
        let ghost before = r@;
        r.push(v[i].copy());
        proof {
            assert(v@.subrange(0, i + 1) == v@.subrange(0, i as int).push(v@[i as int]));
            assert forall|k: int| 0 <= k < i implies #[trigger] r@[k]@ == v@[k]@ by {
                assert(r@[k] == before[k]);
                assert(bprops_view(before)[k] == bprops_view(v@.subrange(0, i as int))[k]);
            }
            assert(bprops_view(r@) =~= bprops_view(v@.subrange(0, i + 1)));
        }
        i = i + 1;
    }
    proof {
        assert(v@.subrange(0, v.len() as int) == v@);
    }
    r
}

fn fill_copy<T: Copy>(a: &mut Option<T>, b: Option<T>)
    ensures
        *final(a) == fill(*old(a), b),
{
    if a.is_none() {
        *a = b;
    }
}

fn fill_string(a: &mut Option<String>, b: &Option<String>)
    ensures
        opt_str_view(*final(a)) == fill(opt_str_view(*old(a)), opt_str_view(*b)),
{
    if a.is_none() {
        *a = clone_opt_string(b);
    }
}

fn fill_strings(a: &mut Option<Vec<String>>, b: &Option<Vec<String>>)
    ensures
        opt_strs_view(*final(a)) == fill(opt_strs_view(*old(a)), opt_strs_view(*b)),
{
    if a.is_none() {
        *a = clone_opt_strings(b);
    }
}

fn fill_i16s(a: &mut Option<Vec<i16>>, b: &Option<Vec<i16>>)
    ensures
        opt_i16s_view(*final(a)) == fill(opt_i16s_view(*old(a)), opt_i16s_view(*b)),
{
    if a.is_none() {
        *a = clone_opt_i16s(b);
    }
}

impl Qos {
    /// Creates a record in which every policy stands at its default.
    pub fn new() -> (r: Qos)
        ensures
            r@ == default_qos(),
    {
        let r = Qos {
            userdata: None,
            topicdata: None,
            groupdata: None,
            durability: None,
            history: None,
            resource_limits: None,
            presentation: None,
            lifespan: None,
            deadline: None,
            latency_budget: None,
            ownership: None,
            ownership_strength: None,
            liveliness: None,
            time_based_filter: None,
            partition: None,
            reliability: None,
            transport_priority: None,
            destination_order: None,
            writer_data_lifecycle: None,
            reader_data_lifecycle: None,
            writer_batching: None,
            durability_service: None,
            ignore_local: None,
            props: Vec::new(),
            bprops: Vec::new(),
            type_consistency: None,
            data_representation: None,
            entity_name: None,
            psmx_instances: None,
        };
        proof {
            assert(props_view(r.props@) =~= Seq::empty());
            assert(bprops_view(r.bprops@) =~= Seq::empty());
        }
        r
    }

    /// Resets every policy to its default.
    pub fn reset(&mut self)
        ensures
            final(self)@ == default_qos(),
    {
        *self = Qos::new();
    }

    /// Copies into this record each policy of `other` that stands at its
    /// default here; policies already set here are kept.
    pub fn merge(&mut self, other: &Qos)
        ensures
            final(self)@ == merged(old(self)@, other@),
    {
        fill_string(&mut self.userdata, &other.userdata);
        fill_string(&mut self.topicdata, &other.topicdata);
        fill_string(&mut self.groupdata, &other.groupdata);
        fill_copy(&mut self.durability, other.durability);
        fill_copy(&mut self.history, other.history);
        fill_copy(&mut self.resource_limits, other.resource_limits);
        fill_copy(&mut self.presentation, other.presentation);
        fill_copy(&mut self.lifespan, other.lifespan);
        fill_copy(&mut self.deadline, other.deadline);
        fill_copy(&mut self.latency_budget, other.latency_budget);
        fill_copy(&mut self.ownership, other.ownership);
        fill_copy(&mut self.ownership_strength, other.ownership_strength);
        fill_copy(&mut self.liveliness, other.liveliness);
        fill_copy(&mut self.time_based_filter, other.time_based_filter);
        fill_strings(&mut self.partition, &other.partition);
        fill_copy(&mut self.reliability, other.reliability);
        fill_copy(&mut self.transport_priority, other.transport_priority);
        fill_copy(&mut self.destination_order, other.destination_order);
        fill_copy(&mut self.writer_data_lifecycle, other.writer_data_lifecycle);
        fill_copy(&mut self.reader_data_lifecycle, other.reader_data_lifecycle);
        fill_copy(&mut self.writer_batching, other.writer_batching);
        fill_copy(&mut self.durability_service, other.durability_service);
        fill_copy(&mut self.ignore_local, other.ignore_local);
        fill_copy(&mut self.type_consistency, other.type_consistency);
        fill_i16s(&mut self.data_representation, &other.data_representation);
        fill_string(&mut self.entity_name, &other.entity_name);
        fill_strings(&mut self.psmx_instances, &other.psmx_instances);
        if self.props.len() == 0 {
            self.props = clone_props(&other.props);
        }
        if self.bprops.len() == 0 {
            self.bprops = clone_bprops(&other.bprops);
        }
    }
}


pub open spec fn or_default<T>(o: Option<T>, d: T) -> T {
    match o {
        Some(x) => x,
        None => d,
    }
}

pub open spec fn default_history() -> History {
    History { kind: HistoryKind::KeepLast, depth: 1 }
}

pub open spec fn default_resource_limits() -> ResourceLimits {
    ResourceLimits { max_samples: -1i32, max_instances: -1i32, max_samples_per_instance: -1i32 }
}

pub open spec fn default_presentation() -> Presentation {
    Presentation { access_scope: AccessScopeKind::INSTANCE, coherent_access: false, ordered_access: false }
}

pub open spec fn default_liveliness() -> Liveliness {
    Liveliness { kind: LivelinessKind::Automatic, lease_duration: DURATION_INFINITE }
}

/// Default maximum blocking time of a reliable writer: 100 ms.
pub const DEFAULT_MAX_BLOCKING_TIME: i64 = 100_000_000;

pub open spec fn default_reliability() -> Reliability {
    Reliability { kind: ReliabilityKind::BestEffort, max_blocking_time: DEFAULT_MAX_BLOCKING_TIME }
}

pub open spec fn default_reader_data_lifecycle() -> ReaderDataLifecycle {
    ReaderDataLifecycle {
        autopurge_nowriter_samples_delay: DURATION_INFINITE,
        autopurge_disposed_samples_delay: DURATION_INFINITE,
    }
}

pub open spec fn default_durability_service() -> DurabilityService {
    DurabilityService {
        service_cleanup_delay: 0,
        history_kind: HistoryKind::KeepLast,
        history_depth: 1,
        max_samples: -1i32,
        max_instances: -1i32,
        max_samples_per_instance: -1i32,
    }
}

pub open spec fn default_type_consistency() -> TypeConsistency {
    TypeConsistency {
        kind: TypeConsistencyKind::AllowTypeCoercion,
        ignore_sequence_bounds: true,
        ignore_string_bounds: true,
        ignore_member_names: false,
        prevent_type_widening: false,
        force_type_validation: false,
    }
}

/// Index of the first entry named `name`, or -1 where there is none.
pub open spec fn first_named<V>(ps: Seq<(Seq<char>, V)>, name: Seq<char>) -> int
    decreases ps.len(),
{
    if ps.len() == 0 {
        -1
    } else {
        let f = first_named(ps.drop_last(), name);
        if f >= 0 {
            f
        } else if ps.last().0 == name {
            ps.len() - 1
        } else {
            -1
        }
    }
}

pub proof fn lemma_first_named_bounds<V>(ps: Seq<(Seq<char>, V)>, name: Seq<char>)
    ensures
        -1 <= first_named(ps, name) < ps.len(),
        first_named(ps, name) >= 0 ==> ps[first_named(ps, name)].0 == name,
        first_named(ps, name) >= 0 ==> forall|k: int|
            0 <= k < first_named(ps, name) ==> ps[k].0 != name,
        first_named(ps, name) == -1 ==> forall|k: int| 0 <= k < ps.len() ==> ps[k].0 != name,
    decreases ps.len(),
{
    if ps.len() > 0 {
        let d = ps.drop_last();
        lemma_first_named_bounds(d, name);
        assert forall|k: int| 0 <= k < d.len() implies #[trigger] d[k] == ps[k] by {}
        let f = first_named(d, name);
        if f >= 0 {
            assert forall|k: int| 0 <= k < f implies ps[k].0 != name by {
                assert(d[k] == ps[k]);
            }
        }
        if f < 0 && ps.last().0 != name {
            assert forall|k: int| 0 <= k < ps.len() implies ps[k].0 != name by {
                if k < d.len() {
                    assert(d[k] == ps[k]);
                }
            }
        }
        if f < 0 && ps.last().0 == name {
            assert forall|k: int| 0 <= k < ps.len() - 1 implies ps[k].0 != name by {
                assert(d[k] == ps[k]);
            }
        }
    }
}

/// The list with the first entry named `name` given `value`, or with a new
/// entry at its end where none is named so.
pub open spec fn upsert<V>(ps: Seq<(Seq<char>, V)>, name: Seq<char>, value: V) -> Seq<(Seq<char>, V)> {
    let f = first_named(ps, name);
    if f >= 0 {
        ps.update(f, (name, value))
    } else {
        ps.push((name, value))
    }
}

/// The list without its first entry named `name`.
pub open spec fn unset<V>(ps: Seq<(Seq<char>, V)>, name: Seq<char>) -> Seq<(Seq<char>, V)> {
    let f = first_named(ps, name);
    if f >= 0 {
        ps.remove(f)
    } else {
        ps
    }
}

pub open spec fn names_of<V>(ps: Seq<(Seq<char>, V)>) -> Seq<Seq<char>> {
    ps.map_values(|p: (Seq<char>, V)| p.0)
}

fn find_prop(ps: &Vec<Property>, name: &String) -> (r: Option<usize>)
    ensures
        match r {
            Some(i) => i as int == first_named(props_view(ps@), name@) && i < ps@.len(),
            None => first_named(props_view(ps@), name@) == -1,
        },
{
    let mut i: usize = 0;
    while i < ps.len()
        invariant
            i <= ps.len(),
            first_named(props_view(ps@).take(i as int), name@) == -1,
        decreases ps.len() - i,
    {
        proof {
            assert(props_view(ps@).take(i + 1).drop_last() =~= props_view(ps@).take(i as int));
        }
        if ps[i].name == *name {
            proof {
                lemma_first_named_prefix(props_view(ps@), name@, i as int);
            }
            return Some(i);
        }
        i = i + 1;
    }
    proof {
        assert(props_view(ps@).take(i as int) =~= props_view(ps@));
    }
    None
}

fn find_bprop(ps: &Vec<BinaryProperty>, name: &String) -> (r: Option<usize>)
    ensures
        match r {
            Some(i) => i as int == first_named(bprops_view(ps@), name@) && i < ps@.len(),
            None => first_named(bprops_view(ps@), name@) == -1,
        },
{
    let mut i: usize = 0;
    while i < ps.len()
        invariant
            i <= ps.len(),
            first_named(bprops_view(ps@).take(i as int), name@) == -1,
        decreases ps.len() - i,
    {
        proof {
            assert(bprops_view(ps@).take(i + 1).drop_last() =~= bprops_view(ps@).take(i as int));
        }
        if ps[i].name == *name {
            proof {
                lemma_first_named_prefix(bprops_view(ps@), name@, i as int);
            }
            return Some(i);
        }
        i = i + 1;
    }
    proof {
        assert(bprops_view(ps@).take(i as int) =~= bprops_view(ps@));
    }
    None
}

/// Where no entry before `i` is named `name` and entry `i` is, `i` is the
/// first entry so named.
pub proof fn lemma_first_named_prefix<V>(ps: Seq<(Seq<char>, V)>, name: Seq<char>, i: int)
    requires
        0 <= i < ps.len(),
        first_named(ps.take(i), name) == -1,
        ps[i].0 == name,
    ensures
        first_named(ps, name) == i,
{
    lemma_first_named_bounds(ps.take(i), name);
    lemma_first_named_bounds(ps, name);
    let f = first_named(ps, name);
    if f >= 0 && f < i {
        assert(ps.take(i)[f].0 == name);
    }
    if f == -1 {
        assert(ps[i].0 != name);
    }
}

/// A fresh vector holding the bytes of `v`.
pub(crate) fn copy_bytes(v: &[u8]) -> (r: Vec<u8>)
    ensures
        r@ == v@,
{
    let mut r: Vec<u8> = Vec::new();
    let mut i: usize = 0;
    while i < v.len()
        invariant
            i <= v@.len(),
            r@ == v@.take(i as int),
        decreases v@.len() - i,
    {
        r.push(v[i]);
        proof {
            assert(v@.take(i + 1) =~= v@.take(i as int).push(v@[i as int]));
        }
        i = i + 1;
    }
    proof {
        assert(v@.take(v@.len() as int) =~= v@);
    }
    r
}

pub(crate) fn str_to_string(s: &str) -> (r: String)
    ensures
        r@ == s@,
{
    s.to_owned()
}

fn strs_from_slice(ps: &[&str], n: usize) -> (r: Vec<String>)
    requires
        n <= ps@.len(),
    ensures
        strs_view(r@) == ps@.take(n as int).map_values(|s: &str| s@),
{
    let mut r: Vec<String> = Vec::new();
    let mut i: usize = 0;
    while i < n
        invariant
            i <= n <= ps@.len(),
            strs_view(r@) == ps@.take(i as int).map_values(|s: &str| s@),
        decreases n - i,
    {
        let ghost before = r@;
        r.push(str_to_string(ps[i]));
        proof {
            assert(strs_view(r@) =~= ps@.take(i + 1).map_values(|s: &str| s@)) by {
                assert(strs_view(before).len() == i);
                assert forall|k: int| 0 <= k < i implies #[trigger] strs_view(r@)[k] == strs_view(before)[k] by {
                    assert(r@[k] == before[k]);
                }
            }
        }
        i = i + 1;
    }
    r
}

fn opt_string_eq(a: &Option<String>, b: &Option<String>) -> (r: bool)
    ensures
        r == (opt_str_view(*a) == opt_str_view(*b)),
{
    match (a, b) {
        (Some(x), Some(y)) => *x == *y,
        (None, None) => true,
        _ => false,
    }
}

fn strings_eq(a: &Vec<String>, b: &Vec<String>) -> (r: bool)
    ensures
        r == (strs_view(a@) == strs_view(b@)),
{
    if a.len() != b.len() {
        proof {
            assert(strs_view(a@).len() != strs_view(b@).len());
        }
        return false;
    }
    let mut i: usize = 0;
    while i < a.len()
        invariant
            i <= a.len() == b.len(),
            forall|k: int| 0 <= k < i ==> a@[k]@ == b@[k]@,
        decreases a.len() - i,
    {
        if a[i] != b[i] {
            proof {
                assert(strs_view(a@)[i as int] != strs_view(b@)[i as int]);
            }
            return false;
        }
        i = i + 1;
    }
    proof {
        assert(strs_view(a@) =~= strs_view(b@));
    }
    true
}

fn opt_strings_eq(a: &Option<Vec<String>>, b: &Option<Vec<String>>) -> (r: bool)
    ensures
        r == (opt_strs_view(*a) == opt_strs_view(*b)),
{
    match (a, b) {
        (Some(x), Some(y)) => strings_eq(x, y),
        (None, None) => true,
        _ => false,
    }
}

pub(crate) fn bytes_equal(a: &Vec<u8>, b: &Vec<u8>) -> (r: bool)
    ensures
        r == (a@ == b@),
{
    if a.len() != b.len() {
        return false;
    }
    let mut i: usize = 0;
    while i < a.len()
        invariant
            i <= a.len() == b.len(),
            forall|k: int| 0 <= k < i ==> a@[k] == b@[k],
        decreases a.len() - i,
    {
        if a[i] != b[i] {
            proof {
                assert(a@[i as int] != b@[i as int]);
            }
            return false;
        }
        i = i + 1;
    }
    proof {
        assert(a@ =~= b@);
    }
    true
}

fn i16s_eq(x: &Vec<i16>, y: &Vec<i16>) -> (r: bool)
    ensures
        r == (x@ == y@),
{
    if x.len() != y.len() {
        return false;
    }
    let mut i: usize = 0;
    while i < x.len()
        invariant
            i <= x.len() == y.len(),
            forall|k: int| 0 <= k < i ==> x@[k] == y@[k],
        decreases x.len() - i,
    {
        if x[i] != y[i] {
            proof {
                assert(x@[i as int] != y@[i as int]);
            }
            return false;
        }
        i = i + 1;
    }
    proof {
        assert(x@ =~= y@);
    }
    true
}

fn opt_i16s_eq(a: &Option<Vec<i16>>, b: &Option<Vec<i16>>) -> (r: bool)
    ensures
        r == (opt_i16s_view(*a) == opt_i16s_view(*b)),
{
    match (a, b) {
        (Some(x), Some(y)) => i16s_eq(x, y),
        (None, None) => true,
        _ => false,
    }
}

fn props_eq(a: &Vec<Property>, b: &Vec<Property>) -> (r: bool)
    ensures
        r == (props_view(a@) == props_view(b@)),
{
    if a.len() != b.len() {
        proof {
            assert(props_view(a@).len() != props_view(b@).len());
        }
        return false;
    }
    let mut i: usize = 0;
    while i < a.len()
        invariant
            i <= a.len() == b.len(),
            forall|k: int| 0 <= k < i ==> a@[k]@ == b@[k]@,
        decreases a.len() - i,
    {
        if a[i].name != b[i].name || a[i].value != b[i].value {
            proof {
                assert(props_view(a@)[i as int] != props_view(b@)[i as int]);
            }
            return false;
        }
        i = i + 1;
    }
    proof {
        assert(props_view(a@) =~= props_view(b@));
    }
    true
}

fn bprops_eq(a: &Vec<BinaryProperty>, b: &Vec<BinaryProperty>) -> (r: bool)
    ensures
        r == (bprops_view(a@) == bprops_view(b@)),
{
    if a.len() != b.len() {
        proof {
            assert(bprops_view(a@).len() != bprops_view(b@).len());
        }
        return false;
    }
    let mut i: usize = 0;
    while i < a.len()
        invariant
            i <= a.len() == b.len(),
            forall|k: int| 0 <= k < i ==> a@[k]@ == b@[k]@,
        decreases a.len() - i,
    {
        if a[i].name != b[i].name || !bytes_equal(&a[i].value, &b[i].value) {
            proof {
                assert(bprops_view(a@)[i as int] != bprops_view(b@)[i as int]);
            }
            return false;
        }
        i = i + 1;
    }
    proof {
        assert(bprops_view(a@) =~= bprops_view(b@));
    }
    true
}


impl Qos {
    /// Whether the two records hold the same policies.
    pub fn equals(&self, other: &Qos) -> (r: bool)
        ensures
            r == (self@ == other@),
    {
        let r = opt_string_eq(&self.userdata, &other.userdata)
            && opt_string_eq(&self.topicdata, &other.topicdata)
            && opt_string_eq(&self.groupdata, &other.groupdata)
            && self.durability == other.durability
            && self.history == other.history
            && self.resource_limits == other.resource_limits
            && self.presentation == other.presentation
            && self.lifespan == other.lifespan
            && self.deadline == other.deadline
            && self.latency_budget == other.latency_budget
            && self.ownership == other.ownership
            && self.ownership_strength == other.ownership_strength
            && self.liveliness == other.liveliness
            && self.time_based_filter == other.time_based_filter
            && opt_strings_eq(&self.partition, &other.partition)
            && self.reliability == other.reliability
            && self.transport_priority == other.transport_priority
            && self.destination_order == other.destination_order
            && self.writer_data_lifecycle == other.writer_data_lifecycle
            && self.reader_data_lifecycle == other.reader_data_lifecycle
            && self.writer_batching == other.writer_batching
            && self.durability_service == other.durability_service
            && self.ignore_local == other.ignore_local
            && props_eq(&self.props, &other.props)
            && bprops_eq(&self.bprops, &other.bprops)
            && self.type_consistency == other.type_consistency
            && opt_i16s_eq(&self.data_representation, &other.data_representation)
            && opt_string_eq(&self.entity_name, &other.entity_name)
            && opt_strings_eq(&self.psmx_instances, &other.psmx_instances);
        r
    }
}

impl Qos {
    /// Sets the durability policy.
    pub fn qset_durability(&mut self, kind: DurabilityKind)
        ensures
            final(self)@ == (QosView { durability: Some(kind), ..old(self)@ }),
    {
        self.durability = Some(kind);
    }

    /// Sets the history policy.
    pub fn qset_history(&mut self, kind: HistoryKind, depth: i32)
        ensures
            final(self)@ == (QosView { history: Some(History { kind, depth }), ..old(self)@ }),
    {
        self.history = Some(History { kind, depth });
    }

    /// Sets the resource limits policy.
    pub fn qset_resource_limits(&mut self, max_samples: i32, max_instances: i32, max_samples_per_instance: i32)
        ensures
            final(self)@ == (QosView { resource_limits: Some(ResourceLimits { max_samples, max_instances, max_samples_per_instance }), ..old(self)@ }),
    {
        self.resource_limits = Some(ResourceLimits { max_samples, max_instances, max_samples_per_instance });
    }

    /// Sets the presentation policy.
    pub fn qset_presentation(&mut self, access_scope: AccessScopeKind, coherent_access: bool, ordered_access: bool)
        ensures
            final(self)@ == (QosView { presentation: Some(Presentation { access_scope, coherent_access, ordered_access }), ..old(self)@ }),
    {
        self.presentation = Some(Presentation { access_scope, coherent_access, ordered_access });
    }

    /// Sets the lifespan policy.
    pub fn qset_lifespan(&mut self, duration: DurationNanos)
        ensures
            final(self)@ == (QosView { lifespan: Some(duration), ..old(self)@ }),
    {
        self.lifespan = Some(duration);
    }

    /// Sets the deadline policy.
    pub fn qset_deadline(&mut self, duration: DurationNanos)
        ensures
            final(self)@ == (QosView { deadline: Some(duration), ..old(self)@ }),
    {
        self.deadline = Some(duration);
    }

    /// Sets the latency budget policy.
    pub fn dds_qset_latency_budget(&mut self, duration: DurationNanos)
        ensures
            final(self)@ == (QosView { latency_budget: Some(duration), ..old(self)@ }),
    {
        self.latency_budget = Some(duration);
    }

    /// Sets the ownership policy.
    pub fn qset_ownership(&mut self, kind: OwnershipKind)
        ensures
            final(self)@ == (QosView { ownership: Some(kind), ..old(self)@ }),
    {
        self.ownership = Some(kind);
    }

    /// Sets the ownership strength policy.
    pub fn qset_ownership_strength(&mut self, value: i32)
        ensures
            final(self)@ == (QosView { ownership_strength: Some(value), ..old(self)@ }),
    {
        self.ownership_strength = Some(value);
    }

    /// Sets the liveliness policy.
    pub fn set_liveliness(&mut self, kind: LivelinessKind, lease_duration: DurationNanos)
        ensures
            final(self)@ == (QosView { liveliness: Some(Liveliness { kind, lease_duration }), ..old(self)@ }),
    {
        self.liveliness = Some(Liveliness { kind, lease_duration });
    }

    /// Sets the time based filter policy.
    pub fn set_time_based_filter(&mut self, minimum_separation: DurationNanos)
        ensures
            final(self)@ == (QosView { time_based_filter: Some(minimum_separation), ..old(self)@ }),
    {
        self.time_based_filter = Some(minimum_separation);
    }

    /// Sets the reliability policy.
    pub fn set_reliability(&mut self, kind: ReliabilityKind, max_blocking_time: DurationNanos)
        ensures
            final(self)@ == (QosView { reliability: Some(Reliability { kind, max_blocking_time }), ..old(self)@ }),
    {
        self.reliability = Some(Reliability { kind, max_blocking_time });
    }

    /// Sets the transport priority policy.
    pub fn set_transport_priority(&mut self, value: i32)
        ensures
            final(self)@ == (QosView { transport_priority: Some(value), ..old(self)@ }),
    {
        self.transport_priority = Some(value);
    }

    /// Sets the destination order policy.
    pub fn set_destination_order(&mut self, kind: DestinationOrderKind)
        ensures
            final(self)@ == (QosView { destination_order: Some(kind), ..old(self)@ }),
    {
        self.destination_order = Some(kind);
    }

    /// Sets the writer data lifecycle policy.
    pub fn set_writer_data_lifecycle(&mut self, autodispose: bool)
        ensures
            final(self)@ == (QosView { writer_data_lifecycle: Some(autodispose), ..old(self)@ }),
    {
        self.writer_data_lifecycle = Some(autodispose);
    }

    /// Sets the reader data lifecycle policy.
    pub fn set_reader_data_lifecycle(&mut self, autopurge_nowriter_samples_delay: DurationNanos, autopurge_disposed_samples_delay: DurationNanos)
        ensures
            final(self)@ == (QosView { reader_data_lifecycle: Some(ReaderDataLifecycle { autopurge_nowriter_samples_delay, autopurge_disposed_samples_delay }), ..old(self)@ }),
    {
        self.reader_data_lifecycle = Some(ReaderDataLifecycle { autopurge_nowriter_samples_delay, autopurge_disposed_samples_delay });
    }

    /// Sets the writer batching policy.
    pub fn set_writer_batching(&mut self, batch_updates: bool)
        ensures
            final(self)@ == (QosView { writer_batching: Some(batch_updates), ..old(self)@ }),
    {
        self.writer_batching = Some(batch_updates);
    }

    /// Sets the durability service policy.
    pub fn set_durability_service(&mut self, service_cleanup_delay: DurationNanos, history_kind: HistoryKind, history_depth: i32, max_samples: i32, max_instances: i32, max_samples_per_instance: i32)
        ensures
            final(self)@ == (QosView { durability_service: Some(DurabilityService { service_cleanup_delay, history_kind, history_depth, max_samples, max_instances, max_samples_per_instance }), ..old(self)@ }),
    {
        self.durability_service = Some(DurabilityService { service_cleanup_delay, history_kind, history_depth, max_samples, max_instances, max_samples_per_instance });
    }

    /// Sets the ignore local policy.
    pub fn set_ignorelocal(&mut self, ignore: IgnorelocalKind)
        ensures
            final(self)@ == (QosView { ignore_local: Some(ignore), ..old(self)@ }),
    {
        self.ignore_local = Some(ignore);
    }

    /// Sets the type consistency policy.
    pub fn set_type_consistency(&mut self, kind: TypeConsistencyKind, ignore_sequence_bounds: bool, ignore_string_bounds: bool, ignore_member_names: bool, prevent_type_widening: bool, force_type_validation: bool)
        ensures
            final(self)@ == (QosView { type_consistency: Some(TypeConsistency { kind, ignore_sequence_bounds, ignore_string_bounds, ignore_member_names, prevent_type_widening, force_type_validation }), ..old(self)@ }),
    {
        self.type_consistency = Some(TypeConsistency { kind, ignore_sequence_bounds, ignore_string_bounds, ignore_member_names, prevent_type_widening, force_type_validation });
    }

    /// Sets the userdata policy.
    pub fn qset_userdata(&mut self, value: &str)
        ensures
            final(self)@ == (QosView { userdata: Some(value@), ..old(self)@ }),
    {
        self.userdata = Some(str_to_string(value));
    }

    /// Sets the topicdata policy.
    pub fn qset_topicdata(&mut self, value: &str)
        ensures
            final(self)@ == (QosView { topicdata: Some(value@), ..old(self)@ }),
    {
        self.topicdata = Some(str_to_string(value));
    }

    /// Sets the groupdata policy.
    pub fn qset_groupdata(&mut self, value: &str)
        ensures
            final(self)@ == (QosView { groupdata: Some(value@), ..old(self)@ }),
    {
        self.groupdata = Some(str_to_string(value));
    }

    /// Sets the entity name policy.
    pub fn set_entity_name(&mut self, name: &str)
        ensures
            final(self)@ == (QosView { entity_name: Some(name@), ..old(self)@ }),
    {
        self.entity_name = Some(str_to_string(name));
    }

    /// Sets the partition policy to the given names, in order.
    pub fn set_partition(&mut self, ps: &[&str])
        ensures
            final(self)@ == (QosView {
                partition: Some(ps@.map_values(|s: &str| s@)),
                ..old(self)@
            }),
    {
        let v = strs_from_slice(ps, ps.len());
        proof {
            assert(ps@.take(ps@.len() as int) =~= ps@);
        }
        self.partition = Some(v);
    }

    /// Sets the partition policy to the single name `name`.
    pub fn set_partition1(&mut self, name: &str)
        ensures
            final(self)@ == (QosView { partition: Some(seq![name@]), ..old(self)@ }),
    {
        let mut v: Vec<String> = Vec::new();
        v.push(str_to_string(name));
        proof {
            assert(strs_view(v@) =~= seq![name@]);
        }
        self.partition = Some(v);
    }

    /// Sets the PSMX instances policy to the first `instances` names of
    /// `values`.
    pub fn set_psmx_instances(&mut self, instances: usize, values: &[&str])
        requires
            instances <= values@.len(),
        ensures
            final(self)@ == (QosView {
                psmx_instances: Some(values@.take(instances as int).map_values(|s: &str| s@)),
                ..old(self)@
            }),
    {
        self.psmx_instances = Some(strs_from_slice(values, instances));
    }

    /// Sets the data representation policy.
    pub fn set_data_representation(&mut self, values: &[i16])
        ensures
            final(self)@ == (QosView { data_representation: Some(values@), ..old(self)@ }),
    {
        let mut v: Vec<i16> = Vec::new();
        let mut i: usize = 0;
        while i < values.len()
            invariant
                i <= values@.len(),
                v@ == values@.take(i as int),
            decreases values@.len() - i,
        {
            v.push(values[i]);
            proof {
                assert(values@.take(i + 1) =~= values@.take(i as int).push(values@[i as int]));
            }
            i = i + 1;
        }
        proof {
            assert(values@.take(values@.len() as int) =~= values@);
        }
        self.data_representation = Some(v);
    }

    /// Stores the string property `name`: the first property of that name
    /// gets the value, or a new one is added at the end.
    pub fn set_prop(&mut self, name: &str, value: &str)
        ensures
            final(self)@ == (QosView { props: upsert(old(self)@.props, name@, value@), ..old(self)@ }),
    {
        let n = str_to_string(name);
        let v = str_to_string(value);
        let ghost before = self.props@;
        match find_prop(&self.props, &n) {
            Some(i) => {
                self.props.set(i, Property { name: n, value: v });
                proof {
                    assert(props_view(self.props@) =~= props_view(before).update(i as int, (name@, value@)));
                }
            },
            None => {
                self.props.push(Property { name: n, value: v });
                proof {
                    assert(props_view(self.props@) =~= props_view(before).push((name@, value@)));
                }
            },
        }
    }

    /// Removes the first string property named `name`, if any.
    pub fn unset_prop(&mut self, name: &str)
        ensures
            final(self)@ == (QosView { props: unset(old(self)@.props, name@), ..old(self)@ }),
    {
        let n = str_to_string(name);
        let ghost before = self.props@;
        match find_prop(&self.props, &n) {
            Some(i) => {
                self.props.remove(i);
                proof {
                    assert(props_view(self.props@) =~= props_view(before).remove(i as int));
                }
            },
            None => {},
        }
    }

    /// Stores the binary property `name`: the first property of that name
    /// gets the value, or a new one is added at the end.
    pub fn set_bprop(&mut self, name: &str, value: &[u8])
        ensures
            final(self)@ == (QosView { bprops: upsert(old(self)@.bprops, name@, value@), ..old(self)@ }),
    {
        let n = str_to_string(name);
        let v = copy_bytes(value);
        let ghost before = self.bprops@;
        match find_bprop(&self.bprops, &n) {
            Some(i) => {
                self.bprops.set(i, BinaryProperty { name: n, value: v });
                proof {
                    assert(bprops_view(self.bprops@) =~= bprops_view(before).update(i as int, (name@, value@)));
                }
            },
            None => {
                self.bprops.push(BinaryProperty { name: n, value: v });
                proof {
                    assert(bprops_view(self.bprops@) =~= bprops_view(before).push((name@, value@)));
                }
            },
        }
    }

    /// Removes the first binary property named `name`, if any.
    pub fn unset_bprop(&mut self, name: &str)
        ensures
            final(self)@ == (QosView { bprops: unset(old(self)@.bprops, name@), ..old(self)@ }),
    {
        let n = str_to_string(name);
        let ghost before = self.bprops@;
        match find_bprop(&self.bprops, &n) {
            Some(i) => {
                self.bprops.remove(i);
                proof {
                    assert(bprops_view(self.bprops@) =~= bprops_view(before).remove(i as int));
                }
            },
            None => {},
        }
    }
}

impl Qos {
    /// The durability policy: the value last set, else its default.
    pub fn durability(&self) -> (r: Result<DurabilityKind, &'static str>)
        ensures
            r == Ok::<_, &'static str>(or_default(self@.durability, DurabilityKind::Volatile)),
    {
        match self.durability {
            Some(v) => Ok(v),
            None => Ok(DurabilityKind::Volatile),
        }
    }

    /// The history policy: the value last set, else its default.
    pub fn history(&self) -> (r: Result<History, &'static str>)
        ensures
            r == Ok::<_, &'static str>(or_default(self@.history, default_history())),
    {
        match self.history {
            Some(v) => Ok(v),
            None => Ok(History { kind: HistoryKind::KeepLast, depth: 1 }),
        }
    }

    /// The resource limits policy: the value last set, else its default.
    pub fn resource_limits(&self) -> (r: Result<ResourceLimits, &'static str>)
        ensures
            r == Ok::<_, &'static str>(or_default(self@.resource_limits, default_resource_limits())),
    {
        match self.resource_limits {
            Some(v) => Ok(v),
            None => Ok(ResourceLimits { max_samples: -1i32, max_instances: -1i32, max_samples_per_instance: -1i32 }),
        }
    }

    /// The presentation policy: the value last set, else its default.
    pub fn presentation(&self) -> (r: Result<Presentation, &'static str>)
        ensures
            r == Ok::<_, &'static str>(or_default(self@.presentation, default_presentation())),
    {
        match self.presentation {
            Some(v) => Ok(v),
            None => Ok(Presentation { access_scope: AccessScopeKind::INSTANCE, coherent_access: false, ordered_access: false }),
        }
    }

    /// The lifespan policy: the value last set, else its default.
    pub fn lifespan(&self) -> (r: Result<DurationNanos, &'static str>)
        ensures
            r == Ok::<_, &'static str>(or_default(self@.lifespan, DURATION_INFINITE)),
    {
        match self.lifespan {
            Some(v) => Ok(v),
            None => Ok(DURATION_INFINITE),
        }
    }

    /// The deadline policy: the value last set, else its default.
    pub fn deadline(&self) -> (r: Result<DurationNanos, &'static str>)
        ensures
            r == Ok::<_, &'static str>(or_default(self@.deadline, DURATION_INFINITE)),
    {
        match self.deadline {
            Some(v) => Ok(v),
            None => Ok(DURATION_INFINITE),
        }
    }

    /// The latency budget policy: the value last set, else its default.
    pub fn latency_budget(&self) -> (r: Result<DurationNanos, &'static str>)
        ensures
            r == Ok::<_, &'static str>(or_default(self@.latency_budget, 0)),
    {
        match self.latency_budget {
            Some(v) => Ok(v),
            None => Ok(0),
        }
    }

    /// The ownership policy: the value last set, else its default.
    pub fn ownership(&self) -> (r: Result<OwnershipKind, &'static str>)
        ensures
            r == Ok::<_, &'static str>(or_default(self@.ownership, OwnershipKind::Shared)),
    {
        match self.ownership {
            Some(v) => Ok(v),
            None => Ok(OwnershipKind::Shared),
        }
    }

    /// The ownership strength policy: the value last set, else its default.
    pub fn ownership_strength(&self) -> (r: Result<i32, &'static str>)
        ensures
            r == Ok::<_, &'static str>(or_default(self@.ownership_strength, 0)),
    {
        match self.ownership_strength {
            Some(v) => Ok(v),
            None => Ok(0),
        }
    }

    /// The liveliness policy: the value last set, else its default.
    pub fn liveliness(&self) -> (r: Result<Liveliness, &'static str>)
        ensures
            r == Ok::<_, &'static str>(or_default(self@.liveliness, default_liveliness())),
    {
        match self.liveliness {
            Some(v) => Ok(v),
            None => Ok(Liveliness { kind: LivelinessKind::Automatic, lease_duration: DURATION_INFINITE }),
        }
    }

    /// The time based filter policy: the value last set, else its default.
    pub fn time_based_filter(&self) -> (r: Result<DurationNanos, &'static str>)
        ensures
            r == Ok::<_, &'static str>(or_default(self@.time_based_filter, 0)),
    {
        match self.time_based_filter {
            Some(v) => Ok(v),
            None => Ok(0),
        }
    }

    /// The reliability policy: the value last set, else its default.
    pub fn reliability(&self) -> (r: Result<Reliability, &'static str>)
        ensures
            r == Ok::<_, &'static str>(or_default(self@.reliability, default_reliability())),
    {
        match self.reliability {
            Some(v) => Ok(v),
            None => Ok(Reliability { kind: ReliabilityKind::BestEffort, max_blocking_time: DEFAULT_MAX_BLOCKING_TIME }),
        }
    }

    /// The destination order policy: the value last set, else its default.
    pub fn destination_order(&self) -> (r: Result<DestinationOrderKind, &'static str>)
        ensures
            r == Ok::<_, &'static str>(or_default(self@.destination_order, DestinationOrderKind::ByReceptionTimestamp)),
    {
        match self.destination_order {
            Some(v) => Ok(v),
            None => Ok(DestinationOrderKind::ByReceptionTimestamp),
        }
    }

    /// The writer data lifecycle policy: the value last set, else its default.
    pub fn writer_data_lifecycle(&self) -> (r: Result<bool, &'static str>)
        ensures
            r == Ok::<_, &'static str>(or_default(self@.writer_data_lifecycle, true)),
    {
        match self.writer_data_lifecycle {
            Some(v) => Ok(v),
            None => Ok(true),
        }
    }

    /// The reader data lifecycle policy: the value last set, else its default.
    pub fn reader_data_lifecycle(&self) -> (r: ReaderDataLifecycle)
        ensures
            r == or_default(self@.reader_data_lifecycle, default_reader_data_lifecycle()),
    {
        match self.reader_data_lifecycle {
            Some(v) => v,
            None => ReaderDataLifecycle { autopurge_nowriter_samples_delay: DURATION_INFINITE, autopurge_disposed_samples_delay: DURATION_INFINITE },
        }
    }

    /// The writer batching policy: the value last set, else its default.
    pub fn writer_batching(&self) -> (r: bool)
        ensures
            r == or_default(self@.writer_batching, false),
    {
        match self.writer_batching {
            Some(v) => v,
            None => false,
        }
    }

    /// The durability service policy: the value last set, else its default.
    pub fn durability_service(&self) -> (r: DurabilityService)
        ensures
            r == or_default(self@.durability_service, default_durability_service()),
    {
        match self.durability_service {
            Some(v) => v,
            None => DurabilityService { service_cleanup_delay: 0, history_kind: HistoryKind::KeepLast, history_depth: 1, max_samples: -1i32, max_instances: -1i32, max_samples_per_instance: -1i32 },
        }
    }

    /// The ignore local policy: the value last set, else its default.
    pub fn ignore_local(&self) -> (r: IgnorelocalKind)
        ensures
            r == or_default(self@.ignore_local, IgnorelocalKind::NoneIgnored),
    {
        match self.ignore_local {
            Some(v) => v,
            None => IgnorelocalKind::NoneIgnored,
        }
    }

    /// The type consistency policy: the value last set, else its default.
    pub fn type_consistency(&self) -> (r: TypeConsistency)
        ensures
            r == or_default(self@.type_consistency, default_type_consistency()),
    {
        match self.type_consistency {
            Some(v) => v,
            None => TypeConsistency { kind: TypeConsistencyKind::AllowTypeCoercion, ignore_sequence_bounds: true, ignore_string_bounds: true, ignore_member_names: false, prevent_type_widening: false, force_type_validation: false },
        }
    }

    /// The transport priority policy: the value last set, else 0.
    pub fn transport_priority(&self) -> (r: Result<TransportPriority, &'static str>)
        ensures
            r == Ok::<_, &'static str>(TransportPriority(or_default(self@.transport_priority, 0))),
    {
        match self.transport_priority {
            Some(v) => Ok(TransportPriority(v)),
            None => Ok(TransportPriority(0)),
        }
    }

    /// The userdata policy: the value last set, else empty.
    pub fn userdata(&self) -> (r: Result<String, &'static str>)
        ensures
            r matches Ok(v) && v@ == or_default(self@.userdata, Seq::<char>::empty()),
    {
        match &self.userdata {
            Some(v) => Ok(v.clone()),
            None => Ok(String::new()),
        }
    }

    /// The topicdata policy: the value last set, else empty.
    pub fn topic_data(&self) -> (r: Result<String, &'static str>)
        ensures
            r matches Ok(v) && v@ == or_default(self@.topicdata, Seq::<char>::empty()),
    {
        match &self.topicdata {
            Some(v) => Ok(v.clone()),
            None => Ok(String::new()),
        }
    }

    /// The groupdata policy: the value last set, else empty.
    pub fn group_data(&self) -> (r: Result<String, &'static str>)
        ensures
            r matches Ok(v) && v@ == or_default(self@.groupdata, Seq::<char>::empty()),
    {
        match &self.groupdata {
            Some(v) => Ok(v.clone()),
            None => Ok(String::new()),
        }
    }

    /// The userdata policy, as `userdata` gives it.
    pub fn get_userdata(&mut self) -> (r: Result<String, &'static str>)
        ensures
            *final(self) == *old(self),
            r matches Ok(v) && v@ == or_default(old(self)@.userdata, Seq::<char>::empty()),
    {
        self.userdata()
    }

    /// The entity name policy: the value last set, else empty.
    pub fn entity_name(&self) -> (r: String)
        ensures
            r@ == or_default(self@.entity_name, Seq::<char>::empty()),
    {
        match &self.entity_name {
            Some(v) => v.clone(),
            None => String::new(),
        }
    }

    /// The partition names: those last set, else none.
    pub fn partition(&self) -> (r: Result<Vec<String>, &'static str>)
        ensures
            r matches Ok(v) && strs_view(v@) == or_default(self@.partition, Seq::empty()),
    {
        match &self.partition {
            Some(v) => Ok(clone_strings(v)),
            None => {
                let v: Vec<String> = Vec::new();
                proof {
                    assert(strs_view(v@) =~= Seq::empty());
                }
                Ok(v)
            },
        }
    }

    /// The PSMX instance names: those last set, else none.
    pub fn psmx_instances(&self) -> (r: Vec<String>)
        ensures
            strs_view(r@) == or_default(self@.psmx_instances, Seq::empty()),
    {
        match &self.psmx_instances {
            Some(v) => clone_strings(v),
            None => {
                let v: Vec<String> = Vec::new();
                proof {
                    assert(strs_view(v@) =~= Seq::empty());
                }
                v
            },
        }
    }

    /// The data representations: those last set, else none.
    pub fn data_representation(&self) -> (r: Vec<i16>)
        ensures
            r@ == or_default(self@.data_representation, Seq::empty()),
    {
        match &self.data_representation {
            Some(v) => {
                let c = v.clone();
                proof {
                    assert(c@ =~= v@);
                }
                c
            },
            None => Vec::new(),
        }
    }

    /// The names of the string properties, in order.
    pub fn property_names(&self) -> (r: Vec<String>)
        ensures
            strs_view(r@) == names_of(self@.props),
    {
        let mut r: Vec<String> = Vec::new();
        let mut i: usize = 0;
        while i < self.props.len()
            invariant
                i <= self.props@.len(),
                strs_view(r@) == names_of(props_view(self.props@).take(i as int)),
            decreases self.props@.len() - i,
        {
            let ghost before = r@;
            r.push(self.props[i].name.clone());
            proof {
                assert(strs_view(r@) =~= names_of(props_view(self.props@).take(i + 1))) by {
                    assert(strs_view(before).len() == i);
                    assert forall|k: int| 0 <= k < i implies #[trigger] strs_view(r@)[k] == strs_view(before)[k] by {
                        assert(r@[k] == before[k]);
                    }
                }
            }
            i = i + 1;
        }
        proof {
            assert(props_view(self.props@).take(i as int) =~= props_view(self.props@));
        }
        r
    }

    /// The names of the binary properties, in order.
    pub fn binary_property_names(&self) -> (r: Vec<String>)
        ensures
            strs_view(r@) == names_of(self@.bprops),
    {
        let mut r: Vec<String> = Vec::new();
        let mut i: usize = 0;
        while i < self.bprops.len()
            invariant
                i <= self.bprops@.len(),
                strs_view(r@) == names_of(bprops_view(self.bprops@).take(i as int)),
            decreases self.bprops@.len() - i,
        {
            let ghost before = r@;
            r.push(self.bprops[i].name.clone());
            proof {
                assert(strs_view(r@) =~= names_of(bprops_view(self.bprops@).take(i + 1))) by {
                    assert(strs_view(before).len() == i);
                    assert forall|k: int| 0 <= k < i implies #[trigger] strs_view(r@)[k] == strs_view(before)[k] by {
                        assert(r@[k] == before[k]);
                    }
                }
            }
            i = i + 1;
        }
        proof {
            assert(bprops_view(self.bprops@).take(i as int) =~= bprops_view(self.bprops@));
        }
        r
    }

    /// The first string property named `name`, if any.
    pub fn prop(&self, name: &str) -> (r: Option<Property>)
        ensures
            first_named(self@.props, name@) >= 0 ==> (r matches Some(p) && p@ == self@.props[first_named(self@.props, name@)]),
            first_named(self@.props, name@) < 0 ==> r is None,
    {
        let n = str_to_string(name);
        match find_prop(&self.props, &n) {
            Some(i) => Some(self.props[i].copy()),
            None => None,
        }
    }

    /// The value of the first binary property named `name`, if any.
    pub fn binary_property(&self, name: &str) -> (r: Option<Vec<u8>>)
        ensures
            first_named(self@.bprops, name@) >= 0 ==> (r matches Some(v) && v@ == self@.bprops[first_named(self@.bprops, name@)].1),
            first_named(self@.bprops, name@) < 0 ==> r is None,
    {
        let n = str_to_string(name);
        match find_bprop(&self.bprops, &n) {
            Some(i) => Some(self.bprops[i].copy().value),
            None => None,
        }
    }

    /// A copy holding the same policies.
    pub fn copy(&self) -> (r: Qos)
        ensures
            r@ == self@,
    {
        Qos {
            userdata: clone_opt_string(&self.userdata),
            topicdata: clone_opt_string(&self.topicdata),
            groupdata: clone_opt_string(&self.groupdata),
            durability: self.durability,
            history: self.history,
            resource_limits: self.resource_limits,
            presentation: self.presentation,
            lifespan: self.lifespan,
            deadline: self.deadline,
            latency_budget: self.latency_budget,
            ownership: self.ownership,
            ownership_strength: self.ownership_strength,
            liveliness: self.liveliness,
            time_based_filter: self.time_based_filter,
            partition: clone_opt_strings(&self.partition),
            reliability: self.reliability,
            transport_priority: self.transport_priority,
            destination_order: self.destination_order,
            writer_data_lifecycle: self.writer_data_lifecycle,
            reader_data_lifecycle: self.reader_data_lifecycle,
            writer_batching: self.writer_batching,
            durability_service: self.durability_service,
            ignore_local: self.ignore_local,
            props: clone_props(&self.props),
            bprops: clone_bprops(&self.bprops),
            type_consistency: self.type_consistency,
            data_representation: clone_opt_i16s(&self.data_representation),
            entity_name: clone_opt_string(&self.entity_name),
            psmx_instances: clone_opt_strings(&self.psmx_instances),
        }
    }
}

impl Clone for Qos {
    fn clone(&self) -> (r: Qos)
        ensures
            r@ == self@,
    {
        self.copy()
    }
}

impl PartialEq for Qos {
    fn eq(&self, other: &Qos) -> (r: bool) {
        self.equals(other)
    }
}

impl vstd::std_specs::cmp::PartialEqSpecImpl for Qos {
    open spec fn obeys_eq_spec() -> bool {
        true
    }

    open spec fn eq_spec(&self, other: &Qos) -> bool {
        self@ == other@
    }
}

impl Default for Qos {
    fn default() -> (r: Qos)
        ensures
            r@ == default_qos(),
    {
        Qos::new()
    }
}


/// The policies that cannot change once a record is attached to an entity.
pub struct ImmutablePart {
    pub durability: Option<DurabilityKind>,
    pub history: Option<History>,
    pub resource_limits: Option<ResourceLimits>,
    pub presentation: Option<Presentation>,
    pub ownership: Option<OwnershipKind>,
    pub liveliness: Option<Liveliness>,
    pub reliability: Option<Reliability>,
    pub destination_order: Option<DestinationOrderKind>,
    pub durability_service: Option<DurabilityService>,
    pub ignore_local: Option<IgnorelocalKind>,
    pub type_consistency: Option<TypeConsistency>,
    pub data_representation: Option<Seq<i16>>,
    pub psmx_instances: Option<Seq<Seq<char>>>,
}

pub open spec fn immutable_part(q: QosView) -> ImmutablePart {
    ImmutablePart {
        durability: q.durability,
        history: q.history,
        resource_limits: q.resource_limits,
        presentation: q.presentation,
        ownership: q.ownership,
        liveliness: q.liveliness,
        reliability: q.reliability,
        destination_order: q.destination_order,
        durability_service: q.durability_service,
        ignore_local: q.ignore_local,
        type_consistency: q.type_consistency,
        data_representation: q.data_representation,
        psmx_instances: q.psmx_instances,
    }
}

impl Qos {
    /// Whether the two records agree on every policy that cannot change
    /// once attached.
    pub fn same_immutable(&self, other: &Qos) -> (r: bool)
        ensures
            r == (immutable_part(self@) == immutable_part(other@)),
    {
        self.durability == other.durability
            && self.history == other.history
            && self.resource_limits == other.resource_limits
            && self.presentation == other.presentation
            && self.ownership == other.ownership
            && self.liveliness == other.liveliness
            && self.reliability == other.reliability
            && self.destination_order == other.destination_order
            && self.durability_service == other.durability_service
            && self.ignore_local == other.ignore_local
            && self.type_consistency == other.type_consistency
            && opt_i16s_eq(&self.data_representation, &other.data_representation)
            && opt_strings_eq(&self.psmx_instances, &other.psmx_instances)
    }
}

} // verus!
