//! Named counters of a writer or reader.

use vstd::prelude::*;

use crate::common::{Entity, ReturnCodes};
use crate::domain::{DomainParticipant, EntityKind, ParticipantView, handle_error, kind_error, live_readers, all_readers};
use crate::subscriber::{Query, count_matching};

verus! {

/// Kind and value of a statistic.
#[derive(Debug, Clone, Copy, PartialEq, Eq, Structural)]
pub enum StatKind {
    /// value is a 32-bit unsigned integer
    UInt32(u32),
    /// value is a 64-bit unsigned integer
    UInt64(u64),
    /// value is integral(length(t) dt)
    LengthTime(u64),
}

/// One named statistic.
#[derive(Debug)]
pub struct KeyValue {
    name: String,
    kind: StatKind,
}

impl KeyValue {
    pub closed spec fn name_view(&self) -> Seq<char> {
        self.name@
    }

    pub closed spec fn kind_view(&self) -> StatKind {
        self.kind
    }

    /// The statistic's name.
    pub fn name(&self) -> (r: &str)
        ensures
            r@ == self.name_view(),
    {
        self.name.as_str()
    }

    /// The statistic's kind and value.
    pub fn kind(&self) -> (r: &StatKind)
        ensures
            *r == self.kind_view(),
    {
        &self.kind
    }
}

/// Names of the statistics.
pub const STAT_CURRENT_MATCHED: &'static str = "current_matched";
pub const STAT_TOTAL_MATCHED: &'static str = "total_matched";
pub const STAT_SAMPLES_CACHED: &'static str = "samples_cached";

/// The statistics of entity `h`: match counts for a writer, the number of
/// cached samples for a reader.
pub open spec fn stats_of(v: ParticipantView, h: int) -> Seq<(Seq<char>, StatKind)> {
    if v.entities[h].kind == EntityKind::Writer {
        seq![
            (STAT_CURRENT_MATCHED@, StatKind::UInt32(live_readers(v.entities, v.entities[h].topic) as u32)),
            (STAT_TOTAL_MATCHED@, StatKind::UInt32(all_readers(v.entities, v.entities[h].topic) as u32)),
        ]
    } else {
        seq![
            (STAT_SAMPLES_CACHED@, StatKind::UInt64(count_matching(v.samples, Query { reader: h as usize, mask: 0, instance: None }) as u64)),
        ]
    }
}

/// Whether entity `h` has statistics: only live writers and readers do.
pub open spec fn stats_error(v: ParticipantView, h: int) -> Option<ReturnCodes> {
    if handle_error(v, h) is Some {
        handle_error(v, h)
    } else if v.entities[h].kind != EntityKind::Writer && v.entities[h].kind != EntityKind::Reader {
        Some(ReturnCodes::Error)
    } else {
        None
    }
}

/// A snapshot of the statistics of one entity.
pub struct Statistics {
    entity: i32,
    kind: EntityKind,
    kv: Vec<KeyValue>,
}

/// Which variant a statistic's value has.
pub open spec fn stat_tag(k: StatKind) -> int {
    match k {
        StatKind::UInt32(_) => 0,
        StatKind::UInt64(_) => 1,
        StatKind::LengthTime(_) => 2,
    }
}

/// The names and value variants of a list of statistics.
pub open spec fn shape(vs: Seq<(Seq<char>, StatKind)>) -> Seq<(Seq<char>, int)> {
    vs.map_values(|p: (Seq<char>, StatKind)| (p.0, stat_tag(p.1)))
}

/// The names and value variants that an entity of kind `k` reports.
pub open spec fn shape_for(k: EntityKind) -> Seq<(Seq<char>, int)> {
    if k == EntityKind::Writer {
        seq![(STAT_CURRENT_MATCHED@, 0), (STAT_TOTAL_MATCHED@, 0)]
    } else {
        seq![(STAT_SAMPLES_CACHED@, 1)]
    }
}

pub proof fn lemma_stats_shape(v: ParticipantView, h: int)
    requires
        v.entities[h].kind == EntityKind::Writer || v.entities[h].kind == EntityKind::Reader,
    ensures
        shape(stats_of(v, h)) == shape_for(v.entities[h].kind),
{
    assert(shape(stats_of(v, h)) =~= shape_for(v.entities[h].kind));
}

pub open spec fn kv_views(kv: Seq<KeyValue>) -> Seq<(Seq<char>, StatKind)> {
    kv.map_values(|k: KeyValue| (k.name_view(), k.kind_view()))
}

impl Statistics {
    pub closed spec fn entity_view(&self) -> int {
        self.entity as int
    }

    pub closed spec fn values(&self) -> Seq<(Seq<char>, StatKind)> {
        kv_views(self.kv@)
    }

    pub closed spec fn kind_view(&self) -> EntityKind {
        self.kind
    }

    /// The statistics have the names and value variants of their entity's
    /// kind.
    pub open spec fn wf(&self) -> bool {
        &&& (self.kind_view() == EntityKind::Writer || self.kind_view() == EntityKind::Reader)
        &&& shape(self.values()) == shape_for(self.kind_view())
    }

    fn collect(participant: &DomainParticipant, h: i32) -> (r: Result<Vec<KeyValue>, ReturnCodes>)
        requires
            participant.wf(),
        ensures
            stats_error(participant@, h as int) matches Some(e) ==> r == Err::<Vec<KeyValue>, _>(e),
            stats_error(participant@, h as int) is None ==> (r matches Ok(kv) && kv_views(kv@) == stats_of(participant@, h as int)),
    {
        if let Some(e) = participant.check_handle(h) {
            return Err(e);
        }
        let mut kv: Vec<KeyValue> = Vec::new();
        match participant.matched_readers(h) {
            Ok((live, all)) => {
                kv.push(KeyValue { name: crate::qos::str_to_string(STAT_CURRENT_MATCHED), kind: StatKind::UInt32(live) });
                kv.push(KeyValue { name: crate::qos::str_to_string(STAT_TOTAL_MATCHED), kind: StatKind::UInt32(all) });
                proof {
                    assert(kv_views(kv@) =~= stats_of(participant@, h as int));
                }
                Ok(kv)
            },
            Err(_) => {
                if participant.check_kind(h, EntityKind::Reader).is_some() {
                    return Err(ReturnCodes::Error);
                }
                let n = participant.cached_count(h);
                kv.push(KeyValue { name: crate::qos::str_to_string(STAT_SAMPLES_CACHED), kind: StatKind::UInt64(n) });
                proof {
                    assert(kv_views(kv@) =~= stats_of(participant@, h as int));
                }
                Ok(kv)
            },
        }
    }

    /// Takes a snapshot of the statistics of `entity`.
    pub fn create(participant: &DomainParticipant, entity: &impl Entity) -> (r: Result<Statistics, ReturnCodes>)
        requires
            participant.wf(),
        ensures
            stats_error(participant@, entity.entity_id()) matches Some(e) ==> r is Err && r == Err::<Statistics, _>(e),
            stats_error(participant@, entity.entity_id()) is None ==> (r matches Ok(s) && s.wf() && s.entity_view() == entity.entity_id()
                && s.kind_view() == participant@.entities[entity.entity_id()].kind
                && s.values() == stats_of(participant@, entity.entity_id())),
    {
        let h = entity.handle();
        match Statistics::collect(participant, h) {
            Ok(kv) => {
                let kind = participant.entities_kind(h);
                proof {
                    lemma_stats_shape(participant@, h as int);
                }
                Ok(Statistics { entity: h, kind, kv })
            },
            Err(e) => Err(e),
        }
    }

    /// Brings the values up to date. The entity must still be live and of the
    /// same kind, so the names and value variants stay as they were; only the
    /// values change.
    pub fn refresh(&mut self, participant: &DomainParticipant) -> (r: Result<(), ReturnCodes>)
        requires
            participant.wf(),
            old(self).wf(),
        ensures
            final(self).wf(),
            final(self).entity_view() == old(self).entity_view(),
            final(self).kind_view() == old(self).kind_view(),
            kind_error(participant@, old(self).entity_view(), old(self).kind_view()) matches Some(e) ==> r == Err::<(), _>(e) && final(self).values() == old(self).values(),
            kind_error(participant@, old(self).entity_view(), old(self).kind_view()) is None ==> r == Ok::<(), ReturnCodes>(())
                && final(self).values() == stats_of(participant@, old(self).entity_view())
                && shape(final(self).values()) == shape(old(self).values())
                && final(self).values().len() == old(self).values().len(),
    {
        if let Some(e) = participant.check_kind(self.entity, self.kind) {
            return Err(e);
        }
        let ghost before = self.values();
        match Statistics::collect(participant, self.entity) {
            Ok(kv) => {
                proof {
                    lemma_stats_shape(participant@, self.entity as int);
                }
                self.kv = kv;
                proof {
                    assert(shape(self.values()).len() == self.values().len());
                    assert(shape(before).len() == before.len());
                }
                Ok(())
            },
            Err(e) => Err(e),
        }
    }

    /// The number of statistics.
    pub fn count(&self) -> (r: usize)
        ensures
            r == self.values().len(),
    {
        self.kv.len()
    }

    /// The first statistic named `name`.
    pub fn lookup(&self, name: &str) -> (r: Result<(String, StatKind), ReturnCodes>)
        ensures
            (exists|k: int| 0 <= k < self.values().len() && (#[trigger] self.values()[k]).0 == name@) ==> (r matches Ok(p)
                && p.0@ == name@ && exists|k: int| 0 <= k < self.values().len() && (#[trigger] self.values()[k]) == (name@, p.1)
                && forall|m: int| 0 <= m < k ==> (#[trigger] self.values()[m]).0 != name@),
            !(exists|k: int| 0 <= k < self.values().len() && (#[trigger] self.values()[k]).0 == name@) ==> r == Err::<(String, StatKind), _>(ReturnCodes::Error),
    {
        let n = crate::qos::str_to_string(name);
        let ghost vs = self.values();
        let mut i: usize = 0;
        while i < self.kv.len()
            invariant
                i <= self.kv@.len(),
                n@ == name@,
                vs == kv_views(self.kv@),
                forall|m: int| 0 <= m < i ==> (#[trigger] vs[m]).0 != name@,
            decreases self.kv@.len() - i,
        {
            proof {
                assert(vs[i as int] == (self.kv@[i as int].name_view(), self.kv@[i as int].kind_view()));
            }
            if self.kv[i].name == n {
                proof {
                    assert(self.values() == vs);
                    assert(exists|k: int| 0 <= k < vs.len() && (#[trigger] vs[k]) == (name@, self.kv@[i as int].kind_view())
                        && forall|m: int| 0 <= m < k ==> (#[trigger] vs[m]).0 != name@);
                }
                return Ok((n, self.kv[i].kind));
            }
            i = i + 1;
        }
        proof {
            assert forall|k: int| 0 <= k < vs.len() implies (#[trigger] vs[k]).0 != name@ by {}
        }
        Err(ReturnCodes::Error)
    }

    /// All statistics, in order.
    pub fn kv(&self) -> (r: Vec<KeyValue>)
        ensures
            kv_views(r@) == self.values(),
    {
        let mut r: Vec<KeyValue> = Vec::new();
        let mut i: usize = 0;
        while i < self.kv.len()
            invariant
                i <= self.kv@.len(),
                r@.len() == i,
                kv_views(r@) == kv_views(self.kv@).take(i as int),
            decreases self.kv@.len() - i,
        {
            let ghost before = r@;
            r.push(KeyValue { name: self.kv[i].name.clone(), kind: self.kv[i].kind });
            proof {
                assert forall|k: int| 0 <= k < i implies #[trigger] r@[k] == before[k] by {}
                assert forall|k: int| 0 <= k < i implies kv_views(r@)[k] == kv_views(before)[k] by {
                    assert(r@[k] == before[k]);
                }
                assert(kv_views(r@) =~= kv_views(self.kv@).take(i + 1));
            }
            i = i + 1;
        }
        proof {
            assert(kv_views(self.kv@).take(i as int) =~= kv_views(self.kv@));
        }
        r
    }
}

} // verus!
