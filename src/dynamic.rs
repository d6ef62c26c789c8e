//! Building data types at run time: a type is created with its kind and
//! name, then given its properties and members.

use vstd::prelude::*;

use crate::common::ReturnCodes;
use crate::domain::DomainParticipant;

verus! {

/// The kinds of type that can be built.
#[derive(Debug, Clone, Copy, PartialEq, Eq, Structural)]
pub enum DynamicTypeKind {
    NoType,
    Boolean,
    Byte,
    Int16,
    Int32,
    Int64,
    Uint16,
    Uint32,
    Uint64,
    Float32,
    Float64,
    Int8,
    UINT8,
    CHAR8,
    String8,
    Enumeration,
    Bitmask,
    Alias,
    Array,
    Sequence,
    MapType,
    Structure,
    Union,
    Bitset,
}

#[derive(Debug, Clone, Copy, PartialEq, Eq, Structural)]
pub enum TypeSpecKind {
    KindUpset,
    KindDefinition,
    KindPrimitive,
}

#[derive(Debug, Clone, Copy, PartialEq, Eq, Structural)]
pub enum TypeExtensibility {
    Final,
    Appendable,
    Mutable,
}

#[derive(Debug, Clone, Copy, PartialEq, Eq, Structural)]
pub enum TypeAutoid {
    Sequential,
    Hash,
}

/// A reference to a type: a primitive kind or a built type.
pub struct TypeSpec {}

/// The kind and name of a type to build.
pub struct DynamicTypeDescriptor {
    pub kind: DynamicTypeKind,
    pub name: String,
}

/// A member to add to a type.
pub struct MemberDescriptor {
    pub name: String,
    /// The member id, or `MEMBER_ID_INVALID` to have the next one assigned.
    pub id: u32,
    pub dynamic_type: TypeSpec,
    pub default_value: String,
    pub index: u32,
    pub num_labels: u32,
    pub labels: Vec<i32>,
    pub default_label: bool,
}

/// The member id that asks for an id to be assigned.
pub const MEMBER_ID_INVALID: u32 = 0x7fff_ffff;

/// The bit bound of an enumeration or bitmask that was given none.
pub const DEFAULT_BIT_BOUND: u16 = 32;

/// A member of a built type.
pub struct Member {
    pub name: String,
    pub id: u32,
    pub is_key: bool,
    pub optional: bool,
    pub external: bool,
    pub must_understand: bool,
    pub hash_name: Option<String>,
    pub dynamic_type: TypeSpec,
    pub default_value: String,
    pub index: u32,
    pub labels: Vec<i32>,
    pub default_label: bool,
}

pub struct MemberView {
    pub name: Seq<char>,
    pub id: u32,
    pub is_key: bool,
    pub optional: bool,
    pub external: bool,
    pub must_understand: bool,
    pub hash_name: Option<Seq<char>>,
    pub default_value: Seq<char>,
    pub index: u32,
    pub labels: Seq<i32>,
    pub default_label: bool,
}

impl View for Member {
    type V = MemberView;

    open spec fn view(&self) -> MemberView {
        MemberView {
            name: self.name@,
            id: self.id,
            is_key: self.is_key,
            optional: self.optional,
            external: self.external,
            must_understand: self.must_understand,
            hash_name: match self.hash_name {
                Some(s) => Some(s@),
                None => None,
            },
            default_value: self.default_value@,
            index: self.index,
            labels: self.labels@,
            default_label: self.default_label,
        }
    }
}

pub struct DynamicTypeView {
    pub kind: DynamicTypeKind,
    pub name: Seq<char>,
    pub extensibility: TypeExtensibility,
    pub bit_bound: u16,
    pub nested: bool,
    pub autoid: TypeAutoid,
    pub members: Seq<MemberView>,
    /// The outcome of the last failed operation, or `Success`.
    pub ret: ReturnCodes,
}

/// A type under construction.
pub struct DynamicType {
    kind: DynamicTypeKind,
    name: String,
    extensibility: TypeExtensibility,
    bit_bound: u16,
    nested: bool,
    autoid: TypeAutoid,
    members: Vec<Member>,
    ret: ReturnCodes,
}

pub open spec fn member_views(m: Seq<Member>) -> Seq<MemberView> {
    m.map_values(|x: Member| x@)
}

impl View for DynamicType {
    type V = DynamicTypeView;

    closed spec fn view(&self) -> DynamicTypeView {
        DynamicTypeView {
            kind: self.kind,
            name: self.name@,
            extensibility: self.extensibility,
            bit_bound: self.bit_bound,
            nested: self.nested,
            autoid: self.autoid,
            members: member_views(self.members@),
            ret: self.ret,
        }
    }
}

/// Kinds that are built from parts, as opposed to primitive kinds.
pub open spec fn is_constructed(k: DynamicTypeKind) -> bool {
    k == DynamicTypeKind::Enumeration || k == DynamicTypeKind::Bitmask || k == DynamicTypeKind::Alias
        || k == DynamicTypeKind::Array || k == DynamicTypeKind::Sequence || k == DynamicTypeKind::MapType
        || k == DynamicTypeKind::Structure || k == DynamicTypeKind::Union || k == DynamicTypeKind::Bitset
}

pub open spec fn is_aggregate(k: DynamicTypeKind) -> bool {
    k == DynamicTypeKind::Structure || k == DynamicTypeKind::Union
}

/// Kinds that hold members.
pub open spec fn holds_members(k: DynamicTypeKind) -> bool {
    is_aggregate(k) || k == DynamicTypeKind::Enumeration || k == DynamicTypeKind::Bitmask
}

/// Index of the first member with id `id`, or -1.
pub open spec fn member_index(ms: Seq<MemberView>, id: u32) -> int
    decreases ms.len(),
{
    if ms.len() == 0 {
        -1
    } else {
        let f = member_index(ms.drop_last(), id);
        if f >= 0 {
            f
        } else if ms.last().id == id {
            ms.len() - 1
        } else {
            -1
        }
    }
}

pub open spec fn has_member_named(ms: Seq<MemberView>, name: Seq<char>) -> bool {
    exists|k: int| 0 <= k < ms.len() && (#[trigger] ms[k]).name == name
}

pub open spec fn has_member_id(ms: Seq<MemberView>, id: u32) -> bool {
    exists|k: int| 0 <= k < ms.len() && (#[trigger] ms[k]).id == id
}

/// The id given to a member added without one: one past the largest id in
/// use, or 0.
pub open spec fn next_member_id(ms: Seq<MemberView>) -> int
    decreases ms.len(),
{
    if ms.len() == 0 {
        0
    } else {
        let p = next_member_id(ms.drop_last());
        if ms.last().id as int + 1 > p {
            ms.last().id as int + 1
        } else {
            p
        }
    }
}

pub proof fn lemma_member_index(ms: Seq<MemberView>, id: u32)
    ensures
        -1 <= member_index(ms, id) < ms.len(),
        member_index(ms, id) >= 0 ==> ms[member_index(ms, id)].id == id,
        member_index(ms, id) == -1 ==> !has_member_id(ms, id),
    decreases ms.len(),
{
    if ms.len() > 0 {
        let d = ms.drop_last();
        lemma_member_index(d, id);
        if member_index(ms, id) == -1 {
            assert forall|k: int| 0 <= k < ms.len() implies (#[trigger] ms[k]).id != id by {
                if k < d.len() {
                    assert(d[k] == ms[k]);
                    assert(!has_member_id(d, id));
                    if ms[k].id == id {
                        assert(d[k].id == id);
                    }
                }
            }
        }
    }
}

impl DynamicType {
    /// Starts building a type of a constructed kind for `participant`.
    pub fn create(participant: &DomainParticipant, descriptor: DynamicTypeDescriptor) -> (r: Result<DynamicType, ReturnCodes>)
        requires
            participant.wf(),
        ensures
            participant@.entities[0].deleted ==> r is Err && r == Err::<DynamicType, _>(ReturnCodes::AlreadyDeleted),
            !participant@.entities[0].deleted && !is_constructed(descriptor.kind) ==> r is Err && r == Err::<DynamicType, _>(ReturnCodes::BadParameter),
            !participant@.entities[0].deleted && is_constructed(descriptor.kind) ==> (r matches Ok(t) && t@ == DynamicTypeView {
                kind: descriptor.kind,
                name: descriptor.name@,
                extensibility: TypeExtensibility::Final,
                bit_bound: DEFAULT_BIT_BOUND,
                nested: false,
                autoid: TypeAutoid::Sequential,
                members: Seq::empty(),
                ret: ReturnCodes::Success,
            }),
    {
        proof {
            participant.lemma_wf();
        }
        if let Some(e) = participant.check_handle(0) {
            return Err(e);
        }
        let k = descriptor.kind;
        let constructed = k == DynamicTypeKind::Enumeration || k == DynamicTypeKind::Bitmask
            || k == DynamicTypeKind::Alias || k == DynamicTypeKind::Array
            || k == DynamicTypeKind::Sequence || k == DynamicTypeKind::MapType
            || k == DynamicTypeKind::Structure || k == DynamicTypeKind::Union
            || k == DynamicTypeKind::Bitset;
        if !constructed {
            return Err(ReturnCodes::BadParameter);
        }
        let t = DynamicType {
            kind: k,
            name: descriptor.name,
            extensibility: TypeExtensibility::Final,
            bit_bound: DEFAULT_BIT_BOUND,
            nested: false,
            autoid: TypeAutoid::Sequential,
            members: Vec::new(),
            ret: ReturnCodes::Success,
        };
        proof {
            assert(member_views(t.members@) =~= Seq::empty());
        }
        Ok(t)
    }

    fn is_aggregate_kind(&self) -> (r: bool)
        ensures
            r == is_aggregate(self@.kind),
    {
        self.kind == DynamicTypeKind::Structure || self.kind == DynamicTypeKind::Union
    }

    fn set_extensibility_step(&mut self, extensibility: &TypeExtensibility) -> (r: Result<(), ReturnCodes>)
        ensures
            !is_aggregate(old(self)@.kind) ==> r == Err::<(), _>(ReturnCodes::BadParameter) && final(self)@ == old(self)@,
            is_aggregate(old(self)@.kind) ==> r == Ok::<(), ReturnCodes>(()) && final(self)@ == (DynamicTypeView { extensibility: *extensibility, ..old(self)@ }),
    {
        if !self.is_aggregate_kind() {
            return Err(ReturnCodes::BadParameter);
        }
        self.extensibility = match extensibility {
            TypeExtensibility::Final => TypeExtensibility::Final,
            TypeExtensibility::Appendable => TypeExtensibility::Appendable,
            TypeExtensibility::Mutable => TypeExtensibility::Mutable,
        };
        Ok(())
    }

    fn set_bit_bound_step(&mut self, bit_bound: u16) -> (r: Result<(), ReturnCodes>)
        ensures
            ({
                let k = old(self)@.kind;
                (k == DynamicTypeKind::Enumeration && 1 <= bit_bound <= 32)
                    || (k == DynamicTypeKind::Bitmask && 1 <= bit_bound <= 64)
            }) ==> r == Ok::<(), ReturnCodes>(()) && final(self)@ == (DynamicTypeView { bit_bound, ..old(self)@ }),
            !({
                let k = old(self)@.kind;
                (k == DynamicTypeKind::Enumeration && 1 <= bit_bound <= 32)
                    || (k == DynamicTypeKind::Bitmask && 1 <= bit_bound <= 64)
            }) ==> r == Err::<(), _>(ReturnCodes::BadParameter) && final(self)@ == old(self)@,
    {
        let ok = (self.kind == DynamicTypeKind::Enumeration && 1 <= bit_bound && bit_bound <= 32)
            || (self.kind == DynamicTypeKind::Bitmask && 1 <= bit_bound && bit_bound <= 64);
        if !ok {
            return Err(ReturnCodes::BadParameter);
        }
        self.bit_bound = bit_bound;
        Ok(())
    }

    fn set_nested_step(&mut self, nested: bool) -> (r: Result<(), ReturnCodes>)
        ensures
            !is_aggregate(old(self)@.kind) ==> r == Err::<(), _>(ReturnCodes::BadParameter) && final(self)@ == old(self)@,
            is_aggregate(old(self)@.kind) ==> r == Ok::<(), ReturnCodes>(()) && final(self)@ == (DynamicTypeView { nested, ..old(self)@ }),
    {
        if !self.is_aggregate_kind() {
            return Err(ReturnCodes::BadParameter);
        }
        self.nested = nested;
        Ok(())
    }

    fn set_autoid_step(&mut self, autoid: &TypeAutoid) -> (r: Result<(), ReturnCodes>)
        ensures
            !is_aggregate(old(self)@.kind) ==> r == Err::<(), _>(ReturnCodes::BadParameter) && final(self)@ == old(self)@,
            is_aggregate(old(self)@.kind) ==> r == Ok::<(), ReturnCodes>(()) && final(self)@ == (DynamicTypeView { autoid: *autoid, ..old(self)@ }),
    {
        if !self.is_aggregate_kind() {
            return Err(ReturnCodes::BadParameter);
        }
        self.autoid = match autoid {
            TypeAutoid::Sequential => TypeAutoid::Sequential,
            TypeAutoid::Hash => TypeAutoid::Hash,
        };
        Ok(())
    }

    fn find_member(&self, id: u32) -> (r: Option<usize>)
        ensures
            match r {
                Some(i) => i as int == member_index(self@.members, id) && i < self@.members.len(),
                None => member_index(self@.members, id) == -1,
            },
    {
        let ghost ms = self@.members;
        let mut i: usize = 0;
        while i < self.members.len()
            invariant
                i <= self.members@.len(),
                ms == member_views(self.members@),
                member_index(ms.take(i as int), id) == -1,
            decreases self.members@.len() - i,
        {
            proof {
                assert(ms.take(i + 1).drop_last() =~= ms.take(i as int));
                assert(ms[i as int] == self.members@[i as int]@);
            }
            if self.members[i].id == id {
                proof {
                    assert(member_index(ms.take(i + 1), id) == i);
                    lemma_member_index_prefix(ms, id, i as int);
                }
                return Some(i);
            }
            i = i + 1;
        }
        proof {
            assert(ms.take(i as int) =~= ms);
        }
        None
    }

    fn name_taken(&self, name: &String) -> (r: bool)
        ensures
            r == has_member_named(self@.members, name@),
    {
        let ghost ms = self@.members;
        let mut i: usize = 0;
        while i < self.members.len()
            invariant
                i <= self.members@.len(),
                ms == member_views(self.members@),
                forall|k: int| 0 <= k < i ==> (#[trigger] ms[k]).name != name@,
            decreases self.members@.len() - i,
        {
            proof {
                assert(ms[i as int] == self.members@[i as int]@);
            }
            if self.members[i].name == *name {
                return true;
            }
            i = i + 1;
        }
        false
    }

    fn next_id(&self) -> (r: Option<u32>)
        ensures
            next_member_id(self@.members) <= MEMBER_ID_INVALID ==> r == Some(next_member_id(self@.members) as u32),
            next_member_id(self@.members) > MEMBER_ID_INVALID ==> r is None,
    {
        let ghost ms = self@.members;
        let mut next: u32 = 0;
        let mut i: usize = 0;
        while i < self.members.len()
            invariant
                i <= self.members@.len(),
                ms == member_views(self.members@),
                next <= MEMBER_ID_INVALID,
                next == next_member_id(ms.take(i as int)),
            decreases self.members@.len() - i,
        {
            proof {
                assert(ms.take(i + 1).drop_last() =~= ms.take(i as int));
                assert(ms[i as int] == self.members@[i as int]@);
            }
            let id = self.members[i].id;
            if id >= MEMBER_ID_INVALID {
                proof {
                    assert(next_member_id(ms.take(i + 1)) > MEMBER_ID_INVALID);
                    lemma_next_id_grows(ms, i as int + 1);
                }
                return None;
            }
            if id + 1 > next {
                next = id + 1;
            }
            i = i + 1;
        }
        proof {
            assert(ms.take(i as int) =~= ms);
        }
        Some(next)
    }

    fn add_member_step(&mut self, member_descripter: MemberDescriptor) -> (r: Result<(), ReturnCodes>)
        ensures
            ({
                let ms = old(self)@.members;
                let d = member_descripter;
                let id = if d.id == MEMBER_ID_INVALID { next_member_id(ms) } else { d.id as int };
                if !holds_members(old(self)@.kind) || d.name@.len() == 0 || has_member_named(ms, d.name@)
                    || (d.id != MEMBER_ID_INVALID && has_member_id(ms, d.id))
                    || (d.id == MEMBER_ID_INVALID && next_member_id(ms) >= MEMBER_ID_INVALID) {
                    r == Err::<(), _>(ReturnCodes::BadParameter) && final(self)@ == old(self)@
                } else {
                    r == Ok::<(), ReturnCodes>(()) && final(self)@ == (DynamicTypeView {
                        members: ms.push(MemberView {
                            name: d.name@,
                            id: id as u32,
                            is_key: false,
                            optional: false,
                            external: false,
                            must_understand: false,
                            hash_name: None,
                            default_value: d.default_value@,
                            index: d.index,
                            labels: d.labels@,
                            default_label: d.default_label,
                        }),
                        ..old(self)@
                    })
                }
            }),
    {
        let k = self.kind;
        if !(self.is_aggregate_kind() || k == DynamicTypeKind::Enumeration || k == DynamicTypeKind::Bitmask) {
            return Err(ReturnCodes::BadParameter);
        }
        if member_descripter.name.as_str().is_empty() || self.name_taken(&member_descripter.name) {
            return Err(ReturnCodes::BadParameter);
        }
        let id = if member_descripter.id == MEMBER_ID_INVALID {
            match self.next_id() {
                Some(n) => {
                    if n >= MEMBER_ID_INVALID {
                        return Err(ReturnCodes::BadParameter);
                    }
                    n
                },
                None => return Err(ReturnCodes::BadParameter),
            }
        } else {
            if let Some(_) = self.find_member(member_descripter.id) {
                proof {
                    lemma_member_index(self@.members, member_descripter.id);
                }
                return Err(ReturnCodes::BadParameter);
            }
            proof {
                lemma_member_index(self@.members, member_descripter.id);
            }
            member_descripter.id
        };
        let ghost before = self.members@;
        self.members.push(Member {
            name: member_descripter.name,
            id,
            is_key: false,
            optional: false,
            external: false,
            must_understand: false,
            hash_name: None,
            dynamic_type: member_descripter.dynamic_type,
            default_value: member_descripter.default_value,
            index: member_descripter.index,
            labels: member_descripter.labels,
            default_label: member_descripter.default_label,
        });
        proof {
            assert(member_views(self.members@) =~= member_views(before).push(self.members@.last()@));
        }
        Ok(())
    }

    fn add_bitmask_field_step(&mut self, name: &str, position: u16) -> (r: Result<(), ReturnCodes>)
        ensures
            (old(self)@.kind != DynamicTypeKind::Bitmask || position >= old(self)@.bit_bound
                || name@.len() == 0 || has_member_named(old(self)@.members, name@)
                || has_member_id(old(self)@.members, position as u32)) ==> r == Err::<(), _>(ReturnCodes::BadParameter) && final(self)@ == old(self)@,
            !(old(self)@.kind != DynamicTypeKind::Bitmask || position >= old(self)@.bit_bound
                || name@.len() == 0 || has_member_named(old(self)@.members, name@)
                || has_member_id(old(self)@.members, position as u32)) ==> r == Ok::<(), ReturnCodes>(())
                && final(self)@ == (DynamicTypeView {
                    members: old(self)@.members.push(MemberView {
                        name: name@,
                        id: position as u32,
                        is_key: false,
                        optional: false,
                        external: false,
                        must_understand: false,
                        hash_name: None,
                        default_value: Seq::empty(),
                        index: 0,
                        labels: Seq::empty(),
                        default_label: false,
                    }),
                    ..old(self)@
                }),
    {
        if self.kind != DynamicTypeKind::Bitmask || position >= self.bit_bound {
            return Err(ReturnCodes::BadParameter);
        }
        let n = crate::qos::str_to_string(name);
        if n.as_str().is_empty() || self.name_taken(&n) {
            return Err(ReturnCodes::BadParameter);
        }
        proof {
            lemma_member_index(self@.members, position as u32);
        }
        if let Some(_) = self.find_member(position as u32) {
            return Err(ReturnCodes::BadParameter);
        }
        let ghost before = self.members@;
        self.members.push(Member {
            name: n,
            id: position as u32,
            is_key: false,
            optional: false,
            external: false,
            must_understand: false,
            hash_name: None,
            dynamic_type: TypeSpec {},
            default_value: String::new(),
            index: 0,
            labels: Vec::new(),
            default_label: false,
        });
        proof {
            assert(member_views(self.members@) =~= member_views(before).push(self.members@.last()@));
        }
        Ok(())
    }

    /// Updates one flag of member `member_id`; `which` is 0 for key, 1 for
    /// optional, 2 for external, 3 for must-understand.
    fn set_member_flag(&mut self, member_id: u32, which: u8, value: bool) -> (r: Result<(), ReturnCodes>)
        requires
            which <= 3,
        ensures
            member_index(old(self)@.members, member_id) < 0 ==> r == Err::<(), _>(ReturnCodes::BadParameter) && final(self)@ == old(self)@,
            member_index(old(self)@.members, member_id) >= 0 ==> {
                let i = member_index(old(self)@.members, member_id);
                let m = old(self)@.members[i];
                &&& r == Ok::<(), ReturnCodes>(())
                &&& final(self)@ == (DynamicTypeView {
                    members: old(self)@.members.update(i, if which == 0 {
                        MemberView { is_key: value, ..m }
                    } else if which == 1 {
                        MemberView { optional: value, ..m }
                    } else if which == 2 {
                        MemberView { external: value, ..m }
                    } else {
                        MemberView { must_understand: value, ..m }
                    }),
                    ..old(self)@
                })
            },
    {
        proof {
            lemma_member_index(self@.members, member_id);
        }
        match self.find_member(member_id) {
            None => Err(ReturnCodes::BadParameter),
            Some(i) => {
                let ghost before = self.members@;
                let old_m = self.members.remove(i);
                let mut m = old_m;
                if which == 0 {
                    m.is_key = value;
                } else if which == 1 {
                    m.optional = value;
                } else if which == 2 {
                    m.external = value;
                } else {
                    m.must_understand = value;
                }
                self.members.insert(i, m);
                proof {
                    assert(self.members@ =~= before.update(i as int, self.members@[i as int]));
                    assert(member_views(self.members@) =~= member_views(before).update(i as int, self.members@[i as int]@));
                }
                Ok(())
            },
        }
    }

    fn member_set_key_step(&mut self, member_id: u32, is_key: bool) -> (r: Result<(), ReturnCodes>)
        ensures
            old(self)@.kind != DynamicTypeKind::Structure || member_index(old(self)@.members, member_id) < 0
                ==> r == Err::<(), _>(ReturnCodes::BadParameter) && final(self)@ == old(self)@,
            old(self)@.kind == DynamicTypeKind::Structure && member_index(old(self)@.members, member_id) >= 0 ==> {
                let i = member_index(old(self)@.members, member_id);
                r == Ok::<(), ReturnCodes>(()) && final(self)@ == (DynamicTypeView {
                    members: old(self)@.members.update(i, MemberView { is_key, ..old(self)@.members[i] }),
                    ..old(self)@
                })
            },
    {
        if self.kind != DynamicTypeKind::Structure {
            return Err(ReturnCodes::BadParameter);
        }
        self.set_member_flag(member_id, 0, is_key)
    }

    fn member_set_optional_step(&mut self, member_id: u32, is_optional: bool) -> (r: Result<(), ReturnCodes>)
        ensures
            old(self)@.kind != DynamicTypeKind::Structure || member_index(old(self)@.members, member_id) < 0
                ==> r == Err::<(), _>(ReturnCodes::BadParameter) && final(self)@ == old(self)@,
            old(self)@.kind == DynamicTypeKind::Structure && member_index(old(self)@.members, member_id) >= 0 ==> {
                let i = member_index(old(self)@.members, member_id);
                r == Ok::<(), ReturnCodes>(()) && final(self)@ == (DynamicTypeView {
                    members: old(self)@.members.update(i, MemberView { optional: is_optional, ..old(self)@.members[i] }),
                    ..old(self)@
                })
            },
    {
        if self.kind != DynamicTypeKind::Structure {
            return Err(ReturnCodes::BadParameter);
        }
        self.set_member_flag(member_id, 1, is_optional)
    }

    fn member_set_external_step(&mut self, member_id: u32, is_external: bool) -> (r: Result<(), ReturnCodes>)
        ensures
            !is_aggregate(old(self)@.kind) || member_index(old(self)@.members, member_id) < 0
                ==> r == Err::<(), _>(ReturnCodes::BadParameter) && final(self)@ == old(self)@,
            is_aggregate(old(self)@.kind) && member_index(old(self)@.members, member_id) >= 0 ==> {
                let i = member_index(old(self)@.members, member_id);
                r == Ok::<(), ReturnCodes>(()) && final(self)@ == (DynamicTypeView {
                    members: old(self)@.members.update(i, MemberView { external: is_external, ..old(self)@.members[i] }),
                    ..old(self)@
                })
            },
    {
        if !self.is_aggregate_kind() {
            return Err(ReturnCodes::BadParameter);
        }
        self.set_member_flag(member_id, 2, is_external)
    }

    fn member_set_must_understand_step(&mut self, member_id: u32, is_must_understand: bool) -> (r: Result<(), ReturnCodes>)
        ensures
            old(self)@.kind != DynamicTypeKind::Structure || member_index(old(self)@.members, member_id) < 0
                ==> r == Err::<(), _>(ReturnCodes::BadParameter) && final(self)@ == old(self)@,
            old(self)@.kind == DynamicTypeKind::Structure && member_index(old(self)@.members, member_id) >= 0 ==> {
                let i = member_index(old(self)@.members, member_id);
                r == Ok::<(), ReturnCodes>(()) && final(self)@ == (DynamicTypeView {
                    members: old(self)@.members.update(i, MemberView { must_understand: is_must_understand, ..old(self)@.members[i] }),
                    ..old(self)@
                })
            },
    {
        if self.kind != DynamicTypeKind::Structure {
            return Err(ReturnCodes::BadParameter);
        }
        self.set_member_flag(member_id, 3, is_must_understand)
    }

    fn member_set_hashid_step(&mut self, member_id: u32, hash_member_name: &str) -> (r: Result<(), ReturnCodes>)
        ensures
            !is_aggregate(old(self)@.kind) || member_index(old(self)@.members, member_id) < 0
                ==> r == Err::<(), _>(ReturnCodes::BadParameter) && final(self)@ == old(self)@,
            is_aggregate(old(self)@.kind) && member_index(old(self)@.members, member_id) >= 0 ==> {
                let i = member_index(old(self)@.members, member_id);
                r == Ok::<(), ReturnCodes>(()) && final(self)@ == (DynamicTypeView {
                    members: old(self)@.members.update(i, MemberView { hash_name: Some(hash_member_name@), ..old(self)@.members[i] }),
                    ..old(self)@
                })
            },
    {
        if !self.is_aggregate_kind() {
            return Err(ReturnCodes::BadParameter);
        }
        proof {
            lemma_member_index(self@.members, member_id);
        }
        match self.find_member(member_id) {
            None => Err(ReturnCodes::BadParameter),
            Some(i) => {
                let ghost before = self.members@;
                let mut m = self.members.remove(i);
                m.hash_name = Some(crate::qos::str_to_string(hash_member_name));
                self.members.insert(i, m);
                proof {
                    assert(self.members@ =~= before.update(i as int, self.members@[i as int]));
                    assert(member_views(self.members@) =~= member_views(before).update(i as int, self.members@[i as int]@));
                }
                Ok(())
            },
        }
    }
}

impl DynamicType {
    /// Sets the extensibility of a structure or union.
    /// Once an operation on the type has failed, every later one fails
    /// with the same code and changes nothing.
    pub fn set_extensibility(&mut self, extensibility: &TypeExtensibility) -> (r: Result<(), ReturnCodes>)
        ensures
            old(self)@.ret != ReturnCodes::Success ==> r == Err::<(), _>(old(self)@.ret) && final(self)@ == old(self)@,
            old(self)@.ret == ReturnCodes::Success ==> (!is_aggregate(old(self)@.kind) ==> r == Err::<(), _>(ReturnCodes::BadParameter) && final(self)@ == (DynamicTypeView { ret: ReturnCodes::BadParameter, ..old(self)@ })),
            old(self)@.ret == ReturnCodes::Success ==> (is_aggregate(old(self)@.kind) ==> r == Ok::<(), ReturnCodes>(()) && final(self)@ == (DynamicTypeView { extensibility: *extensibility, ..old(self)@ })),
    {
        if self.ret != ReturnCodes::Success {
            return Err(self.ret);
        }
        let r = self.set_extensibility_step(extensibility);
        if let Err(e) = r {
            self.ret = e;
        }
        r
    }

    /// Sets the bit bound of an enumeration (1 to 32) or a bitmask (1 to 64).
    /// Once an operation on the type has failed, every later one fails
    /// with the same code and changes nothing.
    pub fn set_bit_bound(&mut self, bit_bound: u16) -> (r: Result<(), ReturnCodes>)
        ensures
            old(self)@.ret != ReturnCodes::Success ==> r == Err::<(), _>(old(self)@.ret) && final(self)@ == old(self)@,
            old(self)@.ret == ReturnCodes::Success ==> (({
                let k = old(self)@.kind;
                (k == DynamicTypeKind::Enumeration && 1 <= bit_bound <= 32)
                    || (k == DynamicTypeKind::Bitmask && 1 <= bit_bound <= 64)
            }) ==> r == Ok::<(), ReturnCodes>(()) && final(self)@ == (DynamicTypeView { bit_bound, ..old(self)@ })),
            old(self)@.ret == ReturnCodes::Success ==> (!({
                let k = old(self)@.kind;
                (k == DynamicTypeKind::Enumeration && 1 <= bit_bound <= 32)
                    || (k == DynamicTypeKind::Bitmask && 1 <= bit_bound <= 64)
            }) ==> r == Err::<(), _>(ReturnCodes::BadParameter) && final(self)@ == (DynamicTypeView { ret: ReturnCodes::BadParameter, ..old(self)@ })),
    {
        if self.ret != ReturnCodes::Success {
            return Err(self.ret);
        }
        let r = self.set_bit_bound_step(bit_bound);
        if let Err(e) = r {
            self.ret = e;
        }
        r
    }

    /// Marks a structure or union as nested (not a topic type of its own).
    /// Once an operation on the type has failed, every later one fails
    /// with the same code and changes nothing.
    pub fn set_nested(&mut self, nested: bool) -> (r: Result<(), ReturnCodes>)
        ensures
            old(self)@.ret != ReturnCodes::Success ==> r == Err::<(), _>(old(self)@.ret) && final(self)@ == old(self)@,
            old(self)@.ret == ReturnCodes::Success ==> (!is_aggregate(old(self)@.kind) ==> r == Err::<(), _>(ReturnCodes::BadParameter) && final(self)@ == (DynamicTypeView { ret: ReturnCodes::BadParameter, ..old(self)@ })),
            old(self)@.ret == ReturnCodes::Success ==> (is_aggregate(old(self)@.kind) ==> r == Ok::<(), ReturnCodes>(()) && final(self)@ == (DynamicTypeView { nested, ..old(self)@ })),
    {
        if self.ret != ReturnCodes::Success {
            return Err(self.ret);
        }
        let r = self.set_nested_step(nested);
        if let Err(e) = r {
            self.ret = e;
        }
        r
    }

    /// Sets how a structure or union assigns member ids.
    /// Once an operation on the type has failed, every later one fails
    /// with the same code and changes nothing.
    pub fn set_autoid(&mut self, autoid: &TypeAutoid) -> (r: Result<(), ReturnCodes>)
        ensures
            old(self)@.ret != ReturnCodes::Success ==> r == Err::<(), _>(old(self)@.ret) && final(self)@ == old(self)@,
            old(self)@.ret == ReturnCodes::Success ==> (!is_aggregate(old(self)@.kind) ==> r == Err::<(), _>(ReturnCodes::BadParameter) && final(self)@ == (DynamicTypeView { ret: ReturnCodes::BadParameter, ..old(self)@ })),
            old(self)@.ret == ReturnCodes::Success ==> (is_aggregate(old(self)@.kind) ==> r == Ok::<(), ReturnCodes>(()) && final(self)@ == (DynamicTypeView { autoid: *autoid, ..old(self)@ })),
    {
        if self.ret != ReturnCodes::Success {
            return Err(self.ret);
        }
        let r = self.set_autoid_step(autoid);
        if let Err(e) = r {
            self.ret = e;
        }
        r
    }

    /// Adds a member to a structure, union, enumeration or bitmask. Its name
    /// must be new and not empty; an id given must be new, and where none is
    /// given the next one is assigned.
    /// Once an operation on the type has failed, every later one fails
    /// with the same code and changes nothing.
    pub fn add_member(&mut self, member_descripter: MemberDescriptor) -> (r: Result<(), ReturnCodes>)
        ensures
            old(self)@.ret != ReturnCodes::Success ==> r == Err::<(), _>(old(self)@.ret) && final(self)@ == old(self)@,
            old(self)@.ret == ReturnCodes::Success ==> (({
                let ms = old(self)@.members;
                let d = member_descripter;
                let id = if d.id == MEMBER_ID_INVALID { next_member_id(ms) } else { d.id as int };
                if !holds_members(old(self)@.kind) || d.name@.len() == 0 || has_member_named(ms, d.name@)
                    || (d.id != MEMBER_ID_INVALID && has_member_id(ms, d.id))
                    || (d.id == MEMBER_ID_INVALID && next_member_id(ms) >= MEMBER_ID_INVALID) {
                    r == Err::<(), _>(ReturnCodes::BadParameter) && final(self)@ == (DynamicTypeView { ret: ReturnCodes::BadParameter, ..old(self)@ })
                } else {
                    r == Ok::<(), ReturnCodes>(()) && final(self)@ == (DynamicTypeView {
                        members: ms.push(MemberView {
                            name: d.name@,
                            id: id as u32,
                            is_key: false,
                            optional: false,
                            external: false,
                            must_understand: false,
                            hash_name: None,
                            default_value: d.default_value@,
                            index: d.index,
                            labels: d.labels@,
                            default_label: d.default_label,
                        }),
                        ..old(self)@
                    })
                }
            })),
    {
        if self.ret != ReturnCodes::Success {
            return Err(self.ret);
        }
        let r = self.add_member_step(member_descripter);
        if let Err(e) = r {
            self.ret = e;
        }
        r
    }

    /// Adds a named flag at `position` to a bitmask; the position must lie
    /// below the bit bound and the name must be new.
    /// Once an operation on the type has failed, every later one fails
    /// with the same code and changes nothing.
    pub fn add_bitmask_field(&mut self, name: &str, position: u16) -> (r: Result<(), ReturnCodes>)
        ensures
            old(self)@.ret != ReturnCodes::Success ==> r == Err::<(), _>(old(self)@.ret) && final(self)@ == old(self)@,
            old(self)@.ret == ReturnCodes::Success ==> ((old(self)@.kind != DynamicTypeKind::Bitmask || position >= old(self)@.bit_bound
                || name@.len() == 0 || has_member_named(old(self)@.members, name@)
                || has_member_id(old(self)@.members, position as u32)) ==> r == Err::<(), _>(ReturnCodes::BadParameter) && final(self)@ == (DynamicTypeView { ret: ReturnCodes::BadParameter, ..old(self)@ })),
            old(self)@.ret == ReturnCodes::Success ==> (!(old(self)@.kind != DynamicTypeKind::Bitmask || position >= old(self)@.bit_bound
                || name@.len() == 0 || has_member_named(old(self)@.members, name@)
                || has_member_id(old(self)@.members, position as u32)) ==> r == Ok::<(), ReturnCodes>(())
                && final(self)@ == (DynamicTypeView {
                    members: old(self)@.members.push(MemberView {
                        name: name@,
                        id: position as u32,
                        is_key: false,
                        optional: false,
                        external: false,
                        must_understand: false,
                        hash_name: None,
                        default_value: Seq::empty(),
                        index: 0,
                        labels: Seq::empty(),
                        default_label: false,
                    }),
                    ..old(self)@
                })),
    {
        if self.ret != ReturnCodes::Success {
            return Err(self.ret);
        }
        let r = self.add_bitmask_field_step(name, position);
        if let Err(e) = r {
            self.ret = e;
        }
        r
    }

    /// Makes member `member_id` of a structure part of the key, or not.
    /// Once an operation on the type has failed, every later one fails
    /// with the same code and changes nothing.
    pub fn member_set_key(&mut self, member_id: u32, is_key: bool) -> (r: Result<(), ReturnCodes>)
        ensures
            old(self)@.ret != ReturnCodes::Success ==> r == Err::<(), _>(old(self)@.ret) && final(self)@ == old(self)@,
            old(self)@.ret == ReturnCodes::Success ==> (old(self)@.kind != DynamicTypeKind::Structure || member_index(old(self)@.members, member_id) < 0
                ==> r == Err::<(), _>(ReturnCodes::BadParameter) && final(self)@ == (DynamicTypeView { ret: ReturnCodes::BadParameter, ..old(self)@ })),
            old(self)@.ret == ReturnCodes::Success ==> (old(self)@.kind == DynamicTypeKind::Structure && member_index(old(self)@.members, member_id) >= 0 ==> {
                let i = member_index(old(self)@.members, member_id);
                r == Ok::<(), ReturnCodes>(()) && final(self)@ == (DynamicTypeView {
                    members: old(self)@.members.update(i, MemberView { is_key, ..old(self)@.members[i] }),
                    ..old(self)@
                })
            }),
    {
        if self.ret != ReturnCodes::Success {
            return Err(self.ret);
        }
        let r = self.member_set_key_step(member_id, is_key);
        if let Err(e) = r {
            self.ret = e;
        }
        r
    }

    /// Makes member `member_id` of a structure optional, or not.
    /// Once an operation on the type has failed, every later one fails
    /// with the same code and changes nothing.
    pub fn member_set_optional(&mut self, member_id: u32, is_optional: bool) -> (r: Result<(), ReturnCodes>)
        ensures
            old(self)@.ret != ReturnCodes::Success ==> r == Err::<(), _>(old(self)@.ret) && final(self)@ == old(self)@,
            old(self)@.ret == ReturnCodes::Success ==> (old(self)@.kind != DynamicTypeKind::Structure || member_index(old(self)@.members, member_id) < 0
                ==> r == Err::<(), _>(ReturnCodes::BadParameter) && final(self)@ == (DynamicTypeView { ret: ReturnCodes::BadParameter, ..old(self)@ })),
            old(self)@.ret == ReturnCodes::Success ==> (old(self)@.kind == DynamicTypeKind::Structure && member_index(old(self)@.members, member_id) >= 0 ==> {
                let i = member_index(old(self)@.members, member_id);
                r == Ok::<(), ReturnCodes>(()) && final(self)@ == (DynamicTypeView {
                    members: old(self)@.members.update(i, MemberView { optional: is_optional, ..old(self)@.members[i] }),
                    ..old(self)@
                })
            }),
    {
        if self.ret != ReturnCodes::Success {
            return Err(self.ret);
        }
        let r = self.member_set_optional_step(member_id, is_optional);
        if let Err(e) = r {
            self.ret = e;
        }
        r
    }

    /// Makes member `member_id` of a structure or union external, or not.
    /// Once an operation on the type has failed, every later one fails
    /// with the same code and changes nothing.
    pub fn member_set_external(&mut self, member_id: u32, is_external: bool) -> (r: Result<(), ReturnCodes>)
        ensures
            old(self)@.ret != ReturnCodes::Success ==> r == Err::<(), _>(old(self)@.ret) && final(self)@ == old(self)@,
            old(self)@.ret == ReturnCodes::Success ==> (!is_aggregate(old(self)@.kind) || member_index(old(self)@.members, member_id) < 0
                ==> r == Err::<(), _>(ReturnCodes::BadParameter) && final(self)@ == (DynamicTypeView { ret: ReturnCodes::BadParameter, ..old(self)@ })),
            old(self)@.ret == ReturnCodes::Success ==> (is_aggregate(old(self)@.kind) && member_index(old(self)@.members, member_id) >= 0 ==> {
                let i = member_index(old(self)@.members, member_id);
                r == Ok::<(), ReturnCodes>(()) && final(self)@ == (DynamicTypeView {
                    members: old(self)@.members.update(i, MemberView { external: is_external, ..old(self)@.members[i] }),
                    ..old(self)@
                })
            }),
    {
        if self.ret != ReturnCodes::Success {
            return Err(self.ret);
        }
        let r = self.member_set_external_step(member_id, is_external);
        if let Err(e) = r {
            self.ret = e;
        }
        r
    }

    /// Makes member `member_id` of a structure must-understand, or not.
    /// Once an operation on the type has failed, every later one fails
    /// with the same code and changes nothing.
    pub fn member_set_must_understand(&mut self, member_id: u32, is_must_understand: bool) -> (r: Result<(), ReturnCodes>)
        ensures
            old(self)@.ret != ReturnCodes::Success ==> r == Err::<(), _>(old(self)@.ret) && final(self)@ == old(self)@,
            old(self)@.ret == ReturnCodes::Success ==> (old(self)@.kind != DynamicTypeKind::Structure || member_index(old(self)@.members, member_id) < 0
                ==> r == Err::<(), _>(ReturnCodes::BadParameter) && final(self)@ == (DynamicTypeView { ret: ReturnCodes::BadParameter, ..old(self)@ })),
            old(self)@.ret == ReturnCodes::Success ==> (old(self)@.kind == DynamicTypeKind::Structure && member_index(old(self)@.members, member_id) >= 0 ==> {
                let i = member_index(old(self)@.members, member_id);
                r == Ok::<(), ReturnCodes>(()) && final(self)@ == (DynamicTypeView {
                    members: old(self)@.members.update(i, MemberView { must_understand: is_must_understand, ..old(self)@.members[i] }),
                    ..old(self)@
                })
            }),
    {
        if self.ret != ReturnCodes::Success {
            return Err(self.ret);
        }
        let r = self.member_set_must_understand_step(member_id, is_must_understand);
        if let Err(e) = r {
            self.ret = e;
        }
        r
    }

    /// Records the name from which the id of member `member_id` of a
    /// structure or union is hashed.
    /// Once an operation on the type has failed, every later one fails
    /// with the same code and changes nothing.
    pub fn member_set_hashid(&mut self, member_id: u32, hash_member_name: &str) -> (r: Result<(), ReturnCodes>)
        ensures
            old(self)@.ret != ReturnCodes::Success ==> r == Err::<(), _>(old(self)@.ret) && final(self)@ == old(self)@,
            old(self)@.ret == ReturnCodes::Success ==> (!is_aggregate(old(self)@.kind) || member_index(old(self)@.members, member_id) < 0
                ==> r == Err::<(), _>(ReturnCodes::BadParameter) && final(self)@ == (DynamicTypeView { ret: ReturnCodes::BadParameter, ..old(self)@ })),
            old(self)@.ret == ReturnCodes::Success ==> (is_aggregate(old(self)@.kind) && member_index(old(self)@.members, member_id) >= 0 ==> {
                let i = member_index(old(self)@.members, member_id);
                r == Ok::<(), ReturnCodes>(()) && final(self)@ == (DynamicTypeView {
                    members: old(self)@.members.update(i, MemberView { hash_name: Some(hash_member_name@), ..old(self)@.members[i] }),
                    ..old(self)@
                })
            }),
    {
        if self.ret != ReturnCodes::Success {
            return Err(self.ret);
        }
        let r = self.member_set_hashid_step(member_id, hash_member_name);
        if let Err(e) = r {
            self.ret = e;
        }
        r
    }
}

impl DynamicType {
    /// The outcome of the last failed operation, or `Success` while none has
    /// failed.
    pub fn ret(&self) -> (r: ReturnCodes)
        ensures
            r == self@.ret,
    {
        self.ret
    }
}

/// Once a prefix holds no member with `id`, one right after it is the first.
pub proof fn lemma_member_index_prefix(ms: Seq<MemberView>, id: u32, i: int)
    requires
        0 <= i < ms.len(),
        member_index(ms.take(i + 1), id) == i,
    ensures
        member_index(ms, id) == i,
    decreases ms.len() - i,
{
    if ms.len() > i + 1 {
        let d = ms.drop_last();
        assert(d.take(i + 1) =~= ms.take(i + 1));
        lemma_member_index_prefix(d, id, i);
    } else {
        assert(ms.take(i + 1) =~= ms);
    }
}

/// The next id never shrinks as members are added.
pub proof fn lemma_next_id_grows(ms: Seq<MemberView>, i: int)
    requires
        0 <= i <= ms.len(),
    ensures
        next_member_id(ms.take(i)) <= next_member_id(ms),
    decreases ms.len() - i,
{
    if i < ms.len() {
        let d = ms.drop_last();
        if i <= d.len() {
            assert(d.take(i) =~= ms.take(i));
            lemma_next_id_grows(d, i);
        }
    } else {
        assert(ms.take(i) =~= ms);
    }
}

} // verus!
