use vstd::prelude::*;
use crate::error::DecodeError;
use crate::wire::{le16, le32, name_at, name_fits, name_next, read_name, read_u16, read_u32};

verus! {

/// The first index that stands for a record of the type stream. The
/// indices below it stand for built-in types and are never looked up.
pub const FIRST_TYPE_INDEX: u32 = 0x1000;

pub const TAG_MODIFIER: u16 = 0x1001;
pub const TAG_POINTER: u16 = 0x1002;
pub const TAG_ARRAY: u16 = 0x1503;
pub const TAG_STRUCT: u16 = 0x1505;
pub const TAG_UNION: u16 = 0x1506;
pub const TAG_ENUM: u16 = 0x1507;
pub const TAG_FORWARD_REF: u16 = 0x1509;

/// A field of a struct or union.
#[derive(Clone, Debug, PartialEq, Eq)]
pub struct Field {
    pub name: Vec<u8>,
    pub offset_bytes: u32,
    pub type_index: u32,
}

pub struct FieldModel {
    pub name: Seq<u8>,
    pub offset_bytes: u32,
    pub type_index: u32,
}

impl View for Field {
    type V = FieldModel;

    open spec fn view(&self) -> FieldModel {
        FieldModel { name: self.name@, offset_bytes: self.offset_bytes, type_index: self.type_index }
    }
}

/// A named value of an enumeration.
#[derive(Clone, Debug, PartialEq, Eq)]
pub struct EnumMember {
    pub name: Vec<u8>,
    pub value: u32,
}

pub struct EnumMemberModel {
    pub name: Seq<u8>,
    pub value: u32,
}

impl View for EnumMember {
    type V = EnumMemberModel;

    open spec fn view(&self) -> EnumMemberModel {
        EnumMemberModel { name: self.name@, value: self.value }
    }
}

pub open spec fn fields_view(v: Seq<Field>) -> Seq<FieldModel> {
    Seq::new(v.len(), |i: int| v[i]@)
}

pub open spec fn members_view(v: Seq<EnumMember>) -> Seq<EnumMemberModel> {
    Seq::new(v.len(), |i: int| v[i]@)
}

/// One record of the type stream. Every reference to another type is an
/// index, never an owned value.
#[derive(Clone, Debug, PartialEq, Eq)]
pub enum TypeRecord {
    Struct { name: Vec<u8>, size_bytes: u32, fields: Vec<Field> },
    Union { name: Vec<u8>, size_bytes: u32, fields: Vec<Field> },
    Enum { name: Vec<u8>, underlying_type: u32, members: Vec<EnumMember> },
    Pointer { target: u32 },
    Array { element: u32, count: u32 },
    Modifier { target: u32, qualifiers: u16 },
    ForwardRef { name: Vec<u8> },
    /// A record of a kind that this decoder does not read; it keeps its
    /// place so that the indices of the records after it stay right.
    Other { tag: u16 },
}

pub enum TypeModel {
    Struct { name: Seq<u8>, size_bytes: u32, fields: Seq<FieldModel> },
    Union { name: Seq<u8>, size_bytes: u32, fields: Seq<FieldModel> },
    Enum { name: Seq<u8>, underlying_type: u32, members: Seq<EnumMemberModel> },
    Pointer { target: u32 },
    Array { element: u32, count: u32 },
    Modifier { target: u32, qualifiers: u16 },
    ForwardRef { name: Seq<u8> },
    Other { tag: u16 },
}

impl View for TypeRecord {
    type V = TypeModel;

    open spec fn view(&self) -> TypeModel {
        match *self {
            TypeRecord::Struct { name, size_bytes, fields } => TypeModel::Struct {
                name: name@,
                size_bytes,
                fields: fields_view(fields@),
            },
            TypeRecord::Union { name, size_bytes, fields } => TypeModel::Union {
                name: name@,
                size_bytes,
                fields: fields_view(fields@),
            },
            TypeRecord::Enum { name, underlying_type, members } => TypeModel::Enum {
                name: name@,
                underlying_type,
                members: members_view(members@),
            },
            TypeRecord::Pointer { target } => TypeModel::Pointer { target },
            TypeRecord::Array { element, count } => TypeModel::Array { element, count },
            TypeRecord::Modifier { target, qualifiers } => TypeModel::Modifier { target, qualifiers },
            TypeRecord::ForwardRef { name } => TypeModel::ForwardRef { name: name@ },
            TypeRecord::Other { tag } => TypeModel::Other { tag },
        }
    }
}

/// A type record with the index it was given and the outcome of the
/// layout check made while decoding it.
#[derive(Clone, Debug, PartialEq, Eq)]
pub struct TypeEntry {
    pub index: u32,
    pub record: TypeRecord,
    /// `false` marks a struct or union with a field outside its size.
    pub layout_consistent: bool,
}

pub struct TypeEntryModel {
    pub index: u32,
    pub record: TypeModel,
    pub layout_consistent: bool,
}

impl View for TypeEntry {
    type V = TypeEntryModel;

    open spec fn view(&self) -> TypeEntryModel {
        TypeEntryModel { index: self.index, record: self.record@, layout_consistent: self.layout_consistent }
    }
}

pub open spec fn entries_view(v: Seq<TypeEntry>) -> Seq<TypeEntryModel> {
    Seq::new(v.len(), |i: int| v[i]@)
}

/// The fields written from `pos` up to `end`, after `done`: each is its
/// offset, its type index and its name.
pub open spec fn fields_from(s: Seq<u8>, pos: int, end: int, done: Seq<FieldModel>) -> Result<
    Seq<FieldModel>,
    DecodeError,
>
    decreases end - pos,
{
    if pos >= end {
        Ok(done)
    } else if pos + 8 > end || !name_fits(s, pos + 8, end) {
        Err(DecodeError::TruncatedInput)
    } else {
        fields_from(
            s,
            name_next(s, pos + 8),
            end,
            done.push(
                FieldModel {
                    name: name_at(s, pos + 8),
                    offset_bytes: le32(s, pos) as u32,
                    type_index: le32(s, pos + 4) as u32,
                },
            ),
        )
    }
}

/// The enumeration members written from `pos` up to `end`, after `done`:
/// each is its value and its name.
pub open spec fn members_from(s: Seq<u8>, pos: int, end: int, done: Seq<EnumMemberModel>) -> Result<
    Seq<EnumMemberModel>,
    DecodeError,
>
    decreases end - pos,
{
    if pos >= end {
        Ok(done)
    } else if pos + 4 > end || !name_fits(s, pos + 4, end) {
        Err(DecodeError::TruncatedInput)
    } else {
        members_from(
            s,
            name_next(s, pos + 4),
            end,
            done.push(EnumMemberModel { name: name_at(s, pos + 4), value: le32(s, pos) as u32 }),
        )
    }
}

/// The record with the given tag whose body runs from `body` to `end`.
pub open spec fn record_at(s: Seq<u8>, body: int, end: int, tag: int) -> Result<TypeModel, DecodeError> {
    if tag == 0x1505 || tag == 0x1506 {
        if body + 4 > end || !name_fits(s, body + 4, end) {
            Err(DecodeError::TruncatedInput)
        } else {
            match fields_from(s, name_next(s, body + 4), end, Seq::empty()) {
                Err(e) => Err(e),
                Ok(fields) => if tag == 0x1505 {
                    Ok(TypeModel::Struct { name: name_at(s, body + 4), size_bytes: le32(s, body) as u32, fields })
                } else {
                    Ok(TypeModel::Union { name: name_at(s, body + 4), size_bytes: le32(s, body) as u32, fields })
                },
            }
        }
    } else if tag == 0x1507 {
        if body + 4 > end || !name_fits(s, body + 4, end) {
            Err(DecodeError::TruncatedInput)
        } else {
            match members_from(s, name_next(s, body + 4), end, Seq::empty()) {
                Err(e) => Err(e),
                Ok(members) => Ok(
                    TypeModel::Enum {
                        name: name_at(s, body + 4),
                        underlying_type: le32(s, body) as u32,
                        members,
                    },
                ),
            }
        }
    } else if tag == 0x1002 {
        if body + 4 > end {
            Err(DecodeError::TruncatedInput)
        } else {
            Ok(TypeModel::Pointer { target: le32(s, body) as u32 })
        }
    } else if tag == 0x1503 {
        if body + 8 > end {
            Err(DecodeError::TruncatedInput)
        } else {
            Ok(TypeModel::Array { element: le32(s, body) as u32, count: le32(s, body + 4) as u32 })
        }
    } else if tag == 0x1001 {
        if body + 6 > end {
            Err(DecodeError::TruncatedInput)
        } else {
            Ok(TypeModel::Modifier { target: le32(s, body) as u32, qualifiers: le16(s, body + 4) as u16 })
        }
    } else if tag == 0x1509 {
        if !name_fits(s, body, end) {
            Err(DecodeError::TruncatedInput)
        } else {
            Ok(TypeModel::ForwardRef { name: name_at(s, body) })
        }
    } else {
        Ok(TypeModel::Other { tag: tag as u16 })
    }
}

/// The record that a type index stands for. A built-in type has none.
pub open spec fn type_at(types: Seq<TypeEntryModel>, index: u32) -> Option<TypeModel> {
    if FIRST_TYPE_INDEX <= index && index - FIRST_TYPE_INDEX < types.len() {
        Some(types[index - FIRST_TYPE_INDEX].record)
    } else {
        None
    }
}

/// Whether `index` stands for an array of no elements among `earlier`.
pub open spec fn is_empty_array(earlier: Seq<TypeEntryModel>, index: u32) -> bool {
    match type_at(earlier, index) {
        Some(TypeModel::Array { count, .. }) => count == 0,
        _ => false,
    }
}

/// Whether every field starts inside `size` bytes. The one exception is a
/// last field that starts at `size` itself and is an array of no elements.
pub open spec fn fields_within(fields: Seq<FieldModel>, size: u32, earlier: Seq<TypeEntryModel>) -> bool {
    forall|i: int|
        0 <= i < fields.len() ==> (#[trigger] fields[i]).offset_bytes < size || (fields[i].offset_bytes
            == size && i == fields.len() - 1 && is_empty_array(earlier, fields[i].type_index))
}

/// Whether the layout that a record states holds together, `earlier`
/// being the entries decoded before it. Records that are no struct or
/// union state none.
pub open spec fn layout_consistent(rec: TypeModel, earlier: Seq<TypeEntryModel>) -> bool {
    match rec {
        TypeModel::Struct { size_bytes, fields, .. } => fields_within(fields, size_bytes, earlier),
        TypeModel::Union { size_bytes, fields, .. } => fields_within(fields, size_bytes, earlier),
        _ => true,
    }
}

/// What decoding gives from `pos` on, after `done`. The records are framed
/// as those of the symbol stream are; each gets the next index.
pub open spec fn types_from(s: Seq<u8>, pos: int, done: Seq<TypeEntryModel>) -> Result<
    Seq<TypeEntryModel>,
    DecodeError,
>
    decreases s.len() - pos,
{
    if pos >= s.len() {
        Ok(done)
    } else if pos + 4 > s.len() {
        Err(DecodeError::TruncatedInput)
    } else {
        let next = pos + 2 + le16(s, pos);
        if le16(s, pos) < 2 || next > s.len() {
            Err(DecodeError::TruncatedInput)
        } else if FIRST_TYPE_INDEX + done.len() > u32::MAX {
            Err(DecodeError::OutOfRange)
        } else {
            match record_at(s, pos + 4, next, le16(s, pos + 2)) {
                Err(e) => Err(e),
                Ok(record) => types_from(
                    s,
                    next,
                    done.push(
                        TypeEntryModel {
                            index: (FIRST_TYPE_INDEX + done.len()) as u32,
                            record,
                            layout_consistent: layout_consistent(record, done),
                        },
                    ),
                ),
            }
        }
    }
}

/// The entries of a type stream, in the order of their records.
pub open spec fn decoded_types(s: Seq<u8>) -> Result<Seq<TypeEntryModel>, DecodeError> {
    types_from(s, 0, Seq::empty())
}

/// Decodes the list of fields that runs from `start` to `end`.
pub fn decode_fields(stream: &[u8], start: usize, end: usize) -> (r: Result<Vec<Field>, DecodeError>)
    requires
        start <= end <= stream@.len(),
    ensures
        match r {
            Ok(v) => fields_from(stream@, start as int, end as int, Seq::empty()) == Ok::<
                Seq<FieldModel>,
                DecodeError,
            >(fields_view(v@)),
            Err(e) => fields_from(stream@, start as int, end as int, Seq::empty()) == Err::<
                Seq<FieldModel>,
                DecodeError,
            >(e),
        },
{
    let mut out: Vec<Field> = Vec::new();
    let mut pos: usize = start;
    assert(fields_view(out@) =~= Seq::empty());
    while pos < end
        invariant
            start <= pos <= end <= stream@.len(),
            fields_from(stream@, start as int, end as int, Seq::empty()) == fields_from(
                stream@,
                pos as int,
                end as int,
                fields_view(out@),
            ),
        decreases end - pos,
    {
        if end - pos < 8 {
            return Err(DecodeError::TruncatedInput);
        }
        match read_name(stream, pos + 8, end) {
            None => {
                return Err(DecodeError::TruncatedInput);
            },
            Some(name) => {
                let step: usize = name.len();
                let field = Field {
                    name,
                    offset_bytes: read_u32(stream, pos),
                    type_index: read_u32(stream, pos + 4),
                };
                proof {
                    assert(fields_view(out@.push(field)) =~= fields_view(out@).push(field@));
                }
                out.push(field);
                pos = pos + 9 + step;
            },
        }
    }
    Ok(out)
}

/// Decodes the list of enumeration members that runs from `start` to `end`.
pub fn decode_members(stream: &[u8], start: usize, end: usize) -> (r: Result<Vec<EnumMember>, DecodeError>)
    requires
        start <= end <= stream@.len(),
    ensures
        match r {
            Ok(v) => members_from(stream@, start as int, end as int, Seq::empty()) == Ok::<
                Seq<EnumMemberModel>,
                DecodeError,
            >(members_view(v@)),
            Err(e) => members_from(stream@, start as int, end as int, Seq::empty()) == Err::<
                Seq<EnumMemberModel>,
                DecodeError,
            >(e),
        },
{
    let mut out: Vec<EnumMember> = Vec::new();
    let mut pos: usize = start;
    assert(members_view(out@) =~= Seq::empty());
    while pos < end
        invariant
            start <= pos <= end <= stream@.len(),
            members_from(stream@, start as int, end as int, Seq::empty()) == members_from(
                stream@,
                pos as int,
                end as int,
                members_view(out@),
            ),
        decreases end - pos,
    {
        if end - pos < 4 {
            return Err(DecodeError::TruncatedInput);
        }
        match read_name(stream, pos + 4, end) {
            None => {
                return Err(DecodeError::TruncatedInput);
            },
            Some(name) => {
                let step: usize = name.len();
                let member = EnumMember { name, value: read_u32(stream, pos) };
                proof {
                    assert(members_view(out@.push(member)) =~= members_view(out@).push(member@));
                }
                out.push(member);
                pos = pos + 5 + step;
            },
        }
    }
    Ok(out)
}

/// Decodes the record with the given tag whose body runs from `body` to
/// `end`.
pub fn decode_record(stream: &[u8], body: usize, end: usize, tag: u16) -> (r: Result<TypeRecord, DecodeError>)
    requires
        body <= end <= stream@.len(),
    ensures
        match r {
            Ok(rec) => record_at(stream@, body as int, end as int, tag as int) == Ok::<TypeModel, DecodeError>(
                rec@,
            ),
            Err(e) => record_at(stream@, body as int, end as int, tag as int) == Err::<TypeModel, DecodeError>(
                e,
            ),
        },
{
    let room: usize = end - body;
    if tag == TAG_STRUCT || tag == TAG_UNION || tag == TAG_ENUM {
        if room < 4 {
            return Err(DecodeError::TruncatedInput);
        }
        let first: u32 = read_u32(stream, body);
        match read_name(stream, body + 4, end) {
            None => Err(DecodeError::TruncatedInput),
            Some(name) => {
                let rest: usize = body + 5 + name.len();
                if tag == TAG_ENUM {
                    match decode_members(stream, rest, end) {
                        Err(e) => Err(e),
                        Ok(members) => Ok(TypeRecord::Enum { name, underlying_type: first, members }),
                    }
                } else {
                    match decode_fields(stream, rest, end) {
                        Err(e) => Err(e),
                        Ok(fields) => if tag == TAG_STRUCT {
                            Ok(TypeRecord::Struct { name, size_bytes: first, fields })
                        } else {
                            Ok(TypeRecord::Union { name, size_bytes: first, fields })
                        },
                    }
                }
            },
        }
    } else if tag == TAG_POINTER {
        if room < 4 {
            return Err(DecodeError::TruncatedInput);
        }
        Ok(TypeRecord::Pointer { target: read_u32(stream, body) })
    } else if tag == TAG_ARRAY {
        if room < 8 {
            return Err(DecodeError::TruncatedInput);
        }
        Ok(TypeRecord::Array { element: read_u32(stream, body), count: read_u32(stream, body + 4) })
    } else if tag == TAG_MODIFIER {
        if room < 6 {
            return Err(DecodeError::TruncatedInput);
        }
        Ok(TypeRecord::Modifier { target: read_u32(stream, body), qualifiers: read_u16(stream, body + 4) })
    } else if tag == TAG_FORWARD_REF {
        match read_name(stream, body, end) {
            None => Err(DecodeError::TruncatedInput),
            Some(name) => Ok(TypeRecord::ForwardRef { name }),
        }
    } else {
        Ok(TypeRecord::Other { tag })
    }
}

/// Whether `index` stands for an array of no elements among `earlier`.
pub fn check_empty_array(earlier: &Vec<TypeEntry>, index: u32) -> (r: bool)
    ensures
        r == is_empty_array(entries_view(earlier@), index),
{
    if index < FIRST_TYPE_INDEX {
        return false;
    }
    let at: usize = (index - FIRST_TYPE_INDEX) as usize;
    if at >= earlier.len() {
        return false;
    }
    assert(entries_view(earlier@)[at as int] == earlier@[at as int]@);
    match &earlier[at].record {
        TypeRecord::Array { count, .. } => *count == 0,
        _ => false,
    }
}

/// Whether every field starts inside `size` bytes, but for a last field
/// that starts at `size` and is an array of no elements.
pub fn check_fields_within(fields: &Vec<Field>, size: u32, earlier: &Vec<TypeEntry>) -> (r: bool)
    ensures
        r == fields_within(fields_view(fields@), size, entries_view(earlier@)),
{
    let mut i: usize = 0;
    while i < fields.len()
        invariant
            i <= fields@.len(),
            forall|k: int|
                0 <= k < i ==> (#[trigger] fields_view(fields@)[k]).offset_bytes < size || (fields_view(
                    fields@,
                )[k].offset_bytes == size && k == fields@.len() - 1 && is_empty_array(
                    entries_view(earlier@),
                    fields_view(fields@)[k].type_index,
                )),
        decreases fields@.len() - i,
    {
        let offset: u32 = fields[i].offset_bytes;
        assert(fields_view(fields@)[i as int] == fields@[i as int]@);
        let inside: bool = offset < size || (offset == size && i == fields.len() - 1 && check_empty_array(
            earlier,
            fields[i].type_index,
        ));
        if !inside {
            return false;
        }
        i += 1;
    }
    true
}

/// The layout check made on each record as it is decoded, `earlier`
/// being the entries decoded before it.
pub fn check_layout(record: &TypeRecord, earlier: &Vec<TypeEntry>) -> (r: bool)
    ensures
        r == layout_consistent(record@, entries_view(earlier@)),
{
    match record {
        TypeRecord::Struct { size_bytes, fields, .. } => check_fields_within(fields, *size_bytes, earlier),
        TypeRecord::Union { size_bytes, fields, .. } => check_fields_within(fields, *size_bytes, earlier),
        _ => true,
    }
}

/// Decodes a type stream. The record decoded as the `n`th, counting from
/// zero, gets the index `FIRST_TYPE_INDEX + n`.
pub fn decode_types(stream: &[u8]) -> (r: Result<Vec<TypeEntry>, DecodeError>)
    ensures
        match r {
            Ok(v) => decoded_types(stream@) == Ok::<Seq<TypeEntryModel>, DecodeError>(entries_view(v@)),
            Err(e) => decoded_types(stream@) == Err::<Seq<TypeEntryModel>, DecodeError>(e),
        },
{
    let mut out: Vec<TypeEntry> = Vec::new();
    let mut pos: usize = 0;
    assert(entries_view(out@) =~= Seq::empty());
    while pos < stream.len()
        invariant
            pos <= stream@.len(),
            decoded_types(stream@) == types_from(stream@, pos as int, entries_view(out@)),
        decreases stream@.len() - pos,
    {
        if stream.len() - pos < 4 {
            return Err(DecodeError::TruncatedInput);
        }
        let len: usize = read_u16(stream, pos) as usize;
        if len < 2 || stream.len() - pos - 2 < len {
            return Err(DecodeError::TruncatedInput);
        }
        let next: usize = pos + 2 + len;
        if out.len() > (u32::MAX - FIRST_TYPE_INDEX) as usize {
            return Err(DecodeError::OutOfRange);
        }
        let index: u32 = FIRST_TYPE_INDEX + out.len() as u32;
        let tag: u16 = read_u16(stream, pos + 2);
        match decode_record(stream, pos + 4, next, tag) {
            Err(e) => {
                return Err(e);
            },
            Ok(record) => {
                let consistent: bool = check_layout(&record, &out);
                let entry = TypeEntry { index, record, layout_consistent: consistent };
                proof {
                    assert(entries_view(out@.push(entry)) =~= entries_view(out@).push(entry@));
                }
                out.push(entry);
            },
        }
        pos = next;
    }
    Ok(out)
}

} // verus!
