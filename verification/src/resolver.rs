use vstd::prelude::*;
use crate::error::{PathError, ResolveError};
use crate::store::{chosen_symbol, first_definition_from, named_type, Store};
use crate::symbols::SymbolModel;
use crate::types::{fields_view, type_at, Field, FieldModel, TypeEntryModel, TypeModel, TypeRecord};
use crate::wire::{copy_range, same_bytes};

verus! {

/// The byte that parts the segments of a field path: a full stop.
pub const SEPARATOR: u8 = 0x2E;

/// An address moved on by an offset, within the 64 bits of an address.
pub open spec fn add_offset(addr: u64, offset: u32) -> u64 {
    ((addr + offset) % 0x1_0000_0000_0000_0000) as u64
}

/// How many bytes from `from` on come before the next separator or the
/// end of the path.
pub open spec fn segment_len(path: Seq<u8>, from: int) -> nat
    decreases path.len() - from,
{
    if from < 0 || from >= path.len() || path[from] == 0x2E {
        0
    } else {
        1 + segment_len(path, from + 1)
    }
}

/// A segment ends within its path.
pub proof fn lemma_segment_within(path: Seq<u8>, from: int)
    requires
        0 <= from <= path.len(),
    ensures
        from + segment_len(path, from) <= path.len(),
    decreases path.len() - from,
{
    if from < path.len() && path[from] != 0x2E {
        lemma_segment_within(path, from + 1);
    }
}

/// The place of the first field called `name` at or after `from`.
pub open spec fn first_field_from(fields: Seq<FieldModel>, name: Seq<u8>, from: int) -> Option<int>
    decreases fields.len() - from,
{
    if from >= fields.len() {
        None
    } else if fields[from].name == name {
        Some(from)
    } else {
        first_field_from(fields, name, from + 1)
    }
}

/// The fields of the struct or union that `index` stands for. A modifier
/// stands for what it modifies, a forward reference for the first
/// definition of its name. `steps` bounds how many records are looked at,
/// so that a chain that comes back to itself gives nothing.
pub open spec fn aggregate_fields(types: Seq<TypeEntryModel>, index: u32, steps: nat) -> Option<Seq<FieldModel>>
    decreases steps,
{
    if steps == 0 {
        None
    } else {
        match type_at(types, index) {
            Some(TypeModel::Struct { fields, .. }) => Some(fields),
            Some(TypeModel::Union { fields, .. }) => Some(fields),
            Some(TypeModel::Modifier { target, .. }) => aggregate_fields(types, target, (steps - 1) as nat),
            Some(TypeModel::ForwardRef { name }) => match first_definition_from(types, name, 0) {
                Some(d) => aggregate_fields(types, types[d].index, (steps - 1) as nat),
                None => None,
            },
            _ => None,
        }
    }
}

/// The address reached from the separator at `dot` on, standing at the
/// type `current` with the address `addr`. Each segment names a field of
/// the aggregate at hand; its offset is added, and its type is the next
/// to stand at. Past the last segment the address is the answer.
pub open spec fn walk(types: Seq<TypeEntryModel>, path: Seq<u8>, dot: int, current: u32, addr: u64) -> Result<
    u64,
    ResolveError,
>
    decreases path.len() - dot,
{
    if dot >= path.len() {
        Ok(addr)
    } else {
        let end = dot + 1 + segment_len(path, dot + 1);
        proof {
            if dot + 1 >= 0 {
                lemma_segment_within(path, dot + 1);
            }
        }
        match aggregate_fields(types, current, types.len()) {
            None => Err(ResolveError::Path(PathError::NotAggregate)),
            Some(fields) => match first_field_from(fields, path.subrange(dot + 1, end), 0) {
                None => Err(ResolveError::Path(PathError::UnknownField)),
                Some(i) => walk(types, path, end, fields[i].type_index, add_offset(addr, fields[i].offset_bytes)),
            },
        }
    }
}

/// The address of the field that a path names: the first segment is the
/// root type, each further one a field of the aggregate before it.
pub open spec fn field_address(types: Seq<TypeEntryModel>, base: u64, path: Seq<u8>) -> Result<u64, ResolveError> {
    let end = segment_len(path, 0) as int;
    match named_type(types, path.subrange(0, end)) {
        None => Err(ResolveError::NotFound),
        Some(p) => walk(types, path, end, types[p].index, base),
    }
}

/// The address of the symbol that stands for a name.
pub open spec fn symbol_address(symbols: Seq<SymbolModel>, base: u64, name: Seq<u8>) -> Result<u64, ResolveError> {
    match chosen_symbol(symbols, name) {
        Some(i) => Ok(add_offset(base, symbols[i].section_offset)),
        None => Err(ResolveError::NotFound),
    }
}

/// A segment runs up to the next separator: where none of the bytes from
/// `from` up to `end` is one, and `end` is the path's end or holds one,
/// the segment that starts at `from` ends at `end`.
pub proof fn lemma_segment_runs_to(path: Seq<u8>, from: int, end: int)
    requires
        0 <= from <= end <= path.len(),
        forall|k: int| from <= k < end ==> path[k] != 0x2E,
        end == path.len() || path[end] == 0x2E,
    ensures
        segment_len(path, from) == end - from,
    decreases end - from,
{
    if from < end {
        lemma_segment_runs_to(path, from + 1, end);
    }
}

/// The address of `Root.field`: where the store knows no type called
/// `root`, `NotFound`; where that type is no struct or union,
/// `NotAggregate`; where it has no field called `field`, `UnknownField`;
/// else the base moved on by the offset of the first field of that name.
pub proof fn lemma_field_of_root(types: Seq<TypeEntryModel>, base: u64, root: Seq<u8>, field: Seq<u8>)
    requires
        forall|k: int| 0 <= k < root.len() ==> root[k] != 0x2E,
        forall|k: int| 0 <= k < field.len() ==> field[k] != 0x2E,
    ensures
        field_address(types, base, root + seq![0x2Eu8] + field) == match named_type(types, root) {
            None => Err::<u64, ResolveError>(ResolveError::NotFound),
            Some(p) => match aggregate_fields(types, types[p].index, types.len()) {
                None => Err(ResolveError::Path(PathError::NotAggregate)),
                Some(fields) => match first_field_from(fields, field, 0) {
                    None => Err(ResolveError::Path(PathError::UnknownField)),
                    Some(i) => Ok(add_offset(base, fields[i].offset_bytes)),
                },
            },
        },
{
    let path = root + seq![0x2Eu8] + field;
    let dot = root.len() as int;
    assert(path.len() == dot + 1 + field.len());
    assert(path[dot] == 0x2E);
    assert forall|k: int| 0 <= k < dot implies path[k] != 0x2E by {
        assert(path[k] == root[k]);
    }
    assert forall|k: int| dot + 1 <= k < path.len() implies path[k] != 0x2E by {
        assert(path[k] == field[k - dot - 1]);
    }
    lemma_segment_runs_to(path, 0, dot);
    lemma_segment_runs_to(path, dot + 1, path.len() as int);
    assert(path.subrange(0, dot) =~= root);
    assert(path.subrange(dot + 1, path.len() as int) =~= field);
    match named_type(types, root) {
        None => {},
        Some(p) => {
            let current = types[p].index;
            match aggregate_fields(types, current, types.len()) {
                None => {},
                Some(fields) => match first_field_from(fields, field, 0) {
                    None => {},
                    Some(i) => {
                        assert(walk(
                            types,
                            path,
                            path.len() as int,
                            fields[i].type_index,
                            add_offset(base, fields[i].offset_bytes),
                        ) == Ok::<u64, ResolveError>(add_offset(base, fields[i].offset_bytes)));
                    },
                },
            }
        },
    }
}

/// The address `offset` bytes after `addr`, within 64 bits.
pub fn offset_address(addr: u64, offset: u32) -> (r: u64)
    ensures
        r == add_offset(addr, offset),
{
    let room: u64 = u64::MAX - addr;
    if offset as u64 <= room {
        addr + offset as u64
    } else {
        offset as u64 - room - 1
    }
}

/// Where the segment that starts at `from` ends.
pub fn segment_end(path: &[u8], from: usize) -> (r: usize)
    requires
        from <= path@.len(),
    ensures
        r == from + segment_len(path@, from as int),
        from <= r <= path@.len(),
{
    let mut i: usize = from;
    while i < path.len() && path[i] != SEPARATOR
        invariant
            from <= i <= path@.len(),
            from + segment_len(path@, from as int) == i + segment_len(path@, i as int),
        decreases path@.len() - i,
    {
        i += 1;
    }
    i
}

/// The place of the first field called `name`.
pub fn find_field(fields: &Vec<Field>, name: &[u8]) -> (r: Option<usize>)
    ensures
        match r {
            Some(i) => i < fields@.len() && first_field_from(fields_view(fields@), name@, 0) == Some(i as int),
            None => first_field_from(fields_view(fields@), name@, 0) is None,
        },
{
    let mut i: usize = 0;
    while i < fields.len()
        invariant
            i <= fields@.len(),
            first_field_from(fields_view(fields@), name@, 0) == first_field_from(
                fields_view(fields@),
                name@,
                i as int,
            ),
        decreases fields@.len() - i,
    {
        assert(fields_view(fields@)[i as int] == fields@[i as int]@);
        if same_bytes(fields[i].name.as_slice(), name) {
            return Some(i);
        }
        i += 1;
    }
    None
}

/// The fields of the struct or union that `index` stands for, seen
/// through modifiers and forward references.
pub fn aggregate<'a>(store: &'a Store, index: u32) -> (r: Option<&'a Vec<Field>>)
    ensures
        match r {
            Some(fields) => aggregate_fields(store@.types, index, store@.types.len()) == Some(fields_view(fields@)),
            None => aggregate_fields(store@.types, index, store@.types.len()) is None,
        },
{
    let mut current: u32 = index;
    let mut steps: usize = store.type_count();
    while steps > 0
        invariant
            aggregate_fields(store@.types, index, store@.types.len()) == aggregate_fields(
                store@.types,
                current,
                steps as nat,
            ),
        decreases steps,
    {
        match store.resolve(current) {
            Some(TypeRecord::Struct { fields, .. }) => {
                return Some(fields);
            },
            Some(TypeRecord::Union { fields, .. }) => {
                return Some(fields);
            },
            Some(TypeRecord::Modifier { target, .. }) => {
                current = *target;
            },
            Some(TypeRecord::ForwardRef { name }) => {
                match store.lookup_definition(name.as_slice()) {
                    Some(d) => {
                        current = d;
                    },
                    None => {
                        return None;
                    },
                }
            },
            _ => {
                return None;
            },
        }
        steps -= 1;
    }
    None
}

/// The address of the symbol that stands for `name`, from the address
/// `base` at which its module lies.
pub fn resolve_symbol(store: &Store, base: u64, name: &[u8]) -> (r: Result<u64, ResolveError>)
    ensures
        r == symbol_address(store@.symbols, base, name@),
{
    match store.lookup_symbol(name) {
        Some(record) => Ok(offset_address(base, record.section_offset)),
        None => Err(ResolveError::NotFound),
    }
}

/// The address of the field that `path` names, from the address `base`
/// of the root type's value. The segments of the path are parted by full
/// stops. A pointer is never followed: a segment after a field that is a
/// pointer is `NotAggregate`.
pub fn resolve_field_path(store: &Store, base: u64, path: &[u8]) -> (r: Result<u64, ResolveError>)
    ensures
        r == field_address(store@.types, base, path@),
{
    let root_end: usize = segment_end(path, 0);
    let root: Vec<u8> = copy_range(path, 0, root_end);
    let mut current: u32 = match store.lookup_type(root.as_slice()) {
        Some(index) => index,
        None => {
            return Err(ResolveError::NotFound);
        },
    };
    let mut addr: u64 = base;
    let mut dot: usize = root_end;
    while dot < path.len()
        invariant
            dot <= path@.len(),
            field_address(store@.types, base, path@) == walk(store@.types, path@, dot as int, current, addr),
        decreases path@.len() - dot,
    {
        let end: usize = segment_end(path, dot + 1);
        let segment: Vec<u8> = copy_range(path, dot + 1, end);
        match aggregate(store, current) {
            None => {
                return Err(ResolveError::Path(PathError::NotAggregate));
            },
            Some(fields) => match find_field(fields, segment.as_slice()) {
                None => {
                    return Err(ResolveError::Path(PathError::UnknownField));
                },
                Some(i) => {
                    assert(fields_view(fields@)[i as int] == fields@[i as int]@);
                    addr = offset_address(addr, fields[i].offset_bytes);
                    current = fields[i].type_index;
                    dot = end;
                },
            },
        }
    }
    Ok(addr)
}

} // verus!
