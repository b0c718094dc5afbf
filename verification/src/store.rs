use vstd::prelude::*;
use crate::container::{parsed_container, Container};
use crate::error::DecodeError;
use crate::symbols::{decode_symbols, decoded_symbols, symbols_view, SymbolKind, SymbolModel, SymbolRecord};
use crate::types::{
    decode_types,
    decoded_types,
    entries_view,
    fields_view,
    type_at,
    Field,
    FieldModel,
    TypeEntry,
    TypeEntryModel,
    TypeModel,
    TypeRecord,
    FIRST_TYPE_INDEX,
};
use crate::wire::same_bytes;

verus! {

/// A store as a mathematical value: the symbols and the type entries, each
/// in the order in which they were decoded.
pub struct StoreModel {
    pub symbols: Seq<SymbolModel>,
    pub types: Seq<TypeEntryModel>,
}

/// The place of the first symbol at or after `from` with this name and kind.
pub open spec fn first_symbol_from(symbols: Seq<SymbolModel>, name: Seq<u8>, kind: SymbolKind, from: int) -> Option<
    int,
>
    decreases symbols.len() - from,
{
    if from >= symbols.len() {
        None
    } else if symbols[from].name == name && symbols[from].kind == kind {
        Some(from)
    } else {
        first_symbol_from(symbols, name, kind, from + 1)
    }
}

/// The place of the symbol that stands for `name`: the first public one;
/// where there is none, the first global one; then the first local one;
/// then the first of any other kind.
pub open spec fn chosen_symbol(symbols: Seq<SymbolModel>, name: Seq<u8>) -> Option<int> {
    if first_symbol_from(symbols, name, SymbolKind::Public, 0) is Some {
        first_symbol_from(symbols, name, SymbolKind::Public, 0)
    } else if first_symbol_from(symbols, name, SymbolKind::Global, 0) is Some {
        first_symbol_from(symbols, name, SymbolKind::Global, 0)
    } else if first_symbol_from(symbols, name, SymbolKind::Local, 0) is Some {
        first_symbol_from(symbols, name, SymbolKind::Local, 0)
    } else {
        first_symbol_from(symbols, name, SymbolKind::Other, 0)
    }
}

/// Whether a record is the full definition of the aggregate or
/// enumeration called `name`.
pub open spec fn is_definition(rec: TypeModel, name: Seq<u8>) -> bool {
    match rec {
        TypeModel::Struct { name: n, .. } => n == name,
        TypeModel::Union { name: n, .. } => n == name,
        TypeModel::Enum { name: n, .. } => n == name,
        _ => false,
    }
}

/// Whether a record is a forward reference to `name`.
pub open spec fn is_forward_ref(rec: TypeModel, name: Seq<u8>) -> bool {
    match rec {
        TypeModel::ForwardRef { name: n } => n == name,
        _ => false,
    }
}

/// The place of the first definition of `name` at or after `from`.
pub open spec fn first_definition_from(types: Seq<TypeEntryModel>, name: Seq<u8>, from: int) -> Option<int>
    decreases types.len() - from,
{
    if from >= types.len() {
        None
    } else if is_definition(types[from].record, name) {
        Some(from)
    } else {
        first_definition_from(types, name, from + 1)
    }
}

/// The place of the first forward reference to `name` at or after `from`.
pub open spec fn first_forward_ref_from(types: Seq<TypeEntryModel>, name: Seq<u8>, from: int) -> Option<int>
    decreases types.len() - from,
{
    if from >= types.len() {
        None
    } else if is_forward_ref(types[from].record, name) {
        Some(from)
    } else {
        first_forward_ref_from(types, name, from + 1)
    }
}

/// The place of the type that stands for `name`: its first definition, or,
/// where it has none, the first forward reference to it.
pub open spec fn named_type(types: Seq<TypeEntryModel>, name: Seq<u8>) -> Option<int> {
    if first_definition_from(types, name, 0) is Some {
        first_definition_from(types, name, 0)
    } else {
        first_forward_ref_from(types, name, 0)
    }
}

/// Whether every field's type is a built-in type or a record below `limit`.
pub open spec fn fields_refs_ok(fields: Seq<FieldModel>, limit: int) -> bool {
    forall|i: int| 0 <= i < fields.len() ==> (#[trigger] fields[i]).type_index < limit
}

/// Whether every type that a record refers to lies below `limit`.
pub open spec fn record_refs_ok(rec: TypeModel, limit: int) -> bool {
    match rec {
        TypeModel::Struct { fields, .. } => fields_refs_ok(fields, limit),
        TypeModel::Union { fields, .. } => fields_refs_ok(fields, limit),
        TypeModel::Enum { underlying_type, .. } => underlying_type < limit,
        TypeModel::Pointer { target } => target < limit,
        TypeModel::Array { element, .. } => element < limit,
        TypeModel::Modifier { target, .. } => target < limit,
        _ => true,
    }
}

/// Whether the entries carry their indices in order and refer to nothing
/// that is not there.
pub open spec fn types_linked(types: Seq<TypeEntryModel>) -> bool {
    &&& FIRST_TYPE_INDEX + types.len() <= u32::MAX + 1
    &&& forall|i: int|
        0 <= i < types.len() ==> (#[trigger] types[i]).index == FIRST_TYPE_INDEX + i && record_refs_ok(
            types[i].record,
            FIRST_TYPE_INDEX + types.len(),
        )
}

/// Whether every symbol's type is a built-in type or a record below `limit`.
pub open spec fn symbols_linked(symbols: Seq<SymbolModel>, limit: int) -> bool {
    forall|i: int|
        0 <= i < symbols.len() ==> ((#[trigger] symbols[i]).type_ref matches Some(t) ==> t < limit)
}

/// What building gives. A failure of either stream is the failure of the
/// build, that of the symbols first; a reference to a type that is not
/// there is `OutOfRange`.
pub open spec fn built(
    symbols: Result<Seq<SymbolModel>, DecodeError>,
    types: Result<Seq<TypeEntryModel>, DecodeError>,
) -> Result<StoreModel, DecodeError> {
    match symbols {
        Err(e) => Err(e),
        Ok(sy) => match types {
            Err(e) => Err(e),
            Ok(ty) => if types_linked(ty) && symbols_linked(sy, FIRST_TYPE_INDEX + ty.len()) {
                Ok(StoreModel { symbols: sy, types: ty })
            } else {
                Err(DecodeError::OutOfRange)
            },
        },
    }
}

pub open spec fn symbols_outcome(r: Result<Vec<SymbolRecord>, DecodeError>) -> Result<
    Seq<SymbolModel>,
    DecodeError,
> {
    match r {
        Ok(v) => Ok(symbols_view(v@)),
        Err(e) => Err(e),
    }
}

pub open spec fn types_outcome(r: Result<Vec<TypeEntry>, DecodeError>) -> Result<Seq<TypeEntryModel>, DecodeError> {
    match r {
        Ok(v) => Ok(entries_view(v@)),
        Err(e) => Err(e),
    }
}

/// The indices of the forward references at or after `from` that no
/// definition answers, after `done`.
pub open spec fn unresolved_from(types: Seq<TypeEntryModel>, from: int, done: Seq<u32>) -> Seq<u32>
    decreases types.len() - from,
{
    if from >= types.len() {
        done
    } else {
        match types[from].record {
            TypeModel::ForwardRef { name } => if first_definition_from(types, name, 0) is None {
                unresolved_from(types, from + 1, done.push(types[from].index))
            } else {
                unresolved_from(types, from + 1, done)
            },
            _ => unresolved_from(types, from + 1, done),
        }
    }
}

/// The indices of the entries at or after `from` whose layout was found
/// inconsistent while decoding, after `done`.
pub open spec fn flagged_from(types: Seq<TypeEntryModel>, from: int, done: Seq<u32>) -> Seq<u32>
    decreases types.len() - from,
{
    if from >= types.len() {
        done
    } else if !types[from].layout_consistent {
        flagged_from(types, from + 1, done.push(types[from].index))
    } else {
        flagged_from(types, from + 1, done)
    }
}

/// Whether the type of every field lies below `limit`.
pub fn check_fields_refs(fields: &Vec<Field>, limit: u64) -> (r: bool)
    ensures
        r == fields_refs_ok(fields_view(fields@), limit as int),
{
    let mut i: usize = 0;
    while i < fields.len()
        invariant
            i <= fields@.len(),
            forall|k: int| 0 <= k < i ==> (#[trigger] fields_view(fields@)[k]).type_index < limit,
        decreases fields@.len() - i,
    {
        assert(fields_view(fields@)[i as int].type_index == fields@[i as int].type_index);
        if fields[i].type_index as u64 >= limit {
            return false;
        }
        i += 1;
    }
    true
}

/// Whether every type that the record refers to lies below `limit`.
pub fn check_record_refs(record: &TypeRecord, limit: u64) -> (r: bool)
    ensures
        r == record_refs_ok(record@, limit as int),
{
    match record {
        TypeRecord::Struct { fields, .. } => check_fields_refs(fields, limit),
        TypeRecord::Union { fields, .. } => check_fields_refs(fields, limit),
        TypeRecord::Enum { underlying_type, .. } => (*underlying_type as u64) < limit,
        TypeRecord::Pointer { target } => (*target as u64) < limit,
        TypeRecord::Array { element, .. } => (*element as u64) < limit,
        TypeRecord::Modifier { target, .. } => (*target as u64) < limit,
        _ => true,
    }
}

/// Whether the entries carry their indices in order and refer only to
/// built-in types and to entries of the vector.
pub fn check_types_linked(types: &Vec<TypeEntry>) -> (r: bool)
    ensures
        r == types_linked(entries_view(types@)),
{
    if types.len() > (u32::MAX - FIRST_TYPE_INDEX) as usize + 1 {
        return false;
    }
    let limit: u64 = FIRST_TYPE_INDEX as u64 + types.len() as u64;
    let mut i: usize = 0;
    while i < types.len()
        invariant
            i <= types@.len(),
            limit == FIRST_TYPE_INDEX + types@.len(),
            FIRST_TYPE_INDEX + types@.len() <= u32::MAX + 1,
            forall|k: int|
                0 <= k < i ==> (#[trigger] entries_view(types@)[k]).index == FIRST_TYPE_INDEX + k
                    && record_refs_ok(entries_view(types@)[k].record, limit as int),
        decreases types@.len() - i,
    {
        assert(entries_view(types@)[i as int] == types@[i as int]@);
        let ok: bool = types[i].index as u64 == FIRST_TYPE_INDEX as u64 + i as u64 && check_record_refs(
            &types[i].record,
            limit,
        );
        if !ok {
            return false;
        }
        i += 1;
    }
    true
}

/// Whether the type of every symbol that has one lies below `limit`.
pub fn check_symbols_linked(symbols: &Vec<SymbolRecord>, limit: u64) -> (r: bool)
    ensures
        r == symbols_linked(symbols_view(symbols@), limit as int),
{
    let mut i: usize = 0;
    while i < symbols.len()
        invariant
            i <= symbols@.len(),
            forall|k: int|
                0 <= k < i ==> ((#[trigger] symbols_view(symbols@)[k]).type_ref matches Some(t) ==> t < limit),
        decreases symbols@.len() - i,
    {
        assert(symbols_view(symbols@)[i as int] == symbols@[i as int]@);
        match symbols[i].type_ref {
            Some(t) => {
                if t as u64 >= limit {
                    return false;
                }
            },
            None => {},
        }
        i += 1;
    }
    true
}

/// Whether a record is the full definition of `name`.
pub fn defines(record: &TypeRecord, name: &[u8]) -> (r: bool)
    ensures
        r == is_definition(record@, name@),
{
    match record {
        TypeRecord::Struct { name: n, .. } => same_bytes(n.as_slice(), name),
        TypeRecord::Union { name: n, .. } => same_bytes(n.as_slice(), name),
        TypeRecord::Enum { name: n, .. } => same_bytes(n.as_slice(), name),
        _ => false,
    }
}

/// Whether a record is a forward reference to `name`.
pub fn forward_refers(record: &TypeRecord, name: &[u8]) -> (r: bool)
    ensures
        r == is_forward_ref(record@, name@),
{
    match record {
        TypeRecord::ForwardRef { name: n } => same_bytes(n.as_slice(), name),
        _ => false,
    }
}

/// The symbols and types of one input, linked and ready for queries.
pub struct Store {
    symbols: Vec<SymbolRecord>,
    types: Vec<TypeEntry>,
}

impl View for Store {
    type V = StoreModel;

    closed spec fn view(&self) -> StoreModel {
        StoreModel { symbols: symbols_view(self.symbols@), types: entries_view(self.types@) }
    }
}

impl Store {
    #[verifier::type_invariant]
    spec fn inv(self) -> bool {
        &&& types_linked(entries_view(self.types@))
        &&& symbols_linked(symbols_view(self.symbols@), FIRST_TYPE_INDEX + self.types@.len())
    }

    /// Builds the store from what the two decoders gave.
    pub fn build(symbols: Result<Vec<SymbolRecord>, DecodeError>, types: Result<Vec<TypeEntry>, DecodeError>) -> (r:
        Result<Store, DecodeError>)
        ensures
            match r {
                Ok(st) => built(symbols_outcome(symbols), types_outcome(types)) == Ok::<StoreModel, DecodeError>(
                    st@,
                ),
                Err(e) => built(symbols_outcome(symbols), types_outcome(types)) == Err::<StoreModel, DecodeError>(
                    e,
                ),
            },
    {
        match symbols {
            Err(e) => Err(e),
            Ok(sy) => match types {
                Err(e) => Err(e),
                Ok(ty) => {
                    if !check_types_linked(&ty) {
                        return Err(DecodeError::OutOfRange);
                    }
                    let limit: u64 = FIRST_TYPE_INDEX as u64 + ty.len() as u64;
                    if !check_symbols_linked(&sy, limit) {
                        return Err(DecodeError::OutOfRange);
                    }
                    Ok(Store { symbols: sy, types: ty })
                },
            },
        }
    }

    /// How many symbols were decoded, those that share a name counted each.
    pub fn symbol_count(&self) -> (r: usize)
        ensures
            r == self@.symbols.len(),
    {
        self.symbols.len()
    }

    /// How many type records the store holds.
    pub fn type_count(&self) -> (r: usize)
        ensures
            r == self@.types.len(),
    {
        self.types.len()
    }

    /// The place of the first symbol with this name and kind.
    pub fn find_symbol(&self, name: &[u8], kind: SymbolKind) -> (r: Option<usize>)
        ensures
            match r {
                Some(i) => i < self@.symbols.len() && first_symbol_from(self@.symbols, name@, kind, 0) == Some(
                    i as int,
                ),
                None => first_symbol_from(self@.symbols, name@, kind, 0) is None,
            },
    {
        let mut i: usize = 0;
        while i < self.symbols.len()
            invariant
                i <= self.symbols@.len(),
                first_symbol_from(self@.symbols, name@, kind, 0) == first_symbol_from(
                    self@.symbols,
                    name@,
                    kind,
                    i as int,
                ),
            decreases self.symbols@.len() - i,
        {
            assert(self@.symbols[i as int] == self.symbols@[i as int]@);
            if self.symbols[i].kind == kind && same_bytes(self.symbols[i].name.as_slice(), name) {
                return Some(i);
            }
            i += 1;
        }
        None
    }

    /// The symbol that stands for `name`. Where several carry the name, a
    /// public one goes before a global one, that before a local one, that
    /// before any other; among those of one kind the first decoded is kept.
    pub fn lookup_symbol(&self, name: &[u8]) -> (r: Option<&SymbolRecord>)
        ensures
            match r {
                Some(rec) => chosen_symbol(self@.symbols, name@) matches Some(i) && 0 <= i < self@.symbols.len()
                    && rec@ == self@.symbols[i],
                None => chosen_symbol(self@.symbols, name@) is None,
            },
    {
        let mut found: Option<usize> = self.find_symbol(name, SymbolKind::Public);
        if found.is_none() {
            found = self.find_symbol(name, SymbolKind::Global);
        }
        if found.is_none() {
            found = self.find_symbol(name, SymbolKind::Local);
        }
        if found.is_none() {
            found = self.find_symbol(name, SymbolKind::Other);
        }
        match found {
            Some(i) => {
                assert(self@.symbols[i as int] == self.symbols@[i as int]@);
                Some(&self.symbols[i])
            },
            None => None,
        }
    }

    /// The index of the first full definition of `name`.
    pub fn lookup_definition(&self, name: &[u8]) -> (r: Option<u32>)
        ensures
            match r {
                Some(index) => first_definition_from(self@.types, name@, 0) == Some(index - FIRST_TYPE_INDEX)
                    && type_at(self@.types, index) is Some && self@.types[index - FIRST_TYPE_INDEX].index
                    == index,
                None => first_definition_from(self@.types, name@, 0) is None,
            },
    {
        proof {
            use_type_invariant(self);
        }
        let mut i: usize = 0;
        while i < self.types.len()
            invariant
                i <= self.types@.len(),
                types_linked(entries_view(self.types@)),
                first_definition_from(self@.types, name@, 0) == first_definition_from(self@.types, name@, i as int),
            decreases self.types@.len() - i,
        {
            assert(self@.types[i as int] == self.types@[i as int]@);
            if defines(&self.types[i].record, name) {
                return Some(self.types[i].index);
            }
            i += 1;
        }
        None
    }

    /// The index of the type that stands for `name`: its full definition
    /// where the store holds one, else the forward reference to it.
    pub fn lookup_type(&self, name: &[u8]) -> (r: Option<u32>)
        ensures
            match r {
                Some(index) => named_type(self@.types, name@) == Some(index - FIRST_TYPE_INDEX) && type_at(
                    self@.types,
                    index,
                ) is Some && self@.types[index - FIRST_TYPE_INDEX].index == index,
                None => named_type(self@.types, name@) is None,
            },
    {
        proof {
            use_type_invariant(self);
        }
        let defined: Option<u32> = self.lookup_definition(name);
        if defined.is_some() {
            return defined;
        }
        let mut j: usize = 0;
        while j < self.types.len()
            invariant
                j <= self.types@.len(),
                types_linked(entries_view(self.types@)),
                first_definition_from(self@.types, name@, 0) is None,
                first_forward_ref_from(self@.types, name@, 0) == first_forward_ref_from(
                    self@.types,
                    name@,
                    j as int,
                ),
            decreases self.types@.len() - j,
        {
            assert(self@.types[j as int] == self.types@[j as int]@);
            if forward_refers(&self.types[j].record, name) {
                return Some(self.types[j].index);
            }
            j += 1;
        }
        None
    }

    /// The entry that a type index stands for; none for a built-in type or
    /// an index past the last record.
    pub fn entry(&self, index: u32) -> (r: Option<&TypeEntry>)
        ensures
            match r {
                Some(e) => type_at(self@.types, index) == Some(e@.record) && e@ == self@.types[index
                    - FIRST_TYPE_INDEX],
                None => type_at(self@.types, index) is None,
            },
    {
        if index < FIRST_TYPE_INDEX {
            return None;
        }
        let at: usize = (index - FIRST_TYPE_INDEX) as usize;
        if at < self.types.len() {
            assert(self@.types[at as int] == self.types@[at as int]@);
            Some(&self.types[at])
        } else {
            None
        }
    }

    /// The record that a type index stands for.
    pub fn resolve(&self, index: u32) -> (r: Option<&TypeRecord>)
        ensures
            match r {
                Some(rec) => type_at(self@.types, index) == Some(rec@),
                None => type_at(self@.types, index) is None,
            },
    {
        match self.entry(index) {
            Some(e) => Some(&e.record),
            None => None,
        }
    }

    /// The indices of the forward references that no definition answers,
    /// in the order of the records.
    pub fn unresolved_forward_refs(&self) -> (r: Vec<u32>)
        ensures
            r@ == unresolved_from(self@.types, 0, Seq::empty()),
    {
        let mut out: Vec<u32> = Vec::new();
        let mut i: usize = 0;
        while i < self.types.len()
            invariant
                i <= self.types@.len(),
                unresolved_from(self@.types, 0, Seq::empty()) == unresolved_from(self@.types, i as int, out@),
            decreases self.types@.len() - i,
        {
            assert(self@.types[i as int] == self.types@[i as int]@);
            match &self.types[i].record {
                TypeRecord::ForwardRef { name } => {
                    if !self.has_definition(name.as_slice()) {
                        out.push(self.types[i].index);
                    }
                },
                _ => {},
            }
            i += 1;
        }
        out
    }

    /// The indices of the types with a field outside their declared size,
    /// in the order of the records.
    pub fn inconsistent_layouts(&self) -> (r: Vec<u32>)
        ensures
            r@ == flagged_from(self@.types, 0, Seq::empty()),
    {
        let mut out: Vec<u32> = Vec::new();
        let mut i: usize = 0;
        while i < self.types.len()
            invariant
                i <= self.types@.len(),
                flagged_from(self@.types, 0, Seq::empty()) == flagged_from(self@.types, i as int, out@),
            decreases self.types@.len() - i,
        {
            assert(self@.types[i as int] == self.types@[i as int]@);
            if !self.types[i].layout_consistent {
                out.push(self.types[i].index);
            }
            i += 1;
        }
        out
    }

    /// Whether the store holds a full definition of `name`.
    pub fn has_definition(&self, name: &[u8]) -> (r: bool)
        ensures
            r == first_definition_from(self@.types, name@, 0) is Some,
    {
        let mut i: usize = 0;
        while i < self.types.len()
            invariant
                i <= self.types@.len(),
                first_definition_from(self@.types, name@, 0) == first_definition_from(self@.types, name@, i as int),
            decreases self.types@.len() - i,
        {
            assert(self@.types[i as int] == self.types@[i as int]@);
            if defines(&self.types[i].record, name) {
                return true;
            }
            i += 1;
        }
        false
    }
}

/// The stream of a container that holds the type records.
pub const TYPE_STREAM: usize = 2;

/// The stream of a container that holds the symbol records.
pub const SYMBOL_STREAM: usize = 3;

/// The store that a buffer holds: the container is opened, its type and
/// symbol streams are decoded, and the store is built of both.
pub open spec fn parsed_store(bytes: Seq<u8>) -> Result<StoreModel, DecodeError> {
    match parsed_container(bytes) {
        Err(e) => Err(e),
        Ok(c) => if c.streams.len() <= 3 {
            Err(DecodeError::OutOfRange)
        } else {
            built(decoded_symbols(c.stream_bytes(3)), decoded_types(c.stream_bytes(2)))
        },
    }
}

/// Reads a whole buffer into a store. Any failure on the way is the
/// failure of the whole: no store comes out of a buffer that is cut short.
pub fn parse_pdb(bytes: Vec<u8>) -> (r: Result<Store, DecodeError>)
    ensures
        match r {
            Ok(st) => parsed_store(bytes@) == Ok::<StoreModel, DecodeError>(st@),
            Err(e) => parsed_store(bytes@) == Err::<StoreModel, DecodeError>(e),
        },
{
    let container: Container = match Container::open(bytes) {
        Ok(c) => c,
        Err(e) => {
            return Err(e);
        },
    };
    let type_bytes: Vec<u8> = match container.read_stream(TYPE_STREAM) {
        Ok(v) => v,
        Err(e) => {
            return Err(e);
        },
    };
    let symbol_bytes: Vec<u8> = match container.read_stream(SYMBOL_STREAM) {
        Ok(v) => v,
        Err(e) => {
            return Err(e);
        },
    };
    Store::build(decode_symbols(symbol_bytes.as_slice()), decode_types(type_bytes.as_slice()))
}

/// A buffer that does not open as a container gives no store, and fails
/// as the opening does.
pub proof fn lemma_no_store_without_container(bytes: Seq<u8>)
    requires
        parsed_container(bytes) is Err,
    ensures
        parsed_store(bytes) is Err,
        parsed_store(bytes)->Err_0 == parsed_container(bytes)->Err_0,
{
}

/// A store comes only of a buffer whose two streams both decode.
pub proof fn lemma_store_needs_both_streams(bytes: Seq<u8>)
    requires
        parsed_store(bytes) is Ok,
    ensures
        parsed_container(bytes) matches Ok(c) && c.streams.len() > 3 && decoded_symbols(c.stream_bytes(3)) is Ok
            && decoded_types(c.stream_bytes(2)) is Ok,
{
}

/// A found place is a place of the sequence, at or after the start, and
/// holds a symbol of the name and kind asked for.
pub proof fn lemma_first_symbol_found(symbols: Seq<SymbolModel>, name: Seq<u8>, kind: SymbolKind, from: int)
    requires
        0 <= from,
    ensures
        first_symbol_from(symbols, name, kind, from) matches Some(i) ==> from <= i < symbols.len()
            && symbols[i].name == name && symbols[i].kind == kind,
    decreases symbols.len() - from,
{
    if from < symbols.len() && !(symbols[from].name == name && symbols[from].kind == kind) {
        lemma_first_symbol_found(symbols, name, kind, from + 1);
    }
}

/// Where a symbol of the name and kind stands at or after the start, one
/// is found.
pub proof fn lemma_first_symbol_exists(symbols: Seq<SymbolModel>, name: Seq<u8>, kind: SymbolKind, from: int, at: int)
    requires
        0 <= from <= at < symbols.len(),
        symbols[at].name == name,
        symbols[at].kind == kind,
    ensures
        first_symbol_from(symbols, name, kind, from) is Some,
    decreases at - from,
{
    if from < at && !(symbols[from].name == name && symbols[from].kind == kind) {
        lemma_first_symbol_exists(symbols, name, kind, from + 1, at);
    }
}

/// A name that a public symbol carries stands for a public symbol,
/// wherever the symbols of other kinds with that name were decoded.
pub proof fn lemma_public_preferred(symbols: Seq<SymbolModel>, name: Seq<u8>, at: int)
    requires
        0 <= at < symbols.len(),
        symbols[at].name == name,
        symbols[at].kind == SymbolKind::Public,
    ensures
        chosen_symbol(symbols, name) matches Some(i) && 0 <= i <= at && symbols[i].name == name
            && symbols[i].kind == SymbolKind::Public,
{
    lemma_first_symbol_exists(symbols, name, SymbolKind::Public, 0, at);
    lemma_first_symbol_found(symbols, name, SymbolKind::Public, 0);
    lemma_first_symbol_before(symbols, name, SymbolKind::Public, 0, at);
}

/// The found place is not after any symbol of the name and kind.
pub proof fn lemma_first_symbol_before(symbols: Seq<SymbolModel>, name: Seq<u8>, kind: SymbolKind, from: int, at: int)
    requires
        0 <= from <= at < symbols.len(),
        symbols[at].name == name,
        symbols[at].kind == kind,
    ensures
        first_symbol_from(symbols, name, kind, from) matches Some(i) && i <= at,
    decreases at - from,
{
    if from < at && !(symbols[from].name == name && symbols[from].kind == kind) {
        lemma_first_symbol_before(symbols, name, kind, from + 1, at);
    }
}

/// A found definition is an entry of the sequence and defines the name.
pub proof fn lemma_first_definition_found(types: Seq<TypeEntryModel>, name: Seq<u8>, from: int)
    requires
        0 <= from,
    ensures
        first_definition_from(types, name, from) matches Some(i) ==> from <= i < types.len() && is_definition(
            types[i].record,
            name,
        ),
    decreases types.len() - from,
{
    if from < types.len() && !is_definition(types[from].record, name) {
        lemma_first_definition_found(types, name, from + 1);
    }
}

/// Where a definition of the name stands at or after the start, one is
/// found.
pub proof fn lemma_first_definition_exists(types: Seq<TypeEntryModel>, name: Seq<u8>, from: int, at: int)
    requires
        0 <= from <= at < types.len(),
        is_definition(types[at].record, name),
    ensures
        first_definition_from(types, name, from) is Some,
    decreases at - from,
{
    if from < at && !is_definition(types[from].record, name) {
        lemma_first_definition_exists(types, name, from + 1, at);
    }
}

/// A name with a full definition stands for a full definition, also where
/// a forward reference to it was decoded first.
pub proof fn lemma_definition_preferred(types: Seq<TypeEntryModel>, name: Seq<u8>, at: int)
    requires
        0 <= at < types.len(),
        is_definition(types[at].record, name),
    ensures
        named_type(types, name) matches Some(i) && 0 <= i < types.len() && is_definition(types[i].record, name),
{
    lemma_first_definition_exists(types, name, 0, at);
    lemma_first_definition_found(types, name, 0);
}

/// Where every forward reference has its definition, the list of the
/// unresolved ones is empty.
pub proof fn lemma_none_unresolved(types: Seq<TypeEntryModel>)
    requires
        forall|i: int, name: Seq<u8>|
            0 <= i < types.len() && #[trigger] is_forward_ref(types[i].record, name) ==> first_definition_from(
                types,
                name,
                0,
            ) is Some,
    ensures
        unresolved_from(types, 0, Seq::empty()) == Seq::<u32>::empty(),
{
    lemma_all_resolved(types, 0, Seq::empty());
}

/// Where every forward reference has its definition, going over the
/// entries from `from` on adds nothing to `done`.
pub proof fn lemma_all_resolved(types: Seq<TypeEntryModel>, from: int, done: Seq<u32>)
    requires
        0 <= from,
        forall|i: int, name: Seq<u8>|
            0 <= i < types.len() && #[trigger] is_forward_ref(types[i].record, name) ==> first_definition_from(
                types,
                name,
                0,
            ) is Some,
    ensures
        unresolved_from(types, from, done) == done,
    decreases types.len() - from,
{
    if from < types.len() {
        match types[from].record {
            TypeModel::ForwardRef { name } => {
                assert(is_forward_ref(types[from].record, name));
            },
            _ => {},
        }
        lemma_all_resolved(types, from + 1, done);
    }
}

} // verus!
