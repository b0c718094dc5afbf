use vstd::prelude::*;
use crate::error::DecodeError;
use crate::wire::{copy_range, le16, le32, read_u16, read_u32};

verus! {

/// What a symbol record declares.
#[derive(Clone, Copy, Debug, PartialEq, Eq, Structural)]
pub enum SymbolKind {
    Public,
    Global,
    Local,
    Other,
}

/// One decoded symbol: a name and the place in a section that it stands for.
#[derive(Clone, Debug, PartialEq, Eq)]
pub struct SymbolRecord {
    pub name: Vec<u8>,
    pub kind: SymbolKind,
    pub section_index: u16,
    pub section_offset: u32,
    pub type_ref: Option<u32>,
}

/// A symbol as a mathematical value.
pub struct SymbolModel {
    pub name: Seq<u8>,
    pub kind: SymbolKind,
    pub section_index: u16,
    pub section_offset: u32,
    pub type_ref: Option<u32>,
}

impl View for SymbolRecord {
    type V = SymbolModel;

    open spec fn view(&self) -> SymbolModel {
        SymbolModel {
            name: self.name@,
            kind: self.kind,
            section_index: self.section_index,
            section_offset: self.section_offset,
            type_ref: self.type_ref,
        }
    }
}

/// The symbols of a vector, each as its model.
pub open spec fn symbols_view(v: Seq<SymbolRecord>) -> Seq<SymbolModel> {
    Seq::new(v.len(), |i: int| v[i]@)
}

pub const TAG_PUBLIC: u16 = 0x110E;
pub const TAG_GLOBAL_DATA: u16 = 0x110D;
pub const TAG_LOCAL_DATA: u16 = 0x110C;
pub const TAG_LOCAL_THREAD: u16 = 0x1112;
pub const TAG_GLOBAL_THREAD: u16 = 0x1113;

/// The kind that a record's tag stands for; `None` for a tag that this
/// decoder passes over.
pub open spec fn kind_of_tag(tag: int) -> Option<SymbolKind> {
    if tag == 0x110E {
        Some(SymbolKind::Public)
    } else if tag == 0x110D {
        Some(SymbolKind::Global)
    } else if tag == 0x110C {
        Some(SymbolKind::Local)
    } else if tag == 0x1112 || tag == 0x1113 {
        Some(SymbolKind::Other)
    } else {
        None
    }
}

/// The kind that a tag stands for, if this decoder reads records of it.
pub fn symbol_kind(tag: u16) -> (r: Option<SymbolKind>)
    ensures
        r == kind_of_tag(tag as int),
{
    if tag == TAG_PUBLIC {
        Some(SymbolKind::Public)
    } else if tag == TAG_GLOBAL_DATA {
        Some(SymbolKind::Global)
    } else if tag == TAG_LOCAL_DATA {
        Some(SymbolKind::Local)
    } else if tag == TAG_LOCAL_THREAD || tag == TAG_GLOBAL_THREAD {
        Some(SymbolKind::Other)
    } else {
        None
    }
}

/// The symbol whose body (what follows length and tag) runs from `body` to
/// `end`: four bytes of flags or of a type index, the offset, the section,
/// and the name in the bytes that are left. A public symbol carries flags
/// and so has no type.
pub open spec fn symbol_at(s: Seq<u8>, body: int, end: int, kind: SymbolKind) -> SymbolModel {
    SymbolModel {
        name: s.subrange(body + 10, end),
        kind,
        section_index: le16(s, body + 8) as u16,
        section_offset: le32(s, body + 4) as u32,
        type_ref: if kind == SymbolKind::Public {
            None
        } else {
            Some(le32(s, body) as u32)
        },
    }
}

/// What decoding gives from `pos` on, after `done` was decoded before it.
/// Each record is a 16-bit length, which counts what follows it, a 16-bit
/// tag and a body. A record with a tag that is not known is passed over.
pub open spec fn symbols_from(s: Seq<u8>, pos: int, done: Seq<SymbolModel>) -> Result<
    Seq<SymbolModel>,
    DecodeError,
>
    decreases s.len() - pos,
{
    if pos >= s.len() {
        Ok(done)
    } else if pos + 4 > s.len() {
        Err(DecodeError::TruncatedInput)
    } else {
        let next = pos + 2 + le16(s, pos);
        if le16(s, pos) < 2 || next > s.len() {
            Err(DecodeError::TruncatedInput)
        } else {
            match kind_of_tag(le16(s, pos + 2)) {
                None => symbols_from(s, next, done),
                Some(kind) => if le16(s, pos) < 12 {
                    Err(DecodeError::TruncatedInput)
                } else {
                    symbols_from(s, next, done.push(symbol_at(s, pos + 4, next, kind)))
                },
            }
        }
    }
}

/// The symbols of a stream, in the order of their records.
pub open spec fn decoded_symbols(s: Seq<u8>) -> Result<Seq<SymbolModel>, DecodeError> {
    symbols_from(s, 0, Seq::empty())
}

/// How many records from `pos` on carry a known tag, as far as the records
/// are framed within the stream.
pub open spec fn known_records_from(s: Seq<u8>, pos: int) -> nat
    decreases s.len() - pos,
{
    if pos + 4 > s.len() {
        0
    } else {
        let next = pos + 2 + le16(s, pos);
        if le16(s, pos) < 2 || next > s.len() {
            0
        } else if kind_of_tag(le16(s, pos + 2)) is Some {
            1 + known_records_from(s, next)
        } else {
            known_records_from(s, next)
        }
    }
}

/// Decodes a symbol stream.
pub fn decode_symbols(stream: &[u8]) -> (r: Result<Vec<SymbolRecord>, DecodeError>)
    ensures
        match r {
            Ok(v) => decoded_symbols(stream@) == Ok::<Seq<SymbolModel>, DecodeError>(symbols_view(v@)),
            Err(e) => decoded_symbols(stream@) == Err::<Seq<SymbolModel>, DecodeError>(e),
        },
{
    let mut out: Vec<SymbolRecord> = Vec::new();
    let mut pos: usize = 0;
    assert(symbols_view(out@) =~= Seq::empty());
    while pos < stream.len()
        invariant
            pos <= stream@.len(),
            decoded_symbols(stream@) == symbols_from(stream@, pos as int, symbols_view(out@)),
        decreases stream@.len() - pos,
    {
        if stream.len() - pos < 4 {
            return Err(DecodeError::TruncatedInput);
        }
        let len: usize = read_u16(stream, pos) as usize;
        if len < 2 || stream.len() - pos - 2 < len {
            return Err(DecodeError::TruncatedInput);
        }
        let next: usize = pos + 2 + len;
        let tag: u16 = read_u16(stream, pos + 2);
        match symbol_kind(tag) {
            None => {},
            Some(kind) => {
                if len < 12 {
                    return Err(DecodeError::TruncatedInput);
                }
                let first: u32 = read_u32(stream, pos + 4);
                let record = SymbolRecord {
                    name: copy_range(stream, pos + 14, next),
                    kind,
                    section_index: read_u16(stream, pos + 12),
                    section_offset: read_u32(stream, pos + 8),
                    type_ref: match kind {
                        SymbolKind::Public => None,
                        _ => Some(first),
                    },
                };
                proof {
                    assert(record@ == symbol_at(stream@, pos + 4, next as int, kind));
                    assert(symbols_view(out@.push(record)) =~= symbols_view(out@).push(record@));
                }
                out.push(record);
            },
        }
        pos = next;
    }
    Ok(out)
}

/// Decoding from `pos` on adds one symbol for each record with a known
/// tag.
pub proof fn lemma_symbol_count(s: Seq<u8>, pos: int, done: Seq<SymbolModel>)
    requires
        0 <= pos,
        symbols_from(s, pos, done) is Ok,
    ensures
        symbols_from(s, pos, done).unwrap().len() == done.len() + known_records_from(s, pos),
    decreases s.len() - pos,
{
    if pos >= s.len() {
    } else {
        let next = pos + 2 + le16(s, pos);
        match kind_of_tag(le16(s, pos + 2)) {
            None => lemma_symbol_count(s, next, done),
            Some(kind) => lemma_symbol_count(s, next, done.push(symbol_at(s, pos + 4, next, kind))),
        }
    }
}

/// A stream that decodes gives as many symbols as it has records with a
/// known tag: no record of another kind comes out as a symbol.
pub proof fn lemma_decoded_symbol_count(s: Seq<u8>)
    requires
        decoded_symbols(s) is Ok,
    ensures
        decoded_symbols(s).unwrap().len() == known_records_from(s, 0),
{
    lemma_symbol_count(s, 0, Seq::empty());
}

/// A record with a tag that is not known changes nothing but the place
/// where decoding goes on: it adds no symbol and brings no failure.
pub proof fn lemma_unknown_record_skipped(s: Seq<u8>, pos: int, done: Seq<SymbolModel>)
    requires
        0 <= pos,
        pos + 4 <= s.len(),
        le16(s, pos) >= 2,
        pos + 2 + le16(s, pos) <= s.len(),
        kind_of_tag(le16(s, pos + 2)) is None,
    ensures
        symbols_from(s, pos, done) == symbols_from(s, pos + 2 + le16(s, pos), done),
{
}

} // verus!
