use vstd::prelude::*;

verus! {

/// The little-endian 16-bit number stored at `at`.
pub open spec fn le16(s: Seq<u8>, at: int) -> int {
    s[at] as int + 256 * (s[at + 1] as int)
}

/// The little-endian 32-bit number stored at `at`.
pub open spec fn le32(s: Seq<u8>, at: int) -> int {
    s[at] as int + 256 * (s[at + 1] as int) + 65536 * (s[at + 2] as int) + 16777216 * (s[at + 3] as int)
}

/// Reads the little-endian 16-bit number stored at `at`.
pub fn read_u16(bytes: &[u8], at: usize) -> (r: u16)
    requires
        at + 2 <= bytes@.len(),
    ensures
        r as int == le16(bytes@, at as int),
{
    let lo: u16 = bytes[at] as u16;
    let hi: u16 = bytes[at + 1] as u16;
    lo + 256 * hi
}

/// Reads the little-endian 32-bit number stored at `at`.
pub fn read_u32(bytes: &[u8], at: usize) -> (r: u32)
    requires
        at + 4 <= bytes@.len(),
    ensures
        r as int == le32(bytes@, at as int),
{
    let b0: u32 = bytes[at] as u32;
    let b1: u32 = bytes[at + 1] as u32;
    let b2: u32 = bytes[at + 2] as u32;
    let b3: u32 = bytes[at + 3] as u32;
    b0 + 256 * b1 + 65536 * b2 + 16777216 * b3
}

/// A copy of the bytes from `from` up to, not including, `to`.
pub fn copy_range(bytes: &[u8], from: usize, to: usize) -> (v: Vec<u8>)
    requires
        from <= to <= bytes@.len(),
    ensures
        v@ == bytes@.subrange(from as int, to as int),
{
    let mut v: Vec<u8> = Vec::new();
    let mut i: usize = from;
    while i < to
        invariant
            from <= i <= to <= bytes@.len(),
            v@ == bytes@.subrange(from as int, i as int),
        decreases to - i,
    {
        v.push(bytes[i]);
        i += 1;
        assert(v@ =~= bytes@.subrange(from as int, i as int));
    }
    v
}

/// Whether two byte strings hold the same bytes.
pub fn same_bytes(a: &[u8], b: &[u8]) -> (r: bool)
    ensures
        r == (a@ == b@),
{
    if a.len() != b.len() {
        return false;
    }
    let mut i: usize = 0;
    while i < a.len()
        invariant
            a@.len() == b@.len(),
            i <= a@.len(),
            forall|k: int| 0 <= k < i ==> a@[k] == b@[k],
        decreases a@.len() - i,
    {
        if a[i] != b[i] {
            return false;
        }
        i += 1;
    }
    assert(a@ =~= b@);
    true
}

/// Whether a name, written with its length in one byte before it, lies
/// wholly before `end`.
pub open spec fn name_fits(s: Seq<u8>, at: int, end: int) -> bool {
    at + 1 <= end && at + 1 + s[at] as int <= end
}

/// The name written at `at`.
pub open spec fn name_at(s: Seq<u8>, at: int) -> Seq<u8> {
    s.subrange(at + 1, at + 1 + s[at] as int)
}

/// Where the bytes after the name written at `at` begin.
pub open spec fn name_next(s: Seq<u8>, at: int) -> int {
    at + 1 + s[at] as int
}

/// Reads the name written at `at`, if it lies before `end`.
pub fn read_name(bytes: &[u8], at: usize, end: usize) -> (r: Option<Vec<u8>>)
    requires
        at <= end <= bytes@.len(),
    ensures
        r is Some <==> name_fits(bytes@, at as int, end as int),
        r matches Some(v) ==> v@ == name_at(bytes@, at as int),
{
    if end - at < 1 {
        return None;
    }
    let n: usize = bytes[at] as usize;
    if end - at - 1 < n {
        return None;
    }
    Some(copy_range(bytes, at + 1, at + 1 + n))
}

} // verus!
