use vstd::prelude::*;
use crate::error::DecodeError;
use crate::wire::{le32, read_u32};

verus! {

/// The length of the header in bytes.
pub const HEADER_LEN: usize = 20;

/// One stream of the directory: its length in bytes and the pages that
/// hold it, in order.
#[derive(Clone, Debug, PartialEq, Eq)]
pub struct Stream {
    pub length: u32,
    pub pages: Vec<u32>,
}

pub struct StreamModel {
    pub length: u32,
    pub pages: Seq<u32>,
}

impl View for Stream {
    type V = StreamModel;

    open spec fn view(&self) -> StreamModel {
        StreamModel { length: self.length, pages: self.pages@ }
    }
}

pub open spec fn streams_view(v: Seq<Stream>) -> Seq<StreamModel> {
    Seq::new(v.len(), |i: int| v[i]@)
}

/// A container as a mathematical value: the bytes it was read from, and
/// what its header and directory say.
pub struct ContainerModel {
    pub data: Seq<u8>,
    pub page_size: u32,
    pub page_count: u32,
    pub streams: Seq<StreamModel>,
}

impl ContainerModel {
    /// The bytes of stream `index`, gathered from its pages.
    pub open spec fn stream_bytes(self, index: int) -> Seq<u8> {
        let st = self.streams[index];
        Seq::new(
            st.length as nat,
            |k: int| self.data[st.pages[k / (self.page_size as int)] * self.page_size + k % (self.page_size as int)],
        )
    }
}

/// The four bytes that every container starts with: `MSF7`.
pub open spec fn has_signature(s: Seq<u8>) -> bool {
    s[0] == 0x4D && s[1] == 0x53 && s[2] == 0x46 && s[3] == 0x37
}

/// The page sizes accepted: the powers of two from 512 to 65536.
pub open spec fn supported_page_size(p: int) -> bool {
    p == 512 || p == 1024 || p == 2048 || p == 4096 || p == 8192 || p == 16384 || p == 32768 || p == 65536
}

/// How many pages a stream of `length` bytes takes.
pub open spec fn pages_needed(length: int, page_size: int) -> int {
    (length + page_size - 1) / page_size
}

/// Whether a stream fits the container that lists it.
pub open spec fn stream_ok(st: StreamModel, page_size: int, page_count: int, data_len: int) -> bool {
    &&& st.length <= data_len
    &&& st.pages.len() == pages_needed(st.length as int, page_size)
    &&& forall|k: int| 0 <= k < st.pages.len() ==> (#[trigger] st.pages[k]) < page_count
}

/// The `count` page indices written from `pos` on, after `done`. None may
/// lie at or past `end`, and each must name a page of the container.
pub open spec fn pages_from(s: Seq<u8>, pos: int, end: int, count: int, page_count: int, done: Seq<u32>) -> Result<
    Seq<u32>,
    DecodeError,
>
    decreases count,
{
    if count <= 0 {
        Ok(done)
    } else if pos + 4 > end {
        Err(DecodeError::TruncatedInput)
    } else if le32(s, pos) >= page_count {
        Err(DecodeError::OutOfRange)
    } else {
        pages_from(s, pos + 4, end, count - 1, page_count, done.push(le32(s, pos) as u32))
    }
}

/// The `count` directory entries written from `pos` on, after `done`: each
/// is the stream's length and then its pages.
pub open spec fn streams_from(
    s: Seq<u8>,
    pos: int,
    end: int,
    count: int,
    page_size: int,
    page_count: int,
    done: Seq<StreamModel>,
) -> Result<Seq<StreamModel>, DecodeError>
    decreases count,
{
    if count <= 0 {
        Ok(done)
    } else if pos + 4 > end {
        Err(DecodeError::TruncatedInput)
    } else if le32(s, pos) > s.len() {
        Err(DecodeError::TruncatedInput)
    } else {
        let n = pages_needed(le32(s, pos), page_size);
        match pages_from(s, pos + 4, end, n, page_count, Seq::empty()) {
            Err(e) => Err(e),
            Ok(pages) => streams_from(
                s,
                pos + 4 + 4 * n,
                end,
                count - 1,
                page_size,
                page_count,
                done.push(StreamModel { length: le32(s, pos) as u32, pages }),
            ),
        }
    }
}

/// What a buffer holds as a container. The header is the signature, the
/// page size, the number of pages, the page where the directory starts and
/// the directory's length in bytes; the directory is the number of streams
/// and then one entry for each.
pub open spec fn parsed_container(s: Seq<u8>) -> Result<ContainerModel, DecodeError> {
    let page_size = le32(s, 4);
    let page_count = le32(s, 8);
    let dir_start = le32(s, 12) * page_size;
    let dir_end = dir_start + le32(s, 16);
    if s.len() < 20 {
        Err(DecodeError::TruncatedInput)
    } else if !has_signature(s) || !supported_page_size(page_size) {
        Err(DecodeError::MalformedContainer)
    } else if page_count * page_size > s.len() {
        Err(DecodeError::TruncatedInput)
    } else if le32(s, 12) >= page_count {
        Err(DecodeError::OutOfRange)
    } else if le32(s, 16) < 4 || dir_end > page_count * page_size {
        Err(DecodeError::TruncatedInput)
    } else {
        match streams_from(s, dir_start + 4, dir_end, le32(s, dir_start), page_size, page_count, Seq::empty()) {
            Err(e) => Err(e),
            Ok(streams) => Ok(
                ContainerModel { data: s, page_size: page_size as u32, page_count: page_count as u32, streams },
            ),
        }
    }
}

/// The entries that are read declare no more bytes than the buffer has.
pub proof fn lemma_streams_fit(
    s: Seq<u8>,
    pos: int,
    end: int,
    count: int,
    page_size: int,
    page_count: int,
    done: Seq<StreamModel>,
)
    requires
        forall|i: int| 0 <= i < done.len() ==> (#[trigger] done[i]).length <= s.len(),
    ensures
        streams_from(s, pos, end, count, page_size, page_count, done) matches Ok(streams) ==> forall|i: int|
            0 <= i < streams.len() ==> (#[trigger] streams[i]).length <= s.len(),
    decreases count,
{
    if count > 0 && pos + 4 <= end && le32(s, pos) <= s.len() {
        let n = pages_needed(le32(s, pos), page_size);
        match pages_from(s, pos + 4, end, n, page_count, Seq::empty()) {
            Err(e) => {},
            Ok(pages) => {
                lemma_streams_fit(
                    s,
                    pos + 4 + 4 * n,
                    end,
                    count - 1,
                    page_size,
                    page_count,
                    done.push(StreamModel { length: le32(s, pos) as u32, pages }),
                );
            },
        }
    }
}

/// A buffer that opens as a container holds no stream that declares more
/// bytes than the buffer has: such a buffer is refused.
pub proof fn lemma_declared_lengths_fit(s: Seq<u8>)
    ensures
        parsed_container(s) matches Ok(c) ==> forall|i: int|
            0 <= i < c.streams.len() ==> (#[trigger] c.streams[i]).length <= s.len(),
{
    let page_size = le32(s, 4);
    let dir_start = le32(s, 12) * page_size;
    lemma_streams_fit(
        s,
        dir_start + 4,
        dir_start + le32(s, 16),
        le32(s, dir_start),
        page_size,
        le32(s, 8),
        Seq::empty(),
    );
}

/// Whether `p` is a page size that this reader accepts.
pub fn is_supported_page_size(p: u32) -> (r: bool)
    ensures
        r == supported_page_size(p as int),
{
    p == 512 || p == 1024 || p == 2048 || p == 4096 || p == 8192 || p == 16384 || p == 32768 || p == 65536
}

/// Reads `count` page indices from `start` on.
pub fn read_pages(data: &[u8], start: usize, end: usize, count: u32, page_count: u32) -> (r: Result<
    Vec<u32>,
    DecodeError,
>)
    requires
        start <= end <= data@.len(),
    ensures
        match r {
            Ok(v) => {
                &&& pages_from(data@, start as int, end as int, count as int, page_count as int, Seq::empty())
                    == Ok::<Seq<u32>, DecodeError>(v@)
                &&& v@.len() == count
                &&& start + 4 * count <= end
                &&& forall|k: int| 0 <= k < v@.len() ==> (#[trigger] v@[k]) < page_count
            },
            Err(e) => pages_from(data@, start as int, end as int, count as int, page_count as int, Seq::empty())
                == Err::<Seq<u32>, DecodeError>(e),
        },
{
    let mut out: Vec<u32> = Vec::new();
    let mut pos: usize = start;
    let mut i: u32 = 0;
    while i < count
        invariant
            i <= count,
            pos == start + 4 * i,
            pos <= end <= data@.len(),
            out@.len() == i,
            forall|k: int| 0 <= k < out@.len() ==> (#[trigger] out@[k]) < page_count,
            pages_from(data@, start as int, end as int, count as int, page_count as int, Seq::empty())
                == pages_from(data@, pos as int, end as int, count - i, page_count as int, out@),
        decreases count - i,
    {
        if end - pos < 4 {
            return Err(DecodeError::TruncatedInput);
        }
        let page: u32 = read_u32(data, pos);
        if page >= page_count {
            return Err(DecodeError::OutOfRange);
        }
        out.push(page);
        pos = pos + 4;
        i = i + 1;
    }
    Ok(out)
}

/// Reads `count` directory entries from `start` on.
pub fn read_streams(data: &[u8], start: usize, end: usize, count: u32, page_size: u32, page_count: u32) -> (r:
    Result<Vec<Stream>, DecodeError>)
    requires
        start <= end <= data@.len(),
        supported_page_size(page_size as int),
    ensures
        match r {
            Ok(v) => {
                &&& streams_from(
                    data@,
                    start as int,
                    end as int,
                    count as int,
                    page_size as int,
                    page_count as int,
                    Seq::empty(),
                ) == Ok::<Seq<StreamModel>, DecodeError>(streams_view(v@))
                &&& forall|j: int|
                    0 <= j < v@.len() ==> stream_ok(
                        #[trigger] streams_view(v@)[j],
                        page_size as int,
                        page_count as int,
                        data@.len() as int,
                    )
            },
            Err(e) => streams_from(
                data@,
                start as int,
                end as int,
                count as int,
                page_size as int,
                page_count as int,
                Seq::empty(),
            ) == Err::<Seq<StreamModel>, DecodeError>(e),
        },
{
    let mut out: Vec<Stream> = Vec::new();
    let mut pos: usize = start;
    let mut i: u32 = 0;
    assert(streams_view(out@) =~= Seq::empty());
    while i < count
        invariant
            i <= count,
            start <= pos <= end <= data@.len(),
            supported_page_size(page_size as int),
            forall|j: int|
                0 <= j < out@.len() ==> stream_ok(
                    #[trigger] streams_view(out@)[j],
                    page_size as int,
                    page_count as int,
                    data@.len() as int,
                ),
            streams_from(
                data@,
                start as int,
                end as int,
                count as int,
                page_size as int,
                page_count as int,
                Seq::empty(),
            ) == streams_from(
                data@,
                pos as int,
                end as int,
                count - i,
                page_size as int,
                page_count as int,
                streams_view(out@),
            ),
        decreases count - i,
    {
        if end - pos < 4 {
            return Err(DecodeError::TruncatedInput);
        }
        let length: u32 = read_u32(data, pos);
        if length as usize > data.len() {
            return Err(DecodeError::TruncatedInput);
        }
        let needed: u32 = ((length as u64 + page_size as u64 - 1) / (page_size as u64)) as u32;
        match read_pages(data, pos + 4, end, needed, page_count) {
            Err(e) => {
                return Err(e);
            },
            Ok(pages) => {
                let stream = Stream { length, pages };
                proof {
                    assert(streams_view(out@.push(stream)) =~= streams_view(out@).push(stream@));
                }
                out.push(stream);
                pos = pos + 4 + 4 * (needed as usize);
                i = i + 1;
            },
        }
    }
    Ok(out)
}

/// An opened container: the buffer, and its header and directory, checked.
pub struct Container {
    data: Vec<u8>,
    page_size: u32,
    page_count: u32,
    streams: Vec<Stream>,
}

impl View for Container {
    type V = ContainerModel;

    closed spec fn view(&self) -> ContainerModel {
        ContainerModel {
            data: self.data@,
            page_size: self.page_size,
            page_count: self.page_count,
            streams: streams_view(self.streams@),
        }
    }
}

/// A stream's byte `k` lies in the page listed for it, and that page lies
/// within the pages of the container.
proof fn lemma_page_slot(k: int, length: int, page_size: int)
    requires
        0 <= k < length,
        page_size > 0,
    ensures
        0 <= k / page_size < pages_needed(length, page_size),
        0 <= k % page_size < page_size,
{
    vstd::arithmetic::div_mod::lemma_fundamental_div_mod(k, page_size);
    vstd::arithmetic::div_mod::lemma_fundamental_div_mod(length + page_size - 1, page_size);
    vstd::arithmetic::div_mod::lemma_mod_bound(k, page_size);
    vstd::arithmetic::div_mod::lemma_mod_bound(length + page_size - 1, page_size);
    vstd::arithmetic::div_mod::lemma_div_pos_is_pos(k, page_size);
    let a = k / page_size;
    let b = (length + page_size - 1) / page_size;
    assert(a < b) by (nonlinear_arith)
        requires
            k == page_size * a + k % page_size,
            length + page_size - 1 == page_size * b + (length + page_size - 1) % page_size,
            0 <= k % page_size < page_size,
            0 <= (length + page_size - 1) % page_size < page_size,
            k < length,
            page_size > 0,
    ;
}

proof fn lemma_page_within(page: int, page_count: int, page_size: int, rem: int)
    by (nonlinear_arith)
    requires
        0 <= page < page_count,
        0 <= rem < page_size,
    ensures
        0 <= page * page_size + rem < page_count * page_size,
        0 <= page * page_size,
{
}

impl Container {
    #[verifier::type_invariant]
    spec fn inv(self) -> bool {
        &&& supported_page_size(self.page_size as int)
        &&& self.page_count * self.page_size <= self.data@.len()
        &&& forall|j: int|
            0 <= j < self.streams@.len() ==> stream_ok(
                #[trigger] streams_view(self.streams@)[j],
                self.page_size as int,
                self.page_count as int,
                self.data@.len() as int,
            )
    }

    /// Opens a container: checks the header and reads the directory.
    pub fn open(bytes: Vec<u8>) -> (r: Result<Container, DecodeError>)
        ensures
            match r {
                Ok(c) => parsed_container(bytes@) == Ok::<ContainerModel, DecodeError>(c@),
                Err(e) => parsed_container(bytes@) == Err::<ContainerModel, DecodeError>(e),
            },
    {
        if bytes.len() < HEADER_LEN {
            return Err(DecodeError::TruncatedInput);
        }
        let signed: bool = bytes[0] == 0x4D && bytes[1] == 0x53 && bytes[2] == 0x46 && bytes[3] == 0x37;
        let page_size: u32 = read_u32(bytes.as_slice(), 4);
        if !signed || !is_supported_page_size(page_size) {
            return Err(DecodeError::MalformedContainer);
        }
        let page_count: u32 = read_u32(bytes.as_slice(), 8);
        let dir_page: u32 = read_u32(bytes.as_slice(), 12);
        let dir_len: u32 = read_u32(bytes.as_slice(), 16);
        assert(page_count * page_size <= 0xFFFF_FFFF * 65536) by (nonlinear_arith)
            requires
                page_count <= 0xFFFF_FFFF,
                page_size <= 65536,
        ;
        assert(0 <= dir_page * page_size <= 0xFFFF_FFFF * 65536) by (nonlinear_arith)
            requires
                dir_page <= 0xFFFF_FFFF,
                page_size <= 65536,
        ;
        let total: u64 = (page_count as u64) * (page_size as u64);
        if total > bytes.len() as u64 {
            return Err(DecodeError::TruncatedInput);
        }
        if dir_page >= page_count {
            return Err(DecodeError::OutOfRange);
        }
        let dir_start: u64 = (dir_page as u64) * (page_size as u64);
        let dir_end: u64 = dir_start + dir_len as u64;
        if dir_len < 4 || dir_end > total {
            return Err(DecodeError::TruncatedInput);
        }
        let start: usize = dir_start as usize;
        let end: usize = dir_end as usize;
        let count: u32 = read_u32(bytes.as_slice(), start);
        match read_streams(bytes.as_slice(), start + 4, end, count, page_size, page_count) {
            Err(e) => Err(e),
            Ok(streams) => Ok(Container { data: bytes, page_size, page_count, streams }),
        }
    }

    /// The size of a page in bytes.
    pub fn page_size(&self) -> (r: u32)
        ensures
            r == self@.page_size,
    {
        self.page_size
    }

    /// How many pages the container has.
    pub fn page_count(&self) -> (r: u32)
        ensures
            r == self@.page_count,
    {
        self.page_count
    }

    /// How many streams the directory lists.
    pub fn stream_count(&self) -> (r: usize)
        ensures
            r == self@.streams.len(),
    {
        self.streams.len()
    }

    /// The length that the directory declares for stream `index`.
    pub fn stream_length(&self, index: usize) -> (r: Option<u32>)
        ensures
            r == if index < self@.streams.len() {
                Some(self@.streams[index as int].length)
            } else {
                None
            },
    {
        if index < self.streams.len() {
            Some(self.streams[index].length)
        } else {
            None
        }
    }

    /// Reads stream `index` as one run of bytes. Every stream of the
    /// directory can be read, and comes out with its declared length.
    pub fn read_stream(&self, index: usize) -> (r: Result<Vec<u8>, DecodeError>)
        ensures
            match r {
                Ok(v) => {
                    &&& index < self@.streams.len()
                    &&& v@ == self@.stream_bytes(index as int)
                    &&& v@.len() == self@.streams[index as int].length
                },
                Err(e) => index >= self@.streams.len() && e == DecodeError::OutOfRange,
            },
    {
        proof {
            use_type_invariant(self);
        }
        if index >= self.streams.len() {
            return Err(DecodeError::OutOfRange);
        }
        let stream = &self.streams[index];
        let page_size: usize = self.page_size as usize;
        let length: usize = stream.length as usize;
        let limit: usize = self.data.len();
        let mut out: Vec<u8> = Vec::new();
        let mut k: usize = 0;
        assert(streams_view(self.streams@)[index as int] == stream@);
        while k < length
            invariant
                k <= length,
                length == stream.length,
                page_size == self.page_size,
                index < self.streams@.len(),
                stream@ == streams_view(self.streams@)[index as int],
                supported_page_size(self.page_size as int),
                self.page_count * self.page_size <= self.data@.len() == limit,
                stream_ok(stream@, self.page_size as int, self.page_count as int, self.data@.len() as int),
                out@ == self@.stream_bytes(index as int).subrange(0, k as int),
            decreases length - k,
        {
            proof {
                lemma_page_slot(k as int, length as int, page_size as int);
            }
            let page: usize = stream.pages[k / page_size] as usize;
            proof {
                lemma_page_within(page as int, self.page_count as int, self.page_size as int, (k % page_size) as int);
            }
            let at: usize = page * page_size + k % page_size;
            out.push(self.data[at]);
            k += 1;
            assert(out@ =~= self@.stream_bytes(index as int).subrange(0, k as int));
        }
        assert(out@ =~= self@.stream_bytes(index as int));
        Ok(out)
    }
}

} // verus!
