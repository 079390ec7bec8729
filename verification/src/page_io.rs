//! Pages of the database file: the file header, the header of a B-tree page
//! with its cell pointers, and the pages that continue an oversized payload.

use crate::bytes::{be_unsigned, lemma_be_unsigned_bounds, lemma_pow256_values, read_be};
use crate::error::{yields, Error};
use vstd::prelude::*;
use vstd::slice::{slice_subrange, slice_to_vec};

verus! {

/// What the engine reads of the 100 bytes at the start of the file.
#[derive(Debug, Clone, Copy, PartialEq, Eq)]
pub struct DbHeader {
    pub page_size: u16,
}

/// The header of a B-tree page.
#[derive(Debug, Clone, Copy, PartialEq, Eq)]
pub struct PageHeader {
    pub page_type: u8,
    pub first_freeblock: u16,
    pub num_cells: u16,
    pub cell_content_start: u16,
    pub num_fragments: u8,
    /// The page right of all cells; interior pages have one, leaves have none.
    pub rightmost_pointer: Option<u32>,
}

/// A B-tree page as it was loaded: its bytes, its header and its cell
/// pointers. The header and the pointers are always those that the bytes spell.
#[derive(Debug)]
pub struct Page {
    offset: u64,
    header: PageHeader,
    pointer_array: Vec<u16>,
    data: Vec<u8>,
}

/// What a [`Page`] stands for.
pub struct PageView {
    /// The page's number in the file, from 1.
    pub number: u64,
    pub header: PageHeader,
    /// The offset of each cell from the start of the page.
    pub pointers: Seq<u16>,
    pub data: Seq<u8>,
}

/// A page that continues a payload: four bytes of the next page's number,
/// then payload.
pub struct OverflowPage {
    data: Vec<u8>,
}

/// The page-size field of the file header.
pub open spec fn spec_page_size(file: Seq<u8>) -> u16 {
    be_unsigned(file.subrange(16, 18)) as u16
}

/// The offset in the file at which page `p` begins.
pub open spec fn page_start(page_size: u16, p: u64) -> int {
    (p - 1) * page_size
}

/// The bytes of page `p`, where the file holds the whole page.
pub open spec fn page_bytes(file: Seq<u8>, page_size: u16, p: u64) -> Option<Seq<u8>> {
    if p == 0 || page_start(page_size, p) + page_size > file.len() {
        None
    } else {
        Some(file.subrange(page_start(page_size, p), page_start(page_size, p) + page_size))
    }
}

/// The page header at the start of `data` and its length: eight bytes, and
/// four more with the rightmost pointer where the type is interior.
pub open spec fn spec_page_header(data: Seq<u8>) -> Result<(PageHeader, usize), Error> {
    if data.len() < 8 {
        Err(Error::Decode)
    } else if data[0] == 0x02 || data[0] == 0x05 {
        if data.len() < 12 {
            Err(Error::Decode)
        } else {
            Ok(
                (
                    PageHeader {
                        page_type: data[0],
                        first_freeblock: be_unsigned(data.subrange(1, 3)) as u16,
                        num_cells: be_unsigned(data.subrange(3, 5)) as u16,
                        cell_content_start: be_unsigned(data.subrange(5, 7)) as u16,
                        num_fragments: data[7],
                        rightmost_pointer: Some(be_unsigned(data.subrange(8, 12)) as u32),
                    },
                    12usize,
                ),
            )
        }
    } else {
        Ok(
            (
                PageHeader {
                    page_type: data[0],
                    first_freeblock: be_unsigned(data.subrange(1, 3)) as u16,
                    num_cells: be_unsigned(data.subrange(3, 5)) as u16,
                    cell_content_start: be_unsigned(data.subrange(5, 7)) as u16,
                    num_fragments: data[7],
                    rightmost_pointer: None,
                },
                8usize,
            ),
        )
    }
}

/// Where the page header begins: behind the file header on page 1, at the
/// start of any other page.
pub open spec fn header_offset(number: u64) -> int {
    if number == 1 {
        100
    } else {
        0
    }
}

/// The `i`-th entry of a cell-pointer array that begins at `base`.
pub open spec fn pointer_at(data: Seq<u8>, base: int, i: int) -> u16 {
    be_unsigned(data.subrange(base + 2 * i, base + 2 * i + 2)) as u16
}

/// The page that the bytes `data` of page `number` spell: its header and one
/// pointer for each cell. An error where the header or the pointer array does
/// not fit the page, or where a pointer leads out of it.
pub open spec fn spec_parse_page(number: u64, data: Seq<u8>) -> Result<PageView, Error> {
    let h0 = header_offset(number);
    if data.len() < h0 {
        Err(Error::Decode)
    } else {
        match spec_page_header(data.skip(h0)) {
            Err(e) => Err(e),
            Ok((header, hlen)) => {
                let base = h0 + hlen;
                if base + 2 * header.num_cells > data.len() {
                    Err(Error::Decode)
                } else if exists|i: int|
                    0 <= i < header.num_cells && #[trigger] pointer_at(data, base, i)
                        >= data.len() {
                    Err(Error::Decode)
                } else {
                    Ok(
                        PageView {
                            number,
                            header,
                            pointers: Seq::new(
                                header.num_cells as nat,
                                |i: int| pointer_at(data, base, i),
                            ),
                            data,
                        },
                    )
                }
            },
        }
    }
}

/// Page `p` of the file: an I/O error where the file does not hold the whole
/// page, else what the page's bytes spell.
pub open spec fn spec_load_page(file: Seq<u8>, page_size: u16, p: u64) -> Result<
    PageView,
    Error,
> {
    match page_bytes(file, page_size, p) {
        None => Err(Error::Io),
        Some(data) => spec_parse_page(p, data),
    }
}

impl PageView {
    /// There is one pointer for each cell, and each leads into the page.
    pub open spec fn wf(self) -> bool {
        &&& self.pointers.len() == self.header.num_cells
        &&& forall|i: int| 0 <= i < self.pointers.len() ==> self.pointers[i] < self.data.len()
        &&& self.data.len() <= u16::MAX
    }

    /// The header and the pointers are what the bytes spell.
    pub open spec fn parsed(self) -> bool {
        spec_parse_page(self.number, self.data) == Ok::<PageView, Error>(self)
    }
}

/// Of every page that parses: the pointer array is as long as the header's
/// cell count says, and every pointer lies within the page.
pub proof fn lemma_parsed_page_wf(number: u64, data: Seq<u8>)
    requires
        data.len() <= u16::MAX,
    ensures
        spec_parse_page(number, data) matches Ok(page) ==> page.wf() && page.data == data
            && page.number == number,
{
    if let Ok(page) = spec_parse_page(number, data) {
        let h0 = header_offset(number);
        let (header, hlen) = spec_page_header(data.skip(h0))->Ok_0;
        let base = h0 + hlen;
        assert forall|i: int| 0 <= i < page.pointers.len() implies page.pointers[i]
            < page.data.len() by {
            assert(page.pointers[i] == pointer_at(data, base, i));
        }
    }
}

impl DbHeader {
    /// The length of the file header in bytes.
    pub open spec fn spec_len() -> u64 {
        100
    }

    /// Reads the file header: an I/O error where the file is shorter than it.
    pub fn from_file(file: &[u8]) -> (r: Result<DbHeader, Error>)
        ensures
            file@.len() < 100 ==> r == Err::<DbHeader, Error>(Error::Io),
            file@.len() >= 100 ==> r == Ok::<DbHeader, Error>(
                DbHeader { page_size: spec_page_size(file@) },
            ),
    {
        if file.len() < 100 {
            return Err(Error::Io);
        }
        proof {
            lemma_pow256_values();
            lemma_be_unsigned_bounds(file@.subrange(16, 18));
        }
        let page_size = read_be(file, 16, 2) as u16;
        Ok(DbHeader { page_size })
    }

    /// The length of the file header in bytes.
    #[verifier::when_used_as_spec(spec_len)]
    pub fn len() -> (n: u64)
        ensures
            n == 100,
    {
        100
    }
}

impl PageHeader {
    /// Whether the page type is one of the two interior types.
    pub open spec fn spec_is_interior(&self) -> bool {
        self.page_type == 0x02 || self.page_type == 0x05
    }

    /// The length of this header in bytes.
    pub open spec fn spec_len(&self) -> usize {
        if self.rightmost_pointer is Some {
            12
        } else {
            8
        }
    }

    /// Reads the page header at the start of `data`, and says how long it is.
    pub fn from_data(data: &[u8]) -> (r: Result<(PageHeader, usize), Error>)
        ensures
            r == spec_page_header(data@),
            r matches Ok((header, n)) ==> n == header.spec_len() && (
            header.rightmost_pointer is Some <==> header.spec_is_interior()),
    {
        if data.len() < 8 {
            return Err(Error::Decode);
        }
        proof {
            lemma_pow256_values();
            lemma_be_unsigned_bounds(data@.subrange(1, 3));
            lemma_be_unsigned_bounds(data@.subrange(3, 5));
            lemma_be_unsigned_bounds(data@.subrange(5, 7));
        }
        let page_type = data[0];
        let first_freeblock = read_be(data, 1, 2) as u16;
        let num_cells = read_be(data, 3, 2) as u16;
        let cell_content_start = read_be(data, 5, 2) as u16;
        let num_fragments = data[7];
        if page_type == 0x02 || page_type == 0x05 {
            if data.len() < 12 {
                return Err(Error::Decode);
            }
            proof {
                lemma_be_unsigned_bounds(data@.subrange(8, 12));
            }
            let rightmost = read_be(data, 8, 4) as u32;
            Ok(
                (
                    PageHeader {
                        page_type,
                        first_freeblock,
                        num_cells,
                        cell_content_start,
                        num_fragments,
                        rightmost_pointer: Some(rightmost),
                    },
                    12,
                ),
            )
        } else {
            Ok(
                (
                    PageHeader {
                        page_type,
                        first_freeblock,
                        num_cells,
                        cell_content_start,
                        num_fragments,
                        rightmost_pointer: None,
                    },
                    8,
                ),
            )
        }
    }

    /// The length of this header in bytes.
    #[verifier::when_used_as_spec(spec_len)]
    pub fn len(&self) -> (n: usize)
        ensures
            n == self.spec_len(),
    {
        match self.rightmost_pointer {
            Some(_) => 12,
            None => 8,
        }
    }

    /// Whether the page type is one of the two interior types.
    #[verifier::when_used_as_spec(spec_is_interior)]
    pub fn is_interior(&self) -> (b: bool)
        ensures
            b == self.spec_is_interior(),
    {
        self.page_type == 0x02 || self.page_type == 0x05
    }
}

/// The bytes of page `p`: none where the file does not hold the whole page.
pub fn page_slice<'a>(file: &'a [u8], page_size: u16, p: u64) -> (r: Option<&'a [u8]>)
    ensures
        match page_bytes(file@, page_size, p) {
            Some(bytes) => r matches Some(s) && s@ == bytes,
            None => r is None,
        },
{
    if p == 0 {
        return None;
    }
    assert((p - 1) * page_size <= 0xffff_ffff_ffff_ffff * 0xffff) by (nonlinear_arith)
        requires
            1 <= p <= 0xffff_ffff_ffff_ffff,
            page_size <= 0xffff,
    ;
    let start: u128 = (p as u128 - 1) * (page_size as u128);
    let end: u128 = start + page_size as u128;
    if end > file.len() as u128 {
        return None;
    }
    Some(slice_subrange(file, start as usize, end as usize))
}

impl View for Page {
    type V = PageView;

    closed spec fn view(&self) -> PageView {
        PageView {
            number: self.offset,
            header: self.header,
            pointers: self.pointer_array@,
            data: self.data@,
        }
    }
}

impl DeepView for Page {
    type V = PageView;

    open spec fn deep_view(&self) -> PageView {
        self@
    }
}

impl Page {
    #[verifier::type_invariant]
    spec fn well_formed(self) -> bool {
        self@.parsed() && self@.data.len() <= u16::MAX
    }

    /// Loads page `page_offset` (counted from 1) of the file.
    #[verifier::loop_isolation(false)]
    pub fn from_file(file: &[u8], page_offset: u64, dbheader: &DbHeader) -> (r: Result<
        Page,
        Error,
    >)
        ensures
            yields(r, spec_load_page(file@, dbheader.page_size, page_offset)),
            r matches Ok(page) ==> page@.wf() && page@.parsed(),
    {
        let bytes = match page_slice(file, dbheader.page_size, page_offset) {
            Some(bytes) => bytes,
            None => {
                return Err(Error::Io);
            },
        };
        let h0: usize = if page_offset == 1 {
            100
        } else {
            0
        };
        if bytes.len() < h0 {
            return Err(Error::Decode);
        }
        let tail = slice_subrange(bytes, h0, bytes.len());
        assert(tail@ =~= bytes@.skip(h0 as int));
        let (header, hlen) = match PageHeader::from_data(tail) {
            Ok(found) => found,
            Err(e) => {
                return Err(e);
            },
        };
        let base: usize = h0 + hlen;
        let n: usize = header.num_cells as usize;
        if base + 2 * n > bytes.len() {
            return Err(Error::Decode);
        }
        let mut pointer_array: Vec<u16> = Vec::new();
        let mut i: usize = 0;
        while i < n
            invariant
                i <= n,
                n == header.num_cells,
                base + 2 * n <= bytes.len(),
                bytes@.len() <= u16::MAX,
                pointer_array@.len() == i,
                forall|j: int|
                    0 <= j < i ==> pointer_array@[j] == #[trigger] pointer_at(
                        bytes@,
                        base as int,
                        j,
                    ) && pointer_array@[j] < bytes@.len(),
            decreases n - i,
        {
            proof {
                lemma_pow256_values();
                lemma_be_unsigned_bounds(bytes@.subrange(base + 2 * i, base + 2 * i + 2));
            }
            let pointer = read_be(bytes, base + 2 * i, 2) as u16;
            if pointer as usize >= bytes.len() {
                assert(pointer_at(bytes@, base as int, i as int) >= bytes@.len());
                return Err(Error::Decode);
            }
            pointer_array.push(pointer);
            i += 1;
        }
        let data = slice_to_vec(bytes);
        proof {
            assert(pointer_array@ =~= Seq::new(
                header.num_cells as nat,
                |i: int| pointer_at(bytes@, base as int, i),
            ));
            lemma_parsed_page_wf(page_offset, bytes@);
        }
        Ok(Page { offset: page_offset, header, pointer_array, data })
    }

    /// The page's header.
    pub fn header(&self) -> (h: PageHeader)
        ensures
            h == self@.header,
            self@.wf(),
            self@.parsed(),
    {
        proof {
            use_type_invariant(self);
            lemma_parsed_page_wf(self@.number, self@.data);
        }
        self.header
    }

    /// The number of cells on the page.
    pub fn num_cells(&self) -> (n: usize)
        ensures
            n == self@.header.num_cells,
            n == self@.pointers.len(),
            self@.wf(),
            self@.parsed(),
    {
        proof {
            use_type_invariant(self);
            lemma_parsed_page_wf(self@.number, self@.data);
        }
        self.header.num_cells as usize
    }

    /// The page's number in the file.
    pub fn number(&self) -> (n: u64)
        ensures
            n == self@.number,
    {
        self.offset
    }

    /// The offset of cell `i` from the start of the page.
    pub fn cell_pointer(&self, i: usize) -> (p: u16)
        requires
            i < self@.pointers.len(),
        ensures
            p == self@.pointers[i as int],
            p < self@.data.len(),
    {
        proof {
            use_type_invariant(self);
            lemma_parsed_page_wf(self@.number, self@.data);
        }
        self.pointer_array[i]
    }

    /// The page's bytes.
    pub fn data(&self) -> (d: &[u8])
        ensures
            d@ == self@.data,
            d@.len() <= u16::MAX,
    {
        proof {
            use_type_invariant(self);
        }
        self.data.as_slice()
    }
}

impl OverflowPage {
    /// The page's bytes.
    pub closed spec fn bytes(&self) -> Seq<u8> {
        self.data@
    }

    /// Loads page `page_offset` (counted from 1) of the file as a page that
    /// continues a payload.
    pub fn from_file(file: &[u8], page_offset: u64, dbheader: &DbHeader) -> (r: Result<
        OverflowPage,
        Error,
    >)
        ensures
            match page_bytes(file@, dbheader.page_size, page_offset) {
                Some(bytes) => r matches Ok(page) && page.bytes() == bytes,
                None => r matches Err(e) && e == Error::Io,
            },
    {
        match page_slice(file, dbheader.page_size, page_offset) {
            Some(bytes) => Ok(OverflowPage { data: slice_to_vec(bytes) }),
            None => Err(Error::Io),
        }
    }

    /// The page's bytes.
    pub fn data(&self) -> (d: &[u8])
        ensures
            d@ == self.bytes(),
    {
        self.data.as_slice()
    }
}

} // verus!
