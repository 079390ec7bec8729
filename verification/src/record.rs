//! Cells and records: from a cell of a page to the column values of its
//! record, through the overflow pages where the payload does not fit.

use crate::bytes::{be_unsigned, lemma_be_unsigned_bounds, lemma_pow256_values, read_be};
use crate::error::{gives, prepend, yields, Error};
use crate::page_io::{page_bytes, DbHeader, OverflowPage, Page, PageView};
use crate::typecodes::{decode_serial_types, spec_serial_types, Datum, SqlValue, TypeCode};
use crate::utils::{decode_varint, spec_decode_varint};
use vstd::prelude::*;
use vstd::slice::{slice_subrange, slice_to_vec};

verus! {

/// The three shapes of cell that hold a record.
#[derive(Debug, Clone, Copy, PartialEq, Eq, Structural)]
pub enum CellShape {
    /// Payload size, row-id, payload.
    TableLeaf,
    /// Payload size, payload.
    IndexLeaf,
    /// Left child page, payload size, payload.
    IndexInterior,
}

/// What stands in a cell before the payload, besides the payload's size.
#[derive(Debug, Clone, Copy, PartialEq, Eq, Structural)]
pub enum RecordStart {
    Nothing,
    RowId(u64),
    LeftPage(u32),
}

/// One record: what its cell began with, and its column values in order.
#[derive(Debug, PartialEq, Eq)]
pub struct Record {
    pub record_start: RecordStart,
    pub payload_size: u64,
    pub values: Vec<SqlValue>,
}

/// What a [`Record`] stands for.
pub struct RecordView {
    pub record_start: RecordStart,
    pub payload_size: u64,
    pub values: Seq<Datum>,
}

impl RecordView {
    /// The row-id of a record from a table leaf.
    pub open spec fn rowid(self) -> Option<u64> {
        match self.record_start {
            RecordStart::RowId(rowid) => Some(rowid),
            _ => None,
        }
    }

    /// The left child page of a record from an index interior page.
    pub open spec fn left_page(self) -> Option<u32> {
        match self.record_start {
            RecordStart::LeftPage(left_page) => Some(left_page),
            _ => None,
        }
    }
}

impl View for Record {
    type V = RecordView;

    open spec fn view(&self) -> RecordView {
        RecordView {
            record_start: self.record_start,
            payload_size: self.payload_size,
            values: self.values.deep_view(),
        }
    }
}

impl DeepView for Record {
    type V = RecordView;

    open spec fn deep_view(&self) -> RecordView {
        self@
    }
}

impl DeepView for SqlValue {
    type V = Datum;

    open spec fn deep_view(&self) -> Datum {
        self@
    }
}

impl Record {
    /// The row-id of a record from a table leaf.
    pub fn rowid(&self) -> (r: Option<u64>)
        ensures
            r == self@.rowid(),
    {
        match self.record_start {
            RecordStart::RowId(rowid) => Some(rowid),
            _ => None,
        }
    }

    /// The left child page of a record from an index interior page.
    pub fn left_page(&self) -> (r: Option<u32>)
        ensures
            r == self@.left_page(),
    {
        match self.record_start {
            RecordStart::LeftPage(left_page) => Some(left_page),
            _ => None,
        }
    }
}

/// What the cell at `off` begins with under `shape`: the record start, the
/// payload's size, and the offset at which the payload begins.
pub open spec fn cell_prefix(data: Seq<u8>, off: int, shape: CellShape) -> Result<
    (RecordStart, u64, int),
    Error,
> {
    match shape {
        CellShape::IndexLeaf => match spec_decode_varint(data.skip(off)) {
            Some((size, n)) => Ok((RecordStart::Nothing, size as u64, off + n)),
            None => Err(Error::Decode),
        },
        CellShape::TableLeaf => match spec_decode_varint(data.skip(off)) {
            Some((size, n)) => match spec_decode_varint(data.skip(off + n)) {
                Some((rowid, m)) => Ok((RecordStart::RowId(rowid as u64), size as u64, off + n + m)),
                None => Err(Error::Decode),
            },
            None => Err(Error::Decode),
        },
        CellShape::IndexInterior => if off + 4 > data.len() {
            Err(Error::Decode)
        } else {
            match spec_decode_varint(data.skip(off + 4)) {
                Some((size, n)) => Ok(
                    (
                        RecordStart::LeftPage(be_unsigned(data.subrange(off, off + 4)) as u32),
                        size as u64,
                        off + 4 + n,
                    ),
                ),
                None => Err(Error::Decode),
            }
        },
    }
}

/// The `residual` bytes of payload that the overflow chain from `page` on
/// holds: each page gives its bytes behind the first four, which name the next
/// page. An error where the chain ends (page 0) or leaves the file before the
/// bytes are together, or where a page is too small to hold any.
pub open spec fn spec_overflow(file: Seq<u8>, page_size: u16, page: u64, residual: nat) -> Result<
    Seq<u8>,
    Error,
>
    decreases residual,
{
    if residual == 0 {
        Ok(Seq::empty())
    } else if page_size <= 4 || page == 0 {
        Err(Error::Decode)
    } else {
        match page_bytes(file, page_size, page) {
            None => Err(Error::Io),
            Some(bytes) => {
                let take: int = if residual <= page_size - 4 {
                    residual as int
                } else {
                    page_size - 4
                };
                prepend(
                    bytes.subrange(4, 4 + take),
                    spec_overflow(
                        file,
                        page_size,
                        be_unsigned(bytes.subrange(0, 4)) as u64,
                        (residual - take) as nat,
                    ),
                )
            },
        }
    }
}

/// The payload of `payload_size` bytes that begins at `payload_start` on the
/// page `data`. Where it fits between there and the end of the page, it is
/// those bytes. Where it does not, the last four bytes of the page name the
/// first overflow page, the bytes before them are the payload's beginning,
/// and the overflow chain holds the rest. A payload larger than the file is
/// an error.
pub open spec fn cell_payload(
    file: Seq<u8>,
    page_size: u16,
    data: Seq<u8>,
    payload_start: int,
    payload_size: u64,
) -> Result<Seq<u8>, Error> {
    let on_page = data.len() - payload_start;
    if payload_size <= on_page {
        Ok(data.subrange(payload_start, payload_start + payload_size))
    } else if payload_size > file.len() || on_page < 4 {
        Err(Error::Decode)
    } else {
        prepend(
            data.subrange(payload_start, data.len() - 4),
            spec_overflow(
                file,
                page_size,
                be_unsigned(data.subrange(data.len() - 4, data.len() as int)) as u64,
                (payload_size - (on_page - 4)) as nat,
            ),
        )
    }
}

/// The values that the columns of the serial types `types` have in `bytes`,
/// one behind the other.
pub open spec fn spec_columns(types: Seq<TypeCode>, bytes: Seq<u8>) -> Result<Seq<Datum>, Error>
    decreases types.len(),
{
    if types.len() == 0 {
        Ok(Seq::empty())
    } else {
        match types[0].spec_decode(bytes) {
            Err(e) => Err(e),
            Ok(d) => prepend(
                seq![d],
                spec_columns(types.skip(1), bytes.skip(types[0].spec_size() as int)),
            ),
        }
    }
}

/// The column values of the record `payload`: a varint gives the header's
/// length, its own bytes counted; the rest of the header holds the serial
/// types; the column bodies follow the header.
pub open spec fn spec_parse_record(payload: Seq<u8>) -> Result<Seq<Datum>, Error> {
    match spec_decode_varint(payload) {
        None => Err(Error::Decode),
        Some((header_len, n)) => if header_len < n || header_len > payload.len() {
            Err(Error::Decode)
        } else {
            match spec_serial_types(payload.subrange(n as int, header_len as int)) {
                Err(e) => Err(e),
                Ok(types) => spec_columns(types, payload.skip(header_len as int)),
            }
        },
    }
}

/// The record of the cell at offset `off` of the page `data`.
pub open spec fn spec_read_cell(
    file: Seq<u8>,
    page_size: u16,
    data: Seq<u8>,
    off: int,
    shape: CellShape,
) -> Result<RecordView, Error> {
    match cell_prefix(data, off, shape) {
        Err(e) => Err(e),
        Ok((record_start, payload_size, payload_start)) => match cell_payload(
            file,
            page_size,
            data,
            payload_start,
            payload_size,
        ) {
            Err(e) => Err(e),
            Ok(payload) => match spec_parse_record(payload) {
                Err(e) => Err(e),
                Ok(values) => Ok(RecordView { record_start, payload_size, values }),
            },
        },
    }
}

/// The record of cell `cell_index` of `page`.
pub open spec fn spec_read_record(
    file: Seq<u8>,
    page_size: u16,
    page: PageView,
    cell_index: int,
    shape: CellShape,
) -> Result<RecordView, Error> {
    spec_read_cell(file, page_size, page.data, page.pointers[cell_index] as int, shape)
}

/// Whether the payload of the cell at `off` lies on its page as a whole.
pub open spec fn cell_is_local(data: Seq<u8>, off: int, shape: CellShape) -> bool {
    cell_prefix(data, off, shape) matches Ok((_, payload_size, payload_start)) && payload_size
        <= data.len() - payload_start
}

/// A cell whose payload lies on its page is read from the page alone: the
/// rest of the file has no part in its record, and the payload lies within
/// the page's bytes.
pub proof fn lemma_local_cell_reads_page_only(
    file_a: Seq<u8>,
    file_b: Seq<u8>,
    size_a: u16,
    size_b: u16,
    data: Seq<u8>,
    off: int,
    shape: CellShape,
)
    requires
        0 <= off < data.len(),
        cell_is_local(data, off, shape),
    ensures
        spec_read_cell(file_a, size_a, data, off, shape) == spec_read_cell(
            file_b,
            size_b,
            data,
            off,
            shape,
        ),
        cell_prefix(data, off, shape) matches Ok((_, payload_size, payload_start)) && off
            <= payload_start && payload_start + payload_size <= data.len(),
{
    lemma_cell_prefix_bounds(data, off, shape);
}

/// The payload of a cell begins behind the cell's offset and within the page.
pub proof fn lemma_cell_prefix_bounds(data: Seq<u8>, off: int, shape: CellShape)
    requires
        0 <= off <= data.len(),
    ensures
        cell_prefix(data, off, shape) matches Ok((_, _, payload_start)) ==> off < payload_start
            <= data.len(),
{
    crate::utils::lemma_varint_bounds(data.skip(off));
    match shape {
        CellShape::IndexLeaf => {},
        CellShape::TableLeaf => {
            if let Some((size, n)) = spec_decode_varint(data.skip(off)) {
                crate::utils::lemma_varint_bounds(data.skip(off + n));
            }
        },
        CellShape::IndexInterior => {
            if off + 4 <= data.len() {
                crate::utils::lemma_varint_bounds(data.skip(off + 4));
            }
        },
    }
}

/// Reads what the cell at `off` begins with under `shape`.
pub fn read_cell_prefix(data: &[u8], off: usize, shape: CellShape) -> (r: Result<
    (RecordStart, u64, usize),
    Error,
>)
    requires
        off <= data@.len(),
    ensures
        match cell_prefix(data@, off as int, shape) {
            Ok((start, size, at)) => r == Ok::<(RecordStart, u64, usize), Error>(
                (start, size, at as usize),
            ) && off < at <= data@.len(),
            Err(e) => r == Err::<(RecordStart, u64, usize), Error>(e),
        },
{
    proof {
        lemma_cell_prefix_bounds(data@, off as int, shape);
    }
    match shape {
        CellShape::IndexLeaf => {
            let rest = slice_subrange(data, off, data.len());
            assert(rest@ =~= data@.skip(off as int));
            match decode_varint(rest) {
                Ok((size, n)) => Ok((RecordStart::Nothing, size, off + n)),
                Err(_) => Err(Error::Decode),
            }
        },
        CellShape::TableLeaf => {
            let rest = slice_subrange(data, off, data.len());
            assert(rest@ =~= data@.skip(off as int));
            match decode_varint(rest) {
                Ok((size, n)) => {
                    let rest = slice_subrange(data, off + n, data.len());
                    assert(rest@ =~= data@.skip(off + n));
                    match decode_varint(rest) {
                        Ok((rowid, m)) => Ok((RecordStart::RowId(rowid), size, off + n + m)),
                        Err(_) => Err(Error::Decode),
                    }
                },
                Err(_) => Err(Error::Decode),
            }
        },
        CellShape::IndexInterior => {
            if data.len() - off < 4 {
                return Err(Error::Decode);
            }
            proof {
                lemma_pow256_values();
                lemma_be_unsigned_bounds(data@.subrange(off as int, off + 4));
            }
            let left = read_be(data, off, 4) as u32;
            let rest = slice_subrange(data, off + 4, data.len());
            assert(rest@ =~= data@.skip(off + 4));
            match decode_varint(rest) {
                Ok((size, n)) => Ok((RecordStart::LeftPage(left), size, off + 4 + n)),
                Err(_) => Err(Error::Decode),
            }
        },
    }
}

/// Gathers `num_overflow_bytes` bytes of payload from the overflow chain that
/// begins at page `page_number`.
pub fn read_overflow(
    file: &[u8],
    dbheader: &DbHeader,
    page_number: u64,
    num_overflow_bytes: usize,
) -> (r: Result<Vec<u8>, Error>)
    ensures
        gives(r, spec_overflow(file@, dbheader.page_size, page_number, num_overflow_bytes as nat)),
{
    let page_size = dbheader.page_size as usize;
    let mut overflow: Vec<u8> = Vec::new();
    let mut page = page_number;
    let mut residual = num_overflow_bytes;
    while residual > 0
        invariant
            page_size == dbheader.page_size,
            spec_overflow(file@, dbheader.page_size, page_number, num_overflow_bytes as nat)
                == prepend(
                overflow@,
                spec_overflow(file@, dbheader.page_size, page, residual as nat),
            ),
        decreases residual,
    {
        if page_size <= 4 || page == 0 {
            return Err(Error::Decode);
        }
        let loaded = match OverflowPage::from_file(file, page, dbheader) {
            Ok(loaded) => loaded,
            Err(_) => {
                return Err(Error::Io);
            },
        };
        let bytes = loaded.data();
        let take = if residual <= page_size - 4 {
            residual
        } else {
            page_size - 4
        };
        proof {
            lemma_pow256_values();
            lemma_be_unsigned_bounds(bytes@.subrange(0, 4));
        }
        let next = read_be(bytes, 0, 4);
        let mut chunk = slice_to_vec(slice_subrange(bytes, 4, 4 + take));
        proof {
            let tail = spec_overflow(file@, dbheader.page_size, next, (residual - take) as nat);
            if let Ok(t) = tail {
                assert(overflow@ + (chunk@ + t) =~= (overflow@ + chunk@) + t);
            }
        }
        overflow.append(&mut chunk);
        residual = residual - take;
        page = next;
    }
    assert(overflow@ + Seq::<u8>::empty() =~= overflow@);
    Ok(overflow)
}

/// Gathers the payload of `payload_size` bytes that begins at `payload_start`
/// on the page `data`, from the page and, where it does not fit, from the
/// overflow chain.
pub fn read_payload(
    file: &[u8],
    dbheader: &DbHeader,
    data: &[u8],
    payload_start: usize,
    payload_size: u64,
) -> (r: Result<Vec<u8>, Error>)
    requires
        payload_start <= data@.len(),
    ensures
        gives(
            r,
            cell_payload(file@, dbheader.page_size, data@, payload_start as int, payload_size),
        ),
{
    let on_page = data.len() - payload_start;
    if payload_size <= on_page as u64 {
        let local = slice_subrange(data, payload_start, payload_start + payload_size as usize);
        return Ok(slice_to_vec(local));
    }
    if payload_size > file.len() as u64 || on_page < 4 {
        return Err(Error::Decode);
    }
    proof {
        lemma_pow256_values();
        lemma_be_unsigned_bounds(data@.subrange(data@.len() - 4, data@.len() as int));
    }
    let first = read_be(data, data.len() - 4, 4);
    let mut payload = slice_to_vec(slice_subrange(data, payload_start, data.len() - 4));
    let residual = (payload_size - (on_page as u64 - 4)) as usize;
    match read_overflow(file, dbheader, first, residual) {
        Ok(mut rest) => {
            payload.append(&mut rest);
            Ok(payload)
        },
        Err(e) => Err(e),
    }
}

/// Reads the column values of the record `payload`.
#[verifier::loop_isolation(false)]
pub fn parse_record(payload: &[u8]) -> (r: Result<Vec<SqlValue>, Error>)
    ensures
        yields(r, spec_parse_record(payload@)),
{
    let (header_len, n) = match decode_varint(payload) {
        Ok(found) => found,
        Err(_) => {
            return Err(Error::Decode);
        },
    };
    if header_len < n as u64 || header_len > payload.len() as u64 {
        return Err(Error::Decode);
    }
    let body_start = header_len as usize;
    let types = match decode_serial_types(slice_subrange(payload, n, body_start)) {
        Ok(types) => types,
        Err(e) => {
            return Err(e);
        },
    };
    let mut values: Vec<SqlValue> = Vec::with_capacity(types.len());
    let mut offset: usize = body_start;
    let mut k: usize = 0;
    assert(types@.skip(0) =~= types@);
    assert(values.deep_view() =~= Seq::<Datum>::empty());
    while k < types.len()
        invariant
            k <= types.len(),
            body_start <= offset <= payload.len(),
            spec_columns(types@, payload@.skip(body_start as int)) == prepend(
                values.deep_view(),
                spec_columns(types@.skip(k as int), payload@.skip(offset as int)),
            ),
        decreases types.len() - k,
    {
        let t = types[k];
        let rest = slice_subrange(payload, offset, payload.len());
        assert(rest@ =~= payload@.skip(offset as int));
        assert(types@.skip(k as int)[0] == t);
        let value = match t.decode(rest) {
            Ok(value) => value,
            Err(e) => {
                return Err(e);
            },
        };
        let size = t.size();
        proof {
            assert(types@.skip(k as int).skip(1) =~= types@.skip(k + 1));
            assert(payload@.skip(offset as int).skip(size as int) =~= payload@.skip(offset + size));
            let tail = spec_columns(types@.skip(k + 1), payload@.skip(offset + size));
            let before = values.deep_view();
            if let Ok(s) = tail {
                assert(before + (seq![value@] + s) =~= before.push(value@) + s);
            }
        }
        let ghost before = values.deep_view();
        values.push(value);
        assert(values.deep_view() =~= before.push(value@));
        offset = offset + size;
        k += 1;
    }
    assert(values.deep_view() + Seq::<Datum>::empty() =~= values.deep_view());
    Ok(values)
}

/// Reads the record of cell `cell_index` of `page`, a cell of the shape
/// `shape`.
pub fn read_record(
    file: &[u8],
    dbheader: &DbHeader,
    page: &Page,
    cell_index: usize,
    shape: CellShape,
) -> (r: Result<Record, Error>)
    requires
        cell_index < page@.pointers.len(),
    ensures
        gives(r, spec_read_record(file@, dbheader.page_size, page@, cell_index as int, shape)),
{
    let data = page.data();
    let off = page.cell_pointer(cell_index) as usize;
    let (record_start, payload_size, payload_start) = match read_cell_prefix(data, off, shape) {
        Ok(found) => found,
        Err(e) => {
            return Err(e);
        },
    };
    let payload = match read_payload(file, dbheader, data, payload_start, payload_size) {
        Ok(payload) => payload,
        Err(e) => {
            return Err(e);
        },
    };
    let values = match parse_record(payload.as_slice()) {
        Ok(values) => values,
        Err(e) => {
            return Err(e);
        },
    };
    Ok(Record { record_start, payload_size, values })
}

} // verus!
