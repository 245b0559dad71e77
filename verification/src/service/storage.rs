//! Block storage: reads answered from the block file, writes appended to
//! it and the offsets the node hands out for them.

use vstd::prelude::*;
use crate::service::{MetaData, Service, ServiceData};
use crate::json::{
    json_str_member_in, json_u64_member, json_u64_member_in, parse_str_member_in, parse_u64_member,
    parse_u64_member_in,
};
use crate::text::{decimal, push_str, u64_to_decimal};

verus! {

/// Size of the buffer a read request is answered from.
pub const READ_BUFFER_LEN: usize = 1048576;

/// The first `size` bytes of a read buffer that starts with `filled` and is
/// zero after it.
pub open spec fn read_reply_spec(filled: Seq<u8>, size: nat) -> Seq<u8> {
    Seq::new(size, |i: int| if i < filled.len() { filled[i] } else { 0u8 })
}

/// The answer to a read of `size` bytes (at most a buffer's worth) when the
/// block file gave `filled` from the requested offset.
pub fn read_reply(filled: &[u8], size: u64) -> (r: Vec<u8>)
    requires
        filled@.len() <= READ_BUFFER_LEN,
        size <= READ_BUFFER_LEN,
    ensures
        r@ == read_reply_spec(filled@, size as nat),
{
    let n: usize = size as usize;
    let mut out: Vec<u8> = Vec::new();
    let mut i: usize = 0;
    while i < n
        invariant
            n == size,
            i <= n,
            out@ =~= read_reply_spec(filled@, size as nat).take(i as int),
        decreases n - i,
    {
        if i < filled.len() {
            out.push(filled[i]);
        } else {
            out.push(0u8);
        }
        i = i + 1;
    }
    assert(read_reply_spec(filled@, size as nat).take(n as int) =~= read_reply_spec(filled@, size as nat));
    out
}

/// The (offset, size) of a read request's JSON content: the unsigned
/// integers `offset` and `size` of its `metadata` member, which must also
/// hold an unsigned integer `index` and a string `blockno`; `None` where one
/// of them is missing or of another type, or the content is not JSON.
pub open spec fn read_request_spec(content: Seq<char>) -> Option<(u64, u64)> {
    match (
        json_u64_member_in(content, "metadata"@, "offset"@),
        json_u64_member_in(content, "metadata"@, "size"@),
        json_u64_member_in(content, "metadata"@, "index"@),
        json_str_member_in(content, "metadata"@, "blockno"@),
    ) {
        (Some(Some(o)), Some(Some(n)), Some(Some(_)), Some(Some(_))) => Some((o, n)),
        _ => None,
    }
}

/// Reads the (offset, size) of a read request from its JSON content, where
/// it has them (`read_request_spec`).
pub fn read_request(content: &str) -> (r: Option<(u64, u64)>)
    ensures
        r == read_request_spec(content@),
{
    let offset = parse_u64_member_in(content, "metadata", "offset");
    let size = parse_u64_member_in(content, "metadata", "size");
    let index = parse_u64_member_in(content, "metadata", "index");
    let block = parse_str_member_in(content, "metadata", "blockno");
    match (offset, size, index, block) {
        (Some(Some(o)), Some(Some(n)), Some(Some(_)), Some(Some(_))) => Some((o, n)),
        _ => None,
    }
}

/// The announced size of a write request: the unsigned integer `size` of
/// its JSON content, where there is one.
pub open spec fn write_size_spec(content: Seq<char>) -> Option<u64> {
    match json_u64_member(content, "size"@) {
        Some(Some(n)) => Some(n),
        _ => None,
    }
}

/// The announced size of a write request, where its content has one
/// (`write_size_spec`).
pub fn write_request_size(content: &str) -> (r: Option<u64>)
    ensures
        r == write_size_spec(content@),
{
    match parse_u64_member(content, "size") {
        Some(Some(n)) => Some(n),
        _ => None,
    }
}

/// A read request is answered at its `offset` for its `size` whenever the
/// content's `metadata` holds unsigned integers `offset`, `size` and `index`
/// and a string `blockno`, whatever that string is; otherwise it is
/// refused.
pub proof fn lemma_read_request_fields(content: Seq<char>, offset: u64, size: u64)
    ensures
        json_u64_member_in(content, "metadata"@, "offset"@) == Some(Some(offset))
            && json_u64_member_in(content, "metadata"@, "size"@) == Some(Some(size))
            && (json_u64_member_in(content, "metadata"@, "index"@) matches Some(Some(_)))
            && (json_str_member_in(content, "metadata"@, "blockno"@) matches Some(Some(_)))
            ==> read_request_spec(content) == Some((offset, size)),
        read_request_spec(content) == Some((offset, size)) ==> {
            &&& json_u64_member_in(content, "metadata"@, "offset"@) == Some(Some(offset))
            &&& json_u64_member_in(content, "metadata"@, "size"@) == Some(Some(size))
            &&& json_u64_member_in(content, "metadata"@, "index"@) matches Some(Some(_))
            &&& json_str_member_in(content, "metadata"@, "blockno"@) matches Some(Some(_))
        },
{
}

/// A write request is accepted with exactly the size its content announces,
/// however large, and refused only where there is no unsigned integer
/// `size`.
pub proof fn lemma_write_size_any(content: Seq<char>, n: u64)
    ensures
        json_u64_member(content, "size"@) == Some(Some(n)) <==> write_size_spec(content) == Some(n),
        !(json_u64_member(content, "size"@) matches Some(Some(_))) ==> write_size_spec(content) is None,
{
}

/// Progress of a write request: how many bytes it announced and how many
/// have arrived.
pub struct WriteProgress {
    pub size: usize,
    pub total: usize,
}

impl WriteProgress {
    /// A write of `size` bytes, none received yet.
    pub fn new(size: usize) -> (r: WriteProgress)
        ensures
            r.size == size,
            r.total == 0,
    {
        WriteProgress { size, total: 0 }
    }

    /// Records that `n` more bytes arrived; true when exactly the announced
    /// number has arrived, which ends the transfer.
    pub fn received(&mut self, n: usize) -> (done: bool)
        requires
            old(self).total + n <= usize::MAX,
        ensures
            final(self).size == old(self).size,
            final(self).total == old(self).total + n,
            done == (final(self).total == final(self).size),
    {
        self.total = self.total + n;
        self.total == self.size
    }
}

/// Bookkeeping after a write of `total` bytes: one more instance, and the
/// end of the block file moved on by `total`.
pub open spec fn after_write(m: MetaData, total: u64) -> MetaData {
    MetaData {
        instance_count: (m.instance_count + 1) as i32,
        last_updated: m.last_updated,
        current_block_offset: (m.current_block_offset + total) as u64,
    }
}

/// Bookkeeping after writes of the given sizes, in order.
pub open spec fn after_writes(m: MetaData, totals: Seq<u64>) -> MetaData
    decreases totals.len(),
{
    if totals.len() == 0 {
        m
    } else {
        after_write(after_writes(m, totals.drop_last()), totals.last())
    }
}

/// The sum of the sizes.
pub open spec fn total_size(totals: Seq<u64>) -> int
    decreases totals.len(),
{
    if totals.len() == 0 {
        0
    } else {
        total_size(totals.drop_last()) + totals.last()
    }
}

/// The node's bookkeeping after a write of `total` bytes: only the block
/// storage's changes, as `after_write` says.
pub open spec fn after_storage_write(s: Service, total: u64) -> Service {
    Service {
        storage: ServiceData { metadata: after_write(s.storage.metadata, total), ..s.storage },
        ..s
    }
}

impl Service {
    /// Records a finished write of `total` bytes to the block file and
    /// returns the offset at which they were appended.
    pub fn record_storage_write(&mut self, total: u64) -> (offset: u64)
        requires
            old(self).storage.metadata.instance_count < i32::MAX,
            old(self).storage.metadata.current_block_offset + total <= u64::MAX,
        ensures
            offset == old(self).storage.metadata.current_block_offset,
            *final(self) == after_storage_write(*old(self), total),
    {
        self.storage.metadata.instance_count = self.storage.metadata.instance_count + 1;
        let offset = self.storage.metadata.current_block_offset;
        self.storage.metadata.current_block_offset = offset + total;
        offset
    }
}

/// The JSON answer to a finished write: where the bytes went and how many.
pub open spec fn write_reply_spec(offset: u64, total: u64) -> Seq<char> {
    "{\"blockno\":\"no\",\"index\":0,\"offset\":"@ + decimal(offset as nat) + ",\"size\":"@
        + decimal(total as nat) + "}"@
}

/// The JSON answer to a write of `total` bytes appended at `offset`.
pub fn write_reply(offset: u64, total: u64) -> (r: String)
    ensures
        r@ == write_reply_spec(offset, total),
{
    let mut out = String::new();
    push_str(&mut out, "{\"blockno\":\"no\",\"index\":0,\"offset\":");
    let o = u64_to_decimal(offset);
    push_str(&mut out, o.as_str());
    push_str(&mut out, ",\"size\":");
    let t = u64_to_decimal(total);
    push_str(&mut out, t.as_str());
    push_str(&mut out, "}");
    out
}

/// Read after write: while the block file ends at the recorded offset, a
/// write appends its bytes at the offset it is handed, the file again ends
/// at the new recorded offset, and a later read there of the written size
/// answers exactly the written bytes, whatever was appended afterwards and
/// however many bytes (at least that size) the file gave.
pub proof fn lemma_read_after_write(file: Seq<u8>, m: MetaData, data: Seq<u8>, later: Seq<u8>, got: int)
    requires
        file.len() == m.current_block_offset,
        m.current_block_offset + data.len() <= u64::MAX,
        data.len() <= got <= data.len() + later.len(),
    ensures
        (file + data).len() == after_write(m, data.len() as u64).current_block_offset,
        read_reply_spec(
            (file + data + later).skip(m.current_block_offset as int).take(got),
            data.len(),
        ) == data,
{
    let filled = (file + data + later).skip(m.current_block_offset as int).take(got);
    assert(read_reply_spec(filled, data.len()) =~= data);
}

/// Two writes, one after the other (the order the lock lets them in): the
/// second is handed the first one's offset plus its size, the file again
/// ends at the recorded offset, two instances are counted, and reads at the
/// two offsets answer the two writes' bytes.
pub proof fn lemma_consecutive_writes(file: Seq<u8>, m: MetaData, d1: Seq<u8>, d2: Seq<u8>)
    requires
        file.len() == m.current_block_offset,
        m.current_block_offset + d1.len() + d2.len() <= u64::MAX,
        m.instance_count + 2 <= i32::MAX,
    ensures
        after_write(m, d1.len() as u64).current_block_offset == m.current_block_offset + d1.len(),
        after_write(after_write(m, d1.len() as u64), d2.len() as u64).current_block_offset
            == m.current_block_offset + d1.len() + d2.len(),
        after_write(after_write(m, d1.len() as u64), d2.len() as u64).current_block_offset == (
        file + d1 + d2).len(),
        after_write(after_write(m, d1.len() as u64), d2.len() as u64).instance_count
            == m.instance_count + 2,
        read_reply_spec(
            (file + d1 + d2).skip(m.current_block_offset as int).take(d1.len() as int),
            d1.len(),
        ) == d1,
        read_reply_spec(
            (file + d1 + d2).skip(after_write(m, d1.len() as u64).current_block_offset as int).take(
                d2.len() as int,
            ),
            d2.len(),
        ) == d2,
{
    lemma_read_after_write(file, m, d1, d2, d1.len() as int);
    let m1 = after_write(m, d1.len() as u64);
    assert(file + d1 + d2 =~= (file + d1) + d2 + Seq::<u8>::empty());
    lemma_read_after_write(file + d1, m1, d2, Seq::<u8>::empty(), d2.len() as int);
}

/// The recorded end of the block file is the start plus the sizes of all
/// writes, and every write counts one instance.
pub proof fn lemma_offsets_accumulate(m: MetaData, totals: Seq<u64>)
    requires
        m.current_block_offset + total_size(totals) <= u64::MAX,
        m.instance_count + totals.len() <= i32::MAX,
    ensures
        after_writes(m, totals).current_block_offset == m.current_block_offset + total_size(totals),
        after_writes(m, totals).instance_count == m.instance_count + totals.len(),
    decreases totals.len(),
{
    if totals.len() > 0 {
        let t = totals.drop_last();
        assert(total_size(t) <= total_size(totals));
        lemma_offsets_accumulate(m, t);
    }
}

} // verus!
