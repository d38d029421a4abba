use vstd::prelude::*;

verus! {

/// Largest number of bytes one transfer message carries.
pub const TRANSFER_CHUNK_SIZE: u64 = 1024;

/// Number of chunk messages a file of `len` bytes is streamed in: one per
/// started kibibyte, plus one (so a file whose length is a multiple of 1024
/// ends with an empty chunk, and an empty file is one empty chunk).
pub open spec fn transfer_chunk_count(len: nat) -> nat {
    len / 1024 + 1
}

/// Offset at which chunk `i` of a file of `len` bytes starts.
pub open spec fn transfer_chunk_start(len: nat, i: nat) -> nat {
    if 1024 * i <= len {
        1024 * i
    } else {
        len
    }
}

/// Size of chunk `i` of a file of `len` bytes: a full kibibyte, or what is left.
pub open spec fn transfer_chunk_size(len: nat, i: nat) -> nat {
    if len - transfer_chunk_start(len, i) > 1024 {
        1024
    } else {
        (len - transfer_chunk_start(len, i)) as nat
    }
}

/// Bytes of chunk `i` of `content`.
pub open spec fn transfer_chunk(content: Seq<u8>, i: nat) -> Seq<u8> {
    content.subrange(
        transfer_chunk_start(content.len(), i) as int,
        (transfer_chunk_start(content.len(), i) + transfer_chunk_size(content.len(), i)) as int,
    )
}

/// The chunks `content` is streamed in, in order.
pub open spec fn transfer_chunks(content: Seq<u8>) -> Seq<Seq<u8>> {
    Seq::new(transfer_chunk_count(content.len()), |i: int| transfer_chunk(content, i as nat))
}

/// The byte sequences of `ps`, one after the other.
pub open spec fn concat(ps: Seq<Seq<u8>>) -> Seq<u8>
    decreases ps.len(),
{
    if ps.len() == 0 {
        Seq::empty()
    } else {
        concat(ps.drop_last()) + ps.last()
    }
}

/// Cursor over the chunks in which a file of known length is streamed, in
/// order: how much has been read and how many chunks are still to send.
pub struct FileStream {
    file_length: u64,
    amount_read: u64,
    chunks: u64,
}

impl FileStream {
    /// Length of the file being streamed.
    pub closed spec fn spec_file_length(&self) -> nat {
        self.file_length as nat
    }

    /// Bytes of the file covered by the chunks handed out so far.
    pub closed spec fn spec_amount_read(&self) -> nat {
        self.amount_read as nat
    }

    /// Chunks still to hand out.
    pub closed spec fn spec_chunks_left(&self) -> nat {
        self.chunks as nat
    }

    /// Chunks handed out so far.
    pub open spec fn spec_chunks_sent(&self) -> nat {
        (transfer_chunk_count(self.spec_file_length()) - self.spec_chunks_left()) as nat
    }

    /// The chunks handed out so far are the first ones of the file, in order.
    pub closed spec fn wf(&self) -> bool {
        &&& self.chunks <= transfer_chunk_count(self.file_length as nat)
        &&& self.amount_read == transfer_chunk_start(
            self.file_length as nat,
            self.spec_chunks_sent(),
        )
    }

    /// Starts streaming a file of `file_length` bytes.
    pub fn new(file_length: u64) -> (res: FileStream)
        ensures
            res.wf(),
            res.spec_file_length() == file_length,
            res.spec_amount_read() == 0,
            res.spec_chunks_left() == transfer_chunk_count(file_length as nat),
            res.spec_chunks_sent() == 0,
    {
        FileStream { file_length, amount_read: 0, chunks: file_length / TRANSFER_CHUNK_SIZE + 1 }
    }

    /// Length of the file being streamed.
    pub fn file_length(&self) -> (res: u64)
        ensures
            res == self.spec_file_length(),
    {
        self.file_length
    }

    /// Bytes of the file covered by the chunks handed out so far.
    pub fn amount_read(&self) -> (res: u64)
        ensures
            res == self.spec_amount_read(),
    {
        self.amount_read
    }

    /// Chunks still to hand out.
    pub fn chunks_left(&self) -> (res: u64)
        ensures
            res == self.spec_chunks_left(),
    {
        self.chunks
    }

    /// Size of the next chunk to read and send, or `None` once every chunk
    /// has been handed out.
    pub fn next_chunk(&mut self) -> (res: Option<usize>)
        requires
            old(self).wf(),
        ensures
            final(self).wf(),
            final(self).spec_file_length() == old(self).spec_file_length(),
            old(self).spec_chunks_left() == 0 ==> res is None && *final(self) == *old(self),
            old(self).spec_chunks_left() > 0 ==> res == Some(
                transfer_chunk_size(
                    old(self).spec_file_length(),
                    old(self).spec_chunks_sent(),
                ) as usize,
            ) && final(self).spec_chunks_left() == old(self).spec_chunks_left() - 1
                && final(self).spec_amount_read() == old(self).spec_amount_read()
                + transfer_chunk_size(old(self).spec_file_length(), old(self).spec_chunks_sent()),
    {
        if self.chunks == 0 {
            return None;
        }
        let remaining = self.file_length - self.amount_read;
        let chunk_size: u64 = if remaining > TRANSFER_CHUNK_SIZE {
            TRANSFER_CHUNK_SIZE
        } else {
            remaining
        };
        self.chunks = self.chunks - 1;
        self.amount_read = self.amount_read + chunk_size;
        Some(chunk_size as usize)
    }
}


/// A well-formed stream never has more chunks left than the file has.
pub proof fn lemma_stream_bounds(s: FileStream)
    requires
        s.wf(),
    ensures
        s.spec_chunks_left() <= transfer_chunk_count(s.spec_file_length()),
{
}

/// Once a stream has handed out all its chunks, they have covered the whole file.
pub proof fn lemma_finished_stream_read_all(s: FileStream)
    requires
        s.wf(),
        s.spec_chunks_left() == 0,
    ensures
        s.spec_amount_read() == s.spec_file_length(),
        s.spec_chunks_sent() == transfer_chunk_count(s.spec_file_length()),
{
    let len = s.spec_file_length();
    assert(1024 * (len / 1024 + 1) > len);
}

/// The first `n` chunks of `content`, joined, are its first `transfer_chunk_start(n)` bytes.
proof fn lemma_transfer_prefix(content: Seq<u8>, n: nat)
    requires
        n <= transfer_chunk_count(content.len()),
    ensures
        concat(Seq::new(n, |i: int| transfer_chunk(content, i as nat))) == content.take(
            transfer_chunk_start(content.len(), n) as int,
        ),
    decreases n,
{
    let ps = Seq::new(n, |i: int| transfer_chunk(content, i as nat));
    if n > 0 {
        let m = (n - 1) as nat;
        lemma_transfer_prefix(content, m);
        assert(ps.drop_last() =~= Seq::new(m, |i: int| transfer_chunk(content, i as nat)));
        assert(concat(ps) =~= content.take(transfer_chunk_start(content.len(), n) as int));
    } else {
        assert(concat(ps) =~= content.take(0));
    }
}

/// Streaming a file chunk by chunk and appending the chunks in the order they
/// come gives back the file: the chunks are consecutive, none overlaps or is
/// skipped, each holds at most 1024 bytes, and there are `len / 1024 + 1` of them.
pub proof fn lemma_transfer_chunks_rebuild(content: Seq<u8>)
    ensures
        concat(Seq::new(transfer_chunk_count(content.len()), |i: int| transfer_chunk(content, i as nat)))
            == content,
        forall|i: nat|
            i < transfer_chunk_count(content.len()) ==> #[trigger] transfer_chunk(content, i).len()
                <= 1024,
{
    let len = content.len();
    lemma_transfer_prefix(content, transfer_chunk_count(len));
    assert(1024 * (len / 1024 + 1) > len);
    assert(content.take(len as int) =~= content);
}

} // verus!
