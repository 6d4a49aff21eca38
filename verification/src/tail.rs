//! The last lines of a file, read backwards in chunks so that a long file
//! is not read whole.
//!
//! The library does not read files. A [`TailReader`] says which part of the
//! file it wants next and takes the bytes that were read there, until it
//! holds enough of the file's end to give its last lines.
use crate::text::{
    all_fit, count, join, last_n, law_tail, lemma_count_bound, lemma_count_concat,
    lemma_count_one, lemma_last_lines_of_suffix, line_spans, lines, pieces, tail, Span,
};
use crate::utf8::law_tail_decodes;
use vstd::prelude::*;
use vstd::slice::slice_subrange;
use vstd::utf8::{decode_utf8, valid_utf8};

verus! {

/// The largest number of bytes that is read at once.
pub const CHUNK_SIZE: u64 = 8192;

/// The byte that ends a line.
pub const NEWLINE: u8 = 10;

/// The byte that, before `NEWLINE`, belongs to the line's ending.
pub const CARRIAGE_RETURN: u8 = 13;

/// The lines of a file.
pub open spec fn byte_lines(bytes: Seq<u8>) -> Seq<Seq<u8>> {
    lines(bytes, NEWLINE, CARRIAGE_RETURN)
}

/// The last `k` lines of a file, or all of them where it has fewer, with a
/// `NEWLINE` between each two.
pub open spec fn tail_of(bytes: Seq<u8>, k: nat) -> Seq<u8> {
    tail(bytes, k, NEWLINE, CARRIAGE_RETURN)
}

/// The last `k` lines of a text, or all of them where it has fewer, with a
/// line feed between each two.
pub open spec fn text_tail(text: Seq<char>, k: nat) -> Seq<char> {
    tail(text, k, '\n', '\r')
}

/// The text that `bytes` decode to as UTF-8, with U+FFFD in the place of
/// each sequence of bytes that is not valid.
pub uninterp spec fn utf8_lossy(bytes: Seq<u8>) -> Seq<char>;

/// `String::from_utf8_lossy` of std, with its result as an owned string.
/// The contract gives the decoded text a name, since the text depends on
/// the bytes alone, and says what it is where the bytes are valid UTF-8:
/// the characters that they encode. Of what stands for bytes that are not
/// valid it claims nothing.
#[verifier::external_body]
fn decode_lossy(bytes: &[u8]) -> (text: String)
    ensures
        text@ == utf8_lossy(bytes@),
        valid_utf8(bytes@) ==> text@ == decode_utf8(bytes@),
{
    String::from_utf8_lossy(bytes).into_owned()
}

/// A part of a file: `len` bytes from the position `offset`.
#[derive(Debug, Clone, Copy, PartialEq, Eq, Structural)]
pub struct ReadRequest {
    pub offset: u64,
    pub len: usize,
}

/// What has been read of a file's end so far.
#[derive(Debug)]
pub struct TailReader {
    tail_lines: usize,
    pos: u64,
    newlines: usize,
    buf: Vec<u8>,
}

impl TailReader {
    #[verifier::type_invariant]
    spec fn counted(&self) -> bool {
        self.newlines == count(self.buf@, NEWLINE)
    }

    /// The position in the file from which on it has been read.
    pub closed spec fn position(&self) -> nat {
        self.pos as nat
    }

    /// The bytes that have been read: those from `position()` to the end of
    /// the file.
    pub closed spec fn buffered(&self) -> Seq<u8> {
        self.buf@
    }

    /// The number of lines that are wanted.
    pub closed spec fn wanted(&self) -> nat {
        self.tail_lines as nat
    }

    /// Nothing more has to be read: the file has been read from its start,
    /// or what has been read holds more line endings than lines are wanted.
    pub open spec fn done(&self) -> bool {
        self.position() == 0 || count(self.buffered(), NEWLINE) > self.wanted()
    }

    /// The number of bytes to read next: a chunk, or what is left before
    /// `position()`.
    pub open spec fn next_len(&self) -> nat {
        if self.position() < CHUNK_SIZE {
            self.position()
        } else {
            CHUNK_SIZE as nat
        }
    }

    /// What has been read is the end of `file`.
    pub open spec fn reads(&self, file: Seq<u8>) -> bool {
        &&& self.position() <= file.len()
        &&& self.buffered() == file.skip(self.position() as int)
    }

    /// A reader for the last `tail_lines` lines of a file of `file_size`
    /// bytes, of which nothing has been read.
    pub fn new(file_size: u64, tail_lines: usize) -> (reader: TailReader)
        ensures
            reader.position() == file_size,
            reader.buffered() == Seq::<u8>::empty(),
            reader.wanted() == tail_lines,
    {
        TailReader { tail_lines, pos: file_size, newlines: 0, buf: Vec::new() }
    }

    /// The part of the file to read next and to hand to
    /// [`TailReader::accept`], or nothing where enough has been read.
    pub fn next_read(&self) -> (request: Option<ReadRequest>)
        ensures
            match request {
                Some(r) => !self.done() && r.len == self.next_len() && r.offset + r.len
                    == self.position(),
                None => self.done(),
            },
    {
        proof {
            use_type_invariant(self);
        }
        if self.pos == 0 || self.newlines > self.tail_lines {
            None
        } else {
            let len: u64 = if self.pos < CHUNK_SIZE {
                self.pos
            } else {
                CHUNK_SIZE
            };
            Some(ReadRequest { offset: self.pos - len, len: len as usize })
        }
    }

    /// Takes the bytes that were read at the part that
    /// [`TailReader::next_read`] gives. Bytes of another length, or any
    /// where nothing is to be read, are refused and change nothing.
    pub fn accept(&mut self, chunk: &[u8]) -> (taken: bool)
        ensures
            taken == (!old(self).done() && chunk@.len() == old(self).next_len()),
            final(self).wanted() == old(self).wanted(),
            taken ==> final(self).buffered() == chunk@ + old(self).buffered(),
            taken ==> final(self).position() == old(self).position() - chunk@.len(),
            !taken ==> final(self).buffered() == old(self).buffered(),
            !taken ==> final(self).position() == old(self).position(),
    {
        proof {
            use_type_invariant(&*self);
        }
        let len = match self.next_read() {
            Some(r) => r.len,
            None => {
                return false;
            },
        };
        if chunk.len() != len {
            return false;
        }
        let mut buf: Vec<u8> = Vec::new();
        let mut found: usize = 0;
        let mut i: usize = 0;
        while i < chunk.len()
            invariant
                i <= chunk@.len(),
                buf@ == chunk@.take(i as int),
                found == count(buf@, NEWLINE),
                found <= i,
            decreases chunk@.len() - i,
        {
            let ghost before = buf@;
            let byte = chunk[i];
            buf.push(byte);
            proof {
                assert(buf@ =~= before + seq![byte]);
                lemma_count_concat(before, seq![byte], NEWLINE);
                lemma_count_one(byte, NEWLINE);
                assert(buf@ =~= chunk@.take(i + 1));
            }
            if byte == NEWLINE {
                found += 1;
            }
            i += 1;
        }
        proof {
            assert(buf@ =~= chunk@);
            lemma_count_concat(chunk@, self.buf@, NEWLINE);
            lemma_count_bound(self.buf@, NEWLINE);
        }
        let mut i: usize = 0;
        while i < self.buf.len()
            invariant
                i <= self.buf@.len(),
                buf@ == chunk@ + self.buf@.take(i as int),
            decreases self.buf@.len() - i,
        {
            buf.push(self.buf[i]);
            proof {
                assert(buf@ =~= chunk@ + self.buf@.take(i + 1));
            }
            i += 1;
        }
        let size = buf.len();
        proof {
            assert(buf@ =~= chunk@ + self.buf@);
            lemma_count_bound(buf@, NEWLINE);
            assert(found + self.newlines <= size);
        }
        *self = TailReader {
            tail_lines: self.tail_lines,
            pos: self.pos - len as u64,
            newlines: found + self.newlines,
            buf,
        };
        true
    }

    /// The last wanted lines of what has been read, as text. Where
    /// [`TailReader::done`] holds and the bytes that were handed in are the
    /// file's, they are the last lines of the file.
    pub fn finish(&self) -> (text: String)
        ensures
            text@ == utf8_lossy(tail_of(self.buffered(), self.wanted())),
            valid_utf8(tail_of(self.buffered(), self.wanted())) ==> text@ == decode_utf8(
                tail_of(self.buffered(), self.wanted()),
            ),
            tail_of(self.buffered(), self.wanted()).len() == 0 ==> text@.len() == 0,
    {
        let bytes = tail_bytes(self.buf.as_slice(), self.tail_lines);
        decode_lossy(bytes.as_slice())
    }
}

/// The last `tail_lines` lines of `bytes`, with a `NEWLINE` between each
/// two.
pub fn tail_bytes(bytes: &[u8], tail_lines: usize) -> (tail: Vec<u8>)
    ensures
        tail@ == tail_of(bytes@, tail_lines as nat),
{
    let whole = Span { start: 0, end: bytes.len() };
    assert(whole.of(bytes@) =~= bytes@);
    let spans = line_spans(bytes, whole, NEWLINE, CARRIAGE_RETURN);
    let ghost all = pieces(bytes@, spans@);
    let n = spans.len();
    let first: usize = if tail_lines >= n {
        0
    } else {
        n - tail_lines
    };
    assert(last_n(all, tail_lines as nat) =~= all.subrange(first as int, n as int));
    let mut tail: Vec<u8> = Vec::new();
    let mut i: usize = first;
    assert(all.subrange(first as int, first as int) =~= Seq::<Seq<u8>>::empty());
    while i < n
        invariant
            first <= i <= n,
            n == spans@.len(),
            all == pieces(bytes@, spans@),
            all_fit(spans@, bytes@.len()),
            tail@ == join(all.subrange(first as int, i as int), NEWLINE),
        decreases n - i,
    {
        let ghost sofar = tail@;
        let ghost taken = all.subrange(first as int, i + 1);
        if i > first {
            tail.push(NEWLINE);
        }
        let span = spans[i];
        let mut at: usize = span.start;
        let ghost base = tail@;
        while at < span.end
            invariant
                span.fits(bytes@.len()),
                span.start <= at <= span.end,
                tail@ == base + bytes@.subrange(span.start as int, at as int),
            decreases span.end - at,
        {
            tail.push(bytes[at]);
            proof {
                assert(tail@ =~= base + bytes@.subrange(span.start as int, at + 1));
            }
            at += 1;
        }
        proof {
            assert(taken.drop_last() =~= all.subrange(first as int, i as int));
            assert(taken.last() == span.of(bytes@));
            if i > first {
                assert(tail@ =~= sofar.push(NEWLINE) + span.of(bytes@));
            } else {
                assert(tail@ =~= span.of(bytes@));
            }
        }
        i += 1;
    }
    tail
}

/// A reader that has read nothing reads the end of any file of the size it
/// was made for.
pub proof fn lemma_reads_initially(reader: TailReader, file: Seq<u8>)
    requires
        reader.position() == file.len(),
        reader.buffered() == Seq::<u8>::empty(),
    ensures
        reader.reads(file),
{
    assert(file.skip(file.len() as int) =~= Seq::<u8>::empty());
}

/// A reader that reads the end of a file still does once it has taken the
/// bytes that stand in the file before what it had.
pub proof fn lemma_accept_reads(before: TailReader, after: TailReader, chunk: Seq<u8>, file: Seq<u8>)
    requires
        before.reads(file),
        chunk.len() <= before.position(),
        chunk == file.subrange(before.position() - chunk.len(), before.position() as int),
        after.buffered() == chunk + before.buffered(),
        after.position() == before.position() - chunk.len(),
    ensures
        after.reads(file),
{
    assert(after.buffered() =~= file.skip(after.position() as int));
}

/// Tail correctness: once a reader that reads the end of a file is done,
/// the last wanted lines of what it has read are those of the file. Where
/// the file is valid UTF-8, so are they, and their text is that of the last
/// wanted lines of the file's text.
pub proof fn law_tail_of_file(reader: TailReader, file: Seq<u8>)
    requires
        reader.reads(file),
        reader.done(),
    ensures
        tail_of(reader.buffered(), reader.wanted()) == tail_of(file, reader.wanted()),
        valid_utf8(file) ==> valid_utf8(tail_of(reader.buffered(), reader.wanted())),
        valid_utf8(file) ==> decode_utf8(tail_of(reader.buffered(), reader.wanted()))
            == text_tail(decode_utf8(file), reader.wanted()),
{
    if valid_utf8(file) {
        law_tail_decodes(file, reader.wanted());
    }
    let at = reader.position() as int;
    if at == 0 {
        assert(file.skip(0) =~= file);
    } else {
        assert(file =~= file.take(at) + file.skip(at));
        lemma_last_lines_of_suffix(
            file.take(at),
            file.skip(at),
            reader.wanted(),
            NEWLINE,
            CARRIAGE_RETURN,
        );
    }
}

/// The last `tail_lines` lines of `file` as text, read as a [`TailReader`]
/// reads them from a file. Where the file is valid UTF-8, the text is that
/// of the last lines of the file's text; bytes that are not valid UTF-8 are
/// replaced as the decoder replaces them.
pub fn tail_text(file: &[u8], tail_lines: usize) -> (text: String)
    ensures
        text@ == utf8_lossy(tail_of(file@, tail_lines as nat)),
        valid_utf8(file@) ==> text@ == text_tail(decode_utf8(file@), tail_lines as nat),
        file@.len() == 0 || tail_lines == 0 ==> text@.len() == 0,
{
    let mut reader = TailReader::new(file.len() as u64, tail_lines);
    proof {
        lemma_reads_initially(reader, file@);
    }
    loop
        invariant_except_break
            reader.reads(file@),
            reader.wanted() == tail_lines,
            file@.len() <= usize::MAX,
        ensures
            reader.reads(file@),
            reader.wanted() == tail_lines,
            reader.done(),
        decreases reader.position(),
    {
        let ghost before = reader;
        match reader.next_read() {
            Some(r) => {
                let from = r.offset as usize;
                let chunk = slice_subrange(file, from, from + r.len);
                let taken = reader.accept(chunk);
                proof {
                    lemma_accept_reads(before, reader, chunk@, file@);
                }
            },
            None => {
                break ;
            },
        }
    }
    proof {
        law_tail_of_file(reader, file@);
        law_tail(file@, tail_lines as nat, NEWLINE, CARRIAGE_RETURN);
    }
    reader.finish()
}

} // verus!
