//! The output of the privileged process as a sequence of text lines.
//!
//! The bytes are cut after each newline; a line loses its terminator and is
//! relayed where it is well-formed UTF-8, and dropped where it is not. A line
//! that is dropped does not end the stream.

use vstd::prelude::*;
use vstd::utf8::{decode_utf8, encode_utf8, valid_utf8};

verus! {

/// The byte that ends a line.
pub const NEWLINE: u8 = 10;

/// The byte that may stand before the newline and goes with it.
pub const CARRIAGE_RETURN: u8 = 13;

/// The complete lines of `bytes`, each with its newline, and the bytes after
/// the last newline.
pub open spec fn scan(bytes: Seq<u8>) -> (Seq<Seq<u8>>, Seq<u8>)
    decreases bytes.len(),
{
    if bytes.len() == 0 {
        (Seq::empty(), Seq::empty())
    } else {
        let (lines, pending) = scan(bytes.drop_last());
        if bytes.last() == NEWLINE {
            (lines.push(pending.push(NEWLINE)), Seq::empty())
        } else {
            (lines, pending.push(bytes.last()))
        }
    }
}

/// The lines of `bytes` that a newline ends, each with its newline.
pub open spec fn complete_lines(bytes: Seq<u8>) -> Seq<Seq<u8>> {
    scan(bytes).0
}

/// The bytes of `bytes` after its last newline.
pub open spec fn remainder(bytes: Seq<u8>) -> Seq<u8> {
    scan(bytes).1
}

/// The lines of `bytes` as they are read: those that a newline ends, and the
/// unterminated rest as a last line where there is one.
pub open spec fn raw_lines(bytes: Seq<u8>) -> Seq<Seq<u8>> {
    if remainder(bytes).len() == 0 {
        complete_lines(bytes)
    } else {
        complete_lines(bytes).push(remainder(bytes))
    }
}

/// `raw` without its newline, and without the carriage return before that
/// newline.
pub open spec fn strip_terminator(raw: Seq<u8>) -> Seq<u8> {
    if raw.len() > 0 && raw.last() == NEWLINE {
        let body = raw.drop_last();
        if body.len() > 0 && body.last() == CARRIAGE_RETURN {
            body.drop_last()
        } else {
            body
        }
    } else {
        raw
    }
}

/// The text of the line `raw`, or `None` where its bytes are not well-formed.
pub open spec fn line_text(raw: Seq<u8>) -> Option<Seq<char>> {
    if valid_utf8(strip_terminator(raw)) {
        Some(decode_utf8(strip_terminator(raw)))
    } else {
        None
    }
}

/// The texts of `lines` in their order, without the lines that have none.
pub open spec fn deliver(lines: Seq<Seq<u8>>) -> Seq<Seq<char>>
    decreases lines.len(),
{
    if lines.len() == 0 {
        Seq::empty()
    } else {
        match line_text(lines.last()) {
            Some(text) => deliver(lines.drop_last()).push(text),
            None => deliver(lines.drop_last()),
        }
    }
}

/// The lines that are relayed of the output `bytes`.
pub open spec fn relayed(bytes: Seq<u8>) -> Seq<Seq<char>> {
    deliver(raw_lines(bytes))
}

/// The characters of each string of `lines`.
pub open spec fn texts(lines: Seq<String>) -> Seq<Seq<char>> {
    Seq::new(lines.len(), |i: int| lines[i]@)
}

/// The characters of `line`, where there is one.
pub open spec fn text_of(line: Option<String>) -> Option<Seq<char>> {
    match line {
        Some(s) => Some(s@),
        None => None,
    }
}

/// `String::from_utf8` of std. It returns the string whose UTF-8 encoding is
/// `bytes`, and fails exactly where `bytes` is not well-formed UTF-8.
#[verifier::external_body]
fn string_from_utf8(bytes: Vec<u8>) -> (r: Option<String>)
    ensures
        r is Some <==> valid_utf8(bytes@),
        r matches Some(s) ==> encode_utf8(s@) == bytes@,
{
    match String::from_utf8(bytes) {
        Ok(s) => Some(s),
        Err(_) => None,
    }
}

/// Removes the line terminator from the end of `raw`: the newline, and the
/// carriage return before it. A lone carriage return stays.
pub fn strip_line(raw: Vec<u8>) -> (r: Vec<u8>)
    ensures
        r@ == strip_terminator(raw@),
{
    let mut line = raw;
    let n: usize = line.len();
    if n > 0 && line[n - 1] == NEWLINE {
        line.pop();
        if n > 1 && line[n - 2] == CARRIAGE_RETURN {
            line.pop();
        }
    }
    line
}

/// The text of one line as it was read, terminator included: `None` where
/// the line is not well-formed UTF-8.
pub fn decode_line(raw: Vec<u8>) -> (r: Option<String>)
    ensures
        text_of(r) == line_text(raw@),
{
    let line = strip_line(raw);
    let decoded = string_from_utf8(line);
    proof {
        if decoded is Some {
            vstd::utf8::encode_utf8_decode_utf8(decoded->0@);
        }
    }
    decoded
}

/// The bytes that were read after the last newline, kept until their line is
/// complete.
#[derive(Debug)]
pub struct LineBuffer {
    pending: Vec<u8>,
}

impl View for LineBuffer {
    type V = Seq<u8>;

    closed spec fn view(&self) -> Seq<u8> {
        self.pending@
    }
}

/// `bytes` holds no newline.
pub open spec fn unterminated(bytes: Seq<u8>) -> bool {
    forall|i: int| 0 <= i < bytes.len() ==> bytes[i] != NEWLINE
}

impl LineBuffer {
    #[verifier::type_invariant]
    spec fn well_formed(self) -> bool {
        unterminated(self.pending@)
    }

    /// A buffer that holds nothing.
    pub fn new() -> (b: LineBuffer)
        ensures
            b@ == Seq::<u8>::empty(),
    {
        LineBuffer { pending: Vec::new() }
    }

    /// The number of bytes that wait for their newline; none of them is one.
    pub fn pending_len(&self) -> (n: usize)
        ensures
            n == self@.len(),
            unterminated(self@),
    {
        proof {
            use_type_invariant(self);
        }
        self.pending.len()
    }

    /// Takes the next bytes of the output and returns the text of each line
    /// that they complete, in order; lines that are not well-formed are left
    /// out. The bytes after the last newline are kept.
    pub fn feed(&mut self, chunk: &[u8]) -> (out: Vec<String>)
        ensures
            texts(out@) == deliver(complete_lines(old(self)@ + chunk@)),
            final(self)@ == remainder(old(self)@ + chunk@),
    {
        proof {
            use_type_invariant(&*self);
            lemma_scan_unterminated(self.pending@);
        }
        let ghost before = self.pending@;
        let mut current: Vec<u8> = Vec::new();
        let mut out: Vec<String> = Vec::new();
        std::mem::swap(&mut current, &mut self.pending);
        assert(before + chunk@.take(0) =~= before);
        let mut i: usize = 0;
        while i < chunk.len()
            invariant
                i <= chunk.len(),
                current@ == remainder(before + chunk@.take(i as int)),
                texts(out@) == deliver(complete_lines(before + chunk@.take(i as int))),
            decreases chunk.len() - i,
        {
            let b: u8 = chunk[i];
            let ghost seen = before + chunk@.take(i as int);
            let ghost next = before + chunk@.take(i + 1);
            proof {
                assert(next.drop_last() =~= seen);
                assert(next.last() == b);
            }
            current.push(b);
            if b == NEWLINE {
                let mut line: Vec<u8> = Vec::new();
                std::mem::swap(&mut line, &mut current);
                let ghost lines = complete_lines(next);
                proof {
                    assert(lines.last() == line@);
                    assert(lines.drop_last() =~= complete_lines(seen));
                }
                let ghost earlier = out@;
                match decode_line(line) {
                    Some(s) => {
                        out.push(s);
                        assert(texts(out@) =~= texts(earlier).push(s@));
                    },
                    None => {},
                }
            }
            i += 1;
        }
        assert(chunk@.take(chunk@.len() as int) =~= chunk@);
        proof {
            lemma_remainder_unterminated(before + chunk@);
        }
        self.pending = current;
        out
    }

    /// Ends the stream: the text of the unterminated last line, where there
    /// is one and it is well-formed.
    pub fn finish(self) -> (r: Option<String>)
        ensures
            text_of(r) == if self@.len() == 0 {
                None
            } else {
                line_text(self@)
            },
    {
        if self.pending.len() == 0 {
            None
        } else {
            decode_line(self.pending)
        }
    }
}

/// The lines that are relayed of a whole output: the text of each line in
/// order, without its terminator, lines that are not well-formed left out.
pub fn relay(output: &[u8]) -> (lines: Vec<String>)
    ensures
        texts(lines@) == relayed(output@),
{
    let mut buffer = LineBuffer::new();
    let mut lines = buffer.feed(output);
    assert(Seq::<u8>::empty() + output@ =~= output@);
    let ghost complete = lines@;
    let ghost rest = buffer@;
    match buffer.finish() {
        Some(s) => {
            lines.push(s);
            assert(texts(lines@) =~= texts(complete).push(s@));
            assert(raw_lines(output@).drop_last() =~= complete_lines(output@));
        },
        None => {
            proof {
                if rest.len() > 0 {
                    assert(raw_lines(output@).drop_last() =~= complete_lines(output@));
                }
            }
        },
    }
    lines
}

/// Bytes without a newline are all remainder.
pub proof fn lemma_scan_unterminated(bytes: Seq<u8>)
    requires
        unterminated(bytes),
    ensures
        complete_lines(bytes) == Seq::<Seq<u8>>::empty(),
        remainder(bytes) == bytes,
    decreases bytes.len(),
{
    if bytes.len() > 0 {
        lemma_scan_unterminated(bytes.drop_last());
        assert(bytes.drop_last().push(bytes.last()) =~= bytes);
    } else {
        assert(bytes =~= Seq::<u8>::empty());
    }
}

/// The remainder holds no newline.
pub proof fn lemma_remainder_unterminated(bytes: Seq<u8>)
    ensures
        unterminated(remainder(bytes)),
    decreases bytes.len(),
{
    if bytes.len() > 0 {
        lemma_remainder_unterminated(bytes.drop_last());
    }
}

} // verus!
