//! What holds of the relayed lines for every output.

use vstd::prelude::*;
use vstd::utf8::{
    decode_utf8, is_char_boundary_iff_not_is_continuation_byte, is_leading_byte_width_1,
    pop_first_scalar, valid_first_scalar, valid_utf8, valid_utf8_concat, valid_utf8_split,
};
use crate::stream::{
    complete_lines, deliver, lemma_remainder_unterminated, lemma_scan_unterminated, line_text,
    raw_lines, relayed, remainder, scan, strip_terminator, unterminated, CARRIAGE_RETURN, NEWLINE,
};

verus! {

/// `line` is a run of bytes without a newline, followed by one newline.
pub open spec fn terminated(line: Seq<u8>) -> bool {
    line.len() > 0 && line.last() == NEWLINE && unterminated(line.drop_last())
}

/// `bytes` can be followed by the start of a line: it is empty or ends with a
/// newline.
pub open spec fn at_line_start(bytes: Seq<u8>) -> bool {
    bytes.len() == 0 || bytes.last() == NEWLINE
}

/// The texts of two runs of lines are the texts of the first followed by the
/// texts of the second.
pub proof fn lemma_deliver_concat(a: Seq<Seq<u8>>, b: Seq<Seq<u8>>)
    ensures
        deliver(a + b) == deliver(a) + deliver(b),
    decreases b.len(),
{
    if b.len() == 0 {
        assert(a + b =~= a);
        assert(deliver(a) + deliver(b) =~= deliver(a));
    } else {
        lemma_deliver_concat(a, b.drop_last());
        assert((a + b).drop_last() =~= a + b.drop_last());
        assert((a + b).last() == b.last());
        match line_text(b.last()) {
            Some(text) => {
                assert(deliver(a + b) =~= deliver(a) + deliver(b));
            },
            None => {},
        }
    }
}

/// Of one line its text is relayed, or nothing.
pub proof fn lemma_deliver_one(line: Seq<u8>)
    ensures
        deliver(seq![line]) == match line_text(line) {
            Some(text) => seq![text],
            None => Seq::<Seq<char>>::empty(),
        },
{
    let one = seq![line];
    assert(one.len() == 1);
    assert(one.last() == line);
    assert(one.drop_last() =~= Seq::<Seq<u8>>::empty());
    assert(deliver(one.drop_last()) =~= Seq::<Seq<char>>::empty());
    match line_text(line) {
        Some(text) => {
            assert(deliver(one) =~= seq![text]);
        },
        None => {},
    }
}

/// A line that is not well-formed is left out and nothing else is: the lines
/// before it and after it are relayed as if it had not been there.
pub proof fn law_malformed_line_is_skipped(
    before: Seq<Seq<u8>>,
    line: Seq<u8>,
    after: Seq<Seq<u8>>,
)
    requires
        line_text(line) is None,
    ensures
        deliver(before.push(line) + after) == deliver(before) + deliver(after),
{
    lemma_deliver_concat(before.push(line), after);
    assert(before.push(line).drop_last() =~= before);
}

/// A well-formed line is relayed in its place, between the lines before it
/// and those after it.
pub proof fn law_well_formed_line_is_relayed(
    before: Seq<Seq<u8>>,
    line: Seq<u8>,
    after: Seq<Seq<u8>>,
)
    requires
        line_text(line) is Some,
    ensures
        deliver(before.push(line) + after) == deliver(before).push(line_text(line)->0) + deliver(
            after,
        ),
{
    lemma_deliver_concat(before.push(line), after);
    assert(before.push(line).drop_last() =~= before);
}

/// Where every line is well-formed, each is relayed, in order, as the text of
/// its bytes without the terminator.
pub proof fn law_well_formed_lines_are_relayed_in_order(lines: Seq<Seq<u8>>)
    requires
        forall|i: int| 0 <= i < lines.len() ==> valid_utf8(#[trigger] strip_terminator(lines[i])),
    ensures
        deliver(lines).len() == lines.len(),
        forall|i: int|
            0 <= i < lines.len() ==> #[trigger] deliver(lines)[i] == decode_utf8(
                strip_terminator(lines[i]),
            ),
    decreases lines.len(),
{
    if lines.len() > 0 {
        let front = lines.drop_last();
        assert forall|i: int| 0 <= i < front.len() implies valid_utf8(
            #[trigger] strip_terminator(front[i]),
        ) by {
            assert(front[i] == lines[i]);
        }
        law_well_formed_lines_are_relayed_in_order(front);
        assert(valid_utf8(strip_terminator(lines[lines.len() - 1])));
        assert forall|i: int| 0 <= i < lines.len() implies #[trigger] deliver(lines)[i]
            == decode_utf8(strip_terminator(lines[i])) by {
            if i < front.len() {
                assert(front[i] == lines[i]);
                assert(deliver(lines)[i] == deliver(front)[i]);
            }
        }
    }
}

/// No more lines are relayed than were read, whatever they hold.
pub proof fn law_no_more_lines_than_read(lines: Seq<Seq<u8>>)
    ensures
        deliver(lines).len() <= lines.len(),
    decreases lines.len(),
{
    if lines.len() > 0 {
        law_no_more_lines_than_read(lines.drop_last());
    }
}

/// Reading on after `x` depends on `x` only through the bytes after its last
/// newline: the complete lines of `x + y` are those of `x`, then those of the
/// kept bytes followed by `y`.
pub proof fn lemma_scan_concat(x: Seq<u8>, y: Seq<u8>)
    ensures
        complete_lines(x + y) == complete_lines(x) + complete_lines(remainder(x) + y),
        remainder(x + y) == remainder(remainder(x) + y),
    decreases y.len(),
{
    let kept = remainder(x);
    if y.len() == 0 {
        assert(x + y =~= x);
        assert(kept + y =~= kept);
        lemma_remainder_unterminated(x);
        lemma_scan_unterminated(kept);
        assert(complete_lines(x) + Seq::<Seq<u8>>::empty() =~= complete_lines(x));
    } else {
        lemma_scan_concat(x, y.drop_last());
        assert((x + y).drop_last() =~= x + y.drop_last());
        assert((kept + y).drop_last() =~= kept + y.drop_last());
        assert((x + y).last() == y.last());
        assert((kept + y).last() == y.last());
        if y.last() == NEWLINE {
            let line = remainder(x + y.drop_last()).push(NEWLINE);
            assert(complete_lines(x + y) == complete_lines(x + y.drop_last()).push(line));
            assert(complete_lines(kept + y) == complete_lines(kept + y.drop_last()).push(line));
            assert(complete_lines(x + y) =~= complete_lines(x) + complete_lines(kept + y));
        }
    }
}

/// The lines that are relayed do not depend on how the output was cut into
/// chunks: what two chunks complete, one after the other, is what their
/// concatenation completes.
pub proof fn law_chunking_is_irrelevant(x: Seq<u8>, y: Seq<u8>)
    ensures
        deliver(complete_lines(x + y)) == deliver(complete_lines(x)) + deliver(
            complete_lines(remainder(x) + y),
        ),
        remainder(x + y) == remainder(remainder(x) + y),
{
    lemma_scan_concat(x, y);
    lemma_deliver_concat(complete_lines(x), complete_lines(remainder(x) + y));
}

/// Each complete line ends with the one newline it holds, and the lines put
/// end to end, with the unterminated rest, are the output: no byte is lost,
/// added or moved.
pub proof fn law_lines_partition_output(bytes: Seq<u8>)
    ensures
        forall|i: int|
            0 <= i < complete_lines(bytes).len() ==> terminated(#[trigger] complete_lines(bytes)[i]),
        unterminated(remainder(bytes)),
        complete_lines(bytes).flatten() + remainder(bytes) == bytes,
        raw_lines(bytes).flatten() == bytes,
        forall|i: int| 0 <= i < raw_lines(bytes).len() ==> (#[trigger] raw_lines(bytes)[i]).len() > 0,
    decreases bytes.len(),
{
    let lines = complete_lines(bytes);
    let rest = remainder(bytes);
    lemma_remainder_unterminated(bytes);
    lines.lemma_flatten_and_flatten_alt_are_equivalent();
    raw_lines(bytes).lemma_flatten_and_flatten_alt_are_equivalent();
    if bytes.len() == 0 {
        assert(lines.flatten_alt() + rest =~= bytes);
    } else {
        let front = bytes.drop_last();
        law_lines_partition_output(front);
        complete_lines(front).lemma_flatten_and_flatten_alt_are_equivalent();
        lemma_remainder_unterminated(front);
        if bytes.last() == NEWLINE {
            let line = remainder(front).push(NEWLINE);
            assert(line.drop_last() =~= remainder(front));
            assert(lines.drop_last() =~= complete_lines(front));
            assert(lines.last() == line);
            assert(front.push(NEWLINE) =~= bytes);
            assert(lines.flatten_alt() == lines.drop_last().flatten_alt() + lines.last());
            assert(complete_lines(front).flatten_alt() + remainder(front) == front);
            assert(rest =~= Seq::<u8>::empty());
            assert(lines.flatten_alt() + rest =~= bytes);
            assert forall|i: int| 0 <= i < lines.len() implies terminated(#[trigger] lines[i]) by {
                if i < lines.len() - 1 {
                    assert(lines[i] == complete_lines(front)[i]);
                }
            }
        } else {
            assert(front.push(bytes.last()) =~= bytes);
            assert(complete_lines(front).flatten_alt() + remainder(front) == front);
            assert(lines.flatten_alt() + rest =~= bytes);
        }
    }
    if rest.len() == 0 {
        assert(lines.flatten_alt() + rest =~= lines.flatten_alt());
    } else {
        assert(raw_lines(bytes).drop_last() =~= lines);
    }
    assert forall|i: int| 0 <= i < raw_lines(bytes).len() implies (#[trigger] raw_lines(
        bytes,
    )[i]).len() > 0 by {
        if i < lines.len() {
            assert(terminated(lines[i]));
        }
    }
}

/// The output is cut into lines in one way only: terminated lines and an
/// unterminated rest that make up `bytes` are its complete lines and its
/// remainder.
pub proof fn law_lines_are_unique(bytes: Seq<u8>, lines: Seq<Seq<u8>>, rest: Seq<u8>)
    requires
        forall|i: int| 0 <= i < lines.len() ==> terminated(#[trigger] lines[i]),
        unterminated(rest),
        lines.flatten() + rest == bytes,
    ensures
        lines == complete_lines(bytes),
        rest == remainder(bytes),
    decreases lines.len(),
{
    lines.lemma_flatten_and_flatten_alt_are_equivalent();
    if lines.len() == 0 {
        assert(lines.flatten_alt() + rest =~= rest);
        lemma_scan_unterminated(rest);
        assert(lines =~= complete_lines(bytes));
    } else {
        let front = lines.drop_last();
        let last = lines.last();
        let x = front.flatten();
        let none = Seq::<u8>::empty();
        front.lemma_flatten_and_flatten_alt_are_equivalent();
        assert forall|i: int| 0 <= i < front.len() implies terminated(#[trigger] front[i]) by {
            assert(front[i] == lines[i]);
        }
        assert(x + none =~= x);
        law_lines_are_unique(x, front, none);
        assert(terminated(lines[lines.len() - 1]));
        lemma_raw_lines_of_line(last);
        lemma_scan_unterminated(rest);
        lemma_scan_concat(last, rest);
        assert(remainder(last) =~= none);
        assert(remainder(last) + rest =~= rest);
        assert(complete_lines(last + rest) =~= seq![last]);
        lemma_scan_concat(x, last + rest);
        assert(remainder(x) + (last + rest) =~= last + rest);
        assert(lines.flatten_alt() == front.flatten_alt() + last);
        assert(bytes =~= x + (last + rest));
        assert(complete_lines(bytes) =~= front + seq![last]);
        assert(front + seq![last] =~= lines);
    }
}

/// Output that follows a complete line is read on its own: the lines of
/// `x + y` are the lines of `x`, then the lines of `y`.
pub proof fn lemma_raw_lines_concat(x: Seq<u8>, y: Seq<u8>)
    requires
        at_line_start(x),
    ensures
        raw_lines(x + y) == raw_lines(x) + raw_lines(y),
        relayed(x + y) == relayed(x) + relayed(y),
{
    lemma_scan_concat(x, y);
    assert(remainder(x) =~= Seq::<u8>::empty());
    assert(remainder(x) + y =~= y);
    assert(raw_lines(x + y) =~= raw_lines(x) + raw_lines(y));
    lemma_deliver_concat(raw_lines(x), raw_lines(y));
}

/// One terminated line is read as itself.
pub proof fn lemma_raw_lines_of_line(line: Seq<u8>)
    requires
        terminated(line),
    ensures
        raw_lines(line) == seq![line],
        at_line_start(line),
{
    let body = line.drop_last();
    lemma_scan_unterminated(body);
    assert(body.push(NEWLINE) =~= line);
    assert(scan(line).0 =~= seq![line]);
    assert(raw_lines(line) =~= seq![line]);
}

/// Of a terminated line between two stretches of output, what is relayed is
/// what is relayed of the first stretch, then of the line, then of the
/// second.
pub proof fn lemma_relayed_around_line(before: Seq<u8>, line: Seq<u8>, after: Seq<u8>)
    requires
        at_line_start(before),
        terminated(line),
    ensures
        relayed(before + line + after) == relayed(before) + deliver(seq![line]) + relayed(after),
        deliver(seq![line]) == match line_text(line) {
            Some(text) => seq![text],
            None => Seq::<Seq<char>>::empty(),
        },
{
    lemma_raw_lines_of_line(line);
    lemma_raw_lines_concat(before, line);
    assert(at_line_start(before + line)) by {
        assert((before + line).last() == line.last());
    }
    lemma_raw_lines_concat(before + line, after);
    lemma_deliver_one(line);
}

/// A malformed line in the middle of the output is left out without ending
/// the stream: what stands before it and after it is relayed as if the line
/// had not been written.
pub proof fn law_malformed_line_does_not_end_stream(
    before: Seq<u8>,
    line: Seq<u8>,
    after: Seq<u8>,
)
    requires
        at_line_start(before),
        terminated(line),
        !valid_utf8(strip_terminator(line)),
    ensures
        relayed(before + line + after) == relayed(before) + relayed(after),
{
    lemma_relayed_around_line(before, line, after);
    assert(relayed(before) + Seq::<Seq<char>>::empty() =~= relayed(before));
}

/// A well-formed line in the middle of the output is relayed in its place,
/// without its terminator.
pub proof fn law_well_formed_line_keeps_its_place(
    before: Seq<u8>,
    line: Seq<u8>,
    after: Seq<u8>,
)
    requires
        at_line_start(before),
        terminated(line),
        valid_utf8(strip_terminator(line)),
    ensures
        relayed(before + line + after) == relayed(before).push(
            decode_utf8(strip_terminator(line)),
        ) + relayed(after),
{
    lemma_relayed_around_line(before, line, after);
    assert(relayed(before) + seq![decode_utf8(strip_terminator(line))] =~= relayed(before).push(
        decode_utf8(strip_terminator(line)),
    ));
}

/// A line's text ends neither with a newline that ended the line nor with the
/// carriage return before it: the terminator takes one or two bytes off a
/// terminated line and none off any other.
pub proof fn law_terminator_is_stripped(raw: Seq<u8>)
    ensures
        strip_terminator(raw).len() <= raw.len(),
        strip_terminator(raw) == raw.take(strip_terminator(raw).len() as int),
        raw.len() == 0 || raw.last() != NEWLINE ==> strip_terminator(raw) == raw,
        raw.len() > 0 && raw.last() == NEWLINE ==> {
            ||| strip_terminator(raw).push(NEWLINE) == raw
            ||| strip_terminator(raw).push(CARRIAGE_RETURN).push(NEWLINE) == raw
        },
{
    let s = strip_terminator(raw);
    assert(s =~= raw.take(s.len() as int));
    if raw.len() == 0 || raw.last() != NEWLINE {
        assert(s =~= raw);
    } else {
        let body = raw.drop_last();
        if body.len() > 0 && body.last() == CARRIAGE_RETURN {
            assert(s.push(CARRIAGE_RETURN).push(NEWLINE) =~= raw);
        } else {
            assert(s.push(NEWLINE) =~= raw);
        }
    }
}

/// A byte of the ASCII range at the end of a line changes nothing about
/// whether the line is well-formed.
pub proof fn lemma_ascii_suffix_keeps_validity(s: Seq<u8>, b: u8)
    requires
        b <= 0x7f,
    ensures
        valid_utf8(s.push(b)) <==> valid_utf8(s),
{
    let t = s.push(b);
    let one = seq![b];
    assert(valid_utf8(one)) by {
        assert(is_leading_byte_width_1(one[0]));
        assert((b & 0x7F) as u32 <= 0x7f) by (bit_vector);
        assert(valid_first_scalar(one));
        assert(pop_first_scalar(one) =~= Seq::<u8>::empty());
        reveal_with_fuel(valid_utf8, 2);
    }
    if valid_utf8(s) {
        valid_utf8_concat(s, one);
        assert(s + one =~= t);
    }
    if valid_utf8(t) {
        is_char_boundary_iff_not_is_continuation_byte(t, s.len() as int);
        valid_utf8_split(t, s.len() as int);
        assert(t.subrange(0, s.len() as int) =~= s);
    }
}

/// A line is well-formed with its terminator exactly where it is well-formed
/// without: to drop the malformed lines after the terminator is taken off is
/// to drop the lines that were malformed as they were read.
pub proof fn law_terminator_keeps_validity(raw: Seq<u8>)
    ensures
        valid_utf8(raw) <==> valid_utf8(strip_terminator(raw)),
        line_text(raw) is Some <==> valid_utf8(raw),
{
    if raw.len() > 0 && raw.last() == NEWLINE {
        let body = raw.drop_last();
        assert(body.push(NEWLINE) =~= raw);
        lemma_ascii_suffix_keeps_validity(body, NEWLINE);
        if body.len() > 0 && body.last() == CARRIAGE_RETURN {
            assert(body.drop_last().push(CARRIAGE_RETURN) =~= body);
            lemma_ascii_suffix_keeps_validity(body.drop_last(), CARRIAGE_RETURN);
        }
    }
}

} // verus!
