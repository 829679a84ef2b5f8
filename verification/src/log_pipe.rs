use vstd::prelude::*;
use vstd::utf8::valid_utf8;
use vstd::utf8::decode_utf8;
use vstd::utf8::encode_utf8;
use vstd::utf8::decode_utf8_encode_utf8;

verus! {

/// The size of the buffer that the redirected output is read into.
pub const LOG_BUFFER_LENGTH: usize = 512;

/// The bytes of the buffer that hold output; one stays a terminator.
pub const LOG_BUFFER_AVAILABLE: usize = 511;

/// The newline byte.
pub const NEWLINE: u8 = 10;

/// Whether `bytes` holds a newline.
pub open spec fn has_newline(bytes: Seq<u8>) -> bool {
    exists|i: int| 0 <= i < bytes.len() && bytes[i] == NEWLINE
}

/// Whether `p` is the position of the last newline of `bytes`.
pub open spec fn is_last_newline(bytes: Seq<u8>, p: int) -> bool {
    &&& 0 <= p < bytes.len()
    &&& bytes[p] == NEWLINE
    &&& forall|q: int| p < q < bytes.len() ==> bytes[q] != NEWLINE
}

/// What the reader of the redirected output does after one read.
#[derive(Debug, PartialEq, Eq)]
pub enum ReaderAction {
    /// The write end was closed: stop reading.
    Finish,
    /// The read failed: report the failure and stop reading.
    Fail,
    /// Log these bytes as one message and read on.
    Log(Vec<u8>),
    /// Nothing to log yet: read on.
    Wait,
}

/// The message an action logs, if it logs one.
pub open spec fn logged_message(action: ReaderAction) -> Option<Seq<u8>> {
    match action {
        ReaderAction::Log(m) => Some(m@),
        _ => None,
    }
}

/// The position of the last newline of `bytes`, where it holds one.
pub open spec fn last_newline(bytes: Seq<u8>) -> int {
    choose|p: int| is_last_newline(bytes, p)
}

/// What one read that brought `received` does, the reader holding `pending`:
/// the message it logs, if any, and the bytes that stay pending after it.
/// The read bytes are appended to the pending ones. If the whole then holds
/// a newline, the buffer is cut into a terminated string at its last
/// newline: the bytes before that newline are logged and the bytes after it
/// stay pending. If it holds none but fills the buffer, it is logged whole,
/// the free byte after it terminating it, and nothing stays pending. Else it
/// all stays pending and nothing is logged.
pub open spec fn spec_step(pending: Seq<u8>, received: Seq<u8>) -> (Option<Seq<u8>>, Seq<u8>) {
    let data = pending + received;
    if has_newline(data) {
        let p = last_newline(data);
        (Some(data.subrange(0, p)), data.subrange(p + 1, data.len() as int))
    } else if data.len() == LOG_BUFFER_AVAILABLE {
        (Some(data), Seq::empty())
    } else {
        (None, data)
    }
}

/// The reader of the redirected standard output and error: it gathers what
/// is written to them and hands out one message per completed line, or per
/// full buffer.
pub struct LogPipeReader {
    pending: Vec<u8>,
}

impl LogPipeReader {
    /// The bytes read but not logged yet, kept at the start of the buffer.
    pub closed spec fn pending(&self) -> Seq<u8> {
        self.pending@
    }

    /// The reader's invariant: what it keeps fits the buffer with room for
    /// one more byte, and holds no newline.
    pub open spec fn wf(&self) -> bool {
        &&& self.pending().len() < LOG_BUFFER_AVAILABLE
        &&& !has_newline(self.pending())
    }

    /// How many bytes the next read may bring: the room left in the buffer.
    pub open spec fn spec_read_capacity(&self) -> int {
        LOG_BUFFER_AVAILABLE - self.pending().len()
    }

    /// A reader that holds nothing yet.
    pub fn new() -> (reader: LogPipeReader)
        ensures
            reader.wf(),
            reader.pending() == Seq::<u8>::empty(),
    {
        LogPipeReader { pending: Vec::new() }
    }

    /// How many bytes the next read may bring; at least one.
    pub fn read_capacity(&self) -> (capacity: usize)
        requires
            self.wf(),
        ensures
            capacity == self.spec_read_capacity(),
            1 <= capacity <= LOG_BUFFER_AVAILABLE,
    {
        LOG_BUFFER_AVAILABLE - self.pending.len()
    }

    /// The bytes read but not logged yet.
    pub fn pending_bytes(&self) -> (bytes: &Vec<u8>)
        ensures
            bytes@ == self.pending(),
    {
        &self.pending
    }

    /// Handles the outcome of one read of at most the read capacity:
    /// `result` is what the read returned and `received` the bytes it
    /// brought. A result of zero ends the reading and a negative result
    /// fails it, the pending bytes unchanged. Otherwise the read is handled
    /// as `spec_step` says: the text up to the last newline is logged as a
    /// terminated string and what follows that newline stays pending, or a
    /// full buffer without newline is logged whole, or everything stays
    /// pending. A logged message never fills the whole buffer: one byte
    /// always stays free for the terminator.
    pub fn step(&mut self, result: isize, received: &[u8]) -> (action: ReaderAction)
        requires
            old(self).wf(),
            result <= old(self).spec_read_capacity(),
            result > 0 ==> received@.len() == result,
        ensures
            final(self).wf(),
            action matches ReaderAction::Log(message) ==> message@.len() <= LOG_BUFFER_AVAILABLE,
            result == 0 ==> action == ReaderAction::Finish && final(self).pending() == old(
                self,
            ).pending(),
            result < 0 ==> action == ReaderAction::Fail && final(self).pending() == old(
                self,
            ).pending(),
            result > 0 ==> (action is Log || action is Wait) && logged_message(action) == spec_step(
                old(self).pending(),
                received@,
            ).0 && final(self).pending() == spec_step(old(self).pending(), received@).1,
    {
        if result == 0 {
            return ReaderAction::Finish;
        }
        if result < 0 {
            return ReaderAction::Fail;
        }
        let ghost old_pending = self.pending@;
        let mut data: Vec<u8> = Vec::new();
        std::mem::swap(&mut data, &mut self.pending);
        let count: usize = result as usize;
        let mut i: usize = 0;
        while i < count
            invariant
                count == received@.len(),
                i <= count,
                data@ == old_pending + received@.subrange(0, i as int),
                old_pending.len() + count <= LOG_BUFFER_AVAILABLE,
            decreases count - i,
        {
            data.push(received[i]);
            i = i + 1;
        }
        assert(received@.subrange(0, count as int) == received@);
        let ghost whole = data@;
        assert(whole == old_pending + received@);
        let end = data.len();
        // Search for the last newline, from the end.
        let mut k: usize = end;
        while k > 0 && data[k - 1] != NEWLINE
            invariant
                k <= end == data@.len(),
                data@ == whole,
                forall|q: int| k <= q < end ==> whole[q] != NEWLINE,
            decreases k,
        {
            k = k - 1;
        }
        if k > 0 {
            let p: usize = k - 1;
            assert(is_last_newline(whole, p as int));
            proof {
                let c = last_newline(whole);
                assert(is_last_newline(whole, c));
                if c < p {
                    assert(whole[p as int] != NEWLINE);
                } else if c > p {
                    assert(whole[c] != NEWLINE);
                }
                assert(c == p);
            }
            let mut message: Vec<u8> = Vec::new();
            let mut m: usize = 0;
            while m < p
                invariant
                    m <= p < end == data@.len(),
                    data@ == whole,
                    message@ == whole.subrange(0, m as int),
                decreases p - m,
            {
                message.push(data[m]);
                m = m + 1;
            }
            let mut rest: Vec<u8> = Vec::new();
            let mut j: usize = k;
            while j < end
                invariant
                    k <= j <= end == data@.len(),
                    data@ == whole,
                    rest@ == whole.subrange(k as int, j as int),
                decreases end - j,
            {
                rest.push(data[j]);
                j = j + 1;
            }
            assert(forall|q: int| 0 <= q < rest@.len() ==> rest@[q] == whole[k + q]);
            assert(!has_newline(rest@));
            self.pending = rest;
            ReaderAction::Log(message)
        } else {
            assert(!has_newline(whole));
            if end == LOG_BUFFER_AVAILABLE {
                ReaderAction::Log(data)
            } else {
                self.pending = data;
                ReaderAction::Wait
            }
        }
    }
}

/// The bytes a sequence of reads brings, in order.
pub open spec fn concat_reads(reads: Seq<Seq<u8>>) -> Seq<u8>
    decreases reads.len(),
{
    if reads.len() == 0 {
        Seq::empty()
    } else {
        reads[0] + concat_reads(reads.drop_first())
    }
}

/// Logged messages read back as lines: each message, then a newline.
pub open spec fn lines_text(messages: Seq<Seq<u8>>) -> Seq<u8>
    decreases messages.len(),
{
    if messages.len() == 0 {
        Seq::empty()
    } else {
        messages[0] + seq![NEWLINE] + lines_text(messages.drop_first())
    }
}

/// The messages that a sequence of reads makes the reader log, in order,
/// the reader holding `pending` at first, and what stays pending at the end.
pub open spec fn spec_run(pending: Seq<u8>, reads: Seq<Seq<u8>>) -> (Seq<Seq<u8>>, Seq<u8>)
    decreases reads.len(),
{
    if reads.len() == 0 {
        (Seq::empty(), pending)
    } else {
        let first = spec_step(pending, reads[0]);
        let rest = spec_run(first.1, reads.drop_first());
        match first.0 {
            Some(message) => (seq![message] + rest.0, rest.1),
            None => (rest.0, rest.1),
        }
    }
}

/// Whether every stretch of `bytes` without a newline is shorter than the
/// free part of the buffer, so that no line has to be cut.
pub open spec fn lines_fit(bytes: Seq<u8>) -> bool {
    forall|i: int, j: int|
        0 <= i <= j <= bytes.len() && j - i >= LOG_BUFFER_AVAILABLE ==> has_newline(
            #[trigger] bytes.subrange(i, j),
        )
}

proof fn lemma_last_newline_exists(bytes: Seq<u8>)
    requires
        has_newline(bytes),
    ensures
        is_last_newline(bytes, last_newline(bytes)),
    decreases bytes.len(),
{
    let n = bytes.len() - 1;
    if bytes[n] == NEWLINE {
        assert(is_last_newline(bytes, n));
    } else {
        let shorter = bytes.drop_last();
        let i = choose|i: int| 0 <= i < bytes.len() && bytes[i] == NEWLINE;
        assert(shorter[i] == NEWLINE);
        lemma_last_newline_exists(shorter);
        let q = last_newline(shorter);
        assert(bytes[q] == NEWLINE);
        assert forall|r: int| q < r < bytes.len() implies bytes[r] != NEWLINE by {
            if r < n {
                assert(shorter[r] == bytes[r]);
            }
        }
        assert(is_last_newline(bytes, q));
    }
}

proof fn lemma_lines_fit_subrange(bytes: Seq<u8>, a: int, b: int)
    requires
        lines_fit(bytes),
        0 <= a <= b <= bytes.len(),
    ensures
        lines_fit(bytes.subrange(a, b)),
{
    let sub = bytes.subrange(a, b);
    assert forall|i: int, j: int|
        0 <= i <= j <= sub.len() && j - i >= LOG_BUFFER_AVAILABLE implies has_newline(
        #[trigger] sub.subrange(i, j),
    ) by {
        assert(sub.subrange(i, j) =~= bytes.subrange(a + i, a + j));
    }
}

proof fn lemma_lines_text_ends_in_newline(messages: Seq<Seq<u8>>)
    ensures
        lines_text(messages).len() == 0 || lines_text(messages).last() == NEWLINE,
    decreases messages.len(),
{
    if messages.len() > 0 {
        lemma_lines_text_ends_in_newline(messages.drop_first());
    }
}

/// Over any sequence of reads in which no stretch without a newline fills
/// the buffer, every complete line is logged exactly once and in order, and
/// the bytes after the last newline are not logged: the logged messages,
/// each followed by a newline, and then the bytes still pending, give back
/// exactly the bytes read; what is pending holds no newline; and the logged
/// lines end with a newline.
pub proof fn lemma_run_logs_each_line_once(pending: Seq<u8>, reads: Seq<Seq<u8>>)
    requires
        !has_newline(pending),
        lines_fit(pending + concat_reads(reads)),
    ensures
        lines_text(spec_run(pending, reads).0) + spec_run(pending, reads).1 == pending
            + concat_reads(reads),
        !has_newline(spec_run(pending, reads).1),
        lines_text(spec_run(pending, reads).0).len() == 0 || lines_text(
            spec_run(pending, reads).0,
        ).last() == NEWLINE,
    decreases reads.len(),
{
    lemma_lines_text_ends_in_newline(spec_run(pending, reads).0);
    if reads.len() == 0 {
        assert(pending + concat_reads(reads) =~= pending);
        assert(lines_text(spec_run(pending, reads).0) =~= Seq::<u8>::empty());
        assert(Seq::<u8>::empty() + pending =~= pending);
    } else {
        let first = reads[0];
        let tail = reads.drop_first();
        let whole = pending + concat_reads(reads);
        let data = pending + first;
        assert(whole =~= data + concat_reads(tail));
        if has_newline(data) {
            lemma_last_newline_exists(data);
            let p = last_newline(data);
            let message = data.subrange(0, p);
            let next = data.subrange(p + 1, data.len() as int);
            assert(!has_newline(next)) by {
                if has_newline(next) {
                    let i = choose|i: int| 0 <= i < next.len() && next[i] == NEWLINE;
                    assert(data[p + 1 + i] == NEWLINE);
                }
            }
            assert(next + concat_reads(tail) =~= whole.subrange(p + 1, whole.len() as int));
            lemma_lines_fit_subrange(whole, p + 1, whole.len() as int);
            lemma_run_logs_each_line_once(next, tail);
            let rest = spec_run(next, tail);
            assert(spec_step(pending, first) == (Some(message), next));
            let all = seq![message] + rest.0;
            assert(all.drop_first() =~= rest.0);
            assert(lines_text(all) == message + seq![NEWLINE] + lines_text(rest.0));
            assert(data =~= message + seq![NEWLINE] + next);
            assert(spec_run(pending, reads) == (all, rest.1));
            let head = message + seq![NEWLINE];
            assert(lines_text(all) == head + lines_text(rest.0));
            assert(lines_text(all) + rest.1 =~= head + (lines_text(rest.0) + rest.1));
            assert(head + (next + concat_reads(tail)) =~= data + concat_reads(tail));
            assert(lines_text(all) + rest.1 == whole);
        } else {
            if data.len() >= LOG_BUFFER_AVAILABLE {
                assert(whole.subrange(0, data.len() as int) =~= data);
            }
            assert(spec_step(pending, first) == (None::<Seq<u8>>, data));
            lemma_run_logs_each_line_once(data, tail);
        }
    }
}

/// Logged messages read back as output: each message, then the newline it
/// was cut at; a message that fills the free part of the buffer was flushed
/// without one.
pub open spec fn joined(messages: Seq<Seq<u8>>) -> Seq<u8>
    decreases messages.len(),
{
    if messages.len() == 0 {
        Seq::empty()
    } else {
        let first = messages[0];
        let end = if first.len() < LOG_BUFFER_AVAILABLE {
            seq![NEWLINE]
        } else {
            Seq::empty()
        };
        first + end + joined(messages.drop_first())
    }
}

/// Whether each read of `reads` brings at most the room left in the buffer
/// when it is made, the reader holding `pending` at first.
pub open spec fn reads_fit(pending: Seq<u8>, reads: Seq<Seq<u8>>) -> bool
    decreases reads.len(),
{
    reads.len() == 0 || (pending.len() + reads[0].len() <= LOG_BUFFER_AVAILABLE && reads_fit(
        spec_step(pending, reads[0]).1,
        reads.drop_first(),
    ))
}

/// One read loses no byte and logs no byte twice: if it logs a message cut
/// at a newline, the message, that newline and the bytes left pending are
/// exactly the pending bytes followed by the bytes read; if it flushes a
/// full buffer, the message is exactly the pending bytes followed by the
/// bytes read and nothing stays pending; if it logs nothing, all of them
/// stay pending. What stays pending holds no newline and leaves room in the
/// buffer.
pub proof fn lemma_step_keeps_every_byte(pending: Seq<u8>, received: Seq<u8>)
    requires
        !has_newline(pending),
        pending.len() + received.len() <= LOG_BUFFER_AVAILABLE,
    ensures
        spec_step(pending, received).0 matches Some(message) ==> (if message.len()
            < LOG_BUFFER_AVAILABLE {
            message + seq![NEWLINE] + spec_step(pending, received).1 == pending + received
        } else {
            message == pending + received && spec_step(pending, received).1.len() == 0
        }),
        spec_step(pending, received).0 is None ==> spec_step(pending, received).1 == pending
            + received,
        !has_newline(spec_step(pending, received).1),
        spec_step(pending, received).1.len() < LOG_BUFFER_AVAILABLE,
{
    let data = pending + received;
    if has_newline(data) {
        lemma_last_newline_exists(data);
        let p = last_newline(data);
        let next = data.subrange(p + 1, data.len() as int);
        assert(data =~= data.subrange(0, p) + seq![NEWLINE] + next);
        assert(!has_newline(next)) by {
            if has_newline(next) {
                let i = choose|i: int| 0 <= i < next.len() && next[i] == NEWLINE;
                assert(data[p + 1 + i] == NEWLINE);
            }
        }
    }
}

/// Over any sequence of reads that each fit the room left in the buffer,
/// long lines included, no byte read is dropped or repeated: the logged
/// messages, each followed by the newline it was cut at (none after a flush
/// of a full buffer), then the bytes still pending, give back exactly the
/// bytes read, in order.
pub proof fn lemma_run_keeps_every_byte(pending: Seq<u8>, reads: Seq<Seq<u8>>)
    requires
        !has_newline(pending),
        pending.len() < LOG_BUFFER_AVAILABLE,
        reads_fit(pending, reads),
    ensures
        joined(spec_run(pending, reads).0) + spec_run(pending, reads).1 == pending
            + concat_reads(reads),
        !has_newline(spec_run(pending, reads).1),
        spec_run(pending, reads).1.len() < LOG_BUFFER_AVAILABLE,
    decreases reads.len(),
{
    if reads.len() == 0 {
        assert(pending + concat_reads(reads) =~= pending);
        assert(joined(spec_run(pending, reads).0) =~= Seq::<u8>::empty());
        assert(Seq::<u8>::empty() + pending =~= pending);
    } else {
        let first = reads[0];
        let tail = reads.drop_first();
        let step = spec_step(pending, first);
        lemma_step_keeps_every_byte(pending, first);
        lemma_run_keeps_every_byte(step.1, tail);
        let rest = spec_run(step.1, tail);
        let whole = pending + concat_reads(reads);
        assert(whole =~= (pending + first) + concat_reads(tail));
        match step.0 {
            Some(message) => {
                let all = seq![message] + rest.0;
                assert(spec_run(pending, reads) == (all, rest.1));
                assert(all.drop_first() =~= rest.0);
                assert(all[0] == message);
                if message.len() < LOG_BUFFER_AVAILABLE {
                    let head = message + seq![NEWLINE];
                    assert(joined(all) == head + joined(rest.0));
                    assert(joined(all) + rest.1 =~= head + (joined(rest.0) + rest.1));
                    assert(head + (step.1 + concat_reads(tail)) =~= (head + step.1) + concat_reads(
                        tail,
                    ));
                } else {
                    assert(joined(all) =~= message + joined(rest.0));
                    assert(step.1 =~= Seq::<u8>::empty());
                    assert(joined(all) + rest.1 =~= message + (joined(rest.0) + rest.1));
                    assert(step.1 + concat_reads(tail) =~= concat_reads(tail));
                }
            },
            None => {
                assert(spec_run(pending, reads) == rest);
            },
        }
    }
}

/// The text logged for a message of bytes read from the redirected output.
pub open spec fn spec_log_text(message: Seq<u8>) -> Seq<char> {
    if valid_utf8(message) {
        decode_utf8(message)
    } else {
        "Unreadable log buffer!"@
    }
}

/// The logged text of a valid UTF-8 message, empty ones included, encodes
/// back to exactly the message's bytes; the notice is logged only for a
/// message that is no valid UTF-8.
pub proof fn lemma_log_text_round_trip(message: Seq<u8>)
    ensures
        valid_utf8(message) ==> encode_utf8(spec_log_text(message)) == message,
        !valid_utf8(message) ==> spec_log_text(message) == "Unreadable log buffer!"@,
{
    if valid_utf8(message) {
        decode_utf8_encode_utf8(message);
    }
}

/// Decodes bytes as UTF-8 with `std::str::from_utf8`, which succeeds exactly
/// on valid UTF-8 and then gives the characters those bytes encode.
#[verifier::external_body]
fn str_from_utf8(bytes: &[u8]) -> (text: Option<&str>)
    ensures
        text is Some <==> valid_utf8(bytes@),
        text matches Some(s) ==> s@ == decode_utf8(bytes@),
{
    match std::str::from_utf8(bytes) {
        Ok(s) => Some(s),
        Err(_) => None,
    }
}

/// The text to log for a message: the message decoded as UTF-8, or a notice
/// that it is unreadable where it is no valid UTF-8.
pub fn log_text(message: &[u8]) -> (text: String)
    ensures
        text@ == spec_log_text(message@),
{
    match str_from_utf8(message) {
        Some(s) => s.to_owned(),
        None => {
            let notice = "Unreadable log buffer!";
            proof {
                reveal_strlit("Unreadable log buffer!");
            }
            notice.to_owned()
        },
    }
}

} // verus!
