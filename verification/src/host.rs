//! The host's side of one invocation: what the guest's host functions read and change.

use vstd::prelude::*;
use vstd::string::*;
use vstd::utf8::{
    decode_utf8, decode_utf8_encode_utf8, decode_utf8_split, encode_utf8, encode_utf8_decode_utf8,
    encode_utf8_valid_utf8, is_char_boundary, is_char_boundary_iff_not_is_continuation_byte,
    is_continuation_byte, valid_utf8_split,
};
use crate::call_data::CallData;
use crate::determinism::{after_draw, drawn, DeterministicRng, RngState};
use crate::guest::{
    checked_range, content, copied, guest_read, guest_written, range_in, read_guest, write_fault,
    write_guest, write_memory, GuestFault,
};
use crate::lossy::{lossy_text, read_lossy};
use crate::text::byte_len;

verus! {

/// The most log lines that are kept of one invocation.
pub const MAX_LOG_LINES: usize = 256;

/// The longest message of a log line, in bytes.
pub const MAX_LOG_MESSAGE: usize = 32768;

/// How much a log line matters.
#[derive(Debug, Clone, Copy, PartialEq, Eq, Structural)]
pub enum LogLevel {
    Log,
}

/// A log line.
#[derive(Debug)]
pub struct LogLine {
    pub message: String,
    pub level: LogLevel,
    pub is_truncated: bool,
    /// When the line was written, in milliseconds since the epoch.
    pub timestamp_ms: u64,
}

/// The content of a log line.
pub struct LogTree {
    pub message: Seq<char>,
    pub level: LogLevel,
    pub is_truncated: bool,
    pub timestamp_ms: u64,
}

impl View for LogLine {
    type V = LogTree;

    open spec fn view(&self) -> LogTree {
        LogTree {
            message: self.message@,
            level: self.level,
            is_truncated: self.is_truncated,
            timestamp_ms: self.timestamp_ms,
        }
    }
}

/// The contents of some log lines.
pub open spec fn log_trees(ls: Seq<LogLine>) -> Seq<LogTree> {
    ls.map_values(|l: LogLine| l@)
}

/// The bytes in an optional buffer.
pub open spec fn bytes_view(b: Option<Vec<u8>>) -> Option<Seq<u8>> {
    match b {
        Some(v) => Some(v@),
        None => None,
    }
}

/// The state of one invocation.
pub struct HostContext {
    pub input: Vec<u8>,
    pub output: Option<Vec<u8>>,
    pub error: Option<Vec<u8>>,
    pub log_lines: Vec<LogLine>,
    pub rng: DeterministicRng,
    pub unix_timestamp_ms: i64,
    pub observed_rng: bool,
    pub observed_time: bool,
}

/// The content of the state of one invocation.
pub struct HostTree {
    pub input: Seq<u8>,
    pub output: Option<Seq<u8>>,
    pub error: Option<Seq<u8>>,
    pub log_lines: Seq<LogTree>,
    pub rng: RngState,
    pub unix_timestamp_ms: i64,
    pub observed_rng: bool,
    pub observed_time: bool,
}

impl View for HostContext {
    type V = HostTree;

    open spec fn view(&self) -> HostTree {
        HostTree {
            input: self.input@,
            output: bytes_view(self.output),
            error: bytes_view(self.error),
            log_lines: log_trees(self.log_lines@),
            rng: self.rng@,
            unix_timestamp_ms: self.unix_timestamp_ms,
            observed_rng: self.observed_rng,
            observed_time: self.observed_time,
        }
    }
}

/// Whether a message can be kept: it is short enough, or can be cut at the longest length.
pub open spec fn cuttable(message: Seq<char>) -> bool {
    encode_utf8(message).len() > MAX_LOG_MESSAGE ==> is_char_boundary(
        encode_utf8(message),
        MAX_LOG_MESSAGE as int,
    )
}

/// A message, cut at the longest length.
pub open spec fn cut(message: Seq<char>) -> Seq<char> {
    if encode_utf8(message).len() > MAX_LOG_MESSAGE {
        decode_utf8(encode_utf8(message).take(MAX_LOG_MESSAGE as int))
    } else {
        message
    }
}

/// The log line for a message.
pub open spec fn line_of(message: Seq<char>, unix_timestamp_ms: i64) -> LogTree {
    LogTree {
        message: cut(message),
        level: LogLevel::Log,
        is_truncated: false,
        timestamp_ms: if unix_timestamp_ms < 0 {
            0
        } else {
            unix_timestamp_ms as u64
        },
    }
}

/// The state after a log line: the line is kept unless there are enough lines already.
pub open spec fn logged(s: HostTree, line: LogTree) -> HostTree {
    if s.log_lines.len() < MAX_LOG_LINES {
        HostTree { log_lines: s.log_lines.push(line), ..s }
    } else {
        s
    }
}

fn cut_message(message: &str) -> (r: String)
    requires
        cuttable(message@),
    ensures
        r@ == cut(message@),
{
    if byte_len(message) > MAX_LOG_MESSAGE {
        let (head, _tail) = message.split_at(MAX_LOG_MESSAGE);
        proof {
            encode_utf8_decode_utf8(head@);
            assert(head.spec_bytes() =~= encode_utf8(message@).take(MAX_LOG_MESSAGE as int));
        }
        head.to_owned()
    } else {
        message.to_owned()
    }
}

/// What is wrong with a request for random bytes. The memory is looked for even where no bytes
/// are asked for.
pub open spec fn random_fault(memory: Option<Seq<u8>>, dest: i32, len: i32) -> Option<GuestFault> {
    if len < 0 {
        Some(GuestFault::NegativeLength)
    } else if dest < 0 {
        Some(GuestFault::NegativePointer)
    } else {
        match memory {
            None => Some(GuestFault::MemoryMissing),
            Some(m) => if len > 0 && dest + len > m.len() {
                Some(GuestFault::WriteOutOfBounds)
            } else {
                None
            },
        }
    }
}

/// What is wrong with a request for part of a buffer that is to go into guest memory.
pub open spec fn load_fault(
    buffer: Seq<u8>,
    memory: Option<Seq<u8>>,
    offset: i32,
    dest: i32,
    len: i32,
    out_of_bounds: GuestFault,
) -> Option<GuestFault> {
    if !range_in(offset, len, buffer.len()) {
        Some(out_of_bounds)
    } else {
        write_fault(memory, dest, buffer.subrange(offset as int, offset + len))
    }
}

/// Guest memory after part of a buffer was loaded into it.
pub open spec fn loaded(buffer: Seq<u8>, memory: Seq<u8>, offset: i32, dest: i32, len: i32) -> Seq<
    u8,
> {
    if range_in(offset, len, buffer.len()) {
        guest_written(memory, dest, buffer.subrange(offset as int, offset + len))
    } else {
        memory
    }
}

impl HostContext {
    /// The state at the start of an invocation.
    pub fn new(input: Vec<u8>, seed: [u8; 32], unix_timestamp_ms: i64) -> (r: HostContext)
        ensures
            r@ == (HostTree {
                input: input@,
                output: None,
                error: None,
                log_lines: Seq::empty(),
                rng: RngState { seed: seed@, word: 0 },
                unix_timestamp_ms,
                observed_rng: false,
                observed_time: false,
            }),
    {
        let r = HostContext {
            input,
            output: None,
            error: None,
            log_lines: Vec::new(),
            rng: DeterministicRng::from_seed(seed),
            unix_timestamp_ms,
            observed_rng: false,
            observed_time: false,
        };
        assert(log_trees(r.log_lines@) =~= Seq::empty());
        r
    }

    /// `__convex_input_length`: how many bytes the input has, as far as an `i32` can tell.
    pub fn input_length(&self) -> (r: i32)
        ensures
            r == (if self@.input.len() <= i32::MAX {
                self@.input.len() as int
            } else {
                i32::MAX as int
            }),
    {
        let n: usize = self.input.len();
        if n as u64 <= 0x7fff_ffff {
            n as i32
        } else {
            0x7fff_ffff
        }
    }

    /// `__convex_input_load`: copy part of the input into guest memory.
    pub fn input_load(&self, memory: Option<&mut [u8]>, offset: i32, dest: i32, len: i32) -> (r:
        Result<(), GuestFault>)
        ensures
            match memory {
                Some(m) => {
                    &&& final(m)@ == loaded(self@.input, m@, offset, dest, len)
                    &&& match load_fault(
                        self@.input,
                        Some(m@),
                        offset,
                        dest,
                        len,
                        GuestFault::InputOutOfBounds,
                    ) {
                        Some(f) => r matches Err(e) && e == f,
                        None => r is Ok,
                    }
                },
                None => match load_fault(
                    self@.input,
                    None,
                    offset,
                    dest,
                    len,
                    GuestFault::InputOutOfBounds,
                ) {
                    Some(f) => r matches Err(e) && e == f,
                    None => r is Ok,
                },
            },
    {
        match checked_range(offset, len, self.input.len()) {
            None => Err(GuestFault::InputOutOfBounds),
            Some((p, n)) => {
                let bytes = copied(self.input.as_slice(), p, n);
                write_guest(memory, dest, bytes.as_slice())
            },
        }
    }

    /// `__convex_output_set`: copy the result out of guest memory.
    pub fn output_set(&mut self, memory: Option<&[u8]>, ptr: i32, len: i32) -> (r: Result<
        (),
        GuestFault,
    >)
        ensures
            match guest_read(content(memory), ptr, len) {
                Ok(b) => r is Ok && final(self)@ == (HostTree { output: Some(b), ..old(self)@ }),
                Err(f) => r matches Err(e) && e == f && final(self)@ == old(self)@,
            },
    {
        match read_guest(memory, ptr, len) {
            Err(f) => Err(f),
            Ok(b) => {
                self.output = Some(b);
                Ok(())
            },
        }
    }

    /// `__convex_error_set`: copy the error out of guest memory.
    pub fn error_set(&mut self, memory: Option<&[u8]>, ptr: i32, len: i32) -> (r: Result<
        (),
        GuestFault,
    >)
        ensures
            match guest_read(content(memory), ptr, len) {
                Ok(b) => r is Ok && final(self)@ == (HostTree { error: Some(b), ..old(self)@ }),
                Err(f) => r matches Err(e) && e == f && final(self)@ == old(self)@,
            },
    {
        match read_guest(memory, ptr, len) {
            Err(f) => Err(f),
            Ok(b) => {
                self.error = Some(b);
                Ok(())
            },
        }
    }

    /// Keep a log line, and give it back to be passed on.
    pub fn log_text(&mut self, message: &str) -> (r: LogLine)
        requires
            cuttable(message@),
        ensures
            r@ == line_of(message@, old(self)@.unix_timestamp_ms),
            final(self)@ == logged(old(self)@, r@),
    {
        let timestamp_ms: u64 = if self.unix_timestamp_ms < 0 {
            0
        } else {
            self.unix_timestamp_ms as u64
        };
        let text = cut_message(message);
        let line = LogLine {
            message: text.clone(),
            level: LogLevel::Log,
            is_truncated: false,
            timestamp_ms,
        };
        if self.log_lines.len() < MAX_LOG_LINES {
            let kept = LogLine {
                message: text,
                level: LogLevel::Log,
                is_truncated: false,
                timestamp_ms,
            };
            let ghost before = self.log_lines@;
            self.log_lines.push(kept);
            assert(log_trees(self.log_lines@) =~= log_trees(before).push(line@));
        }
        line
    }

    /// Keep the log line that some bytes hold, and give it back to be passed on. Nothing is kept
    /// where the message is too long and cannot be cut at the longest length.
    pub fn log(&mut self, b: &[u8]) -> (r: Option<LogLine>)
        ensures
            match r {
                Some(line) => cuttable(lossy_text(b@)) && line@ == line_of(
                    lossy_text(b@),
                    old(self)@.unix_timestamp_ms,
                ) && final(self)@ == logged(old(self)@, line@),
                None => !cuttable(lossy_text(b@)) && final(self)@ == old(self)@,
            },
    {
        let message = read_lossy(b);
        let text = message.as_str();
        if byte_len(text) > MAX_LOG_MESSAGE && !text.is_char_boundary(MAX_LOG_MESSAGE) {
            return None;
        }
        Some(self.log_text(text))
    }

    /// `__convex_log`: keep a log line that stands in guest memory, and give it back to be passed
    /// on. One that is too long and cannot be cut traps the guest.
    pub fn log_from_guest(&mut self, memory: Option<&[u8]>, ptr: i32, len: i32) -> (r: Result<
        LogLine,
        GuestFault,
    >)
        ensures
            match guest_read(content(memory), ptr, len) {
                Err(f) => r matches Err(e) && e == f && final(self)@ == old(self)@,
                Ok(b) => if cuttable(lossy_text(b)) {
                    &&& r matches Ok(line)
                    &&& line@ == line_of(lossy_text(b), old(self)@.unix_timestamp_ms)
                    &&& final(self)@ == logged(old(self)@, line@)
                } else {
                    r matches Err(e) && e == GuestFault::LogUncut && final(self)@ == old(self)@
                },
            },
    {
        match read_guest(memory, ptr, len) {
            Err(f) => Err(f),
            Ok(b) => match self.log(b.as_slice()) {
                Some(line) => Ok(line),
                None => Err(GuestFault::LogUncut),
            },
        }
    }

    /// `__convex_now_ms`: the virtual time, in milliseconds since the epoch.
    pub fn now_ms(&mut self) -> (r: i64)
        ensures
            r == old(self)@.unix_timestamp_ms,
            final(self)@ == (HostTree { observed_time: true, ..old(self)@ }),
    {
        self.observed_time = true;
        self.unix_timestamp_ms
    }

    /// `__convex_random_bytes`: draw random bytes into guest memory. The bounds are checked before
    /// anything is drawn.
    pub fn random_bytes(&mut self, memory: Option<&mut [u8]>, dest: i32, len: i32) -> (r: Result<
        (),
        GuestFault,
    >)
        ensures
            match memory {
                Some(m) => match random_fault(Some(m@), dest, len) {
                    Some(f) => r matches Err(e) && e == f && final(self)@ == old(self)@
                        && final(m)@ == m@,
                    None => {
                        &&& r is Ok
                        &&& final(m)@ == guest_written(
                            m@,
                            dest,
                            drawn(old(self)@.rng, len as nat),
                        )
                        &&& final(self)@ == (HostTree {
                            rng: after_draw(old(self)@.rng, len as nat),
                            observed_rng: true,
                            ..old(self)@
                        })
                    },
                },
                None => r matches Err(e) && Some(e) == random_fault(None, dest, len) && final(self)@
                    == old(self)@,
            },
    {
        match memory {
            None => if len < 0 {
                Err(GuestFault::NegativeLength)
            } else if dest < 0 {
                Err(GuestFault::NegativePointer)
            } else {
                Err(GuestFault::MemoryMissing)
            },
            Some(m) => self.random_into(m, dest, len),
        }
    }

    fn random_into(&mut self, m: &mut [u8], dest: i32, len: i32) -> (r: Result<(), GuestFault>)
        ensures
            match random_fault(Some(old(m)@), dest, len) {
                Some(f) => r matches Err(e) && e == f && final(self)@ == old(self)@ && final(m)@
                    == old(m)@,
                None => {
                    &&& r is Ok
                    &&& final(m)@ == guest_written(
                        old(m)@,
                        dest,
                        drawn(old(self)@.rng, len as nat),
                    )
                    &&& final(self)@ == (HostTree {
                        rng: after_draw(old(self)@.rng, len as nat),
                        observed_rng: true,
                        ..old(self)@
                    })
                },
            },
    {
        if len < 0 {
            return Err(GuestFault::NegativeLength);
        }
        if dest < 0 {
            return Err(GuestFault::NegativePointer);
        }
        if len > 0 && checked_range(dest, len, m.len()).is_none() {
            return Err(GuestFault::WriteOutOfBounds);
        }
        let bytes = self.rng.draw(len as usize);
        self.observed_rng = true;
        write_memory(m, dest, bytes.as_slice())
    }
}

/// `__convex_call_data_load`: copy part of the call data into guest memory.
pub fn call_data_load(
    call_data: &CallData,
    memory: Option<&mut [u8]>,
    offset: i32,
    dest: i32,
    len: i32,
) -> (r: Result<(), GuestFault>)
    ensures
        match memory {
            Some(m) => {
                &&& final(m)@ == loaded(call_data@, m@, offset, dest, len)
                &&& match load_fault(
                    call_data@,
                    Some(m@),
                    offset,
                    dest,
                    len,
                    GuestFault::CallDataOutOfBounds,
                ) {
                    Some(f) => r matches Err(e) && e == f,
                    None => r is Ok,
                }
            },
            None => match load_fault(
                call_data@,
                None,
                offset,
                dest,
                len,
                GuestFault::CallDataOutOfBounds,
            ) {
                Some(f) => r matches Err(e) && e == f,
                None => r is Ok,
            },
        },
{
    match call_data.load(offset, len) {
        None => Err(GuestFault::CallDataOutOfBounds),
        Some(bytes) => write_guest(memory, dest, bytes.as_slice()),
    }
}

/// However many lines are logged, no more than the most are kept, and those that were kept stay.
pub proof fn log_stays_bounded(s: HostTree, line: LogTree)
    requires
        s.log_lines.len() <= MAX_LOG_LINES,
    ensures
        logged(s, line).log_lines.len() <= MAX_LOG_LINES,
        s.log_lines.is_prefix_of(logged(s, line).log_lines),
{
}

/// A log message of at most 32768 bytes is kept whole, and of a longer one, where it can be cut
/// there, the first 32768 bytes are.
pub proof fn long_messages_are_cut(message: Seq<char>)
    requires
        cuttable(message),
    ensures
        encode_utf8(message).len() <= 32768 ==> cut(message) == message,
        encode_utf8(message).len() > 32768 ==> encode_utf8(cut(message)).len() == 32768,
        cut(message).is_prefix_of(message),
{
    let bytes = encode_utf8(message);
    encode_utf8_decode_utf8(message);
    encode_utf8_valid_utf8(message);
    if bytes.len() > 32768 {
        let head = bytes.take(32768);
        assert(head =~= bytes.subrange(0, 32768));
        valid_utf8_split(bytes, 32768);
        decode_utf8_split(bytes, 32768);
        decode_utf8_encode_utf8(head);
    }
}

/// A message that cannot be cut is one that is too long and holds a character that starts before
/// the longest length and ends after it.
pub proof fn short_messages_can_be_logged(message: Seq<char>)
    ensures
        encode_utf8(message).len() <= 32768 ==> cuttable(message),
        encode_utf8(message).len() > 32768 ==> (cuttable(message) <==> !is_continuation_byte(
            encode_utf8(message)[32768],
        )),
{
    encode_utf8_valid_utf8(message);
    if encode_utf8(message).len() > 32768 {
        is_char_boundary_iff_not_is_continuation_byte(encode_utf8(message), 32768);
    }
}

/// A line is logged at the time of the invocation, or at the epoch where that lies before it, and is
/// never said to be cut.
pub proof fn lines_carry_the_time(message: Seq<char>, unix_timestamp_ms: i64)
    ensures
        line_of(message, unix_timestamp_ms).message == cut(message),
        unix_timestamp_ms >= 0 ==> line_of(message, unix_timestamp_ms).timestamp_ms
            == unix_timestamp_ms,
        unix_timestamp_ms < 0 ==> line_of(message, unix_timestamp_ms).timestamp_ms == 0,
        line_of(message, unix_timestamp_ms).level == LogLevel::Log,
        !line_of(message, unix_timestamp_ms).is_truncated,
{
}

/// The first 256 lines are kept in order, and any further ones are not. Logging changes nothing
/// else.
pub proof fn first_lines_are_kept(s: HostTree, line: LogTree)
    ensures
        s.log_lines.len() < 256 ==> logged(s, line).log_lines == s.log_lines.push(line),
        s.log_lines.len() >= 256 ==> logged(s, line).log_lines == s.log_lines,
        logged(s, line) == (HostTree { log_lines: logged(s, line).log_lines, ..s }),
{
}

/// Random bytes are drawn exactly where the guest has a memory, the place and the length are not
/// below 0, and there is room for the bytes; where none are asked for there always is. The length
/// is looked at before the place, and the place before the memory.
pub proof fn random_bytes_need_room(memory: Option<Seq<u8>>, dest: i32, len: i32)
    ensures
        random_fault(memory, dest, len) is None <==> len >= 0 && dest >= 0 && (
        memory matches Some(m) && (len == 0 || dest + len <= m.len())),
        random_fault(memory, dest, len) == Some(GuestFault::NegativeLength) <==> len < 0,
        random_fault(memory, dest, len) == Some(GuestFault::NegativePointer) <==> len >= 0 && dest
            < 0,
        random_fault(memory, dest, len) == Some(GuestFault::MemoryMissing) <==> len >= 0 && dest
            >= 0 && memory is None,
        random_fault(memory, dest, len) == Some(GuestFault::WriteOutOfBounds) <==> len > 0 && dest
            >= 0 && (memory matches Some(m) && dest + len > m.len()),
{
}

/// What a guest loads from a buffer is what the buffer holds there: after a load that is carried
/// out, the guest finds it in its memory, and everything else is as it was. A load fails exactly
/// where the range lies outside the buffer, which is then what is said of it, or where the memory
/// has no room for it; a load that fails changes nothing.
pub proof fn loads_copy_the_buffer(
    buffer: Seq<u8>,
    m: Seq<u8>,
    offset: i32,
    dest: i32,
    len: i32,
    out_of_bounds: GuestFault,
    k: int,
)
    ensures
        load_fault(buffer, Some(m), offset, dest, len, out_of_bounds) is None <==> offset >= 0
            && len >= 0 && offset + len <= buffer.len() && (len == 0 || (dest >= 0 && dest + len
            <= m.len())),
        offset < 0 || len < 0 || offset + len > buffer.len() ==> load_fault(
            buffer,
            Some(m),
            offset,
            dest,
            len,
            out_of_bounds,
        ) == Some(out_of_bounds),
        load_fault(buffer, Some(m), offset, dest, len, out_of_bounds) is Some ==> loaded(
            buffer,
            m,
            offset,
            dest,
            len,
        ) == m,
        load_fault(buffer, Some(m), offset, dest, len, out_of_bounds) is None ==> {
            let after = loaded(buffer, m, offset, dest, len);
            &&& after.len() == m.len()
            &&& 0 <= k < m.len() && dest <= k < dest + len ==> after[k] == buffer[offset + k - dest]
            &&& 0 <= k < m.len() && !(dest <= k < dest + len) ==> after[k] == m[k]
        },
{
    if range_in(offset, len, buffer.len()) {
        let part = buffer.subrange(offset as int, offset + len);
        assert(part.len() == len);
    }
}

/// A guest that is told the length of its input is told as much of it as a number of the guest can
/// hold.
pub proof fn input_lengths_fit_the_guest(host: HostContext, len: i32)
    requires
        call_ensures(HostContext::input_length, (&host,), len),
    ensures
        0 <= len && len <= host@.input.len(),
        host@.input.len() <= 0x7fff_ffff ==> len == host@.input.len(),
        host@.input.len() > 0x7fff_ffff ==> len == 0x7fff_ffff,
{
}

/// What a guest sets as its output is there until it sets another, and so is what it sets as its
/// error; a read that fails leaves both as they were.
pub proof fn set_outputs_stay(
    host: &mut HostContext,
    memory: &[u8],
    ptr: i32,
    len: i32,
    set: Result<(), GuestFault>,
)
    requires
        call_ensures(HostContext::output_set, (host, Some(memory), ptr, len), set),
    ensures
        set is Ok <==> len == 0 || (len > 0 && ptr >= 0 && ptr + len <= memory@.len()),
        set is Ok && len > 0 ==> final(host)@.output == Some(
            memory@.subrange(ptr as int, ptr + len),
        ),
        set is Err ==> final(host)@ == old(host)@,
        final(host)@.error == old(host)@.error,
{
}

/// A new host holds its input and nothing else, and shows the time that it was given.
pub proof fn hosts_start_with_their_input(
    input: Vec<u8>,
    seed: [u8; 32],
    ms: i64,
    made: &mut HostContext,
    shown: i64,
)
    requires
        call_ensures(HostContext::new, (input, seed, ms), *made),
        call_ensures(HostContext::now_ms, (made,), shown),
    ensures
        old(made)@.input == input@ && old(made)@.output is None && old(made)@.error is None,
        old(made)@.log_lines.len() == 0,
        !old(made)@.observed_rng && !old(made)@.observed_time,
        shown == ms,
        final(made)@.observed_time && !final(made)@.observed_rng,
{
}

} // verus!
