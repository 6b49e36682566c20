use vstd::prelude::*;

use super::cmd::RunCmd;
use crate::text::{chars_of, string_of};
use vstd::slice::slice_subrange;

verus! {

/// Where a piece of console text is shown.
#[derive(Clone, Copy, Debug, PartialEq, Eq, Structural)]
pub enum OutputType {
    /// In the console.
    Console,
    /// In the console, and briefly over the game.
    Alert,
}

impl Default for OutputType {
    fn default() -> (r: OutputType)
        ensures
            r == OutputType::Console,
    {
        OutputType::Console
    }
}

/// When a piece of console text was written: the time in milliseconds, and
/// a generation count that orders pieces written at the same time.
#[derive(Clone, Copy, Debug, PartialEq, Eq, Structural, PartialOrd, Ord, Hash)]
pub struct Timestamp {
    pub timestamp: i64,
    pub generation: u16,
}

impl Timestamp {
    pub fn new(timestamp: i64, generation: u16) -> (r: Timestamp)
        ensures
            r == (Timestamp { timestamp, generation }),
    {
        Timestamp { timestamp, generation }
    }
}

/// What running a command handler gives back: more commands to run first,
/// and text to print.
pub struct ExecResult {
    pub extra_commands: Vec<RunCmd>,
    pub output: String,
    pub output_ty: OutputType,
}

impl ExecResult {
    /// A result that only prints `output` on the console.
    pub fn text(output: String) -> (r: ExecResult)
        ensures
            r.extra_commands@.len() == 0,
            r.output == output,
            r.output_ty == OutputType::Console,
    {
        ExecResult { extra_commands: Vec::new(), output, output_ty: OutputType::Console }
    }
}

impl Default for ExecResult {
    fn default() -> (r: ExecResult)
        ensures
            r.extra_commands@.len() == 0,
            r.output@.len() == 0,
            r.output_ty == OutputType::Console,
    {
        ExecResult::text(String::new())
    }
}

/// A finished piece of console text.
#[derive(Debug)]
pub struct ConsoleText {
    pub output_type: OutputType,
    pub text: String,
}

/// The state of a [`ConsoleOutput`], with its texts as character sequences.
pub struct OutputModel {
    pub generation: u16,
    pub center_print: Option<(Timestamp, Seq<char>)>,
    pub buffer_ty: OutputType,
    pub buffer: Seq<char>,
    pub last_timestamp: i64,
    pub chunks: Seq<(Timestamp, OutputType, Seq<char>)>,
}

/// The generation after `g`, wrapping around.
pub open spec fn next_generation(g: u16) -> u16 {
    if g == u16::MAX {
        0
    } else {
        (g + 1) as u16
    }
}

/// The position of the last newline in `s`, if there is one.
pub open spec fn last_newline(s: Seq<char>) -> Option<int>
    decreases s.len(),
{
    if s.len() == 0 {
        None
    } else if s.last() == '\n' {
        Some(s.len() - 1)
    } else {
        last_newline(s.drop_last())
    }
}

/// The model after the buffer is turned into a finished piece.
pub open spec fn flushed(m: OutputModel) -> OutputModel {
    OutputModel {
        generation: next_generation(m.generation),
        buffer: Seq::empty(),
        chunks: m.chunks.push(
            (Timestamp { timestamp: m.last_timestamp, generation: m.generation }, m.buffer_ty, m.buffer),
        ),
        ..m
    }
}

/// The model after every complete line in the buffer is turned into a
/// finished piece.
pub open spec fn lines_flushed(m: OutputModel) -> OutputModel {
    match last_newline(m.buffer) {
        Some(k) => OutputModel {
            generation: next_generation(m.generation),
            buffer: m.buffer.subrange(k + 1, m.buffer.len() as int),
            chunks: m.chunks.push(
                (
                    Timestamp { timestamp: m.last_timestamp, generation: m.generation },
                    m.buffer_ty,
                    m.buffer.subrange(0, k + 1),
                ),
            ),
            ..m
        },
        None => m,
    }
}

/// The model after `chars` of type `ty` are written at time `timestamp`.
pub open spec fn pushed(m: OutputModel, chars: Seq<char>, timestamp: i64, ty: OutputType) -> OutputModel {
    if chars.len() == 0 {
        m
    } else {
        let m1 = OutputModel { last_timestamp: timestamp, ..m };
        let m2 = if ty != m1.buffer_ty {
            flushed(m1)
        } else {
            m1
        };
        lines_flushed(OutputModel { buffer_ty: ty, buffer: m2.buffer + chars, ..m2 })
    }
}

/// All the text the model holds: the finished pieces in order, then the buffer.
pub open spec fn all_text(m: OutputModel) -> Seq<char> {
    m.chunks.map_values(|c: (Timestamp, OutputType, Seq<char>)| c.2).flatten() + m.buffer
}

/// Text written to the console, collected into timestamped pieces that end
/// at a newline or where the kind of output changes.
#[derive(Debug)]
pub struct ConsoleOutput {
    generation: u16,
    center_print: Option<(Timestamp, String)>,
    buffer_ty: OutputType,
    buffer: Vec<char>,
    last_timestamp: i64,
    unwritten_chunks: Vec<(Timestamp, ConsoleText)>,
}

impl View for ConsoleOutput {
    type V = OutputModel;

    closed spec fn view(&self) -> OutputModel {
        OutputModel {
            generation: self.generation,
            center_print: match self.center_print {
                Some((t, s)) => Some((t, s@)),
                None => None,
            },
            buffer_ty: self.buffer_ty,
            buffer: self.buffer@,
            last_timestamp: self.last_timestamp,
            chunks: self.unwritten_chunks@.map_values(
                |c: (Timestamp, ConsoleText)| (c.0, c.1.output_type, c.1.text@),
            ),
        }
    }
}

impl ConsoleOutput {
    pub fn new() -> (r: ConsoleOutput)
        ensures
            r@ == (OutputModel {
                generation: 0,
                center_print: None,
                buffer_ty: OutputType::Console,
                buffer: Seq::empty(),
                last_timestamp: 0,
                chunks: Seq::empty(),
            }),
    {
        let r = ConsoleOutput {
            generation: 0,
            center_print: None,
            buffer_ty: OutputType::Console,
            buffer: Vec::new(),
            last_timestamp: 0,
            unwritten_chunks: Vec::new(),
        };
        assert(r@.buffer =~= Seq::<char>::empty());
        assert(r@.chunks =~= Seq::empty());
        r
    }

    /// Returns the current generation and advances it.
    fn generation(&mut self) -> (r: u16)
        ensures
            r == old(self)@.generation,
            final(self)@ == (OutputModel { generation: next_generation(r), ..old(self)@ }),
    {
        let out = self.generation;
        self.generation = self.generation.wrapping_add(1);
        out
    }

    /// Turns the buffer into a finished piece, even if it is empty.
    fn flush(&mut self)
        ensures
            final(self)@ == flushed(old(self)@),
    {
        let generation = self.generation();
        let mut taken: Vec<char> = Vec::new();
        std::mem::swap(&mut self.buffer, &mut taken);
        let text = string_of(taken.as_slice());
        let ghost before = self.unwritten_chunks@;
        self.unwritten_chunks.push(
            (
                Timestamp::new(self.last_timestamp, generation),
                ConsoleText { text, output_type: self.buffer_ty },
            ),
        );
        assert(self@.chunks =~= flushed(old(self)@).chunks);
        assert(self@.buffer =~= Seq::<char>::empty());
    }

    /// Turns every complete line in the buffer into a finished piece.
    fn try_flush(&mut self)
        ensures
            final(self)@ == lines_flushed(old(self)@),
    {
        let len = self.buffer.len();
        let mut i = len;
        let mut found = false;
        assert(self.buffer@.subrange(0, len as int) =~= self.buffer@);
        while i > 0 && !found
            invariant
                i <= len,
                len == self.buffer@.len(),
                self@ == old(self)@,
                last_newline(self.buffer@) == last_newline(self.buffer@.subrange(0, i as int)),
                found ==> i > 0 && self.buffer@[i - 1] == '\n',
            decreases i + (if found { 0int } else { 1int }),
        {
            if self.buffer[i - 1] == '\n' {
                found = true;
            } else {
                let ghost prefix = self.buffer@.subrange(0, i as int);
                assert(prefix.drop_last() =~= self.buffer@.subrange(0, i - 1));
                i = i - 1;
            }
        }
        if !found {
            assert(self.buffer@.subrange(0, 0) =~= Seq::<char>::empty());
            return;
        }
        assert(last_newline(self.buffer@.subrange(0, i as int)) == Some(i - 1));
        let k = i - 1;
        let ghost buf = self.buffer@;
        let mut line: Vec<char> = Vec::new();
        let mut rest: Vec<char> = Vec::new();
        let mut j: usize = 0;
        while j < len
            invariant
                j <= len,
                k < len,
                len == buf.len(),
                self.buffer@ == buf,
                line@ == buf.subrange(0, if j <= k + 1 { j as int } else { k + 1 }),
                rest@ == buf.subrange(k + 1, if j <= k + 1 { k + 1 } else { j as int }),
            decreases len - j,
        {
            if j <= k {
                line.push(self.buffer[j]);
            } else {
                rest.push(self.buffer[j]);
            }
            j = j + 1;
        }
        let generation = self.generation();
        let text = string_of(line.as_slice());
        self.buffer = rest;
        let ghost before = self.unwritten_chunks@;
        self.unwritten_chunks.push(
            (
                Timestamp::new(self.last_timestamp, generation),
                ConsoleText { text, output_type: self.buffer_ty },
            ),
        );
        assert(self@.chunks =~= lines_flushed(old(self)@).chunks);
    }

    /// Writes `chars` as text of type `ty` at time `timestamp`.
    fn push(&mut self, chars: &str, timestamp: i64, ty: OutputType)
        ensures
            final(self)@ == pushed(old(self)@, chars@, timestamp, ty),
    {
        if chars.is_empty() {
            return;
        }
        self.last_timestamp = timestamp;
        if ty != self.buffer_ty {
            self.flush();
        }
        self.buffer_ty = ty;
        let new_chars = chars_of(chars);
        let mut i: usize = 0;
        let ghost mid = self@;
        let ghost start = self.buffer@;
        while i < new_chars.len()
            invariant
                i <= new_chars@.len(),
                self@ == (OutputModel { buffer: start + new_chars@.subrange(0, i as int), ..mid }),
            decreases new_chars@.len() - i,
        {
            self.buffer.push(new_chars[i]);
            assert(self.buffer@ =~= start + new_chars@.subrange(0, i + 1));
            i = i + 1;
        }
        assert(new_chars@.subrange(0, i as int) =~= chars@);
        self.try_flush();
    }

    /// Writes `chars` and then a newline.
    fn push_line(&mut self, chars: &str, timestamp: i64, ty: OutputType)
        ensures
            final(self)@ == pushed(pushed(old(self)@, chars@, timestamp, ty), seq!['\n'], timestamp, ty),
    {
        self.push(chars, timestamp, ty);
        let newline = "\n";
        proof {
            reveal_strlit("\n");
            assert(newline@ =~= seq!['\n']);
        }
        self.push(newline, timestamp, ty);
    }

    pub fn print(&mut self, s: &str, timestamp: i64)
        ensures
            final(self)@ == pushed(old(self)@, s@, timestamp, OutputType::Console),
    {
        self.push(s, timestamp, OutputType::Console);
    }

    pub fn print_alert(&mut self, s: &str, timestamp: i64)
        ensures
            final(self)@ == pushed(old(self)@, s@, timestamp, OutputType::Alert),
    {
        self.push(s, timestamp, OutputType::Alert);
    }

    pub fn println(&mut self, s: &str, timestamp: i64)
        ensures
            final(self)@ == pushed(
                pushed(old(self)@, s@, timestamp, OutputType::Console),
                seq!['\n'],
                timestamp,
                OutputType::Console,
            ),
    {
        self.push_line(s, timestamp, OutputType::Console);
    }

    pub fn println_alert(&mut self, s: &str, timestamp: i64)
        ensures
            final(self)@ == pushed(
                pushed(old(self)@, s@, timestamp, OutputType::Alert),
                seq!['\n'],
                timestamp,
                OutputType::Alert,
            ),
    {
        self.push_line(s, timestamp, OutputType::Alert);
    }

    /// Sets the text printed in the middle of the screen.
    pub fn set_center_print(&mut self, print: String, timestamp: i64)
        ensures
            final(self)@ == (OutputModel {
                generation: next_generation(old(self)@.generation),
                center_print: Some(
                    (Timestamp { timestamp, generation: old(self)@.generation }, print@),
                ),
                ..old(self)@
            }),
    {
        let generation = self.generation();
        self.center_print = Some((Timestamp::new(timestamp, generation), print));
    }

    /// Takes the text to be printed in the middle of the screen, if any.
    pub fn drain_center_print(&mut self) -> (r: Option<(Timestamp, String)>)
        ensures
            final(self)@ == (OutputModel { center_print: None, ..old(self)@ }),
            match (r, old(self)@.center_print) {
                (Some((t, s)), Some((t2, s2))) => t == t2 && s@ == s2,
                (None, None) => true,
                _ => false,
            },
    {
        let mut taken = None;
        std::mem::swap(&mut self.center_print, &mut taken);
        taken
    }

    /// Takes the finished pieces of text that have not been taken yet.
    pub fn drain_unwritten(&mut self) -> (r: Vec<(Timestamp, ConsoleText)>)
        ensures
            final(self)@ == (OutputModel { chunks: Seq::empty(), ..old(self)@ }),
            r@.map_values(|c: (Timestamp, ConsoleText)| (c.0, c.1.output_type, c.1.text@))
                == old(self)@.chunks,
    {
        let mut taken: Vec<(Timestamp, ConsoleText)> = Vec::new();
        std::mem::swap(&mut self.unwritten_chunks, &mut taken);
        assert(self@.chunks =~= Seq::empty());
        taken
    }
}

impl Default for ConsoleOutput {
    fn default() -> (r: ConsoleOutput)
        ensures
            r@ == (OutputModel {
                generation: 0,
                center_print: None,
                buffer_ty: OutputType::Console,
                buffer: Seq::empty(),
                last_timestamp: 0,
                chunks: Seq::empty(),
            }),
    {
        ConsoleOutput::new()
    }
}

/// Turning the buffer into a finished piece keeps all the text, in order.
pub proof fn flushing_keeps_text(m: OutputModel)
    ensures
        all_text(flushed(m)) == all_text(m),
{
    let f = |c: (Timestamp, OutputType, Seq<char>)| c.2;
    let piece = (Timestamp { timestamp: m.last_timestamp, generation: m.generation }, m.buffer_ty, m.buffer);
    assert(m.chunks.push(piece).map_values(f) =~= m.chunks.map_values(f).push(m.buffer));
    m.chunks.map_values(f).lemma_flatten_push(m.buffer);
    assert(all_text(flushed(m)) =~= all_text(m));
}

/// Turning complete lines into finished pieces keeps all the text, in order.
pub proof fn line_flushing_keeps_text(m: OutputModel)
    ensures
        all_text(lines_flushed(m)) == all_text(m),
{
    match last_newline(m.buffer) {
        Some(k) => {
            lemma_last_newline_in_range(m.buffer);
            let f = |c: (Timestamp, OutputType, Seq<char>)| c.2;
            let line = m.buffer.subrange(0, k + 1);
            let piece = (Timestamp { timestamp: m.last_timestamp, generation: m.generation }, m.buffer_ty, line);
            assert(m.chunks.push(piece).map_values(f) =~= m.chunks.map_values(f).push(line));
            m.chunks.map_values(f).lemma_flatten_push(line);
            assert(line + m.buffer.subrange(k + 1, m.buffer.len() as int) =~= m.buffer);
            assert(all_text(lines_flushed(m)) =~= all_text(m));
        },
        None => {},
    }
}

proof fn lemma_last_newline_in_range(s: Seq<char>)
    ensures
        last_newline(s) matches Some(k) ==> 0 <= k < s.len() && s[k] == '\n',
    decreases s.len(),
{
    if s.len() > 0 && s.last() != '\n' {
        lemma_last_newline_in_range(s.drop_last());
    }
}

/// Writing text to the console keeps everything written before and adds the
/// new text after it: the finished pieces followed by the buffer always
/// spell out all text written, in order.
pub proof fn writing_appends_text(m: OutputModel, chars: Seq<char>, timestamp: i64, ty: OutputType)
    ensures
        all_text(pushed(m, chars, timestamp, ty)) == all_text(m) + chars,
{
    if chars.len() == 0 {
        assert(all_text(m) + chars =~= all_text(m));
    } else {
        let m1 = OutputModel { last_timestamp: timestamp, ..m };
        let m2 = if ty != m1.buffer_ty {
            flushed(m1)
        } else {
            m1
        };
        flushing_keeps_text(m1);
        assert(all_text(m2) == all_text(m));
        let m3 = OutputModel { buffer_ty: ty, buffer: m2.buffer + chars, ..m2 };
        assert(all_text(m3) =~= all_text(m2) + chars);
        line_flushing_keeps_text(m3);
    }
}

/// One use of the console output: writing text, or taking the finished
/// pieces.
pub enum OutputEvent {
    Write { chars: Seq<char>, timestamp: i64, ty: OutputType },
    Drain,
}

/// The model after a run of uses, and the text the drains took, in order.
pub open spec fn run_output(m: OutputModel, events: Seq<OutputEvent>) -> (OutputModel, Seq<char>)
    decreases events.len(),
{
    if events.len() == 0 {
        (m, Seq::empty())
    } else {
        let (m1, taken) = run_output(m, events.drop_last());
        match events.last() {
            OutputEvent::Write { chars, timestamp, ty } => (pushed(m1, chars, timestamp, ty), taken),
            OutputEvent::Drain => (
                OutputModel { chunks: Seq::empty(), ..m1 },
                taken + m1.chunks.map_values(|c: (Timestamp, OutputType, Seq<char>)| c.2).flatten(),
            ),
        }
    }
}

/// All the text a run of uses writes, in order.
pub open spec fn written(events: Seq<OutputEvent>) -> Seq<char>
    decreases events.len(),
{
    if events.len() == 0 {
        Seq::empty()
    } else {
        written(events.drop_last()) + match events.last() {
            OutputEvent::Write { chars, .. } => chars,
            OutputEvent::Drain => Seq::empty(),
        }
    }
}

/// Over any run of writes and drains, the text taken by the drains,
/// followed by the text still held, is the text held at the start followed
/// by all text written: drains take what was written, in order, and take
/// nothing twice.
pub proof fn drained_then_held_is_written(m: OutputModel, events: Seq<OutputEvent>)
    ensures
        run_output(m, events).1 + all_text(run_output(m, events).0) == all_text(m) + written(events),
    decreases events.len(),
{
    if events.len() > 0 {
        drained_then_held_is_written(m, events.drop_last());
        let (m1, taken) = run_output(m, events.drop_last());
        match events.last() {
            OutputEvent::Write { chars, timestamp, ty } => {
                writing_appends_text(m1, chars, timestamp, ty);
                let w0 = written(events.drop_last());
                assert(written(events) == w0 + chars);
                assert(taken + all_text(m1) == all_text(m) + w0);
                assert(taken + (all_text(m1) + chars) =~= (taken + all_text(m1)) + chars);
                assert((all_text(m) + w0) + chars =~= all_text(m) + (w0 + chars));
            },
            OutputEvent::Drain => {
                let f = |c: (Timestamp, OutputType, Seq<char>)| c.2;
                let m2 = OutputModel { chunks: Seq::empty(), ..m1 };
                assert(m2.chunks.map_values(f) =~= Seq::<Seq<char>>::empty());
                assert(Seq::<Seq<char>>::empty().flatten() =~= Seq::<char>::empty());
                assert(all_text(m2) =~= m1.buffer);
                assert(taken + m1.chunks.map_values(f).flatten() + all_text(m2) =~= taken + all_text(
                    m1,
                ));
                assert(written(events) =~= written(events.drop_last()));
            },
        }
    }
}

/// The finished pieces the drains of a run take, in order.
pub open spec fn run_drained(m: OutputModel, events: Seq<OutputEvent>) -> Seq<(Timestamp, OutputType, Seq<char>)>
    decreases events.len(),
{
    if events.len() == 0 {
        Seq::empty()
    } else {
        let prev = run_drained(m, events.drop_last());
        match events.last() {
            OutputEvent::Write { .. } => prev,
            OutputEvent::Drain => prev + run_output(m, events.drop_last()).0.chunks,
        }
    }
}

proof fn lemma_no_newline_after_last(s: Seq<char>)
    ensures
        last_newline(s) is None ==> !s.contains('\n'),
        last_newline(s) matches Some(k) ==> !s.subrange(k + 1, s.len() as int).contains('\n'),
    decreases s.len(),
{
    lemma_last_newline_in_range(s);
    if s.len() > 0 {
        lemma_no_newline_after_last(s.drop_last());
        if s.last() != '\n' {
            if last_newline(s) is None {
                assert forall|i: int| 0 <= i < s.len() implies s[i] != '\n' by {
                    if i < s.len() - 1 {
                        assert(s.drop_last()[i] == s[i]);
                    }
                }
            } else {
                let k = last_newline(s)->0;
                let tail = s.subrange(k + 1, s.len() as int);
                assert forall|i: int| 0 <= i < tail.len() implies #[trigger] tail[i] != '\n' by {
                    if k + 1 + i < s.len() - 1 {
                        assert(s.drop_last().subrange(k + 1, s.len() - 1)[i] == s[k + 1 + i]);
                    }
                }
            }
        } else {
            assert(s.subrange(s.len() as int, s.len() as int).len() == 0);
        }
    }
}

proof fn lemma_pushed_buffer_has_no_newline(m: OutputModel, chars: Seq<char>, timestamp: i64, ty: OutputType)
    requires
        !m.buffer.contains('\n'),
    ensures
        !pushed(m, chars, timestamp, ty).buffer.contains('\n'),
{
    if chars.len() > 0 {
        let m1 = OutputModel { last_timestamp: timestamp, ..m };
        let m2 = if ty != m1.buffer_ty {
            flushed(m1)
        } else {
            m1
        };
        let m3 = OutputModel { buffer_ty: ty, buffer: m2.buffer + chars, ..m2 };
        lemma_no_newline_after_last(m3.buffer);
    }
}

/// Generations of pieces `d` followed by the pieces `m` holds run on from
/// `g0`, one per piece, and `m`'s generation is the next one.
pub open spec fn gens_from(d: Seq<(Timestamp, OutputType, Seq<char>)>, m: OutputModel, g0: u16) -> bool {
    let all = d + m.chunks;
    &&& forall|i: int| 0 <= i < all.len() ==> #[trigger] all[i].0.generation == (g0 + i) % 0x1_0000
    &&& m.generation == (g0 + all.len()) % 0x1_0000
}

proof fn lemma_flushed_gens(d: Seq<(Timestamp, OutputType, Seq<char>)>, m: OutputModel, g0: u16)
    requires
        gens_from(d, m, g0),
    ensures
        gens_from(d, flushed(m), g0),
        gens_from(d, lines_flushed(m), g0),
{
    let n = d.len() + m.chunks.len();
    assert(next_generation(m.generation) == (g0 + n + 1) % 0x1_0000) by {
        assert(m.generation == (g0 + n) % 0x1_0000);
    }
    let f = flushed(m);
    assert(d + f.chunks =~= (d + m.chunks).push(f.chunks.last()));
    if last_newline(m.buffer) is Some {
        let l = lines_flushed(m);
        assert(d + l.chunks =~= (d + m.chunks).push(l.chunks.last()));
    }
}

proof fn lemma_pushed_gens(
    d: Seq<(Timestamp, OutputType, Seq<char>)>,
    m: OutputModel,
    g0: u16,
    chars: Seq<char>,
    timestamp: i64,
    ty: OutputType,
)
    requires
        gens_from(d, m, g0),
    ensures
        gens_from(d, pushed(m, chars, timestamp, ty), g0),
{
    if chars.len() > 0 {
        let m1 = OutputModel { last_timestamp: timestamp, ..m };
        assert(gens_from(d, m1, g0));
        lemma_flushed_gens(d, m1, g0);
        let m2 = if ty != m1.buffer_ty {
            flushed(m1)
        } else {
            m1
        };
        let m3 = OutputModel { buffer_ty: ty, buffer: m2.buffer + chars, ..m2 };
        assert(gens_from(d, m3, g0));
        lemma_flushed_gens(d, m3, g0);
    }
}

proof fn lemma_run_gens(m: OutputModel, events: Seq<OutputEvent>)
    requires
        m.chunks.len() == 0,
    ensures
        gens_from(run_drained(m, events), run_output(m, events).0, m.generation),
    decreases events.len(),
{
    if events.len() == 0 {
        assert(Seq::<(Timestamp, OutputType, Seq<char>)>::empty() + m.chunks =~= Seq::empty());
        assert(m.generation == (m.generation + 0) % 0x1_0000);
    } else {
        lemma_run_gens(m, events.drop_last());
        let d = run_drained(m, events.drop_last());
        let m1 = run_output(m, events.drop_last()).0;
        match events.last() {
            OutputEvent::Write { chars, timestamp, ty } => {
                lemma_pushed_gens(d, m1, m.generation, chars, timestamp, ty);
            },
            OutputEvent::Drain => {
                let m2 = OutputModel { chunks: Seq::empty(), ..m1 };
                assert((d + m1.chunks) + m2.chunks =~= d + m1.chunks);
            },
        }
    }
}

proof fn lemma_run_buffer(m: OutputModel, events: Seq<OutputEvent>)
    requires
        !m.buffer.contains('\n'),
    ensures
        !run_output(m, events).0.buffer.contains('\n'),
        events.len() > 0 && events.last() is Drain ==> run_output(m, events).0.chunks.len() == 0,
    decreases events.len(),
{
    if events.len() > 0 {
        lemma_run_buffer(m, events.drop_last());
        let m1 = run_output(m, events.drop_last()).0;
        match events.last() {
            OutputEvent::Write { chars, timestamp, ty } => {
                lemma_pushed_buffer_has_no_newline(m1, chars, timestamp, ty);
            },
            OutputEvent::Drain => {},
        }
    }
}

/// Over any run of writes and drains from a console with nothing finished
/// and no complete line held:
/// - after a drain, the text drained so far is all text written up to
///   some point at or after the last newline written: what remains held
///   has no newline;
/// - while fewer than 65536 pieces have been made, no two drained pieces
///   have the same timestamp, so no piece is taken twice.
pub proof fn drains_take_complete_lines_once(m: OutputModel, events: Seq<OutputEvent>)
    requires
        m.chunks.len() == 0,
        !m.buffer.contains('\n'),
    ensures
        events.len() > 0 && events.last() is Drain ==> {
            let (m2, taken) = run_output(m, events);
            &&& taken + m2.buffer == m.buffer + written(events)
            &&& !m2.buffer.contains('\n')
        },
        run_drained(m, events).len() + run_output(m, events).0.chunks.len() <= 0x1_0000 ==> forall|
            i: int,
            j: int,
        |
            0 <= i < j < run_drained(m, events).len() ==> #[trigger] run_drained(m, events)[i].0
                != #[trigger] run_drained(m, events)[j].0,
{
    lemma_run_buffer(m, events);
    lemma_run_gens(m, events);
    drained_then_held_is_written(m, events);
    let (m2, taken) = run_output(m, events);
    let f = |c: (Timestamp, OutputType, Seq<char>)| c.2;
    assert(m.chunks.map_values(f) =~= Seq::<Seq<char>>::empty());
    assert(Seq::<Seq<char>>::empty().flatten() =~= Seq::<char>::empty());
    assert(all_text(m) =~= m.buffer);
    if events.len() > 0 && events.last() is Drain {
        assert(m2.chunks.map_values(f) =~= Seq::<Seq<char>>::empty());
        assert(all_text(m2) =~= m2.buffer);
    }
    let d = run_drained(m, events);
    let all = d + m2.chunks;
    if d.len() + m2.chunks.len() <= 0x1_0000 {
        assert forall|i: int, j: int| 0 <= i < j < d.len() implies #[trigger] d[i].0 != #[trigger] d[j].0 by {
            assert(all[i] == d[i]);
            assert(all[j] == d[j]);
            let g0 = m.generation as int;
            assert(all[i].0.generation == (g0 + i) % 0x1_0000);
            assert(all[j].0.generation == (g0 + j) % 0x1_0000);
            assert((g0 + i) % 0x1_0000 != (g0 + j) % 0x1_0000) by (nonlinear_arith)
                requires
                    0 <= i < j,
                    j - i < 0x1_0000,
            ;
        }
    }
}

/// Whether timestamp `a` comes before `b`: by time, then by generation.
pub open spec fn earlier(a: Timestamp, b: Timestamp) -> bool {
    a.timestamp < b.timestamp || (a.timestamp == b.timestamp && a.generation < b.generation)
}

fn is_earlier(a: Timestamp, b: Timestamp) -> (r: bool)
    ensures
        r == earlier(a, b),
{
    a.timestamp < b.timestamp || (a.timestamp == b.timestamp && a.generation < b.generation)
}

/// The console text that is shown, ordered by timestamp, and the text in
/// the middle of the screen.
#[derive(Debug)]
pub struct RenderConsoleOutput {
    text_chunks: Vec<(Timestamp, ConsoleText)>,
    center_print: (Timestamp, String),
}

impl RenderConsoleOutput {
    /// The pieces of text with their timestamps, in order.
    pub closed spec fn spec_chunks(self) -> Seq<(Timestamp, OutputType, Seq<char>)> {
        self.text_chunks@.map_values(|c: (Timestamp, ConsoleText)| (c.0, c.1.output_type, c.1.text@))
    }

    /// The text in the middle of the screen, with when it was set.
    pub closed spec fn spec_center(self) -> (Timestamp, Seq<char>) {
        (self.center_print.0, self.center_print.1@)
    }

    /// The pieces are ordered strictly by timestamp.
    pub open spec fn wf(self) -> bool {
        forall|i: int, j: int|
            0 <= i < j < self.spec_chunks().len() ==> earlier(
                #[trigger] self.spec_chunks()[i].0,
                #[trigger] self.spec_chunks()[j].0,
            )
    }

    /// The pieces as a map from timestamp to kind and text.
    pub open spec fn spec_map(self) -> Map<Timestamp, (OutputType, Seq<char>)> {
        Map::new(
            |t: Timestamp| exists|i: int| 0 <= i < self.spec_chunks().len() && #[trigger] self.spec_chunks()[i].0 == t,
            |t: Timestamp| {
                let i = choose|i: int| 0 <= i < self.spec_chunks().len() && #[trigger] self.spec_chunks()[i].0 == t;
                (self.spec_chunks()[i].1, self.spec_chunks()[i].2)
            },
        )
    }

    pub fn new() -> (r: RenderConsoleOutput)
        ensures
            r.wf(),
            r.spec_chunks().len() == 0,
            r.spec_center().0 == (Timestamp { timestamp: 0, generation: 0 }),
            r.spec_center().1.len() == 0,
    {
        let r = RenderConsoleOutput {
            text_chunks: Vec::new(),
            center_print: (Timestamp::new(0, 0), String::new()),
        };
        assert(r.spec_chunks() =~= Seq::empty());
        r
    }

    /// Adds a piece of text at its place in timestamp order, replacing a
    /// piece with the same timestamp.
    pub fn insert(&mut self, ts: Timestamp, text: ConsoleText)
        requires
            old(self).wf(),
        ensures
            final(self).wf(),
            final(self).spec_map() == old(self).spec_map().insert(ts, (text.output_type, text.text@)),
            final(self).spec_center() == old(self).spec_center(),
    {
        let ghost old_chunks = self.spec_chunks();
        let ghost entry = (ts, text.output_type, text.text@);
        let n = self.text_chunks.len();
        let mut i: usize = 0;
        while i < n && is_earlier(self.text_chunks[i].0, ts)
            invariant
                i <= n,
                n == self.text_chunks@.len(),
                self.spec_chunks() == old_chunks,
                forall|j: int| 0 <= j < i ==> earlier(#[trigger] old_chunks[j].0, ts),
            decreases n - i,
        {
            i = i + 1;
        }
        if i < n && self.text_chunks[i].0 == ts {
            self.text_chunks.remove(i);
            self.text_chunks.insert(i, (ts, text));
            assert(self.spec_chunks() =~= old_chunks.update(i as int, entry));
            assert forall|a: int| 0 <= a < self.spec_chunks().len() implies #[trigger] self.spec_chunks()[a].0
                == old_chunks[a].0 by {}
            assert(self.wf());
            assert(self.spec_map() =~= old(self).spec_map().insert(ts, (entry.1, entry.2))) by {
                assert forall|t: Timestamp| #[trigger] self.spec_map().contains_key(t) <==> old(
                    self,
                ).spec_map().insert(ts, (entry.1, entry.2)).contains_key(t) by {
                    if t != ts && old(self).spec_map().contains_key(t) {
                        let k = choose|k: int| 0 <= k < old_chunks.len() && #[trigger] old_chunks[k].0 == t;
                        assert(self.spec_chunks()[k].0 == t);
                    }
                    if t == ts {
                        assert(self.spec_chunks()[i as int].0 == t);
                    }
                }
                assert forall|t: Timestamp| #[trigger] self.spec_map().contains_key(t) implies self.spec_map()[t]
                    == old(self).spec_map().insert(ts, (entry.1, entry.2))[t] by {
                    let k = choose|k: int| 0 <= k < self.spec_chunks().len() && #[trigger] self.spec_chunks()[k].0 == t;
                    if t != ts {
                        let k2 = choose|k2: int| 0 <= k2 < old_chunks.len() && #[trigger] old_chunks[k2].0 == t;
                        assert(k == k2) by {
                            if k < k2 {
                                assert(earlier(old_chunks[k].0, old_chunks[k2].0));
                            } else if k2 < k {
                                assert(earlier(old_chunks[k2].0, old_chunks[k].0));
                            }
                        }
                    } else {
                        assert(k == i) by {
                            if k < i {
                                assert(earlier(self.spec_chunks()[k].0, self.spec_chunks()[i as int].0));
                            } else if i < k {
                                assert(earlier(self.spec_chunks()[i as int].0, self.spec_chunks()[k].0));
                            }
                        }
                    }
                }
            }
        } else {
            self.text_chunks.insert(i, (ts, text));
            assert(self.spec_chunks() =~= old_chunks.insert(i as int, entry));
            assert forall|a: int, b: int|
                    0 <= a < b < self.spec_chunks().len() implies earlier(
                    #[trigger] self.spec_chunks()[a].0,
                    #[trigger] self.spec_chunks()[b].0,
                ) by {
                    if b < i {
                    } else if a < i && b == i {
                    } else if a < i && b > i {
                        assert(earlier(old_chunks[a].0, ts));
                    } else if a == i {
                        assert(!earlier(old_chunks[i as int].0, ts));
                        if b > i + 1 {
                            assert(earlier(old_chunks[i as int].0, old_chunks[b - 1].0));
                        }
                    }
                }
            assert(self.wf());
            assert(self.spec_map() =~= old(self).spec_map().insert(ts, (entry.1, entry.2))) by {
                assert forall|t: Timestamp| #[trigger] self.spec_map().contains_key(t) <==> old(
                    self,
                ).spec_map().insert(ts, (entry.1, entry.2)).contains_key(t) by {
                    if t != ts && old(self).spec_map().contains_key(t) {
                        let k = choose|k: int| 0 <= k < old_chunks.len() && #[trigger] old_chunks[k].0 == t;
                        if k < i {
                            assert(self.spec_chunks()[k].0 == t);
                        } else {
                            assert(self.spec_chunks()[k + 1].0 == t);
                        }
                    }
                    if t == ts {
                        assert(self.spec_chunks()[i as int].0 == t);
                    }
                }
                assert forall|t: Timestamp| #[trigger] self.spec_map().contains_key(t) implies self.spec_map()[t]
                    == old(self).spec_map().insert(ts, (entry.1, entry.2))[t] by {
                    let k = choose|k: int| 0 <= k < self.spec_chunks().len() && #[trigger] self.spec_chunks()[k].0 == t;
                    if t != ts {
                        let k2 = choose|k2: int| 0 <= k2 < old_chunks.len() && #[trigger] old_chunks[k2].0 == t;
                        let k3 = if k2 < i { k2 } else { k2 + 1 };
                        assert(self.spec_chunks()[k3].0 == t);
                        assert(k == k3) by {
                            if k < k3 {
                                assert(earlier(self.spec_chunks()[k].0, self.spec_chunks()[k3].0));
                            } else if k3 < k {
                                assert(earlier(self.spec_chunks()[k3].0, self.spec_chunks()[k].0));
                            }
                        }
                    } else {
                        assert(k == i) by {
                            if k < i {
                                assert(earlier(self.spec_chunks()[k].0, self.spec_chunks()[i as int].0));
                            } else if i < k {
                                assert(earlier(self.spec_chunks()[i as int].0, self.spec_chunks()[k].0));
                            }
                        }
                    }
                }
            }
        }
    }

    /// Replaces the text in the middle of the screen.
    pub fn set_center_print(&mut self, ts: Timestamp, text: String)
        ensures
            final(self).spec_center() == (ts, text@),
            final(self).spec_chunks() == old(self).spec_chunks(),
    {
        self.center_print = (ts, text);
    }

    /// The pieces of text with their timestamps, in timestamp order.
    pub fn text(&self) -> (r: &[(Timestamp, ConsoleText)])
        ensures
            r@.map_values(|c: (Timestamp, ConsoleText)| (c.0, c.1.output_type, c.1.text@))
                == self.spec_chunks(),
    {
        self.text_chunks.as_slice()
    }

    /// The text in the middle of the screen, if it was set at or after `since`.
    pub fn center_print(&self, since: i64) -> (r: Option<&str>)
        ensures
            self.spec_center().0.timestamp >= since ==> (r matches Some(s) && s@
                == self.spec_center().1),
            self.spec_center().0.timestamp < since ==> r is None,
    {
        if self.center_print.0.timestamp >= since {
            Some(self.center_print.1.as_str())
        } else {
            None
        }
    }

    /// The pieces written at or after `since`, oldest first.
    pub fn recent(&self, since: i64) -> (r: &[(Timestamp, ConsoleText)])
        requires
            self.wf(),
        ensures
            r@.map_values(|c: (Timestamp, ConsoleText)| (c.0, c.1.output_type, c.1.text@))
                == self.spec_chunks().filter(
                |c: (Timestamp, OutputType, Seq<char>)| c.0.timestamp >= since,
            ),
    {
        let n = self.text_chunks.len();
        let mut i: usize = 0;
        while i < n && self.text_chunks[i].0.timestamp < since
            invariant
                i <= n,
                n == self.text_chunks@.len(),
                forall|j: int| 0 <= j < i ==> #[trigger] self.spec_chunks()[j].0.timestamp < since,
            decreases n - i,
        {
            i = i + 1;
        }
        let r = slice_subrange(self.text_chunks.as_slice(), i, n);
        proof {
            let f = |c: (Timestamp, OutputType, Seq<char>)| c.0.timestamp >= since;
            let chunks = self.spec_chunks();
            assert forall|j: int| i <= j < chunks.len() implies f(#[trigger] chunks[j]) by {
                if j > i {
                    assert(earlier(chunks[i as int].0, chunks[j].0));
                }
            }
            lemma_filter_split(chunks, f, i as int);
            assert(r@.map_values(|c: (Timestamp, ConsoleText)| (c.0, c.1.output_type, c.1.text@))
                =~= chunks.subrange(i as int, chunks.len() as int));
        }
        r
    }
}

/// A map with the pieces inserted in order, later ones replacing earlier
/// ones with the same timestamp.
pub open spec fn inserted_all(
    m: Map<Timestamp, (OutputType, Seq<char>)>,
    pieces: Seq<(Timestamp, OutputType, Seq<char>)>,
) -> Map<Timestamp, (OutputType, Seq<char>)>
    decreases pieces.len(),
{
    if pieces.len() == 0 {
        m
    } else {
        let p = pieces.last();
        inserted_all(m, pieces.drop_last()).insert(p.0, (p.1, p.2))
    }
}

impl RenderConsoleOutput {
    /// Adds pieces of text in order, each at its place by timestamp.
    pub fn extend(&mut self, pieces: Vec<(Timestamp, ConsoleText)>)
        requires
            old(self).wf(),
        ensures
            final(self).wf(),
            final(self).spec_map() == inserted_all(
                old(self).spec_map(),
                pieces@.map_values(|c: (Timestamp, ConsoleText)| (c.0, c.1.output_type, c.1.text@)),
            ),
            final(self).spec_center() == old(self).spec_center(),
    {
        let ghost all = pieces@.map_values(
            |c: (Timestamp, ConsoleText)| (c.0, c.1.output_type, c.1.text@),
        );
        let mut pieces = pieces;
        let mut n: usize = 0;
        let len = pieces.len();
        assert(all.len() == len);
        while pieces.len() > 0
            invariant
                self.wf(),
                n <= all.len(),
                n + pieces@.len() == all.len(),
                all.len() <= usize::MAX,
                pieces@.map_values(|c: (Timestamp, ConsoleText)| (c.0, c.1.output_type, c.1.text@))
                    == all.skip(n as int),
                self.spec_map() == inserted_all(old(self).spec_map(), all.take(n as int)),
                self.spec_center() == old(self).spec_center(),
            decreases pieces@.len(),
        {
            let ghost before = pieces@;
            let (ts, text) = pieces.remove(0);
            assert(before.map_values(
                |c: (Timestamp, ConsoleText)| (c.0, c.1.output_type, c.1.text@),
            )[0] == all.skip(n as int)[0]);
            assert(all.take(n + 1).drop_last() =~= all.take(n as int));
            assert(all.take(n + 1).last() == all[n as int]);
            self.insert(ts, text);
            assert(pieces@ =~= before.subrange(1, before.len() as int));
            assert forall|j: int| 0 <= j < pieces@.len() implies pieces@.map_values(
                |c: (Timestamp, ConsoleText)| (c.0, c.1.output_type, c.1.text@),
            )[j] == #[trigger] all.skip(n + 1)[j] by {
                assert(pieces@[j] == before[j + 1]);
                assert(before.map_values(
                    |c: (Timestamp, ConsoleText)| (c.0, c.1.output_type, c.1.text@),
                )[j + 1] == all.skip(n as int)[j + 1]);
            }
            assert(pieces@.map_values(|c: (Timestamp, ConsoleText)| (c.0, c.1.output_type, c.1.text@))
                =~= all.skip(n + 1));
            n = n + 1;
        }
        assert(all.skip(n as int).len() == 0);
        assert(all.take(n as int) =~= all);
    }

    /// All the text shown, in timestamp order.
    pub fn all_text(&self) -> (r: String)
        ensures
            r@ == self.spec_chunks().map_values(|c: (Timestamp, OutputType, Seq<char>)| c.2).flatten(),
    {
        let ghost texts = self.spec_chunks().map_values(
            |c: (Timestamp, OutputType, Seq<char>)| c.2,
        );
        let mut out: Vec<char> = Vec::new();
        let mut i: usize = 0;
        while i < self.text_chunks.len()
            invariant
                i <= self.text_chunks@.len(),
                texts == self.spec_chunks().map_values(|c: (Timestamp, OutputType, Seq<char>)| c.2),
                out@ == texts.take(i as int).flatten(),
            decreases self.text_chunks@.len() - i,
        {
            let piece = chars_of(self.text_chunks[i].1.text.as_str());
            let ghost before = out@;
            let mut k: usize = 0;
            while k < piece.len()
                invariant
                    k <= piece@.len(),
                    out@ == before + piece@.take(k as int),
                decreases piece@.len() - k,
            {
                out.push(piece[k]);
                assert(out@ =~= before + piece@.take(k + 1));
                k = k + 1;
            }
            assert(piece@.take(k as int) =~= piece@);
            assert(texts.take(i + 1) =~= texts.take(i as int).push(texts[i as int]));
            proof {
                texts.take(i as int).lemma_flatten_push(texts[i as int]);
            }
            i = i + 1;
        }
        assert(texts.take(i as int) =~= texts);
        string_of(out.as_slice())
    }
}

/// Moves what the console wrote since the last frame to what is shown: the
/// text for the middle of the screen, if any was set, and the finished
/// pieces of text.
pub fn update_render_console(out: &mut ConsoleOutput, render: &mut RenderConsoleOutput)
    requires
        old(render).wf(),
    ensures
        final(render).wf(),
        final(out)@ == (OutputModel { center_print: None, chunks: Seq::empty(), ..old(out)@ }),
        final(render).spec_center() == match old(out)@.center_print {
            Some(c) => c,
            None => old(render).spec_center(),
        },
        final(render).spec_map() == inserted_all(old(render).spec_map(), old(out)@.chunks),
{
    if let Some((ts, text)) = out.drain_center_print() {
        render.set_center_print(ts, text);
    }
    let new_text = out.drain_unwritten();
    if new_text.len() > 0 {
        render.extend(new_text);
    } else {
        assert(old(out)@.chunks =~= Seq::<(Timestamp, OutputType, Seq<char>)>::empty());
    }
}

/// Filtering a sequence whose first `i` elements fail the test and whose
/// others pass it leaves the elements from `i` on.
proof fn lemma_filter_split<A>(s: Seq<A>, f: spec_fn(A) -> bool, i: int)
    requires
        0 <= i <= s.len(),
        forall|j: int| 0 <= j < i ==> !f(#[trigger] s[j]),
        forall|j: int| i <= j < s.len() ==> f(#[trigger] s[j]),
    ensures
        s.filter(f) == s.subrange(i, s.len() as int),
    decreases s.len(),
{
    reveal_with_fuel(Seq::<_>::filter, 1);
    if s.len() == 0 {
        assert(s.subrange(i, s.len() as int) =~= Seq::<A>::empty());
    } else if i == s.len() {
        lemma_filter_split(s.drop_last(), f, i - 1);
        assert(s.subrange(i, s.len() as int) =~= Seq::<A>::empty());
        assert(s.drop_last().subrange(i - 1, s.len() - 1) =~= Seq::<A>::empty());
        assert(s.drop_last().filter(f) =~= Seq::<A>::empty());
    } else {
        lemma_filter_split(s.drop_last(), f, i);
        assert(s.drop_last().subrange(i, s.len() - 1).push(s.last()) =~= s.subrange(i, s.len() as int));
    }
}

/// The alert lines written at or after `since`, oldest first, at most `max_lines` of them.
pub open spec fn recent_alerts(chunks: Seq<(Timestamp, OutputType, Seq<char>)>, since: i64, max_lines: usize) -> Seq<
    (Timestamp, OutputType, Seq<char>),
> {
    let alerts = chunks.filter(
        |c: (Timestamp, OutputType, Seq<char>)| c.0.timestamp >= since && c.1 == OutputType::Alert,
    );
    if alerts.len() <= max_lines {
        alerts
    } else {
        alerts.take(max_lines as int)
    }
}

/// Decides what the alert overlay shows: `None` if it stays as it is, or
/// the timestamp of its oldest line and its new text.
///
/// The overlay shows the recent alert lines; it is rewritten only when the
/// timestamp of the oldest line shown changes from `last`.
pub fn alert_update(out: &RenderConsoleOutput, since: i64, max_lines: usize, last: Option<i64>) -> (r:
    Option<(Option<i64>, String)>)
    requires
        out.wf(),
    ensures
        ({
            let lines = recent_alerts(out.spec_chunks(), since, max_lines);
            let first = if lines.len() > 0 {
                Some(lines[0].0.timestamp)
            } else {
                None
            };
            &&& first == last ==> r is None
            &&& first != last ==> (r matches Some((f, text)) && f == first && text@ == lines.map_values(
                |c: (Timestamp, OutputType, Seq<char>)| c.2,
            ).flatten())
        }),
{
    let recent = out.recent(since);
    let ghost f = |c: (Timestamp, ConsoleText)| (c.0, c.1.output_type, c.1.text@);
    let ghost t = |c: (Timestamp, OutputType, Seq<char>)| c.0.timestamp >= since;
    let ghost p = |c: (Timestamp, OutputType, Seq<char>)| c.0.timestamp >= since && c.1 == OutputType::Alert;
    let ghost q = |c: (Timestamp, OutputType, Seq<char>)| c.1 == OutputType::Alert;
    let ghost texts = |c: (Timestamp, OutputType, Seq<char>)| c.2;
    let ghost rs = recent@.map_values(f);
    proof {
        lemma_filter_filter(out.spec_chunks(), t, q);
        assert(p =~= (|c: (Timestamp, OutputType, Seq<char>)| t(c) && q(c)));
        assert(rs == out.spec_chunks().filter(t));
        assert(rs.filter(q) == out.spec_chunks().filter(p));
        assert(rs.take(0) =~= Seq::<(Timestamp, OutputType, Seq<char>)>::empty());
        assert(rs.take(0).filter(q) =~= Seq::<(Timestamp, OutputType, Seq<char>)>::empty());
    }
    let mut first: Option<i64> = None;
    let mut text: Vec<char> = Vec::new();
    let mut count: usize = 0;
    let mut i: usize = 0;
    while i < recent.len() && count < max_lines
        invariant
            i <= recent@.len(),
            rs == recent@.map_values(f),
            f == (|c: (Timestamp, ConsoleText)| (c.0, c.1.output_type, c.1.text@)),
            count <= max_lines,
            q == (|c: (Timestamp, OutputType, Seq<char>)| c.1 == OutputType::Alert),
            texts == (|c: (Timestamp, OutputType, Seq<char>)| c.2),
            count == rs.take(i as int).filter(q).len(),
            first == (if count > 0 {
                Some(rs.take(i as int).filter(q)[0].0.timestamp)
            } else {
                None::<i64>
            }),
            text@ == rs.take(i as int).filter(q).map_values(texts).flatten(),
        decreases recent@.len() - i,
    {
        let ghost before_f = rs.take(i as int).filter(q);
        proof {
            assert(rs.take(i + 1) =~= rs.take(i as int).push(rs[i as int]));
            rs.take(i as int).lemma_filter_push(rs[i as int], q);
        }
        let (ts, chunk) = &recent[i];
        assert(rs[i as int] == (*ts, chunk.output_type, chunk.text@));
        if chunk.output_type == OutputType::Alert {
            if count == 0 {
                first = Some(ts.timestamp);
            }
            let piece = chars_of(chunk.text.as_str());
            let ghost before = text@;
            let mut k: usize = 0;
            while k < piece.len()
                invariant
                    k <= piece@.len(),
                    text@ == before + piece@.take(k as int),
                decreases piece@.len() - k,
            {
                text.push(piece[k]);
                assert(text@ =~= before + piece@.take(k + 1));
                k = k + 1;
            }
            assert(piece@.take(k as int) =~= piece@);
            proof {
                assert(before_f.push(rs[i as int]).map_values(texts) =~= before_f.map_values(texts).push(
                    rs[i as int].2,
                ));
                before_f.map_values(texts).lemma_flatten_push(rs[i as int].2);
                assert(before_f.push(rs[i as int])[0] == if before_f.len() > 0 { before_f[0] } else { rs[i as int] });
            }
            count = count + 1;
        }
        i = i + 1;
    }
    proof {
        let alerts = rs.filter(q);
        let pre = rs.take(i as int);
        let post = rs.skip(i as int);
        assert(rs =~= pre + post);
        Seq::filter_distributes_over_add(pre, post, q);
        assert(alerts == pre.filter(q) + post.filter(q));
        if i == recent@.len() {
            assert(post.filter(q) =~= Seq::<(Timestamp, OutputType, Seq<char>)>::empty()) by {
                assert(post =~= Seq::<(Timestamp, OutputType, Seq<char>)>::empty());
                reveal_with_fuel(Seq::<_>::filter, 1);
            }
            assert(alerts =~= pre.filter(q));
            if alerts.len() > max_lines {
                assert(false);
            }
        } else {
            assert(count == max_lines);
            if alerts.len() <= max_lines {
                assert(alerts =~= pre.filter(q));
            } else {
                assert(alerts.take(max_lines as int) =~= pre.filter(q));
            }
        }
    }
    if first == last {
        None
    } else {
        Some((first, string_of(text.as_slice())))
    }
}

/// Filtering by one test and then by another is filtering by both.
proof fn lemma_filter_filter<A>(s: Seq<A>, f: spec_fn(A) -> bool, g: spec_fn(A) -> bool)
    ensures
        s.filter(f).filter(g) == s.filter(|x: A| f(x) && g(x)),
    decreases s.len(),
{
    let both = |x: A| f(x) && g(x);
    if s.len() == 0 {
        reveal_with_fuel(Seq::<_>::filter, 1);
        assert(s.filter(f) =~= Seq::<A>::empty());
        assert(s.filter(f).filter(g) =~= Seq::<A>::empty());
        assert(s.filter(both) =~= Seq::<A>::empty());
    } else {
        let dl = s.drop_last();
        let x = s.last();
        assert(s =~= dl.push(x));
        lemma_filter_filter(dl, f, g);
        dl.lemma_filter_push(x, f);
        dl.lemma_filter_push(x, both);
        dl.filter(f).lemma_filter_push(x, g);
    }
}

} // verus!
