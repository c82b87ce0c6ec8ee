//! The streaming response decoder: frames the byte stream into JSON values,
//! reads the first choice of each, and runs the finish-reason state machine
//! of one turn.
use vstd::prelude::*;
use crate::framing::{frames_view, idle, lemma_run_append, run, JsonFramer, Scan};
use crate::json::{json_lookup, json_pointer_leaf, JsonLeaf, LeafView};
use crate::text::{trim_start, trim_start_spec};

verus! {

/// What one streamed value asks of the turn.
pub enum Signal {
    /// Not a completion chunk: reported and skipped.
    Malformed,
    /// No terminal reason; the incremental text (empty when absent).
    Fragment(Seq<char>),
    Stop,
    /// Truncated by a size limit; the trailing text (empty when absent).
    Length(Seq<char>),
    /// A terminal reason that is neither `stop` nor `length`.
    Violation(Seq<char>),
}

pub open spec fn choice_pointer() -> Seq<char> {
    "/choices/0"@
}

pub open spec fn finish_pointer() -> Seq<char> {
    "/choices/0/finish_reason"@
}

pub open spec fn content_pointer() -> Seq<char> {
    "/choices/0/delta/content"@
}

/// The signal of a value from what its first choice holds.
pub open spec fn signal_of_leaves(
    choice: Option<LeafView>,
    finish: Option<LeafView>,
    content: Option<LeafView>,
) -> Signal {
    match (choice, finish, content) {
        (Some(c), Some(f), Some(t)) => {
            if c is Missing || t is Other {
                Signal::Malformed
            } else {
                let text = match t {
                    LeafView::Text(s) => s,
                    _ => Seq::empty(),
                };
                match f {
                    LeafView::Missing => Signal::Fragment(text),
                    LeafView::Null => Signal::Fragment(text),
                    LeafView::Text(r) => {
                        if r == "stop"@ {
                            Signal::Stop
                        } else if r == "length"@ {
                            Signal::Length(text)
                        } else {
                            Signal::Violation(r)
                        }
                    },
                    LeafView::Other => Signal::Malformed,
                }
            }
        },
        _ => Signal::Malformed,
    }
}

pub open spec fn signal_of(frame: Seq<u8>) -> Signal {
    signal_of_leaves(
        json_pointer_leaf(frame, choice_pointer()),
        json_pointer_leaf(frame, finish_pointer()),
        json_pointer_leaf(frame, content_pointer()),
    )
}

#[derive(PartialEq, Eq, Structural, Clone, Copy, Debug)]
pub enum Phase {
    Streaming,
    Done,
    Failed,
}

/// The state of one turn: its phase, and whether a non-empty fragment has
/// been emitted yet.
pub struct TurnView {
    pub phase: Phase,
    pub started: bool,
}

/// What the console renders for one streamed value.
pub enum OutView {
    Text(Seq<char>),
    Skipped,
    Violation(Seq<char>),
}

pub open spec fn fresh_turn() -> TurnView {
    TurnView { phase: Phase::Streaming, started: false }
}

/// One value through the state machine of the turn.
pub open spec fn turn_step(t: TurnView, frame: Seq<u8>) -> (TurnView, Option<OutView>) {
    if t.phase != Phase::Streaming {
        (t, None)
    } else {
        match signal_of(frame) {
            Signal::Malformed => (t, Some(OutView::Skipped)),
            Signal::Fragment(s) => {
                if s.len() == 0 {
                    (t, None)
                } else if !t.started {
                    (TurnView { started: true, ..t }, Some(OutView::Text(trim_start_spec(s))))
                } else {
                    (t, Some(OutView::Text(s)))
                }
            },
            Signal::Stop => (TurnView { phase: Phase::Done, ..t }, None),
            Signal::Length(s) => {
                if s.len() == 0 {
                    (TurnView { phase: Phase::Done, ..t }, None)
                } else {
                    (TurnView { phase: Phase::Done, ..t }, Some(OutView::Text(s)))
                }
            },
            Signal::Violation(r) => (
                TurnView { phase: Phase::Failed, ..t },
                Some(OutView::Violation(r)),
            ),
        }
    }
}

pub open spec fn opt_out(o: Option<OutView>) -> Seq<OutView> {
    match o {
        Some(x) => seq![x],
        None => Seq::empty(),
    }
}

/// The values `frames`, in order, through the turn.
pub open spec fn turn_run(t: TurnView, frames: Seq<Seq<u8>>) -> (TurnView, Seq<OutView>)
    decreases frames.len(),
{
    if frames.len() == 0 {
        (t, Seq::empty())
    } else {
        let prev = turn_run(t, frames.drop_last());
        let next = turn_step(prev.0, frames.last());
        (next.0, prev.1 + opt_out(next.1))
    }
}

/// The whole decoder state: framer and turn.
pub struct DecoderView {
    pub scan: Scan,
    pub turn: TurnView,
}

/// Feeding `bytes` to a decoder in state `d`: next state and outputs.
pub open spec fn decode(d: DecoderView, bytes: Seq<u8>) -> (DecoderView, Seq<OutView>) {
    let framed = run(d.scan, bytes);
    let turned = turn_run(d.turn, framed.1);
    (DecoderView { scan: framed.0, turn: turned.0 }, turned.1)
}

pub open spec fn fresh_decoder() -> DecoderView {
    DecoderView { scan: idle(), turn: fresh_turn() }
}

/// The signal of one value, as the decoder sees it.
pub enum FrameSignal {
    Malformed,
    Fragment(String),
    Stop,
    Length(String),
    Violation(String),
}

impl FrameSignal {
    pub open spec fn view(&self) -> Signal {
        match self {
            FrameSignal::Malformed => Signal::Malformed,
            FrameSignal::Fragment(s) => Signal::Fragment(s@),
            FrameSignal::Stop => Signal::Stop,
            FrameSignal::Length(s) => Signal::Length(s@),
            FrameSignal::Violation(s) => Signal::Violation(s@),
        }
    }
}

fn str_eq(a: &String, b: &str) -> (r: bool)
    ensures
        r == (a@ == b@),
{
    let x: String = b.to_owned();
    let r = *a == x;
    r
}

/// Reads the first choice of one JSON value text.
pub fn classify_frame(frame: &[u8]) -> (r: FrameSignal)
    ensures
        r.view() == signal_of(frame@),
{
    let choice = json_lookup(frame, "/choices/0");
    let finish = json_lookup(frame, "/choices/0/finish_reason");
    let content = json_lookup(frame, "/choices/0/delta/content");
    match (choice, finish, content) {
        (Some(c), Some(f), Some(t)) => {
            if matches!(c, JsonLeaf::Missing) || matches!(t, JsonLeaf::Other) {
                return FrameSignal::Malformed;
            }
            let text = match t {
                JsonLeaf::Text(s) => s,
                _ => String::new(),
            };
            match f {
                JsonLeaf::Missing => FrameSignal::Fragment(text),
                JsonLeaf::Null => FrameSignal::Fragment(text),
                JsonLeaf::Text(r) => {
                    if str_eq(&r, "stop") {
                        FrameSignal::Stop
                    } else if str_eq(&r, "length") {
                        FrameSignal::Length(text)
                    } else {
                        FrameSignal::Violation(r)
                    }
                },
                JsonLeaf::Other => FrameSignal::Malformed,
            }
        },
        _ => FrameSignal::Malformed,
    }
}

/// What the console renders for one streamed value.
pub enum TurnEvent {
    /// Text to print as it is.
    Text(String),
    /// A value that is not a completion chunk; it was skipped.
    Skipped,
    /// A terminal reason that ends the turn as a protocol violation.
    Violation(String),
}

impl TurnEvent {
    pub open spec fn view(&self) -> OutView {
        match self {
            TurnEvent::Text(s) => OutView::Text(s@),
            TurnEvent::Skipped => OutView::Skipped,
            TurnEvent::Violation(s) => OutView::Violation(s@),
        }
    }
}

pub open spec fn events_view(v: Seq<TurnEvent>) -> Seq<OutView> {
    v.map_values(|e: TurnEvent| e.view())
}

/// The finish-reason state machine of one turn.
pub struct Turn {
    pub phase: Phase,
    pub started: bool,
}

impl Turn {
    pub open spec fn view(&self) -> TurnView {
        TurnView { phase: self.phase, started: self.started }
    }

    pub fn new() -> (r: Turn)
        ensures
            r.view() == fresh_turn(),
    {
        Turn { phase: Phase::Streaming, started: false }
    }

    /// Whether the stream should still be read.
    pub fn is_streaming(&self) -> (r: bool)
        ensures
            r == (self.phase == Phase::Streaming),
    {
        self.phase == Phase::Streaming
    }

    /// Takes one complete JSON value text of the stream.
    pub fn on_value(&mut self, frame: &[u8]) -> (r: Option<TurnEvent>)
        ensures
            final(self).view() == turn_step(old(self).view(), frame@).0,
            r matches Some(e) ==> turn_step(old(self).view(), frame@).1 == Some(e.view()),
            r is None ==> turn_step(old(self).view(), frame@).1 is None,
    {
        if self.phase != Phase::Streaming {
            return None;
        }
        match classify_frame(frame) {
            FrameSignal::Malformed => Some(TurnEvent::Skipped),
            FrameSignal::Fragment(s) => {
                if s.as_str().is_empty() {
                    None
                } else if !self.started {
                    self.started = true;
                    Some(TurnEvent::Text(trim_start(s.as_str()).to_owned()))
                } else {
                    Some(TurnEvent::Text(s))
                }
            },
            FrameSignal::Stop => {
                self.phase = Phase::Done;
                None
            },
            FrameSignal::Length(s) => {
                self.phase = Phase::Done;
                if s.as_str().is_empty() {
                    None
                } else {
                    Some(TurnEvent::Text(s))
                }
            },
            FrameSignal::Violation(r) => {
                self.phase = Phase::Failed;
                Some(TurnEvent::Violation(r))
            },
        }
    }
}

/// Decoder of one streamed response: bytes in, console events out.
pub struct StreamDecoder {
    framer: JsonFramer,
    turn: Turn,
}

impl StreamDecoder {
    pub closed spec fn view(&self) -> DecoderView {
        DecoderView { scan: self.framer@, turn: self.turn.view() }
    }

    pub closed spec fn wf(&self) -> bool {
        self.framer.wf()
    }

    pub fn new() -> (r: StreamDecoder)
        ensures
            r.wf(),
            r.view() == fresh_decoder(),
    {
        StreamDecoder { framer: JsonFramer::new(), turn: Turn::new() }
    }

    pub fn phase(&self) -> (r: Phase)
        ensures
            r == self.view().turn.phase,
    {
        self.turn.phase
    }

    /// Whether the stream should still be read: no terminal reason yet.
    pub fn is_streaming(&self) -> (r: bool)
        ensures
            r == (self.view().turn.phase == Phase::Streaming),
    {
        self.turn.is_streaming()
    }

    /// Feeds one network read; returns the events of the values it completed.
    pub fn feed(&mut self, bytes: &[u8]) -> (r: Vec<TurnEvent>)
        requires
            old(self).wf(),
        ensures
            final(self).wf(),
            final(self).view() == decode(old(self).view(), bytes@).0,
            events_view(r@) == decode(old(self).view(), bytes@).1,
    {
        let frames = self.framer.push(bytes);
        let ghost fs = frames_view(frames@);
        let ghost t0 = self.turn.view();
        let ghost scan1 = self.framer@;
        let mut out: Vec<TurnEvent> = Vec::new();
        let mut i: usize = 0;
        while i < frames.len()
            invariant
                self.framer.wf(),
                self.framer@ == scan1,
                i <= frames@.len(),
                fs == frames_view(frames@),
                self.turn.view() == turn_run(t0, fs.subrange(0, i as int)).0,
                events_view(out@) == turn_run(t0, fs.subrange(0, i as int)).1,
            decreases frames@.len() - i,
        {
            let ghost before = out@;
            let ghost tb = self.turn.view();
            assert(fs.subrange(0, i + 1).drop_last() =~= fs.subrange(0, i as int));
            assert(fs[i as int] == frames@[i as int]@);
            match self.turn.on_value(frames[i].as_slice()) {
                Some(e) => {
                    out.push(e);
                },
                None => {},
            }
            i = i + 1;
            assert(events_view(out@) =~= events_view(before) + opt_out(
                turn_step(tb, fs[i - 1]).1,
            ));
        }
        assert(fs.subrange(0, i as int) =~= fs);
        out
    }
}

pub proof fn lemma_turn_run_append(t: TurnView, a: Seq<Seq<u8>>, b: Seq<Seq<u8>>)
    ensures
        turn_run(t, a + b).0 == turn_run(turn_run(t, a).0, b).0,
        turn_run(t, a + b).1 == turn_run(t, a).1 + turn_run(turn_run(t, a).0, b).1,
    decreases b.len(),
{
    if b.len() == 0 {
        assert(a + b =~= a);
        assert(turn_run(t, a).1 + Seq::<OutView>::empty() =~= turn_run(t, a).1);
    } else {
        assert((a + b).drop_last() =~= a + b.drop_last());
        assert((a + b).last() == b.last());
        lemma_turn_run_append(t, a, b.drop_last());
        let mid = turn_run(t, a).0;
        let e = turn_step(turn_run(mid, b.drop_last()).0, b.last()).1;
        assert(turn_run(t, a).1 + turn_run(mid, b.drop_last()).1 + opt_out(e) =~= turn_run(t, a).1
            + (turn_run(mid, b.drop_last()).1 + opt_out(e)));
    }
}

/// Feeding `a + b` at once gives the state and the events of feeding `a`,
/// then `b`.
pub proof fn lemma_decode_append(d: DecoderView, a: Seq<u8>, b: Seq<u8>)
    ensures
        decode(d, a + b).0 == decode(decode(d, a).0, b).0,
        decode(d, a + b).1 == decode(d, a).1 + decode(decode(d, a).0, b).1,
{
    lemma_run_append(d.scan, a, b);
    lemma_turn_run_append(d.turn, run(d.scan, a).1, run(run(d.scan, a).0, b).1);
}

/// The bytes of the network reads `pieces`, in order.
pub open spec fn concat_pieces(pieces: Seq<Seq<u8>>) -> Seq<u8>
    decreases pieces.len(),
{
    if pieces.len() == 0 {
        Seq::empty()
    } else {
        concat_pieces(pieces.drop_last()) + pieces.last()
    }
}

/// Feeding the reads `pieces` one after another: final state and all events.
pub open spec fn feed_all(d: DecoderView, pieces: Seq<Seq<u8>>) -> (DecoderView, Seq<OutView>)
    decreases pieces.len(),
{
    if pieces.len() == 0 {
        (d, Seq::empty())
    } else {
        let prev = feed_all(d, pieces.drop_last());
        let next = decode(prev.0, pieces.last());
        (next.0, prev.1 + next.1)
    }
}

/// Split invariance: however the byte stream is cut into reads, the decoder
/// ends in the same state and emits the same events, in the same order, as
/// when it gets the whole stream in one read.
pub proof fn lemma_split_invariance(d: DecoderView, pieces: Seq<Seq<u8>>)
    ensures
        feed_all(d, pieces) == decode(d, concat_pieces(pieces)),
    decreases pieces.len(),
{
    if pieces.len() == 0 {
        assert(run(d.scan, Seq::empty()).1 =~= Seq::<Seq<u8>>::empty());
    } else {
        lemma_split_invariance(d, pieces.drop_last());
        lemma_decode_append(d, concat_pieces(pieces.drop_last()), pieces.last());
    }
}

/// Once the turn has left `Streaming`, later values change nothing and emit
/// nothing.
pub proof fn lemma_ended_turn_is_silent(t: TurnView, frames: Seq<Seq<u8>>)
    requires
        t.phase != Phase::Streaming,
    ensures
        turn_run(t, frames) == (t, Seq::<OutView>::empty()),
    decreases frames.len(),
{
    if frames.len() > 0 {
        lemma_ended_turn_is_silent(t, frames.drop_last());
        assert(Seq::<OutView>::empty() + Seq::<OutView>::empty() =~= Seq::<OutView>::empty());
    }
}

proof fn lemma_first_then_rest(t: TurnView, frame: Seq<u8>, rest: Seq<Seq<u8>>)
    requires
        turn_step(t, frame).0.phase != Phase::Streaming,
    ensures
        turn_run(t, seq![frame] + rest) == (turn_step(t, frame).0, opt_out(turn_step(t, frame).1)),
{
    assert(seq![frame].drop_last() =~= Seq::<Seq<u8>>::empty());
    assert(seq![frame].last() == frame);
    assert(turn_run(t, Seq::<Seq<u8>>::empty()) == (t, Seq::<OutView>::empty()));
    assert(turn_run(t, seq![frame]).1 =~= opt_out(turn_step(t, frame).1));
    assert(Seq::<OutView>::empty() + opt_out(turn_step(t, frame).1) =~= opt_out(
        turn_step(t, frame).1,
    ));
    lemma_turn_run_append(t, seq![frame], rest);
    lemma_ended_turn_is_silent(turn_step(t, frame).0, rest);
    assert(opt_out(turn_step(t, frame).1) + Seq::<OutView>::empty() =~= opt_out(
        turn_step(t, frame).1,
    ));
}

/// A value with terminal reason `stop` and no text ends a streaming turn
/// with no further output, whatever follows it.
pub proof fn lemma_stop_emits_nothing(t: TurnView, frame: Seq<u8>, rest: Seq<Seq<u8>>)
    requires
        t.phase == Phase::Streaming,
        signal_of(frame) == Signal::Stop,
    ensures
        turn_run(t, seq![frame] + rest).0.phase == Phase::Done,
        turn_run(t, seq![frame] + rest).1 == Seq::<OutView>::empty(),
{
    lemma_first_then_rest(t, frame, rest);
}

/// A value with terminal reason `length` and a non-empty trailing fragment
/// emits that fragment exactly once and ends the turn, whatever follows it.
pub proof fn lemma_length_emits_fragment_once(
    t: TurnView,
    frame: Seq<u8>,
    fragment: Seq<char>,
    rest: Seq<Seq<u8>>,
)
    requires
        t.phase == Phase::Streaming,
        signal_of(frame) == Signal::Length(fragment),
        fragment.len() > 0,
    ensures
        turn_run(t, seq![frame] + rest).0.phase == Phase::Done,
        turn_run(t, seq![frame] + rest).1 == seq![OutView::Text(fragment)],
{
    lemma_first_then_rest(t, frame, rest);
}

/// An unknown terminal reason fails the turn with a protocol violation, and
/// nothing follows it.
pub proof fn lemma_unknown_reason_fails_turn(
    t: TurnView,
    frame: Seq<u8>,
    reason: Seq<char>,
    rest: Seq<Seq<u8>>,
)
    requires
        t.phase == Phase::Streaming,
        signal_of(frame) == Signal::Violation(reason),
    ensures
        turn_run(t, seq![frame] + rest).0.phase == Phase::Failed,
        turn_run(t, seq![frame] + rest).1 == seq![OutView::Violation(reason)],
{
    lemma_first_then_rest(t, frame, rest);
}

/// The reason of a value's first choice decides its signal: `stop` stops,
/// `length` truncates, any other string is a violation.
pub proof fn lemma_reason_signals(
    choice: LeafView,
    reason: Seq<char>,
    content: LeafView,
)
    requires
        !(choice is Missing),
        !(content is Other),
    ensures
        reason == "stop"@ ==> signal_of_leaves(
            Some(choice),
            Some(LeafView::Text(reason)),
            Some(content),
        ) == Signal::Stop,
        reason != "stop"@ && reason != "length"@ ==> signal_of_leaves(
            Some(choice),
            Some(LeafView::Text(reason)),
            Some(content),
        ) == Signal::Violation(reason),
{
}

} // verus!
