//! Re-segmentation of streamed text at code fences.
//!
//! The text of an answer arrives in fragments cut at any place. Three backticks in
//! a row are a fence; fences are found from left to right, so that of a longer run
//! of backticks every three form a fence and what is left over is text. A fence
//! opens a code block or closes the open one. Prose is handed on with every
//! fragment, a code block when its closing fence has come. One or two backticks at
//! the end of a fragment are held back until the next fragment shows whether they
//! begin a fence.

use crate::openai::views;
use vstd::prelude::*;
use vstd::string::StringExecFns;

verus! {

/// A piece of the re-segmented text.
#[derive(Debug, Clone, PartialEq)]
pub enum Segment {
    /// Text outside code blocks.
    Prose(String),
    /// The content of a code block, without its fences. `closed` says whether the
    /// closing fence was seen; at the end of the text an open block is handed on
    /// with `closed` false.
    Code { content: String, closed: bool },
}

pub enum SegmentView {
    Prose(Seq<char>),
    Code { content: Seq<char>, closed: bool },
}

impl View for Segment {
    type V = SegmentView;

    open spec fn view(&self) -> SegmentView {
        match self {
            Segment::Prose(t) => SegmentView::Prose(t@),
            Segment::Code { content, closed } => SegmentView::Code {
                content: content@,
                closed: *closed,
            },
        }
    }
}

/// What the splitter remembers between fragments: whether a code block is open,
/// how many backticks are held back, and the content of the open block so far.
pub struct SplitterView {
    pub in_code: bool,
    pub ticks: nat,
    pub code: Seq<char>,
}

/// The re-segmenter of one streamed text.
#[derive(Debug, Clone)]
pub struct FenceSplitter {
    in_code: bool,
    ticks: u8,
    code: String,
}

impl View for FenceSplitter {
    type V = SplitterView;

    closed spec fn view(&self) -> SplitterView {
        SplitterView { in_code: self.in_code, ticks: self.ticks as nat, code: self.code@ }
    }
}

/// The backtick.
pub const TICK: char = '`';

/// A run of `n` backticks.
pub open spec fn ticks(n: nat) -> Seq<char> {
    Seq::new(n, |i: int| TICK)
}

/// The fence marker: three backticks.
pub open spec fn fence() -> Seq<char> {
    ticks(3)
}

/// Whether `text` holds no fence marker: no three backticks in a row.
pub open spec fn fence_free(text: Seq<char>) -> bool {
    forall|i: int|
        0 <= i && i + 2 < text.len() ==> !(#[trigger] text[i] == TICK && text[i + 1] == TICK
            && text[i + 2] == TICK)
}

/// Whether `text` is empty or ends with something other than a backtick.
pub open spec fn tick_closed(text: Seq<char>) -> bool {
    text.len() > 0 ==> text.last() != TICK
}

impl SplitterView {
    /// The state before the first fragment.
    pub open spec fn start() -> SplitterView {
        SplitterView { in_code: false, ticks: 0, code: Seq::empty() }
    }

    /// At most two backticks are held back; outside a code block no content is
    /// kept; the content kept holds no fence and does not end with a backtick.
    pub open spec fn wf(self) -> bool {
        &&& self.ticks <= 2
        &&& !self.in_code ==> self.code.len() == 0
        &&& fence_free(self.code)
        &&& tick_closed(self.code)
    }

    /// The part of the text read so far that has not been handed on: the open
    /// block with its opening fence, and the backticks held back.
    pub open spec fn held(self) -> Seq<char> {
        if self.in_code {
            fence() + self.code + ticks(self.ticks)
        } else {
            ticks(self.ticks)
        }
    }
}

/// The splitter in the middle of a fragment: its state, the prose gathered since
/// the last segment, and the segments found so far.
pub struct Scan {
    pub state: SplitterView,
    pub prose: Seq<char>,
    pub out: Seq<SegmentView>,
}

/// The segments with the prose gathered so far added, if there is any.
pub open spec fn flushed(out: Seq<SegmentView>, prose: Seq<char>) -> Seq<SegmentView> {
    if prose.len() > 0 {
        out.push(SegmentView::Prose(prose))
    } else {
        out
    }
}

/// One character. A third backtick in a row is a fence: it closes the open block
/// and hands it on, or hands on the prose gathered and opens a block. Any other
/// character goes to the open block or to the prose, behind the backticks that
/// were held back.
pub open spec fn char_step(s: Scan, c: char) -> Scan {
    if c == TICK {
        if s.state.ticks >= 2 {
            if s.state.in_code {
                Scan {
                    state: SplitterView::start(),
                    prose: Seq::empty(),
                    out: s.out.push(SegmentView::Code { content: s.state.code, closed: true }),
                }
            } else {
                Scan {
                    state: SplitterView { in_code: true, ticks: 0, code: Seq::empty() },
                    prose: Seq::empty(),
                    out: flushed(s.out, s.prose),
                }
            }
        } else {
            Scan { state: SplitterView { ticks: s.state.ticks + 1, ..s.state }, ..s }
        }
    } else if s.state.in_code {
        Scan {
            state: SplitterView {
                ticks: 0,
                code: s.state.code + ticks(s.state.ticks) + seq![c],
                ..s.state
            },
            ..s
        }
    } else {
        Scan {
            state: SplitterView { ticks: 0, ..s.state },
            prose: s.prose + ticks(s.state.ticks) + seq![c],
            ..s
        }
    }
}

/// The characters of `text` in order.
pub open spec fn scan(s: Scan, text: Seq<char>) -> Scan
    decreases text.len(),
{
    if text.len() == 0 {
        s
    } else {
        char_step(scan(s, text.drop_last()), text.last())
    }
}

/// One fragment: the state after it and the segments it gives. The prose gathered
/// up to the end of the fragment is handed on with it.
pub open spec fn push_spec(st: SplitterView, text: Seq<char>) -> (SplitterView, Seq<SegmentView>) {
    let s = scan(Scan { state: st, prose: Seq::empty(), out: Seq::empty() }, text);
    (s.state, flushed(s.out, s.prose))
}

/// The end of the text: an open block is handed on as it is, without a closing
/// fence, and backticks held back are text.
pub open spec fn finish_spec(st: SplitterView) -> Seq<SegmentView> {
    if st.in_code {
        seq![SegmentView::Code { content: st.code + ticks(st.ticks), closed: false }]
    } else if st.ticks > 0 {
        seq![SegmentView::Prose(ticks(st.ticks))]
    } else {
        Seq::empty()
    }
}

/// A segment as it stood in the text: prose as it is, a code block between its
/// fences.
pub open spec fn literal(seg: SegmentView) -> Seq<char> {
    match seg {
        SegmentView::Prose(t) => t,
        SegmentView::Code { content, closed } => if closed {
            fence() + content + fence()
        } else {
            fence() + content
        },
    }
}

/// The segments as they stood in the text, one after the other.
pub open spec fn literal_all(segs: Seq<SegmentView>) -> Seq<char>
    decreases segs.len(),
{
    if segs.len() == 0 {
        Seq::empty()
    } else {
        literal_all(segs.drop_last()) + literal(segs.last())
    }
}

/// The content of a segment: its text without fences.
pub open spec fn content_of(seg: SegmentView) -> Seq<char> {
    match seg {
        SegmentView::Prose(t) => t,
        SegmentView::Code { content, closed } => content,
    }
}

/// Appends `c` to `text` with `String::push`, which adds the character at the end.
#[verifier::external_body]
fn push_char(text: &mut String, c: char)
    ensures
        final(text)@ == old(text)@.push(c),
{
    text.push(c)
}

/// Appends `n` backticks to `text`.
fn push_ticks(text: &mut String, n: u8)
    ensures
        final(text)@ == old(text)@ + ticks(n as nat),
{
    let mut k: u8 = 0;
    assert(text@ + ticks(0) =~= text@);
    while k < n
        invariant
            k <= n,
            text@ == old(text)@ + ticks(k as nat),
        decreases n - k,
    {
        push_char(text, TICK);
        k += 1;
        assert(old(text)@ + ticks(k as nat) =~= (old(text)@ + ticks((k - 1) as nat)).push(TICK));
    }
}

impl FenceSplitter {
    /// The splitter before the first fragment.
    pub fn new() -> (r: FenceSplitter)
        ensures
            r@ == SplitterView::start(),
            r@.wf(),
    {
        FenceSplitter { in_code: false, ticks: 0, code: String::new() }
    }

    /// Whether a code block is open.
    pub fn in_code_block(&self) -> (r: bool)
        ensures
            r == self@.in_code,
    {
        self.in_code
    }

    /// Takes the next fragment and returns the segments it completes, in order:
    /// a code block for each closing fence in it, and the prose before each
    /// opening fence and at its end.
    pub fn push(&mut self, fragment: &str) -> (out: Vec<Segment>)
        requires
            old(self)@.wf(),
        ensures
            (final(self)@, views(out@)) == push_spec(old(self)@, fragment@),
            final(self)@.wf(),
    {
        let ghost st0 = self@;
        let ghost s0 = Scan { state: st0, prose: Seq::empty(), out: Seq::empty() };
        let mut out: Vec<Segment> = Vec::new();
        let mut prose = String::new();
        assert(views(out@) =~= Seq::empty());
        proof {
            lemma_scan_wf(s0, fragment@);
        }
        for c in it: fragment.chars()
            invariant
                it.seq() == fragment@,
                st0.wf(),
                s0 == (Scan { state: st0, prose: Seq::empty(), out: Seq::empty() }),
                self.ticks <= 2,
                (Scan { state: self@, prose: prose@, out: views(out@) }) == scan(
                    s0,
                    fragment@.take(it.index() as int),
                ),
        {
            let ghost before = scan(s0, fragment@.take(it.index() as int));
            proof {
                assert(fragment@.take(it.index() + 1).drop_last() =~= fragment@.take(
                    it.index() as int,
                ));
                assert(fragment@.take(it.index() + 1).last() == c);
            }
            if c == TICK {
                if self.ticks >= 2 {
                    if self.in_code {
                        let mut content = String::new();
                        std::mem::swap(&mut content, &mut self.code);
                        proof {
                            lemma_views_push(out@, Segment::Code { content, closed: true });
                        }
                        out.push(Segment::Code { content, closed: true });
                        self.in_code = false;
                        self.ticks = 0;
                        prose = String::new();
                    } else {
                        if !prose.as_str().is_empty() {
                            let mut text = String::new();
                            std::mem::swap(&mut text, &mut prose);
                            proof {
                                lemma_views_push(out@, Segment::Prose(text));
                            }
                            out.push(Segment::Prose(text));
                        }
                        prose = String::new();
                        self.code = String::new();
                        self.in_code = true;
                        self.ticks = 0;
                    }
                } else {
                    self.ticks = self.ticks + 1;
                }
            } else if self.in_code {
                push_ticks(&mut self.code, self.ticks);
                push_char(&mut self.code, c);
                self.ticks = 0;
                assert(self.code@ =~= before.state.code + ticks(before.state.ticks) + seq![c]);
            } else {
                push_ticks(&mut prose, self.ticks);
                push_char(&mut prose, c);
                self.ticks = 0;
                assert(prose@ =~= before.prose + ticks(before.state.ticks) + seq![c]);
            }
        }
        assert(fragment@.take(fragment@.len() as int) =~= fragment@);
        if !prose.as_str().is_empty() {
            proof {
                lemma_views_push(out@, Segment::Prose(prose));
            }
            out.push(Segment::Prose(prose));
        }
        out
    }

    /// Ends the text and returns what was held: the open code block, unclosed, or
    /// the backticks held back as prose. The splitter is then as new.
    pub fn finish(&mut self) -> (out: Vec<Segment>)
        requires
            old(self)@.wf(),
        ensures
            views(out@) == finish_spec(old(self)@),
            final(self)@ == SplitterView::start(),
            final(self)@.wf(),
    {
        let mut out: Vec<Segment> = Vec::new();
        assert(views(out@) =~= Seq::empty());
        if self.in_code {
            let mut content = String::new();
            std::mem::swap(&mut content, &mut self.code);
            push_ticks(&mut content, self.ticks);
            out.push(Segment::Code { content, closed: false });
            assert(views(out@) =~= finish_spec(old(self)@));
        } else if self.ticks > 0 {
            let mut text = String::new();
            push_ticks(&mut text, self.ticks);
            assert(text@ =~= ticks(self.ticks as nat));
            out.push(Segment::Prose(text));
            assert(views(out@) =~= finish_spec(old(self)@));
        }
        self.in_code = false;
        self.ticks = 0;
        self.code = String::new();
        out
    }
}

/// The views of a list of segments after one more segment.
proof fn lemma_views_push(segs: Seq<Segment>, seg: Segment)
    ensures
        views(segs.push(seg)) == views(segs).push(seg@),
{
    assert(views(segs.push(seg)) =~= views(segs).push(seg@));
}

impl Scan {
    /// The state is well formed, prose is gathered only outside a code block, and
    /// the prose gathered holds no fence and does not end with a backtick.
    pub open spec fn wf(self) -> bool {
        &&& self.state.wf()
        &&& self.state.in_code ==> self.prose.len() == 0
        &&& fence_free(self.prose)
        &&& tick_closed(self.prose)
        &&& clean(self.out)
        &&& leftmost(self.out)
    }

    /// The text read so far: the segments found as they stood in the text, the
    /// prose gathered, and what the state holds.
    pub open spec fn read(self) -> Seq<char> {
        literal_all(self.out) + self.prose + self.state.held()
    }
}

/// Whether no segment's content holds a fence marker.
pub open spec fn clean(segs: Seq<SegmentView>) -> bool {
    forall|i: int| 0 <= i < segs.len() ==> fence_free(content_of(#[trigger] segs[i]))
}

/// Whether no segment's content ends with a backtick: each fence was found at the
/// first backtick that could begin it.
pub open spec fn leftmost(segs: Seq<SegmentView>) -> bool {
    forall|i: int| 0 <= i < segs.len() ==> tick_closed(content_of(#[trigger] segs[i]))
}

/// A text that holds no fence and does not end with a backtick still holds none
/// with at most two backticks behind it.
pub proof fn lemma_ticks_behind(base: Seq<char>, n: nat)
    requires
        fence_free(base),
        tick_closed(base),
        n <= 2,
    ensures
        fence_free(base + ticks(n)),
{
    let grown = base + ticks(n);
    assert forall|i: int| 0 <= i && i + 2 < grown.len() implies !(#[trigger] grown[i] == TICK
        && grown[i + 1] == TICK && grown[i + 2] == TICK) by {
        if i + 2 < base.len() {
            assert(grown[i] == base[i] && grown[i + 1] == base[i + 1] && grown[i + 2] == base[i
                + 2]);
        } else if base.len() > 0 {
            assert(grown[base.len() - 1] == base.last());
        }
    }
}

/// One character keeps a scan well formed.
pub proof fn lemma_char_step_wf(s: Scan, c: char)
    requires
        s.wf(),
    ensures
        char_step(s, c).wf(),
{
    if c != TICK {
        let base = if s.state.in_code {
            s.state.code
        } else {
            s.prose
        };
        let held = base + ticks(s.state.ticks);
        let grown = held + seq![c];
        lemma_ticks_behind(base, s.state.ticks);
        assert(grown.last() == c);
        assert forall|i: int| 0 <= i && i + 2 < grown.len() implies !(#[trigger] grown[i] == TICK
            && grown[i + 1] == TICK && grown[i + 2] == TICK) by {
            if i + 2 < held.len() {
                assert(grown[i] == held[i] && grown[i + 1] == held[i + 1] && grown[i + 2]
                    == held[i + 2]);
            }
        }
    }
}

/// Reading characters keeps a scan well formed.
pub proof fn lemma_scan_wf(s: Scan, text: Seq<char>)
    requires
        s.wf(),
    ensures
        scan(s, text).wf(),
    decreases text.len(),
{
    if text.len() > 0 {
        lemma_scan_wf(s, text.drop_last());
        lemma_char_step_wf(scan(s, text.drop_last()), text.last());
    }
}


/// The segments after one more, as they stood in the text.
pub proof fn lemma_literal_push(segs: Seq<SegmentView>, seg: SegmentView)
    ensures
        literal_all(segs.push(seg)) == literal_all(segs) + literal(seg),
{
    assert(segs.push(seg).drop_last() =~= segs);
}

/// Two lists of segments, as they stood in the text.
pub proof fn lemma_literal_concat(a: Seq<SegmentView>, b: Seq<SegmentView>)
    ensures
        literal_all(a + b) == literal_all(a) + literal_all(b),
    decreases b.len(),
{
    if b.len() == 0 {
        assert(a + b =~= a);
        assert(literal_all(a) + Seq::<char>::empty() =~= literal_all(a));
    } else {
        assert((a + b).drop_last() =~= a + b.drop_last());
        lemma_literal_concat(a, b.drop_last());
        assert(literal_all(a) + (literal_all(b.drop_last()) + literal(b.last())) =~= (literal_all(a)
            + literal_all(b.drop_last())) + literal(b.last()));
    }
}

/// One character adds itself, and nothing else, to the text read.
pub proof fn lemma_char_step_reads(s: Scan, c: char)
    requires
        s.wf(),
    ensures
        char_step(s, c).read() == s.read().push(c),
{
    let n = char_step(s, c);
    let k = s.state.ticks;
    assert(ticks(k).push(TICK) =~= ticks(k + 1));
    if c == TICK {
        if k >= 2 {
            assert(ticks(2).push(TICK) =~= fence());
            if s.state.in_code {
                lemma_literal_push(s.out, SegmentView::Code { content: s.state.code, closed: true });
                assert(n.read() =~= s.read().push(c));
            } else {
                if s.prose.len() > 0 {
                    lemma_literal_push(s.out, SegmentView::Prose(s.prose));
                }
                assert(n.read() =~= s.read().push(c));
            }
        } else {
            assert(n.read() =~= s.read().push(c));
        }
    } else {
        assert(n.read() =~= s.read().push(c));
    }
}

/// Reading characters adds them, and nothing else, to the text read.
pub proof fn lemma_scan_reads(s: Scan, text: Seq<char>)
    requires
        s.wf(),
    ensures
        scan(s, text).read() == s.read() + text,
        scan(s, text).wf(),
    decreases text.len(),
{
    lemma_scan_wf(s, text);
    if text.len() == 0 {
        assert(s.read() + text =~= s.read());
    } else {
        lemma_scan_reads(s, text.drop_last());
        lemma_char_step_reads(scan(s, text.drop_last()), text.last());
        assert((s.read() + text.drop_last()).push(text.last()) =~= s.read() + text);
    }
}

/// One fragment: what is handed on, as it stood in the text, and what is then
/// held are together what was held before and the fragment. No segment handed on
/// holds a fence marker in its content or ends with a backtick.
pub proof fn lemma_push_keeps_text(st: SplitterView, text: Seq<char>)
    requires
        st.wf(),
    ensures
        literal_all(push_spec(st, text).1) + push_spec(st, text).0.held() == st.held() + text,
        push_spec(st, text).0.wf(),
        clean(push_spec(st, text).1),
        leftmost(push_spec(st, text).1),
{
    let s0 = Scan { state: st, prose: Seq::empty(), out: Seq::empty() };
    lemma_scan_reads(s0, text);
    let s = scan(s0, text);
    if s.prose.len() > 0 {
        lemma_literal_push(s.out, SegmentView::Prose(s.prose));
    }
    assert(s0.read() =~= st.held());
}

/// The end of the text: what is handed on, as it stood in the text, is what was
/// held, and it holds no fence marker in its content.
pub proof fn lemma_finish_keeps_text(st: SplitterView)
    requires
        st.wf(),
    ensures
        literal_all(finish_spec(st)) == st.held(),
        clean(finish_spec(st)),
{
    let out = finish_spec(st);
    lemma_ticks_behind(st.code, st.ticks);
    lemma_ticks_behind(Seq::empty(), st.ticks);
    assert(Seq::<char>::empty() + ticks(st.ticks) =~= ticks(st.ticks));
    if st.in_code {
        lemma_literal_push(
            Seq::empty(),
            SegmentView::Code { content: st.code + ticks(st.ticks), closed: false },
        );
        assert(out =~= Seq::<SegmentView>::empty().push(out[0]));
        assert(literal_all(out) =~= st.held());
    } else if st.ticks > 0 {
        lemma_literal_push(Seq::empty(), SegmentView::Prose(ticks(st.ticks)));
        assert(out =~= Seq::<SegmentView>::empty().push(out[0]));
        assert(literal_all(out) =~= st.held());
    } else {
        assert(st.held() =~= Seq::<char>::empty());
    }
}

/// The fragments of a text, one after the other.
pub open spec fn joined_text(fragments: Seq<Seq<char>>) -> Seq<char>
    decreases fragments.len(),
{
    if fragments.len() == 0 {
        Seq::empty()
    } else {
        joined_text(fragments.drop_last()) + fragments.last()
    }
}

/// A list of fragments pushed one after the other: the state after them and all
/// the segments they give, in order.
pub open spec fn split_all(st: SplitterView, fragments: Seq<Seq<char>>) -> (
    SplitterView,
    Seq<SegmentView>,
)
    decreases fragments.len(),
{
    if fragments.len() == 0 {
        (st, Seq::empty())
    } else {
        let (st1, out1) = split_all(st, fragments.drop_last());
        let (st2, out2) = push_spec(st1, fragments.last());
        (st2, out1 + out2)
    }
}

/// The segments of a whole text that arrives as `fragments`: those of the
/// fragments and those of the end.
pub open spec fn resegment(fragments: Seq<Seq<char>>) -> Seq<SegmentView> {
    let (st, out) = split_all(SplitterView::start(), fragments);
    out + finish_spec(st)
}

/// Pushing fragments keeps the text: what is handed on, as it stood in the text,
/// and what is held are together what was held before and the fragments.
pub proof fn lemma_split_all_keeps_text(st: SplitterView, fragments: Seq<Seq<char>>)
    requires
        st.wf(),
    ensures
        literal_all(split_all(st, fragments).1) + split_all(st, fragments).0.held() == st.held()
            + joined_text(fragments),
        split_all(st, fragments).0.wf(),
        clean(split_all(st, fragments).1),
        leftmost(split_all(st, fragments).1),
    decreases fragments.len(),
{
    if fragments.len() == 0 {
        assert(literal_all(Seq::empty()) + st.held() =~= st.held() + joined_text(fragments));
    } else {
        lemma_split_all_keeps_text(st, fragments.drop_last());
        let (st1, out1) = split_all(st, fragments.drop_last());
        let (st2, out2) = push_spec(st1, fragments.last());
        lemma_push_keeps_text(st1, fragments.last());
        lemma_literal_concat(out1, out2);
        assert((literal_all(out1) + literal_all(out2)) + st2.held() =~= literal_all(out1) + (
        literal_all(out2) + st2.held()));
        assert(literal_all(out1) + (st1.held() + fragments.last()) =~= (literal_all(out1)
            + st1.held()) + fragments.last());
        assert((st.held() + joined_text(fragments.drop_last())) + fragments.last() =~= st.held()
            + joined_text(fragments));
    }
}

/// Re-segmentation restores the text: however the text is cut into fragments, the
/// segments handed on, prose as it is and each code block between its fences, are
/// one after the other the text itself; and no segment's content holds a fence
/// marker.
pub proof fn lemma_resegment_restores(fragments: Seq<Seq<char>>)
    ensures
        literal_all(resegment(fragments)) == joined_text(fragments),
        clean(resegment(fragments)),
{
    let start = SplitterView::start();
    lemma_split_all_keeps_text(start, fragments);
    let (st, out) = split_all(start, fragments);
    lemma_finish_keeps_text(st);
    lemma_literal_concat(out, finish_spec(st));
    assert(start.held() =~= Seq::<char>::empty());
    assert(Seq::<char>::empty() + joined_text(fragments) =~= joined_text(fragments));
}

/// Re-segmentation is idempotent on its own output: the restored text, cut again
/// in any way and re-segmented, is restored to the same text and gives, once
/// prose is joined, the same segments; re-segmented in one piece it gives the
/// segments that the text itself gives in one piece.
pub proof fn lemma_resegment_idempotent(fragments: Seq<Seq<char>>, again: Seq<Seq<char>>)
    requires
        joined_text(again) == literal_all(resegment(fragments)),
    ensures
        literal_all(resegment(again)) == literal_all(resegment(fragments)),
        literal_all(resegment(again)) == joined_text(fragments),
        merged(resegment(again)) == merged(resegment(fragments)),
        resegment(seq![literal_all(resegment(fragments))]) == resegment(
            seq![joined_text(fragments)],
        ),
{
    lemma_resegment_restores(fragments);
    lemma_resegment_restores(again);
    lemma_same_text_same_segments(again, fragments);
}


/// A list of segments with `text` added as prose: joined to the prose at its end,
/// or as a new segment.
pub open spec fn add_prose(segs: Seq<SegmentView>, text: Seq<char>) -> Seq<SegmentView> {
    if segs.len() > 0 && segs.last() is Prose {
        segs.drop_last().push(SegmentView::Prose(segs.last()->Prose_0 + text))
    } else {
        segs.push(SegmentView::Prose(text))
    }
}

/// The segments `more` added to `segs` one by one, prose joined to prose.
pub open spec fn merged_onto(segs: Seq<SegmentView>, more: Seq<SegmentView>) -> Seq<SegmentView>
    decreases more.len(),
{
    if more.len() == 0 {
        segs
    } else {
        let before = merged_onto(segs, more.drop_last());
        match more.last() {
            SegmentView::Prose(t) => add_prose(before, t),
            code => before.push(code),
        }
    }
}

/// The segments with every run of prose segments joined into one: the prose
/// between two code blocks as one piece, however it was handed on.
pub open spec fn merged(segs: Seq<SegmentView>) -> Seq<SegmentView> {
    merged_onto(Seq::empty(), segs)
}

/// Adding two lists one after the other is adding them put together.
pub proof fn lemma_merged_onto_concat(
    segs: Seq<SegmentView>,
    a: Seq<SegmentView>,
    b: Seq<SegmentView>,
)
    ensures
        merged_onto(segs, a + b) == merged_onto(merged_onto(segs, a), b),
    decreases b.len(),
{
    if b.len() == 0 {
        assert(a + b =~= a);
    } else {
        assert((a + b).drop_last() =~= a + b.drop_last());
        assert((a + b).last() == b.last());
        lemma_merged_onto_concat(segs, a, b.drop_last());
    }
}

/// Adding prose in two pieces is adding it in one.
pub proof fn lemma_add_prose_twice(segs: Seq<SegmentView>, a: Seq<char>, b: Seq<char>)
    ensures
        add_prose(add_prose(segs, a), b) == add_prose(segs, a + b),
{
    let once = add_prose(segs, a);
    if segs.len() > 0 && segs.last() is Prose {
        let p = segs.last()->Prose_0;
        assert(once.drop_last() =~= segs.drop_last());
        assert((p + a) + b =~= p + (a + b));
    } else {
        assert(once.drop_last() =~= segs);
    }
}

impl Scan {
    /// The segments found so far and the prose gathered, with prose joined.
    pub open spec fn joined(self) -> Seq<SegmentView> {
        merged(flushed(self.out, self.prose))
    }
}

/// The segments of a scan with the prose gathered grown by `more`.
proof fn lemma_joined_grows(out: Seq<SegmentView>, prose: Seq<char>, more: Seq<char>)
    requires
        more.len() > 0,
    ensures
        merged(flushed(out, prose + more)) == add_prose(merged(flushed(out, prose)), more),
{
    let grown = out.push(SegmentView::Prose(prose + more));
    assert(grown.drop_last() =~= out);
    if prose.len() == 0 {
        assert(prose + more =~= more);
    } else {
        let was = out.push(SegmentView::Prose(prose));
        assert(was.drop_last() =~= out);
        lemma_add_prose_twice(merged(out), prose, more);
    }
}

/// One character takes two scans in the same state, with the same segments once
/// prose is joined, to such scans again.
pub proof fn lemma_char_step_joined(a: Scan, b: Scan, c: char)
    requires
        a.wf(),
        b.wf(),
        a.state == b.state,
        a.joined() == b.joined(),
    ensures
        char_step(a, c).state == char_step(b, c).state,
        char_step(a, c).joined() == char_step(b, c).joined(),
{
    let na = char_step(a, c);
    let nb = char_step(b, c);
    if c == TICK {
        if a.state.ticks >= 2 {
            if a.state.in_code {
                let block = SegmentView::Code { content: a.state.code, closed: true };
                assert(a.out.push(block).drop_last() =~= a.out);
                assert(b.out.push(block).drop_last() =~= b.out);
            }
        }
    } else if !a.state.in_code {
        let more = ticks(a.state.ticks) + seq![c];
        assert(a.prose + ticks(a.state.ticks) + seq![c] =~= a.prose + more);
        assert(b.prose + ticks(b.state.ticks) + seq![c] =~= b.prose + more);
        lemma_joined_grows(a.out, a.prose, more);
        lemma_joined_grows(b.out, b.prose, more);
    }
}

/// The same characters take two scans in the same state, with the same segments
/// once prose is joined, to such scans again.
pub proof fn lemma_scan_joined(a: Scan, b: Scan, text: Seq<char>)
    requires
        a.wf(),
        b.wf(),
        a.state == b.state,
        a.joined() == b.joined(),
    ensures
        scan(a, text).state == scan(b, text).state,
        scan(a, text).joined() == scan(b, text).joined(),
    decreases text.len(),
{
    if text.len() > 0 {
        lemma_scan_joined(a, b, text.drop_last());
        lemma_scan_wf(a, text.drop_last());
        lemma_scan_wf(b, text.drop_last());
        lemma_char_step_joined(
            scan(a, text.drop_last()),
            scan(b, text.drop_last()),
            text.last(),
        );
    }
}

/// Reading two texts one after the other is reading them put together.
pub proof fn lemma_scan_concat(s: Scan, a: Seq<char>, b: Seq<char>)
    ensures
        scan(s, a + b) == scan(scan(s, a), b),
    decreases b.len(),
{
    if b.len() == 0 {
        assert(a + b =~= a);
    } else {
        assert((a + b).drop_last() =~= a + b.drop_last());
        assert((a + b).last() == b.last());
        lemma_scan_concat(s, a, b.drop_last());
    }
}

/// Segments found before a scan began stay in front of those it finds.
pub proof fn lemma_scan_behind(s: Scan, before: Seq<SegmentView>, text: Seq<char>)
    ensures
        scan(Scan { out: before + s.out, ..s }, text) == (Scan {
            out: before + scan(s, text).out,
            ..scan(s, text)
        }),
    decreases text.len(),
{
    if text.len() > 0 {
        lemma_scan_behind(s, before, text.drop_last());
        let t = scan(s, text.drop_last());
        let c = text.last();
        let shifted = Scan { out: before + t.out, ..t };
        let block = SegmentView::Code { content: t.state.code, closed: true };
        assert((before + t.out).push(block) =~= before + t.out.push(block));
        assert((before + t.out).push(SegmentView::Prose(t.prose)) =~= before + t.out.push(
            SegmentView::Prose(t.prose),
        ));
        assert(char_step(shifted, c).out =~= before + char_step(t, c).out);
    }
}

/// Where one fragment is cut in two, the state after both pieces is the state
/// after the fragment, and the segments of both pieces are, once prose is
/// joined, the segments of the fragment.
pub proof fn lemma_push_split(st: SplitterView, a: Seq<char>, b: Seq<char>)
    requires
        st.wf(),
    ensures
        push_spec(push_spec(st, a).0, b).0 == push_spec(st, a + b).0,
        merged(push_spec(st, a).1 + push_spec(push_spec(st, a).0, b).1) == merged(
            push_spec(st, a + b).1,
        ),
{
    let s0 = Scan { state: st, prose: Seq::empty(), out: Seq::empty() };
    let sa = scan(s0, a);
    let (st1, o1) = push_spec(st, a);
    lemma_scan_wf(s0, a);
    lemma_push_keeps_text(st, a);
    lemma_scan_concat(s0, a, b);
    // the first piece with its prose handed on, ready for the second
    let handed = Scan { state: st1, prose: Seq::empty(), out: o1 };
    assert(handed.wf());
    lemma_scan_joined(handed, sa, b);
    // the second piece on its own
    let fresh = Scan { state: st1, prose: Seq::empty(), out: Seq::empty() };
    let sb = scan(fresh, b);
    lemma_scan_behind(fresh, o1, b);
    assert(o1 + fresh.out =~= o1);
    assert(scan(handed, b).out == o1 + sb.out);
    assert(flushed(o1 + sb.out, sb.prose) =~= o1 + flushed(sb.out, sb.prose));
}

/// The state after a list of fragments is the state after their text in one
/// piece, and their segments are, once prose is joined, the segments of the text
/// in one piece.
pub proof fn lemma_split_all_joined(st: SplitterView, fragments: Seq<Seq<char>>)
    requires
        st.wf(),
    ensures
        split_all(st, fragments).0 == push_spec(st, joined_text(fragments)).0,
        merged(split_all(st, fragments).1) == merged(push_spec(st, joined_text(fragments)).1),
    decreases fragments.len(),
{
    if fragments.len() > 0 {
        let front = fragments.drop_last();
        lemma_split_all_joined(st, front);
        lemma_split_all_keeps_text(st, front);
        let (st1, o1) = split_all(st, front);
        let (st2, o2) = push_spec(st1, fragments.last());
        let whole = push_spec(st, joined_text(front));
        lemma_merged_onto_concat(Seq::empty(), o1, o2);
        lemma_merged_onto_concat(Seq::empty(), whole.1, o2);
        lemma_push_split(st, joined_text(front), fragments.last());
    }
}

/// Fragmentation independence: however a text is cut into fragments, its
/// segments are, once prose is joined, the segments of the text in one piece.
pub proof fn lemma_resegment_independent(fragments: Seq<Seq<char>>)
    ensures
        merged(resegment(fragments)) == merged(resegment(seq![joined_text(fragments)])),
{
    let start = SplitterView::start();
    let text = joined_text(fragments);
    lemma_split_all_joined(start, fragments);
    let (st, out) = split_all(start, fragments);
    let one = seq![text];
    assert(one.drop_last() =~= Seq::<Seq<char>>::empty());
    assert(one.last() == text);
    assert(joined_text(one.drop_last()) =~= Seq::<char>::empty());
    assert(Seq::<char>::empty() + text =~= text);
    assert(joined_text(one) == text);
    assert(split_all(start, one.drop_last()) == (start, Seq::<SegmentView>::empty()));
    let (st_one, out_one) = split_all(start, one);
    assert(Seq::<SegmentView>::empty() + push_spec(start, text).1 =~= push_spec(start, text).1);
    assert(out_one == push_spec(start, text).1);
    lemma_merged_onto_concat(Seq::empty(), out, finish_spec(st));
    lemma_merged_onto_concat(Seq::empty(), out_one, finish_spec(st_one));
}

/// Any two ways of cutting the same text into fragments give the same segments
/// once prose is joined.
pub proof fn lemma_same_text_same_segments(first: Seq<Seq<char>>, second: Seq<Seq<char>>)
    requires
        joined_text(first) == joined_text(second),
    ensures
        merged(resegment(first)) == merged(resegment(second)),
{
    lemma_resegment_independent(first);
    lemma_resegment_independent(second);
}

/// Joins every run of prose segments into one.
pub fn merge_prose(segments: Vec<Segment>) -> (out: Vec<Segment>)
    ensures
        views(out@) == merged(views(segments@)),
{
    let ghost all = views(segments@);
    let mut out: Vec<Segment> = Vec::new();
    let mut segments = segments;
    let mut i: usize = 0;
    assert(views(out@) =~= Seq::empty());
    assert(all.take(0) =~= Seq::empty());
    while i < segments.len()
        invariant
            i <= segments.len(),
            all.len() == segments.len(),
            forall|k: int| i <= k < segments.len() ==> segments[k]@ == all[k],
            views(out@) == merged(all.take(i as int)),
        decreases segments.len() - i,
    {
        let ghost before = views(out@);
        assert(all.take(i + 1).drop_last() =~= all.take(i as int));
        assert(all.take(i + 1).last() == all[i as int]);
        let mut taken = Segment::Prose(String::new());
        std::mem::swap(&mut taken, &mut segments[i]);
        match taken {
            Segment::Prose(text) => {
                let n = out.len();
                let joins = n > 0 && match &out[n - 1] {
                    Segment::Prose(_) => true,
                    _ => false,
                };
                if joins {
                    match out.pop() {
                        Some(Segment::Prose(last)) => {
                            let mut last = last;
                            last.append(text.as_str());
                            proof {
                                lemma_views_push(out@, Segment::Prose(last));
                            }
                            assert(views(out@) =~= before.drop_last());
                            out.push(Segment::Prose(last));
                        },
                        _ => {},
                    }
                } else {
                    proof {
                        lemma_views_push(out@, Segment::Prose(text));
                    }
                    out.push(Segment::Prose(text));
                }
            },
            Segment::Code { content, closed } => {
                proof {
                    lemma_views_push(out@, Segment::Code { content, closed });
                }
                out.push(Segment::Code { content, closed });
            },
        }
        i += 1;
    }
    assert(all.take(i as int) =~= all);
    out
}

} // verus!
