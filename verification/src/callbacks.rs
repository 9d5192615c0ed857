//! The decisions behind the four callbacks that the native decoder is given:
//! a read that assembles whole elements from a source that may deliver in
//! fragments, and the fixed answers of seek, tell and close.
//!
//! The host owns the source and the destination buffer. For one read
//! callback it makes an [`ElementRead`], and then, until the plan says
//! `Return`, reads from the source into the range that `next` names and hands
//! what the source answered to `record`.

use libc::{c_int, c_long, size_t};
use vstd::prelude::*;

verus! {

/// What the host does next for a read callback.
#[derive(Debug, Clone, Copy, PartialEq, Eq, Structural)]
pub enum ReadStep {
    /// Read at most `len` bytes from the source into the destination buffer,
    /// starting `offset` bytes from its beginning.
    Fill { offset: usize, len: usize },
    /// Hand this number of elements back to the native decoder.
    Return(size_t),
}

/// The mathematical state of one read callback.
pub struct ReadView {
    /// Bytes per element.
    pub size: nat,
    /// Elements asked for.
    pub count: nat,
    /// Bytes that the source has delivered so far.
    pub received: nat,
    /// Whether the source has ended or failed.
    pub stopped: bool,
}

impl ReadView {
    /// The state before anything was read.
    pub open spec fn start(size: nat, count: nat) -> ReadView {
        ReadView { size, count, received: 0, stopped: false }
    }

    /// Bytes asked for in all.
    pub open spec fn total(self) -> nat {
        self.size * self.count
    }

    /// No more is read: the source stopped, or every element is full.
    pub open spec fn finished(self) -> bool {
        self.stopped || self.received == self.total()
    }

    /// Elements that are full. Bytes of an element that is only partly
    /// filled count for nothing.
    pub open spec fn completed(self) -> nat {
        if self.size == 0 {
            self.count
        } else {
            self.received / self.size
        }
    }

    /// Bytes that the element being filled still lacks.
    pub open spec fn wanted(self) -> nat {
        if self.size == 0 {
            0
        } else {
            (self.size - self.received % self.size) as nat
        }
    }

    /// What the host does in this state.
    pub open spec fn step(self) -> ReadStep {
        if self.finished() {
            ReadStep::Return(self.completed() as usize)
        } else {
            ReadStep::Fill { offset: self.received as usize, len: self.wanted() as usize }
        }
    }

    /// Whether the source may answer `got` to the read that `step` names:
    /// it never delivers more than it was asked for.
    pub open spec fn admits(self, got: Option<usize>) -> bool {
        &&& !self.finished()
        &&& got is Some ==> got.unwrap() <= self.wanted()
    }

    /// The state after the source answered `got`: `None` for a failure,
    /// `Some(0)` for a clean end, `Some(n)` for `n` bytes delivered.
    pub open spec fn record(self, got: Option<usize>) -> ReadView {
        match got {
            Some(n) if n > 0 => ReadView { received: self.received + n as nat, ..self },
            _ => ReadView { stopped: true, ..self },
        }
    }

    /// The invariant: the request fits the address space, and no more was
    /// received than asked for.
    pub open spec fn wf(self) -> bool {
        &&& self.total() <= usize::MAX
        &&& self.received <= self.total()
    }

    /// The state after the source delivered `chunks`, one after the other.
    pub open spec fn feed(self, chunks: Seq<usize>) -> ReadView
        decreases chunks.len(),
    {
        if chunks.len() == 0 {
            self
        } else {
            self.feed(chunks.drop_last()).record(Some(chunks.last()))
        }
    }

    /// Whether each of `chunks` is a delivery that the source may make in the
    /// state that those before it led to, and holds at least one byte.
    pub open spec fn accepts(self, chunks: Seq<usize>) -> bool
        decreases chunks.len(),
    {
        chunks.len() > 0 ==> {
            &&& self.accepts(chunks.drop_last())
            &&& chunks.last() > 0
            &&& self.feed(chunks.drop_last()).admits(Some(chunks.last()))
        }
    }
}

/// The number of bytes in `chunks` together.
pub open spec fn bytes_in(chunks: Seq<usize>) -> nat
    decreases chunks.len(),
{
    if chunks.len() == 0 {
        0
    } else {
        bytes_in(chunks.drop_last()) + chunks.last() as nat
    }
}

/// One read callback in progress: how many elements of what size the native
/// decoder asked for, and how far the source has filled them.
#[derive(Debug, Clone, Copy)]
pub struct ElementRead {
    size: size_t,
    count: size_t,
    received: usize,
    stopped: bool,
}

impl View for ElementRead {
    type V = ReadView;

    closed spec fn view(&self) -> ReadView {
        ReadView {
            size: self.size as nat,
            count: self.count as nat,
            received: self.received as nat,
            stopped: self.stopped,
        }
    }
}

impl ElementRead {
    /// Begins a read of `nmemb` elements of `size` bytes each.
    pub fn new(size: size_t, nmemb: size_t) -> (plan: ElementRead)
        requires
            size * nmemb <= usize::MAX,
        ensures
            plan@ == ReadView::start(size as nat, nmemb as nat),
            plan@.wf(),
    {
        ElementRead { size, count: nmemb, received: 0, stopped: false }
    }

    /// What the host does next: fill more of the element that is not yet
    /// full, at the place where the last delivery ended, or return the
    /// number of full elements.
    pub fn next(&self) -> (step: ReadStep)
        requires
            self@.wf(),
        ensures
            step == self@.step(),
            step matches ReadStep::Fill { offset, len } ==> {
                &&& offset == self@.received
                &&& 0 < len <= self@.size
                &&& offset + len <= self@.total()
            },
            step matches ReadStep::Return(n) ==> n <= self@.count,
    {
        proof {
            lemma_element_bounds(self@);
        }
        if self.size == 0 {
            ReadStep::Return(self.count)
        } else if self.stopped || self.received / self.size == self.count {
            ReadStep::Return(self.received / self.size)
        } else {
            ReadStep::Fill { offset: self.received, len: self.size - self.received % self.size }
        }
    }

    /// Takes in what the source answered to the read that `next` named.
    pub fn record(&mut self, got: Option<usize>)
        requires
            old(self)@.wf(),
            old(self)@.admits(got),
        ensures
            final(self)@ == old(self)@.record(got),
            final(self)@.wf(),
    {
        proof {
            lemma_element_bounds(self@);
        }
        match got {
            Some(n) if n > 0 => {
                self.received = self.received + n;
            },
            _ => {
                self.stopped = true;
            },
        }
    }
}

/// Seeking is not supported: the callback reports failure whatever is asked.
pub fn seek(offset: i64, whence: c_int) -> (status: c_int)
    ensures
        status == -1,
{
    -1
}

/// The position is not known: the callback reports failure.
pub fn tell() -> (position: c_long)
    ensures
        position == -1,
{
    -1
}

/// Closing does nothing and succeeds: the source belongs to the decoder's
/// owner, not to the native library.
pub fn close() -> (status: c_int)
    ensures
        status == 0,
{
    0
}

/// Deliveries that the source may make leave the read well formed and
/// unstopped, and the bytes received are those that were there before and
/// those of the deliveries, each counted once.
pub proof fn lemma_feed_counts_each_byte_once(v: ReadView, chunks: Seq<usize>)
    requires
        v.wf(),
        v.accepts(chunks),
    ensures
        v.feed(chunks).wf(),
        v.feed(chunks).size == v.size,
        v.feed(chunks).count == v.count,
        v.feed(chunks).stopped == v.stopped,
        v.feed(chunks).received == v.received + bytes_in(chunks),
    decreases chunks.len(),
{
    if chunks.len() > 0 {
        let before = v.feed(chunks.drop_last());
        lemma_feed_counts_each_byte_once(v, chunks.drop_last());
        lemma_element_bounds(before);
    }
}

/// However the source cuts its data into deliveries, each delivery is
/// placed where the one before it ended: after `chunks` the next byte goes to
/// the offset that is the number of bytes delivered so far, so that no byte
/// is lost and none is written over. Once the deliveries add up to the whole
/// request, every element is reported as read.
pub proof fn lemma_fragments_assemble(size: nat, count: nat, chunks: Seq<usize>)
    requires
        size * count <= usize::MAX,
        ReadView::start(size, count).accepts(chunks),
    ensures
        ({
            let end = ReadView::start(size, count).feed(chunks);
            &&& end.received == bytes_in(chunks)
            &&& bytes_in(chunks) <= size * count
            &&& bytes_in(chunks) < size * count ==> end.step() == (ReadStep::Fill {
                offset: bytes_in(chunks) as usize,
                len: end.wanted() as usize,
            })
            &&& bytes_in(chunks) == size * count ==> end.step() == ReadStep::Return(count as usize)
        }),
{
    let start = ReadView::start(size, count);
    lemma_feed_counts_each_byte_once(start, chunks);
    let end = start.feed(chunks);
    lemma_element_bounds(end);
    if size == 0 {
        assert(size * count == 0) by (nonlinear_arith)
            requires
                size == 0,
        ;
    }
}

/// Two ways of cutting the same amount of data into deliveries lead to the
/// same state, and so to the same answer to the native decoder.
pub proof fn lemma_fragmentation_is_invisible(
    size: nat,
    count: nat,
    a: Seq<usize>,
    b: Seq<usize>,
)
    requires
        size * count <= usize::MAX,
        ReadView::start(size, count).accepts(a),
        ReadView::start(size, count).accepts(b),
        bytes_in(a) == bytes_in(b),
    ensures
        ReadView::start(size, count).feed(a) == ReadView::start(size, count).feed(b),
{
    lemma_feed_counts_each_byte_once(ReadView::start(size, count), a);
    lemma_feed_counts_each_byte_once(ReadView::start(size, count), b);
}

/// When the source ends or fails, the elements handed back are those that
/// were full before: the bytes of a partly filled element are not counted,
/// and no full element is left out.
pub proof fn lemma_stop_reports_full_elements(v: ReadView, got: Option<usize>)
    requires
        v.wf(),
        v.admits(got),
        got is None || got == Some(0usize),
    ensures
        v.record(got).step() == ReadStep::Return(v.completed() as usize),
        v.size > 0 ==> v.completed() * v.size <= v.received < (v.completed() + 1) * v.size,
{
    if v.size > 0 {
        let s = v.size as int;
        let r = v.received as int;
        vstd::arithmetic::div_mod::lemma_fundamental_div_mod(r, s);
        vstd::arithmetic::div_mod::lemma_mod_bound(r, s);
        assert((r / s + 1) * s == s * (r / s) + s) by (nonlinear_arith);
        assert((r / s) * s == s * (r / s)) by (nonlinear_arith);
    }
}

/// The lengths of `chunks`, in their order.
pub open spec fn lengths(chunks: Seq<Seq<u8>>) -> Seq<usize> {
    Seq::new(chunks.len(), |i: int| chunks[i].len() as usize)
}

/// The bytes of `chunks`, one chunk after the other.
pub open spec fn joined(chunks: Seq<Seq<u8>>) -> Seq<u8>
    decreases chunks.len(),
{
    if chunks.len() == 0 {
        Seq::empty()
    } else {
        joined(chunks.drop_last()) + chunks.last()
    }
}

/// The buffer `buf` with `chunk` written over it from `offset` on.
pub open spec fn written(buf: Seq<u8>, offset: int, chunk: Seq<u8>) -> Seq<u8> {
    Seq::new(
        buf.len(),
        |i: int|
            if offset <= i < offset + chunk.len() {
                chunk[i - offset]
            } else {
                buf[i]
            },
    )
}

/// The destination buffer after a host that follows the plan from state `v`
/// on has written each of `chunks` where `step` told it to.
pub open spec fn filled(buf: Seq<u8>, v: ReadView, chunks: Seq<Seq<u8>>) -> Seq<u8>
    decreases chunks.len(),
{
    if chunks.len() == 0 {
        buf
    } else {
        written(
            filled(buf, v, chunks.drop_last()),
            v.feed(lengths(chunks.drop_last())).received as int,
            chunks.last(),
        )
    }
}

/// What the source delivers arrives in the destination buffer whole and in
/// order: after any deliveries that the source may make, the buffer begins
/// with their bytes, one delivery after the other, and is untouched behind
/// them. No byte is lost, none is written twice, none is moved.
pub proof fn lemma_buffer_holds_what_was_delivered(
    size: nat,
    count: nat,
    buf: Seq<u8>,
    chunks: Seq<Seq<u8>>,
)
    requires
        size * count <= usize::MAX,
        buf.len() == size * count,
        forall|i: int| 0 <= i < chunks.len() ==> (#[trigger] chunks[i]).len() <= usize::MAX,
        ReadView::start(size, count).accepts(lengths(chunks)),
    ensures
        joined(chunks).len() == bytes_in(lengths(chunks)),
        joined(chunks).len() <= buf.len(),
        filled(buf, ReadView::start(size, count), chunks) == joined(chunks) + buf.subrange(
            joined(chunks).len() as int,
            buf.len() as int,
        ),
    decreases chunks.len(),
{
    let start = ReadView::start(size, count);
    lemma_feed_counts_each_byte_once(start, lengths(chunks));
    if chunks.len() > 0 {
        let before = chunks.drop_last();
        assert(lengths(before) =~= lengths(chunks).drop_last());
        lemma_buffer_holds_what_was_delivered(size, count, buf, before);
        lemma_feed_counts_each_byte_once(start, lengths(before));
        assert(lengths(chunks).last() == chunks.last().len());
    }
    assert(filled(buf, start, chunks) =~= joined(chunks) + buf.subrange(
        joined(chunks).len() as int,
        buf.len() as int,
    ));
}

/// Facts of division that the steps rest on.
proof fn lemma_element_bounds(v: ReadView)
    requires
        v.wf(),
    ensures
        v.size > 0 ==> v.received / v.size <= v.count,
        v.size > 0 ==> (v.received / v.size == v.count <==> v.received == v.total()),
        v.size > 0 ==> 0 < v.wanted() <= v.size,
        v.size > 0 && v.received < v.total() ==> v.received + v.wanted() <= v.total(),
        v.size == 0 ==> v.received == v.total(),
{
    if v.size > 0 {
        let s = v.size as int;
        let r = v.received as int;
        let c = v.count as int;
        vstd::arithmetic::div_mod::lemma_fundamental_div_mod(r, s);
        vstd::arithmetic::div_mod::lemma_mod_bound(r, s);
        vstd::arithmetic::div_mod::lemma_div_pos_is_pos(r, s);
        let q = r / s;
        assert(r == s * q + r % s);
        assert(v.total() == s * c);
        if q > c {
            assert(s * q >= s * c + s) by (nonlinear_arith)
                requires
                    q >= c + 1,
                    s > 0,
            ;
        }
        if q < c {
            assert(s * q + s <= s * c) by (nonlinear_arith)
                requires
                    q + 1 <= c,
                    s > 0,
            ;
        }
    } else {
        assert(v.size * v.count == 0) by (nonlinear_arith)
            requires
                v.size == 0,
        ;
    }
}

} // verus!
