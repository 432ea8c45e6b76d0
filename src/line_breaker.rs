//! Splitting a byte stream that arrives in pieces into newline-terminated
//! lines, within a fixed buffer.
use vstd::prelude::*;
use crate::fixed_vec::FixedVec;

verus! {

pub const NEWLINE: u8 = 0x0a;

/// What a framer holds between calls: the bytes received and not yet handed
/// out as lines, and whether the line in progress is being dropped.
pub struct FramerModel {
    pub pending: Seq<u8>,
    pub discard: bool,
}

/// The framer before any input.
pub open spec fn framer_fresh() -> FramerModel {
    FramerModel { pending: Seq::empty(), discard: false }
}

/// The index of the first newline in `s`, or its length if it has none.
pub open spec fn first_newline(s: Seq<u8>) -> nat
    decreases s.len(),
{
    if s.len() == 0 {
        0
    } else if s[0] == NEWLINE {
        0
    } else {
        1 + first_newline(s.subrange(1, s.len() as int))
    }
}

/// The length of the part of `s` up to and including its last newline.
pub open spec fn complete_len(s: Seq<u8>) -> nat
    decreases s.len(),
{
    if s.len() == 0 {
        0
    } else if s.last() == NEWLINE {
        s.len()
    } else {
        complete_len(s.drop_last())
    }
}

pub open spec fn has_newline(s: Seq<u8>) -> bool {
    exists|i: int| 0 <= i < s.len() && s[i] == NEWLINE
}

/// One byte arriving at a framer of capacity `cap`. While discarding, bytes
/// are dropped up to and including the next newline. A byte that does not
/// fit drops the incomplete line in progress (complete lines stay), and
/// the rest of that line is discarded.
pub open spec fn framer_push(st: FramerModel, b: u8, cap: nat) -> FramerModel {
    if st.discard {
        FramerModel { pending: st.pending, discard: b != NEWLINE }
    } else if st.pending.len() < cap {
        FramerModel { pending: st.pending.push(b), discard: false }
    } else {
        FramerModel {
            pending: st.pending.subrange(0, complete_len(st.pending) as int),
            discard: b != NEWLINE,
        }
    }
}

/// A run of bytes arriving, in order.
pub open spec fn framer_feed(st: FramerModel, bytes: Seq<u8>, cap: nat) -> FramerModel
    decreases bytes.len(),
{
    if bytes.len() == 0 {
        st
    } else {
        framer_feed(framer_push(st, bytes[0], cap), bytes.subrange(1, bytes.len() as int), cap)
    }
}

/// The first complete line held, and what is held after it.
pub open spec fn framer_take(st: FramerModel) -> Option<(Seq<u8>, FramerModel)> {
    let k = first_newline(st.pending);
    if k < st.pending.len() {
        Some(
            (
                st.pending.subrange(0, k as int),
                FramerModel {
                    pending: st.pending.subrange(k + 1 as int, st.pending.len() as int),
                    discard: st.discard,
                },
            ),
        )
    } else {
        None
    }
}

/// One call of `process` with a chunk: nothing for an empty chunk;
/// otherwise the chunk arrives and the first complete line is handed out.
pub open spec fn framer_process(st: FramerModel, chunk: Seq<u8>, cap: nat) -> (
    FramerModel,
    Option<Seq<u8>>,
) {
    if chunk.len() == 0 {
        (st, None)
    } else {
        let fed = framer_feed(st, chunk, cap);
        match framer_take(fed) {
            Some((line, rest)) => (rest, Some(line)),
            None => (fed, None),
        }
    }
}

/// Handing out every complete line held, in order.
pub open spec fn framer_drain(st: FramerModel) -> (FramerModel, Seq<Seq<u8>>)
    decreases st.pending.len(),
{
    let k = first_newline(st.pending);
    if k < st.pending.len() {
        let rest = FramerModel {
            pending: st.pending.subrange(k + 1 as int, st.pending.len() as int),
            discard: st.discard,
        };
        let (last, lines) = framer_drain(rest);
        (last, seq![st.pending.subrange(0, k as int)] + lines)
    } else {
        (st, Seq::empty())
    }
}

pub open spec fn option_seq<A>(o: Option<A>) -> Seq<A> {
    match o {
        Some(a) => seq![a],
        None => Seq::empty(),
    }
}

/// The lines a reader gets from a framer of capacity `cap` that is given
/// the chunks one per call of `process`, each call followed by calls of
/// `next_line` until it has nothing more.
pub open spec fn framer_run(st: FramerModel, chunks: Seq<Seq<u8>>, cap: nat) -> Seq<Seq<u8>>
    decreases chunks.len(),
{
    if chunks.len() == 0 {
        Seq::empty()
    } else {
        let (s1, first) = framer_process(st, chunks[0], cap);
        let (s2, more) = framer_drain(s1);
        option_seq(first) + more + framer_run(s2, chunks.subrange(1, chunks.len() as int), cap)
    }
}

/// The complete lines of `s`, the line in progress having begun with `cur`.
pub open spec fn lines_from(s: Seq<u8>, cur: Seq<u8>) -> Seq<Seq<u8>>
    decreases s.len(),
{
    if s.len() == 0 {
        Seq::empty()
    } else if s[0] == NEWLINE {
        seq![cur] + lines_from(s.subrange(1, s.len() as int), Seq::empty())
    } else {
        lines_from(s.subrange(1, s.len() as int), cur.push(s[0]))
    }
}

/// The newline-terminated lines of a stream, without their newlines; a
/// last line without a newline is not among them.
pub open spec fn lines(s: Seq<u8>) -> Seq<Seq<u8>> {
    lines_from(s, Seq::empty())
}

/// Splits a stream of chunks into lines. A line is handed out as a slice
/// that stays valid until the next call. A line that does not fit in the
/// buffer is dropped whole.
pub struct LineBreaker {
    buffer: FixedVec<u8>,
    used_prefix: usize,
    discard: bool,
}

impl View for LineBreaker {
    type V = FramerModel;

    closed spec fn view(&self) -> FramerModel {
        FramerModel {
            pending: self.buffer@.subrange(self.used_prefix as int, self.buffer@.len() as int),
            discard: self.discard,
        }
    }
}

proof fn lemma_first_newline(s: Seq<u8>)
    ensures
        first_newline(s) <= s.len(),
        forall|j: int| 0 <= j < first_newline(s) ==> s[j] != NEWLINE,
        first_newline(s) < s.len() ==> s[first_newline(s) as int] == NEWLINE,
    decreases s.len(),
{
    if s.len() > 0 && s[0] != NEWLINE {
        let t = s.subrange(1, s.len() as int);
        lemma_first_newline(t);
        assert forall|j: int| 0 <= j < first_newline(s) implies s[j] != NEWLINE by {
            if j > 0 {
                assert(s[j] == t[j - 1]);
            }
        }
    }
}

proof fn lemma_first_newline_at(s: Seq<u8>, k: int)
    requires
        0 <= k <= s.len(),
        forall|j: int| 0 <= j < k ==> s[j] != NEWLINE,
        k < s.len() ==> s[k] == NEWLINE,
    ensures
        first_newline(s) == k,
    decreases k,
{
    if k > 0 {
        let t = s.subrange(1, s.len() as int);
        assert(s[0] != NEWLINE);
        lemma_first_newline_at(t, k - 1);
    }
}

proof fn lemma_complete_len_bound(s: Seq<u8>)
    ensures
        complete_len(s) <= s.len(),
    decreases s.len(),
{
    if s.len() > 0 && s.last() != NEWLINE {
        lemma_complete_len_bound(s.drop_last());
    }
}

proof fn lemma_complete_len(s: Seq<u8>, i: int)
    requires
        0 <= i <= s.len(),
        forall|j: int| i <= j < s.len() ==> s[j] != NEWLINE,
    ensures
        complete_len(s) == complete_len(s.subrange(0, i)),
    decreases s.len() - i,
{
    if i < s.len() {
        assert(s.last() != NEWLINE);
        lemma_complete_len(s.drop_last(), i);
        assert(s.drop_last().subrange(0, i) =~= s.subrange(0, i));
    } else {
        assert(s.subrange(0, i) =~= s);
    }
}

impl LineBreaker {
    pub closed spec fn spec_capacity(&self) -> nat {
        self.buffer.spec_capacity()
    }

    pub closed spec fn wf(&self) -> bool {
        &&& self.buffer.wf()
        &&& self.used_prefix <= self.buffer@.len()
    }

    pub fn new(capacity: usize) -> (r: Self)
        ensures
            r@ == framer_fresh(),
            r.spec_capacity() == capacity,
            r.wf(),
    {
        let r = LineBreaker { buffer: FixedVec::new(capacity), used_prefix: 0, discard: false };
        assert(r@.pending =~= Seq::<u8>::empty());
        r
    }

    /// Forget any buffered input and any line being dropped.
    pub fn reset(&mut self)
        requires
            old(self).wf(),
        ensures
            final(self).wf(),
            final(self)@ == framer_fresh(),
            final(self).spec_capacity() == old(self).spec_capacity(),
    {
        self.buffer.clear();
        self.used_prefix = 0;
        self.discard = false;
        assert(self@.pending =~= Seq::<u8>::empty());
    }

    /// Drop the line handed out by the previous call.
    fn drop_delivered(&mut self)
        requires
            old(self).wf(),
        ensures
            final(self).wf(),
            final(self)@ == old(self)@,
            final(self).used_prefix == 0,
            final(self).spec_capacity() == old(self).spec_capacity(),
    {
        if self.used_prefix > 0 {
            let len = self.buffer.len();
            let used = self.used_prefix;
            self.buffer.copy_within(used..len, 0);
            let ghost copied = self.buffer@;
            assert(copied.len() == len);
            assert(forall|j: int| 0 <= j < len - used ==> copied[j] == old(self).buffer@[used + j]);
            let res = self.buffer.resize(len - used, 0);
            assert(res is Ok);
            assert(self.buffer@ == copied.subrange(0, len - used));
            self.used_prefix = 0;
            assert(self.buffer@ =~= old(self)@.pending);
        }
        assert(self@.pending =~= old(self)@.pending);
    }

    /// The length of the buffered bytes up to and including the last newline.
    fn complete_prefix(&self) -> (r: usize)
        ensures
            r == complete_len(self.buffer@),
    {
        let s = self.buffer.as_slice();
        let mut i = s.len();
        while i > 0 && s[i - 1] != NEWLINE
            invariant
                i <= s@.len(),
                s@ == self.buffer@,
                forall|j: int| i <= j < s@.len() ==> s@[j] != NEWLINE,
            decreases i,
        {
            i = i - 1;
        }
        proof {
            lemma_complete_len(s@, i as int);
            if i > 0 {
                assert(s@.subrange(0, i as int).last() == NEWLINE);
            }
        }
        i
    }

    fn push_byte(&mut self, b: u8)
        requires
            old(self).wf(),
            old(self).used_prefix == 0,
        ensures
            final(self).wf(),
            final(self).used_prefix == 0,
            final(self)@ == framer_push(old(self)@, b, old(self).spec_capacity()),
            final(self).spec_capacity() == old(self).spec_capacity(),
    {
        assert(old(self)@.pending =~= old(self).buffer@);
        let cap = self.buffer.capacity();
        if self.discard {
            self.discard = b != NEWLINE;
        } else if self.buffer.len() < cap {
            let _ = self.buffer.push(b);
        } else {
            let keep = self.complete_prefix();
            proof {
                lemma_complete_len_bound(self.buffer@);
            }
            let _ = self.buffer.resize(keep, 0);
            self.discard = b != NEWLINE;
        }
        assert(self@.pending =~= self.buffer@);
    }

    fn feed(&mut self, chunk: &[u8])
        requires
            old(self).wf(),
            old(self).used_prefix == 0,
        ensures
            final(self).wf(),
            final(self).used_prefix == 0,
            final(self)@ == framer_feed(old(self)@, chunk@, old(self).spec_capacity()),
            final(self).spec_capacity() == old(self).spec_capacity(),
    {
        let mut i: usize = 0;
        assert(chunk@.subrange(0, chunk@.len() as int) =~= chunk@);
        while i < chunk.len()
            invariant
                self.wf(),
                self.used_prefix == 0,
                i <= chunk@.len(),
                self.spec_capacity() == old(self).spec_capacity(),
                framer_feed(old(self)@, chunk@, self.spec_capacity()) == framer_feed(
                    self@,
                    chunk@.subrange(i as int, chunk@.len() as int),
                    self.spec_capacity(),
                ),
            decreases chunk@.len() - i,
        {
            let ghost before = self@;
            self.push_byte(chunk[i]);
            proof {
                let rest = chunk@.subrange(i as int, chunk@.len() as int);
                assert(rest[0] == chunk@[i as int]);
                assert(rest.subrange(1, rest.len() as int) =~= chunk@.subrange(i + 1, chunk@.len() as int));
            }
            i = i + 1;
        }
        assert(chunk@.subrange(i as int, chunk@.len() as int) =~= Seq::<u8>::empty());
    }

    /// Hand out the first complete line held, if any.
    fn take_line(&mut self) -> (r: Option<&[u8]>)
        requires
            old(self).wf(),
            old(self).used_prefix == 0,
        ensures
            final(self).wf(),
            final(self).spec_capacity() == old(self).spec_capacity(),
            r matches Some(line) ==> line@.len() < old(self).spec_capacity(),
            match r {
                Some(line) => framer_take(old(self)@) == Some((line@, final(self)@)),
                None => framer_take(old(self)@) is None && final(self)@ == old(self)@,
            },
    {
        assert(self@.pending =~= self.buffer@);
        let len = self.buffer.len();
        let mut i: usize = 0;
        while i < len && self.buffer.as_slice()[i] != NEWLINE
            invariant
                len == self.buffer@.len(),
                i <= len,
                forall|j: int| 0 <= j < i ==> self.buffer@[j] != NEWLINE,
            decreases len - i,
        {
            i = i + 1;
        }
        proof {
            lemma_first_newline_at(self.buffer@, i as int);
        }
        if i < len {
            self.used_prefix = i + 1;
            let line = vstd::slice::slice_subrange(self.buffer.as_slice(), 0, i);
            Some(line)
        } else {
            None
        }
    }

    /// Keep calling process() with chunks of input. It returns None if it
    /// needs more, or Some(line) if it found a line. The newline is not
    /// included in the returned line. An empty chunk always gives None; a
    /// chunk that completes several lines leaves the later ones for
    /// `next_line`.
    pub fn process(&mut self, buf: &[u8]) -> (r: Option<&[u8]>)
        requires
            old(self).wf(),
        ensures
            final(self).wf(),
            final(self).spec_capacity() == old(self).spec_capacity(),
            r matches Some(line) ==> line@.len() < old(self).spec_capacity(),
            (final(self)@, match r {
                Some(line) => Some(line@),
                None => None,
            }) == framer_process(old(self)@, buf@, old(self).spec_capacity()),
    {
        self.drop_delivered();
        if buf.len() == 0 {
            return None;
        }
        self.feed(buf);
        self.take_line()
    }

    /// The next complete line already received, if any, without new input.
    pub fn next_line(&mut self) -> (r: Option<&[u8]>)
        requires
            old(self).wf(),
        ensures
            final(self).wf(),
            final(self).spec_capacity() == old(self).spec_capacity(),
            r matches Some(line) ==> line@.len() < old(self).spec_capacity(),
            match r {
                Some(line) => framer_take(old(self)@) == Some((line@, final(self)@)),
                None => framer_take(old(self)@) is None && final(self)@ == old(self)@,
            },
    {
        self.drop_delivered();
        self.take_line()
    }
}

proof fn lemma_no_newline_first(s: Seq<u8>)
    requires
        !has_newline(s),
    ensures
        first_newline(s) == s.len(),
{
    lemma_first_newline(s);
    if first_newline(s) < s.len() {
        assert(s[first_newline(s) as int] == NEWLINE);
    }
}

proof fn lemma_lines_from_plain(x: Seq<u8>, y: Seq<u8>, cur: Seq<u8>)
    requires
        !has_newline(x),
    ensures
        lines_from(x + y, cur) == lines_from(y, cur + x),
    decreases x.len(),
{
    if x.len() == 0 {
        assert(x + y =~= y);
        assert(cur + x =~= cur);
    } else {
        assert(x[0] != NEWLINE);
        let x1 = x.subrange(1, x.len() as int);
        assert(!has_newline(x1)) by {
            if has_newline(x1) {
                let i = choose|i: int| 0 <= i < x1.len() && x1[i] == NEWLINE;
                assert(x[i + 1] == NEWLINE);
            }
        }
        assert((x + y)[0] == x[0]);
        assert((x + y).subrange(1, (x + y).len() as int) =~= x1 + y);
        lemma_lines_from_plain(x1, y, cur.push(x[0]));
        assert(cur.push(x[0]) + x1 =~= cur + x);
    }
}

proof fn lemma_feed_fits(st: FramerModel, c: Seq<u8>, cap: nat)
    requires
        !st.discard,
        st.pending.len() + c.len() <= cap,
    ensures
        framer_feed(st, c, cap) == (FramerModel { pending: st.pending + c, discard: false }),
    decreases c.len(),
{
    if c.len() == 0 {
        assert(st.pending + c =~= st.pending);
    } else {
        let st1 = framer_push(st, c[0], cap);
        let c1 = c.subrange(1, c.len() as int);
        lemma_feed_fits(st1, c1, cap);
        assert(st.pending.push(c[0]) + c1 =~= st.pending + c);
    }
}

proof fn lemma_drain(p: Seq<u8>, f: Seq<u8>, d: bool)
    ensures
        !has_newline(framer_drain(FramerModel { pending: p, discard: d }).0.pending),
        framer_drain(FramerModel { pending: p, discard: d }).0.pending.len() <= p.len(),
        framer_drain(FramerModel { pending: p, discard: d }).0.discard == d,
        framer_drain(FramerModel { pending: p, discard: d }).1 + lines_from(
            f,
            framer_drain(FramerModel { pending: p, discard: d }).0.pending,
        ) == lines_from(p + f, Seq::empty()),
    decreases p.len(),
{
    let k = first_newline(p);
    lemma_first_newline(p);
    if k < p.len() {
        let x = p.subrange(0, k as int);
        let y = p.subrange(k + 1 as int, p.len() as int);
        assert(!has_newline(x)) by {
            if has_newline(x) {
                let i = choose|i: int| 0 <= i < x.len() && x[i] == NEWLINE;
                assert(p[i] == NEWLINE);
            }
        }
        lemma_drain(y, f, d);
        let nl_rest = seq![NEWLINE] + (y + f);
        assert(p + f =~= x + nl_rest);
        lemma_lines_from_plain(x, nl_rest, Seq::empty());
        assert(Seq::<u8>::empty() + x =~= x);
        assert(nl_rest[0] == NEWLINE);
        assert(nl_rest.subrange(1, nl_rest.len() as int) =~= y + f);
        let (last, ls) = framer_drain(FramerModel { pending: y, discard: d });
        assert(seq![x] + ls + lines_from(f, last.pending) =~= seq![x] + (ls + lines_from(f, last.pending)));
    } else {
        assert(!has_newline(p)) by {
            if has_newline(p) {
                let i = choose|i: int| 0 <= i < p.len() && p[i] == NEWLINE;
                assert(p[i] != NEWLINE);
            }
        }
        lemma_lines_from_plain(p, f, Seq::empty());
        assert(Seq::<u8>::empty() + p =~= p);
        assert(Seq::<Seq<u8>>::empty() + lines_from(f, p) =~= lines_from(f, p));
    }
}

proof fn lemma_run(st: FramerModel, chunks: Seq<Seq<u8>>, cap: nat)
    requires
        !st.discard,
        !has_newline(st.pending),
        st.pending.len() + chunks.flatten().len() <= cap,
    ensures
        framer_run(st, chunks, cap) == lines_from(chunks.flatten(), st.pending),
    decreases chunks.len(),
{
    if chunks.len() == 0 {
    } else {
        let c = chunks[0];
        let rest = chunks.subrange(1, chunks.len() as int);
        assert(rest == chunks.drop_first());
        let f = rest.flatten();
        assert(chunks.flatten() == c + f);
        if c.len() == 0 {
            lemma_no_newline_first(st.pending);
            assert(c + f =~= f);
            lemma_run(st, rest, cap);
            assert(Seq::<Seq<u8>>::empty() + Seq::<Seq<u8>>::empty() + lines_from(f, st.pending)
                =~= lines_from(f, st.pending));
        } else {
            let p = st.pending + c;
            lemma_feed_fits(st, c, cap);
            let fed = FramerModel { pending: p, discard: false };
            let (s1, first) = framer_process(st, c, cap);
            let (s3, all) = framer_drain(fed);
            let (s2, more) = framer_drain(s1);
            if first_newline(p) < p.len() {
                assert(s1 == FramerModel {
                    pending: p.subrange(first_newline(p) + 1 as int, p.len() as int),
                    discard: false,
                });
                assert(option_seq(first) + more == all);
            } else {
                assert(s1 == fed);
                assert(option_seq(first) + more =~= all);
            }
            lemma_drain(p, f, false);
            lemma_run(s3, rest, cap);
            assert(p + f =~= st.pending + (c + f));
            lemma_lines_from_plain(st.pending, c + f, Seq::empty());
            assert(Seq::<u8>::empty() + st.pending =~= st.pending);
        }
    }
}

/// However a stream is cut into chunks, a framer whose capacity holds the
/// whole stream hands out exactly the stream's newline-terminated lines,
/// in order, to a reader that calls `process` once per chunk and then
/// `next_line` until it has nothing more.
pub proof fn lemma_lines_independent_of_chunking(chunks: Seq<Seq<u8>>, cap: nat)
    requires
        chunks.flatten().len() <= cap,
    ensures
        framer_run(framer_fresh(), chunks, cap) == lines(chunks.flatten()),
{
    assert(!has_newline(framer_fresh().pending));
    lemma_run(framer_fresh(), chunks, cap);
}

proof fn lemma_complete_len_plain(s: Seq<u8>)
    requires
        !has_newline(s),
    ensures
        complete_len(s) == 0,
    decreases s.len(),
{
    if s.len() > 0 {
        assert(s[s.len() - 1] != NEWLINE);
        let t = s.drop_last();
        assert(!has_newline(t)) by {
            if has_newline(t) {
                let i = choose|i: int| 0 <= i < t.len() && t[i] == NEWLINE;
                assert(s[i] == NEWLINE);
            }
        }
        lemma_complete_len_plain(t);
    }
}

/// The state of a fresh framer after the first `c` bytes of
/// `long + "\n" + next + "\n"`, when `long` is over the capacity.
pub open spec fn overlong_state(long: Seq<u8>, next: Seq<u8>, cap: nat, c: int) -> FramerModel {
    if c <= cap {
        FramerModel { pending: long.subrange(0, c), discard: false }
    } else if c <= long.len() {
        FramerModel { pending: Seq::empty(), discard: true }
    } else if c <= long.len() + 1 + next.len() {
        FramerModel { pending: next.subrange(0, c - long.len() - 1), discard: false }
    } else {
        FramerModel { pending: next.push(NEWLINE), discard: false }
    }
}

proof fn lemma_overlong_step(long: Seq<u8>, next: Seq<u8>, cap: nat, c: int)
    requires
        !has_newline(long),
        long.len() > cap,
        !has_newline(next),
        next.len() < cap,
        0 <= c < long.len() + next.len() + 2,
    ensures
        framer_push(
            overlong_state(long, next, cap, c),
            (long + seq![NEWLINE] + next + seq![NEWLINE])[c],
            cap,
        ) == overlong_state(long, next, cap, c + 1),
{
    let s = long + seq![NEWLINE] + next + seq![NEWLINE];
    let st = overlong_state(long, next, cap, c);
    let ln = long.len() as int;
    if c < ln {
        assert(s[c] == long[c]);
        assert(long[c] != NEWLINE);
    } else if c == ln {
        assert(s[c] == NEWLINE);
    } else if c < ln + 1 + next.len() {
        assert(s[c] == next[c - ln - 1]);
        assert(next[c - ln - 1] != NEWLINE);
    } else {
        assert(s[c] == NEWLINE);
    }
    if c < cap {
        assert(long.subrange(0, c).push(long[c]) =~= long.subrange(0, c + 1));
    } else if c == cap {
        let a = long.subrange(0, c);
        assert(!has_newline(a)) by {
            if has_newline(a) {
                let i = choose|i: int| 0 <= i < a.len() && a[i] == NEWLINE;
                assert(long[i] == NEWLINE);
            }
        }
        lemma_complete_len_plain(a);
        assert(a.subrange(0, 0) =~= Seq::<u8>::empty());
    } else if c < ln {
    } else if c == ln {
        assert(next.subrange(0, 0) =~= Seq::<u8>::empty());
    } else if c < ln + 1 + next.len() {
        let j = c - ln - 1;
        assert(next.subrange(0, j).push(next[j]) =~= next.subrange(0, j + 1));
    } else {
        assert(next.subrange(0, next.len() as int) =~= next);
    }
}

proof fn lemma_overlong_feed(long: Seq<u8>, next: Seq<u8>, cap: nat, c: int, chunk: Seq<u8>)
    requires
        !has_newline(long),
        long.len() > cap,
        !has_newline(next),
        next.len() < cap,
        0 <= c,
        c + chunk.len() <= long.len() + next.len() + 2,
        chunk == (long + seq![NEWLINE] + next + seq![NEWLINE]).subrange(c, c + chunk.len()),
    ensures
        framer_feed(overlong_state(long, next, cap, c), chunk, cap) == overlong_state(
            long,
            next,
            cap,
            c + chunk.len(),
        ),
    decreases chunk.len(),
{
    if chunk.len() > 0 {
        let s = long + seq![NEWLINE] + next + seq![NEWLINE];
        assert(chunk[0] == s[c]);
        lemma_overlong_step(long, next, cap, c);
        let rest = chunk.subrange(1, chunk.len() as int);
        assert(rest =~= s.subrange(c + 1, c + 1 + rest.len()));
        lemma_overlong_feed(long, next, cap, c + 1, rest);
    }
}

proof fn lemma_overlong_no_line(long: Seq<u8>, next: Seq<u8>, cap: nat, c: int)
    requires
        !has_newline(long),
        long.len() > cap,
        !has_newline(next),
        next.len() < cap,
        0 <= c < long.len() + next.len() + 2,
    ensures
        !has_newline(overlong_state(long, next, cap, c).pending),
{
    let p = overlong_state(long, next, cap, c).pending;
    let ln = long.len() as int;
    if has_newline(p) {
        let i = choose|i: int| 0 <= i < p.len() && p[i] == NEWLINE;
        if c <= cap {
            assert(long[i] == NEWLINE);
        } else {
            assert(next[i] == NEWLINE);
        }
    }
}

proof fn lemma_overlong_run(
    long: Seq<u8>,
    next: Seq<u8>,
    cap: nat,
    c: int,
    chunks: Seq<Seq<u8>>,
)
    requires
        !has_newline(long),
        long.len() > cap,
        !has_newline(next),
        next.len() < cap,
        0 <= c < long.len() + next.len() + 2,
        chunks.flatten() == (long + seq![NEWLINE] + next + seq![NEWLINE]).subrange(
            c,
            long.len() + next.len() + 2 as int,
        ),
    ensures
        framer_run(overlong_state(long, next, cap, c), chunks, cap) == seq![next],
    decreases chunks.len(),
{
    let s = long + seq![NEWLINE] + next + seq![NEWLINE];
    let total = long.len() + next.len() + 2;
    let st = overlong_state(long, next, cap, c);
    if chunks.len() == 0 {
        assert(s.subrange(c, total as int).len() > 0);
    } else {
        let first = chunks[0];
        let rest = chunks.subrange(1, chunks.len() as int);
        assert(rest == chunks.drop_first());
        let k = first.len() as int;
        assert(chunks.flatten() == first + rest.flatten());
        let t = s.subrange(c, total as int);
        assert(t == first + rest.flatten());
        assert(k <= t.len());
        assert(first =~= t.subrange(0, k));
        assert(rest.flatten() =~= t.subrange(k, t.len() as int));
        assert(t.subrange(0, k) =~= s.subrange(c, c + k));
        assert(t.subrange(k, t.len() as int) =~= s.subrange(c + k, total as int));
        lemma_overlong_no_line(long, next, cap, c);
        lemma_no_newline_first(st.pending);
        if k == 0 {
            lemma_overlong_run(long, next, cap, c, rest);
            assert(Seq::<Seq<u8>>::empty() + Seq::<Seq<u8>>::empty() + seq![next] =~= seq![next]);
        } else {
            lemma_overlong_feed(long, next, cap, c, first);
            let fed = overlong_state(long, next, cap, c + k);
            if c + k < total {
                lemma_overlong_no_line(long, next, cap, c + k);
                lemma_no_newline_first(fed.pending);
                lemma_overlong_run(long, next, cap, c + k, rest);
                assert(Seq::<Seq<u8>>::empty() + Seq::<Seq<u8>>::empty() + seq![next] =~= seq![next]);
            } else {
                let fin = next.push(NEWLINE);
                lemma_no_newline_first(next);
                lemma_first_newline_at(fin, next.len() as int);
                assert(fin.subrange(0, next.len() as int) =~= next);
                assert(fin.subrange(next.len() + 1 as int, next.len() + 1 as int) =~= Seq::<u8>::empty());
                assert(framer_process(st, first, cap) == (framer_fresh(), Some(next)));
                assert(rest.flatten().len() == 0);
                assert(!has_newline(framer_fresh().pending));
                lemma_run(framer_fresh(), rest, cap);
                assert(lines_from(rest.flatten(), Seq::<u8>::empty()) == Seq::<Seq<u8>>::empty());
                lemma_no_newline_first(framer_fresh().pending);
                assert(seq![next] + Seq::<Seq<u8>>::empty() + Seq::<Seq<u8>>::empty() =~= seq![next]);
            }
        }
    }
}

/// However the stream is cut into chunks, a line longer than the capacity
/// is dropped whole and the line after it comes out intact, and alone.
pub proof fn lemma_overlong_line_dropped(
    long: Seq<u8>,
    next: Seq<u8>,
    cap: nat,
    chunks: Seq<Seq<u8>>,
)
    requires
        !has_newline(long),
        long.len() > cap,
        !has_newline(next),
        next.len() < cap,
        chunks.flatten() == long + seq![NEWLINE] + next + seq![NEWLINE],
    ensures
        framer_run(framer_fresh(), chunks, cap) == seq![next],
{
    let s = long + seq![NEWLINE] + next + seq![NEWLINE];
    assert(s.subrange(0, s.len() as int) =~= s);
    assert(overlong_state(long, next, cap, 0) == framer_fresh()) by {
        assert(long.subrange(0, 0) =~= Seq::<u8>::empty());
    }
    lemma_overlong_run(long, next, cap, 0, chunks);
}

} // verus!
