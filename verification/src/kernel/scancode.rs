//! The ring of keyboard scancodes between the interrupt handler and the
//! terminal: 256 slots, a write position and a read position that only
//! grow (wrapping around at the end of `usize`); a position's slot is its
//! low eight bits.

use vstd::prelude::*;

verus! {

/// The number of scancodes written and not yet read.
pub open spec fn pending_count(write_pos: usize, read_pos: usize) -> usize {
    (write_pos - read_pos) as usize
}

proof fn lemma_wrapping_next(p: usize)
    ensures
        vstd::wrapping::usize_specs::wrapping_add(p, 1) == (p + 1) as usize,
{
    assert(((p + 1) as usize) == 0 || ((p + 1) as usize) == p + 1) by (bit_vector);
}

/// The slot of the position `k` steps past `pos`.
pub open spec fn slot_index(pos: usize, k: int) -> usize {
    ((pos + k) as usize) & 0xff
}

/// What `push_scancode` does: the scancode goes into the slot of the write
/// position, the write position moves on (wrapping), nothing else changes;
/// where fewer than 256 were waiting, the scancode joins the end of the
/// queue.
pub open spec fn pushed(b: ScancodeBuffer, x: u8, b2: ScancodeBuffer) -> bool {
    &&& b2.write_pos() == (b.write_pos() + 1) as usize
    &&& b2.read_pos() == b.read_pos()
    &&& b2.slot(b.write_pos() & 0xff) == x
    &&& forall|i: usize| i < 256 && i != b.write_pos() & 0xff ==> #[trigger] b2.slot(i) == b.slot(i)
    &&& pending_count(b.write_pos(), b.read_pos()) < 256 ==> b2.pending() == b.pending().push(x)
}

/// What `pop_scancode` does: where nothing is waiting it gives `None` and
/// changes nothing; else it gives the scancode in the slot of the read
/// position and moves that position on (wrapping). Where no more than 256
/// are waiting, that is the oldest, and it leaves the queue.
pub open spec fn popped(b: ScancodeBuffer, r: Option<u8>, b2: ScancodeBuffer) -> bool {
    &&& b.read_pos() == b.write_pos() ==> r is None && b2 == b
    &&& pending_count(b.write_pos(), b.read_pos()) == 0 ==> r is None && b2 == b
    &&& b.read_pos() != b.write_pos() ==> {
        &&& r == Some(b.slot(b.read_pos() & 0xff))
        &&& b2.read_pos() == (b.read_pos() + 1) as usize
        &&& b2.write_pos() == b.write_pos()
        &&& forall|i: usize| #[trigger] b2.slot(i) == b.slot(i)
    }
    &&& 0 < pending_count(b.write_pos(), b.read_pos()) <= 256 ==> {
        &&& r == Some(b.pending()[0])
        &&& b2.pending() == b.pending().drop_first()
    }
}

/// A ring of 256 scancodes with a write position and a read position.
pub struct ScancodeBuffer {
    buf: [u8; 256],
    write_pos: usize,
    read_pos: usize,
}

impl ScancodeBuffer {
    /// How many scancodes were ever written (modulo the size of `usize`).
    pub closed spec fn write_pos(&self) -> usize {
        self.write_pos
    }

    /// How many scancodes were ever read (modulo the size of `usize`).
    pub closed spec fn read_pos(&self) -> usize {
        self.read_pos
    }

    /// The scancode in slot `i`.
    pub closed spec fn slot(&self, i: usize) -> u8 {
        self.buf@[i as int]
    }

    /// The scancodes written and not yet read, oldest first (where more
    /// than 256 are waiting, the oldest have been written over).
    pub open spec fn pending(&self) -> Seq<u8> {
        Seq::new(
            pending_count(self.write_pos(), self.read_pos()) as nat,
            |k: int| self.slot(slot_index(self.read_pos(), k)),
        )
    }

    /// An empty ring whose slots all hold zero.
    pub fn new() -> (b: Self)
        ensures
            b.write_pos() == 0,
            b.read_pos() == 0,
            b.pending() == Seq::<u8>::empty(),
            forall|i: usize| i < 256 ==> #[trigger] b.slot(i) == 0,
    {
        let b = ScancodeBuffer { buf: [0u8; 256], write_pos: 0, read_pos: 0 };
        assert(b.pending() =~= Seq::<u8>::empty());
        b
    }

    /// Puts a scancode into the slot of the write position and moves that
    /// position on. Where fewer than 256 were waiting, the scancode joins
    /// the end of the queue.
    pub fn push_scancode(&mut self, scancode: u8)
        ensures
            pushed(*old(self), scancode, *final(self)),
    {
        let w = self.write_pos;
        let i = w & 0xff;
        assert(w & 0xff < 256) by (bit_vector);
        self.buf[i] = scancode;
        self.write_pos = w.wrapping_add(1);
        proof {
            lemma_wrapping_next(w);
            let r = self.read_pos;
            let c = pending_count(w, r);
            if c < 256 {
                assert(pending_count((w + 1) as usize, r) == c + 1) by (bit_vector)
                    requires
                        c == (w - r) as usize,
                        c < 256,
                ;
                assert(slot_index(r, c as int) == w & 0xff) by (bit_vector)
                    requires
                        c == (w - r) as usize,
                ;
                assert forall|k: int| 0 <= k < c implies slot_index(r, k) != w & 0xff && slot_index(r, k) < 256 by {
                    let kk = k as usize;
                    assert(((r + kk) as usize) & 0xff < 256) by (bit_vector);
                    assert(kk < c ==> ((r + kk) as usize) & 0xff != w & 0xff) by (bit_vector)
                        requires
                            c == (w - r) as usize,
                            c < 256,
                    ;
                }
                assert(self.pending() =~= old(self).pending().push(scancode));
            }
        }
    }

    /// Takes the scancode in the slot of the read position, if any was
    /// written there since it was last read, and moves that position on.
    /// Where no more than 256 are waiting, that is the oldest waiting one.
    pub fn pop_scancode(&mut self) -> (r: Option<u8>)
        ensures
            popped(*old(self), r, *final(self)),
    {
        let r = self.read_pos;
        let w = self.write_pos;
        if r == w {
            assert(pending_count(w, r) == 0) by (bit_vector)
                requires
                    r == w,
            ;
            return None;
        }
        let i = r & 0xff;
        assert(r & 0xff < 256) by (bit_vector);
        let code = self.buf[i];
        self.read_pos = r.wrapping_add(1);
        proof {
            lemma_wrapping_next(r);
            let c = pending_count(w, r);
            assert(c > 0) by (bit_vector)
                requires
                    c == (w - r) as usize,
                    r != w,
            ;
            if c <= 256 {
                assert(pending_count(w, (r + 1) as usize) == c - 1) by (bit_vector)
                    requires
                        c == (w - r) as usize,
                        c > 0,
                ;
                assert(slot_index(r, 0) == r & 0xff) by (bit_vector);
                assert forall|k: int| 0 <= k < c - 1 implies #[trigger] slot_index((r + 1) as usize, k) == slot_index(r, k + 1) by {
                    let kk = k as usize;
                    assert((((r + 1) as usize + kk) as usize) & 0xff == ((r + (kk + 1)) as usize) & 0xff) by (bit_vector);
                }
                assert(self.pending() =~= old(self).pending().drop_first());
            }
        }
        Some(code)
    }
}

proof fn lemma_pushes(pushes: Seq<ScancodeBuffer>, s: Seq<u8>, i: int)
    requires
        s.len() <= 256,
        pushes.len() == s.len() + 1,
        pushes[0].pending().len() == 0,
        forall|j: int| 0 <= j < s.len() ==> pushed(#[trigger] pushes[j], s[j], pushes[j + 1]),
        0 <= i <= s.len(),
    ensures
        pushes[i].pending() == s.take(i),
    decreases i,
{
    if i == 0 {
        assert(s.take(0) =~= pushes[0].pending());
    } else {
        lemma_pushes(pushes, s, i - 1);
        assert(pushed(pushes[i - 1], s[i - 1], pushes[i]));
        assert(s.take(i - 1).push(s[i - 1]) =~= s.take(i));
    }
}

proof fn lemma_pops(pops: Seq<ScancodeBuffer>, out: Seq<Option<u8>>, s: Seq<u8>, i: int)
    requires
        s.len() <= 256,
        pops.len() == s.len() + 2,
        out.len() == s.len() + 1,
        pops[0].pending() == s,
        forall|j: int| 0 <= j <= s.len() ==> popped(#[trigger] pops[j], out[j], pops[j + 1]),
        0 <= i <= s.len(),
    ensures
        pops[i].pending() == s.skip(i),
        forall|j: int| 0 <= j < i ==> out[j] == Some(s[j]),
    decreases i,
{
    if i == 0 {
        assert(s.skip(0) =~= s);
    } else {
        lemma_pops(pops, out, s, i - 1);
        assert(popped(pops[i - 1], out[i - 1], pops[i]));
        assert(s.skip(i - 1).drop_first() =~= s.skip(i));
    }
}

/// Up to 256 scancodes pushed onto a ring where none are waiting come out
/// of as many pops in the order they went in, and the next pop gives
/// `None`. `pushes` are the rings before and after each push of `s`;
/// `pops` the rings before and after each pop, starting from the last of
/// `pushes`, and `out` what each pop gave.
pub proof fn law_ring_gives_back_what_was_pushed(
    pushes: Seq<ScancodeBuffer>,
    s: Seq<u8>,
    pops: Seq<ScancodeBuffer>,
    out: Seq<Option<u8>>,
)
    requires
        s.len() <= 256,
        pushes.len() == s.len() + 1,
        pushes[0].pending().len() == 0,
        forall|j: int| 0 <= j < s.len() ==> pushed(#[trigger] pushes[j], s[j], pushes[j + 1]),
        pops.len() == s.len() + 2,
        out.len() == s.len() + 1,
        pops[0] == pushes[s.len() as int],
        forall|j: int| 0 <= j <= s.len() ==> popped(#[trigger] pops[j], out[j], pops[j + 1]),
    ensures
        forall|j: int| 0 <= j < s.len() ==> out[j] == Some(s[j]),
        out[s.len() as int] is None,
{
    lemma_pushes(pushes, s, s.len() as int);
    assert(s.take(s.len() as int) =~= s);
    lemma_pops(pops, out, s, s.len() as int);
    let n = s.len() as int;
    let b = pops[n];
    assert(b.pending() =~= Seq::<u8>::empty());
    assert(pending_count(b.write_pos(), b.read_pos()) == 0);
    assert(popped(b, out[n], pops[n + 1]));
}

} // verus!
