use vstd::prelude::*;

verus! {

/// The server-sent-events field name whose lines carry payload.
pub open spec fn data_name() -> Seq<u8> {
    seq![100u8, 97u8, 116u8, 97u8]
}

/// The index of the first occurrence of `b` in `s`, or `s.len()` when there
/// is none.
pub open spec fn find_byte(s: Seq<u8>, b: u8) -> int
    decreases s.len(),
{
    if s.len() == 0 {
        0
    } else if s[0] == b {
        0
    } else {
        1 + find_byte(s.drop_first(), b)
    }
}

pub proof fn lemma_find_byte(s: Seq<u8>, b: u8)
    ensures
        0 <= find_byte(s, b) <= s.len(),
        find_byte(s, b) < s.len() ==> s[find_byte(s, b)] == b,
        forall|i: int| 0 <= i < find_byte(s, b) ==> s[i] != b,
    decreases s.len(),
{
    if s.len() > 0 && s[0] != b {
        lemma_find_byte(s.drop_first(), b);
        assert forall|i: int| 0 <= i < find_byte(s, b) implies s[i] != b by {
            if i > 0 {
                assert(s.drop_first()[i - 1] == s[i]);
            }
        }
    }
}

/// The payload a line contributes: `Some(value)` exactly for a `data` field
/// line. The field name stands before the first colon (the whole line when
/// there is no colon), and one space after the colon is not part of the
/// value.
pub open spec fn line_data_value(line: Seq<u8>) -> Option<Seq<u8>> {
    if line.len() == 0 || line[0] == 58 {
        None
    } else {
        let c = find_byte(line, 58);
        let name = line.take(c);
        if name == data_name() {
            let raw = if c < line.len() {
                line.skip(c + 1)
            } else {
                Seq::empty()
            };
            Some(
                if raw.len() > 0 && raw[0] == 32 {
                    raw.drop_first()
                } else {
                    raw
                },
            )
        } else {
            None
        }
    }
}

/// The event-accumulation half of the decoder state: the payload gathered so
/// far and whether any `data` line arrived at all.
#[verifier::ext_equal]
pub struct SseAccV {
    pub data: Seq<u8>,
    pub has_data: bool,
}

/// What finishing one line does to the accumulated event: a blank line
/// dispatches the event (when there is one), a `data` line extends it with a
/// line-feed joint, anything else is ignored.
pub open spec fn sse_line_step(acc: SseAccV, line: Seq<u8>) -> (SseAccV, Option<Seq<u8>>) {
    if line.len() == 0 {
        (
            SseAccV { data: Seq::empty(), has_data: false },
            if acc.has_data {
                Some(acc.data)
            } else {
                None
            },
        )
    } else {
        match line_data_value(line) {
            Some(v) => (
                SseAccV {
                    data: if acc.has_data {
                        acc.data + seq![10u8] + v
                    } else {
                        v
                    },
                    has_data: true,
                },
                None,
            ),
            None => (acc, None),
        }
    }
}

/// The whole decoder state: the line being gathered, whether the last byte
/// was a carriage return, and the event being accumulated.
#[verifier::ext_equal]
pub struct SseStateV {
    pub line: Seq<u8>,
    pub prev_cr: bool,
    pub acc: SseAccV,
}

pub open spec fn sse_init() -> SseStateV {
    SseStateV {
        line: Seq::empty(),
        prev_cr: false,
        acc: SseAccV { data: Seq::empty(), has_data: false },
    }
}

/// One byte of input: a line feed right after a carriage return is part of
/// the same terminator; a carriage return or line feed finishes the line;
/// any other byte extends it.
pub open spec fn sse_byte_step(st: SseStateV, b: u8) -> (SseStateV, Option<Seq<u8>>) {
    if st.prev_cr && b == 10 {
        (SseStateV { prev_cr: false, ..st }, None)
    } else if b == 13 || b == 10 {
        let (acc, ev) = sse_line_step(st.acc, st.line);
        (SseStateV { line: Seq::empty(), prev_cr: b == 13, acc }, ev)
    } else {
        (SseStateV { line: st.line.push(b), prev_cr: false, acc: st.acc }, None)
    }
}

/// The state and the events dispatched after the whole input.
pub open spec fn sse_run(bytes: Seq<u8>) -> (SseStateV, Seq<Seq<u8>>)
    decreases bytes.len(),
{
    if bytes.len() == 0 {
        (sse_init(), Seq::empty())
    } else {
        let (st, evs) = sse_run(bytes.drop_last());
        let (st2, ev) = sse_byte_step(st, bytes.last());
        (
            st2,
            match ev {
                Some(e) => evs.push(e),
                None => evs,
            },
        )
    }
}

/// The events the input dispatches.
pub open spec fn sse_events(bytes: Seq<u8>) -> Seq<Seq<u8>> {
    sse_run(bytes).1
}

/// The byte sequences a vector of byte vectors holds.
pub open spec fn byte_seqs_of(v: Seq<Vec<u8>>) -> Seq<Seq<u8>> {
    Seq::new(v.len(), |i: int| v[i]@)
}

/// The incremental server-sent-events framer: bytes go in as they arrive,
/// whole event payloads come out, in arrival order. An event still being
/// gathered when the transport closes is discarded, as the framing rule
/// asks.
pub struct SseDecoder {
    line: Vec<u8>,
    prev_cr: bool,
    data: Vec<u8>,
    has_data: bool,
    fed: Ghost<Seq<u8>>,
}

impl SseDecoder {
    /// Every byte this decoder has consumed.
    pub closed spec fn fed(&self) -> Seq<u8> {
        self.fed@
    }

    /// The decoder's state is exactly what running the framing rule over the
    /// consumed bytes gives.
    pub closed spec fn wf(&self) -> bool {
        sse_run(self.fed@).0 == SseStateV {
            line: self.line@,
            prev_cr: self.prev_cr,
            acc: SseAccV { data: self.data@, has_data: self.has_data },
        }
    }

    /// A fresh framer that has consumed nothing.
    pub fn new() -> (r: SseDecoder)
        ensures
            r.wf(),
            r.fed() == Seq::<u8>::empty(),
    {
        SseDecoder {
            line: Vec::new(),
            prev_cr: false,
            data: Vec::new(),
            has_data: false,
            fed: Ghost(Seq::empty()),
        }
    }

    /// Finishes the line just gathered: dispatches, accumulates or ignores
    /// it, and returns the dispatched payload if there is one.
    #[verifier::loop_isolation(false)]
    fn finish_line(&mut self) -> (ev: Option<Vec<u8>>)
        ensures
            ({
                let (acc, sev) = sse_line_step(
                    SseAccV { data: old(self).data@, has_data: old(self).has_data },
                    old(self).line@,
                );
                &&& final(self).data@ == acc.data
                &&& final(self).has_data == acc.has_data
                &&& final(self).line@.len() == 0
                &&& match (ev, sev) {
                    (Some(e), Some(se)) => e@ == se,
                    (None, None) => true,
                    _ => false,
                }
                &&& final(self).prev_cr == old(self).prev_cr
                &&& final(self).fed@ == old(self).fed@
            }),
    {
        if self.line.len() == 0 {
            let out = if self.has_data {
                let mut d: Vec<u8> = Vec::new();
                core::mem::swap(&mut d, &mut self.data);
                Some(d)
            } else {
                None
            };
            self.has_data = false;
            self.data = Vec::new();
            return out;
        }
        // Not blank: a comment line starts with a colon.
        if self.line[0] == 58 {
            self.line = Vec::new();
            return None;
        }
        // Find the first colon; the name stands before it.
        let mut c: usize = 0;
        while c < self.line.len() && self.line[c] != 58
            invariant
                0 <= c <= self.line@.len(),
                forall|i: int| 0 <= i < c ==> self.line@[i] != 58,
            decreases self.line@.len() - c,
        {
            c += 1;
        }
        proof {
            lemma_find_byte(self.line@, 58);
            assert(find_byte(self.line@, 58) == c) by {
                let f = find_byte(self.line@, 58);
                if f < c {
                    assert(self.line@[f] == 58);
                } else if c < f {
                    assert(self.line@[c as int] != 58);
                }
            }
        }
        let is_data = c == 4 && self.line[0] == 100 && self.line[1] == 97 && self.line[2] == 116
            && self.line[3] == 97;
        proof {
            let nm = self.line@.take(c as int);
            assert(data_name().len() == 4);
            assert(data_name()[0] == 100 && data_name()[1] == 97 && data_name()[2] == 116
                && data_name()[3] == 97);
            if is_data {
                assert(nm =~= data_name());
            } else {
                assert(nm.len() == c);
                if c == 4 {
                    assert(nm[0] == self.line@[0]);
                    assert(nm[1] == self.line@[1]);
                    assert(nm[2] == self.line@[2]);
                    assert(nm[3] == self.line@[3]);
                }
                assert(nm != data_name());
            }
        }
        if !is_data {
            self.line = Vec::new();
            return None;
        }
        // Cut the value out: after the colon, minus one leading space.
        let mut start: usize = if c < self.line.len() {
            c + 1
        } else {
            self.line.len()
        };
        let ghost raw = self.line@.skip(start as int);
        proof {
            if c >= self.line@.len() {
                assert(raw =~= Seq::<u8>::empty());
            }
        }
        if start < self.line.len() && self.line[start] == 32 {
            start += 1;
        }
        let mut v: Vec<u8> = Vec::new();
        let mut i: usize = start;
        while i < self.line.len()
            invariant
                start <= i <= self.line@.len(),
                v@ =~= self.line@.subrange(start as int, i as int),
            decreases self.line@.len() - i,
        {
            let b = self.line[i];
            v.push(b);
            assert(v@ =~= self.line@.subrange(start as int, i + 1));
            i += 1;
        }
        proof {
            let lv = line_data_value(self.line@)->Some_0;
            if raw.len() > 0 && raw[0] == 32 {
                assert(v@ =~= raw.drop_first());
            } else {
                assert(v@ =~= raw);
            }
            assert(v@ == lv);
        }
        if self.has_data {
            self.data.push(10);
            let mut k: usize = 0;
            let ghost base = self.data@;
            while k < v.len()
                invariant
                    0 <= k <= v@.len(),
                    self.data@ =~= base + v@.take(k as int),
                    self.has_data == old(self).has_data,
                    self.line@ == old(self).line@,
                    self.prev_cr == old(self).prev_cr,
                    self.fed@ == old(self).fed@,
                decreases v@.len() - k,
            {
                let b = v[k];
                self.data.push(b);
                assert(self.data@ =~= base + v@.take(k + 1));
                k += 1;
            }
            proof {
                assert(v@.take(v@.len() as int) =~= v@);
                assert(self.data@ =~= old(self).data@ + seq![10u8] + v@);
            }
        } else {
            self.data = v;
            self.has_data = true;
        }
        self.line = Vec::new();
        None
    }

    /// Consumes one more chunk of transport bytes and hands back every event
    /// payload it completes, in arrival order.
    pub fn feed(&mut self, chunk: &[u8]) -> (events: Vec<Vec<u8>>)
        requires
            old(self).wf(),
        ensures
            final(self).wf(),
            final(self).fed() == old(self).fed() + chunk@,
            sse_events(final(self).fed()) == sse_events(old(self).fed()) + byte_seqs_of(events@),
    {
        let ghost fed0 = self.fed@;
        let mut events: Vec<Vec<u8>> = Vec::new();
        let mut i: usize = 0;
        while i < chunk.len()
            invariant
                0 <= i <= chunk@.len(),
                self.wf(),
                self.fed@ == fed0 + chunk@.take(i as int),
                sse_events(self.fed@) =~= sse_events(fed0) + byte_seqs_of(events@),
            decreases chunk@.len() - i,
        {
            let b = chunk[i];
            let ghost pre = self.fed@;
            proof {
                assert((pre.push(b)).drop_last() =~= pre);
            }
            let ev: Option<Vec<u8>> = if self.prev_cr && b == 10 {
                self.prev_cr = false;
                None
            } else if b == 13 || b == 10 {
                let e = self.finish_line();
                self.prev_cr = b == 13;
                e
            } else {
                self.line.push(b);
                self.prev_cr = false;
                None
            };
            proof {
                self.fed@ = pre.push(b);
                assert(fed0 + chunk@.take(i + 1) =~= pre.push(b));
                let st0 = sse_run(pre).0;
                let (st1, sev) = sse_byte_step(st0, b);
                assert(sse_run(pre.push(b)).0 == st1);
                assert(self.line@ == st1.line);
                assert(self.prev_cr == st1.prev_cr);
                assert(self.data@ == st1.acc.data);
                assert(self.has_data == st1.acc.has_data);
            }
            match ev {
                Some(e) => {
                    let ghost before = byte_seqs_of(events@);
                    let ghost ev_view = e@;
                    events.push(e);
                    proof {
                        assert(byte_seqs_of(events@) =~= before.push(ev_view));
                        assert(sse_events(self.fed@) =~= sse_events(fed0) + byte_seqs_of(events@));
                    }
                },
                None => {
                    proof {
                        assert(sse_events(self.fed@) =~= sse_events(fed0) + byte_seqs_of(events@));
                    }
                },
            }
            i += 1;
        }
        proof {
            assert(fed0 + chunk@.take(chunk@.len() as int) =~= fed0 + chunk@);
        }
        events
    }
}

} // verus!
