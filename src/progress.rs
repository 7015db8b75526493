use vstd::prelude::*;

verus! {

/// A step of a framed transfer, as shown to the user.
#[derive(Clone, Copy, Debug, PartialEq, Eq, Structural)]
pub enum ProgressEvent {
    /// The protocol is idle, waiting for the remote end.
    Waiting,
    /// The handshake is done and data begins to flow.
    Started,
    /// One packet carrying this many payload bytes was sent.
    Packet(u64),
}

/// Payload bytes that an event reports.
pub open spec fn payload(e: ProgressEvent) -> int {
    match e {
        ProgressEvent::Packet(n) => n as int,
        _ => 0,
    }
}

/// Sum of the packet sizes that `evs` reports.
pub open spec fn packet_total(evs: Seq<ProgressEvent>) -> int
    decreases evs.len(),
{
    if evs.len() == 0 {
        0
    } else {
        packet_total(evs.drop_last()) + payload(evs.last())
    }
}

/// Number of leading `Waiting` events allowed before `Started`.
pub open spec fn lead(evs: Seq<ProgressEvent>) -> int {
    if evs.len() > 0 && evs[0] is Waiting {
        1
    } else {
        0
    }
}

/// `evs` can begin a well-ordered report: at most one `Waiting`, first;
/// then `Started`; then packets only.
pub open spec fn ordered_prefix(evs: Seq<ProgressEvent>) -> bool {
    &&& evs.len() > lead(evs) ==> evs[lead(evs)] is Started
    &&& forall|i: int| lead(evs) < i < evs.len() ==> #[trigger] evs[i] is Packet
}

/// A whole report: zero or one `Waiting`, exactly one `Started`, then
/// zero or more packets.
pub open spec fn ordered_report(evs: Seq<ProgressEvent>) -> bool {
    ordered_prefix(evs) && evs.len() > lead(evs)
}

/// Turns what a framed transfer does with its source into progress events.
///
/// The protocol engine reads the source one packet at a time, and reads the
/// next packet only once the previous one has been sent; its first read
/// comes once the handshake is done. So the first read means `Started`,
/// each later read means the previous packet went out, and a successful
/// end means the last packet went out.
pub struct FramedMonitor {
    /// `Waiting` has been reported.
    pub waited: bool,
    /// `Started` has been reported.
    pub started: bool,
    /// Size of the packet read last and not yet reported; 0 when none.
    pub pending: u64,
    /// Payload bytes read from the source so far.
    pub read: u64,
    /// Every event reported so far, in order.
    pub events: Ghost<Seq<ProgressEvent>>,
}

impl FramedMonitor {
    pub open spec fn wf(&self) -> bool {
        &&& ordered_prefix(self.events@)
        &&& self.waited <==> lead(self.events@) == 1
        &&& self.started <==> self.events@.len() > lead(self.events@)
        &&& !self.started ==> self.pending == 0 && self.read == 0
        &&& packet_total(self.events@) + self.pending == self.read
    }

    /// A monitor that has seen nothing.
    pub fn new() -> (r: FramedMonitor)
        ensures
            r.wf(),
            r.events@ == Seq::<ProgressEvent>::empty(),
            r.read == 0,
    {
        FramedMonitor {
            waited: false,
            started: false,
            pending: 0,
            read: 0,
            events: Ghost(Seq::empty()),
        }
    }

    /// Payload bytes read from the source so far.
    pub fn bytes_read(&self) -> (r: u64)
        ensures
            r == self.read,
    {
        self.read
    }

    proof fn lemma_push(evs: Seq<ProgressEvent>, e: ProgressEvent)
        ensures
            packet_total(evs.push(e)) == packet_total(evs) + payload(e),
            (evs.push(e)).drop_last() == evs,
    {
        assert(evs.push(e).drop_last() =~= evs);
    }

    /// The transfer is about to wait for the remote end: `Waiting`, unless
    /// anything was reported already.
    pub fn waiting(&mut self) -> (r: Option<ProgressEvent>)
        requires
            old(self).wf(),
        ensures
            final(self).wf(),
            final(self).read == old(self).read,
            old(self).events@.len() == 0 ==> r == Some(ProgressEvent::Waiting),
            old(self).events@.len() > 0 ==> r is None,
            r matches Some(e) ==> final(self).events@ == old(self).events@.push(e),
            r is None ==> final(self).events@ == old(self).events@,
    {
        if !self.waited && !self.started {
            proof {
                Self::lemma_push(self.events@, ProgressEvent::Waiting);
                assert(self.events@.len() == 0);
            }
            self.waited = true;
            self.events = Ghost(self.events@.push(ProgressEvent::Waiting));
            Some(ProgressEvent::Waiting)
        } else {
            None
        }
    }

    /// Reports the packet read last, if one is waiting.
    fn flush(&mut self) -> (r: Vec<ProgressEvent>)
        requires
            old(self).wf(),
            old(self).started,
        ensures
            final(self).wf(),
            final(self).started,
            final(self).pending == 0,
            final(self).read == old(self).read,
            final(self).waited == old(self).waited,
            final(self).events@ == old(self).events@ + r@,
            old(self).pending == 0 ==> r@ == Seq::<ProgressEvent>::empty(),
            old(self).pending > 0 ==> r@ == seq![ProgressEvent::Packet(old(self).pending)],
    {
        let mut r: Vec<ProgressEvent> = Vec::new();
        if self.pending > 0 {
            let e = ProgressEvent::Packet(self.pending);
            proof {
                Self::lemma_push(self.events@, e);
                assert(self.events@.len() > 0);
                assert(lead(self.events@.push(e)) == lead(self.events@));
            }
            self.events = Ghost(self.events@.push(e));
            self.pending = 0;
            r.push(e);
        }
        proof {
            assert(old(self).events@ + r@ =~= self.events@);
        }
        r
    }

    /// Marks the start of data flow, if not marked yet.
    fn start(&mut self) -> (r: Vec<ProgressEvent>)
        requires
            old(self).wf(),
        ensures
            final(self).wf(),
            final(self).started,
            final(self).pending == old(self).pending,
            final(self).read == old(self).read,
            final(self).events@ == old(self).events@ + r@,
            old(self).started ==> r@ == Seq::<ProgressEvent>::empty(),
            !old(self).started ==> r@ == seq![ProgressEvent::Started],
    {
        let mut r: Vec<ProgressEvent> = Vec::new();
        if !self.started {
            let e = ProgressEvent::Started;
            proof {
                Self::lemma_push(self.events@, e);
                assert(lead(self.events@.push(e)) == lead(self.events@));
            }
            self.events = Ghost(self.events@.push(e));
            self.started = true;
            r.push(e);
        }
        proof {
            assert(old(self).events@ + r@ =~= self.events@);
        }
        r
    }

    /// The protocol engine read `n` bytes of the source: the handshake is
    /// done, and the packet read before, if any, has gone out. A read of
    /// nothing is the end of the source.
    pub fn on_read(&mut self, n: usize) -> (r: Vec<ProgressEvent>)
        requires
            old(self).wf(),
            old(self).read + n <= u64::MAX,
        ensures
            final(self).wf(),
            final(self).started,
            final(self).pending == n,
            final(self).read == old(self).read + n,
            final(self).events@ == old(self).events@ + r@,
            !old(self).started ==> r@ == seq![ProgressEvent::Started],
            old(self).started && old(self).pending > 0
                ==> r@ == seq![ProgressEvent::Packet(old(self).pending)],
            old(self).started && old(self).pending == 0 ==> r@ == Seq::<ProgressEvent>::empty(),
    {
        let mut r = self.start();
        let mut p = self.flush();
        r.append(&mut p);
        self.pending = n as u64;
        self.read = self.read + n as u64;
        r
    }

    /// The protocol engine finished successfully: the last packet has gone
    /// out. The report is then whole, and its packets add up to every byte
    /// read from the source.
    pub fn finish(&mut self) -> (r: Vec<ProgressEvent>)
        requires
            old(self).wf(),
        ensures
            final(self).wf(),
            final(self).read == old(self).read,
            final(self).events@ == old(self).events@ + r@,
            ordered_report(final(self).events@),
            packet_total(final(self).events@) == final(self).read,
            !old(self).started ==> r@ == seq![ProgressEvent::Started],
            old(self).started && old(self).pending > 0
                ==> r@ == seq![ProgressEvent::Packet(old(self).pending)],
            old(self).started && old(self).pending == 0 ==> r@ == Seq::<ProgressEvent>::empty(),
    {
        let mut r = self.start();
        let mut p = self.flush();
        r.append(&mut p);
        r
    }
}

/// Total of the read sizes.
pub open spec fn read_total(reads: Seq<usize>) -> int
    decreases reads.len(),
{
    if reads.len() == 0 {
        0
    } else {
        read_total(reads.drop_last()) + reads.last()
    }
}

/// One `Packet` for each non-empty read, in order.
pub open spec fn packets_of(reads: Seq<usize>) -> Seq<ProgressEvent>
    decreases reads.len(),
{
    if reads.len() == 0 {
        Seq::empty()
    } else if reads.last() == 0 {
        packets_of(reads.drop_last())
    } else {
        packets_of(reads.drop_last()).push(ProgressEvent::Packet(reads.last() as u64))
    }
}

/// The report of a successful framed transfer whose engine read the source
/// in pieces of the sizes `reads`.
pub open spec fn report_of(reads: Seq<usize>, waited: bool) -> Seq<ProgressEvent> {
    let head = if waited {
        seq![ProgressEvent::Waiting]
    } else {
        Seq::empty()
    };
    head + seq![ProgressEvent::Started] + packets_of(reads)
}

/// The whole progress report of a successful framed transfer whose engine
/// read the source in pieces of the sizes `reads` (the last being the
/// empty read at the end of the source, when there is one), preceded by
/// `Waiting` when the transfer waited for the remote end.
///
/// Whatever the reads, the report holds at most one `Waiting`, then exactly
/// one `Started`, then packets whose sizes add up to the bytes sent.
pub fn progress_for_reads(reads: &Vec<usize>, waited: bool) -> (r: Vec<ProgressEvent>)
    requires
        read_total(reads@) <= u64::MAX,
    ensures
        r@ == report_of(reads@, waited),
        ordered_report(r@),
        packet_total(r@) == read_total(reads@),
        waited <==> r@[0] is Waiting,
{
    let ghost head = if waited {
        seq![ProgressEvent::Waiting]
    } else {
        Seq::<ProgressEvent>::empty()
    };
    let mut m = FramedMonitor::new();
    let mut out: Vec<ProgressEvent> = Vec::new();
    if waited {
        let w = m.waiting();
        if let Some(e) = w {
            out.push(e);
        }
    }
    proof {
        assert(out@ =~= m.events@);
        assert(out@ =~= head);
    }
    let mut i: usize = 0;
    while i < reads.len()
        invariant
            0 <= i <= reads.len(),
            read_total(reads@) <= u64::MAX,
            m.wf(),
            m.read == read_total(reads@.subrange(0, i as int)),
            out@ == m.events@,
            waited <==> (m.events@.len() > 0 && m.events@[0] is Waiting),
            head == (if waited {
                seq![ProgressEvent::Waiting]
            } else {
                Seq::<ProgressEvent>::empty()
            }),
            i == 0 ==> out@ == head && !m.started,
            i > 0 ==> m.started && m.pending == reads@[i - 1] && out@ == head + seq![
                ProgressEvent::Started,
            ] + packets_of(reads@.subrange(0, i - 1)),
        decreases reads.len() - i,
    {
        proof {
            let pre = reads@.subrange(0, i as int + 1);
            assert(pre.drop_last() =~= reads@.subrange(0, i as int));
            lemma_read_total_prefix(reads@, i as int + 1);
        }
        let ghost before = out@;
        let mut got = m.on_read(reads[i]);
        out.append(&mut got);
        proof {
            if i == 0 {
                assert(reads@.subrange(0, 0) =~= Seq::<usize>::empty());
                assert(out@ =~= head + seq![ProgressEvent::Started] + packets_of(
                    reads@.subrange(0, 0),
                ));
            } else {
                let sub = reads@.subrange(0, i as int);
                assert(sub.drop_last() =~= reads@.subrange(0, i - 1));
                assert(sub.last() == reads@[i - 1]);
                if reads@[i - 1] == 0 {
                    assert(out@ =~= before);
                    assert(packets_of(sub) == packets_of(sub.drop_last()));
                    assert(out@ =~= head + seq![ProgressEvent::Started] + packets_of(sub));
                } else {
                    assert(out@ =~= head + seq![ProgressEvent::Started] + packets_of(sub));
                }
            }
        }
        i = i + 1;
    }
    let ghost before = out@;
    let mut last = m.finish();
    out.append(&mut last);
    proof {
        assert(reads@.subrange(0, reads@.len() as int) =~= reads@);
        if reads@.len() == 0 {
            assert(out@ =~= head + seq![ProgressEvent::Started] + packets_of(reads@));
        } else {
            let n = reads@.len() as int;
            assert(reads@.drop_last() =~= reads@.subrange(0, n - 1));
            if reads@[n - 1] == 0 {
                assert(out@ =~= before);
            }
            assert(out@ =~= head + seq![ProgressEvent::Started] + packets_of(reads@));
        }
    }
    out
}

proof fn lemma_read_total_prefix(reads: Seq<usize>, k: int)
    requires
        0 <= k <= reads.len(),
    ensures
        read_total(reads.subrange(0, k)) <= read_total(reads),
    decreases reads.len(),
{
    if k < reads.len() {
        assert(reads.drop_last().subrange(0, k) =~= reads.subrange(0, k));
        lemma_read_total_prefix(reads.drop_last(), k);
    } else {
        assert(reads.subrange(0, k) =~= reads);
    }
}

} // verus!
