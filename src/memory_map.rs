use vstd::prelude::*;

verus! {

/// Errors of bus configuration (overlap, attach, detach) and bus access
/// (unmapped address, segment not ready, write to read-only storage).
#[derive(Debug, Clone, Copy, PartialEq, Eq, Structural)]
pub enum Error {
    IncorrectBufferLength,
    BufferAlreadyLoaded,
    SegmentBufferNotLoaded,
    OffsetOutOfBound,
    SegmentOverlap,
    AddressNotMapped,
    SegmentNotLoaded,
    WriteToReadOnly,
}

/// What a segment stands for in the address space.
#[derive(Debug, Clone, Copy, PartialEq, Eq, Structural)]
pub enum Kind {
    RAM,
    ROM,
    Registers,
}

/// The storage behind a segment. The bus owns it: attaching moves the
/// bytes in, detaching drops them.
#[derive(Debug)]
pub enum Buffer {
    NotEnabled,
    ReadOnly(Vec<u8>),
    ReadWrite(Vec<u8>),
}

/// Abstract state of a segment.
pub ghost struct SegmentView {
    pub start: u16,
    pub end: u16,
    pub size: u16,
    pub kind: Kind,
    pub ready: bool,
    pub writable: bool,
    pub data: Seq<u8>,
}

/// Two inclusive ranges share an address.
pub open spec fn ranges_overlap(a_start: int, a_end: int, b_start: int, b_end: int) -> bool {
    !(a_end < b_start || b_end < a_start)
}

impl SegmentView {
    pub open spec fn wf(self) -> bool {
        &&& self.start <= self.end
        &&& 0 < self.size <= self.end - self.start + 1
        &&& self.ready ==> self.data.len() == self.size
        &&& !self.ready ==> !self.writable && self.data.len() == 0
    }

    pub open spec fn contains(self, addr: u16) -> bool {
        self.start <= addr <= self.end
    }

    /// Position of `addr` in the backing buffer, mirrored with period `size`.
    pub open spec fn offset(self, addr: u16) -> int {
        (addr - self.start) % (self.size as int)
    }

    pub open spec fn access_result(self, off: int) -> Result<(), Error> {
        if !self.ready {
            Err(Error::SegmentBufferNotLoaded)
        } else if off >= self.size {
            Err(Error::OffsetOutOfBound)
        } else {
            Ok(())
        }
    }

    pub open spec fn read_result(self, off: int) -> Result<u8, Error> {
        match self.access_result(off) {
            Ok(_) => Ok(self.data[off]),
            Err(e) => Err(e),
        }
    }

    pub open spec fn write_result(self, off: int) -> Result<(), Error> {
        match self.access_result(off) {
            Ok(_) => if self.writable {
                Ok(())
            } else {
                Err(Error::WriteToReadOnly)
            },
            Err(e) => Err(e),
        }
    }

    pub open spec fn written(self, off: int, value: u8) -> SegmentView {
        if self.write_result(off) is Ok {
            SegmentView { data: self.data.update(off, value), ..self }
        } else {
            self
        }
    }

    pub open spec fn attach_result(self, len: int) -> Result<(), Error> {
        if self.ready {
            Err(Error::BufferAlreadyLoaded)
        } else if len != self.size {
            Err(Error::IncorrectBufferLength)
        } else {
            Ok(())
        }
    }

    pub open spec fn attached(self, data: Seq<u8>, writable: bool) -> SegmentView {
        if self.attach_result(data.len() as int) is Ok {
            SegmentView { ready: true, writable, data, ..self }
        } else {
            self
        }
    }

    pub open spec fn detach_result(self) -> Result<(), Error> {
        if self.ready {
            Ok(())
        } else {
            Err(Error::SegmentNotLoaded)
        }
    }

    pub open spec fn detached(self) -> SegmentView {
        SegmentView { ready: false, writable: false, data: Seq::empty(), ..self }
    }
}

/// A contiguous address range `[start, end]` mirrored with period `size`.
#[derive(Debug)]
pub struct Segment {
    start: u16,
    end: u16,
    size: u16,
    kind: Kind,
    buffer: Buffer,
}

impl View for Segment {
    type V = SegmentView;

    closed spec fn view(&self) -> SegmentView {
        SegmentView {
            start: self.start,
            end: self.end,
            size: self.size,
            kind: self.kind,
            ready: !(self.buffer is NotEnabled),
            writable: self.buffer is ReadWrite,
            data: match self.buffer {
                Buffer::NotEnabled => Seq::empty(),
                Buffer::ReadOnly(b) => b@,
                Buffer::ReadWrite(b) => b@,
            },
        }
    }
}

impl Segment {
    pub open spec fn wf(&self) -> bool {
        self@.wf()
    }

    pub fn new(start: u16, end: u16, size: u16, kind: Kind) -> (r: Segment)
        requires
            start <= end,
            0 < size <= end - start + 1,
        ensures
            r@ == (SegmentView {
                start,
                end,
                size,
                kind,
                ready: false,
                writable: false,
                data: Seq::empty(),
            }),
            r.wf(),
    {
        Segment { start, end, size, kind, buffer: Buffer::NotEnabled }
    }

    /// The mirrored offset of `addr`, if the segment's range holds it.
    pub fn offset(&self, addr: u16) -> (r: Option<u16>)
        requires
            self.wf(),
        ensures
            r == (if self@.contains(addr) {
                Some(self@.offset(addr) as u16)
            } else {
                None
            }),
    {
        if self.start <= addr && addr <= self.end {
            Some((addr - self.start) % self.size)
        } else {
            None
        }
    }

    pub fn overlaps(&self, other: &Segment) -> (r: bool)
        ensures
            r == ranges_overlap(
                self@.start as int,
                self@.end as int,
                other@.start as int,
                other@.end as int,
            ),
    {
        !(self.end < other.start || other.end < self.start)
    }

    pub fn is_ready(&self) -> (r: bool)
        ensures
            r == self@.ready,
    {
        !matches!(self.buffer, Buffer::NotEnabled)
    }

    pub fn kind(&self) -> (r: Kind)
        ensures
            r == self@.kind,
    {
        self.kind
    }

    /// Attaches a writable buffer of exactly `size` bytes.
    pub fn enable_rw(&mut self, slice: Vec<u8>) -> (r: Result<(), Error>)
        requires
            old(self).wf(),
        ensures
            final(self).wf(),
            r == old(self)@.attach_result(slice@.len() as int),
            final(self)@ == old(self)@.attached(slice@, true),
    {
        if self.is_ready() {
            return Err(Error::BufferAlreadyLoaded);
        }
        if slice.len() != self.size as usize {
            return Err(Error::IncorrectBufferLength);
        }
        self.buffer = Buffer::ReadWrite(slice);
        Ok(())
    }

    /// Attaches a read-only buffer of exactly `size` bytes.
    pub fn enable_ro(&mut self, slice: Vec<u8>) -> (r: Result<(), Error>)
        requires
            old(self).wf(),
        ensures
            final(self).wf(),
            r == old(self)@.attach_result(slice@.len() as int),
            final(self)@ == old(self)@.attached(slice@, false),
    {
        if self.is_ready() {
            return Err(Error::BufferAlreadyLoaded);
        }
        if slice.len() != self.size as usize {
            return Err(Error::IncorrectBufferLength);
        }
        self.buffer = Buffer::ReadOnly(slice);
        Ok(())
    }

    /// Drops the attached buffer; detaching an unattached segment is an error.
    pub fn disable(&mut self) -> (r: Result<(), Error>)
        requires
            old(self).wf(),
        ensures
            final(self).wf(),
            r == old(self)@.detach_result(),
            final(self)@ == (if r is Ok {
                old(self)@.detached()
            } else {
                old(self)@
            }),
    {
        if !self.is_ready() {
            return Err(Error::SegmentNotLoaded);
        }
        self.buffer = Buffer::NotEnabled;
        Ok(())
    }

    pub fn can_access(&self, offset: u16) -> (r: Result<(), Error>)
        ensures
            r == self@.access_result(offset as int),
    {
        if !self.is_ready() {
            Err(Error::SegmentBufferNotLoaded)
        } else if offset >= self.size {
            Err(Error::OffsetOutOfBound)
        } else {
            Ok(())
        }
    }

    pub fn read(&self, offset: u16) -> (r: Result<u8, Error>)
        requires
            self.wf(),
        ensures
            r == self@.read_result(offset as int),
    {
        match self.can_access(offset) {
            Err(e) => Err(e),
            Ok(()) => match &self.buffer {
                Buffer::ReadOnly(buf) => Ok(buf[offset as usize]),
                Buffer::ReadWrite(buf) => Ok(buf[offset as usize]),
                Buffer::NotEnabled => Err(Error::SegmentBufferNotLoaded),
            },
        }
    }

    pub fn write(&mut self, offset: u16, data: u8) -> (r: Result<(), Error>)
        requires
            old(self).wf(),
        ensures
            final(self).wf(),
            r == old(self)@.write_result(offset as int),
            final(self)@ == old(self)@.written(offset as int, data),
    {
        match self.can_access(offset) {
            Err(e) => Err(e),
            Ok(()) => match &mut self.buffer {
                Buffer::ReadWrite(buf) => {
                    buf.set(offset as usize, data);
                    Ok(())
                },
                Buffer::ReadOnly(_) => Err(Error::WriteToReadOnly),
                Buffer::NotEnabled => Err(Error::SegmentBufferNotLoaded),
            },
        }
    }
}

/// The abstract bus: its segments in registration order.
pub open spec fn segments_wf(v: Seq<SegmentView>) -> bool {
    &&& forall|i: int| 0 <= i < v.len() ==> #[trigger] v[i].wf()
    &&& forall|i: int, j: int|
        0 <= i < j < v.len() ==> !ranges_overlap(
            #[trigger] v[i].start as int,
            v[i].end as int,
            #[trigger] v[j].start as int,
            v[j].end as int,
        )
}

/// A range `[start, end]` meets none of the registered segments.
pub open spec fn can_register(v: Seq<SegmentView>, start: int, end: int) -> bool {
    forall|i: int|
        0 <= i < v.len() ==> !ranges_overlap(#[trigger] v[i].start as int, v[i].end as int, start, end)
}

/// Segment `i` is the first, in registration order, whose range holds `addr`.
pub open spec fn first_hit(v: Seq<SegmentView>, addr: u16, i: int) -> bool {
    &&& 0 <= i < v.len()
    &&& v[i].contains(addr)
    &&& forall|j: int| 0 <= j < i ==> !(#[trigger] v[j].contains(addr))
}

/// The segment index and mirrored offset that `addr` resolves to.
pub open spec fn resolve(v: Seq<SegmentView>, addr: u16) -> Result<(int, int), Error> {
    if exists|i: int| first_hit(v, addr, i) {
        let i = choose|i: int| first_hit(v, addr, i);
        Ok((i, v[i].offset(addr)))
    } else {
        Err(Error::AddressNotMapped)
    }
}

pub open spec fn bus_read(v: Seq<SegmentView>, addr: u16) -> Result<u8, Error> {
    match resolve(v, addr) {
        Ok((i, off)) => v[i].read_result(off),
        Err(e) => Err(e),
    }
}

pub open spec fn bus_write(v: Seq<SegmentView>, addr: u16) -> Result<(), Error> {
    match resolve(v, addr) {
        Ok((i, off)) => v[i].write_result(off),
        Err(e) => Err(e),
    }
}

pub open spec fn bus_written(v: Seq<SegmentView>, addr: u16, value: u8) -> Seq<SegmentView> {
    match resolve(v, addr) {
        Ok((i, off)) => v.update(i, v[i].written(off, value)),
        Err(_) => v,
    }
}

pub proof fn lemma_first_hit_unique(v: Seq<SegmentView>, addr: u16, i: int)
    requires
        first_hit(v, addr, i),
    ensures
        resolve(v, addr) == Ok::<(int, int), Error>((i, v[i].offset(addr))),
{
    let k = choose|k: int| first_hit(v, addr, k);
    if k < i {
        assert(!v[k].contains(addr));
    } else if i < k {
        assert(!v[i].contains(addr));
    }
}

/// Registering the ranges of a pairwise disjoint sequence one after another
/// never meets an earlier range, and two ranges that share an address refuse
/// each other in either order of registration.
pub proof fn lemma_register_sequence(v: Seq<SegmentView>, a: SegmentView, b: SegmentView)
    requires
        forall|i: int, j: int|
            0 <= i < j < v.len() ==> !ranges_overlap(
                #[trigger] v[i].start as int,
                v[i].end as int,
                #[trigger] v[j].start as int,
                v[j].end as int,
            ),
    ensures
        forall|k: int|
            0 <= k < v.len() ==> can_register(
                #[trigger] v.subrange(0, k),
                v[k].start as int,
                v[k].end as int,
            ),
        ranges_overlap(a.start as int, a.end as int, b.start as int, b.end as int) ==> !can_register(
            v.push(a),
            b.start as int,
            b.end as int,
        ) && !can_register(v.push(b), a.start as int, a.end as int),
{
    assert forall|k: int| 0 <= k < v.len() implies can_register(
        #[trigger] v.subrange(0, k),
        v[k].start as int,
        v[k].end as int,
    ) by {
        assert forall|i: int| 0 <= i < v.subrange(0, k).len() implies !ranges_overlap(
            #[trigger] v.subrange(0, k)[i].start as int,
            v.subrange(0, k)[i].end as int,
            v[k].start as int,
            v[k].end as int,
        ) by {
            assert(v.subrange(0, k)[i] == v[i]);
        }
    }
    if ranges_overlap(a.start as int, a.end as int, b.start as int, b.end as int) {
        assert(v.push(a)[v.len() as int] == a);
        assert(v.push(b)[v.len() as int] == b);
    }
}

/// On a well-formed bus, the segment whose range holds `addr` is where
/// `addr` resolves.
pub proof fn lemma_resolve_containing(v: Seq<SegmentView>, addr: u16, i: int)
    requires
        segments_wf(v),
        0 <= i < v.len(),
        v[i].contains(addr),
    ensures
        first_hit(v, addr, i),
        resolve(v, addr) == Ok::<(int, int), Error>((i, v[i].offset(addr))),
{
    assert forall|j: int| 0 <= j < i implies !(#[trigger] v[j].contains(addr)) by {
        assert(!ranges_overlap(v[j].start as int, v[j].end as int, v[i].start as int, v[i].end as int));
    }
    lemma_first_hit_unique(v, addr, i);
}

/// Addresses one or more mirror periods apart inside a segment resolve to
/// the same segment and the same offset.
pub proof fn lemma_mirror_same_offset(v: Seq<SegmentView>, i: int, addr: u16, k: int)
    requires
        segments_wf(v),
        0 <= i < v.len(),
        v[i].contains(addr),
        v[i].start <= addr + k * v[i].size <= v[i].end,
    ensures
        resolve(v, addr) == resolve(v, (addr + k * v[i].size) as u16),
        resolve(v, addr) is Ok,
{
    let addr2 = (addr + k * v[i].size) as u16;
    let size = v[i].size as int;
    assert(v[i].wf());
    lemma_resolve_containing(v, addr, i);
    lemma_resolve_containing(v, addr2, i);
    assert((addr2 - v[i].start) == size * k + (addr - v[i].start)) by (nonlinear_arith)
        requires
            addr2 == addr + k * size,
    ;
    vstd::arithmetic::div_mod::lemma_mod_multiples_vanish(k, addr - v[i].start, size);
}

/// Reads and writes through a segment fail as not ready before a buffer is
/// attached, succeed once a writable buffer is attached, and fail again after
/// it is detached.
pub proof fn lemma_attach_gates_access(
    v: Seq<SegmentView>,
    i: int,
    addr: u16,
    data: Seq<u8>,
)
    requires
        segments_wf(v),
        0 <= i < v.len(),
        v[i].contains(addr),
        !v[i].ready,
        data.len() == v[i].size,
    ensures
        bus_read(v, addr) == Err::<u8, Error>(Error::SegmentBufferNotLoaded),
        bus_write(v, addr) == Err::<(), Error>(Error::SegmentBufferNotLoaded),
        v[i].attach_result(data.len() as int) is Ok,
        bus_read(v.update(i, v[i].attached(data, true)), addr) is Ok,
        bus_write(v.update(i, v[i].attached(data, true)), addr) is Ok,
        v.update(i, v[i].attached(data, true))[i].detach_result() is Ok,
        bus_read(v.update(i, v[i].attached(data, true)).update(i, v[i].attached(data, true).detached()), addr)
            == Err::<u8, Error>(Error::SegmentBufferNotLoaded),
        bus_write(v.update(i, v[i].attached(data, true)).update(i, v[i].attached(data, true).detached()), addr)
            == Err::<(), Error>(Error::SegmentBufferNotLoaded),
{
    let v1 = v.update(i, v[i].attached(data, true));
    let v2 = v1.update(i, v1[i].detached());
    assert(v[i].wf());
    lemma_resolve_containing(v, addr, i);
    assert(segments_wf(v1)) by {
        assert forall|j: int| 0 <= j < v1.len() implies #[trigger] v1[j].wf() by {
            if j != i {
                assert(v1[j] == v[j]);
            }
        }
        assert forall|j: int, l: int| 0 <= j < l < v1.len() implies !ranges_overlap(
            #[trigger] v1[j].start as int,
            v1[j].end as int,
            #[trigger] v1[l].start as int,
            v1[l].end as int,
        ) by {
            assert(!ranges_overlap(v[j].start as int, v[j].end as int, v[l].start as int, v[l].end as int));
        }
    }
    lemma_resolve_containing(v1, addr, i);
    assert(segments_wf(v2)) by {
        assert forall|j: int| 0 <= j < v2.len() implies #[trigger] v2[j].wf() by {
            if j != i {
                assert(v2[j] == v1[j]);
            }
        }
        assert forall|j: int, l: int| 0 <= j < l < v2.len() implies !ranges_overlap(
            #[trigger] v2[j].start as int,
            v2[j].end as int,
            #[trigger] v2[l].start as int,
            v2[l].end as int,
        ) by {
            assert(!ranges_overlap(v1[j].start as int, v1[j].end as int, v1[l].start as int, v1[l].end as int));
        }
    }
    lemma_resolve_containing(v2, addr, i);
    assert(0 <= v[i].offset(addr) < v[i].size);
}

/// Two buses with the same segments, whatever their contents.
pub open spec fn same_layout(v: Seq<SegmentView>, w: Seq<SegmentView>) -> bool {
    &&& v.len() == w.len()
    &&& forall|i: int|
        0 <= i < v.len() ==> (#[trigger] w[i]).start == v[i].start && w[i].end == v[i].end
            && w[i].size == v[i].size && w[i].kind == v[i].kind
}

/// A write through the bus changes contents only.
pub proof fn lemma_bus_written_layout(v: Seq<SegmentView>, addr: u16, value: u8)
    ensures
        same_layout(v, bus_written(v, addr, value)),
{
}

/// The address space: an ordered list of non-overlapping segments.
#[derive(Debug)]
pub struct MemoryMap {
    segs: Vec<Segment>,
}

impl View for MemoryMap {
    type V = Seq<SegmentView>;

    closed spec fn view(&self) -> Seq<SegmentView> {
        self.segs@.map_values(|s: Segment| s@)
    }
}

impl MemoryMap {
    pub open spec fn wf(&self) -> bool {
        segments_wf(self@)
    }

    pub fn new() -> (r: MemoryMap)
        ensures
            r.wf(),
            r@ == Seq::<SegmentView>::empty(),
    {
        let r = MemoryMap { segs: Vec::new() };
        assert(r@ =~= Seq::<SegmentView>::empty());
        r
    }

    pub fn len(&self) -> (r: usize)
        ensures
            r == self@.len(),
    {
        self.segs.len()
    }

    pub fn segment(&self, handle: usize) -> (r: &Segment)
        requires
            handle < self@.len(),
        ensures
            r@ == self@[handle as int],
    {
        &self.segs[handle]
    }

    /// Registers a segment unless its range meets a registered one; the
    /// result is the new segment's handle.
    pub fn add_seg(&mut self, start: u16, end: u16, size: u16, kind: Kind) -> (r: Result<usize, Error>)
        requires
            old(self).wf(),
            start <= end,
            0 < size <= end - start + 1,
        ensures
            final(self).wf(),
            can_register(old(self)@, start as int, end as int) ==> r == Ok::<usize, Error>(
                old(self)@.len() as usize,
            ) && final(self)@ == old(self)@.push(
                SegmentView {
                    start,
                    end,
                    size,
                    kind,
                    ready: false,
                    writable: false,
                    data: Seq::empty(),
                },
            ),
            !can_register(old(self)@, start as int, end as int) ==> r == Err::<usize, Error>(
                Error::SegmentOverlap,
            ) && final(self)@ == old(self)@,
    {
        let new_seg = Segment::new(start, end, size, kind);
        let mut i: usize = 0;
        while i < self.segs.len()
            invariant
                0 <= i <= self.segs@.len(),
                self@ == old(self)@,
                self.wf(),
                new_seg.wf(),
                new_seg@.start == start && new_seg@.end == end,
                forall|j: int|
                    0 <= j < i ==> !ranges_overlap(
                        #[trigger] self@[j].start as int,
                        self@[j].end as int,
                        start as int,
                        end as int,
                    ),
            decreases self.segs@.len() - i,
        {
            if self.segs[i].overlaps(&new_seg) {
                assert(self@[i as int] == self.segs@[i as int]@);
                return Err(Error::SegmentOverlap);
            }
            assert(self@[i as int] == self.segs@[i as int]@);
            i = i + 1;
        }
        let handle = self.segs.len();
        self.segs.push(new_seg);
        assert(self@ =~= old(self)@.push(new_seg@));
        Ok(handle)
    }

    /// Resolves `addr` to the first segment holding it and the mirrored offset.
    pub fn map(&self, addr: u16) -> (r: Result<(usize, u16), Error>)
        requires
            self.wf(),
        ensures
            resolve(self@, addr) == (match r {
                Ok((i, off)) => Ok::<(int, int), Error>((i as int, off as int)),
                Err(e) => Err(e),
            }),
    {
        let mut i: usize = 0;
        while i < self.segs.len()
            invariant
                0 <= i <= self.segs@.len(),
                self.wf(),
                forall|j: int| 0 <= j < i ==> !(#[trigger] self@[j].contains(addr)),
            decreases self.segs@.len() - i,
        {
            assert(self@[i as int] == self.segs@[i as int]@);
            assert(self@[i as int].wf());
            if let Some(offset) = self.segs[i].offset(addr) {
                proof {
                    lemma_first_hit_unique(self@, addr, i as int);
                }
                return Ok((i, offset));
            }
            i = i + 1;
        }
        assert(!exists|k: int| first_hit(self@, addr, k));
        Err(Error::AddressNotMapped)
    }

    pub fn read(&self, addr: u16) -> (r: Result<u8, Error>)
        requires
            self.wf(),
        ensures
            r == bus_read(self@, addr),
    {
        match self.map(addr) {
            Ok((i, offset)) => {
                assert(self@[i as int] == self.segs@[i as int]@);
                self.segs[i].read(offset)
            },
            Err(e) => Err(e),
        }
    }

    pub fn write(&mut self, addr: u16, data: u8) -> (r: Result<(), Error>)
        requires
            old(self).wf(),
        ensures
            final(self).wf(),
            r == bus_write(old(self)@, addr),
            final(self)@ == bus_written(old(self)@, addr, data),
    {
        match self.map(addr) {
            Ok((i, offset)) => {
                assert(self@[i as int] == self.segs@[i as int]@);
                let r = self.segs[i].write(offset, data);
                assert(self@ =~= bus_written(old(self)@, addr, data));
                r
            },
            Err(e) => Err(e),
        }
    }

    /// Attaches a writable buffer to the segment that holds `addr`.
    pub fn enable_seg_rw(&mut self, addr: u16, slice: Vec<u8>) -> (r: Result<(), Error>)
        requires
            old(self).wf(),
        ensures
            final(self).wf(),
            match resolve(old(self)@, addr) {
                Ok((i, _)) => r == old(self)@[i].attach_result(slice@.len() as int) && final(self)@
                    == old(self)@.update(i, old(self)@[i].attached(slice@, true)),
                Err(e) => r == Err::<(), Error>(e) && final(self)@ == old(self)@,
            },
    {
        match self.map(addr) {
            Ok((i, _)) => {
                assert(self@[i as int] == self.segs@[i as int]@);
                let r = self.segs[i].enable_rw(slice);
                assert(self@ =~= old(self)@.update(i as int, old(self)@[i as int].attached(slice@, true)));
                r
            },
            Err(e) => Err(e),
        }
    }

    /// Attaches a read-only buffer to the segment that holds `addr`.
    pub fn enable_seg_ro(&mut self, addr: u16, slice: Vec<u8>) -> (r: Result<(), Error>)
        requires
            old(self).wf(),
        ensures
            final(self).wf(),
            match resolve(old(self)@, addr) {
                Ok((i, _)) => r == old(self)@[i].attach_result(slice@.len() as int) && final(self)@
                    == old(self)@.update(i, old(self)@[i].attached(slice@, false)),
                Err(e) => r == Err::<(), Error>(e) && final(self)@ == old(self)@,
            },
    {
        match self.map(addr) {
            Ok((i, _)) => {
                assert(self@[i as int] == self.segs@[i as int]@);
                let r = self.segs[i].enable_ro(slice);
                assert(self@ =~= old(self)@.update(i as int, old(self)@[i as int].attached(slice@, false)));
                r
            },
            Err(e) => Err(e),
        }
    }

    /// Detaches the buffer of the segment that holds `addr`.
    pub fn disable_seg(&mut self, addr: u16) -> (r: Result<(), Error>)
        requires
            old(self).wf(),
        ensures
            final(self).wf(),
            match resolve(old(self)@, addr) {
                Ok((i, _)) => r == old(self)@[i].detach_result() && final(self)@ == (if r is Ok {
                    old(self)@.update(i, old(self)@[i].detached())
                } else {
                    old(self)@
                }),
                Err(e) => r == Err::<(), Error>(e) && final(self)@ == old(self)@,
            },
    {
        match self.map(addr) {
            Ok((i, _)) => {
                assert(self@[i as int] == self.segs@[i as int]@);
                let r = self.segs[i].disable();
                proof {
                    if r is Ok {
                        assert(self@ =~= old(self)@.update(i as int, old(self)@[i as int].detached()));
                    } else {
                        assert(self@ =~= old(self)@);
                    }
                }
                r
            },
            Err(e) => Err(e),
        }
    }
}

} // verus!
