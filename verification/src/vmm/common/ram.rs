//! Guest memory.

use vstd::arithmetic::power2::is_pow2;
use vstd::prelude::*;

use crate::codec::{read_le, write_le, GuestObj};
use crate::codec::{
    eight_bytes, four_bytes, law_little_endian_within, le_bytes, le_value, lemma_le_bytes_len,
    lemma_le_value_of_le_bytes, two_bytes,
};
use crate::text::{append_decimal, append_hex, decimal, hex};

verus! {

/// Bytes in a mebibyte.
pub const MIB: usize = 0x10_0000;

/// Hypervisors map guest memory in units of this many bytes.
pub const HOST_PAGE: usize = 0x1000;

/// Which way an access to memory or to a disk goes.
#[derive(Debug, Clone, Copy, PartialEq, Eq, Structural)]
pub enum Access {
    Read,
    Write,
}

/// Why guest memory could not be set up or accessed.
#[derive(Debug, Clone, Copy, PartialEq, Eq, Structural)]
pub enum RamError {
    /// The requested size does not fit the host's address space.
    SizeOverflow,
    /// The host has no `size` bytes to give.
    Unavailable { size: usize },
    /// The guest address does not fit the host's address space.
    GpaOverflow,
    /// The end of the range does not fit the host's address space.
    RangeOverflow { access: Access },
    /// The range `start..end` is not inside the `size` bytes of memory.
    OutOfBounds { access: Access, start: usize, end: usize, size: usize },
}

impl Access {
    /// The verb that messages use.
    pub open spec fn verb(self) -> Seq<char> {
        match self {
            Access::Read => "read"@,
            Access::Write => "write"@,
        }
    }

    /// The verb that messages use.
    pub fn name(&self) -> (s: &'static str)
        ensures
            s@ == self.verb(),
    {
        match *self {
            Access::Read => "read",
            Access::Write => "write",
        }
    }
}

impl RamError {
    /// The text that reports the error.
    pub open spec fn text(self) -> Seq<char> {
        match self {
            RamError::SizeOverflow => "guest memory size overflows usize"@,
            RamError::Unavailable { size } => "allocation of "@ + decimal(size as nat)
                + " bytes failed"@,
            RamError::GpaOverflow => "gpa overflow"@,
            RamError::RangeOverflow { access } => access.verb() + " overflow"@,
            RamError::OutOfBounds { access, start, end, size } => access.verb() + " [0x"@ + hex(
                start as nat,
            ) + "..0x"@ + hex(end as nat) + ") out of bounds (size 0x"@ + hex(size as nat) + ")"@,
        }
    }

    /// Reports the error in words.
    pub fn message(&self) -> (s: String)
        ensures
            s@ == self.text(),
    {
        match *self {
            RamError::SizeOverflow => String::from_str("guest memory size overflows usize"),
            RamError::Unavailable { size } => {
                let mut s = String::from_str("allocation of ");
                append_decimal(&mut s, size as u64);
                s.append(" bytes failed");
                s
            },
            RamError::GpaOverflow => String::from_str("gpa overflow"),
            RamError::RangeOverflow { access } => {
                let mut s = String::from_str(access.name());
                s.append(" overflow");
                s
            },
            RamError::OutOfBounds { access, start, end, size } => {
                let mut s = String::from_str(access.name());
                s.append(" [0x");
                append_hex(&mut s, start as u64);
                s.append("..0x");
                append_hex(&mut s, end as u64);
                s.append(") out of bounds (size 0x");
                append_hex(&mut s, size as u64);
                s.append(")");
                s
            },
        }
    }
}

/// What an access to `len` bytes at `gpa` comes to in `size` bytes of memory.
pub open spec fn access_result(access: Access, size: nat, gpa: u64, len: nat) -> Result<
    (),
    RamError,
> {
    if gpa > usize::MAX {
        Err(RamError::GpaOverflow)
    } else if gpa + len > usize::MAX {
        Err(RamError::RangeOverflow { access })
    } else if gpa + len > size {
        Err(
            RamError::OutOfBounds {
                access,
                start: gpa as usize,
                end: (gpa + len) as usize,
                size: size as usize,
            },
        )
    } else {
        Ok(())
    }
}

/// Memory `mem` after `data` was written at `at`.
pub open spec fn overwrite(mem: Seq<u8>, at: int, data: Seq<u8>) -> Seq<u8> {
    Seq::new(
        mem.len(),
        |i: int|
            if at <= i < at + data.len() {
                data[i - at]
            } else {
                mem[i]
            },
    )
}

/// Memory `mem` after an attempt to write `data` at `gpa`: a write that is
/// refused leaves it as it was.
pub open spec fn write_attempt(mem: Seq<u8>, gpa: u64, data: Seq<u8>) -> Seq<u8> {
    if access_result(Access::Write, mem.len(), gpa, data.len()) is Ok {
        overwrite(mem, gpa as int, data)
    } else {
        mem
    }
}

/// What loading the `width`-byte integer at `gpa` from memory `mem` gives.
pub open spec fn load(mem: Seq<u8>, gpa: u64, width: nat) -> Result<nat, RamError> {
    match access_result(Access::Read, mem.len(), gpa, width) {
        Ok(_) => Ok(le_value(mem.subrange(gpa as int, gpa + width))),
        Err(e) => Err(e),
    }
}

/// `n` bytes of zero.
pub open spec fn zeros(n: nat) -> Seq<u8> {
    Seq::new(n, |i: int| 0u8)
}

/// The sizes that guest memory comes in: whole mebibytes, at least one.
pub open spec fn is_ram_size(n: nat) -> bool {
    n >= MIB && n % (MIB as nat) == 0
}

/// Host buffer mapped one to one into the guest's physical address space,
/// starting at guest address zero. The mapped part starts on a page boundary of
/// the host, which is where a hypervisor wants it.
pub struct GuestRam {
    buf: Vec<u8>,
    start: usize,
    size: usize,
}

impl View for GuestRam {
    type V = Seq<u8>;

    /// The bytes that the guest sees, by guest physical address.
    closed spec fn view(&self) -> Seq<u8> {
        self.buf@.subrange(self.start as int, self.start + self.size)
    }
}

/// How many bytes after the start of `buf` the next multiple of `align` lies, by
/// `align_offset` of the pointer to the buffer. Where the allocator put the
/// buffer decides, so nothing is claimed of the result.
#[verifier::external_body]
fn page_padding(buf: &Vec<u8>, align: usize) -> (padding: usize)
    requires
        is_pow2(align as int),
{
    buf.as_ptr().align_offset(align)
}

/// Asks the host for room for `n` bytes. `None` where the host refuses, which is the
/// host's to say.
fn reserve(n: usize) -> (r: Option<Vec<u8>>)
    ensures
        r matches Some(buf) ==> buf@.len() == 0,
{
    let mut buf: Vec<u8> = Vec::new();
    match buf.try_reserve(n) {
        Ok(_) => Some(buf),
        Err(_) => None,
    }
}

/// The host, asked for room for `size` bytes and a page to align them, gave it or not.
pub closed spec fn host_answers(size: usize, given: bool) -> bool {
    exists|got: Option<Vec<u8>>|
        {
            &&& #[trigger] call_ensures(reserve, ((size + HOST_PAGE) as usize,), got)
            &&& got is Some == given
        }
}

/// The host, asked how far the buffer `buf` starts before a page boundary, told `padding`.
pub closed spec fn host_padding(buf: Vec<u8>, padding: usize) -> bool {
    call_ensures(page_padding, (&buf, HOST_PAGE), padding)
}

/// Fills the room that the host gave with `n` bytes of zero.
fn zeroed(room: Option<Vec<u8>>, n: usize) -> (r: Option<Vec<u8>>)
    requires
        room matches Some(buf) ==> buf@.len() == 0,
    ensures
        r is Some <==> room is Some,
        r matches Some(filled) ==> filled@ == zeros(n as nat),
{
    match room {
        Some(room) => {
            let mut buf = room;
            buf.resize(n, 0);
            assert(buf@ =~= zeros(n as nat));
            Some(buf)
        },
        None => None,
    }
}

/// Asks the host for `size` bytes of zeroed memory and a page to align them. An empty
/// request is refused, and any other one exactly where the host refuses it.
fn allocate(size: usize) -> (r: Option<Vec<u8>>)
    requires
        size <= usize::MAX - HOST_PAGE,
    ensures
        size == 0 ==> r is None,
        size > 0 ==> host_answers(size, r is Some),
        r matches Some(buf) ==> buf@ == zeros((size + HOST_PAGE) as nat),
{
    if size == 0 {
        return None;
    }
    let room = reserve(size + HOST_PAGE);
    assert(call_ensures(reserve, ((size + HOST_PAGE) as usize,), room));
    zeroed(room, size + HOST_PAGE)
}

impl GuestRam {
    #[verifier::type_invariant]
    closed spec fn inv(self) -> bool {
        &&& self.start + self.size <= self.buf.len()
        &&& is_ram_size(self.size as nat)
    }

    /// How far into the buffer from the host the guest's memory starts.
    pub closed spec fn host_start(&self) -> int {
        self.start as int
    }

    /// The buffer from the host, of which the guest's memory is a part.
    pub closed spec fn host_buffer(&self) -> Vec<u8> {
        self.buf
    }

    /// The guest's memory starts where the host, asked of the very buffer that backs it,
    /// said that the next page does.
    pub open spec fn on_host_page(&self) -> bool {
        exists|padding: usize|
            {
                &&& #[trigger] host_padding(self.host_buffer(), padding)
                &&& self.host_start() == if padding < HOST_PAGE {
                    padding as int
                } else {
                    0
                }
            }
    }

    /// Allocates `size_mib` mebibytes of zeroed guest memory. Whether the host
    /// has that much to give is the host's to say.
    pub fn new(size_mib: u64) -> (r: Result<Self, RamError>)
        ensures
            size_mib * MIB > usize::MAX <==> r == Err::<Self, RamError>(RamError::SizeOverflow),
            size_mib == 0 ==> r is Err,
            0 < size_mib * MIB <= usize::MAX ==> host_answers(
                (size_mib * MIB) as usize,
                r is Ok,
            ),
            r matches Ok(ram) ==> ram@ == zeros((size_mib * MIB) as nat) && ram.on_host_page(),
            r matches Err(e) ==> e == RamError::SizeOverflow || e == (RamError::Unavailable {
                size: (size_mib * MIB) as usize,
            }),
    {
        if size_mib > (usize::MAX / MIB) as u64 {
            return Err(RamError::SizeOverflow);
        }
        let size: usize = size_mib as usize * MIB;
        let allocation = allocate(size);
        let padding: usize = match &allocation {
            Some(buf) => {
                assert(is_pow2(HOST_PAGE as int)) by {
                    reveal_with_fuel(is_pow2, 14);
                }
                page_padding(buf, HOST_PAGE)
            },
            None => 0,
        };
        let r = Self::from_allocation(size, allocation, padding);
        proof {
            if r is Ok {
                assert(r->Ok_0@ =~= zeros(size as nat));
                assert(host_padding(r->Ok_0.host_buffer(), padding));
            }
        }
        r
    }

    /// Takes over what the host allocated for `size` bytes of guest memory: the
    /// guest's bytes start `padding` bytes into it, or at its first byte where
    /// `padding` is no offset within a page.
    pub fn from_allocation(size: usize, allocation: Option<Vec<u8>>, padding: usize) -> (r: Result<
        Self,
        RamError,
    >)
        requires
            allocation matches Some(buf) ==> is_ram_size(size as nat) && buf@.len() >= size
                + HOST_PAGE,
        ensures
            allocation is None ==> r == Err::<Self, RamError>(RamError::Unavailable { size }),
            allocation matches Some(buf) ==> {
                let skip = if padding < HOST_PAGE {
                    padding as int
                } else {
                    0
                };
                &&& r matches Ok(ram)
                &&& ram@ == buf@.subrange(skip, skip + size)
                &&& ram.host_buffer() == buf
                &&& ram.host_start() == skip
            },
    {
        match allocation {
            None => Err(RamError::Unavailable { size }),
            Some(buf) => {
                let start: usize = if padding < HOST_PAGE {
                    padding
                } else {
                    0
                };
                Ok(GuestRam { buf, start, size })
            },
        }
    }

    /// The host memory that backs the guest's, for a hypervisor to map at guest
    /// address zero.
    pub fn host_ptr(&self) -> (host: &[u8])
        ensures
            host@ == self@,
    {
        proof {
            use_type_invariant(self);
        }
        vstd::slice::slice_subrange(self.buf.as_slice(), self.start, self.start + self.size)
    }

    /// Gives the buffer that backs the guest's memory up, for a hypervisor to let the guest
    /// write to, and where in it the guest's memory starts.
    pub fn into_host_buffer(self) -> (r: (Vec<u8>, usize))
        ensures
            r.1 <= r.0@.len(),
            r.0@.skip(r.1 as int) == self@,
            r.1 == self.host_start(),
    {
        proof {
            use_type_invariant(&self);
        }
        let start: usize = self.start;
        let end: usize = self.start + self.size;
        let mut buf = self.buf;
        buf.truncate(end);
        assert(buf@.skip(start as int) =~= self@);
        (buf, start)
    }

    /// How many bytes of memory the guest has.
    pub fn size(&self) -> (n: usize)
        ensures
            n == self@.len(),
            is_ram_size(n as nat),
    {
        proof {
            use_type_invariant(self);
        }
        self.size
    }

    /// Copies `data` to guest address `gpa`, if all of it fits.
    pub fn write_slice(&mut self, gpa: u64, data: &[u8]) -> (r: Result<(), RamError>)
        ensures
            r == access_result(Access::Write, old(self)@.len(), gpa, data@.len()),
            final(self)@ == write_attempt(old(self)@, gpa, data@),
            final(self).host_start() == old(self).host_start(),
            is_ram_size(old(self)@.len()),
    {
        proof {
            use_type_invariant(&*self);
        }
        let size: usize = self.size;
        if gpa > usize::MAX as u64 {
            return Err(RamError::GpaOverflow);
        }
        let off: usize = gpa as usize;
        if data.len() > usize::MAX - off {
            return Err(RamError::RangeOverflow { access: Access::Write });
        }
        let end: usize = off + data.len();
        if end > size {
            return Err(
                RamError::OutOfBounds { access: Access::Write, start: off, end, size },
            );
        }
        let base: usize = self.start + off;
        let ghost before = self.buf@;
        let mut i: usize = 0;
        while i < data.len()
            invariant
                i <= data.len(),
                self.start == old(self).start,
                self.size == old(self).size,
                self.buf@.len() == before.len(),
                base == self.start + off,
                base + data.len() <= self.buf.len(),
                self.buf@ == overwrite(before, base as int, data@.take(i as int)),
                self.start + self.size <= self.buf@.len(),
                is_ram_size(self.size as nat),
            decreases data.len() - i,
        {
            self.buf[base + i] = data[i];
            i = i + 1;
            assert(self.buf@ =~= overwrite(before, base as int, data@.take(i as int)));
        }
        assert(data@.take(i as int) =~= data@);
        assert(self@ =~= overwrite(old(self)@, off as int, data@));
        Ok(())
    }

    /// Clears `len` bytes from guest address `gpa` on, if all of them are in memory.
    pub fn write_zeros(&mut self, gpa: u64, len: u64) -> (r: Result<(), RamError>)
        ensures
            r == access_result(Access::Write, old(self)@.len(), gpa, len as nat),
            final(self)@ == write_attempt(old(self)@, gpa, zeros(len as nat)),
            final(self).host_start() == old(self).host_start(),
            is_ram_size(old(self)@.len()),
    {
        proof {
            use_type_invariant(&*self);
        }
        let size: usize = self.size;
        if gpa > usize::MAX as u64 {
            return Err(RamError::GpaOverflow);
        }
        let off: usize = gpa as usize;
        if len > (usize::MAX - off) as u64 {
            return Err(RamError::RangeOverflow { access: Access::Write });
        }
        let end: usize = off + len as usize;
        if end > size {
            return Err(
                RamError::OutOfBounds { access: Access::Write, start: off, end, size },
            );
        }
        let from: usize = self.start + off;
        let to: usize = self.start + end;
        let ghost before = self.buf@;
        let mut i: usize = from;
        while i < to
            invariant
                self.start <= from <= i <= to,
                self.start == old(self).start,
                self.size == old(self).size,
                self.buf@.len() == before.len(),
                to <= self.buf.len(),
                self.buf@ == overwrite(before, from as int, zeros((i - from) as nat)),
                self.start + self.size <= self.buf@.len(),
                is_ram_size(self.size as nat),
            decreases to - i,
        {
            self.buf[i] = 0;
            i = i + 1;
            assert(self.buf@ =~= overwrite(before, from as int, zeros((i - from) as nat)));
        }
        assert(self@ =~= overwrite(old(self)@, off as int, zeros(len as nat)));
        Ok(())
    }

    /// Fills `buf` from guest address `gpa`, if all of it lies in memory.
    pub fn read_slice(&self, gpa: u64, buf: &mut [u8]) -> (r: Result<(), RamError>)
        ensures
            r == access_result(Access::Read, self@.len(), gpa, old(buf)@.len()),
            final(buf)@ == if r is Ok {
                self@.subrange(gpa as int, gpa + old(buf)@.len())
            } else {
                old(buf)@
            },
            is_ram_size(self@.len()),
    {
        proof {
            use_type_invariant(self);
        }
        let size: usize = self.size;
        let len: usize = buf.len();
        if gpa > usize::MAX as u64 {
            return Err(RamError::GpaOverflow);
        }
        let off: usize = gpa as usize;
        if len > usize::MAX - off {
            return Err(RamError::RangeOverflow { access: Access::Read });
        }
        let end: usize = off + len;
        if end > size {
            return Err(RamError::OutOfBounds { access: Access::Read, start: off, end, size });
        }
        let base: usize = self.start + off;
        let mut i: usize = 0;
        while i < len
            invariant
                i <= len,
                len == buf@.len(),
                base + len <= self.buf.len(),
                forall|j: int| 0 <= j < i ==> buf@[j] == self.buf@[base + j],
            decreases len - i,
        {
            buf[i] = self.buf[base + i];
            i = i + 1;
        }
        assert(buf@ =~= self@.subrange(gpa as int, gpa + len));
        Ok(())
    }

    /// Stores the integer `val` at guest address `gpa`, if all of it fits.
    pub fn write_obj<T: GuestObj>(&mut self, gpa: u64, val: T) -> (r: Result<(), RamError>)
        ensures
            r == access_result(Access::Write, old(self)@.len(), gpa, T::width()),
            final(self)@ == write_attempt(
                old(self)@,
                gpa,
                le_bytes(val.value(), T::width()),
            ),
            final(self).host_start() == old(self).host_start(),
            is_ram_size(old(self)@.len()),
    {
        proof {
            lemma_le_bytes_len(val.value(), T::width());
        }
        let bytes = write_le(val.to_u64(), T::size());
        self.write_slice(gpa, bytes.as_slice())
    }

    /// Loads the integer at guest address `gpa`, if all of it lies in memory.
    pub fn read_obj<T: GuestObj>(&self, gpa: u64) -> (r: Result<T, RamError>)
        ensures
            match load(self@, gpa, T::width()) {
                Ok(n) => r matches Ok(v) && v.value() == n,
                Err(e) => r == Err::<T, RamError>(e),
            },
            is_ram_size(self@.len()),
    {
        let n = T::size();
        let mut buf: Vec<u8> = vec![0u8; n];
        match self.read_slice(gpa, buf.as_mut_slice()) {
            Ok(_) => {
                let v = read_le(buf.as_slice(), 0, n);
                assert(buf@.subrange(0, n as int) =~= buf@);
                Ok(T::from_u64(v))
            },
            Err(e) => Err(e),
        }
    }
}

/// Reading back a range that was just written gives what was written.
pub proof fn law_read_back(mem: Seq<u8>, gpa: u64, data: Seq<u8>)
    requires
        access_result(Access::Write, mem.len(), gpa, data.len()) is Ok,
    ensures
        access_result(
            Access::Read,
            write_attempt(mem, gpa, data).len(),
            gpa,
            data.len(),
        ) is Ok,
        write_attempt(mem, gpa, data).subrange(gpa as int, gpa + data.len()) == data,
{
    assert(write_attempt(mem, gpa, data).subrange(gpa as int, gpa + data.len()) =~= data);
}

/// A write changes no byte outside the range that it names, and never the size of
/// memory.
pub proof fn law_write_is_local(mem: Seq<u8>, gpa: u64, data: Seq<u8>, from: int, to: int)
    requires
        0 <= from <= to <= mem.len(),
        to <= gpa || gpa + data.len() <= from,
    ensures
        write_attempt(mem, gpa, data).len() == mem.len(),
        write_attempt(mem, gpa, data).subrange(from, to) == mem.subrange(from, to),
{
    assert(write_attempt(mem, gpa, data).subrange(from, to) =~= mem.subrange(from, to));
}

/// An integer stored at an address is the integer loaded from there.
pub proof fn law_object_round_trip<T: GuestObj>(mem: Seq<u8>, gpa: u64, val: T)
    requires
        access_result(Access::Write, mem.len(), gpa, T::width()) is Ok,
    ensures
        load(write_attempt(mem, gpa, le_bytes(val.value(), T::width())), gpa, T::width()) == Ok::<
            nat,
            RamError,
        >(val.value()),
{
    let bytes = le_bytes(val.value(), T::width());
    val.lemma_bounds();
    lemma_le_bytes_len(val.value(), T::width());
    law_read_back(mem, gpa, bytes);
    lemma_le_value_of_le_bytes(val.value(), T::width());
}

/// Of two writes to the same range only the second shows.
pub proof fn law_last_write_wins(mem: Seq<u8>, gpa: u64, first: Seq<u8>, second: Seq<u8>)
    requires
        first.len() == second.len(),
    ensures
        write_attempt(write_attempt(mem, gpa, first), gpa, second) == write_attempt(
            mem,
            gpa,
            second,
        ),
{
    assert(write_attempt(write_attempt(mem, gpa, first), gpa, second) =~= write_attempt(
        mem,
        gpa,
        second,
    ));
}

/// An access is granted exactly where all of its bytes lie in memory. One that is not says
/// which bytes it named, unless these have no place in the host's address space at all.
pub proof fn law_access_bounds(access: Access, size: usize, gpa: u64, len: nat)
    ensures
        access_result(access, size as nat, gpa, len) is Ok <==> gpa + len <= size,
        gpa > usize::MAX ==> access_result(access, size as nat, gpa, len) == Err::<(), RamError>(
            RamError::GpaOverflow,
        ),
        gpa <= usize::MAX < gpa + len ==> access_result(access, size as nat, gpa, len) == Err::<
            (),
            RamError,
        >(RamError::RangeOverflow { access }),
        size < gpa + len <= usize::MAX ==> (access_result(access, size as nat, gpa, len) matches Err(
            RamError::OutOfBounds { access: a, start, end, size: s },
        ) && a == access && start == gpa && end == gpa + len && s == size),
{
}

/// A write that fits puts each of its bytes in its place and keeps every other byte; one
/// that does not keeps all of them.
pub proof fn law_write_byte_by_byte(mem: Seq<u8>, gpa: u64, data: Seq<u8>, i: int)
    requires
        mem.len() <= usize::MAX,
        0 <= i < mem.len(),
    ensures
        write_attempt(mem, gpa, data).len() == mem.len(),
        write_attempt(mem, gpa, data)[i] == if gpa + data.len() <= mem.len() && gpa <= i < gpa
            + data.len() {
            data[i - gpa]
        } else {
            mem[i]
        },
{
}

/// Overwriting a part of memory puts the new bytes there and keeps the others.
pub proof fn law_overwrite(mem: Seq<u8>, at: int, data: Seq<u8>)
    requires
        0 <= at,
        at + data.len() <= mem.len(),
    ensures
        overwrite(mem, at, data) == mem.take(at) + data + mem.skip(at + data.len()),
{
    assert(overwrite(mem, at, data) =~= mem.take(at) + data + mem.skip(at + data.len()));
}

/// A load from inside memory gives the number that the bytes there spell.
pub proof fn law_load_spells(mem: Seq<u8>, gpa: u64)
    requires
        mem.len() <= usize::MAX,
    ensures
        gpa + 1 <= mem.len() ==> load(mem, gpa, 1) == Ok::<nat, RamError>(mem[gpa as int] as nat),
        gpa + 2 <= mem.len() ==> load(mem, gpa, 2) == Ok::<nat, RamError>(
            two_bytes(mem, gpa as int) as nat,
        ),
        gpa + 4 <= mem.len() ==> load(mem, gpa, 4) == Ok::<nat, RamError>(
            four_bytes(mem, gpa as int) as nat,
        ),
        gpa + 8 <= mem.len() ==> load(mem, gpa, 8) == Ok::<nat, RamError>(
            eight_bytes(mem, gpa as int) as nat,
        ),
{
    law_little_endian_within(mem, gpa as int);
}

/// A load that leaves memory fails.
pub proof fn law_load_outside_fails(mem: Seq<u8>, gpa: u64, width: nat)
    requires
        mem.len() <= usize::MAX,
        gpa + width > mem.len(),
    ensures
        load(mem, gpa, width) is Err,
{
}

/// Fresh memory is as long as was asked for, and zero throughout.
pub proof fn law_zeros(n: nat, i: int)
    requires
        0 <= i < n,
    ensures
        zeros(n).len() == n,
        zeros(n)[i] == 0,
{
}

/// Guest memory comes in whole mebibytes, at least one.
pub proof fn law_ram_sizes(n: nat)
    ensures
        is_ram_size(n) <==> n > 0 && n % 0x10_0000 == 0,
{
}

/// A refused access is told with the range that it asked for and the memory's size, in
/// hexadecimal, and a refused size in decimal.
pub proof fn law_messages(start: usize, end: usize, size: usize)
    ensures
        (RamError::OutOfBounds { access: Access::Read, start, end, size }).text() == "read [0x"@
            + hex(start as nat) + "..0x"@ + hex(end as nat) + ") out of bounds (size 0x"@ + hex(
            size as nat,
        ) + ")"@,
        (RamError::OutOfBounds { access: Access::Write, start, end, size }).text() == "write [0x"@
            + hex(start as nat) + "..0x"@ + hex(end as nat) + ") out of bounds (size 0x"@ + hex(
            size as nat,
        ) + ")"@,
        (RamError::Unavailable { size }).text() == "allocation of "@ + decimal(size as nat)
            + " bytes failed"@,
{
    reveal_strlit("read [0x");
    reveal_strlit("write [0x");
    reveal_strlit("read");
    reveal_strlit("write");
    reveal_strlit(" [0x");
    assert("read"@ + " [0x"@ =~= "read [0x"@);
    assert("write"@ + " [0x"@ =~= "write [0x"@);
}

} // verus!
