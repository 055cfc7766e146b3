use vstd::arithmetic::div_mod::{
    lemma_fundamental_div_mod, lemma_mod_bound, lemma_multiply_divide_lt,
};
use vstd::prelude::*;

verus! {

/// The contents of a page table: the association from page index to the bytes
/// of the page stored there.
pub uninterp spec fn page_table(m: vec_map::VecMap<Vec<u8>>) -> Map<int, Seq<u8>>;

#[verifier::external_type_specification]
#[verifier::external_body]
#[verifier::reject_recursive_types(V)]
pub struct ExVecMap<V>(vec_map::VecMap<V>);

/// Relies on vec_map::VecMap::new: the new map holds no key.
#[verifier::external_body]
fn table_new() -> (r: vec_map::VecMap<Vec<u8>>)
    ensures
        forall|p: int| !page_table(r).contains_key(p),
{
    vec_map::VecMap::new()
}

/// Relies on vec_map::VecMap::get: returns a reference to the value stored
/// under the key, or `None` when the key is unmapped.
#[verifier::external_body]
fn table_get(m: &vec_map::VecMap<Vec<u8>>, key: usize) -> (r: Option<&Vec<u8>>)
    ensures
        r is Some <==> page_table(*m).contains_key(key as int),
        r matches Some(p) ==> p@ == page_table(*m)[key as int],
{
    m.get(key)
}

/// Relies on vec_map::VecMap::insert: stores the value under the key,
/// replacing any previous one and leaving every other key unchanged. The
/// backing vector grows to key + 1 slots, so the key must stay below the
/// machine's word maximum.
#[verifier::external_body]
fn table_insert(m: &mut vec_map::VecMap<Vec<u8>>, key: usize, value: Vec<u8>)
    requires
        key < usize::MAX,
    ensures
        page_table(*final(m)) == page_table(*old(m)).insert(key as int, value@),
{
    m.insert(key, value);
}

/// A sparse 32-bit byte-addressable memory: fixed power-of-two-free page size
/// that divides 2^32, pages materialised on first write, reads of unmapped
/// pages yielding zero. Addresses wrap modulo 2^32.
pub struct Memory {
    page_size: usize,
    pages: vec_map::VecMap<Vec<u8>>,
}

/// The whole 2^32-byte address space, all zero.
pub open spec fn zero_mem() -> Seq<u8> {
    Seq::new(0x1_0000_0000 as nat, |a: int| 0u8)
}

/// The address space after writing `data` at `addr`, wrapping at 2^32:
/// byte `j` of `data` lands at `(addr + j) % 2^32`, later bytes winning.
pub open spec fn write_seq(m: Seq<u8>, addr: int, data: Seq<u8>) -> Seq<u8>
    decreases data.len(),
{
    if data.len() == 0 {
        m
    } else {
        write_seq(m, addr, data.drop_last()).update(
            (addr + data.len() - 1) % 0x1_0000_0000,
            data.last(),
        )
    }
}

/// The unsigned 32-bit value stored little-endian in four bytes.
pub open spec fn le32(b0: u8, b1: u8, b2: u8, b3: u8) -> u32 {
    (b0 + b1 * 0x100 + b2 * 0x10000 + b3 * 0x1000000) as u32
}

/// The unsigned 32-bit value stored little-endian at `addr` in `m`,
/// wrapping at 2^32.
pub open spec fn le32_at(m: Seq<u8>, addr: int) -> u32 {
    le32(
        m[addr % 0x1_0000_0000],
        m[(addr + 1) % 0x1_0000_0000],
        m[(addr + 2) % 0x1_0000_0000],
        m[(addr + 3) % 0x1_0000_0000],
    )
}

/// The four bytes of an unsigned 32-bit value, little-endian.
pub open spec fn u32_le_bytes(v: u32) -> Seq<u8> {
    seq![(v & 0xff) as u8, ((v >> 8) & 0xff) as u8, ((v >> 16) & 0xff) as u8, ((v >> 24) & 0xff) as u8]
}

impl View for Memory {
    type V = Seq<u8>;

    /// The memory as the full 2^32-byte address space it represents: mapped
    /// pages contribute their bytes, unmapped pages zeros.
    closed spec fn view(&self) -> Seq<u8> {
        Seq::new(
            0x1_0000_0000 as nat,
            |a: int|
                {
                    let p = a / (self.page_size as int);
                    if page_table(self.pages).contains_key(p) {
                        page_table(self.pages)[p][a % (self.page_size as int)]
                    } else {
                        0u8
                    }
                },
        )
    }
}

impl Memory {
    /// The configured page size.
    pub closed spec fn spec_page_size(self) -> int {
        self.page_size as int
    }

    /// The number of pages the address space divides into.
    pub open spec fn spec_page_count(self) -> int {
        0x1_0000_0000int / self.spec_page_size()
    }

    /// Whether the page index is currently mapped.
    pub closed spec fn spec_mapped(self, p: int) -> bool {
        page_table(self.pages).contains_key(p)
    }

    /// Well-formedness: the page size is positive and divides 2^32, and every
    /// mapped page lies within the address space and has exactly page size
    /// bytes.
    pub closed spec fn wf(self) -> bool {
        &&& 0 < self.page_size as int <= 0x1_0000_0000
        &&& 0x1_0000_0000int % (self.page_size as int) == 0
        &&& self.spec_page_count() <= usize::MAX as int
        &&& forall|p: int| #[trigger]
            page_table(self.pages).contains_key(p) ==> 0 <= p < self.spec_page_count()
                && page_table(self.pages)[p].len() == self.page_size as int
    }

    /// Constructs a new, empty `Memory` with the default page size of 4096
    /// bytes. No pages are allocated until bytes are written to them; reads
    /// return zero bytes.
    pub fn new() -> (r: Memory)
        ensures
            r.wf(),
            r.spec_page_size() == 4096,
            r@ == zero_mem(),
            forall|p: int| !r.spec_mapped(p),
    {
        let r = Memory { page_size: 4096, pages: table_new() };
        proof {
            assert(0x1_0000_0000int / 4096 == 0x100000) by (nonlinear_arith);
            assert(r@ =~= zero_mem());
        }
        r
    }

    /// Constructs a new, empty `Memory` with the specified page size in
    /// bytes, which must be positive and divide 2^32.
    pub fn with_page_size(page_size: usize) -> (r: Memory)
        requires
            0 < page_size,
            0x1_0000_0000int % (page_size as int) == 0,
            0x1_0000_0000int / (page_size as int) <= usize::MAX as int,
        ensures
            r.wf(),
            r.spec_page_size() == page_size as int,
            r@ == zero_mem(),
            forall|p: int| !r.spec_mapped(p),
    {
        let r = Memory { page_size, pages: table_new() };
        proof {
            assert(page_size as int <= 0x1_0000_0000) by {
                if page_size as int > 0x1_0000_0000 {
                    vstd::arithmetic::div_mod::lemma_small_mod(
                        0x1_0000_0000 as nat,
                        page_size as nat,
                    );
                }
            }
            assert(r@ =~= zero_mem());
        }
        r
    }

    /// Returns the size of pages in the memory.
    pub fn page_size(&self) -> (r: usize)
        ensures
            r as int == self.spec_page_size(),
    {
        self.page_size
    }

    /// Returns the number of pages the memory consists of.
    pub fn page_count(&self) -> (r: u64)
        requires
            self.wf(),
        ensures
            r as int == self.spec_page_count(),
    {
        0x1_0000_0000u64 / (self.page_size as u64)
    }

    /// Returns a reference to the page at position `index`, or `None` if it
    /// is not allocated.
    pub fn page(&self, index: usize) -> (r: Option<&Vec<u8>>)
        requires
            self.wf(),
        ensures
            r is Some <==> self.spec_mapped(index as int),
            r matches Some(p) ==> p@.len() == self.spec_page_size() && forall|k: int|
                0 <= k < p@.len() ==> p@[k] == self@[index as int * self.spec_page_size() + k],
    {
        let r = table_get(&self.pages, index);
        proof {
            if page_table(self.pages).contains_key(index as int) {
                let ps = self.page_size as int;
                assert forall|k: int| 0 <= k < ps implies page_table(self.pages)[index as int][k]
                    == self@[index as int * ps + k] by {
                    let a = index as int * ps + k;
                    assert(0 <= index as int * ps && index as int * ps + ps <= 0x1_0000_0000) by {
                        vstd::arithmetic::mul::lemma_mul_inequality(
                            index as int + 1,
                            self.spec_page_count(),
                            ps,
                        );
                        vstd::arithmetic::mul::lemma_mul_is_distributive_add_other_way(
                            ps,
                            index as int,
                            1,
                        );
                        vstd::arithmetic::mul::lemma_mul_is_commutative(index as int + 1, ps);
                        vstd::arithmetic::div_mod::lemma_fundamental_div_mod(0x1_0000_0000int, ps);
                        vstd::arithmetic::mul::lemma_mul_nonnegative(index as int, ps);
                    }
                    assert(a / ps == index as int && a % ps == k) by {
                        vstd::arithmetic::div_mod::lemma_fundamental_div_mod_converse(
                            a,
                            ps,
                            index as int,
                            k,
                        );
                    }
                }
            }
        }
        r
    }

    /// Writes one byte at the given address, allocating the page zero-filled
    /// if it was unmapped.
    fn write_byte(&mut self, addr: u32, val: u8)
        requires
            old(self).wf(),
        ensures
            final(self).wf(),
            final(self).spec_page_size() == old(self).spec_page_size(),
            final(self)@ == old(self)@.update(addr as int, val),
            forall|p: int| old(self).spec_mapped(p) ==> final(self).spec_mapped(p),
            final(self).spec_mapped(addr as int / old(self).spec_page_size()),
    {
        let ghost ps = self.page_size as int;
        let p: usize = (addr as usize) / self.page_size;
        let o: usize = (addr as usize) % self.page_size;
        proof {
            lemma_mod_bound(addr as int, ps);
            assert(ps * self.spec_page_count() == 0x1_0000_0000) by {
                lemma_fundamental_div_mod(0x1_0000_0000int, ps);
            }
            lemma_multiply_divide_lt(addr as int, ps, self.spec_page_count());
            vstd::arithmetic::div_mod::lemma_div_is_ordered(0, addr as int, ps);
        }
        let mut page: Vec<u8> = match table_get(&self.pages, p) {
            Some(q) => copy_bytes(q),
            None => zero_bytes(self.page_size),
        };
        page[o] = val;
        table_insert(&mut self.pages, p, page);
        proof {
            let new = self@;
            let want = old(self)@.update(addr as int, val);
            assert forall|a: int| 0 <= a < 0x1_0000_0000 implies new[a] == want[a] by {
                lemma_fundamental_div_mod(a, ps);
                lemma_mod_bound(a, ps);
                assert(ps * old(self).spec_page_count() == 0x1_0000_0000) by {
                    lemma_fundamental_div_mod(0x1_0000_0000int, ps);
                }
                lemma_multiply_divide_lt(a, ps, old(self).spec_page_count());
                vstd::arithmetic::div_mod::lemma_div_is_ordered(0, a, ps);
                lemma_fundamental_div_mod(addr as int, ps);
                if a / ps == p as int && a % ps == o as int {
                    assert(a == addr as int);
                }
            }
            assert(new =~= want);
        }
    }

    /// Reads the byte at the given address; an unmapped page yields zero.
    fn read_byte(&self, addr: u32) -> (r: u8)
        requires
            self.wf(),
        ensures
            r == self@[addr as int],
    {
        let ghost ps = self.page_size as int;
        let p: usize = (addr as usize) / self.page_size;
        let o: usize = (addr as usize) % self.page_size;
        proof {
            lemma_mod_bound(addr as int, ps);
        }
        match table_get(&self.pages, p) {
            Some(q) => q[o],
            None => 0,
        }
    }

    /// Reads bytes into the buffer `buf`, starting at byte address `addr`,
    /// crossing page boundaries and wrapping at 2^32. Unmapped pages
    /// contribute zero bytes. The buffer keeps its length; the memory is not
    /// changed (no page is allocated by a read).
    pub fn read(&self, addr: u32, buf: &mut Vec<u8>)
        requires
            self.wf(),
        ensures
            final(buf)@.len() == old(buf)@.len(),
            forall|j: int|
                0 <= j < final(buf)@.len() ==> final(buf)@[j] == self@[(addr + j) % 0x1_0000_0000],
    {
        let n = buf.len();
        let mut j: usize = 0;
        while j < n
            invariant
                self.wf(),
                n == buf@.len(),
                j <= n,
                forall|k: int| 0 <= k < j ==> buf@[k] == self@[(addr + k) % 0x1_0000_0000],
            decreases n - j,
        {
            let a = wrap_offset(addr, j);
            let b = self.read_byte(a);
            buf[j] = b;
            j = j + 1;
        }
    }

    /// Writes the bytes of `buf` starting at byte address `addr`, allocating
    /// pages zero-filled on first touch, crossing page boundaries and
    /// wrapping at 2^32.
    pub fn write(&mut self, addr: u32, buf: &Vec<u8>)
        requires
            old(self).wf(),
        ensures
            final(self).wf(),
            final(self).spec_page_size() == old(self).spec_page_size(),
            final(self)@ == write_seq(old(self)@, addr as int, buf@),
            forall|p: int| old(self).spec_mapped(p) ==> final(self).spec_mapped(p),
            forall|j: int|
                0 <= j < buf@.len() ==> #[trigger] final(self).spec_mapped(
                    ((addr + j) % 0x1_0000_0000) / old(self).spec_page_size(),
                ),
    {
        let n = buf.len();
        let mut j: usize = 0;
        while j < n
            invariant
                self.wf(),
                self.spec_page_size() == old(self).spec_page_size(),
                n == buf@.len(),
                j <= n,
                self@ == write_seq(old(self)@, addr as int, buf@.take(j as int)),
                forall|p: int| old(self).spec_mapped(p) ==> self.spec_mapped(p),
                forall|k: int|
                    0 <= k < j ==> #[trigger] self.spec_mapped(
                        ((addr + k) % 0x1_0000_0000) / old(self).spec_page_size(),
                    ),
            decreases n - j,
        {
            let a = wrap_offset(addr, j);
            self.write_byte(a, buf[j]);
            proof {
                let pre = buf@.take(j as int);
                let post = buf@.take(j + 1);
                assert(post.drop_last() =~= pre);
                assert(post.last() == buf@[j as int]);
            }
            j = j + 1;
        }
        proof {
            assert(buf@.take(n as int) =~= buf@);
        }
    }

    /// Reads the unsigned 32-bit little-endian integer at byte address
    /// `addr`, wrapping at 2^32.
    pub fn read_u32(&self, addr: u32) -> (r: u32)
        requires
            self.wf(),
        ensures
            r == le32_at(self@, addr as int),
    {
        let b0 = self.read_byte(addr);
        let b1 = self.read_byte(addr.wrapping_add(1));
        let b2 = self.read_byte(addr.wrapping_add(2));
        let b3 = self.read_byte(addr.wrapping_add(3));
        proof {
            lemma_mod_bound(addr as int, 0x1_0000_0000int);
            assert(addr as int % 0x1_0000_0000 == addr as int);
        }
        (b0 as u32) + (b1 as u32) * 0x100 + (b2 as u32) * 0x10000 + (b3 as u32) * 0x1000000
    }

    /// Writes the unsigned 32-bit integer `value` little-endian at byte
    /// address `addr`, wrapping at 2^32.
    pub fn write_u32(&mut self, addr: u32, value: u32)
        requires
            old(self).wf(),
        ensures
            final(self).wf(),
            final(self).spec_page_size() == old(self).spec_page_size(),
            final(self)@ == write_seq(old(self)@, addr as int, u32_le_bytes(value)),
            forall|p: int| old(self).spec_mapped(p) ==> final(self).spec_mapped(p),
            forall|j: int|
                0 <= j < 4 ==> #[trigger] final(self).spec_mapped(
                    ((addr + j) % 0x1_0000_0000) / old(self).spec_page_size(),
                ),
    {
        let mut buf: Vec<u8> = Vec::new();
        buf.push((value & 0xff) as u8);
        buf.push(((value >> 8) & 0xff) as u8);
        buf.push(((value >> 16) & 0xff) as u8);
        buf.push(((value >> 24) & 0xff) as u8);
        proof {
            assert(buf@ =~= u32_le_bytes(value));
        }
        self.write(addr, &buf);
    }
}

/// The wrapped address `(addr + j) % 2^32` for any offset `j`.
fn wrap_offset(addr: u32, j: usize) -> (a: u32)
    ensures
        a as int == (addr + j) % 0x1_0000_0000,
{
    let a = (((addr as u64) + ((j as u64) % 0x1_0000_0000u64)) % 0x1_0000_0000u64) as u32;
    proof {
        vstd::arithmetic::div_mod::lemma_small_mod(addr as nat, 0x1_0000_0000nat);
        vstd::arithmetic::div_mod::lemma_add_mod_noop(addr as int, j as int, 0x1_0000_0000int);
        lemma_mod_bound(addr as int + j as int % 0x1_0000_0000, 0x1_0000_0000int);
    }
    a
}

impl Default for Memory {
    /// Creates an empty `Memory` with the default page size.
    fn default() -> (r: Memory)
        ensures
            r.wf(),
            r.spec_page_size() == 4096,
            r@ == zero_mem(),
    {
        Memory::new()
    }
}

/// Copies the bytes of a vector into a fresh vector.
fn copy_bytes(src: &Vec<u8>) -> (r: Vec<u8>)
    ensures
        r@ == src@,
{
    let mut r: Vec<u8> = Vec::new();
    let n = src.len();
    let mut i: usize = 0;
    while i < n
        invariant
            i <= n,
            n == src@.len(),
            r@ == src@.take(i as int),
        decreases n - i,
    {
        r.push(src[i]);
        proof {
            assert(src@.take(i + 1) =~= src@.take(i as int).push(src@[i as int]));
        }
        i = i + 1;
    }
    proof {
        assert(src@.take(n as int) =~= src@);
    }
    r
}

/// A vector of `n` zero bytes.
pub(crate) fn zero_bytes(n: usize) -> (r: Vec<u8>)
    ensures
        r@ == Seq::new(n as nat, |i: int| 0u8),
{
    let mut r: Vec<u8> = Vec::new();
    let mut i: usize = 0;
    while i < n
        invariant
            i <= n,
            r@ == Seq::new(i as nat, |k: int| 0u8),
        decreases n - i,
    {
        r.push(0);
        proof {
            assert(r@ =~= Seq::new((i + 1) as nat, |k: int| 0u8));
        }
        i = i + 1;
    }
    r
}

/// Memory law, view: a well-formed memory views as the whole 2^32-byte
/// address space, and every byte of an unmapped page reads zero.
pub proof fn lemma_view_unmapped(m: Memory)
    requires
        m.wf(),
    ensures
        m@.len() == 0x1_0000_0000,
        forall|a: int|
            0 <= a < 0x1_0000_0000 && !m.spec_mapped(a / m.spec_page_size()) ==> #[trigger] m@[a]
                == 0,
{
}

/// Memory law, geometry: in a well-formed memory the page count times the
/// page size is exactly the 2^32-byte address space.
pub proof fn lemma_page_geometry(m: Memory)
    requires
        m.wf(),
    ensures
        m.spec_page_count() * m.spec_page_size() == 0x1_0000_0000,
{
    lemma_fundamental_div_mod(0x1_0000_0000int, m.spec_page_size());
    vstd::arithmetic::mul::lemma_mul_is_commutative(m.spec_page_size(), m.spec_page_count());
}

/// The write of a byte sequence keeps the address space 2^32 bytes long.
pub proof fn lemma_write_seq_len(m: Seq<u8>, addr: int, data: Seq<u8>)
    requires
        m.len() == 0x1_0000_0000,
    ensures
        write_seq(m, addr, data).len() == m.len(),
    decreases data.len(),
{
    if data.len() > 0 {
        lemma_write_seq_len(m, addr, data.drop_last());
        lemma_mod_bound(addr + data.len() - 1, 0x1_0000_0000int);
    }
}

/// Memory law, one byte: after writing `data` at `addr`, the byte at address
/// `(addr + j) % 2^32` is byte `j` of `data`, for ranges up to the full
/// address space, however unaligned, page-crossing or wrapping.
pub proof fn lemma_write_then_read(m: Seq<u8>, addr: int, data: Seq<u8>, j: int)
    requires
        m.len() == 0x1_0000_0000,
        data.len() <= 0x1_0000_0000,
        0 <= j < data.len(),
    ensures
        write_seq(m, addr, data)[(addr + j) % 0x1_0000_0000] == data[j],
    decreases data.len(),
{
    let s = 0x1_0000_0000int;
    lemma_write_seq_len(m, addr, data.drop_last());
    lemma_mod_bound(addr + data.len() - 1, s);
    lemma_mod_bound(addr + j, s);
    if j < data.len() - 1 {
        lemma_write_then_read(m, addr, data.drop_last(), j);
        let x = (addr + j) % s;
        let y = (addr + data.len() - 1) % s;
        if x == y {
            lemma_fundamental_div_mod(addr + j, s);
            lemma_fundamental_div_mod(addr + data.len() - 1, s);
            let q1 = (addr + j) / s;
            let q2 = (addr + data.len() - 1) / s;
            let d = q2 - q1;
            assert(data.len() - 1 - j == d * s) by (nonlinear_arith)
                requires
                    addr + j == s * q1 + x,
                    addr + data.len() - 1 == s * q2 + y,
                    x == y,
                    d == q2 - q1,
            ;
            assert(d >= 1 ==> d * s >= s) by (nonlinear_arith)
                requires
                    s == 0x1_0000_0000,
            ;
            assert(d <= 0 ==> d * s <= 0) by (nonlinear_arith)
                requires
                    s == 0x1_0000_0000,
            ;
            assert(false);
        }
    }
}

/// Memory law, frame: a write leaves every address outside the written range
/// unchanged.
pub proof fn lemma_write_seq_frame(m: Seq<u8>, addr: int, data: Seq<u8>, a: int)
    requires
        m.len() == 0x1_0000_0000,
        0 <= a < 0x1_0000_0000,
        forall|j: int| 0 <= j < data.len() ==> #[trigger] ((addr + j) % 0x1_0000_0000) != a,
    ensures
        write_seq(m, addr, data)[a] == m[a],
    decreases data.len(),
{
    if data.len() > 0 {
        lemma_write_seq_frame(m, addr, data.drop_last(), a);
        lemma_write_seq_len(m, addr, data.drop_last());
        let jl = data.len() - 1;
        assert((addr + jl) % 0x1_0000_0000 != a);
        lemma_mod_bound(addr + jl, 0x1_0000_0000int);
    }
}

/// Memory law: reading back the range just written returns exactly the
/// written bytes.
pub proof fn lemma_write_read_roundtrip(m: Seq<u8>, addr: int, data: Seq<u8>)
    requires
        m.len() == 0x1_0000_0000,
        data.len() <= 0x1_0000_0000,
    ensures
        Seq::new(data.len(), |j: int| write_seq(m, addr, data)[(addr + j) % 0x1_0000_0000]) =~= data,
{
    assert forall|j: int| 0 <= j < data.len() implies write_seq(m, addr, data)[(addr + j)
        % 0x1_0000_0000] == data[j] by {
        lemma_write_then_read(m, addr, data, j);
    }
}

} // verus!
