//! x86-64 virtual and physical addresses, pages, frames and page-table
//! indexing.
use vstd::prelude::*;

verus! {

/// Size in bytes of a virtual page.
pub const PAGE_SIZE: usize = 4096;

/// Size in bytes of a physical frame.
pub const FRAME_SIZE: u64 = 4096;

/// Bit 47, the highest bit that a 4-level page table translates.
pub const VIRT_SIGN_BIT: u64 = 0x8000_0000_0000;

/// First address of the upper canonical half.
pub const HIGHER_HALF_START: u64 = 0xFFFF_8000_0000_0000;

/// Physical addresses are limited to 52 bits.
pub const PHYS_ADDR_LIMIT: u64 = 0x10_0000_0000_0000;

/// A 48-bit virtual address is canonical when bits 48..64 copy bit 47.
pub open spec fn is_canonical(addr: u64) -> bool {
    addr < VIRT_SIGN_BIT || addr >= HIGHER_HALF_START
}

/// The canonical address whose low 48 bits are those of `addr`: bit 47 is
/// copied into bits 48..64.
pub open spec fn sign_extend_47(addr: u64) -> u64 {
    if addr & VIRT_SIGN_BIT == 0 {
        addr & 0xFFFF_FFFF_FFFF
    } else {
        addr | 0xFFFF_0000_0000_0000
    }
}

/// The 9-bit index that selects the entry of `addr` in a page table of the
/// given level (1 is the lowest level, 4 the root).
pub open spec fn table_index(addr: u64, level: u8) -> u64 {
    ((addr >> 12u64) >> (9 * (level - 1)) as u64) % 512
}

/// Sign extension always yields a canonical address, and leaves exactly the
/// canonical addresses unchanged.
pub proof fn lemma_sign_extend(addr: u64)
    ensures
        is_canonical(sign_extend_47(addr)),
        is_canonical(addr) <==> sign_extend_47(addr) == addr,
        sign_extend_47(addr) == ((addr << 16u64) as i64 >> 16u64) as u64,
{
    assert(is_canonical(sign_extend_47(addr)) && (is_canonical(addr) <==> sign_extend_47(addr)
        == addr) && sign_extend_47(addr) == ((addr << 16u64) as i64 >> 16u64) as u64)
        by (bit_vector);
}

proof fn lemma_truncate_index(x: u64)
    ensures
        ((x as u16) % 512) as u64 == x % 512,
{
    assert(((x as u16) % 512) as u64 == x % 512) by (bit_vector);
}

proof fn lemma_shifts(x: u64)
    ensures
        x >> 0u64 == x,
        x >> 9u64 >> 9u64 == x >> 18u64,
        x >> 9u64 >> 9u64 >> 9u64 == x >> 27u64,
{
    assert(x >> 0u64 == x && x >> 9u64 >> 9u64 == x >> 18u64 && x >> 9u64 >> 9u64 >> 9u64 == x
        >> 27u64) by (bit_vector);
}

/// An address in the lower half has its root-table entry in the lower half
/// of the root table.
pub proof fn lemma_lower_half_index(addr: u64)
    requires
        addr < VIRT_SIGN_BIT,
    ensures
        table_index(addr, 4) < 256,
{
    assert(addr < 0x8000_0000_0000u64 ==> ((addr >> 12u64) >> 27u64) % 512 < 256) by (bit_vector);
}

/// A canonical virtual address.
#[derive(Copy, Clone, PartialEq, Eq, Debug, Structural)]
pub struct VirtAddr(u64);

/// Error for an address that is not canonical.
#[derive(Debug, Copy, Clone, Eq, PartialEq, Structural)]
pub struct BadVirtAddr;

impl View for VirtAddr {
    type V = u64;

    closed spec fn view(&self) -> u64 {
        self.0
    }
}

impl VirtAddr {
    #[verifier::type_invariant]
    spec fn inv(self) -> bool {
        is_canonical(self.0)
    }

    /// Builds a virtual address from a canonical value.
    pub fn new(addr: u64) -> (r: Self)
        requires
            is_canonical(addr),
        ensures
            r@ == addr,
    {
        match Self::try_new(addr) {
            Ok(addr) => addr,
            Err(_) => {
                proof {
                    lemma_sign_extend(addr);
                }
                Self(addr)
            },
        }
    }

    /// Builds a virtual address, failing when `addr` is not canonical.
    pub fn try_new(addr: u64) -> (r: Result<Self, BadVirtAddr>)
        ensures
            match r {
                Ok(v) => is_canonical(addr) && v@ == addr,
                Err(_) => !is_canonical(addr),
            },
    {
        proof {
            lemma_sign_extend(addr);
        }
        if Self::new_truncate(addr).0 == addr {
            Ok(Self::new_truncate(addr))
        } else {
            Err(BadVirtAddr)
        }
    }

    /// Makes `addr` canonical by sign-extending its bit 47.
    pub fn new_truncate(addr: u64) -> (r: Self)
        ensures
            r@ == sign_extend_47(addr),
    {
        proof {
            lemma_sign_extend(addr);
        }
        Self(((addr << 16u64) as i64 >> 16u64) as u64)
    }

    /// The address as a 64-bit integer.
    pub fn as_u64(&self) -> (r: u64)
        ensures
            r == self@,
            is_canonical(r),
    {
        proof {
            use_type_invariant(self);
        }
        self.0
    }

    /// The address as a pointer-sized integer.
    pub fn as_usize(&self) -> (r: usize)
        requires
            self@ <= usize::MAX,
        ensures
            r == self@,
    {
        self.0 as usize
    }

    /// The null address.
    pub fn zero() -> (r: Self)
        ensures
            r@ == 0,
    {
        Self::new(0)
    }

    /// Whether the address lies in the upper (kernel) half.
    pub fn is_higher_half(&self) -> (r: bool)
        ensures
            r == (self@ >= HIGHER_HALF_START),
    {
        self.0 >= HIGHER_HALF_START
    }

    /// Whether the address lies in the lower (user) half.
    pub fn is_lower_half(&self) -> (r: bool)
        ensures
            r == (self@ < HIGHER_HALF_START),
    {
        !self.is_higher_half()
    }

    /// The 9-bit level-1 page table index.
    pub fn p1_index(self) -> (r: PageTableOffset)
        ensures
            r@ == table_index(self@, 1),
    {
        proof {
            lemma_truncate_index(self.0 >> 12u64);
            lemma_shifts(self.0 >> 12u64);
        }
        PageTableOffset::new_truncate((self.0 >> 12u64) as u16)
    }

    /// The 9-bit level-2 page table index.
    pub fn p2_index(self) -> (r: PageTableOffset)
        ensures
            r@ == table_index(self@, 2),
    {
        proof {
            lemma_truncate_index(self.0 >> 12u64 >> 9u64);
        }
        PageTableOffset::new_truncate((self.0 >> 12u64 >> 9u64) as u16)
    }

    /// The 9-bit level-3 page table index.
    pub fn p3_index(self) -> (r: PageTableOffset)
        ensures
            r@ == table_index(self@, 3),
    {
        proof {
            lemma_truncate_index(self.0 >> 12u64 >> 18u64);
            lemma_shifts(self.0 >> 12u64);
        }
        PageTableOffset::new_truncate((self.0 >> 12u64 >> 9u64 >> 9u64) as u16)
    }

    /// The 9-bit level-4 page table index.
    pub fn p4_index(self) -> (r: PageTableOffset)
        ensures
            r@ == table_index(self@, 4),
    {
        proof {
            lemma_truncate_index(self.0 >> 12u64 >> 27u64);
            lemma_shifts(self.0 >> 12u64);
        }
        PageTableOffset::new_truncate((self.0 >> 12u64 >> 9u64 >> 9u64 >> 9u64) as u16)
    }

    /// The 9-bit index of this address in a page table of the given level.
    pub fn page_table_index(self, level: PageTableLevel) -> (r: PageTableOffset)
        ensures
            r@ == table_index(self@, level@),
    {
        let shift: u8 = (level.level() - 1) * 9;
        proof {
            lemma_truncate_index(self.0 >> 12u64 >> shift);
        }
        PageTableOffset::new_truncate((self.0 >> 12u64 >> shift) as u16)
    }
}

/// An index into a page table: a value below 512.
#[derive(Debug, Copy, Clone, PartialEq, Eq, Structural)]
pub struct PageTableOffset(u16);

/// A page table level, from 1 (lowest) to 4 (root).
#[derive(Debug, Copy, Clone, PartialEq, Eq, Structural)]
pub struct PageTableLevel(u8);

/// Error for a level outside 1..=4.
#[derive(Debug)]
pub struct InvalidLevel;

impl View for PageTableLevel {
    type V = u8;

    closed spec fn view(&self) -> u8 {
        self.0
    }
}

impl PageTableLevel {
    #[verifier::type_invariant]
    spec fn inv(self) -> bool {
        1 <= self.0 <= 4
    }

    /// Builds a level from a number in 1..=4.
    pub fn new(level: u8) -> (r: Self)
        requires
            1 <= level <= 4,
        ensures
            r@ == level,
    {
        match Self::try_new(level) {
            Ok(level) => level,
            Err(_) => Self(level),
        }
    }

    /// Builds a level, failing outside 1..=4.
    pub fn try_new(level: u8) -> (r: Result<Self, InvalidLevel>)
        ensures
            match r {
                Ok(l) => 1 <= level <= 4 && l@ == level,
                Err(_) => !(1 <= level <= 4),
            },
    {
        if level < 1 || level > 4 {
            return Err(InvalidLevel);
        }
        Ok(Self(level))
    }

    /// The level as a number in 1..=4.
    pub fn level(&self) -> (r: u8)
        ensures
            r == self@,
            1 <= r <= 4,
    {
        proof {
            use_type_invariant(self);
        }
        self.0
    }

    /// The root level, 4.
    pub fn top() -> (r: Self)
        ensures
            r@ == 4,
    {
        Self(4)
    }

    /// Whether this is the lowest level.
    pub fn is_bottom(&self) -> (r: bool)
        ensures
            r == (self@ == 1),
    {
        self.level() == 1
    }

    /// The level below this one, if any.
    pub fn lower(self) -> (r: Option<Self>)
        ensures
            match r {
                Some(l) => self@ > 1 && l@ == self@ - 1,
                None => self@ == 1,
            },
    {
        match Self::try_new(self.level() - 1) {
            Ok(l) => Some(l),
            Err(_) => None,
        }
    }
}

/// Error for an offset that does not fit a page table.
#[derive(Debug)]
pub enum PageTableOffsetError {
    OutOfBounds,
}

impl View for PageTableOffset {
    type V = usize;

    closed spec fn view(&self) -> usize {
        self.0 as usize
    }
}

impl PageTableOffset {
    /// An offset is determined by its value.
    pub proof fn lemma_view_injective(a: Self, b: Self)
        ensures
            a@ == b@ ==> a == b,
    {
    }

    #[verifier::type_invariant]
    spec fn inv(self) -> bool {
        self.0 < 512
    }

    /// Builds an offset, failing for values of 512 or more.
    pub fn new(offset: u16) -> (r: Result<Self, PageTableOffsetError>)
        ensures
            match r {
                Ok(o) => offset < 512 && o@ == offset,
                Err(_) => offset >= 512,
            },
    {
        if offset < 512 {
            Ok(Self(offset))
        } else {
            Err(PageTableOffsetError::OutOfBounds)
        }
    }

    /// Whether the offset selects an entry of the lower half of a table.
    pub fn is_lower_half(&self) -> (r: bool)
        ensures
            r == (self@ < 256),
    {
        self.0 < 256
    }

    /// The offset of `addr` modulo the table size.
    pub fn new_truncate(addr: u16) -> (r: Self)
        ensures
            r@ == addr % 512,
    {
        Self(addr % 512)
    }

    /// The offset as an index.
    pub fn as_usize(self) -> (r: usize)
        ensures
            r == self@,
            r < 512,
    {
        proof {
            use_type_invariant(&self);
        }
        self.0 as usize
    }

    /// Builds an offset from a 16-bit value, failing for 512 or more.
    pub fn try_from_u16(value: u16) -> (r: Result<Self, PageTableOffsetError>)
        ensures
            match r {
                Ok(o) => value < 512 && o@ == value,
                Err(_) => value >= 512,
            },
    {
        Self::new(value)
    }

    /// Builds an offset from an index, failing for 512 or more.
    pub fn try_from_usize(value: usize) -> (r: Result<Self, PageTableOffsetError>)
        ensures
            match r {
                Ok(o) => value < 512 && o@ == value,
                Err(_) => value >= 512,
            },
    {
        if value > 0xFFFF {
            return Err(PageTableOffsetError::OutOfBounds);
        }
        Self::new(value as u16)
    }
}

/// A virtual page: a page-aligned virtual address.
#[derive(Debug, Copy, Clone)]
pub struct Page {
    start_address: VirtAddr,
}

/// Error for an address that is not page aligned.
#[derive(Debug)]
pub struct Unaligned;

impl View for Page {
    type V = u64;

    closed spec fn view(&self) -> u64 {
        self.start_address@
    }
}

impl Page {
    #[verifier::type_invariant]
    spec fn inv(self) -> bool {
        self.start_address@ % 4096 == 0
    }

    /// The page that starts at the aligned address `addr`.
    pub fn from_start_address(addr: VirtAddr) -> (r: Self)
        requires
            addr@ % 4096 == 0,
        ensures
            r@ == addr@,
    {
        match Self::try_from_start_address(addr) {
            Err(Unaligned) => Self { start_address: addr },
            Ok(this) => this,
        }
    }

    /// The size of a page.
    pub fn size() -> (r: usize)
        ensures
            r == PAGE_SIZE,
    {
        PAGE_SIZE
    }

    /// The page that starts at `addr`, failing when `addr` is not aligned.
    pub fn try_from_start_address(addr: VirtAddr) -> (r: Result<Self, Unaligned>)
        ensures
            match r {
                Ok(p) => addr@ % 4096 == 0 && p@ == addr@,
                Err(_) => addr@ % 4096 != 0,
            },
    {
        if addr.as_u64() % 4096 != 0 {
            return Err(Unaligned);
        }
        Ok(Self { start_address: addr })
    }

    /// The page that holds `addr`.
    pub fn containing_address(addr: VirtAddr) -> (r: Self)
        ensures
            r@ == addr@ - addr@ % 4096,
    {
        let a = addr.as_u64();
        let base = (a / 4096) * 4096;
        assert(base == a - a % 4096) by {
            vstd::arithmetic::div_mod::lemma_fundamental_div_mod(a as int, 4096);
        }
        assert(base % 4096 == 0) by {
            vstd::arithmetic::div_mod::lemma_mod_multiples_basic(a as int / 4096, 4096);
        }
        let addr = VirtAddr::new(base);
        Self::from_start_address(addr)
    }

    /// The first address of the page.
    pub fn base(&self) -> (r: VirtAddr)
        ensures
            r@ == self@,
            r@ % 4096 == 0,
    {
        proof {
            use_type_invariant(self);
        }
        self.start_address
    }

    /// The page whose first address is `index * PAGE_SIZE`, failing when that
    /// address is not canonical.
    pub fn from_index(index: usize) -> (r: Result<Self, BadVirtAddr>)
        requires
            index * 4096 <= u64::MAX,
        ensures
            match r {
                Ok(p) => is_canonical((index * 4096) as u64) && p@ == index * 4096,
                Err(_) => !is_canonical((index * 4096) as u64),
            },
    {
        assert((index * 4096) % 4096 == 0) by {
            vstd::arithmetic::div_mod::lemma_mod_multiples_basic(index as int, 4096);
        }
        match VirtAddr::try_new(index as u64 * 4096) {
            Ok(addr) => Ok(Self::from_start_address(addr)),
            Err(e) => Err(e),
        }
    }

    /// The index of this page: its first address divided by the page size.
    pub fn index(&self) -> (r: usize)
        requires
            self@ / 4096 <= usize::MAX,
        ensures
            r == self@ / 4096,
    {
        (self.start_address.as_u64() / 4096) as usize
    }
}

/// A physical address of at most 52 bits.
#[derive(Copy, Clone, Eq, PartialEq, Debug, Structural)]
pub struct PhysAddr(u64);

/// Error for a physical address wider than 52 bits.
#[derive(Debug)]
pub struct BadAddress;

impl View for PhysAddr {
    type V = u64;

    closed spec fn view(&self) -> u64 {
        self.0
    }
}

impl PhysAddr {
    #[verifier::type_invariant]
    spec fn inv(self) -> bool {
        self.0 < PHYS_ADDR_LIMIT
    }

    /// A physical address is determined by its value.
    pub proof fn lemma_view_injective(a: Self, b: Self)
        ensures
            a@ == b@ ==> a == b,
    {
    }

    /// Builds a physical address from a value below 2^52.
    pub fn new(addr: u64) -> (r: Self)
        requires
            addr < PHYS_ADDR_LIMIT,
        ensures
            r@ == addr,
    {
        match Self::try_new(addr) {
            Ok(addr) => addr,
            Err(_) => Self(addr),
        }
    }

    /// Builds a physical address, failing for values of 2^52 or more.
    pub fn try_new(addr: u64) -> (r: Result<Self, BadAddress>)
        ensures
            match r {
                Ok(p) => addr < PHYS_ADDR_LIMIT && p@ == addr,
                Err(_) => addr >= PHYS_ADDR_LIMIT,
            },
    {
        if Self::new_truncate(addr).0 == addr {
            Ok(Self(addr))
        } else {
            Err(BadAddress)
        }
    }

    /// Keeps the low 52 bits of `addr`.
    pub fn new_truncate(addr: u64) -> (r: Self)
        ensures
            r@ == addr % PHYS_ADDR_LIMIT,
    {
        Self(addr % PHYS_ADDR_LIMIT)
    }

    /// The address as an integer.
    pub fn as_u64(&self) -> (r: u64)
        ensures
            r == self@,
            r < PHYS_ADDR_LIMIT,
    {
        proof {
            use_type_invariant(self);
        }
        self.0
    }

    /// The virtual address at which the direct map at offset `pmo` shows
    /// this physical address.
    pub fn to_virtual(self, pmo: VirtAddr) -> (r: VirtAddr)
        requires
            pmo@ + self@ <= u64::MAX,
            is_canonical((pmo@ + self@) as u64),
        ensures
            r@ == pmo@ + self@,
    {
        let virt = pmo.as_u64() + self.as_u64();
        VirtAddr::new(virt)
    }

    /// The physical address that the direct map at offset `pmo` shows at
    /// `addr`, for an address made by `to_virtual`.
    pub fn from_virtual(addr: VirtAddr, pmo: VirtAddr) -> (r: PhysAddr)
        requires
            pmo@ <= addr@,
            addr@ - pmo@ < PHYS_ADDR_LIMIT,
        ensures
            r@ == addr@ - pmo@,
    {
        PhysAddr::new(addr.as_u64() - pmo.as_u64())
    }
}

/// A physical frame, given by its first address.
#[derive(Debug, Copy, Clone, Eq, PartialEq, Structural)]
pub struct Frame {
    base: PhysAddr,
}

/// Error for a physical address that is not frame aligned.
#[derive(Debug, Copy, Clone, Eq, PartialEq)]
pub struct UnalignedAddress;

impl View for Frame {
    type V = u64;

    closed spec fn view(&self) -> u64 {
        self.base@
    }
}

impl Frame {
    /// The frame that starts at the aligned address `base`.
    pub fn from_start_address(base: PhysAddr) -> (r: Self)
        requires
            base@ % 4096 == 0,
        ensures
            r@ == base@,
    {
        match Self::try_from_start_address(base) {
            Ok(f) => f,
            Err(_) => Self { base },
        }
    }

    /// The first address of the frame.
    pub fn base(&self) -> (r: PhysAddr)
        ensures
            r@ == self@,
    {
        self.base
    }

    /// The frame whose first address is `index * FRAME_SIZE`, failing when
    /// that address is wider than 52 bits.
    pub fn from_index(index: u64) -> (r: Result<Self, BadAddress>)
        requires
            index * 4096 <= u64::MAX,
        ensures
            match r {
                Ok(f) => index * 4096 < PHYS_ADDR_LIMIT && f@ == index * 4096,
                Err(_) => index * 4096 >= PHYS_ADDR_LIMIT,
            },
    {
        let start = index * FRAME_SIZE;
        assert(start % 4096 == 0) by {
            vstd::arithmetic::div_mod::lemma_mod_multiples_basic(index as int, 4096);
        }
        Ok(Self::from_start_address(PhysAddr::try_new(start)?))
    }

    /// The frame that starts at `base`, failing when `base` is not aligned.
    pub fn try_from_start_address(base: PhysAddr) -> (r: Result<Self, UnalignedAddress>)
        ensures
            match r {
                Ok(f) => base@ % 4096 == 0 && f@ == base@,
                Err(_) => base@ % 4096 != 0,
            },
    {
        if base.as_u64() % FRAME_SIZE != 0 {
            return Err(UnalignedAddress);
        }
        Ok(Self { base })
    }

    /// The frame whose base is the offset of `addr` within its frame.
    pub fn within_frame(addr: PhysAddr) -> (r: Self)
        ensures
            r@ == addr@ % 4096,
    {
        let base = PhysAddr::new(addr.as_u64() % FRAME_SIZE);
        Self { base }
    }

    /// The first address of the frame.
    pub fn addr(&self) -> (r: PhysAddr)
        ensures
            r@ == self@,
    {
        self.base
    }
}

} // verus!
