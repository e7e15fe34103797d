use vstd::prelude::*;

verus! {

/// Number of entries in a lookup table: one per possible input byte.
pub const TABLE_SIZE: usize = 256;

/// A register width this module supports, in bits.
pub open spec fn valid_width(width: u32) -> bool {
    width == 8 || width == 16 || width == 32
}

/// The most significant bit of a register of `width` bits.
pub open spec fn top_bit(width: u32) -> u32 {
    if width == 8 {
        0x80
    } else if width == 16 {
        0x8000
    } else {
        0x8000_0000
    }
}

/// All bits of a register of `width` bits.
pub open spec fn reg_mask(width: u32) -> u32 {
    if width == 8 {
        0xFF
    } else if width == 16 {
        0xFFFF
    } else {
        0xFFFF_FFFF
    }
}

/// One bit step of polynomial division in a register of `width` bits:
/// shift left by one, dropping the bit that leaves the register, and
/// subtract (xor) the generator when the bit shifted out was set.
pub open spec fn div_step(width: u32, poly: u32, reg: u32) -> u32 {
    let shifted = (reg << 1u32) & reg_mask(width);
    if reg & top_bit(width) != 0 {
        shifted ^ poly
    } else {
        shifted
    }
}

/// `n` division steps applied to `reg`.
pub open spec fn div_steps(width: u32, poly: u32, reg: u32, n: nat) -> u32
    decreases n,
{
    if n == 0 {
        reg
    } else {
        div_step(width, poly, div_steps(width, poly, reg, (n - 1) as nat))
    }
}

/// The register that byte `d` seeds: `d` in the top byte of the register.
pub open spec fn seed(width: u32, d: u32) -> u32 {
    d << ((width - 8) as u32)
}

/// The table entry for input byte `d`: the remainder left after eight
/// division steps on the seeded register, one per bit of `d`.
pub open spec fn table_entry(width: u32, poly: u32, d: u32) -> u32 {
    div_steps(width, poly, seed(width, d), 8)
}

proof fn lemma_step_fits(width: u32, poly: u32, reg: u32)
    requires
        valid_width(width),
        poly <= reg_mask(width),
    ensures
        div_step(width, poly, reg) <= reg_mask(width),
{
    if width == 8 {
        assert(((reg << 1u32) & 0xFFu32) ^ poly <= 0xFFu32 && (reg << 1u32) & 0xFFu32 <= 0xFFu32)
            by (bit_vector)
            requires
                poly <= 0xFFu32,
        ;
    } else if width == 16 {
        assert(((reg << 1u32) & 0xFFFFu32) ^ poly <= 0xFFFFu32 && (reg << 1u32) & 0xFFFFu32
            <= 0xFFFFu32) by (bit_vector)
            requires
                poly <= 0xFFFFu32,
        ;
    }
}

proof fn lemma_seed_fits(width: u32, d: u32)
    requires
        valid_width(width),
        d < 256,
    ensures
        seed(width, d) <= reg_mask(width),
{
    if width == 8 {
        assert(d << 0u32 <= 0xFFu32) by (bit_vector)
            requires
                d < 256u32,
        ;
    } else if width == 16 {
        assert(d << 8u32 <= 0xFFFFu32) by (bit_vector)
            requires
                d < 256u32,
        ;
    }
}

/// Computes the table entry for input byte `d` in a register of `width`
/// bits with generator `poly`.
fn entry_for(width: u32, poly: u32, d: u32) -> (r: u32)
    requires
        valid_width(width),
        poly <= reg_mask(width),
        d < 256,
    ensures
        r == table_entry(width, poly, d),
        r <= reg_mask(width),
{
    let top: u32 = if width == 8 {
        0x80
    } else if width == 16 {
        0x8000
    } else {
        0x8000_0000
    };
    let mask: u32 = if width == 8 {
        0xFF
    } else if width == 16 {
        0xFFFF
    } else {
        0xFFFF_FFFF
    };
    let mut reg: u32 = d << (width - 8);
    proof {
        lemma_seed_fits(width, d);
    }
    let mut k: u32 = 0;
    while k < 8
        invariant
            valid_width(width),
            poly <= reg_mask(width),
            top == top_bit(width),
            mask == reg_mask(width),
            k <= 8,
            reg == div_steps(width, poly, seed(width, d), k as nat),
            reg <= reg_mask(width),
        decreases 8 - k,
    {
        proof {
            lemma_step_fits(width, poly, reg);
        }
        if reg & top != 0 {
            reg = ((reg << 1) & mask) ^ poly;
        } else {
            reg = (reg << 1) & mask;
        }
        k = k + 1;
    }
    reg
}

/// The table for an 8-bit register with generator `generator`.
fn make_table_u8(generator: u8) -> (r: [u8; TABLE_SIZE])
    ensures
        forall|i: int| 0 <= i < 256 ==> r[i] as u32 == table_entry(8, generator as u32, i as u32),
{
    let mut table: [u8; TABLE_SIZE] = [0; TABLE_SIZE];
    let mut d: usize = 0;
    while d < TABLE_SIZE
        invariant
            d <= 256,
            forall|i: int| 0 <= i < d ==> table[i] as u32 == table_entry(8, generator as u32, i as u32),
        decreases 256 - d,
    {
        let v = entry_for(8, generator as u32, d as u32);
        table[d] = v as u8;
        d = d + 1;
    }
    table
}

/// The table for a 16-bit register with generator `generator`.
fn make_table_u16(generator: u16) -> (r: [u16; TABLE_SIZE])
    ensures
        forall|i: int| 0 <= i < 256 ==> r[i] as u32 == table_entry(16, generator as u32, i as u32),
{
    let mut table: [u16; TABLE_SIZE] = [0; TABLE_SIZE];
    let mut d: usize = 0;
    while d < TABLE_SIZE
        invariant
            d <= 256,
            forall|i: int|
                0 <= i < d ==> table[i] as u32 == table_entry(16, generator as u32, i as u32),
        decreases 256 - d,
    {
        let v = entry_for(16, generator as u32, d as u32);
        table[d] = v as u16;
        d = d + 1;
    }
    table
}

/// The table for a 32-bit register with generator `generator`.
fn make_table_u32(generator: u32) -> (r: [u32; TABLE_SIZE])
    ensures
        forall|i: int| 0 <= i < 256 ==> r[i] == table_entry(32, generator, i as u32),
{
    let mut table: [u32; TABLE_SIZE] = [0; TABLE_SIZE];
    let mut d: usize = 0;
    while d < TABLE_SIZE
        invariant
            d <= 256,
            forall|i: int| 0 <= i < d ==> table[i] == table_entry(32, generator, i as u32),
        decreases 256 - d,
    {
        table[d] = entry_for(32, generator, d as u32);
        d = d + 1;
    }
    table
}

/// The register width of a checksum together with its generator polynomial.
pub enum CrcType {
    Crc8(u8),
    Crc16(u16),
    Crc32(u32),
}

impl CrcType {
    /// Register width in bits.
    pub open spec fn width(&self) -> u32 {
        match self {
            CrcType::Crc8(_) => 8,
            CrcType::Crc16(_) => 16,
            CrcType::Crc32(_) => 32,
        }
    }

    /// The generator polynomial, widened to 32 bits.
    pub open spec fn poly(&self) -> u32 {
        match self {
            CrcType::Crc8(p) => *p as u32,
            CrcType::Crc16(p) => *p as u32,
            CrcType::Crc32(p) => *p,
        }
    }

    /// Builds the 256-entry lookup table for this width and polynomial:
    /// entry `d` is the remainder of byte `d`, aligned to the top of the
    /// register, after eight division steps.
    pub fn make_table(&self) -> (r: LookupTable)
        ensures
            r.is_table_of(*self),
    {
        match self {
            CrcType::Crc8(poly) => LookupTable::Crc8(make_table_u8(*poly)),
            CrcType::Crc16(poly) => LookupTable::Crc16(make_table_u16(*poly)),
            CrcType::Crc32(poly) => LookupTable::Crc32(make_table_u32(*poly)),
        }
    }
}

impl From<u8> for CrcType {
    fn from(value: u8) -> (r: Self) {
        CrcType::Crc8(value)
    }
}

impl vstd::std_specs::convert::FromSpecImpl<u8> for CrcType {
    open spec fn obeys_from_spec() -> bool {
        true
    }

    open spec fn from_spec(v: u8) -> Self {
        CrcType::Crc8(v)
    }
}

impl From<u16> for CrcType {
    fn from(value: u16) -> (r: Self) {
        CrcType::Crc16(value)
    }
}

impl vstd::std_specs::convert::FromSpecImpl<u16> for CrcType {
    open spec fn obeys_from_spec() -> bool {
        true
    }

    open spec fn from_spec(v: u16) -> Self {
        CrcType::Crc16(v)
    }
}

impl From<u32> for CrcType {
    fn from(value: u32) -> (r: Self) {
        CrcType::Crc32(value)
    }
}

impl vstd::std_specs::convert::FromSpecImpl<u32> for CrcType {
    open spec fn obeys_from_spec() -> bool {
        true
    }

    open spec fn from_spec(v: u32) -> Self {
        CrcType::Crc32(v)
    }
}

/// A lookup table of 256 entries whose element type has the register width.
pub enum LookupTable {
    Crc8([u8; TABLE_SIZE]),
    Crc16([u16; TABLE_SIZE]),
    Crc32([u32; TABLE_SIZE]),
}

impl LookupTable {
    /// Register width in bits of the entries.
    pub open spec fn width(&self) -> u32 {
        match self {
            LookupTable::Crc8(_) => 8,
            LookupTable::Crc16(_) => 16,
            LookupTable::Crc32(_) => 32,
        }
    }

    /// Entry `i`, widened to 32 bits.
    pub open spec fn entry(&self, i: int) -> u32 {
        match self {
            LookupTable::Crc8(t) => t[i] as u32,
            LookupTable::Crc16(t) => t[i] as u32,
            LookupTable::Crc32(t) => t[i],
        }
    }

    /// This is the table that `c` determines: same width, and each entry
    /// is the remainder of its index.
    pub open spec fn is_table_of(&self, c: CrcType) -> bool {
        &&& self.width() == c.width()
        &&& forall|i: int|
            0 <= i < 256 ==> #[trigger] self.entry(i) == table_entry(c.width(), c.poly(), i as u32)
    }
}

/// Building a table is deterministic: two tables built from the same width
/// and polynomial have the same width and the same entries.
pub proof fn lemma_table_deterministic(c: CrcType, t1: LookupTable, t2: LookupTable)
    requires
        t1.is_table_of(c),
        t2.is_table_of(c),
    ensures
        t1.width() == t2.width(),
        forall|i: int| 0 <= i < 256 ==> #[trigger] t1.entry(i) == t2.entry(i),
{
}

/// Entry 0 of every table is 0, whatever the width and polynomial: a zero
/// register never has its top bit set, so no division step changes it.
pub proof fn lemma_entry_zero(c: CrcType, t: LookupTable)
    requires
        t.is_table_of(c),
    ensures
        t.entry(0) == 0,
{
    let w = c.width();
    lemma_zero_stays(w, c.poly(), 8);
    assert(seed(w, 0) == 0) by (bit_vector)
        requires
            valid_width(w),
    ;
}

proof fn lemma_zero_stays(width: u32, poly: u32, n: nat)
    ensures
        div_steps(width, poly, 0, n) == 0,
    decreases n,
{
    if n > 0 {
        lemma_zero_stays(width, poly, (n - 1) as nat);
        assert(((0u32 << 1u32) & reg_mask(width)) == 0 && (0u32 & top_bit(width)) == 0)
            by (bit_vector);
    }
}

} // verus!
