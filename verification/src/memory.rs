//! Reading the memory of the target, and the fixed-size records and strings
//! that lie in it.

use vstd::prelude::*;
use vstd::utf8::decode_utf8;
use vstd::utf8::valid_utf8;

use crate::error::Error;
use crate::text::text_from_utf8;
use crate::wide_string::string_from_utf16_lossy;
use crate::wide_string::utf16_decoded_lossy;

verus! {

/// The sixteen-bit number that lies at `at` in little-endian order.
pub open spec fn le_u16(bytes: Seq<u8>, at: int) -> u16 {
    (bytes[at] + 0x100 * bytes[at + 1]) as u16
}

/// The thirty-two-bit number that lies at `at` in little-endian order.
pub open spec fn le_u32(bytes: Seq<u8>, at: int) -> u32 {
    (bytes[at] + 0x100 * bytes[at + 1] + 0x1_0000 * bytes[at + 2] + 0x100_0000 * bytes[at
        + 3]) as u32
}

/// The sixty-four-bit number that lies at `at` in little-endian order.
pub open spec fn le_u64(bytes: Seq<u8>, at: int) -> u64 {
    (le_u32(bytes, at) + 0x1_0000_0000 * le_u32(bytes, at + 4)) as u64
}

pub fn read_le_u16(bytes: &[u8], at: usize) -> (value: u16)
    requires
        at + 2 <= bytes.len(),
    ensures
        value == le_u16(bytes@, at as int),
{
    bytes[at] as u16 + 0x100 * (bytes[at + 1] as u16)
}

pub fn read_le_u32(bytes: &[u8], at: usize) -> (value: u32)
    requires
        at + 4 <= bytes.len(),
    ensures
        value == le_u32(bytes@, at as int),
{
    bytes[at] as u32 + 0x100 * (bytes[at + 1] as u32) + 0x1_0000 * (bytes[at + 2] as u32)
        + 0x100_0000 * (bytes[at + 3] as u32)
}

pub fn read_le_u64(bytes: &[u8], at: usize) -> (value: u64)
    requires
        at + 8 <= bytes.len(),
    ensures
        value == le_u64(bytes@, at as int),
{
    read_le_u32(bytes, at) as u64 + 0x1_0000_0000 * (read_le_u32(bytes, at + 4) as u64)
}

/// A value that lies in memory as a fixed number of bytes.
pub trait Record: Sized {
    /// The number of bytes that one value takes up.
    spec fn size() -> nat;

    /// The value that lies at `at` in `bytes`.
    spec fn decoded(bytes: Seq<u8>, at: int) -> Self;

    /// A value takes up at least one byte, and few enough that arrays of
    /// values can be counted.
    proof fn size_is_positive()
        ensures
            0 < Self::size() <= 0x1_0000,
    ;

    fn byte_size() -> (size: usize)
        ensures
            size == Self::size(),
    ;

    fn decode(bytes: &[u8], at: usize) -> (value: Self)
        requires
            at + Self::size() <= bytes.len(),
        ensures
            value == Self::decoded(bytes@, at as int),
    ;
}

impl Record for u8 {
    open spec fn size() -> nat {
        1
    }

    open spec fn decoded(bytes: Seq<u8>, at: int) -> u8 {
        bytes[at]
    }

    proof fn size_is_positive() {
    }

    fn byte_size() -> (size: usize) {
        1
    }

    fn decode(bytes: &[u8], at: usize) -> (value: u8) {
        bytes[at]
    }
}

impl Record for u16 {
    open spec fn size() -> nat {
        2
    }

    open spec fn decoded(bytes: Seq<u8>, at: int) -> u16 {
        le_u16(bytes, at)
    }

    proof fn size_is_positive() {
    }

    fn byte_size() -> (size: usize) {
        2
    }

    fn decode(bytes: &[u8], at: usize) -> (value: u16) {
        read_le_u16(bytes, at)
    }
}

impl Record for u32 {
    open spec fn size() -> nat {
        4
    }

    open spec fn decoded(bytes: Seq<u8>, at: int) -> u32 {
        le_u32(bytes, at)
    }

    proof fn size_is_positive() {
    }

    fn byte_size() -> (size: usize) {
        4
    }

    fn decode(bytes: &[u8], at: usize) -> (value: u32) {
        read_le_u32(bytes, at)
    }
}

impl Record for u64 {
    open spec fn size() -> nat {
        8
    }

    open spec fn decoded(bytes: Seq<u8>, at: int) -> u64 {
        le_u64(bytes, at)
    }

    proof fn size_is_positive() {
    }

    fn byte_size() -> (size: usize) {
        8
    }

    fn decode(bytes: &[u8], at: usize) -> (value: u64) {
        read_le_u64(bytes, at)
    }
}

/// The records that lie one after another in `bytes`, as many as fit whole.
pub open spec fn records<T: Record>(bytes: Seq<u8>) -> Seq<T> {
    Seq::new((bytes.len() / T::size()) as nat, |i: int| T::decoded(bytes, i * T::size()))
}

/// The number of bytes that `count` records of `size` bytes take up, or all
/// that a read can ask for where that is less.
pub open spec fn byte_count(count: usize, size: nat) -> usize {
    if count * size <= usize::MAX {
        (count * size) as usize
    } else {
        usize::MAX
    }
}

/// Decodes the records that lie one after another in `bytes`, as many as fit
/// whole.
pub fn decode_records<T: Record>(bytes: &[u8]) -> (data: Vec<T>)
    ensures
        data@ == records::<T>(bytes@),
{
    let element_size = T::byte_size();
    proof {
        T::size_is_positive();
    }
    let count = bytes.len() / element_size;
    let mut data: Vec<T> = Vec::new();
    let mut index: usize = 0;
    while index < count
        invariant
            element_size == T::size(),
            0 < element_size,
            count == bytes.len() / element_size,
            index <= count,
            data@.len() == index,
            forall|i: int| 0 <= i < index ==> data@[i] == T::decoded(bytes@, i * T::size()),
        decreases count - index,
    {
        assert((index + 1) * element_size <= bytes.len()) by (nonlinear_arith)
            requires
                index + 1 <= count,
                count == bytes.len() / element_size,
                0 < element_size,
        ;
        assert(index * element_size + element_size == (index + 1) * element_size)
            by (nonlinear_arith);
        let item = T::decode(bytes, index * element_size);
        data.push(item);
        index += 1;
    }
    assert(data@ =~= records::<T>(bytes@));
    data
}

/// The byte at an address of an address space, or `None` where the address
/// is not mapped or has more than sixty-four bits.
pub open spec fn byte_at(contents: Map<u64, u8>, address: int) -> Option<u8> {
    if 0 <= address <= u64::MAX && contents.contains_key(address as u64) {
        Some(contents[address as u64])
    } else {
        None
    }
}

/// The `len` entries of a sparse read at `address`: for each address the
/// byte there, or `None`.
pub open spec fn sparse_bytes(contents: Map<u64, u8>, address: int, len: nat) -> Seq<Option<u8>> {
    Seq::new(len, |i: int| byte_at(contents, address + i))
}

/// The mapped bytes from `address` on: up to `len` of them, and none from
/// the first address on that is not mapped.
pub open spec fn mapped_run(contents: Map<u64, u8>, address: int, len: nat) -> Seq<u8>
    decreases len,
{
    if len == 0 {
        Seq::empty()
    } else {
        match byte_at(contents, address) {
            Some(byte) => seq![byte] + mapped_run(contents, address + 1, (len - 1) as nat),
            None => Seq::empty(),
        }
    }
}

/// What a read gives: the platform's refusal, or else the value read.
pub open spec fn outcome<V>(failure: Option<Error>, value: V) -> Result<V, Error> {
    match failure {
        Some(e) => Err(e),
        None => Ok(value),
    }
}

/// Whether an executable result is the given outcome.
pub open spec fn is_outcome<V: View>(result: Result<V, Error>, expected: Result<V::V, Error>)
    -> bool {
    match expected {
        Ok(value) => result matches Ok(v) && v@ == value,
        Err(e) => result matches Err(err) && err == e,
    }
}

/// A read-only view of the target's address space.
///
/// An implementation answers for the target as it stands while it is
/// stopped: the same read gives the same answer, which `contents` and
/// `failure` describe. An implementation that is verified says what the two
/// are, and is held to them. One that is not verified, such as a reader of
/// a live target, leaves them open: what this crate states of its reads
/// then holds as far as the implementation keeps to the contracts of
/// `read_memory` and `read_raw_memory`.
pub trait MemorySource {
    /// The mapped bytes of the address space, by address. Nothing is known
    /// of them unless the implementation says what they are.
    open spec fn contents(&self) -> Map<u64, u8> {
        arbitrary()
    }

    /// The error with which the platform refuses a read of `len` bytes at
    /// `address`, if it refuses it. Nothing is known of it unless the
    /// implementation says when it refuses.
    open spec fn failure(&self, address: u64, len: usize) -> Option<Error> {
        arbitrary()
    }

    /// Reads `len` bytes at `address`. The result has one entry for each
    /// byte: the byte, or `None` where no memory is mapped.
    fn read_memory(&self, address: u64, len: usize) -> (data: Result<Vec<Option<u8>>, Error>)
        ensures
            is_outcome(
                data,
                outcome(
                    self.failure(address, len),
                    sparse_bytes(self.contents(), address as int, len as nat),
                ),
            ),
    ;

    /// Reads up to `len` bytes at `address` and stops at the first byte that
    /// is not mapped.
    fn read_raw_memory(&self, address: u64, len: usize) -> (data: Result<Vec<u8>, Error>)
        ensures
            is_outcome(
                data,
                outcome(
                    self.failure(address, len),
                    mapped_run(self.contents(), address as int, len as nat),
                ),
            ),
    ;

    /// Reads up to `max_count` records that lie one after another at
    /// `address`, and returns those that could be read whole.
    fn read_memory_array<T: Record>(&self, address: u64, max_count: usize) -> (data: Result<
        Vec<T>,
        Error,
    >)
        ensures
            is_outcome(
                data,
                outcome(
                    self.failure(address, byte_count(max_count, T::size())),
                    records::<T>(
                        mapped_run(
                            self.contents(),
                            address as int,
                            byte_count(max_count, T::size()) as nat,
                        ),
                    ),
                ),
            ),
    {
        let element_size = T::byte_size();
        let max_bytes = match max_count.checked_mul(element_size) {
            Some(bytes) => bytes,
            None => usize::MAX,
        };
        match self.read_raw_memory(address, max_bytes) {
            Ok(raw_bytes) => Ok(decode_records::<T>(raw_bytes.as_slice())),
            Err(e) => Err(e),
        }
    }

    /// Reads exactly `count` records that lie one after another at
    /// `address`, and fails where fewer can be read.
    fn read_memory_full_array<T: Record>(&self, address: u64, count: usize) -> (data: Result<
        Vec<T>,
        Error,
    >)
        ensures
            is_outcome(
                data,
                exactly(
                    outcome(
                        self.failure(address, byte_count(count, T::size())),
                        records::<T>(
                            mapped_run(
                                self.contents(),
                                address as int,
                                byte_count(count, T::size()) as nat,
                            ),
                        ),
                    ),
                    count as nat,
                ),
            ),
    {
        match self.read_memory_array::<T>(address, count) {
            Ok(result) => {
                if result.len() == count {
                    Ok(result)
                } else {
                    Err(Error::MemorySourceNotEnoughData)
                }
            },
            Err(e) => Err(e),
        }
    }

    /// Reads one record at `address`, and fails where it cannot be read
    /// whole.
    fn read_memory_data<T: Record>(&self, address: u64) -> (data: Result<T, Error>)
        ensures
            data == first_of(
                outcome(
                    self.failure(address, byte_count(1, T::size())),
                    records::<T>(
                        mapped_run(
                            self.contents(),
                            address as int,
                            byte_count(1, T::size()) as nat,
                        ),
                    ),
                ),
            ),
    {
        match self.read_memory_array::<T>(address, 1) {
            Ok(mut data) => {
                proof {
                    lemma_mapped_run_len(
                        self.contents(),
                        address as int,
                        byte_count(1, T::size()) as nat,
                    );
                    lemma_records_len::<T>(
                        mapped_run(
                            self.contents(),
                            address as int,
                            byte_count(1, T::size()) as nat,
                        ),
                        1,
                    );
                }
                match data.pop() {
                    Some(value) => Ok(value),
                    None => Err(Error::MemorySourceNotEnoughData),
                }
            },
            Err(e) => Err(e),
        }
    }

    /// Reads a string of up to `max_count` code units at `address`: sixteen
    /// bits each where `is_wide`, else eight. The string ends before the
    /// first unit that is zero, or where the memory or the count ends.
    ///
    /// Wide strings are UTF-16, in which a surrogate without its partner
    /// reads as U+FFFD. Narrow strings are UTF-8; one that is not
    /// well-formed is a failure.
    fn read_memory_string(&self, address: u64, max_count: usize, is_wide: bool) -> (text:
        Result<String, Error>)
        ensures
            is_outcome(
                text,
                if is_wide {
                    wide_text(
                        outcome(
                            self.failure(address, byte_count(max_count, 2)),
                            records::<u16>(
                                mapped_run(
                                    self.contents(),
                                    address as int,
                                    byte_count(max_count, 2) as nat,
                                ),
                            ),
                        ),
                    )
                } else {
                    narrow_text(
                        outcome(
                            self.failure(address, byte_count(max_count, 1)),
                            records::<u8>(
                                mapped_run(
                                    self.contents(),
                                    address as int,
                                    byte_count(max_count, 1) as nat,
                                ),
                            ),
                        ),
                    )
                },
            ),
    {
        if is_wide {
            match self.read_memory_array::<u16>(address, max_count) {
                Ok(mut words) => {
                    let end = zero_position(&words);
                    words.truncate(end);
                    Ok(string_from_utf16_lossy(words.as_slice()))
                },
                Err(e) => Err(e),
            }
        } else {
            match self.read_memory_array::<u8>(address, max_count) {
                Ok(mut bytes) => {
                    let end = zero_position(&bytes);
                    bytes.truncate(end);
                    text_from_utf8(bytes)
                },
                Err(e) => Err(e),
            }
        }
    }

    /// Reads a pointer at `address` and then the string that it points to.
    fn read_memory_string_indirect(&self, address: u64, max_count: usize, is_wide: bool) -> (text:
        Result<String, Error>)
        ensures
            is_outcome(
                text,
                match first_of(
                    outcome(
                        self.failure(address, byte_count(1, 8)),
                        records::<u64>(
                            mapped_run(self.contents(), address as int, byte_count(1, 8) as nat),
                        ),
                    ),
                ) {
                    Err(e) => Err(e),
                    Ok(pointer) => if is_wide {
                        wide_text(
                            outcome(
                                self.failure(pointer, byte_count(max_count, 2)),
                                records::<u16>(
                                    mapped_run(
                                        self.contents(),
                                        pointer as int,
                                        byte_count(max_count, 2) as nat,
                                    ),
                                ),
                            ),
                        )
                    } else {
                        narrow_text(
                            outcome(
                                self.failure(pointer, byte_count(max_count, 1)),
                                records::<u8>(
                                    mapped_run(
                                        self.contents(),
                                        pointer as int,
                                        byte_count(max_count, 1) as nat,
                                    ),
                                ),
                            ),
                        )
                    },
                },
            ),
    {
        match self.read_memory_data::<u64>(address) {
            Ok(string_address) => self.read_memory_string(string_address, max_count, is_wide),
            Err(e) => Err(e),
        }
    }
}

/// What reading up to `max_count` records at `address` gives.
pub open spec fn array_read<M: MemorySource, T: Record>(
    memory: &M,
    address: u64,
    max_count: usize,
) -> Result<Seq<T>, Error> {
    outcome(
        memory.failure(address, byte_count(max_count, T::size())),
        records::<T>(
            mapped_run(
                memory.contents(),
                address as int,
                byte_count(max_count, T::size()) as nat,
            ),
        ),
    )
}

/// What reading exactly `count` records at `address` gives.
pub open spec fn full_array_read<M: MemorySource, T: Record>(
    memory: &M,
    address: u64,
    count: usize,
) -> Result<Seq<T>, Error> {
    exactly(array_read::<M, T>(memory, address, count), count as nat)
}

/// What reading one record at `address` gives.
pub open spec fn data_read<M: MemorySource, T: Record>(memory: &M, address: u64) -> Result<
    T,
    Error,
> {
    first_of(array_read::<M, T>(memory, address, 1))
}

/// What reading a string at `address` gives.
pub open spec fn string_read<M: MemorySource>(
    memory: &M,
    address: u64,
    max_count: usize,
    is_wide: bool,
) -> Result<Seq<char>, Error> {
    if is_wide {
        wide_text(array_read::<M, u16>(memory, address, max_count))
    } else {
        narrow_text(array_read::<M, u8>(memory, address, max_count))
    }
}

/// What reading a string through the pointer at `address` gives.
pub open spec fn string_read_indirect<M: MemorySource>(
    memory: &M,
    address: u64,
    max_count: usize,
    is_wide: bool,
) -> Result<Seq<char>, Error> {
    match data_read::<M, u64>(memory, address) {
        Err(e) => Err(e),
        Ok(pointer) => string_read(memory, pointer, max_count, is_wide),
    }
}

/// The records read, where there are `count` of them; a failure where there
/// are fewer.
pub open spec fn exactly<T>(read: Result<Seq<T>, Error>, count: nat) -> Result<Seq<T>, Error> {
    match read {
        Ok(items) => if items.len() == count {
            Ok(items)
        } else {
            Err(Error::MemorySourceNotEnoughData)
        },
        Err(e) => Err(e),
    }
}

/// The first of the records read; a failure where there is none.
pub open spec fn first_of<T>(read: Result<Seq<T>, Error>) -> Result<T, Error> {
    match read {
        Ok(items) => if items.len() > 0 {
            Ok(items[0])
        } else {
            Err(Error::MemorySourceNotEnoughData)
        },
        Err(e) => Err(e),
    }
}

/// A code unit of a string in memory.
pub trait CodeUnit: Copy {
    /// The number that the unit holds.
    spec fn number(self) -> int;

    fn is_zero(self) -> (zero: bool)
        ensures
            zero == (self.number() == 0),
    ;
}

impl CodeUnit for u8 {
    open spec fn number(self) -> int {
        self as int
    }

    fn is_zero(self) -> (zero: bool) {
        self == 0
    }
}

impl CodeUnit for u16 {
    open spec fn number(self) -> int {
        self as int
    }

    fn is_zero(self) -> (zero: bool) {
        self == 0
    }
}

/// The index of the first unit that is zero, or the number of units where
/// none is zero.
pub open spec fn zero_index<T: CodeUnit>(units: Seq<T>) -> int
    decreases units.len(),
{
    if units.len() == 0 || units[0].number() == 0 {
        0
    } else {
        1 + zero_index(units.drop_first())
    }
}

/// The units before the first unit that is zero.
pub open spec fn until_zero<T: CodeUnit>(units: Seq<T>) -> Seq<T> {
    units.take(zero_index(units))
}

/// The text that the code units of a wide string stand for.
pub open spec fn wide_text(read: Result<Seq<u16>, Error>) -> Result<Seq<char>, Error> {
    match read {
        Ok(units) => Ok(utf16_decoded_lossy(until_zero(units))),
        Err(e) => Err(e),
    }
}

/// The text that the bytes of a narrow string stand for.
pub open spec fn narrow_text(read: Result<Seq<u8>, Error>) -> Result<Seq<char>, Error> {
    match read {
        Ok(units) => if valid_utf8(until_zero(units)) {
            Ok(decode_utf8(until_zero(units)))
        } else {
            Err(Error::InvalidUtf8)
        },
        Err(e) => Err(e),
    }
}

proof fn lemma_zero_index_bounds<T: CodeUnit>(units: Seq<T>)
    ensures
        0 <= zero_index(units) <= units.len(),
        zero_index(units) < units.len() ==> units[zero_index(units)].number() == 0,
        forall|i: int| 0 <= i < zero_index(units) ==> (#[trigger] units[i]).number() != 0,
    decreases units.len(),
{
    if units.len() == 0 || units[0].number() == 0 {
    } else {
        lemma_zero_index_bounds(units.drop_first());
        assert forall|i: int| 0 <= i < zero_index(units) implies (#[trigger] units[i]).number()
            != 0 by {
            if i > 0 {
                assert(units.drop_first()[i - 1] == units[i]);
            }
        }
    }
}

/// The position of the first unit that is zero, or the number of units where
/// none is.
fn zero_position<T: CodeUnit>(units: &Vec<T>) -> (end: usize)
    ensures
        end == zero_index(units@),
        end <= units.len(),
{
    let mut end: usize = 0;
    while end < units.len() && !units[end].is_zero()
        invariant
            end <= units.len(),
            forall|i: int| 0 <= i < end ==> (#[trigger] units@[i]).number() != 0,
        decreases units.len() - end,
    {
        end += 1;
    }
    proof {
        lemma_zero_index_bounds(units@);
    }
    end
}

/// A run of mapped bytes is no longer than asked for.
pub proof fn lemma_mapped_run_len(contents: Map<u64, u8>, address: int, len: nat)
    ensures
        mapped_run(contents, address, len).len() <= len,
    decreases len,
{
    if len > 0 && byte_at(contents, address) is Some {
        lemma_mapped_run_len(contents, address + 1, (len - 1) as nat);
    }
}

/// Reading up to `max_count` records gives at most that many.
pub proof fn lemma_records_len<T: Record>(bytes: Seq<u8>, max_count: usize)
    requires
        bytes.len() <= byte_count(max_count, T::size()),
    ensures
        records::<T>(bytes).len() <= max_count,
{
    T::size_is_positive();
    let size = T::size() as int;
    let n = bytes.len() as int;
    assert(n / size <= max_count) by (nonlinear_arith)
        requires
            0 < size,
            0 <= n,
            n <= max_count * size,
    ;
}

/// The address space in which `bytes` lie one after another from `base` on,
/// and in which nothing else is mapped. An entry that is `None` is a gap.
pub open spec fn image_contents(base: u64, bytes: Seq<Option<u8>>) -> Map<u64, u8> {
    Map::new(
        |address: u64| base <= address < base + bytes.len() && bytes[address - base] is Some,
        |address: u64| bytes[address - base]->0,
    )
}

/// A copy of a part of an address space, held in the debugger's own memory.
pub struct MemoryImage {
    base: u64,
    bytes: Vec<Option<u8>>,
}

impl MemoryImage {
    #[verifier::type_invariant]
    spec fn fits_the_address_space(&self) -> bool {
        self.base + self.bytes.len() <= u64::MAX + 1
    }

    /// The address of the first byte of the image.
    pub closed spec fn base(&self) -> u64 {
        self.base
    }

    /// The bytes of the image, with `None` for each gap.
    pub closed spec fn bytes(&self) -> Seq<Option<u8>> {
        self.bytes@
    }

    /// An image of `bytes`, all mapped, from `base` on. Bytes that would lie
    /// beyond the end of the address space are left out.
    pub fn new(base: u64, bytes: &[u8]) -> (image: MemoryImage)
        ensures
            image.base() == base,
            image.bytes() == Seq::new(
                if base + bytes.len() <= u64::MAX + 1 {
                    bytes.len() as nat
                } else {
                    (u64::MAX + 1 - base) as nat
                },
                |i: int| Some(bytes[i]),
            ),
    {
        let mut mapped: Vec<Option<u8>> = Vec::new();
        let mut i: usize = 0;
        while i < bytes.len() && (i as u64) <= u64::MAX - base
            invariant
                i <= bytes.len(),
                base + i <= u64::MAX + 1,
                mapped@ == Seq::new(i as nat, |k: int| Some(bytes[k])),
            decreases bytes.len() - i,
        {
            mapped.push(Some(bytes[i]));
            assert(mapped@ =~= Seq::new((i + 1) as nat, |k: int| Some(bytes[k])));
            i += 1;
        }
        MemoryImage { base, bytes: mapped }
    }

    /// An image of `bytes` from `base` on, in which each `None` is a gap.
    /// Entries that would lie beyond the end of the address space are left
    /// out.
    pub fn with_gaps(base: u64, bytes: Vec<Option<u8>>) -> (image: MemoryImage)
        ensures
            image.base() == base,
            image.bytes() == bytes@.take(
                if base + bytes.len() <= u64::MAX + 1 {
                    bytes.len() as int
                } else {
                    u64::MAX + 1 - base
                },
            ),
    {
        let ghost given = bytes@;
        let mut bytes = bytes;
        let room: u64 = u64::MAX - base;
        if bytes.len() as u64 > room {
            if room < usize::MAX as u64 {
                bytes.truncate(room as usize + 1);
            }
        }
        assert(bytes@ =~= given.take(bytes@.len() as int));
        MemoryImage { base, bytes }
    }

    /// The byte of the image at `address`, if one is mapped there.
    fn get(&self, address: u64) -> (byte: Option<u8>)
        ensures
            byte == byte_at(image_contents(self.base, self.bytes@), address as int),
    {
        proof {
            use_type_invariant(self);
        }
        if address < self.base {
            return None;
        }
        let offset = address - self.base;
        if offset >= self.bytes.len() as u64 {
            return None;
        }
        self.bytes[offset as usize]
    }
}

impl MemorySource for MemoryImage {
    closed spec fn contents(&self) -> Map<u64, u8> {
        image_contents(self.base, self.bytes@)
    }

    /// Reads from an image never fail.
    open spec fn failure(&self, address: u64, len: usize) -> Option<Error> {
        None
    }

    fn read_memory(&self, address: u64, len: usize) -> (data: Result<Vec<Option<u8>>, Error>) {
        let mut data: Vec<Option<u8>> = Vec::new();
        let mut offset: usize = 0;
        while offset < len
            invariant
                offset <= len,
                data@ == sparse_bytes(self.contents(), address as int, offset as nat),
            decreases len - offset,
        {
            let entry = if offset as u64 <= u64::MAX - address {
                self.get(address + offset as u64)
            } else {
                None
            };
            data.push(entry);
            assert(data@ =~= sparse_bytes(self.contents(), address as int, (offset + 1) as nat));
            offset += 1;
        }
        Ok(data)
    }

    fn read_raw_memory(&self, address: u64, len: usize) -> (data: Result<Vec<u8>, Error>) {
        let mut data: Vec<u8> = Vec::new();
        let mut offset: usize = 0;
        while offset < len
            invariant
                offset <= len,
                mapped_run(self.contents(), address as int, len as nat) == data@ + mapped_run(
                    self.contents(),
                    address + offset,
                    (len - offset) as nat,
                ),
            decreases len - offset,
        {
            let entry = if offset as u64 <= u64::MAX - address {
                self.get(address + offset as u64)
            } else {
                None
            };
            match entry {
                Some(byte) => {
                    let ghost before = data@;
                    data.push(byte);
                    assert(before + (seq![byte] + mapped_run(
                        self.contents(),
                        address + offset + 1,
                        (len - offset - 1) as nat,
                    )) =~= data@ + mapped_run(
                        self.contents(),
                        address + offset + 1,
                        (len - offset - 1) as nat,
                    ));
                    offset += 1;
                },
                None => {
                    assert(data@ + Seq::<u8>::empty() =~= data@);
                    return Ok(data);
                },
            }
        }
        assert(data@ + Seq::<u8>::empty() =~= data@);
        Ok(data)
    }
}

/// Where an image is mapped, it holds the bytes that it was made of.
pub proof fn lemma_image_bytes(image: &MemoryImage, address: int)
    ensures
        image.contents() == image_contents(image.base(), image.bytes()),
        byte_at(image.contents(), address) == if image.base() <= address < image.base()
            + image.bytes().len() && address <= u64::MAX {
            image.bytes()[address - image.base()]
        } else {
            None
        },
{
}

} // verus!
