//! Bookkeeping and decoding for kernel code-coverage collection.
//!
//! The kernel fills a shared area of 64-bit words: word 0 counts the records
//! collected, the records follow. In program-counter mode a record is one
//! word; in comparison mode it is four words: type, two operands and the
//! program counter. The owner of the device talks to the kernel and hands the
//! outcomes to [`Kcov`], which keeps the state and decodes the area.
//!
//! A device is set up in three steps, each of which may fail: it is opened,
//! it is initialised for an area of a given size, and the area is mapped.
//! [`Kcov::opened`], [`Kcov::initialised`] and [`Kcov::new`] take the
//! outcome of one step each. What a step needs exists only if the step
//! before it succeeded, so no step is taken after a failure.

use crate::mmap::MAP_FAILED;
use crate::text::{decimal, push_decimal};
use vstd::prelude::*;
use vstd::string::StringExecFns;

verus! {

/// The number of words that a coverage area has by default.
pub const DEFAULT_COVER_SIZE: usize = 0x1_0000;

/// Words in one comparison record.
pub const WORDS_PER_COMPARISON: usize = 4;

/// What the kernel is asked to trace.
#[derive(Clone, Copy, Debug, PartialEq, Eq, Structural)]
pub enum KcovMode {
    Pc,
    Cmp,
}

impl KcovMode {
    /// The argument by which the mode is named to the kernel.
    pub open spec fn argument_spec(self) -> usize {
        match self {
            KcovMode::Pc => 0,
            KcovMode::Cmp => 1,
        }
    }

    pub fn argument(self) -> (a: usize)
        ensures
            a == self.argument_spec(),
    {
        match self {
            KcovMode::Pc => 0,
            KcovMode::Cmp => 1,
        }
    }
}

/// One traced comparison.
#[derive(Clone, Copy, Debug, PartialEq, Eq, Structural)]
pub struct CmpCoverage {
    /// The record type: bit 0 tells of a constant operand, bits 1 and 2 hold
    /// the logarithm of the operand size.
    pub typ: u64,
    pub arg1: u64,
    pub arg2: u64,
    pub pc: u64,
}

/// The operand size in bytes that a record type encodes: two to the power of
/// the number in bits 1 and 2.
pub open spec fn operand_size(typ: u64) -> nat {
    let log = (typ / 2) % 4;
    if log == 0 {
        1
    } else if log == 1 {
        2
    } else if log == 2 {
        4
    } else {
        8
    }
}

impl CmpCoverage {
    /// Size of the operands
    pub fn size(&self) -> (n: usize)
        ensures
            n == operand_size(self.typ),
            n == 1 || n == 2 || n == 4 || n == 8,
    {
        // bit 1, 2 contain log size of input operands
        let typ = self.typ;
        let log: u64 = (typ & (3 << 1)) >> 1;
        assert(log == (typ / 2) % 4) by (bit_vector)
            requires
                log == (typ & (3u64 << 1)) >> 1,
        ;
        assert(log < 4 ==> (1usize << log) == (if log == 0 {
            1usize
        } else if log == 1 {
            2usize
        } else if log == 2 {
            4usize
        } else {
            8usize
        })) by (bit_vector);
        1 << log
    }

    /// True if either operand is a compile time constant
    pub fn is_const(&self) -> (b: bool)
        ensures
            b == (self.typ % 2 == 1),
    {
        let typ = self.typ;
        assert((typ & 1) != 0 <==> typ % 2 == 1) by (bit_vector);
        (typ & 1) != 0
    }

    /// The record written out for a reader: its four words, then the operand
    /// size and the constant flag that the type word encodes.
    pub open spec fn debug_text(&self) -> Seq<char> {
        "CmpCoverage { typ: "@ + decimal(self.typ as nat) + ", arg1: "@ + decimal(self.arg1 as nat)
            + ", arg2: "@ + decimal(self.arg2 as nat) + ", pc: "@ + decimal(self.pc as nat)
            + ", [size]: "@ + decimal(operand_size(self.typ)) + ", [is_const]: "@ + (if self.typ % 2
            == 1 {
            "true"@
        } else {
            "false"@
        }) + " }"@
    }

    /// Writes the record out for a reader.
    pub fn describe(&self) -> (text: String)
        ensures
            text@ == self.debug_text(),
    {
        let mut text = String::from_str("CmpCoverage { typ: ");
        push_decimal(&mut text, self.typ as u128);
        text.append(", arg1: ");
        push_decimal(&mut text, self.arg1 as u128);
        text.append(", arg2: ");
        push_decimal(&mut text, self.arg2 as u128);
        text.append(", pc: ");
        push_decimal(&mut text, self.pc as u128);
        text.append(", [size]: ");
        push_decimal(&mut text, self.size() as u128);
        text.append(", [is_const]: ");
        if self.is_const() {
            text.append("true");
        } else {
            text.append("false");
        }
        text.append(" }");
        assert(text@ =~= self.debug_text());
        text
    }
}

/// What a finished collection left in the area.
#[derive(Debug)]
pub enum Coverage {
    Pc(Vec<u64>),
    Cmp(Vec<CmpCoverage>),
}

/// How a collection ended: the number of records and their kind.
#[derive(Clone, Copy, Debug, PartialEq, Eq, Structural)]
pub struct CoverageResult {
    pub collected: usize,
    pub mode: KcovMode,
}

/// The program counters that `area` holds if `collected` of them were
/// recorded.
pub open spec fn program_counters(area: Seq<u64>, collected: nat) -> Seq<u64> {
    area.subrange(1, 1 + collected as int)
}

/// Record `i` of an area in comparison mode.
pub open spec fn comparison_at(area: Seq<u64>, i: int) -> (u64, u64, u64, u64) {
    (area[1 + 4 * i], area[2 + 4 * i], area[3 + 4 * i], area[4 + 4 * i])
}

/// Whether `records` are the first records of `area` in comparison mode.
pub open spec fn holds_comparisons(records: Seq<CmpCoverage>, area: Seq<u64>) -> bool {
    forall|i: int|
        0 <= i < records.len() ==> (
        #[trigger] records[i].typ,
        records[i].arg1,
        records[i].arg2,
        records[i].pc,
    ) == comparison_at(area, i)
}

/// The words that `result` occupies behind the counter word.
pub open spec fn words_needed(result: CoverageResult) -> nat {
    match result.mode {
        KcovMode::Pc => result.collected as nat,
        KcovMode::Cmp => 4 * result.collected as nat,
    }
}

/// Why a device could not be set up.
#[derive(Clone, Copy, Debug, PartialEq, Eq, Structural)]
pub enum KcovError {
    /// The operating system turned a step down, with this error number.
    Os(i32),
    /// The area has no counter word, or its length in bytes does not fit
    /// the address space.
    BadSize,
}

/// Whether an area of `map_size` words can be mapped: it has its counter
/// word, and its length in bytes fits the address space.
pub open spec fn mappable(map_size: usize) -> bool {
    map_size >= 1 && map_size * 8 <= usize::MAX
}

/// A device that has been opened, and the size that its area is to have.
#[derive(Debug)]
pub struct Opened {
    fd: i32,
    map_size: usize,
}

impl Opened {
    pub closed spec fn fd_spec(&self) -> i32 {
        self.fd
    }

    /// Words that the area is to have, the counter word included.
    pub closed spec fn words(&self) -> usize {
        self.map_size
    }

    /// The descriptor to send the initialising request to.
    pub fn fd(&self) -> (fd: i32)
        ensures
            fd == self.fd_spec(),
    {
        self.fd
    }

    /// The argument of the initialising request: the size of the area in
    /// words.
    pub fn map_size(&self) -> (n: usize)
        ensures
            n == self.words(),
    {
        self.map_size
    }
}

/// A device that has been opened and initialised; its area is yet to be
/// mapped.
#[derive(Debug)]
pub struct Initialised {
    fd: i32,
    map_size: usize,
}

impl Initialised {
    #[verifier::type_invariant]
    closed spec fn can_be_mapped(&self) -> bool {
        mappable(self.map_size)
    }

    pub closed spec fn fd_spec(&self) -> i32 {
        self.fd
    }

    /// Words in the area, the counter word included.
    pub closed spec fn words(&self) -> usize {
        self.map_size
    }

    /// The descriptor to map.
    pub fn fd(&self) -> (fd: i32)
        ensures
            fd == self.fd_spec(),
    {
        self.fd
    }

    /// The length in bytes to map.
    pub fn area_len(&self) -> (len: usize)
        ensures
            len == self.words() * 8,
            mappable(self.words()),
    {
        proof {
            use_type_invariant(self);
        }
        self.map_size * 8
    }
}

/// A coverage device that has been opened and whose area has been mapped.
#[derive(Debug)]
pub struct Kcov {
    fd: i32,
    last_result: Option<CoverageResult>,
    map_size: usize,
}

/// A collection that is under way. The value is neither `Clone` nor `Copy`,
/// and [`Kcov::finish`] consumes it: a collection ends once.
#[derive(Debug)]
pub struct Collect {
    mode: KcovMode,
}

impl Collect {
    pub closed spec fn mode_spec(&self) -> KcovMode {
        self.mode
    }

    pub fn mode(&self) -> (m: KcovMode)
        ensures
            m == self.mode_spec(),
    {
        self.mode
    }
}

impl Kcov {
    /// The area always has its counter word.
    #[verifier::type_invariant]
    closed spec fn has_counter_word(&self) -> bool {
        self.map_size >= 1
    }

    /// Words in the area, the counter word included.
    pub closed spec fn words(&self) -> usize {
        self.map_size
    }

    pub closed spec fn fd_spec(&self) -> i32 {
        self.fd
    }

    /// The outcome of the last finished collection, if none was begun since.
    pub closed spec fn last_result_spec(&self) -> Option<CoverageResult> {
        self.last_result
    }

    /// The length in bytes of an area of `map_size` words; none if it does
    /// not fit the address space.
    pub fn area_len(map_size: usize) -> (len: Option<usize>)
        ensures
            len matches Some(n) ==> n == map_size * 8,
            len is None <==> map_size * 8 > usize::MAX,
    {
        map_size.checked_mul(8)
    }

    /// The first step: `outcome` is what opening the device gave, the
    /// descriptor or the error number. The area is to have `map_size` words.
    pub fn opened(map_size: usize, outcome: Result<i32, i32>) -> (r: Result<Opened, KcovError>)
        ensures
            match outcome {
                Ok(fd) => r matches Ok(o) && o.fd_spec() == fd && o.words() == map_size,
                Err(errno) => r == Err::<Opened, KcovError>(KcovError::Os(errno)),
            },
    {
        match outcome {
            Ok(fd) => Ok(Opened { fd, map_size }),
            Err(errno) => Err(KcovError::Os(errno)),
        }
    }

    /// The second step: `status` is what the kernel returned to the
    /// initialising request and `errno` the error number read after it. A
    /// status other than zero is a failure with that error number. An area
    /// that the kernel took and that cannot be mapped is a failure too.
    pub fn initialised(opened: Opened, status: i32, errno: i32) -> (r: Result<
        Initialised,
        KcovError,
    >)
        ensures
            status != 0 ==> r == Err::<Initialised, KcovError>(KcovError::Os(errno)),
            status == 0 && !mappable(opened.words()) ==> r == Err::<Initialised, KcovError>(
                KcovError::BadSize,
            ),
            status == 0 && mappable(opened.words()) ==> (r matches Ok(i) && i.fd_spec()
                == opened.fd_spec() && i.words() == opened.words()),
    {
        if status != 0 {
            return Err(KcovError::Os(errno));
        }
        if opened.map_size < 1 {
            return Err(KcovError::BadSize);
        }
        match Self::area_len(opened.map_size) {
            Some(_) => Ok(Initialised { fd: opened.fd, map_size: opened.map_size }),
            None => Err(KcovError::BadSize),
        }
    }

    /// The third step: `address` is what the mapping primitive returned for
    /// the area and `errno` the error number read after it. The device is
    /// set up unless the primitive reported [`MAP_FAILED`]; no collection has
    /// finished on a new device.
    pub fn new(initialised: Initialised, address: usize, errno: i32) -> (r: Result<Kcov, KcovError>)
        ensures
            address == MAP_FAILED ==> r == Err::<Kcov, KcovError>(KcovError::Os(errno)),
            address != MAP_FAILED ==> (r matches Ok(k) && k.words() == initialised.words()
                && k.fd_spec() == initialised.fd_spec() && k.last_result_spec() is None),
    {
        proof {
            use_type_invariant(&initialised);
        }
        if address == MAP_FAILED {
            Err(KcovError::Os(errno))
        } else {
            Ok(Kcov { fd: initialised.fd, last_result: None, map_size: initialised.map_size })
        }
    }

    pub fn fd(&self) -> (fd: i32)
        ensures
            fd == self.fd_spec(),
    {
        self.fd
    }

    /// Begins a collection in `mode`. `status` is what the kernel returned to
    /// the request and `errno` the error number read after it. The last
    /// result is forgotten either way; the collection is under way exactly
    /// if the status is zero, and otherwise the error number is returned.
    pub fn enable(&mut self, mode: KcovMode, status: i32, errno: i32) -> (r: Result<Collect, i32>)
        ensures
            final(self).last_result_spec() is None,
            final(self).words() == old(self).words(),
            final(self).fd_spec() == old(self).fd_spec(),
            status == 0 ==> (r matches Ok(c) && c.mode_spec() == mode),
            status != 0 ==> r == Err::<Collect, i32>(errno),
    {
        proof {
            use_type_invariant(&*self);
        }
        self.last_result = None;
        if status != 0 {
            return Err(errno);
        }
        Ok(Collect { mode })
    }

    /// Ends `collect`: `counter` is word 0 of the area as it was read before
    /// tracing was switched off.
    pub fn finish(&mut self, collect: Collect, counter: u64)
        requires
            counter <= usize::MAX,
        ensures
            final(self).last_result_spec() == Some(
                CoverageResult { collected: counter as usize, mode: collect.mode_spec() },
            ),
            final(self).words() == old(self).words(),
            final(self).fd_spec() == old(self).fd_spec(),
    {
        proof {
            use_type_invariant(&*self);
        }
        self.last_result = Some(CoverageResult { collected: counter as usize, mode: collect.mode });
    }

    /// Decodes what the last collection left in `area`. There is nothing to
    /// decode if no collection has finished since the last one began, or if
    /// the area is too short for the records that were counted.
    pub fn coverage(&self, area: &[u64]) -> (c: Option<Coverage>)
        ensures
            c is Some <==> (self.last_result_spec() matches Some(res) && 1 + words_needed(res)
                <= area@.len()),
            c matches Some(Coverage::Pc(pcs)) ==> (self.last_result_spec() matches Some(res)
                && res.mode == KcovMode::Pc && pcs@ == program_counters(
                area@,
                res.collected as nat,
            )),
            c matches Some(Coverage::Cmp(records)) ==> (self.last_result_spec() matches Some(res)
                && res.mode == KcovMode::Cmp && records@.len() == res.collected
                && holds_comparisons(records@, area@)),
    {
        let res = match self.last_result {
            Some(res) => res,
            None => {
                return None;
            },
        };
        match res.mode {
            KcovMode::Pc => {
                if res.collected >= area.len() {
                    return None;
                }
                let pcs = copy_words(area, 1, 1 + res.collected);
                Some(Coverage::Pc(pcs))
            },
            KcovMode::Cmp => {
                if area.len() < 1 || res.collected > (area.len() - 1) / WORDS_PER_COMPARISON {
                    return None;
                }
                let mut records: Vec<CmpCoverage> = Vec::new();
                let mut i: usize = 0;
                while i < res.collected
                    invariant
                        i <= res.collected,
                        1 + 4 * res.collected <= area@.len() <= usize::MAX,
                        records@.len() == i,
                        holds_comparisons(records@, area@),
                    decreases res.collected - i,
                {
                    let base: usize = 1 + WORDS_PER_COMPARISON * i;
                    records.push(
                        CmpCoverage {
                            typ: area[base],
                            arg1: area[base + 1],
                            arg2: area[base + 2],
                            pc: area[base + 3],
                        },
                    );
                    i += 1;
                }
                Some(Coverage::Cmp(records))
            },
        }
    }

    /// The number of records that fit the area in program-counter mode.
    pub fn map_size(&self) -> (n: usize)
        ensures
            n == self.words() - 1,
    {
        proof {
            use_type_invariant(self);
        }
        self.map_size - 1
    }
}

/// Copies the words `from..to` of `area`.
fn copy_words(area: &[u64], from: usize, to: usize) -> (words: Vec<u64>)
    requires
        from <= to <= area@.len(),
    ensures
        words@ == area@.subrange(from as int, to as int),
{
    let mut words: Vec<u64> = Vec::new();
    let mut i: usize = from;
    while i < to
        invariant
            from <= i <= to <= area@.len(),
            words@ == area@.subrange(from as int, i as int),
        decreases to - i,
    {
        words.push(area[i]);
        i += 1;
        assert(words@ =~= area@.subrange(from as int, i as int));
    }
    words
}

} // verus!
