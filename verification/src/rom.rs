//! ROM images: the big-endian byte stream of 16-bit words that the assembler
//! writes and the emulator loads, its header, and loading it into memory.
use vstd::prelude::*;
use crate::cpu::{CPU, CpuView, MEMORY_SIZE};
use crate::semantics::as_signed;

verus! {

/// The ROM format version that this emulator reads.
pub const ROM_VERSION: i16 = 2;

/// Errors of the emulator outside the execution of instructions.
#[derive(Debug)]
pub enum EmuError {
    FileNotFound(),
    IsDirectory(),
    MemoryOverflow(),
    Duplicate(String),
    ReadFail(String),
    Impossible(String),
}

/// The signed word whose big-endian bytes are `hi`, `lo`.
pub open spec fn be_word(hi: u8, lo: u8) -> i16 {
    as_signed(hi * 256 + lo) as i16
}

/// The words of a byte stream, two bytes each, most significant byte first;
/// a trailing odd byte is ignored.
pub open spec fn words_of(bytes: Seq<u8>) -> Seq<i16> {
    Seq::new(bytes.len() / 2, |i: int| be_word(bytes[2 * i], bytes[2 * i + 1]))
}

/// The big-endian bytes of a sequence of words.
pub open spec fn bytes_of(words: Seq<i16>) -> Seq<u8> {
    Seq::new(
        words.len() * 2,
        |i: int|
            if i % 2 == 0 {
                ((words[i / 2] as u16) / 256) as u8
            } else {
                ((words[i / 2] as u16) % 256) as u8
            },
    )
}

fn word_from_bytes(hi: u8, lo: u8) -> (w: i16)
    ensures
        w == be_word(hi, lo),
{
    let x: u16 = (hi as u16) * 256 + lo as u16;
    if x > 32767 {
        (x as i32 - 65536) as i16
    } else {
        x as i16
    }
}

/// Splits a byte stream into big-endian words (see `words_of`).
pub fn words_from_bytes(bytes: &[u8]) -> (words: Vec<i16>)
    ensures
        words@ == words_of(bytes@),
{
    let mut words: Vec<i16> = Vec::new();
    let mut j: usize = 0;
    while j + 1 < bytes.len()
        invariant
            j % 2 == 0,
            j <= bytes@.len(),
            words@ =~= words_of(bytes@).take(j as int / 2),
        decreases bytes@.len() - j,
    {
        words.push(word_from_bytes(bytes[j], bytes[j + 1]));
        j = j + 2;
    }
    assert(words@ =~= words_of(bytes@));
    words
}

/// The big-endian bytes of a sequence of words (see `bytes_of`).
pub fn words_to_bytes(words: &[i16]) -> (bytes: Vec<u8>)
    requires
        words@.len() * 2 <= usize::MAX,
    ensures
        bytes@ == bytes_of(words@),
{
    let mut bytes: Vec<u8> = Vec::new();
    let mut i: usize = 0;
    while i < words.len()
        invariant
            i <= words@.len(),
            words@.len() * 2 <= usize::MAX,
            bytes@ =~= bytes_of(words@).take(2 * i as int),
        decreases words@.len() - i,
    {
        let w = words[i] as u16;
        bytes.push((w / 256) as u8);
        bytes.push((w % 256) as u8);
        i = i + 1;
    }
    assert(bytes@ =~= bytes_of(words@));
    bytes
}

/// Reading the bytes of words gives the words back.
pub proof fn lemma_words_bytes_roundtrip(words: Seq<i16>)
    ensures
        words_of(bytes_of(words)) == words,
{
    let b = bytes_of(words);
    assert forall|i: int| 0 <= i < words.len() implies #[trigger] words_of(b)[i] == words[i] by {
        let w = words[i] as u16;
        assert(b[2 * i] == (w / 256) as u8);
        assert(b[2 * i + 1] == (w % 256) as u8);
        let x = words[i];
        assert((x as u16) as int == if x < 0 { x + 65536 } else { x as int }) by (bit_vector);
        assert(((x as u16) / 256) * 256 + (x as u16) % 256 == x as u16) by (bit_vector);
    }
    assert(words_of(b) =~= words);
}

/// What the first word of a ROM says about its format version.
#[derive(Clone, Copy, Debug, PartialEq, Eq, Structural)]
pub enum RomVersion {
    /// The ROM has the version this emulator reads.
    Current,
    /// The ROM has a version, but another one.
    Mismatch,
    /// The ROM has no version word.
    Missing,
    /// The ROM is empty.
    Empty,
}

/// The version check of a ROM: a first word `0x01vv` carries version `vv`.
pub open spec fn rom_version_spec(binary: Seq<i16>) -> RomVersion {
    if binary.len() == 0 {
        RomVersion::Empty
    } else if binary[0] / 256 == 1 {
        if binary[0] % 256 == ROM_VERSION {
            RomVersion::Current
        } else {
            RomVersion::Mismatch
        }
    } else {
        RomVersion::Missing
    }
}

/// Checks the version word of a ROM.
pub fn rom_version(binary: &[i16]) -> (v: RomVersion)
    ensures
        v == rom_version_spec(binary@),
{
    if binary.len() == 0 {
        return RomVersion::Empty;
    }
    let number = binary[0];
    assert((number >> 8) == number / 256 && (number & 0xFF) == number % 256) by (bit_vector);
    if (number >> 8) == 1 {
        if number & 0xFF != ROM_VERSION {
            RomVersion::Mismatch
        } else {
            RomVersion::Current
        }
    } else {
        RomVersion::Missing
    }
}

/// The index of the first program word: the third word holds the length in
/// bytes of the metadata that follows the three header words.
pub open spec fn program_start(binary: Seq<i16>) -> int {
    if binary.len() > 2 {
        let v = binary[2] as int;
        (if v >= 0 { v / 2 } else { -((-v) / 2) }) + 3
    } else {
        3
    }
}

/// Where the program is loaded: the second word of the ROM, or `default`
/// when the ROM is shorter.
pub open spec fn load_address(binary: Seq<i16>, default: u16) -> u16 {
    if binary.len() > 1 {
        binary[1] as u16
    } else {
        default
    }
}

/// The program words of a ROM (none when the start index is negative).
pub open spec fn program_words(binary: Seq<i16>) -> Seq<i16> {
    let start = program_start(binary);
    if 0 <= start <= binary.len() {
        binary.subrange(start, binary.len() as int)
    } else {
        Seq::empty()
    }
}

/// Memory after writing the first `n` of `words` from address `at` on.
pub open spec fn loaded(memory: Seq<Option<u16>>, at: int, words: Seq<i16>, n: int) -> Seq<Option<u16>> {
    Seq::new(
        memory.len(),
        |a: int|
            if at <= a < at + n {
                Some(words[a - at] as u16)
            } else {
                memory[a]
            },
    )
}

/// The metadata text of a ROM: seven-bit characters, two per word, high byte first.
pub open spec fn rom_metadata_spec(binary: Seq<i16>) -> Seq<u8> {
    let end = if 0 <= program_start(binary) < binary.len() {
        program_start(binary)
    } else {
        binary.len() as int
    };
    if end <= 3 {
        Seq::empty()
    } else {
        Seq::new(
            ((end - 3) * 2) as nat,
            |i: int|
                if i % 2 == 0 {
                    (((binary[3 + i / 2] as u16) / 256) % 128) as u8
                } else {
                    ((binary[3 + i / 2] as u16) % 128) as u8
                },
        )
    }
}

fn program_start_index(binary: &[i16]) -> (r: Option<usize>)
    ensures
        match r {
            Some(i) => i as int == program_start(binary@),
            None => program_start(binary@) < 0,
        },
{
    if binary.len() > 2 {
        let v = binary[2] as i32;
        let half = if v >= 0 {
            v / 2
        } else {
            -((-v) / 2)
        };
        if half + 3 < 0 {
            None
        } else {
            Some((half + 3) as usize)
        }
    } else {
        Some(3)
    }
}

/// The metadata text of a ROM (see `rom_metadata_spec`).
pub fn rom_metadata(binary: &[i16]) -> (text: Vec<u8>)
    ensures
        text@ == rom_metadata_spec(binary@),
{
    let end = match program_start_index(binary) {
        Some(i) => if i < binary.len() {
            i
        } else {
            binary.len()
        },
        None => binary.len(),
    };
    let mut text: Vec<u8> = Vec::new();
    if end <= 3 {
        return text;
    }
    let mut index: usize = 3;
    while index < end
        invariant
            3 <= index <= end <= binary@.len(),
            end == (if 0 <= program_start(binary@) < binary@.len() { program_start(binary@) } else { binary@.len() as int }),
            text@ =~= rom_metadata_spec(binary@).take((index - 3) * 2),
        decreases end - index,
    {
        let element = binary[index] as u16;
        text.push(((element / 256) % 128) as u8);
        text.push((element % 128) as u8);
        index = index + 1;
    }
    assert(text@ =~= rom_metadata_spec(binary@));
    text
}

/// The index from which `binary` holds its program words.
fn program_words_start(binary: &[i16]) -> (start: usize)
    ensures
        start <= binary@.len(),
        binary@.subrange(start as int, binary@.len() as int) == program_words(binary@),
{
    let start = match program_start_index(binary) {
        Some(i) => if i < binary.len() {
            i
        } else {
            binary.len()
        },
        None => binary.len(),
    };
    assert(binary@.subrange(start as int, binary@.len() as int) =~= program_words(binary@));
    start
}

/// Writes `binary[start..]` into memory from address `at` on, stopping at
/// the end of memory; tells whether all of it fitted.
fn load_words(memory: &mut Vec<Option<u16>>, at: usize, binary: &[i16], start: usize) -> (fits: bool)
    requires
        old(memory)@.len() == MEMORY_SIZE,
        at < MEMORY_SIZE,
        start <= binary@.len(),
    ensures
        ({
            let words = binary@.subrange(start as int, binary@.len() as int);
            &&& fits == (at + words.len() <= MEMORY_SIZE)
            &&& final(memory)@ == loaded(
                old(memory)@,
                at as int,
                words,
                if fits { words.len() as int } else { MEMORY_SIZE - at },
            )
        }),
{
    let ghost words = binary@.subrange(start as int, binary@.len() as int);
    let ghost m0 = memory@;
    let mut index = start;
    let mut counter: usize = 0;
    assert(memory@ =~= loaded(m0, at as int, words, 0));
    while index < binary.len()
        invariant
            m0 == old(memory)@,
            m0.len() == MEMORY_SIZE,
            memory@.len() == MEMORY_SIZE,
            at < MEMORY_SIZE,
            start <= index <= binary@.len(),
            counter == index - start,
            words == binary@.subrange(start as int, binary@.len() as int),
            at + counter <= MEMORY_SIZE,
            memory@ == loaded(m0, at as int, words, counter as int),
        decreases binary@.len() - index,
    {
        if counter + at >= MEMORY_SIZE {
            assert(counter == MEMORY_SIZE - at);
            assert(words.len() > counter);
            assert(memory@ == loaded(m0, at as int, words, MEMORY_SIZE - at));
            return false;
        }
        memory.set(counter + at, Some(binary[index] as u16));
        assert(memory@ =~= loaded(m0, at as int, words, counter + 1));
        counter = counter + 1;
        index = index + 1;
    }
    assert(counter == words.len());
    true
}

/// Loading a ROM: the program words go to memory from the load address on,
/// as far as memory reaches; when all of them fit, the program counter is
/// set to the load address. The flag tells whether all of them fit.
#[verifier::opaque]
pub open spec fn load_rom_spec(s: CpuView, binary: Seq<i16>) -> (CpuView, bool) {
    let at = load_address(binary, s.starts_at);
    let words = program_words(binary);
    let fits = at + words.len() <= MEMORY_SIZE;
    let n = if fits {
        words.len() as int
    } else {
        MEMORY_SIZE - at
    };
    let s1 = CpuView { starts_at: at, memory: loaded(s.memory, at as int, words, n), ..s };
    if fits {
        (CpuView { pc: at, ..s1 }, true)
    } else {
        (s1, false)
    }
}

proof fn lemma_load_rom_steps(s0: CpuView, s1: CpuView, s2: CpuView, binary: Seq<i16>, start: int, fits: bool)
    requires
        s0.wf(),
        s1 == (CpuView { starts_at: load_address(binary, s0.starts_at), ..s0 }),
        0 <= start <= binary.len(),
        binary.subrange(start, binary.len() as int) == program_words(binary),
        ({
            let words = binary.subrange(start, binary.len() as int);
            let at = s1.starts_at;
            &&& fits == (at + words.len() <= MEMORY_SIZE)
            &&& s2 == (CpuView {
                memory: loaded(s1.memory, at as int, words, if fits { words.len() as int } else { MEMORY_SIZE - at }),
                ..s1
            })
        }),
    ensures
        fits == load_rom_spec(s0, binary).1,
        fits ==> load_rom_spec(s0, binary).0 == (CpuView { pc: s2.starts_at, ..s2 }),
        !fits ==> load_rom_spec(s0, binary).0 == s2,
{
    reveal(load_rom_spec);
}

impl CPU {
    /// Loads the program words of a ROM at its load address (see
    /// `program_words` and `load_address`) and points the program counter at
    /// them. Fails with `MemoryOverflow`, after loading what fits and without
    /// moving the program counter, when the program runs past the end of memory.
    pub fn load_rom(&mut self, binary: &[i16]) -> (r: Result<(), EmuError>)
        requires
            old(self).wf(),
        ensures
            final(self).wf(),
            final(self)@ == load_rom_spec(old(self)@, binary@).0,
            load_rom_spec(old(self)@, binary@).1 ==> r is Ok,
            !load_rom_spec(old(self)@, binary@).1 ==> r matches Err(EmuError::MemoryOverflow()),
    {
        let ghost s0 = self@;
        self.set_load_address(binary);
        let ghost s1 = self@;
        let start = program_words_start(binary);
        let fits = self.load_program(binary, start);
        proof {
            lemma_load_rom_steps(s0, s1, self@, binary@, start as int, fits);
        }
        if !fits {
            return Err(EmuError::MemoryOverflow());
        }
        self.pc = self.starts_at;
        Ok(())
    }

    fn set_load_address(&mut self, binary: &[i16])
        requires
            old(self).wf(),
        ensures
            final(self).wf(),
            final(self)@ == (CpuView { starts_at: load_address(binary@, old(self).starts_at), ..old(self)@ }),
    {
        if binary.len() > 1 {
            self.starts_at = binary[1] as u16;
        }
    }

    fn load_program(&mut self, binary: &[i16], start: usize) -> (fits: bool)
        requires
            old(self).wf(),
            start <= binary@.len(),
        ensures
            final(self).wf(),
            ({
                let words = binary@.subrange(start as int, binary@.len() as int);
                let at = old(self).starts_at;
                &&& fits == (at + words.len() <= MEMORY_SIZE)
                &&& final(self)@ == (CpuView {
                    memory: loaded(
                        old(self)@.memory,
                        at as int,
                        words,
                        if fits { words.len() as int } else { MEMORY_SIZE - at },
                    ),
                    ..old(self)@
                })
            }),
    {
        let mut memory: Vec<Option<u16>> = Vec::new();
        std::mem::swap(&mut memory, &mut self.memory);
        let fits = load_words(&mut memory, self.starts_at as usize, binary, start);
        self.memory = memory;
        fits
    }

    /// The characters that interrupt 8 prints: the low bytes of the
    /// non-empty memory cells from `start` (inclusive) to `end` (exclusive).
    pub fn memory_text(&self, start: u16, end: u16) -> (text: Vec<u8>)
        requires
            self.wf(),
        ensures
            text@ == memory_text_spec(self@, start as int, end as int),
    {
        let mut text: Vec<u8> = Vec::new();
        let mut index = start;
        if start >= end {
            return text;
        }
        while index < end
            invariant
                start <= index <= end,
                self.wf(),
                text@ == memory_text_spec(self@, start as int, index as int),
            decreases end - index,
        {
            if let Some(value) = self.memory[index as usize] {
                text.push((value % 256) as u8);
            }
            index = index + 1;
        }
        text
    }
}

/// The low bytes of the non-empty memory cells from `start` to `end`.
pub open spec fn memory_text_spec(s: CpuView, start: int, end: int) -> Seq<u8>
    decreases end - start,
{
    if end <= start {
        Seq::empty()
    } else {
        let rest = memory_text_spec(s, start, end - 1);
        match s.memory[end - 1] {
            Some(v) => rest.push((v % 256) as u8),
            None => rest,
        }
    }
}

} // verus!
