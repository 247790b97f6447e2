//! The three micro-programs of the waveform co-processor, written with the
//! `pio` assembler: the chip-select encoder, the master clock and data
//! generator, and the slave responder.

use vstd::prelude::*;

verus! {

/// `pio::Assembler`: what it holds is known only through `listing` and
/// `side_set_of`.
#[verifier::external_type_specification]
#[verifier::external_body]
pub struct ExAssembler<const PROGRAM_SIZE: usize>(pio::Assembler<PROGRAM_SIZE>);

/// `pio::Instruction`, with its fields as the crate declares them.
#[verifier::external_type_specification]
pub struct ExInstruction(pio::Instruction);

/// `pio::InstructionOperands`, with its variants as the crate declares them.
#[verifier::external_type_specification]
pub struct ExInstructionOperands(pio::InstructionOperands);

/// `pio::JmpCondition`, with its variants as the crate declares them.
#[verifier::external_type_specification]
pub struct ExJmpCondition(pio::JmpCondition);

/// `pio::WaitSource`, with its variants as the crate declares them.
#[verifier::external_type_specification]
pub struct ExWaitSource(pio::WaitSource);

/// `pio::InSource`, with its variants as the crate declares them.
#[verifier::external_type_specification]
pub struct ExInSource(pio::InSource);

/// `pio::OutDestination`, with its variants as the crate declares them.
#[verifier::external_type_specification]
pub struct ExOutDestination(pio::OutDestination);

/// `pio::SetDestination`, with its variants as the crate declares them.
#[verifier::external_type_specification]
pub struct ExSetDestination(pio::SetDestination);

/// `pio::MovDestination`, with its variants as the crate declares them.
#[verifier::external_type_specification]
pub struct ExMovDestination(pio::MovDestination);

/// `pio::MovOperation`, with its variants as the crate declares them.
#[verifier::external_type_specification]
pub struct ExMovOperation(pio::MovOperation);

/// `pio::MovSource`, with its variants as the crate declares them.
#[verifier::external_type_specification]
pub struct ExMovSource(pio::MovSource);

/// The instructions that an assembler holds, in program order.
pub uninterp spec fn listing(a: pio::Assembler<32>) -> Seq<pio::Instruction>;

/// The side-set settings that an assembler was made with, as they were
/// given to `SideSet::new`: optional, number of bits, pin directions.
pub uninterp spec fn side_set_of(a: pio::Assembler<32>) -> (bool, u8, bool);

/// How many instructions the co-processor's program memory holds.
pub const PROGRAM_CAPACITY: usize = 32;

/// An instruction without delay and without side-set.
pub open spec fn plain(operands: pio::InstructionOperands) -> pio::Instruction {
    pio::Instruction { operands, delay: 0, side_set: None }
}

/// An instruction without delay that drives the side-set pins to `side`.
pub open spec fn with_side(operands: pio::InstructionOperands, side: u8) -> pio::Instruction {
    pio::Instruction { operands, delay: 0, side_set: Some(side) }
}

/// `Assembler::new_with_side_set` on `SideSet::new(optional, bits,
/// pindirs)`: an assembler with no instructions and these settings. More
/// than five side-set bits do not fit an instruction.
#[verifier::external_body]
fn asm_new(optional: bool, bits: u8, pindirs: bool) -> (a: pio::Assembler<32>)
    requires
        bits + (if optional { 1int } else { 0int }) <= 5,
    ensures
        listing(a) == Seq::<pio::Instruction>::empty(),
        side_set_of(a) == (optional, bits, pindirs),
{
    pio::Assembler::<32>::new_with_side_set(pio::SideSet::new(optional, bits, pindirs))
}

/// `Assembler::set`: appends a `SET`; the assembler must have room.
#[verifier::external_body]
fn asm_set(a: &mut pio::Assembler<32>, destination: pio::SetDestination, data: u8)
    requires
        listing(*old(a)).len() < PROGRAM_CAPACITY,
    ensures
        listing(*final(a)) == listing(*old(a)).push(
            plain(pio::InstructionOperands::SET { destination, data }),
        ),
        side_set_of(*final(a)) == side_set_of(*old(a)),
{
    a.set(destination, data);
}

/// `Assembler::pull`: appends a `PULL`; the assembler must have room.
#[verifier::external_body]
fn asm_pull(a: &mut pio::Assembler<32>, if_empty: bool, block: bool)
    requires
        listing(*old(a)).len() < PROGRAM_CAPACITY,
    ensures
        listing(*final(a)) == listing(*old(a)).push(
            plain(pio::InstructionOperands::PULL { if_empty, block }),
        ),
        side_set_of(*final(a)) == side_set_of(*old(a)),
{
    a.pull(if_empty, block);
}

/// `Assembler::push`: appends a `PUSH`; the assembler must have room.
#[verifier::external_body]
fn asm_push(a: &mut pio::Assembler<32>, if_full: bool, block: bool)
    requires
        listing(*old(a)).len() < PROGRAM_CAPACITY,
    ensures
        listing(*final(a)) == listing(*old(a)).push(
            plain(pio::InstructionOperands::PUSH { if_full, block }),
        ),
        side_set_of(*final(a)) == side_set_of(*old(a)),
{
    a.push(if_full, block);
}

/// `Assembler::irq`: appends an `IRQ`; the assembler must have room.
#[verifier::external_body]
fn asm_irq(a: &mut pio::Assembler<32>, clear: bool, wait: bool, index: u8, relative: bool)
    requires
        listing(*old(a)).len() < PROGRAM_CAPACITY,
    ensures
        listing(*final(a)) == listing(*old(a)).push(
            plain(pio::InstructionOperands::IRQ { clear, wait, index, relative }),
        ),
        side_set_of(*final(a)) == side_set_of(*old(a)),
{
    a.irq(clear, wait, index, relative);
}

/// `Assembler::wait`: appends a `WAIT`; the assembler must have room.
#[verifier::external_body]
fn asm_wait(
    a: &mut pio::Assembler<32>,
    polarity: u8,
    source: pio::WaitSource,
    index: u8,
    relative: bool,
)
    requires
        listing(*old(a)).len() < PROGRAM_CAPACITY,
    ensures
        listing(*final(a)) == listing(*old(a)).push(
            plain(pio::InstructionOperands::WAIT { polarity, source, index, relative }),
        ),
        side_set_of(*final(a)) == side_set_of(*old(a)),
{
    a.wait(polarity, source, index, relative);
}

/// `Assembler::out`: appends an `OUT`; the assembler must have room.
#[verifier::external_body]
fn asm_out(a: &mut pio::Assembler<32>, destination: pio::OutDestination, bit_count: u8)
    requires
        listing(*old(a)).len() < PROGRAM_CAPACITY,
    ensures
        listing(*final(a)) == listing(*old(a)).push(
            plain(pio::InstructionOperands::OUT { destination, bit_count }),
        ),
        side_set_of(*final(a)) == side_set_of(*old(a)),
{
    a.out(destination, bit_count);
}

/// `Assembler::out_with_side_set`: appends an `OUT` that also drives the
/// side-set pins; the assembler must have room.
#[verifier::external_body]
fn asm_out_with_side_set(
    a: &mut pio::Assembler<32>,
    destination: pio::OutDestination,
    bit_count: u8,
    side_set: u8,
)
    requires
        listing(*old(a)).len() < PROGRAM_CAPACITY,
    ensures
        listing(*final(a)) == listing(*old(a)).push(
            with_side(pio::InstructionOperands::OUT { destination, bit_count }, side_set),
        ),
        side_set_of(*final(a)) == side_set_of(*old(a)),
{
    a.out_with_side_set(destination, bit_count, side_set);
}

/// `Assembler::in_with_delay`: appends an `IN` with the given delay and
/// without side-set; the assembler must have room.
#[verifier::external_body]
fn asm_in_with_delay(a: &mut pio::Assembler<32>, source: pio::InSource, bit_count: u8, delay: u8)
    requires
        listing(*old(a)).len() < PROGRAM_CAPACITY,
    ensures
        listing(*final(a)) == listing(*old(a)).push(
            (pio::Instruction {
                operands: pio::InstructionOperands::IN { source, bit_count },
                delay,
                side_set: None,
            }),
        ),
        side_set_of(*final(a)) == side_set_of(*old(a)),
{
    a.in_with_delay(source, bit_count, delay);
}

/// `Assembler::in_with_side_set`: appends an `IN` that also drives the
/// side-set pins; the assembler must have room.
#[verifier::external_body]
fn asm_in_with_side_set(
    a: &mut pio::Assembler<32>,
    source: pio::InSource,
    bit_count: u8,
    side_set: u8,
)
    requires
        listing(*old(a)).len() < PROGRAM_CAPACITY,
    ensures
        listing(*final(a)) == listing(*old(a)).push(
            with_side(pio::InstructionOperands::IN { source, bit_count }, side_set),
        ),
        side_set_of(*final(a)) == side_set_of(*old(a)),
{
    a.in_with_side_set(source, bit_count, side_set);
}

/// `Assembler::jmp` to a label made by `Assembler::label_at_offset`:
/// appends a `JMP` to that offset; the assembler must have room.
#[verifier::external_body]
fn asm_jmp(a: &mut pio::Assembler<32>, condition: pio::JmpCondition, address: u8)
    requires
        listing(*old(a)).len() < PROGRAM_CAPACITY,
    ensures
        listing(*final(a)) == listing(*old(a)).push(
            plain(pio::InstructionOperands::JMP { condition, address }),
        ),
        side_set_of(*final(a)) == side_set_of(*old(a)),
{
    let mut target = a.label_at_offset(address);
    a.jmp(condition, &mut target);
}

/// `pio::Program`: what it holds is known only through `program_words`
/// and `program_wrap`.
#[verifier::external_type_specification]
#[verifier::external_body]
pub struct ExProgram<const PROGRAM_SIZE: usize>(pio::Program<PROGRAM_SIZE>);

/// The 16-bit word that `Instruction::encode` makes of an instruction
/// under given side-set settings.
pub uninterp spec fn encoded(instruction: pio::Instruction, side_set: (bool, u8, bool)) -> u16;

/// The code words that an assembled program holds, in program order.
pub uninterp spec fn program_words(p: pio::Program<32>) -> Seq<u16>;

/// The two ends of an assembled program's wrap: the offset of the last
/// instruction before the wrap, and the offset of the first one after it.
pub uninterp spec fn program_wrap(p: pio::Program<32>) -> (u8, u8);

/// Two to the power of `k`, for the few bits that an instruction has to
/// spare.
pub open spec fn two_to(k: int) -> int {
    if k <= 0 {
        1
    } else if k == 1 {
        2
    } else if k == 2 {
        4
    } else if k == 3 {
        8
    } else if k == 4 {
        16
    } else {
        32
    }
}

/// The number of bits that the side-set takes of an instruction: its pins
/// and, where it is optional, one bit that enables it.
pub open spec fn side_set_width(side_set: (bool, u8, bool)) -> int {
    side_set.1 + (if side_set.0 {
        1int
    } else {
        0int
    })
}

/// Whether the assembler can encode an instruction under given side-set
/// settings: the delay and the side-set value fit the bits they share, a
/// side-set that is not optional is given, an interrupt index is at most 7,
/// and only a wait for an interrupt is relative.
pub open spec fn encodable(instruction: pio::Instruction, side_set: (bool, u8, bool)) -> bool {
    &&& side_set_width(side_set) <= 5
    &&& instruction.delay < two_to(5 - side_set_width(side_set))
    &&& match instruction.side_set {
        Some(side) => side < two_to(side_set.1 as int),
        None => side_set.0 || side_set.1 == 0,
    }
    &&& match instruction.operands {
        pio::InstructionOperands::WAIT { source, index, relative, .. } => {
            &&& relative ==> source is IRQ
            &&& source is IRQ ==> index <= 7
        },
        pio::InstructionOperands::IRQ { index, .. } => index <= 7,
        _ => true,
    }
}

/// `Assembler::assemble_with_wrap` on two labels made by
/// `Assembler::label_at_offset`: every instruction is encoded in place, and
/// the program wraps from the instruction before `source` to the one at
/// `target`. The assembler panics on an instruction that it cannot encode,
/// on an empty program and on a wrap outside the program.
#[verifier::external_body]
fn asm_assemble_with_wrap(a: pio::Assembler<32>, source: u8, target: u8) -> (p: pio::Program<32>)
    requires
        0 < source <= listing(a).len(),
        target < listing(a).len(),
        forall|i: int| 0 <= i < listing(a).len() ==> encodable(#[trigger] listing(a)[i], side_set_of(a)),
    ensures
        program_words(p).len() == listing(a).len(),
        forall|i: int|
            0 <= i < listing(a).len() ==> #[trigger] program_words(p)[i] == encoded(
                listing(a)[i],
                side_set_of(a),
            ),
        program_wrap(p) == ((source - 1) as u8, target),
{
    let mut a = a;
    let source = a.label_at_offset(source);
    let target = a.label_at_offset(target);
    a.assemble_with_wrap(source, target)
}

/// A program before it is assembled, with the two offsets between which
/// it wraps: execution goes from the instruction before `wrap_source` back
/// to the one at `wrap_target`.
pub struct WaveformProgram {
    pub assembler: pio::Assembler<32>,
    pub wrap_source: u8,
    pub wrap_target: u8,
}

impl WaveformProgram {
    /// The instructions of the program.
    pub open spec fn code(&self) -> Seq<pio::Instruction> {
        listing(self.assembler)
    }

    /// The side-set settings of the program.
    pub open spec fn side_set(&self) -> (bool, u8, bool) {
        side_set_of(self.assembler)
    }

    /// Whether the wrap offsets lie within the program, and every jump
    /// goes to one of its instructions.
    pub open spec fn well_formed(&self) -> bool {
        &&& 0 < self.wrap_source <= self.code().len() <= PROGRAM_CAPACITY
        &&& self.wrap_target < self.wrap_source
        &&& forall|i: int|
            0 <= i < self.code().len() ==> (#[trigger] self.code()[i].operands
                matches pio::InstructionOperands::JMP { address, .. } ==> address
                < self.code().len())
    }

    /// Whether the assembler can encode every instruction of the program.
    pub open spec fn encodes(&self) -> bool {
        forall|i: int|
            0 <= i < self.code().len() ==> encodable(#[trigger] self.code()[i], self.side_set())
    }

    /// The program as the co-processor takes it: one code word for each
    /// instruction, and the wrap between the instruction before
    /// `wrap_source` and the one at `wrap_target`.
    pub fn assemble(self) -> (p: pio::Program<32>)
        requires
            self.well_formed(),
            self.encodes(),
        ensures
            program_words(p).len() == self.code().len(),
            forall|i: int|
                0 <= i < self.code().len() ==> #[trigger] program_words(p)[i] == encoded(
                    self.code()[i],
                    self.side_set(),
                ),
            program_wrap(p) == ((self.wrap_source - 1) as u8, self.wrap_target),
    {
        asm_assemble_with_wrap(self.assembler, self.wrap_source, self.wrap_target)
    }
}

/// The master program's instructions. Per word it pulls 32 bits, and per
/// bit it shifts one out with the clock high and samples one with the
/// clock low; after two words it raises interrupt 4.
pub open spec fn spi_code() -> Seq<pio::Instruction> {
    seq![
        plain(pio::InstructionOperands::SET { destination: pio::SetDestination::Y, data: 1 }),
        plain(pio::InstructionOperands::PULL { if_empty: false, block: true }),
        with_side(
            pio::InstructionOperands::OUT { destination: pio::OutDestination::PINS, bit_count: 1 },
            1,
        ),
        with_side(pio::InstructionOperands::IN { source: pio::InSource::PINS, bit_count: 1 }, 0),
        plain(
            pio::InstructionOperands::JMP {
                condition: pio::JmpCondition::OutputShiftRegisterNotEmpty,
                address: 2,
            },
        ),
        plain(pio::InstructionOperands::PUSH { if_full: false, block: false }),
        plain(
            pio::InstructionOperands::JMP { condition: pio::JmpCondition::YDecNonZero, address: 1 },
        ),
        plain(
            pio::InstructionOperands::IRQ { clear: false, wait: false, index: 4, relative: false },
        ),
    ]
}

/// The chip-select program's instructions: it takes one word, puts its low
/// five bits on the select lines, waits for interrupt 4 and sets all five
/// lines high again.
pub open spec fn cs_code() -> Seq<pio::Instruction> {
    seq![
        plain(pio::InstructionOperands::PULL { if_empty: false, block: true }),
        plain(
            pio::InstructionOperands::OUT { destination: pio::OutDestination::PINS, bit_count: 5 },
        ),
        plain(
            pio::InstructionOperands::WAIT {
                polarity: 1,
                source: pio::WaitSource::IRQ,
                index: 4,
                relative: false,
            },
        ),
        plain(
            pio::InstructionOperands::SET { destination: pio::SetDestination::PINS, data: 0x1f },
        ),
    ]
}

/// A wait for the level `polarity` on the input `index`.
pub open spec fn wait_gpio(polarity: u8, index: u8) -> pio::Instruction {
    plain(
        pio::InstructionOperands::WAIT {
            polarity,
            source: pio::WaitSource::GPIO,
            index,
            relative: false,
        },
    )
}

/// The slave program's instructions: it waits for the select line to go
/// idle and then active, and then, per clock pulse, shifts one bit out on
/// the rising edge and samples one on the falling edge, going back to the
/// wait once the select line is high again.
pub open spec fn spi_slave_code(cs_index: u8, sck_index: u8) -> Seq<pio::Instruction> {
    seq![
        wait_gpio(1, cs_index),
        wait_gpio(0, cs_index),
        plain(pio::InstructionOperands::PULL { if_empty: true, block: false }),
        wait_gpio(1, sck_index),
        plain(pio::InstructionOperands::JMP { condition: pio::JmpCondition::PinHigh, address: 0 }),
        plain(
            pio::InstructionOperands::OUT { destination: pio::OutDestination::PINS, bit_count: 1 },
        ),
        wait_gpio(0, sck_index),
        plain(pio::InstructionOperands::IN { source: pio::InSource::PINS, bit_count: 1 }),
    ]
}

/// The master clock and data generator, with one optional side-set bit
/// for the clock; it wraps over the whole program.
pub fn spi_program() -> (p: WaveformProgram)
    ensures
        p.code() == spi_code(),
        p.side_set() == (true, 1u8, false),
        p.wrap_target == 0,
        p.wrap_source == 8,
        p.well_formed(),
        p.encodes(),
{
    let mut program = asm_new(true, 1, false);
    let wrap_target: u8 = 0;
    asm_set(&mut program, pio::SetDestination::Y, 1);
    let next_word: u8 = 1;
    asm_pull(&mut program, false, true);
    let next_bit: u8 = 2;
    asm_out_with_side_set(&mut program, pio::OutDestination::PINS, 1, 1);
    asm_in_with_side_set(&mut program, pio::InSource::PINS, 1, 0);
    asm_jmp(&mut program, pio::JmpCondition::OutputShiftRegisterNotEmpty, next_bit);
    asm_push(&mut program, false, false);
    asm_jmp(&mut program, pio::JmpCondition::YDecNonZero, next_word);
    asm_irq(&mut program, false, false, 4, false);
    let wrap_source: u8 = 8;
    assert(listing(program) =~= spi_code());
    WaveformProgram { assembler: program, wrap_source, wrap_target }
}

/// The chip-select encoder, without side-set; it wraps over the whole
/// program.
pub fn cs_program() -> (p: WaveformProgram)
    ensures
        p.code() == cs_code(),
        p.side_set() == (false, 0u8, false),
        p.wrap_target == 0,
        p.wrap_source == 4,
        p.well_formed(),
        p.encodes(),
{
    let mut program = asm_new(false, 0, false);
    let wrap_target: u8 = 0;
    asm_pull(&mut program, false, true);
    asm_out(&mut program, pio::OutDestination::PINS, 5);
    asm_wait(&mut program, 1, pio::WaitSource::IRQ, 4, false);
    asm_set(&mut program, pio::SetDestination::PINS, 0x1f);
    let wrap_source: u8 = 4;
    assert(listing(program) =~= cs_code());
    WaveformProgram { assembler: program, wrap_source, wrap_target }
}

/// The slave responder for a select line on input `cs_index` and a clock
/// on input `sck_index`, without side-set; it wraps from its end to the
/// instruction behind the two waits for the select line.
pub fn spi_slave_program(cs_index: u8, sck_index: u8) -> (p: WaveformProgram)
    ensures
        p.code() == spi_slave_code(cs_index, sck_index),
        p.side_set() == (false, 0u8, false),
        p.wrap_target == 2,
        p.wrap_source == 8,
        p.well_formed(),
        p.encodes(),
{
    let mut program = asm_new(false, 0, false);
    let wait_for_transfer: u8 = 0;
    asm_wait(&mut program, 1, pio::WaitSource::GPIO, cs_index, false);
    asm_wait(&mut program, 0, pio::WaitSource::GPIO, cs_index, false);
    let wrap_target: u8 = 2;
    asm_pull(&mut program, true, false);
    asm_wait(&mut program, 1, pio::WaitSource::GPIO, sck_index, false);
    asm_jmp(&mut program, pio::JmpCondition::PinHigh, wait_for_transfer);
    asm_out(&mut program, pio::OutDestination::PINS, 1);
    asm_wait(&mut program, 0, pio::WaitSource::GPIO, sck_index, false);
    asm_in_with_delay(&mut program, pio::InSource::PINS, 1, 0);
    let wrap_source: u8 = 8;
    assert(listing(program) =~= spi_slave_code(cs_index, sck_index));
    WaveformProgram { assembler: program, wrap_source, wrap_target }
}

} // verus!
