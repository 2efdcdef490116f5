use vstd::prelude::*;
use vstd::utf8::{decode_utf8, valid_utf8};
use polkavm::{BackendKind, Config, Engine, GasMeteringKind, Module, ModuleConfig, ProgramBlob, ProgramCounter, RawInstance, Reg};
use crate::rpc::{text, SandboxError};

verus! {

#[verifier::external_type_specification]
#[verifier::external_body]
pub struct ExEngine(Engine);

#[verifier::external_type_specification]
#[verifier::external_body]
pub struct ExModule(Module);

#[verifier::external_type_specification]
#[verifier::external_body]
pub struct ExRawInstance(RawInstance);

/// Why a run of the virtual machine stopped.
#[derive(Debug, Clone, Copy, PartialEq, Eq, Structural)]
pub enum Interrupt {
    Finished,
    Trap,
    Ecalli(u32),
    Segfault,
    NotEnoughGas,
    Step,
}

/// The registers that the debugger sets before a run.
#[derive(Debug, Clone, Copy, PartialEq, Eq, Structural)]
pub enum Register {
    ReturnAddress,
    StackPointer,
}

/// Whether the bytes hold a program blob, as `ProgramBlob::parse` decides.
pub uninterp spec fn blob_parses(bytes: Seq<u8>) -> bool;

/// The exports of the blob that the bytes hold, in order: each symbol as
/// bytes with its program counter, as `ProgramBlob::exports` lists them.
pub uninterp spec fn blob_exports(bytes: Seq<u8>) -> Seq<(Seq<u8>, u32)>;

/// Whether the bytes compile into a module for an interpreting engine with
/// synchronous gas metering, step tracing on or off, as `Module::new`
/// decides.
pub uninterp spec fn blob_compiles(bytes: Seq<u8>, step_tracing: bool) -> bool;

/// Relies on polkavm::ProgramBlob::parse, which reads a program blob out of
/// its bytes or says why it cannot, and on polkavm::ProgramBlob::exports,
/// which lists the blob's exports; both depend on the bytes alone.
#[verifier::external_body]
fn parse_exports(bytecode: &Vec<u8>) -> (r: Result<Vec<(Vec<u8>, u32)>, String>)
    ensures
        r is Ok <==> blob_parses(bytecode@),
        r matches Ok(e) ==> e@.len() == blob_exports(bytecode@).len() && forall|i: int|
            0 <= i < e@.len() ==> (#[trigger] e@[i]).0@ == blob_exports(bytecode@)[i].0 && e@[i].1
                == blob_exports(bytecode@)[i].1,
{
    match ProgramBlob::parse(bytecode.clone().into()) {
        Ok(blob) => Ok(blob.exports().map(|e| (e.symbol().as_bytes().to_vec(), e.program_counter().0)).collect()),
        Err(e) => Err(e.to_string()),
    }
}

/// Relies on polkavm::Engine::new, which cannot fail for the default
/// configuration with the interpreter backend forced (`Config::new`,
/// `Config::set_backend`), and on polkavm::Module::new, which compiles the
/// bytes under a module configuration with synchronous gas metering and the
/// given step tracing (`ModuleConfig::new`, `set_gas_metering`,
/// `set_step_tracing`). With these fixed, the outcome depends on the bytes
/// and the flag alone.
#[verifier::external_body]
fn load_module(bytecode: &Vec<u8>, step_tracing: bool) -> (r: Result<(Engine, Module), String>)
    ensures
        r is Ok <==> blob_compiles(bytecode@, step_tracing),
{
    let mut config = Config::new();
    config.set_backend(Some(BackendKind::Interpreter));
    let engine = Engine::new(&config).map_err(|e| e.to_string())?;
    let mut module_config = ModuleConfig::new();
    module_config.set_gas_metering(Some(GasMeteringKind::Sync));
    module_config.set_step_tracing(step_tracing);
    let module = Module::new(&engine, &module_config, bytecode.clone().into()).map_err(|e| e.to_string())?;
    Ok((engine, module))
}

/// Relies on polkavm::RawInstance::set_gas: the gas that the instance has
/// left to run on.
#[verifier::external_body]
fn set_gas(instance: &mut RawInstance, gas: i64) {
    instance.set_gas(gas);
}

/// Relies on String::from_utf8: succeeds exactly on valid UTF-8, with the
/// characters that the bytes encode.
#[verifier::external_body]
fn utf8_string(bytes: Vec<u8>) -> (r: Option<String>)
    ensures
        r is Some <==> valid_utf8(bytes@),
        r matches Some(s) ==> s@ == decode_utf8(bytes@),
{
    String::from_utf8(bytes).ok()
}

/// Relies on polkavm::Module::instantiate: a fresh instance of the module.
#[verifier::external_body]
fn new_instance(module: &Module) -> (r: Result<RawInstance, String>) {
    module.instantiate().map_err(|e| e.to_string())
}

/// Relies on polkavm::Module::default_sp: the initial stack pointer.
#[verifier::external_body]
fn default_stack_pointer(module: &Module) -> (r: u64) {
    module.default_sp()
}

/// Relies on polkavm::RawInstance::set_reg: writes a register.
#[verifier::external_body]
fn set_register(instance: &mut RawInstance, reg: Register, value: u64) {
    let reg = match reg {
        Register::ReturnAddress => Reg::RA,
        Register::StackPointer => Reg::SP,
    };
    instance.set_reg(reg, value);
}

/// Relies on polkavm::RawInstance::set_next_program_counter: where the next
/// run starts.
#[verifier::external_body]
fn set_next_pc(instance: &mut RawInstance, pc: u32) {
    instance.set_next_program_counter(ProgramCounter(pc));
}

/// Relies on polkavm::RawInstance::run: starts or resumes execution until
/// the machine interrupts it.
#[verifier::external_body]
fn run_instance(instance: &mut RawInstance) -> (r: Result<Interrupt, String>) {
    match instance.run() {
        Ok(polkavm::InterruptKind::Finished) => Ok(Interrupt::Finished),
        Ok(polkavm::InterruptKind::Trap) => Ok(Interrupt::Trap),
        Ok(polkavm::InterruptKind::Ecalli(n)) => Ok(Interrupt::Ecalli(n)),
        Ok(polkavm::InterruptKind::Segfault(_)) => Ok(Interrupt::Segfault),
        Ok(polkavm::InterruptKind::NotEnoughGas) => Ok(Interrupt::NotEnoughGas),
        Ok(polkavm::InterruptKind::Step) => Ok(Interrupt::Step),
        Err(e) => Err(e.to_string()),
    }
}

/// Relies on polkavm::RawInstance::program_counter: the instruction that the
/// last run stopped at, if any.
#[verifier::external_body]
fn current_pc(instance: &RawInstance) -> (r: Option<u32>) {
    instance.program_counter().map(|pc| pc.0)
}

/// Relies on polkavm::RETURN_TO_HOST: the address whose jump ends a run.
#[verifier::external_body]
fn return_to_host() -> (r: u64) {
    polkavm::RETURN_TO_HOST
}

/// The most instructions that one `continue` executes before it reports
/// back.
pub const STEP_LIMIT: u64 = 1000000;

/// The gas that a fresh run of the program starts with.
pub const GAS_LIMIT: i64 = 100000000;

/// The exports as byte strings.
pub open spec fn byte_views(listed: Seq<(Vec<u8>, u32)>) -> Seq<(Seq<u8>, u32)> {
    listed.map_values(|p: (Vec<u8>, u32)| (p.0@, p.1))
}

/// The exports as texts.
pub open spec fn text_views(list: Seq<(String, u32)>) -> Seq<(Seq<char>, u32)> {
    list.map_values(|p: (String, u32)| (p.0@, p.1))
}

/// Whether each exported symbol is valid UTF-8.
pub open spec fn all_utf8(e: Seq<(Seq<u8>, u32)>) -> bool {
    forall|i: int| 0 <= i < e.len() ==> valid_utf8(#[trigger] e[i].0)
}

/// The exports with their symbols decoded as text.
pub open spec fn decoded(e: Seq<(Seq<u8>, u32)>) -> Seq<(Seq<char>, u32)> {
    e.map_values(|p: (Seq<u8>, u32)| (decode_utf8(p.0), p.1))
}

/// Where a run stops, given the interrupt it reported, the program counter
/// it is at and the target: at any interrupt but a step, and at a step that
/// reaches the target. `None` means run on.
pub open spec fn stop_spec(kind: Interrupt, pc: Option<u32>, target: Option<u32>) -> Option<Interrupt> {
    if kind != Interrupt::Step {
        Some(kind)
    } else if target is Some && pc == target {
        Some(kind)
    } else {
        None
    }
}

/// Decides whether a run stops after the machine reported `kind` at `pc`.
pub fn stop_on(kind: Interrupt, pc: Option<u32>, target: Option<u32>) -> (r: Option<Interrupt>)
    ensures
        r == stop_spec(kind, pc, target),
{
    if kind != Interrupt::Step {
        return Some(kind);
    }
    match (pc, target) {
        (Some(p), Some(t)) => if p == t {
            Some(kind)
        } else {
            None
        },
        _ => None,
    }
}

/// Decodes the exported symbols as text; `None` if one is not UTF-8.
pub fn decode_exports(listed: Vec<(Vec<u8>, u32)>) -> (r: Option<Vec<(String, u32)>>)
    ensures
        r is Some <==> all_utf8(byte_views(listed@)),
        r matches Some(v) ==> text_views(v@) == decoded(
            byte_views(listed@),
        ),
{
    let ghost bytes = byte_views(listed@);
    let ghost n = listed@.len();
    let mut rest = listed;
    let mut out: Vec<(String, u32)> = Vec::new();
    let ghost mut i: int = 0;
    while rest.len() > 0
        invariant
            0 <= i <= n,
            n == bytes.len(),
            bytes == byte_views(listed@),
            rest@.len() == n - i,
            forall|j: int| 0 <= j < rest@.len() ==> ((#[trigger] rest@[j]).0@, rest@[j].1) == bytes[i + j],
            out@.len() == i,
            forall|j: int| 0 <= j < i ==> valid_utf8(#[trigger] bytes[j].0),
            forall|j: int| 0 <= j < i ==> ((#[trigger] out@[j]).0@, out@[j].1) == decoded(bytes)[j],
        decreases rest@.len(),
    {
        let ghost before = rest@;
        let (name, pc) = rest.remove(0);
        proof {
            assert((before[0].0@, before[0].1) == bytes[i + 0]);
            assert forall|j: int| 0 <= j < rest@.len() implies ((#[trigger] rest@[j]).0@, rest@[j].1) == bytes[i + 1
                + j] by {
                assert(rest@[j] == before[j + 1]);
            }
        }
        match utf8_string(name) {
            Some(text) => {
                out.push((text, pc));
                proof {
                    i = i + 1;
                }
            },
            None => {
                proof {
                    assert(!valid_utf8(bytes[i].0));
                    assert(!all_utf8(bytes));
                }
                return None;
            },
        }
    }
    proof {
        assert(text_views(out@) =~= decoded(bytes));
    }
    Some(out)
}


/// The value of a digit in the given radix (10 or 16).
pub open spec fn digit_value(c: char, radix: nat) -> Option<nat> {
    if '0' <= c <= '9' {
        Some(((c as nat) - 48) as nat)
    } else if radix == 16 && 'a' <= c <= 'f' {
        Some(((c as nat) - 87) as nat)
    } else if radix == 16 && 'A' <= c <= 'F' {
        Some(((c as nat) - 55) as nat)
    } else {
        None
    }
}

/// The number that the digits `s` write in `radix`, if they all are digits.
pub open spec fn digits_value(s: Seq<char>, radix: nat) -> Option<nat>
    decreases s.len(),
{
    if s.len() == 0 {
        Some(0)
    } else {
        match (digits_value(s.drop_last(), radix), digit_value(s.last(), radix)) {
            (Some(v), Some(d)) => Some(v * radix + d),
            _ => None,
        }
    }
}

/// The program counter that an address token names: `0x` and hex digits,
/// or decimal digits, with a value that fits in 32 bits.
pub open spec fn pc_of(s: Seq<char>) -> Option<u32> {
    let hex = s.len() > 2 && s[0] == '0' && (s[1] == 'x' || s[1] == 'X');
    let v = if hex {
        digits_value(s.subrange(2, s.len() as int), 16)
    } else if s.len() > 0 {
        digits_value(s, 10)
    } else {
        None
    };
    match v {
        Some(n) => if n <= u32::MAX {
            Some(n as u32)
        } else {
            None
        },
        None => None,
    }
}

proof fn lemma_digits_value_grows(s: Seq<char>, radix: nat, k: int)
    requires
        radix >= 1,
        0 <= k <= s.len(),
        digits_value(s, radix) is Some,
    ensures
        digits_value(s.subrange(0, k), radix) is Some,
        digits_value(s.subrange(0, k), radix)->0 <= digits_value(s, radix)->0,
    decreases s.len() - k,
{
    if k == s.len() {
        assert(s.subrange(0, k) =~= s);
    } else {
        lemma_digits_value_grows(s, radix, k + 1);
        let t = s.subrange(0, k + 1);
        assert(t.drop_last() =~= s.subrange(0, k));
        let v = digits_value(t.drop_last(), radix)->0;
        let d = digit_value(t.last(), radix)->0;
        assert(v <= v * radix + d) by (nonlinear_arith)
            requires radix >= 1;
    }
}

/// Reads the program counter that `s` names, if any.
pub fn parse_program_counter(s: &str) -> (r: Option<u32>)
    ensures
        r == pc_of(s@),
{
    let n = s.unicode_len();
    let hex = n > 2 && s.get_char(0) == '0' && (s.get_char(1) == 'x' || s.get_char(1) == 'X');
    if !hex && n == 0 {
        return None;
    }
    let start: usize = if hex { 2 } else { 0 };
    let radix: u64 = if hex { 16 } else { 10 };
    let ghost digits = s@.subrange(start as int, n as int);
    assert(!hex ==> digits =~= s@);
    let mut acc: u64 = 0;
    let mut i: usize = start;
    assert(digits.subrange(0, 0) =~= Seq::<char>::empty());
    while i < n
        invariant
            n == s@.len(),
            start <= i <= n,
            digits == s@.subrange(start as int, n as int),
            radix == (if hex { 16u64 } else { 10u64 }),
            start == (if hex { 2usize } else { 0usize }),
            !hex ==> digits == s@,
            hex ==> n > 2 && s@[0] == '0' && (s@[1] == 'x' || s@[1] == 'X'),
            !hex ==> !(n > 2 && s@[0] == '0' && (s@[1] == 'x' || s@[1] == 'X')) && n > 0,
            acc <= u32::MAX,
            digits_value(digits.subrange(0, i - start), radix as nat) == Some(acc as nat),
        decreases n - i,
    {
        let c = s.get_char(i);
        let ghost prev = digits.subrange(0, i - start);
        assert(digits.subrange(0, i + 1 - start).drop_last() =~= prev);
        assert(digits.subrange(0, i + 1 - start).last() == c);
        let d: u64 = if '0' <= c && c <= '9' {
            (c as u64) - 48
        } else if hex && 'a' <= c && c <= 'f' {
            (c as u64) - 87
        } else if hex && 'A' <= c && c <= 'F' {
            (c as u64) - 55
        } else {
            proof {
                assert(digits_value(digits.subrange(0, i + 1 - start), radix as nat) is None);
                if digits_value(digits, radix as nat) is Some {
                    lemma_digits_value_grows(digits, radix as nat, i + 1 - start);
                }
                if hex {
                    assert(digits == s@.subrange(2, s@.len() as int));
                }
                assert(pc_of(s@) is None);
            }
            return None;
        };
        assert(acc * radix + d <= 16 * 0xffff_ffffu64 + 15) by (nonlinear_arith)
            requires acc <= 0xffff_ffffu64, radix <= 16, d <= 15;
        let next = acc * radix + d;
        assert(digit_value(c, radix as nat) == Some(d as nat));
        assert(digits_value(digits.subrange(0, i + 1 - start), radix as nat) == Some(next as nat));
        if next > 0xffff_ffffu64 {
            proof {
                if digits_value(digits, radix as nat) is Some {
                    lemma_digits_value_grows(digits, radix as nat, i + 1 - start);
                }
                if hex {
                    assert(digits == s@.subrange(2, s@.len() as int));
                }
                assert(pc_of(s@) is None);
            }
            return None;
        }
        acc = next;
        i = i + 1;
    }
    assert(digits.subrange(0, n - start) =~= digits);
    Some(acc as u32)
}

/// A program loaded into the virtual machine, with the instance that the
/// debugger runs, once it has started.
pub struct Sandbox {
    bytecode: Vec<u8>,
    engine: Engine,
    module: Module,
    programs: Vec<(String, u32)>,
    instance: Option<RawInstance>,
}

impl Sandbox {
    /// Whether execution has started.
    pub closed spec fn started(&self) -> bool {
        self.instance is Some
    }

    /// The exported entry points, by name, with their program counters.
    pub closed spec fn exported(&self) -> Seq<(Seq<char>, u32)> {
        text_views(self.programs@)
    }

    /// The bytes of the program.
    pub closed spec fn bytecode(&self) -> Seq<u8> {
        self.bytecode@
    }

    /// Loads a program from its bytes: parses the blob, decodes the names of
    /// its exports, and compiles it for an interpreting engine with gas
    /// metering.
    pub fn from_bytecode(bytecode: Vec<u8>) -> (r: Result<Self, SandboxError>)
        ensures
            !blob_parses(bytecode@) ==> (r matches Err(e) && e is Vm),
            blob_parses(bytecode@) && !all_utf8(blob_exports(bytecode@)) ==> (r matches Err(e) && e is Vm),
            blob_parses(bytecode@) && all_utf8(blob_exports(bytecode@)) ==> (r is Ok <==> blob_compiles(
                bytecode@,
                false,
            )),
            r matches Ok(s) ==> {
                &&& blob_parses(bytecode@)
                &&& all_utf8(blob_exports(bytecode@))
                &&& s.exported() == decoded(blob_exports(bytecode@))
                &&& s.bytecode() == bytecode@
                &&& !s.started()
            },
            r matches Err(e) ==> e is Vm,
    {
        let ghost bytes = bytecode@;
        let listed = match parse_exports(&bytecode) {
            Ok(listed) => listed,
            Err(m) => {
                return Err(SandboxError::Vm(text("Failed to parse program blob: ").concat(m.as_str())));
            },
        };
        proof {
            assert(byte_views(listed@) =~= blob_exports(bytes));
        }
        let programs = match decode_exports(listed) {
            Some(p) => p,
            None => {
                return Err(SandboxError::Vm(text("An exported symbol is not UTF-8")));
            },
        };
        let (engine, module) = match load_module(&bytecode, false) {
            Ok(loaded) => loaded,
            Err(m) => {
                return Err(SandboxError::Vm(m));
            },
        };
        Ok(Sandbox { bytecode, engine, module, programs, instance: None })
    }

    /// Recompiles the module so that each run stops after one instruction.
    /// Execution starts afresh. It succeeds exactly when the program
    /// compiles with step tracing.
    pub fn enable_step_tracing(&mut self) -> (r: Result<(), SandboxError>)
        ensures
            r is Ok <==> blob_compiles(old(self).bytecode(), true),
            r matches Err(e) ==> e is Vm,
            !final(self).started(),
            final(self).exported() == old(self).exported(),
            final(self).bytecode() == old(self).bytecode(),
    {
        self.instance = None;
        match load_module(&self.bytecode, true) {
            Ok((engine, module)) => {
                self.engine = engine;
                self.module = module;
                Ok(())
            },
            Err(m) => Err(SandboxError::Vm(m)),
        }
    }

    /// A fresh instance, with the return address and stack pointer set.
    pub fn instantiate(&self) -> (r: Result<RawInstance, SandboxError>)
        ensures
            r matches Err(e) ==> e is Vm,
    {
        let mut instance = match new_instance(&self.module) {
            Ok(i) => i,
            Err(m) => {
                return Err(SandboxError::Vm(m));
            },
        };
        set_register(&mut instance, Register::ReturnAddress, return_to_host());
        set_register(&mut instance, Register::StackPointer, default_stack_pointer(&self.module));
        Ok(instance)
    }

    /// The exported entry points, by name, with their program counters.
    pub fn selectors(&self) -> (r: Vec<(String, u32)>)
        ensures
            r@.len() == self.exported().len(),
            forall|j: int| 0 <= j < r@.len() ==> (r@[j].0@, r@[j].1) == #[trigger] self.exported()[j],
    {
        let list = &self.programs;
        let mut r: Vec<(String, u32)> = Vec::new();
        let mut i: usize = 0;
        while i < list.len()
            invariant
                i <= list@.len(),
                r@.len() == i,
                forall|j: int| 0 <= j < i ==> r@[j].0@ == #[trigger] list@[j].0@ && r@[j].1 == list@[j].1,
            decreases list@.len() - i,
        {
            let (name, pc) = &list[i];
            r.push((name.clone(), *pc));
            i = i + 1;
        }
        r
    }

    /// The running instance, taken out of the sandbox: the one that has
    /// started, or a fresh one at the first export with a full tank of gas.
    /// A program without exports has nowhere to start.
    fn take_instance(&mut self) -> (r: Result<RawInstance, SandboxError>)
        ensures
            old(self).started() || old(self).exported().len() > 0 ==> (r matches Err(e) ==> e is Vm),
            !old(self).started() && old(self).exported().len() == 0 ==> r == Err::<RawInstance, SandboxError>(
                SandboxError::NoEntryPoint,
            ),
            final(self).exported() == old(self).exported(),
            final(self).bytecode() == old(self).bytecode(),
            !final(self).started(),
    {
        if let Some(instance) = self.instance.take() {
            return Ok(instance);
        }
        if self.programs.len() == 0 {
            return Err(SandboxError::NoEntryPoint);
        }
        let mut instance = self.instantiate()?;
        set_next_pc(&mut instance, self.programs[0].1);
        set_gas(&mut instance, GAS_LIMIT);
        Ok(instance)
    }

    /// Runs until the machine stops for another reason than a step, until it
    /// stops at the program counter that `until` names (see `stop_on`), or
    /// for at most `STEP_LIMIT` steps. A program without exports that has
    /// not started cannot run; every other error comes from the machine.
    pub fn execute_until(&mut self, until: &str) -> (r: Result<Interrupt, SandboxError>)
        ensures
            r is Ok ==> final(self).started(),
            !old(self).started() && old(self).exported().len() == 0 ==> r == Err::<Interrupt, SandboxError>(
                SandboxError::NoEntryPoint,
            ),
            old(self).started() || old(self).exported().len() > 0 ==> (r matches Err(e) ==> e is Vm),
            final(self).exported() == old(self).exported(),
            final(self).bytecode() == old(self).bytecode(),
    {
        let target = parse_program_counter(until);
        let mut instance = self.take_instance()?;
        let mut steps: u64 = 0;
        while steps < STEP_LIMIT
            invariant
                self.exported() == old(self).exported(),
                self.bytecode() == old(self).bytecode(),
                old(self).started() || old(self).exported().len() > 0,
            decreases STEP_LIMIT - steps,
        {
            let kind = match run_instance(&mut instance) {
                Ok(k) => k,
                Err(m) => {
                    self.instance = Some(instance);
                    return Err(SandboxError::Vm(m));
                },
            };
            if let Some(stop) = stop_on(kind, current_pc(&instance), target) {
                self.instance = Some(instance);
                return Ok(stop);
            }
            steps = steps + 1;
        }
        self.instance = Some(instance);
        Ok(Interrupt::Step)
    }

    /// Runs one step of execution. A program without exports that has not
    /// started cannot run; every other error comes from the machine.
    pub fn step(&mut self) -> (r: Result<Interrupt, SandboxError>)
        ensures
            r is Ok ==> final(self).started(),
            !old(self).started() && old(self).exported().len() == 0 ==> r == Err::<Interrupt, SandboxError>(
                SandboxError::NoEntryPoint,
            ),
            old(self).started() || old(self).exported().len() > 0 ==> (r matches Err(e) ==> e is Vm),
            final(self).exported() == old(self).exported(),
            final(self).bytecode() == old(self).bytecode(),
    {
        let mut instance = self.take_instance()?;
        let r = match run_instance(&mut instance) {
            Ok(k) => Ok(k),
            Err(m) => Err(SandboxError::Vm(m)),
        };
        self.instance = Some(instance);
        r
    }
}

} // verus!
