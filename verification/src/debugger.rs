//! The debugger's decisions: what a key press does to the machine and to
//! the session, how many steps a frame runs, and how the machine's serial
//! output reaches the terminal. Drawing and reading keys are left to the
//! program around the library.

use crate::cpu::Cpu;
use crate::machine::{CpuState, step_faults, step_spec, with_pc};
use crate::terminal::{TerminalEmulator, TerminalState, blank_terminal, putchar_spec};
use std::collections::VecDeque;
use vstd::prelude::*;

verus! {

/// Instructions that a frame runs unless the user changes the speed.
pub const DEFAULT_CYCLES_PER_FRAME: usize = 50000;

/// Bytes of serial output that reach the terminal in one frame.
pub const OUTPUT_CHARS_PER_FRAME: usize = 120;

/// Whether the machine is being run.
#[derive(Clone, Copy, Debug, PartialEq, Eq, Structural)]
pub enum RunState {
    Paused,
    Running,
    Halted,
}

/// The key of a key press.
#[derive(Clone, Copy, Debug, PartialEq, Eq, Structural)]
pub enum KeyCode {
    /// A function key, by its number.
    F(u8),
    Char(char),
    Enter,
    Backspace,
    Esc,
    Up,
    Down,
    Left,
    Right,
    PageUp,
    PageDown,
    /// Any key the debugger has no use for.
    Other,
}

/// A key press with its modifiers.
#[derive(Clone, Copy, Debug, PartialEq, Eq, Structural)]
pub struct KeyPress {
    pub code: KeyCode,
    pub alt: bool,
    pub control: bool,
}

/// What a key press asks of the program around the debugger.
#[derive(Clone, Copy, Debug, PartialEq, Eq, Structural)]
pub struct KeyOutcome {
    /// Whether the session goes on; `false` after the quit key.
    pub keep_running: bool,
    /// Whether the display has to be cleared before the next frame.
    pub needs_clear: bool,
}

/// A debugging session.
pub struct Debugger {
    pub run_state: RunState,
    pub cycles_per_frame: usize,
    pub memory_view_addr: u16,
    pub terminal: TerminalEmulator,
    pub output_buffer: VecDeque<u8>,
    pub start_pc: u16,
}

/// Model of a [`Debugger`].
pub struct DebuggerState {
    pub run_state: RunState,
    pub cycles_per_frame: usize,
    pub memory_view_addr: u16,
    pub terminal: TerminalState,
    /// Serial output that has not reached the terminal yet.
    pub output: Seq<u8>,
    pub start_pc: u16,
}

impl View for Debugger {
    type V = DebuggerState;

    open spec fn view(&self) -> DebuggerState {
        DebuggerState {
            run_state: self.run_state,
            cycles_per_frame: self.cycles_per_frame,
            memory_view_addr: self.memory_view_addr,
            terminal: self.terminal@,
            output: self.output_buffer@,
            start_pc: self.start_pc,
        }
    }
}

/// The session and the machine together.
pub struct Session {
    pub debugger: DebuggerState,
    pub cpu: CpuState,
}

/// The terminal after the first `n` of `bytes` have been fed to it.
pub open spec fn fed(t: TerminalState, bytes: Seq<u8>, n: int) -> TerminalState
    decreases n,
{
    if n <= 0 {
        t
    } else {
        putchar_spec(fed(t, bytes, n - 1), bytes[n - 1])
    }
}

/// The session after a frame's share of the pending output, at most 120
/// bytes, has reached the terminal.
pub open spec fn flushed(d: DebuggerState) -> DebuggerState {
    let n = if d.output.len() < 120 {
        d.output.len() as int
    } else {
        120
    };
    DebuggerState {
        terminal: fed(d.terminal, d.output, n),
        output: d.output.subrange(n, d.output.len() as int),
        ..d
    }
}

/// The session after the machine's serial output has been moved to the
/// pending output.
pub open spec fn collected(s: Session) -> Session {
    Session {
        debugger: DebuggerState { output: s.debugger.output + s.cpu.serial_out, ..s.debugger },
        cpu: CpuState { serial_out: Seq::empty(), ..s.cpu },
    }
}

/// The session after the machine has taken one step for the debugger: the
/// output of a step that leaves the machine running is collected, and a
/// step that halts or fails marks the session halted.
#[verifier::opaque]
pub open spec fn stepped(s: Session) -> Session {
    let after = Session { cpu: step_spec(s.cpu), ..s };
    if step_faults(s.cpu) || after.cpu.halted {
        Session { debugger: DebuggerState { run_state: RunState::Halted, ..s.debugger }, ..after }
    } else {
        collected(after)
    }
}

/// The session after up to `n` steps of a frame: the steps end early when
/// the session is marked halted.
pub open spec fn run_steps(s: Session, n: nat) -> Session
    decreases n,
{
    if n == 0 {
        s
    } else {
        let t = stepped(s);
        if t.debugger.run_state == RunState::Halted {
            t
        } else {
            run_steps(t, (n - 1) as nat)
        }
    }
}

/// The session after one frame: a running session whose machine has not
/// halted takes `cycles_per_frame` steps.
pub open spec fn frame_spec(s: Session) -> Session {
    if s.debugger.run_state == RunState::Running && !s.cpu.halted {
        run_steps(s, s.debugger.cycles_per_frame as nat)
    } else {
        s
    }
}

/// The session after the bytes of a key have been queued for the serial
/// port, which happens only while the session is running.
pub open spec fn typed(s: Session, bytes: Seq<u8>) -> Session {
    if s.debugger.run_state == RunState::Running {
        Session { cpu: CpuState { serial_in: s.cpu.serial_in + bytes, ..s.cpu }, ..s }
    } else {
        s
    }
}

/// The byte that a character key sends: the low byte of the character, or
/// with the control key its control code.
pub open spec fn key_byte(c: char, control: bool) -> u8 {
    if control {
        (((c as u8) as int - 96) % 256) as u8
    } else {
        c as u8
    }
}

/// A speed raised by 10 000 steps a frame, up to 500 000.
pub open spec fn faster(cycles: usize) -> usize {
    if cycles + 10000 >= 500000 {
        500000
    } else {
        (cycles + 10000) as usize
    }
}

/// A speed lowered by 10 000 steps a frame, down to 1 000.
pub open spec fn slower(cycles: usize) -> usize {
    if cycles - 10000 <= 1000 {
        1000
    } else {
        (cycles - 10000) as usize
    }
}

/// The session after a key press.
///
/// F5 runs, F6 takes one step and pauses, F7 pauses, F8 resets the machine
/// to the start of the program and blanks the terminal, F9, F10, PageUp
/// and PageDown move the memory view, Alt with `=` or `-` changes the
/// speed, and F12 leaves everything as it is. Every other key that has a
/// serial code is typed to the machine.
pub open spec fn key_spec(s: Session, key: KeyPress) -> Session {
    let d = s.debugger;
    match key.code {
        KeyCode::F(n) => {
            if n == 5 {
                if s.cpu.halted {
                    s
                } else {
                    Session { debugger: DebuggerState { run_state: RunState::Running, ..d }, ..s }
                }
            } else if n == 6 {
                if s.cpu.halted {
                    s
                } else {
                    let t = stepped(s);
                    Session {
                        debugger: DebuggerState { run_state: RunState::Paused, ..t.debugger },
                        ..t
                    }
                }
            } else if n == 7 {
                Session { debugger: DebuggerState { run_state: RunState::Paused, ..d }, ..s }
            } else if n == 8 {
                Session {
                    debugger: DebuggerState {
                        run_state: RunState::Paused,
                        terminal: blank_terminal(),
                        output: Seq::empty(),
                        ..d
                    },
                    cpu: with_pc(crate::cpu::after_reset(s.cpu), d.start_pc),
                }
            } else if n == 9 {
                Session {
                    debugger: DebuggerState {
                        memory_view_addr: crate::isa::wrap16(d.memory_view_addr - 16),
                        ..d
                    },
                    ..s
                }
            } else if n == 10 {
                Session {
                    debugger: DebuggerState {
                        memory_view_addr: crate::isa::wrap16(d.memory_view_addr + 16),
                        ..d
                    },
                    ..s
                }
            } else {
                s
            }
        },
        KeyCode::PageUp => Session {
            debugger: DebuggerState {
                memory_view_addr: crate::isa::wrap16(d.memory_view_addr - 256),
                ..d
            },
            ..s
        },
        KeyCode::PageDown => Session {
            debugger: DebuggerState {
                memory_view_addr: crate::isa::wrap16(d.memory_view_addr + 256),
                ..d
            },
            ..s
        },
        KeyCode::Char(c) => {
            if c == '=' && key.alt {
                Session {
                    debugger: DebuggerState { cycles_per_frame: faster(d.cycles_per_frame), ..d },
                    ..s
                }
            } else if c == '-' && key.alt {
                Session {
                    debugger: DebuggerState { cycles_per_frame: slower(d.cycles_per_frame), ..d },
                    ..s
                }
            } else {
                typed(s, seq![key_byte(c, key.control)])
            }
        },
        KeyCode::Enter => typed(s, seq![0x0Du8]),
        KeyCode::Backspace => typed(s, seq![0x08u8]),
        KeyCode::Esc => typed(s, seq![0x1Bu8]),
        KeyCode::Up => typed(s, seq![0x1Bu8, 0x5Bu8, 0x41u8]),
        KeyCode::Down => typed(s, seq![0x1Bu8, 0x5Bu8, 0x42u8]),
        KeyCode::Right => typed(s, seq![0x1Bu8, 0x5Bu8, 0x43u8]),
        KeyCode::Left => typed(s, seq![0x1Bu8, 0x5Bu8, 0x44u8]),
        KeyCode::Other => s,
    }
}

/// What a key press asks of the program: F12 ends the session, and F8
/// asks for the display to be cleared.
pub open spec fn key_outcome(key: KeyPress) -> KeyOutcome {
    KeyOutcome {
        keep_running: key.code != KeyCode::F(12),
        needs_clear: key.code == KeyCode::F(8),
    }
}

impl Debugger {
    /// A paused session for a program that starts at `start_pc`.
    pub fn new(start_pc: u16) -> (d: Debugger)
        ensures
            d@ == (DebuggerState {
                run_state: RunState::Paused,
                cycles_per_frame: 50000,
                memory_view_addr: 0x0100,
                terminal: blank_terminal(),
                output: Seq::empty(),
                start_pc,
            }),
    {
        Debugger {
            run_state: RunState::Paused,
            cycles_per_frame: DEFAULT_CYCLES_PER_FRAME,
            memory_view_addr: 0x0100,
            terminal: TerminalEmulator::new(),
            output_buffer: VecDeque::new(),
            start_pc,
        }
    }

    /// Lets a frame's share of the pending output reach the terminal.
    pub fn flush_output(&mut self)
        ensures
            final(self)@ == flushed(old(self)@),
    {
        let mut count: usize = 0;
        let ghost all = self.output_buffer@;
        while count < OUTPUT_CHARS_PER_FRAME && self.output_buffer.len() > 0
            invariant
                count <= 120,
                count <= all.len(),
                all == old(self)@.output,
                self.output_buffer@ == all.subrange(count as int, all.len() as int),
                self.terminal@ == fed(old(self)@.terminal, all, count as int),
                self@ == (DebuggerState {
                    terminal: self@.terminal,
                    output: self@.output,
                    ..old(self)@
                }),
            decreases 120 - count,
        {
            match self.output_buffer.pop_front() {
                Some(c) => {
                    assert(c == all[count as int]);
                    self.terminal.putchar(c);
                    count += 1;
                    assert(self.output_buffer@ =~= all.subrange(count as int, all.len() as int));
                },
                None => {},
            }
        }
    }

    /// Moves the machine's serial output to the pending output.
    pub fn collect_output(&mut self, cpu: &mut Cpu)
        ensures
            (Session { debugger: final(self)@, cpu: final(cpu)@ }) == collected(
                Session { debugger: old(self)@, cpu: old(cpu)@ },
            ),
    {
        let output = cpu.get_serial_output();
        let mut i: usize = 0;
        while i < output.len()
            invariant
                i <= output.len(),
                output@ == cpu@.serial_out,
                self@ == (DebuggerState {
                    output: old(self)@.output + output@.take(i as int),
                    ..old(self)@
                }),
            decreases output.len() - i,
        {
            self.output_buffer.push_back(output[i]);
            assert(self@.output =~= old(self)@.output + output@.take(i + 1));
            i += 1;
        }
        assert(output@.take(i as int) =~= output@);
        cpu.clear_serial_output();
    }

    /// Lets the machine take one step for the debugger.
    pub fn step_machine(&mut self, cpu: &mut Cpu)
        ensures
            (Session { debugger: final(self)@, cpu: final(cpu)@ }) == stepped(
                Session { debugger: old(self)@, cpu: old(cpu)@ },
            ),
    {
        reveal(stepped);
        match cpu.step() {
            Ok(running) => {
                if running {
                    self.collect_output(cpu);
                } else {
                    self.run_state = RunState::Halted;
                }
            },
            Err(_) => {
                self.run_state = RunState::Halted;
            },
        }
    }

    /// Runs one frame: up to `cycles_per_frame` steps while the session is
    /// running.
    #[verifier::rlimit(40)]
    pub fn run_frame(&mut self, cpu: &mut Cpu)
        ensures
            (Session { debugger: final(self)@, cpu: final(cpu)@ }) == frame_spec(
                Session { debugger: old(self)@, cpu: old(cpu)@ },
            ),
    {
        if self.run_state == RunState::Running && !cpu.is_halted() {
            let mut left = self.cycles_per_frame;
            while left > 0
                invariant
                    old(self)@.run_state == RunState::Running,
                    !old(cpu)@.halted,
                    run_steps(Session { debugger: self@, cpu: cpu@ }, left as nat) == run_steps(
                        Session { debugger: old(self)@, cpu: old(cpu)@ },
                        old(self)@.cycles_per_frame as nat,
                    ),
                decreases left,
            {
                self.step_machine(cpu);
                if self.run_state == RunState::Halted {
                    return ;
                }
                left -= 1;
            }
        }
    }

    /// Queues the bytes of a key for the serial port, if the session is
    /// running.
    fn type_bytes(&self, cpu: &mut Cpu, bytes: &[u8])
        ensures
            (Session { debugger: self@, cpu: final(cpu)@ }) == typed(
                Session { debugger: self@, cpu: old(cpu)@ },
                bytes@,
            ),
    {
        if self.run_state == RunState::Running {
            let mut i: usize = 0;
            while i < bytes.len()
                invariant
                    i <= bytes.len(),
                    cpu@ == (CpuState {
                        serial_in: old(cpu)@.serial_in + bytes@.take(i as int),
                        ..old(cpu)@
                    }),
                decreases bytes.len() - i,
            {
                cpu.send_key(bytes[i]);
                assert(cpu@.serial_in =~= old(cpu)@.serial_in + bytes@.take(i + 1));
                i += 1;
            }
            assert(bytes@.take(i as int) =~= bytes@);
        }
    }

    /// Carries out a key press.
    #[verifier::rlimit(40)]
    pub fn handle_key(&mut self, cpu: &mut Cpu, key: KeyPress) -> (outcome: KeyOutcome)
        ensures
            (Session { debugger: final(self)@, cpu: final(cpu)@ }) == key_spec(
                Session { debugger: old(self)@, cpu: old(cpu)@ },
                key,
            ),
            outcome == key_outcome(key),
    {
        let mut needs_clear = false;
        let ghost start = Session { debugger: self@, cpu: cpu@ };
        match key.code {
            KeyCode::F(n) => {
                if n == 5 {
                    if !cpu.is_halted() {
                        self.run_state = RunState::Running;
                    }
                } else if n == 6 {
                    if !cpu.is_halted() {
                        self.step_machine(cpu);
                        self.run_state = RunState::Paused;
                    }
                } else if n == 7 {
                    self.run_state = RunState::Paused;
                } else if n == 8 {
                    cpu.reset();
                    cpu.set_pc(self.start_pc);
                    self.run_state = RunState::Paused;
                    self.terminal = TerminalEmulator::new();
                    self.output_buffer.clear();
                    needs_clear = true;
                } else if n == 9 {
                    self.memory_view_addr = self.memory_view_addr.wrapping_sub(16);
                } else if n == 10 {
                    self.memory_view_addr = self.memory_view_addr.wrapping_add(16);
                } else if n == 12 {
                    return KeyOutcome { keep_running: false, needs_clear: false };
                }
            },
            KeyCode::PageUp => {
                self.memory_view_addr = self.memory_view_addr.wrapping_sub(256);
            },
            KeyCode::PageDown => {
                self.memory_view_addr = self.memory_view_addr.wrapping_add(256);
            },
            KeyCode::Char(c) => {
                if c == '=' && key.alt {
                    let raised = self.cycles_per_frame.saturating_add(10000);
                    self.cycles_per_frame = if raised >= 500000 {
                        500000
                    } else {
                        raised
                    };
                } else if c == '-' && key.alt {
                    let lowered = self.cycles_per_frame.saturating_sub(10000);
                    self.cycles_per_frame = if lowered <= 1000 {
                        1000
                    } else {
                        lowered
                    };
                } else {
                    let byte = if key.control {
                        (c as u8).wrapping_sub(96)
                    } else {
                        c as u8
                    };
                    let bytes: [u8; 1] = [byte];
                    assert(bytes@ =~= seq![byte]);
                    self.type_bytes(cpu, &bytes);
                }
            },
            KeyCode::Enter => {
                let bytes: [u8; 1] = [0x0D];
                assert(bytes@ =~= seq![0x0Du8]);
                self.type_bytes(cpu, &bytes);
            },
            KeyCode::Backspace => {
                let bytes: [u8; 1] = [0x08];
                assert(bytes@ =~= seq![0x08u8]);
                self.type_bytes(cpu, &bytes);
            },
            KeyCode::Esc => {
                let bytes: [u8; 1] = [0x1B];
                assert(bytes@ =~= seq![0x1Bu8]);
                self.type_bytes(cpu, &bytes);
            },
            KeyCode::Up => {
                let bytes: [u8; 3] = [0x1B, 0x5B, 0x41];
                assert(bytes@ =~= seq![0x1Bu8, 0x5Bu8, 0x41u8]);
                self.type_bytes(cpu, &bytes);
            },
            KeyCode::Down => {
                let bytes: [u8; 3] = [0x1B, 0x5B, 0x42];
                assert(bytes@ =~= seq![0x1Bu8, 0x5Bu8, 0x42u8]);
                self.type_bytes(cpu, &bytes);
            },
            KeyCode::Right => {
                let bytes: [u8; 3] = [0x1B, 0x5B, 0x43];
                assert(bytes@ =~= seq![0x1Bu8, 0x5Bu8, 0x43u8]);
                self.type_bytes(cpu, &bytes);
            },
            KeyCode::Left => {
                let bytes: [u8; 3] = [0x1B, 0x5B, 0x44];
                assert(bytes@ =~= seq![0x1Bu8, 0x5Bu8, 0x44u8]);
                self.type_bytes(cpu, &bytes);
            },
            KeyCode::Other => {},
        }
        KeyOutcome { keep_running: true, needs_clear }
    }
}

} // verus!
