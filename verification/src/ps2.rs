//! The PS/2 controller: status and configuration bits, and its
//! initialisation as a state machine.
//!
//! The controller is driven through I/O ports. Initialisation alternates port
//! accesses with decisions, so it is a machine: each call of
//! [`PS2Controller::init_step`] takes the byte that the previous action read
//! (or 0 when it read nothing) and returns the next action to perform.

pub mod keyboard;

use vstd::prelude::*;

verus! {

/// Data port: bytes to and from the devices and controller answers.
pub const DATA_PORT: u16 = 0x60;

/// Status register (read) port.
pub const STATUS_PORT: u16 = 0x64;

/// Command register (write) port.
pub const COMMAND_PORT: u16 = 0x64;

/// Status bit: the output buffer holds a byte for the CPU.
pub const STATUS_OUTPUT_FULL: u8 = 0x01;

/// Status bit: the input buffer holds a byte the controller has not taken.
pub const STATUS_INPUT_FULL: u8 = 0x02;

/// Configuration bit: first port interrupt enabled.
pub const CONFIG_PORT1_IRQ: u8 = 0x01;

/// Configuration bit: second port interrupt enabled.
pub const CONFIG_PORT2_IRQ: u8 = 0x02;

/// Configuration bit: system passed POST.
pub const CONFIG_SYS_FLAG: u8 = 0x04;

/// Configuration bit: first port clock disabled.
pub const CONFIG_PORT1_CLOCK_DISABLED: u8 = 0x10;

/// Configuration bit: second port clock disabled.
pub const CONFIG_PORT2_CLOCK_DISABLED: u8 = 0x20;

/// Configuration bit: first port scancode translation.
pub const CONFIG_PORT1_TRANSLATION: u8 = 0x40;

/// All configuration bits the controller defines; bits 3 and 7 are unused.
pub const CONFIG_KNOWN: u8 = 0x77;

/// Answer of a controller that passed its self test.
pub const SELF_TEST_SUCCEEDED: u8 = 0x55;

/// Commands written to the controller's command register.
#[derive(Clone, Copy, PartialEq, Eq, Structural, Debug)]
pub enum Command {
    ReadControllerConfig,
    WriteControllerConfig,
    DisablePort2,
    EnablePort2,
    TestPort2,
    TestController,
    TestPort1,
    DisablePort1,
    EnablePort1,
}

impl Command {
    /// The byte of the command.
    pub open spec fn byte(self) -> u8 {
        match self {
            Command::ReadControllerConfig => 0x20,
            Command::WriteControllerConfig => 0x60,
            Command::DisablePort2 => 0xA7,
            Command::EnablePort2 => 0xA8,
            Command::TestPort2 => 0xA9,
            Command::TestController => 0xAA,
            Command::TestPort1 => 0xAB,
            Command::DisablePort1 => 0xAD,
            Command::EnablePort1 => 0xAE,
        }
    }

    /// The byte of the command.
    pub fn as_u8(self) -> (r: u8)
        ensures
            r == self.byte(),
    {
        match self {
            Command::ReadControllerConfig => 0x20,
            Command::WriteControllerConfig => 0x60,
            Command::DisablePort2 => 0xA7,
            Command::EnablePort2 => 0xA8,
            Command::TestPort2 => 0xA9,
            Command::TestController => 0xAA,
            Command::TestPort1 => 0xAB,
            Command::DisablePort1 => 0xAD,
            Command::EnablePort1 => 0xAE,
        }
    }
}

/// Whether the input buffer is still full, so that a write must wait.
pub fn input_buffer_full(status: u8) -> (r: bool)
    ensures
        r == (status & STATUS_INPUT_FULL != 0),
{
    status & STATUS_INPUT_FULL != 0
}

/// Whether the output buffer holds a byte, so that a read may proceed.
pub fn output_buffer_full(status: u8) -> (r: bool)
    ensures
        r == (status & STATUS_OUTPUT_FULL != 0),
{
    status & STATUS_OUTPUT_FULL != 0
}

/// The configuration written before the self test: the defined bits of the
/// configuration read, with the first port's interrupt, clock-disable and
/// translation bits cleared.
pub fn port1_config(config: u8) -> (r: u8)
    ensures
        r == (config & CONFIG_KNOWN) & !(CONFIG_PORT1_IRQ | CONFIG_PORT1_CLOCK_DISABLED
            | CONFIG_PORT1_TRANSLATION),
{
    (config & CONFIG_KNOWN) & !(CONFIG_PORT1_IRQ | CONFIG_PORT1_CLOCK_DISABLED
        | CONFIG_PORT1_TRANSLATION)
}

/// The configuration written when enabling the first port with its
/// interrupt: the configuration read, with the first port's interrupt bit set.
pub fn port1_irq_config(config: u8) -> (r: u8)
    ensures
        r == config | CONFIG_PORT1_IRQ,
{
    config | CONFIG_PORT1_IRQ
}

/// Whether a second port exists: its clock stays enabled after the port was
/// enabled.
pub open spec fn has_port2(config: u8) -> bool {
    config & CONFIG_PORT2_CLOCK_DISABLED == 0
}

/// The configuration written after probing for a second port: the defined
/// bits of the configuration read, with the second port's interrupt bit
/// cleared when that port exists.
pub open spec fn port2_config_spec(config: u8) -> u8 {
    if has_port2(config) {
        (config & CONFIG_KNOWN) & !CONFIG_PORT2_IRQ
    } else {
        config & CONFIG_KNOWN
    }
}

/// What a port test answered.
#[derive(Clone, Copy, PartialEq, Eq, Structural, Debug)]
pub enum PortTestOutcome {
    Passed,
    ClockStuckLow,
    ClockStuckHigh,
    DataStuckLow,
    DataStuckHigh,
    Unknown(u8),
}

/// The outcome that a port test answer stands for.
pub open spec fn port_test_outcome_spec(answer: u8) -> PortTestOutcome {
    if answer == 0 {
        PortTestOutcome::Passed
    } else if answer == 1 {
        PortTestOutcome::ClockStuckLow
    } else if answer == 2 {
        PortTestOutcome::ClockStuckHigh
    } else if answer == 3 {
        PortTestOutcome::DataStuckLow
    } else if answer == 4 {
        PortTestOutcome::DataStuckHigh
    } else {
        PortTestOutcome::Unknown(answer)
    }
}

/// The outcome that a port test answer stands for.
pub fn port_test_outcome(answer: u8) -> (r: PortTestOutcome)
    ensures
        r == port_test_outcome_spec(answer),
        r == PortTestOutcome::Passed <==> answer == 0,
{
    match answer {
        0x00 => PortTestOutcome::Passed,
        0x01 => PortTestOutcome::ClockStuckLow,
        0x02 => PortTestOutcome::ClockStuckHigh,
        0x03 => PortTestOutcome::DataStuckLow,
        0x04 => PortTestOutcome::DataStuckHigh,
        r => PortTestOutcome::Unknown(r),
    }
}

/// One action of the initialisation, for the caller to perform.
#[derive(Clone, Copy, PartialEq, Eq, Structural, Debug)]
pub enum Ps2Action {
    /// Wait until the input buffer is empty, then write the command byte.
    Command(u8),
    /// Wait, write the command byte; wait, write the data byte to the data port.
    CommandWithData(u8, u8),
    /// Read the data port at once and drop what it held.
    Flush,
    /// Wait until the output buffer is full, then read the data port and hand
    /// the byte to the next step.
    Read,
    /// Report that the controller has no second port.
    Port2Missing,
    /// Report the outcome of the test of port 1 or 2.
    PortTested(u8, PortTestOutcome),
    /// The controller failed its self test with this answer; the kernel halts.
    SelfTestFailed(u8),
    /// Initialisation is over; the next step starts it again from the top.
    Done,
}

/// Where the initialisation stands.
#[derive(Clone, Copy, PartialEq, Eq, Structural, Debug)]
pub enum InitStep {
    DisablePort1,
    DisablePort2,
    Flush,
    ReadConfig,
    AwaitConfig,
    WriteConfig,
    TestController,
    AwaitSelfTest,
    CheckSelfTest,
    ReadConfig2,
    AwaitConfig2,
    ProbePort2,
    DisablePort2Again,
    WriteConfig2,
    TestPort1,
    AwaitTest1,
    ReportTest1,
    TestPort2,
    AwaitTest2,
    ReportTest2,
    Finished,
    Failed,
}

/// The state of the initialisation: the step to take, the configuration
/// byte kept between steps, and what is known of the two ports.
#[derive(Clone, Copy, PartialEq, Eq, Structural, Debug)]
pub struct InitState {
    pub step: InitStep,
    pub config: u8,
    pub port1: bool,
    pub port2: bool,
}

/// One step of the initialisation: the state after it and the action it asks
/// for, given `input`, the byte read by the previous action.
pub open spec fn init_next(s: InitState, input: u8) -> (InitState, Ps2Action) {
    match s.step {
        InitStep::DisablePort1 => (
            InitState { step: InitStep::DisablePort2, ..s },
            Ps2Action::Command(Command::DisablePort1.byte()),
        ),
        InitStep::DisablePort2 => (
            InitState { step: InitStep::Flush, ..s },
            Ps2Action::Command(Command::DisablePort2.byte()),
        ),
        InitStep::Flush => (InitState { step: InitStep::ReadConfig, ..s }, Ps2Action::Flush),
        InitStep::ReadConfig => (
            InitState { step: InitStep::AwaitConfig, ..s },
            Ps2Action::Command(Command::ReadControllerConfig.byte()),
        ),
        InitStep::AwaitConfig => (InitState { step: InitStep::WriteConfig, ..s }, Ps2Action::Read),
        InitStep::WriteConfig => (
            InitState { step: InitStep::TestController, ..s },
            Ps2Action::CommandWithData(
                Command::WriteControllerConfig.byte(),
                (input & CONFIG_KNOWN) & !(CONFIG_PORT1_IRQ | CONFIG_PORT1_CLOCK_DISABLED
                    | CONFIG_PORT1_TRANSLATION),
            ),
        ),
        InitStep::TestController => (
            InitState { step: InitStep::AwaitSelfTest, ..s },
            Ps2Action::Command(Command::TestController.byte()),
        ),
        InitStep::AwaitSelfTest => (
            InitState { step: InitStep::CheckSelfTest, ..s },
            Ps2Action::Read,
        ),
        InitStep::CheckSelfTest => if input != SELF_TEST_SUCCEEDED {
            (
                InitState { step: InitStep::Failed, config: input, ..s },
                Ps2Action::SelfTestFailed(input),
            )
        } else {
            (
                InitState { step: InitStep::ReadConfig2, ..s },
                Ps2Action::Command(Command::EnablePort2.byte()),
            )
        },
        InitStep::ReadConfig2 => (
            InitState { step: InitStep::AwaitConfig2, ..s },
            Ps2Action::Command(Command::ReadControllerConfig.byte()),
        ),
        InitStep::AwaitConfig2 => (InitState { step: InitStep::ProbePort2, ..s }, Ps2Action::Read),
        InitStep::ProbePort2 => if has_port2(input) {
            (
                InitState {
                    step: InitStep::WriteConfig2,
                    config: port2_config_spec(input),
                    port2: true,
                    ..s
                },
                Ps2Action::Command(Command::DisablePort2.byte()),
            )
        } else {
            (
                InitState {
                    step: InitStep::DisablePort2Again,
                    config: port2_config_spec(input),
                    ..s
                },
                Ps2Action::Port2Missing,
            )
        },
        InitStep::DisablePort2Again => (
            InitState { step: InitStep::WriteConfig2, ..s },
            Ps2Action::Command(Command::DisablePort2.byte()),
        ),
        InitStep::WriteConfig2 => (
            InitState { step: InitStep::TestPort1, ..s },
            Ps2Action::CommandWithData(Command::WriteControllerConfig.byte(), s.config),
        ),
        InitStep::TestPort1 => (
            InitState { step: InitStep::AwaitTest1, ..s },
            Ps2Action::Command(Command::TestPort1.byte()),
        ),
        InitStep::AwaitTest1 => (InitState { step: InitStep::ReportTest1, ..s }, Ps2Action::Read),
        InitStep::ReportTest1 => (
            InitState { step: InitStep::TestPort2, port1: input == 0, ..s },
            Ps2Action::PortTested(1, port_test_outcome_spec(input)),
        ),
        InitStep::TestPort2 => (
            InitState { step: InitStep::AwaitTest2, ..s },
            Ps2Action::Command(Command::TestPort2.byte()),
        ),
        InitStep::AwaitTest2 => (InitState { step: InitStep::ReportTest2, ..s }, Ps2Action::Read),
        InitStep::ReportTest2 => (
            InitState { step: InitStep::Finished, port2: input == 0, ..s },
            Ps2Action::PortTested(2, port_test_outcome_spec(input)),
        ),
        InitStep::Finished => (InitState { step: InitStep::DisablePort1, ..s }, Ps2Action::Done),
        InitStep::Failed => (s, Ps2Action::SelfTestFailed(s.config)),
    }
}

/// The PS/2 controller, at ports `DATA_PORT`, `STATUS_PORT` and
/// `COMMAND_PORT`: what is known of its two device ports and how far its
/// initialisation has gone.
pub struct PS2Controller {
    state: InitState,
}

impl PS2Controller {
    /// The state of the initialisation.
    pub closed spec fn init_state(&self) -> InitState {
        self.state
    }

    /// A controller with neither device port known to work and
    /// initialisation not yet begun.
    pub fn new() -> (r: Self)
        ensures
            r.init_state() == (InitState {
                step: InitStep::DisablePort1,
                config: 0,
                port1: false,
                port2: false,
            }),
    {
        PS2Controller {
            state: InitState { step: InitStep::DisablePort1, config: 0, port1: false, port2: false },
        }
    }

    /// Whether the first device port passed its test.
    pub fn port1(&self) -> (r: bool)
        ensures
            r == self.init_state().port1,
    {
        self.state.port1
    }

    /// Whether the second device port exists and passed its test.
    pub fn port2(&self) -> (r: bool)
        ensures
            r == self.init_state().port2,
    {
        self.state.port2
    }

    /// Takes one step of the initialisation. `input` is the byte read by the
    /// previous action when it was a read, and is ignored otherwise.
    pub fn init_step(&mut self, input: u8) -> (r: Ps2Action)
        ensures
            (final(self).init_state(), r) == init_next(old(self).init_state(), input),
    {
        let s = self.state;
        match s.step {
            InitStep::DisablePort1 => {
                self.state = InitState { step: InitStep::DisablePort2, ..s };
                Ps2Action::Command(Command::DisablePort1.as_u8())
            },
            InitStep::DisablePort2 => {
                self.state = InitState { step: InitStep::Flush, ..s };
                Ps2Action::Command(Command::DisablePort2.as_u8())
            },
            InitStep::Flush => {
                self.state = InitState { step: InitStep::ReadConfig, ..s };
                Ps2Action::Flush
            },
            InitStep::ReadConfig => {
                self.state = InitState { step: InitStep::AwaitConfig, ..s };
                Ps2Action::Command(Command::ReadControllerConfig.as_u8())
            },
            InitStep::AwaitConfig => {
                self.state = InitState { step: InitStep::WriteConfig, ..s };
                Ps2Action::Read
            },
            InitStep::WriteConfig => {
                self.state = InitState { step: InitStep::TestController, ..s };
                Ps2Action::CommandWithData(
                    Command::WriteControllerConfig.as_u8(),
                    port1_config(input),
                )
            },
            InitStep::TestController => {
                self.state = InitState { step: InitStep::AwaitSelfTest, ..s };
                Ps2Action::Command(Command::TestController.as_u8())
            },
            InitStep::AwaitSelfTest => {
                self.state = InitState { step: InitStep::CheckSelfTest, ..s };
                Ps2Action::Read
            },
            InitStep::CheckSelfTest => {
                if input != SELF_TEST_SUCCEEDED {
                    self.state = InitState { step: InitStep::Failed, config: input, ..s };
                    Ps2Action::SelfTestFailed(input)
                } else {
                    self.state = InitState { step: InitStep::ReadConfig2, ..s };
                    Ps2Action::Command(Command::EnablePort2.as_u8())
                }
            },
            InitStep::ReadConfig2 => {
                self.state = InitState { step: InitStep::AwaitConfig2, ..s };
                Ps2Action::Command(Command::ReadControllerConfig.as_u8())
            },
            InitStep::AwaitConfig2 => {
                self.state = InitState { step: InitStep::ProbePort2, ..s };
                Ps2Action::Read
            },
            InitStep::ProbePort2 => {
                let config = input & CONFIG_KNOWN;
                if config & CONFIG_PORT2_CLOCK_DISABLED == 0 {
                    assert(has_port2(input)) by (bit_vector)
                        requires
                            config == input & 0x77u8,
                            config & 0x20u8 == 0,
                    ;
                    self.state = InitState {
                        step: InitStep::WriteConfig2,
                        config: config & !CONFIG_PORT2_IRQ,
                        port2: true,
                        ..s
                    };
                    Ps2Action::Command(Command::DisablePort2.as_u8())
                } else {
                    assert(!has_port2(input)) by (bit_vector)
                        requires
                            config == input & 0x77u8,
                            config & 0x20u8 != 0,
                    ;
                    self.state = InitState { step: InitStep::DisablePort2Again, config, ..s };
                    Ps2Action::Port2Missing
                }
            },
            InitStep::DisablePort2Again => {
                self.state = InitState { step: InitStep::WriteConfig2, ..s };
                Ps2Action::Command(Command::DisablePort2.as_u8())
            },
            InitStep::WriteConfig2 => {
                self.state = InitState { step: InitStep::TestPort1, ..s };
                Ps2Action::CommandWithData(Command::WriteControllerConfig.as_u8(), s.config)
            },
            InitStep::TestPort1 => {
                self.state = InitState { step: InitStep::AwaitTest1, ..s };
                Ps2Action::Command(Command::TestPort1.as_u8())
            },
            InitStep::AwaitTest1 => {
                self.state = InitState { step: InitStep::ReportTest1, ..s };
                Ps2Action::Read
            },
            InitStep::ReportTest1 => {
                self.state = InitState { step: InitStep::TestPort2, port1: input == 0, ..s };
                Ps2Action::PortTested(1, port_test_outcome(input))
            },
            InitStep::TestPort2 => {
                self.state = InitState { step: InitStep::AwaitTest2, ..s };
                Ps2Action::Command(Command::TestPort2.as_u8())
            },
            InitStep::AwaitTest2 => {
                self.state = InitState { step: InitStep::ReportTest2, ..s };
                Ps2Action::Read
            },
            InitStep::ReportTest2 => {
                self.state = InitState { step: InitStep::Finished, port2: input == 0, ..s };
                Ps2Action::PortTested(2, port_test_outcome(input))
            },
            InitStep::Finished => {
                self.state = InitState { step: InitStep::DisablePort1, ..s };
                Ps2Action::Done
            },
            InitStep::Failed => Ps2Action::SelfTestFailed(s.config),
        }
    }
}

/// The states and actions of a run of the initialisation that is handed the
/// bytes of `inputs`, one per step.
pub open spec fn init_run(s: InitState, inputs: Seq<u8>) -> (InitState, Seq<Ps2Action>)
    decreases inputs.len(),
{
    if inputs.len() == 0 {
        (s, Seq::empty())
    } else {
        let (next, action) = init_next(s, inputs[0]);
        let (last, rest) = init_run(next, inputs.drop_first());
        (last, seq![action] + rest)
    }
}

/// The bytes a caller hands to the steps of a whole initialisation when the
/// configuration reads `config1`, the self test answers `self_test`, the
/// configuration read after enabling port 2 is `config2` and the port tests
/// answer `test1` and `test2`; 0 stands where the previous action read
/// nothing.
pub open spec fn init_inputs(config1: u8, self_test: u8, config2: u8, test1: u8, test2: u8) -> Seq<
    u8,
> {
    seq![0u8, 0, 0, 0, 0, config1, 0, 0, self_test, 0, 0, config2]
        + (if has_port2(config2) { Seq::empty() } else { seq![0u8] })
        + seq![0u8, 0, 0, test1, 0, 0, test2, 0]
}

/// The actions of a whole initialisation whose self test passed: disable both
/// ports, flush, rewrite the configuration with port 1's interrupt,
/// clock-disable and translation bits cleared, self test, enable port 2 and
/// reread the configuration, disable port 2 (reporting it missing when its
/// clock stayed disabled), write back the configuration, then test and
/// report port 1 and port 2.
pub open spec fn init_protocol(config1: u8, config2: u8, test1: u8, test2: u8) -> Seq<Ps2Action> {
    seq![
        Ps2Action::Command(0xAD),
        Ps2Action::Command(0xA7),
        Ps2Action::Flush,
        Ps2Action::Command(0x20),
        Ps2Action::Read,
        Ps2Action::CommandWithData(
            0x60,
            (config1 & CONFIG_KNOWN) & !(CONFIG_PORT1_IRQ | CONFIG_PORT1_CLOCK_DISABLED
                | CONFIG_PORT1_TRANSLATION),
        ),
        Ps2Action::Command(0xAA),
        Ps2Action::Read,
        Ps2Action::Command(0xA8),
        Ps2Action::Command(0x20),
        Ps2Action::Read,
    ] + (if has_port2(config2) { Seq::empty() } else { seq![Ps2Action::Port2Missing] }) + seq![
        Ps2Action::Command(0xA7),
        Ps2Action::CommandWithData(0x60, port2_config_spec(config2)),
        Ps2Action::Command(0xAB),
        Ps2Action::Read,
        Ps2Action::PortTested(1, port_test_outcome_spec(test1)),
        Ps2Action::Command(0xA9),
        Ps2Action::Read,
        Ps2Action::PortTested(2, port_test_outcome_spec(test2)),
        Ps2Action::Done,
    ]
}

/// Running on `a + b` is running on `a`, then on `b` from where `a` ended.
proof fn lemma_run_append(s: InitState, a: Seq<u8>, b: Seq<u8>)
    ensures
        init_run(s, a + b) == (
            init_run(init_run(s, a).0, b).0,
            init_run(s, a).1 + init_run(init_run(s, a).0, b).1,
        ),
    decreases a.len(),
{
    if a.len() == 0 {
        assert(a + b =~= b);
        assert(init_run(s, a).1 + init_run(s, b).1 =~= init_run(s, b).1);
    } else {
        let (next, action) = init_next(s, a[0]);
        assert((a + b).drop_first() =~= a.drop_first() + b);
        lemma_run_append(next, a.drop_first(), b);
        let r1 = init_run(next, a.drop_first());
        let r2 = init_run(r1.0, b);
        assert(seq![action] + (r1.1 + r2.1) =~= (seq![action] + r1.1) + r2.1);
    }
}

/// The first segment: disable both ports, flush, and rewrite the
/// configuration read.
proof fn lemma_init_segment1(s: InitState, config1: u8)
    requires
        s.step == InitStep::DisablePort1,
    ensures
        init_run(s, seq![0u8, 0, 0, 0, 0, config1]) == (
            InitState { step: InitStep::TestController, ..s },
            seq![
                Ps2Action::Command(0xAD),
                Ps2Action::Command(0xA7),
                Ps2Action::Flush,
                Ps2Action::Command(0x20),
                Ps2Action::Read,
                Ps2Action::CommandWithData(
                    0x60,
                    (config1 & CONFIG_KNOWN) & !(CONFIG_PORT1_IRQ | CONFIG_PORT1_CLOCK_DISABLED
                        | CONFIG_PORT1_TRANSLATION),
                ),
            ],
        ),
{
    reveal_with_fuel(init_run, 7);
    let inputs = seq![0u8, 0, 0, 0, 0, config1];
    assert(inputs.drop_first() =~= seq![0u8, 0, 0, 0, config1]);
    assert(inputs.drop_first().drop_first() =~= seq![0u8, 0, 0, config1]);
    assert(inputs.drop_first().drop_first().drop_first() =~= seq![0u8, 0, config1]);
    assert(inputs.drop_first().drop_first().drop_first().drop_first() =~= seq![0u8, config1]);
    assert(inputs.drop_first().drop_first().drop_first().drop_first().drop_first() =~= seq![
        config1,
    ]);
    assert(seq![config1].drop_first() =~= Seq::<u8>::empty());
    let t = init_run(s, inputs).1;
    assert(t =~= seq![
        Ps2Action::Command(0xAD),
        Ps2Action::Command(0xA7),
        Ps2Action::Flush,
        Ps2Action::Command(0x20),
        Ps2Action::Read,
        Ps2Action::CommandWithData(
            0x60,
            (config1 & CONFIG_KNOWN) & !(CONFIG_PORT1_IRQ | CONFIG_PORT1_CLOCK_DISABLED
                | CONFIG_PORT1_TRANSLATION),
        ),
    ]);
}

/// The second segment: the self test passes, port 2 is enabled, and the
/// configuration is read again to probe for it.
proof fn lemma_init_segment2(s: InitState, config2: u8)
    requires
        s.step == InitStep::TestController,
    ensures
        init_run(s, seq![0u8, 0, SELF_TEST_SUCCEEDED, 0, 0, config2]) == (
            InitState {
                step: if has_port2(config2) {
                    InitStep::WriteConfig2
                } else {
                    InitStep::DisablePort2Again
                },
                config: port2_config_spec(config2),
                port2: if has_port2(config2) { true } else { s.port2 },
                ..s
            },
            seq![
                Ps2Action::Command(0xAA),
                Ps2Action::Read,
                Ps2Action::Command(0xA8),
                Ps2Action::Command(0x20),
                Ps2Action::Read,
                if has_port2(config2) {
                    Ps2Action::Command(0xA7)
                } else {
                    Ps2Action::Port2Missing
                },
            ],
        ),
{
    reveal_with_fuel(init_run, 7);
    let inputs = seq![0u8, 0, SELF_TEST_SUCCEEDED, 0, 0, config2];
    assert(inputs.drop_first() =~= seq![0u8, SELF_TEST_SUCCEEDED, 0, 0, config2]);
    assert(inputs.drop_first().drop_first() =~= seq![SELF_TEST_SUCCEEDED, 0, 0, config2]);
    assert(inputs.drop_first().drop_first().drop_first() =~= seq![0u8, 0, config2]);
    assert(inputs.drop_first().drop_first().drop_first().drop_first() =~= seq![0u8, config2]);
    assert(inputs.drop_first().drop_first().drop_first().drop_first().drop_first() =~= seq![
        config2,
    ]);
    assert(seq![config2].drop_first() =~= Seq::<u8>::empty());
    let t = init_run(s, inputs).1;
    assert(t =~= seq![
        Ps2Action::Command(0xAA),
        Ps2Action::Read,
        Ps2Action::Command(0xA8),
        Ps2Action::Command(0x20),
        Ps2Action::Read,
        if has_port2(config2) {
            Ps2Action::Command(0xA7)
        } else {
            Ps2Action::Port2Missing
        },
    ]);
}

/// The step taken only when port 2 is missing: disable it anyway.
proof fn lemma_init_segment_missing(s: InitState)
    requires
        s.step == InitStep::DisablePort2Again,
    ensures
        init_run(s, seq![0u8]) == (
            InitState { step: InitStep::WriteConfig2, ..s },
            seq![Ps2Action::Command(0xA7)],
        ),
{
    reveal_with_fuel(init_run, 2);
    assert(seq![0u8].drop_first() =~= Seq::<u8>::empty());
    assert(init_run(s, seq![0u8]).1 =~= seq![Ps2Action::Command(0xA7)]);
}

/// The last segment: write back the configuration, test both ports and
/// finish.
proof fn lemma_init_segment3(s: InitState, test1: u8, test2: u8)
    requires
        s.step == InitStep::WriteConfig2,
    ensures
        init_run(s, seq![0u8, 0, 0, test1, 0, 0, test2, 0]) == (
            InitState { step: InitStep::DisablePort1, port1: test1 == 0, port2: test2 == 0, ..s },
            seq![
                Ps2Action::CommandWithData(0x60, s.config),
                Ps2Action::Command(0xAB),
                Ps2Action::Read,
                Ps2Action::PortTested(1, port_test_outcome_spec(test1)),
                Ps2Action::Command(0xA9),
                Ps2Action::Read,
                Ps2Action::PortTested(2, port_test_outcome_spec(test2)),
                Ps2Action::Done,
            ],
        ),
{
    reveal_with_fuel(init_run, 9);
    let i0 = seq![0u8, 0, 0, test1, 0, 0, test2, 0];
    let i1 = seq![0u8, 0, test1, 0, 0, test2, 0];
    let i2 = seq![0u8, test1, 0, 0, test2, 0];
    let i3 = seq![test1, 0, 0, test2, 0];
    let i4 = seq![0u8, 0, test2, 0];
    let i5 = seq![0u8, test2, 0];
    let i6 = seq![test2, 0];
    let i7 = seq![0u8];
    assert(i0.drop_first() =~= i1);
    assert(i1.drop_first() =~= i2);
    assert(i2.drop_first() =~= i3);
    assert(i3.drop_first() =~= i4);
    assert(i4.drop_first() =~= i5);
    assert(i5.drop_first() =~= i6);
    assert(i6.drop_first() =~= i7);
    assert(i7.drop_first() =~= Seq::<u8>::empty());
    assert(init_run(s, i0).1 =~= seq![
        Ps2Action::CommandWithData(0x60, s.config),
        Ps2Action::Command(0xAB),
        Ps2Action::Read,
        Ps2Action::PortTested(1, port_test_outcome_spec(test1)),
        Ps2Action::Command(0xA9),
        Ps2Action::Read,
        Ps2Action::PortTested(2, port_test_outcome_spec(test2)),
        Ps2Action::Done,
    ]);
}

/// A whole initialisation whose self test passes performs exactly
/// `init_protocol`, and ends with each device port marked working exactly
/// when its test answered 0, ready to run the whole initialisation again.
pub proof fn lemma_init_succeeds(
    port1: bool,
    port2: bool,
    config1: u8,
    config2: u8,
    test1: u8,
    test2: u8,
)
    ensures
        init_run(
            InitState { step: InitStep::DisablePort1, config: 0, port1, port2 },
            init_inputs(config1, SELF_TEST_SUCCEEDED, config2, test1, test2),
        ) == (
            InitState {
                step: InitStep::DisablePort1,
                config: port2_config_spec(config2),
                port1: test1 == 0,
                port2: test2 == 0,
            },
            init_protocol(config1, config2, test1, test2),
        ),
{
    let s0 = InitState { step: InitStep::DisablePort1, config: 0, port1, port2 };
    let a = seq![0u8, 0, 0, 0, 0, config1];
    let b = seq![0u8, 0, SELF_TEST_SUCCEEDED, 0, 0, config2];
    let c = if has_port2(config2) { Seq::<u8>::empty() } else { seq![0u8] };
    let d = seq![0u8, 0, 0, test1, 0, 0, test2, 0];
    assert(init_inputs(config1, SELF_TEST_SUCCEEDED, config2, test1, test2) =~= a + (b + (c + d)));
    lemma_init_segment1(s0, config1);
    let s1 = init_run(s0, a).0;
    lemma_init_segment2(s1, config2);
    let s2 = init_run(s1, b).0;
    let s3 = init_run(s2, c).0;
    if has_port2(config2) {
        assert(init_run(s2, c) == (s2, Seq::<Ps2Action>::empty()));
    } else {
        lemma_init_segment_missing(s2);
    }
    lemma_init_segment3(s3, test1, test2);
    lemma_run_append(s2, c, d);
    lemma_run_append(s1, b, c + d);
    lemma_run_append(s0, a, b + (c + d));
    let t = init_run(s0, a).1 + (init_run(s1, b).1 + (init_run(s2, c).1 + init_run(s3, d).1));
    assert(t =~= init_protocol(config1, config2, test1, test2));
}

/// Once the self test has failed, every further step stays failed, reports
/// the same answer again, and changes nothing.
proof fn lemma_failed_absorbs(s: InitState, rest: Seq<u8>)
    requires
        s.step == InitStep::Failed,
    ensures
        init_run(s, rest) == (s, Seq::new(rest.len(), |i: int| Ps2Action::SelfTestFailed(s.config))),
    decreases rest.len(),
{
    if rest.len() > 0 {
        lemma_failed_absorbs(s, rest.drop_first());
        assert(seq![Ps2Action::SelfTestFailed(s.config)] + Seq::new(
            rest.drop_first().len(),
            |i: int| Ps2Action::SelfTestFailed(s.config),
        ) =~= Seq::new(rest.len(), |i: int| Ps2Action::SelfTestFailed(s.config)));
    } else {
        assert(Seq::new(rest.len(), |i: int| Ps2Action::SelfTestFailed(s.config)) =~= Seq::<
            Ps2Action,
        >::empty());
    }
}

/// When the self test answers anything but success, the initialisation
/// stops right after it: it reports the answer at every later step, leaves
/// both device ports as they were, and never touches the controller again.
pub proof fn lemma_init_self_test_fails(
    port1: bool,
    port2: bool,
    config1: u8,
    self_test: u8,
    rest: Seq<u8>,
)
    requires
        self_test != SELF_TEST_SUCCEEDED,
    ensures
        init_run(
            InitState { step: InitStep::DisablePort1, config: 0, port1, port2 },
            seq![0u8, 0, 0, 0, 0, config1, 0, 0, self_test] + rest,
        ) == (
            InitState { step: InitStep::Failed, config: self_test, port1, port2 },
            init_protocol(config1, 0, 0, 0).take(8) + seq![Ps2Action::SelfTestFailed(self_test)]
                + Seq::new(rest.len(), |i: int| Ps2Action::SelfTestFailed(self_test)),
        ),
{
    let s0 = InitState { step: InitStep::DisablePort1, config: 0, port1, port2 };
    let a = seq![0u8, 0, 0, 0, 0, config1];
    let b = seq![0u8, 0, self_test];
    lemma_init_segment1(s0, config1);
    let s1 = init_run(s0, a).0;
    reveal_with_fuel(init_run, 4);
    assert(b.drop_first() =~= seq![0u8, self_test]);
    assert(b.drop_first().drop_first() =~= seq![self_test]);
    assert(seq![self_test].drop_first() =~= Seq::<u8>::empty());
    let s2 = init_run(s1, b).0;
    assert(init_run(s1, b).1 =~= seq![
        Ps2Action::Command(0xAA),
        Ps2Action::Read,
        Ps2Action::SelfTestFailed(self_test),
    ]);
    lemma_failed_absorbs(s2, rest);
    lemma_run_append(s1, b, rest);
    lemma_run_append(s0, a, b + rest);
    assert(seq![0u8, 0, 0, 0, 0, config1, 0, 0, self_test] + rest =~= a + (b + rest));
    assert(init_run(s0, a).1 + (init_run(s1, b).1 + init_run(s2, rest).1) =~= init_protocol(
        config1,
        0,
        0,
        0,
    ).take(8) + seq![Ps2Action::SelfTestFailed(self_test)] + Seq::new(
        rest.len(),
        |i: int| Ps2Action::SelfTestFailed(self_test),
    ));
}

/// The configuration bytes written during initialisation, bit by bit. The
/// controller's configuration byte holds port 1's interrupt in bit 0, port
/// 2's interrupt in bit 1, the system flag in bit 2, the two clock-disable
/// bits in bits 4 and 5 and port 1's translation in bit 6; bits 3 and 7 are
/// unused. Before the self test the written byte keeps the system flag and
/// port 2's interrupt and clock bits as read, and has port 1's interrupt,
/// clock-disable and translation bits and the unused bits clear. After the
/// probe, port 2 exists exactly when its clock-disable bit reads clear; the
/// written byte then has port 2's interrupt bit clear and every other
/// defined bit as read, and when port 2 is missing every defined bit is as
/// read; the unused bits are clear either way.
pub proof fn lemma_config_bits(config: u8)
    ensures
        (config & CONFIG_KNOWN) & !(CONFIG_PORT1_IRQ | CONFIG_PORT1_CLOCK_DISABLED
            | CONFIG_PORT1_TRANSLATION) == config & 0x26,
        has_port2(config) <==> config & 0x20 == 0,
        has_port2(config) ==> port2_config_spec(config) & 0x02 == 0 && port2_config_spec(config)
            | 0x02 == (config & 0x77) | 0x02,
        has_port2(config) ==> port2_config_spec(config) == config & 0x75,
        !has_port2(config) ==> port2_config_spec(config) == config & 0x77,
        port2_config_spec(config) & 0x88 == 0,
{
    assert(
        (config & 0x77u8) & !(0x01u8 | 0x10u8 | 0x40u8) == config & 0x26u8
        && ((config & 0x77u8) & !0x02u8) & 0x02u8 == 0
        && ((config & 0x77u8) & !0x02u8) | 0x02u8 == (config & 0x77u8) | 0x02u8
        && (config & 0x77u8) & !0x02u8 == config & 0x75u8
        && ((config & 0x77u8) & !0x02u8) & 0x88u8 == 0
        && (config & 0x77u8) & 0x88u8 == 0
    ) by (bit_vector);
}

} // verus!
