use kernel::ps2::keyboard::{KeyboardSetup, PS2Keyboard};
use kernel::ps2::{
    input_buffer_full, output_buffer_full, port1_config, port1_irq_config, port_test_outcome, Command,
    PS2Controller, PortTestOutcome, Ps2Action,
};

fn run(controller: &mut PS2Controller, answers: &[u8]) -> Vec<Ps2Action> {
    // Feeds each read action the next answer, every other action 0.
    let mut actions = Vec::new();
    let mut next = answers.iter();
    let mut input = 0u8;
    for _ in 0..40 {
        let a = controller.init_step(input);
        actions.push(a);
        input = match a {
            Ps2Action::Read => *next.next().unwrap_or(&0),
            _ => 0,
        };
        if a == Ps2Action::Done || matches!(a, Ps2Action::SelfTestFailed(_)) {
            break;
        }
    }
    actions
}

#[test]
fn status_bits() {
    assert!(input_buffer_full(0x02));
    assert!(input_buffer_full(0xFF));
    assert!(!input_buffer_full(0xFD));
    assert!(output_buffer_full(0x01));
    assert!(!output_buffer_full(0xFE));
}

#[test]
fn command_bytes() {
    assert_eq!(Command::ReadControllerConfig.as_u8(), 0x20);
    assert_eq!(Command::WriteControllerConfig.as_u8(), 0x60);
    assert_eq!(Command::DisablePort2.as_u8(), 0xA7);
    assert_eq!(Command::EnablePort2.as_u8(), 0xA8);
    assert_eq!(Command::TestPort2.as_u8(), 0xA9);
    assert_eq!(Command::TestController.as_u8(), 0xAA);
    assert_eq!(Command::TestPort1.as_u8(), 0xAB);
    assert_eq!(Command::DisablePort1.as_u8(), 0xAD);
    assert_eq!(Command::EnablePort1.as_u8(), 0xAE);
}

#[test]
fn port1_config_clears_port1_bits() {
    assert_eq!(port1_config(0xFF), 0x26);
    assert_eq!(port1_config(0x51), 0x00);
    assert_eq!(port1_config(0x24), 0x24);
    assert_eq!(port1_config(0x88), 0x00);
}

#[test]
fn port_test_outcomes() {
    assert_eq!(port_test_outcome(0), PortTestOutcome::Passed);
    assert_eq!(port_test_outcome(1), PortTestOutcome::ClockStuckLow);
    assert_eq!(port_test_outcome(2), PortTestOutcome::ClockStuckHigh);
    assert_eq!(port_test_outcome(3), PortTestOutcome::DataStuckLow);
    assert_eq!(port_test_outcome(4), PortTestOutcome::DataStuckHigh);
    assert_eq!(port_test_outcome(0xFC), PortTestOutcome::Unknown(0xFC));
}

#[test]
fn init_with_two_ports() {
    let mut c = PS2Controller::new();
    assert!(!c.port1());
    assert!(!c.port2());
    let actions = run(&mut c, &[0x47, 0x55, 0x07, 0x00, 0x00]);
    assert_eq!(
        actions,
        vec![
            Ps2Action::Command(0xAD),
            Ps2Action::Command(0xA7),
            Ps2Action::Flush,
            Ps2Action::Command(0x20),
            Ps2Action::Read,
            Ps2Action::CommandWithData(0x60, 0x06),
            Ps2Action::Command(0xAA),
            Ps2Action::Read,
            Ps2Action::Command(0xA8),
            Ps2Action::Command(0x20),
            Ps2Action::Read,
            Ps2Action::Command(0xA7),
            Ps2Action::CommandWithData(0x60, 0x05),
            Ps2Action::Command(0xAB),
            Ps2Action::Read,
            Ps2Action::PortTested(1, PortTestOutcome::Passed),
            Ps2Action::Command(0xA9),
            Ps2Action::Read,
            Ps2Action::PortTested(2, PortTestOutcome::Passed),
            Ps2Action::Done,
        ]
    );
    assert!(c.port1());
    assert!(c.port2());
    // A second initialisation runs the whole sequence again.
    let again = run(&mut c, &[0x47, 0x55, 0x27, 0x00, 0x01]);
    assert_eq!(again.len(), 21);
    assert_eq!(again[0], Ps2Action::Command(0xAD));
    assert_eq!(again[11], Ps2Action::Port2Missing);
    assert_eq!(again[20], Ps2Action::Done);
    assert!(c.port1());
    assert!(!c.port2());
}

#[test]
fn init_with_port2_missing_and_failed_tests() {
    let mut c = PS2Controller::new();
    let actions = run(&mut c, &[0x00, 0x55, 0x27, 0x01, 0x04]);
    assert_eq!(actions[10], Ps2Action::Read);
    assert_eq!(actions[11], Ps2Action::Port2Missing);
    assert_eq!(actions[12], Ps2Action::Command(0xA7));
    assert_eq!(actions[13], Ps2Action::CommandWithData(0x60, 0x27));
    assert_eq!(actions[16], Ps2Action::PortTested(1, PortTestOutcome::ClockStuckLow));
    assert_eq!(actions[19], Ps2Action::PortTested(2, PortTestOutcome::DataStuckHigh));
    assert_eq!(actions.len(), 21);
    assert!(!c.port1());
    assert!(!c.port2());
}

#[test]
fn init_stops_when_self_test_fails() {
    let mut c = PS2Controller::new();
    let actions = run(&mut c, &[0x00, 0xFC]);
    assert_eq!(actions.len(), 9);
    assert_eq!(actions[8], Ps2Action::SelfTestFailed(0xFC));
    assert_eq!(c.init_step(0x55), Ps2Action::SelfTestFailed(0xFC));
    assert!(!c.port1());
}

#[test]
fn keyboard_setup_steps() {
    let k = PS2Keyboard::new();
    assert_eq!(
        k.init(),
        vec![
            KeyboardSetup::EnablePort1(true),
            KeyboardSetup::DeviceCommand(0xF4),
            KeyboardSetup::DeviceCommandWithData(0xF0, 2),
        ]
    );
}

#[test]
fn keyboard_reports_presses_only() {
    let mut k = PS2Keyboard::new();
    assert_eq!(k.irq_handler(0x1C), Some(0x1C));
    assert_eq!(k.irq_handler(0xF0), None);
    assert_eq!(k.irq_handler(0x1C), None);
    assert_eq!(k.irq_handler(0x32), Some(0x32));
    assert_eq!(k.irq_handler(0x32), Some(0x32));
}

#[test]
fn keyboard_repeated_break_prefix_stays_in_release() {
    let mut k = PS2Keyboard::new();
    assert_eq!(k.irq_handler(0xF0), None);
    assert_eq!(k.irq_handler(0xF0), None);
    assert_eq!(k.irq_handler(0x15), None);
    assert_eq!(k.irq_handler(0x15), Some(0x15));
}

#[test]
fn keyboard_stream_reports_each_press() {
    // press A, press B, release A, press C, release B, release C
    let stream = [0x1C, 0x32, 0xF0, 0x1C, 0x21, 0xF0, 0x32, 0xF0, 0x21];
    let mut k = PS2Keyboard::new();
    let pressed: Vec<u8> = stream.iter().filter_map(|b| k.irq_handler(*b)).collect();
    assert_eq!(pressed, vec![0x1C, 0x32, 0x21]);
}

#[test]
fn port1_irq_config_sets_interrupt_bit() {
    assert_eq!(port1_irq_config(0x00), 0x01);
    assert_eq!(port1_irq_config(0x26), 0x27);
    assert_eq!(port1_irq_config(0x01), 0x01);
}
