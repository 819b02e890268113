use battery_health::panel::{PanelOp, PanelScript};
use battery_health::panel::PanelOp::{ChipSelect, DataCommand, DelayMs, ResetPin, Spi, SpiFrame, WaitReady};

fn framed(ops: &[PanelOp]) -> bool {
    let mut cs = true;
    for op in ops {
        match op {
            ChipSelect(b) => cs = *b,
            Spi(_) | SpiFrame => {
                if cs {
                    return false;
                }
            }
            _ => {}
        }
    }
    cs
}

#[test]
fn command_is_framed() {
    let mut s = PanelScript::new();
    s.write_command(0x12);
    assert_eq!(
        s.ops(),
        &vec![DataCommand(false), ChipSelect(false), Spi(0x12), ChipSelect(true), DataCommand(true)]
    );
}

#[test]
fn data_in_one_transfer() {
    let mut s = PanelScript::new();
    s.write_data(&[1, 2]);
    assert_eq!(s.ops(), &vec![ChipSelect(false), Spi(1), Spi(2), ChipSelect(true)]);
}

#[test]
fn sequence_splits_data() {
    let mut s = PanelScript::new();
    s.write_sequence(0x4F, &[0, 0]);
    assert_eq!(
        s.ops(),
        &vec![
            DataCommand(false), ChipSelect(false), Spi(0x4F), ChipSelect(true), DataCommand(true),
            ChipSelect(false), Spi(0), ChipSelect(true),
            ChipSelect(false), Spi(0), ChipSelect(true),
        ]
    );
}

#[test]
fn reset_waits_around_command() {
    let mut s = PanelScript::new();
    s.reset();
    let ops = s.ops();
    assert_eq!(ops.len(), 7);
    assert_eq!(ops[0], WaitReady);
    assert_eq!(ops[3], Spi(0x12));
    assert_eq!(ops[6], WaitReady);
}

#[test]
fn deepsleep_byte() {
    let mut on = PanelScript::new();
    on.set_deepsleep(true);
    let mut off = PanelScript::new();
    off.set_deepsleep(false);
    assert_eq!(on.ops()[3], Spi(0x10));
    assert_eq!(on.ops()[7], Spi(0x01));
    assert_eq!(off.ops()[7], Spi(0x00));
    assert_eq!(on.ops().len(), 9);
}

#[test]
fn draw_sends_image_twice_then_refreshes() {
    let mut s = PanelScript::new();
    s.draw();
    let ops = s.ops();
    assert_eq!(ops.iter().filter(|o| **o == SpiFrame).count(), 2);
    let bytes: Vec<u8> = ops.iter().filter_map(|o| if let Spi(b) = o { Some(*b) } else { None }).collect();
    assert_eq!(&bytes[bytes.len() - 3..], &[0x22, 0xF7, 0x20]);
    assert_eq!(bytes[0..2], [0x11, 0x03]);
    assert_eq!(bytes[2], 0x26);
}

#[test]
fn init_pulses_reset_then_configures() {
    let mut s = PanelScript::new();
    s.init();
    let ops = s.ops();
    assert_eq!(&ops[0..7], &[ResetPin(true), ChipSelect(true), DataCommand(true), DelayMs(10), ResetPin(false), DelayMs(10), ResetPin(true)]);
    let bytes: Vec<u8> = ops.iter().filter_map(|o| if let Spi(b) = o { Some(*b) } else { None }).collect();
    assert_eq!(
        bytes,
        vec![0x12, 0x01, 0xC7, 0x00, 0x00, 0x3C, 0x05, 0x18, 0x80, 0x11, 0x03, 0x44, 0x00, 0x18, 0x45, 0x00, 0x00, 0xC7, 0x4E, 0x00, 0x4F, 0x00, 0x00]
    );
}

#[test]
fn routines_are_framed() {
    for build in [
        PanelScript::init as fn(&mut PanelScript),
        PanelScript::reset,
        PanelScript::draw,
        PanelScript::refresh,
        PanelScript::update_display,
        PanelScript::init_display,
        PanelScript::reset_ram_counter,
    ] {
        let mut s = PanelScript::new();
        build(&mut s);
        assert!(framed(s.ops()));
    }
    let mut s = PanelScript::new();
    s.set_size(0x18, 0xC7);
    s.set_deepsleep(true);
    assert!(framed(s.ops()));
}
