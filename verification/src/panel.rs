//! The command sequences of the 1.54 inch e-paper controller, as lists of pin and
//! bus operations that the driver carries out in order.
use vstd::prelude::*;

verus! {

/// One step on the wires of the panel.
#[derive(Debug, Clone, Copy, PartialEq, Eq, Structural)]
pub enum PanelOp {
    /// Drive the reset line high (`true`) or low.
    ResetPin(bool),
    /// Drive chip select high (`true`, deselected) or low.
    ChipSelect(bool),
    /// Drive the data/command line high (`true`, data) or low (command).
    DataCommand(bool),
    /// Wait this many milliseconds.
    DelayMs(u32),
    /// Wait until the panel's busy line is low.
    WaitReady,
    /// Send one byte on the bus.
    Spi(u8),
    /// Send the whole image buffer on the bus.
    SpiFrame,
}

/// A command byte: data/command low and chip select low around the byte.
pub open spec fn command_ops(c: u8) -> Seq<PanelOp> {
    seq![
        PanelOp::DataCommand(false),
        PanelOp::ChipSelect(false),
        PanelOp::Spi(c),
        PanelOp::ChipSelect(true),
        PanelOp::DataCommand(true),
    ]
}

/// Data bytes: chip select low around all of them.
pub open spec fn data_ops(data: Seq<u8>) -> Seq<PanelOp> {
    seq![PanelOp::ChipSelect(false)] + data.map_values(|d: u8| PanelOp::Spi(d))
        + seq![PanelOp::ChipSelect(true)]
}

/// The image buffer: chip select low around it.
pub open spec fn image_ops() -> Seq<PanelOp> {
    seq![PanelOp::ChipSelect(false), PanelOp::SpiFrame, PanelOp::ChipSelect(true)]
}

/// A command followed by its data bytes, each byte in a transfer of its own.
pub open spec fn sequence_ops(command: u8, data: Seq<u8>) -> Seq<PanelOp>
    decreases data.len(),
{
    if data.len() == 0 {
        command_ops(command)
    } else {
        sequence_ops(command, data.drop_last()) + data_ops(seq![data.last()])
    }
}

/// Data entry mode: x and y increasing.
pub open spec fn order_bit_ops() -> Seq<PanelOp> {
    command_ops(0x11) + data_ops(seq![0x03])
}

/// The RAM window: x from 0 to `end_x` (in bytes), y from 0 to `end_y`.
pub open spec fn size_ops(end_x: u8, end_y: u8) -> Seq<PanelOp> {
    command_ops(0x44) + data_ops(seq![0x00]) + data_ops(seq![end_x]) + command_ops(0x45)
        + data_ops(seq![0x00]) + data_ops(seq![0x00]) + data_ops(seq![end_y])
}

/// The RAM address counters back to 0.
pub open spec fn ram_counter_ops() -> Seq<PanelOp> {
    sequence_ops(0x4E, seq![0x00]) + sequence_ops(0x4F, seq![0x00, 0x00])
}

/// Software reset: wait, command `0x12`, wait.
pub open spec fn reset_ops() -> Seq<PanelOp> {
    seq![PanelOp::WaitReady] + command_ops(0x12) + seq![PanelOp::WaitReady]
}

/// Driver output control: 200 gate lines.
pub open spec fn init_display_ops() -> Seq<PanelOp> {
    sequence_ops(0x01, seq![0xC7, 0x00, 0x00])
}

/// The power-up sequence: pins to idle, a hardware reset pulse, a software reset,
/// then the controller settings.
pub open spec fn init_ops() -> Seq<PanelOp> {
    seq![
        PanelOp::ResetPin(true),
        PanelOp::ChipSelect(true),
        PanelOp::DataCommand(true),
        PanelOp::DelayMs(10),
        PanelOp::ResetPin(false),
        PanelOp::DelayMs(10),
        PanelOp::ResetPin(true),
    ] + reset_ops() + init_display_ops() + sequence_ops(0x3C, seq![0x05]) + sequence_ops(
        0x18,
        seq![0x80],
    ) + order_bit_ops() + size_ops(0x18, 0xC7) + ram_counter_ops()
}

/// Display update with the current settings: wait, command `0x20`.
pub open spec fn update_display_ops() -> Seq<PanelOp> {
    seq![PanelOp::WaitReady] + command_ops(0x20)
}

/// Full refresh: wait, then `0x22`, `0xF7`, `0x20`.
pub open spec fn refresh_ops() -> Seq<PanelOp> {
    seq![PanelOp::WaitReady] + command_ops(0x22) + command_ops(0xF7) + command_ops(0x20)
}

/// Writes the image into both RAM banks (`0x26`, then `0x24`) and refreshes.
pub open spec fn draw_ops() -> Seq<PanelOp> {
    seq![PanelOp::WaitReady] + order_bit_ops() + command_ops(0x26) + image_ops() + order_bit_ops()
        + size_ops(0x18, 0xC7) + ram_counter_ops() + command_ops(0x24) + image_ops()
        + ram_counter_ops() + refresh_ops()
}

/// Deep sleep on (`0x10`, `0x01`) or off (`0x10`, `0x00`).
pub open spec fn deepsleep_ops(sleep: bool) -> Seq<PanelOp> {
    seq![PanelOp::WaitReady] + sequence_ops(0x10, seq![if sleep { 0x01u8 } else { 0x00u8 }])
}

/// The chip-select level after `ops`, starting from `cs` (`true` is deselected).
pub open spec fn cs_after(ops: Seq<PanelOp>, cs: bool) -> bool
    decreases ops.len(),
{
    if ops.len() == 0 {
        cs
    } else {
        cs_after(
            ops.drop_first(),
            match ops[0] {
                PanelOp::ChipSelect(b) => b,
                _ => cs,
            },
        )
    }
}

/// Whether every transfer in `ops`, starting from chip-select level `cs`, happens
/// while the panel is selected (chip select low).
pub open spec fn sends_selected(ops: Seq<PanelOp>, cs: bool) -> bool
    decreases ops.len(),
{
    if ops.len() == 0 {
        true
    } else {
        let ok = match ops[0] {
            PanelOp::Spi(_) => !cs,
            PanelOp::SpiFrame => !cs,
            _ => true,
        };
        let next = match ops[0] {
            PanelOp::ChipSelect(b) => b,
            _ => cs,
        };
        ok && sends_selected(ops.drop_first(), next)
    }
}

/// A well-framed routine: started with the panel deselected, it sends every byte
/// with the panel selected and leaves it deselected.
pub open spec fn framed(ops: Seq<PanelOp>) -> bool {
    sends_selected(ops, true) && cs_after(ops, true)
}

proof fn lemma_concat(a: Seq<PanelOp>, b: Seq<PanelOp>, cs: bool)
    ensures
        cs_after(a + b, cs) == cs_after(b, cs_after(a, cs)),
        sends_selected(a + b, cs) == (sends_selected(a, cs) && sends_selected(b, cs_after(a, cs))),
    decreases a.len(),
{
    if a.len() > 0 {
        assert((a + b).drop_first() =~= a.drop_first() + b);
        assert((a + b)[0] == a[0]);
        let next = match a[0] {
            PanelOp::ChipSelect(x) => x,
            _ => cs,
        };
        lemma_concat(a.drop_first(), b, next);
    } else {
        assert(a + b =~= b);
    }
}

proof fn lemma_framed_concat(a: Seq<PanelOp>, b: Seq<PanelOp>)
    requires
        framed(a),
        framed(b),
    ensures
        framed(a + b),
{
    lemma_concat(a, b, true);
}

proof fn lemma_spi_run(data: Seq<u8>)
    ensures
        sends_selected(data.map_values(|d: u8| PanelOp::Spi(d)), false),
        cs_after(data.map_values(|d: u8| PanelOp::Spi(d)), false) == false,
    decreases data.len(),
{
    let run = data.map_values(|d: u8| PanelOp::Spi(d));
    if data.len() > 0 {
        assert(run.drop_first() =~= data.drop_first().map_values(|d: u8| PanelOp::Spi(d)));
        lemma_spi_run(data.drop_first());
    }
}

proof fn lemma_command_framed(c: u8)
    ensures
        framed(command_ops(c)),
{
    let dc_low = seq![PanelOp::DataCommand(false)];
    let select = seq![PanelOp::ChipSelect(false)];
    let byte = seq![PanelOp::Spi(c)];
    let deselect = seq![PanelOp::ChipSelect(true)];
    let dc_high = seq![PanelOp::DataCommand(true)];
    assert(command_ops(c) =~= dc_low + select + byte + deselect + dc_high);
    lemma_single(PanelOp::DataCommand(false), true);
    lemma_single(PanelOp::ChipSelect(false), true);
    lemma_single(PanelOp::Spi(c), false);
    lemma_single(PanelOp::ChipSelect(true), false);
    lemma_single(PanelOp::DataCommand(true), true);
    lemma_concat(dc_low, select, true);
    lemma_concat(dc_low + select, byte, true);
    lemma_concat(dc_low + select + byte, deselect, true);
    lemma_concat(dc_low + select + byte + deselect, dc_high, true);
}

/// The effect of a single operation.
proof fn lemma_single(op: PanelOp, cs: bool)
    ensures
        cs_after(seq![op], cs) == match op {
            PanelOp::ChipSelect(b) => b,
            _ => cs,
        },
        sends_selected(seq![op], cs) == match op {
            PanelOp::Spi(_) => !cs,
            PanelOp::SpiFrame => !cs,
            _ => true,
        },
{
    reveal_with_fuel(cs_after, 2);
    reveal_with_fuel(sends_selected, 2);
    assert(seq![op].drop_first() =~= Seq::<PanelOp>::empty());
}

proof fn lemma_single_framed(op: PanelOp)
    requires
        !(op is Spi || op is SpiFrame || op is ChipSelect) || op == PanelOp::ChipSelect(true),
    ensures
        framed(seq![op]),
{
    lemma_single(op, true);
}

proof fn lemma_data_framed(data: Seq<u8>)
    ensures
        framed(data_ops(data)),
{
    let open = seq![PanelOp::ChipSelect(false)];
    let run = data.map_values(|d: u8| PanelOp::Spi(d));
    let close = seq![PanelOp::ChipSelect(true)];
    lemma_spi_run(data);
    lemma_single(PanelOp::ChipSelect(false), true);
    lemma_single(PanelOp::ChipSelect(true), false);
    lemma_concat(open + run, close, true);
    lemma_concat(open, run, true);
}

proof fn lemma_image_framed()
    ensures
        framed(image_ops()),
{
    let open = seq![PanelOp::ChipSelect(false)];
    let mid = seq![PanelOp::SpiFrame];
    let close = seq![PanelOp::ChipSelect(true)];
    assert(image_ops() =~= open + mid + close);
    lemma_single(PanelOp::ChipSelect(false), true);
    lemma_single(PanelOp::SpiFrame, false);
    lemma_single(PanelOp::ChipSelect(true), false);
    lemma_concat(open + mid, close, true);
    lemma_concat(open, mid, true);
}

proof fn lemma_sequence_framed(command: u8, data: Seq<u8>)
    ensures
        framed(sequence_ops(command, data)),
    decreases data.len(),
{
    if data.len() == 0 {
        lemma_command_framed(command);
    } else {
        lemma_sequence_framed(command, data.drop_last());
        lemma_data_framed(seq![data.last()]);
        lemma_framed_concat(sequence_ops(command, data.drop_last()), data_ops(seq![data.last()]));
    }
}

proof fn lemma_wait_framed()
    ensures
        framed(seq![PanelOp::WaitReady]),
{
    lemma_single_framed(PanelOp::WaitReady);
}

proof fn lemma_order_size_counter_framed(end_x: u8, end_y: u8)
    ensures
        framed(order_bit_ops()),
        framed(size_ops(end_x, end_y)),
        framed(ram_counter_ops()),
{
    lemma_command_framed(0x11);
    lemma_data_framed(seq![0x03]);
    lemma_framed_concat(command_ops(0x11), data_ops(seq![0x03]));
    lemma_command_framed(0x44);
    lemma_command_framed(0x45);
    lemma_data_framed(seq![0x00]);
    lemma_data_framed(seq![end_x]);
    lemma_data_framed(seq![end_y]);
    let a = command_ops(0x44) + data_ops(seq![0x00]);
    lemma_framed_concat(command_ops(0x44), data_ops(seq![0x00]));
    lemma_framed_concat(a, data_ops(seq![end_x]));
    let b = a + data_ops(seq![end_x]);
    lemma_framed_concat(b, command_ops(0x45));
    let c = b + command_ops(0x45);
    lemma_framed_concat(c, data_ops(seq![0x00]));
    let d = c + data_ops(seq![0x00]);
    lemma_framed_concat(d, data_ops(seq![0x00]));
    let e = d + data_ops(seq![0x00]);
    lemma_framed_concat(e, data_ops(seq![end_y]));
    lemma_sequence_framed(0x4E, seq![0x00]);
    lemma_sequence_framed(0x4F, seq![0x00, 0x00]);
    lemma_framed_concat(sequence_ops(0x4E, seq![0x00]), sequence_ops(0x4F, seq![0x00, 0x00]));
}

/// Every routine of the driver is well framed: each byte goes out with the panel
/// selected, and the routine leaves it deselected, so routines can follow one
/// another in any order.
pub proof fn law_routines_framed(sleep: bool)
    ensures
        framed(reset_ops()),
        framed(init_display_ops()),
        framed(update_display_ops()),
        framed(refresh_ops()),
        framed(draw_ops()),
        framed(deepsleep_ops(sleep)),
        framed(init_ops()),
{
    let w = seq![PanelOp::WaitReady];
    lemma_wait_framed();
    lemma_order_size_counter_framed(0x18, 0xC7);
    lemma_command_framed(0x12);
    lemma_framed_concat(w, command_ops(0x12));
    lemma_framed_concat(w + command_ops(0x12), w);
    lemma_sequence_framed(0x01, seq![0xC7, 0x00, 0x00]);
    lemma_command_framed(0x20);
    lemma_framed_concat(w, command_ops(0x20));
    lemma_command_framed(0x22);
    lemma_command_framed(0xF7);
    lemma_framed_concat(w, command_ops(0x22));
    lemma_framed_concat(w + command_ops(0x22), command_ops(0xF7));
    lemma_framed_concat(w + command_ops(0x22) + command_ops(0xF7), command_ops(0x20));
    lemma_sequence_framed(0x10, seq![if sleep { 0x01u8 } else { 0x00u8 }]);
    lemma_framed_concat(w, sequence_ops(0x10, seq![if sleep { 0x01u8 } else { 0x00u8 }]));
    lemma_image_framed();
    lemma_command_framed(0x26);
    lemma_command_framed(0x24);
    let d1 = w + order_bit_ops();
    lemma_framed_concat(w, order_bit_ops());
    lemma_framed_concat(d1, command_ops(0x26));
    let d2 = d1 + command_ops(0x26);
    lemma_framed_concat(d2, image_ops());
    let d3 = d2 + image_ops();
    lemma_framed_concat(d3, order_bit_ops());
    let d4 = d3 + order_bit_ops();
    lemma_framed_concat(d4, size_ops(0x18, 0xC7));
    let d5 = d4 + size_ops(0x18, 0xC7);
    lemma_framed_concat(d5, ram_counter_ops());
    let d6 = d5 + ram_counter_ops();
    lemma_framed_concat(d6, command_ops(0x24));
    let d7 = d6 + command_ops(0x24);
    lemma_framed_concat(d7, image_ops());
    let d8 = d7 + image_ops();
    lemma_framed_concat(d8, ram_counter_ops());
    let d9 = d8 + ram_counter_ops();
    lemma_framed_concat(d9, refresh_ops());
    let pins = seq![
        PanelOp::ResetPin(true),
        PanelOp::ChipSelect(true),
        PanelOp::DataCommand(true),
        PanelOp::DelayMs(10),
        PanelOp::ResetPin(false),
        PanelOp::DelayMs(10),
        PanelOp::ResetPin(true),
    ];
    lemma_pins_framed();
    lemma_sequence_framed(0x3C, seq![0x05]);
    lemma_sequence_framed(0x18, seq![0x80]);
    let i1 = pins + reset_ops();
    lemma_framed_concat(pins, reset_ops());
    lemma_framed_concat(i1, init_display_ops());
    let i2 = i1 + init_display_ops();
    lemma_framed_concat(i2, sequence_ops(0x3C, seq![0x05]));
    let i3 = i2 + sequence_ops(0x3C, seq![0x05]);
    lemma_framed_concat(i3, sequence_ops(0x18, seq![0x80]));
    let i4 = i3 + sequence_ops(0x18, seq![0x80]);
    lemma_framed_concat(i4, order_bit_ops());
    let i5 = i4 + order_bit_ops();
    lemma_framed_concat(i5, size_ops(0x18, 0xC7));
    let i6 = i5 + size_ops(0x18, 0xC7);
    lemma_framed_concat(i6, ram_counter_ops());
}

proof fn lemma_pins_framed()
    ensures
        framed(
            seq![
                PanelOp::ResetPin(true),
                PanelOp::ChipSelect(true),
                PanelOp::DataCommand(true),
                PanelOp::DelayMs(10),
                PanelOp::ResetPin(false),
                PanelOp::DelayMs(10),
                PanelOp::ResetPin(true),
            ],
        ),
{
    let ops = seq![
        PanelOp::ResetPin(true),
        PanelOp::ChipSelect(true),
        PanelOp::DataCommand(true),
        PanelOp::DelayMs(10),
        PanelOp::ResetPin(false),
        PanelOp::DelayMs(10),
        PanelOp::ResetPin(true),
    ];
    lemma_single_framed(PanelOp::ResetPin(true));
    lemma_single_framed(PanelOp::DataCommand(true));
    lemma_single_framed(PanelOp::DelayMs(10));
    lemma_single_framed(PanelOp::ResetPin(false));
    let cs = seq![PanelOp::ChipSelect(true)];
    lemma_single_framed(PanelOp::ChipSelect(true));
    let a = seq![PanelOp::ResetPin(true)];
    lemma_framed_concat(a, cs);
    let b = a + cs;
    lemma_framed_concat(b, seq![PanelOp::DataCommand(true)]);
    let c = b + seq![PanelOp::DataCommand(true)];
    lemma_framed_concat(c, seq![PanelOp::DelayMs(10)]);
    let d = c + seq![PanelOp::DelayMs(10)];
    lemma_framed_concat(d, seq![PanelOp::ResetPin(false)]);
    let e = d + seq![PanelOp::ResetPin(false)];
    lemma_framed_concat(e, seq![PanelOp::DelayMs(10)]);
    let f = e + seq![PanelOp::DelayMs(10)];
    lemma_framed_concat(f, seq![PanelOp::ResetPin(true)]);
    assert(f + seq![PanelOp::ResetPin(true)] =~= ops);
}

/// What the controller receives: a command byte (sent with data/command low), a
/// data byte (sent with it high), the image, and the waits, delays and reset pulses
/// between them. Chip select and the data/command line themselves are not events.
pub enum PanelEvent {
    Command(u8),
    Data(u8),
    Frame,
    Wait,
    Delay(u32),
    Reset(bool),
}

/// The level of the data/command line after `ops`, starting from `dc` (`true` is data).
pub open spec fn dc_after(ops: Seq<PanelOp>, dc: bool) -> bool
    decreases ops.len(),
{
    if ops.len() == 0 {
        dc
    } else {
        dc_after(
            ops.drop_first(),
            match ops[0] {
                PanelOp::DataCommand(b) => b,
                _ => dc,
            },
        )
    }
}

/// The events that `op` produces with the data/command line at `dc`.
pub open spec fn op_events(op: PanelOp, dc: bool) -> Seq<PanelEvent> {
    match op {
        PanelOp::Spi(b) => if dc {
            seq![PanelEvent::Data(b)]
        } else {
            seq![PanelEvent::Command(b)]
        },
        PanelOp::SpiFrame => seq![PanelEvent::Frame],
        PanelOp::WaitReady => seq![PanelEvent::Wait],
        PanelOp::DelayMs(ms) => seq![PanelEvent::Delay(ms)],
        PanelOp::ResetPin(h) => seq![PanelEvent::Reset(h)],
        _ => Seq::empty(),
    }
}

/// The events that `ops` produces, the data/command line starting at `dc`.
pub open spec fn events(ops: Seq<PanelOp>, dc: bool) -> Seq<PanelEvent>
    decreases ops.len(),
{
    if ops.len() == 0 {
        Seq::empty()
    } else {
        let next = match ops[0] {
            PanelOp::DataCommand(b) => b,
            _ => dc,
        };
        op_events(ops[0], dc) + events(ops.drop_first(), next)
    }
}

proof fn lemma_events_concat(a: Seq<PanelOp>, b: Seq<PanelOp>, dc: bool)
    ensures
        dc_after(a + b, dc) == dc_after(b, dc_after(a, dc)),
        events(a + b, dc) == events(a, dc) + events(b, dc_after(a, dc)),
    decreases a.len(),
{
    if a.len() > 0 {
        assert((a + b).drop_first() =~= a.drop_first() + b);
        assert((a + b)[0] == a[0]);
        let next = match a[0] {
            PanelOp::DataCommand(x) => x,
            _ => dc,
        };
        lemma_events_concat(a.drop_first(), b, next);
        assert(events(a + b, dc) =~= events(a, dc) + events(b, dc_after(a, dc)));
    } else {
        assert(a + b =~= b);
        assert(events(a, dc) + events(b, dc) =~= events(b, dc));
    }
}

/// Two pieces that each leave the data/command line high produce their events one after the other.
proof fn lemma_join(a: Seq<PanelOp>, b: Seq<PanelOp>)
    requires
        dc_after(a, true),
        dc_after(b, true),
    ensures
        dc_after(a + b, true),
        events(a + b, true) == events(a, true) + events(b, true),
{
    lemma_events_concat(a, b, true);
}

proof fn lemma_op_events(op: PanelOp, dc: bool)
    ensures
        dc_after(seq![op], dc) == match op {
            PanelOp::DataCommand(b) => b,
            _ => dc,
        },
        events(seq![op], dc) == op_events(op, dc),
{
    reveal_with_fuel(dc_after, 2);
    reveal_with_fuel(events, 2);
    assert(seq![op].drop_first() =~= Seq::<PanelOp>::empty());
    assert(op_events(op, dc) + Seq::<PanelEvent>::empty() =~= op_events(op, dc));
}

proof fn lemma_spi_events(data: Seq<u8>)
    ensures
        dc_after(data.map_values(|d: u8| PanelOp::Spi(d)), true),
        events(data.map_values(|d: u8| PanelOp::Spi(d)), true) == data.map_values(
            |d: u8| PanelEvent::Data(d),
        ),
    decreases data.len(),
{
    let run = data.map_values(|d: u8| PanelOp::Spi(d));
    if data.len() > 0 {
        assert(run.drop_first() =~= data.drop_first().map_values(|d: u8| PanelOp::Spi(d)));
        lemma_spi_events(data.drop_first());
        assert(events(run, true) =~= data.map_values(|d: u8| PanelEvent::Data(d)));
    } else {
        assert(data.map_values(|d: u8| PanelEvent::Data(d)) =~= Seq::<PanelEvent>::empty());
    }
}

/// A command transfer reaches the controller as that one command byte, and a data
/// transfer as its data bytes; both leave the data/command line high.
pub proof fn law_transfers_reach_controller(c: u8, data: Seq<u8>)
    ensures
        dc_after(command_ops(c), true),
        events(command_ops(c), true) == seq![PanelEvent::Command(c)],
        dc_after(data_ops(data), true),
        events(data_ops(data), true) == data.map_values(|d: u8| PanelEvent::Data(d)),
        dc_after(image_ops(), true),
        events(image_ops(), true) == seq![PanelEvent::Frame],
        dc_after(sequence_ops(c, data), true),
        events(sequence_ops(c, data), true) == seq![PanelEvent::Command(c)] + data.map_values(
            |d: u8| PanelEvent::Data(d),
        ),
{
    lemma_command_events(c);
    lemma_data_events(data);
    lemma_image_events();
    lemma_sequence_events(c, data);
}

proof fn lemma_command_events(c: u8)
    ensures
        dc_after(command_ops(c), true),
        events(command_ops(c), true) == seq![PanelEvent::Command(c)],
{
    let a = seq![PanelOp::DataCommand(false)];
    let b = seq![PanelOp::ChipSelect(false)];
    let m = seq![PanelOp::Spi(c)];
    let d = seq![PanelOp::ChipSelect(true)];
    let e = seq![PanelOp::DataCommand(true)];
    assert(command_ops(c) =~= a + b + m + d + e);
    lemma_op_events(PanelOp::DataCommand(false), true);
    lemma_op_events(PanelOp::ChipSelect(false), false);
    lemma_op_events(PanelOp::Spi(c), false);
    lemma_op_events(PanelOp::ChipSelect(true), false);
    lemma_op_events(PanelOp::DataCommand(true), false);
    lemma_events_concat(a, b, true);
    lemma_events_concat(a + b, m, true);
    lemma_events_concat(a + b + m, d, true);
    lemma_events_concat(a + b + m + d, e, true);
    assert(events(command_ops(c), true) =~= seq![PanelEvent::Command(c)]);
}

proof fn lemma_data_events(data: Seq<u8>)
    ensures
        dc_after(data_ops(data), true),
        events(data_ops(data), true) == data.map_values(|d: u8| PanelEvent::Data(d)),
{
    let open = seq![PanelOp::ChipSelect(false)];
    let run = data.map_values(|d: u8| PanelOp::Spi(d));
    let close = seq![PanelOp::ChipSelect(true)];
    lemma_op_events(PanelOp::ChipSelect(false), true);
    lemma_op_events(PanelOp::ChipSelect(true), true);
    lemma_spi_events(data);
    lemma_join(open, run);
    lemma_join(open + run, close);
    assert(events(data_ops(data), true) =~= data.map_values(|d: u8| PanelEvent::Data(d)));
}

proof fn lemma_image_events()
    ensures
        dc_after(image_ops(), true),
        events(image_ops(), true) == seq![PanelEvent::Frame],
{
    let open = seq![PanelOp::ChipSelect(false)];
    let mid = seq![PanelOp::SpiFrame];
    let close = seq![PanelOp::ChipSelect(true)];
    assert(image_ops() =~= open + mid + close);
    lemma_op_events(PanelOp::ChipSelect(false), true);
    lemma_op_events(PanelOp::SpiFrame, true);
    lemma_op_events(PanelOp::ChipSelect(true), true);
    lemma_join(open, mid);
    lemma_join(open + mid, close);
    assert(events(image_ops(), true) =~= seq![PanelEvent::Frame]);
}

proof fn lemma_sequence_events(c: u8, data: Seq<u8>)
    ensures
        dc_after(sequence_ops(c, data), true),
        events(sequence_ops(c, data), true) == seq![PanelEvent::Command(c)] + data.map_values(
            |d: u8| PanelEvent::Data(d),
        ),
    decreases data.len(),
{
    if data.len() == 0 {
        lemma_command_events(c);
        assert(seq![PanelEvent::Command(c)] + data.map_values(|d: u8| PanelEvent::Data(d))
            =~= seq![PanelEvent::Command(c)]);
    } else {
        lemma_sequence_events(c, data.drop_last());
        lemma_data_events(seq![data.last()]);
        lemma_join(sequence_ops(c, data.drop_last()), data_ops(seq![data.last()]));
        assert(seq![data.last()].map_values(|d: u8| PanelEvent::Data(d)) =~= seq![
            PanelEvent::Data(data.last()),
        ]);
        assert(seq![PanelEvent::Command(c)] + data.map_values(|d: u8| PanelEvent::Data(d))
            =~= seq![PanelEvent::Command(c)] + data.drop_last().map_values(|d: u8| PanelEvent::Data(d))
            + seq![PanelEvent::Data(data.last())]);
    }
}

proof fn lemma_single_events(op: PanelOp)
    requires
        op is WaitReady || op is DelayMs || op is ResetPin || op == PanelOp::ChipSelect(true)
            || op == PanelOp::DataCommand(true),
    ensures
        dc_after(seq![op], true),
        events(seq![op], true) == op_events(op, true),
{
    lemma_op_events(op, true);
}

proof fn lemma_one(d: u8)
    ensures
        dc_after(data_ops(seq![d]), true),
        events(data_ops(seq![d]), true) == seq![PanelEvent::Data(d)],
{
    lemma_data_events(seq![d]);
    assert(seq![d].map_values(|x: u8| PanelEvent::Data(x)) =~= seq![PanelEvent::Data(d)]);
}

proof fn lemma_settings_events(end_x: u8, end_y: u8)
    ensures
        dc_after(order_bit_ops(), true),
        events(order_bit_ops(), true) == seq![PanelEvent::Command(0x11), PanelEvent::Data(0x03)],
        dc_after(size_ops(end_x, end_y), true),
        events(size_ops(end_x, end_y), true) == seq![
            PanelEvent::Command(0x44),
            PanelEvent::Data(0x00),
            PanelEvent::Data(end_x),
            PanelEvent::Command(0x45),
            PanelEvent::Data(0x00),
            PanelEvent::Data(0x00),
            PanelEvent::Data(end_y),
        ],
        dc_after(ram_counter_ops(), true),
        events(ram_counter_ops(), true) == seq![
            PanelEvent::Command(0x4E),
            PanelEvent::Data(0x00),
            PanelEvent::Command(0x4F),
            PanelEvent::Data(0x00),
            PanelEvent::Data(0x00),
        ],
{
    lemma_command_events(0x11);
    lemma_one(0x03);
    lemma_join(command_ops(0x11), data_ops(seq![0x03]));
    assert(events(order_bit_ops(), true) =~= seq![PanelEvent::Command(0x11), PanelEvent::Data(0x03)]);
    lemma_command_events(0x44);
    lemma_command_events(0x45);
    lemma_one(0x00);
    lemma_one(end_x);
    lemma_one(end_y);
    let a = command_ops(0x44) + data_ops(seq![0x00]);
    lemma_join(command_ops(0x44), data_ops(seq![0x00]));
    let b = a + data_ops(seq![end_x]);
    lemma_join(a, data_ops(seq![end_x]));
    let c = b + command_ops(0x45);
    lemma_join(b, command_ops(0x45));
    let d = c + data_ops(seq![0x00]);
    lemma_join(c, data_ops(seq![0x00]));
    let e = d + data_ops(seq![0x00]);
    lemma_join(d, data_ops(seq![0x00]));
    lemma_join(e, data_ops(seq![end_y]));
    assert(events(size_ops(end_x, end_y), true) =~= seq![
        PanelEvent::Command(0x44),
        PanelEvent::Data(0x00),
        PanelEvent::Data(end_x),
        PanelEvent::Command(0x45),
        PanelEvent::Data(0x00),
        PanelEvent::Data(0x00),
        PanelEvent::Data(end_y),
    ]);
    lemma_sequence_events(0x4E, seq![0x00]);
    lemma_sequence_events(0x4F, seq![0x00, 0x00]);
    lemma_join(sequence_ops(0x4E, seq![0x00]), sequence_ops(0x4F, seq![0x00, 0x00]));
    assert(seq![0x00u8].map_values(|x: u8| PanelEvent::Data(x)) =~= seq![PanelEvent::Data(0x00)]);
    assert(seq![0x00u8, 0x00u8].map_values(|x: u8| PanelEvent::Data(x)) =~= seq![
        PanelEvent::Data(0x00),
        PanelEvent::Data(0x00),
    ]);
    assert(events(ram_counter_ops(), true) =~= seq![
        PanelEvent::Command(0x4E),
        PanelEvent::Data(0x00),
        PanelEvent::Command(0x4F),
        PanelEvent::Data(0x00),
        PanelEvent::Data(0x00),
    ]);
}

/// What the controller receives from the short routines: a software reset is the
/// command `0x12` between two waits; an update is a wait, then the activation
/// command `0x20` alone; a refresh is a wait, then `0x22`, `0xF7` and `0x20`; deep
/// sleep is a wait, then `0x10` with `0x01` (on) or `0x00` (off).
pub proof fn law_short_routines_reach_controller(sleep: bool)
    ensures
        events(reset_ops(), true) == seq![PanelEvent::Wait, PanelEvent::Command(0x12), PanelEvent::Wait],
        events(update_display_ops(), true) == seq![PanelEvent::Wait, PanelEvent::Command(0x20)],
        events(refresh_ops(), true) == seq![
            PanelEvent::Wait,
            PanelEvent::Command(0x22),
            PanelEvent::Command(0xF7),
            PanelEvent::Command(0x20),
        ],
        events(deepsleep_ops(sleep), true) == seq![
            PanelEvent::Wait,
            PanelEvent::Command(0x10),
            PanelEvent::Data(if sleep { 0x01u8 } else { 0x00u8 }),
        ],
        dc_after(reset_ops(), true),
        dc_after(refresh_ops(), true),
{
    let w = seq![PanelOp::WaitReady];
    lemma_single_events(PanelOp::WaitReady);
    lemma_command_events(0x12);
    lemma_join(w, command_ops(0x12));
    lemma_join(w + command_ops(0x12), w);
    assert(events(reset_ops(), true) =~= seq![PanelEvent::Wait, PanelEvent::Command(0x12), PanelEvent::Wait]);
    lemma_command_events(0x20);
    lemma_join(w, command_ops(0x20));
    assert(events(update_display_ops(), true) =~= seq![PanelEvent::Wait, PanelEvent::Command(0x20)]);
    lemma_command_events(0x22);
    lemma_command_events(0xF7);
    lemma_join(w, command_ops(0x22));
    lemma_join(w + command_ops(0x22), command_ops(0xF7));
    lemma_join(w + command_ops(0x22) + command_ops(0xF7), command_ops(0x20));
    assert(events(refresh_ops(), true) =~= seq![
        PanelEvent::Wait,
        PanelEvent::Command(0x22),
        PanelEvent::Command(0xF7),
        PanelEvent::Command(0x20),
    ]);
    let b = if sleep { 0x01u8 } else { 0x00u8 };
    lemma_sequence_events(0x10, seq![b]);
    lemma_join(w, sequence_ops(0x10, seq![b]));
    assert(seq![b].map_values(|x: u8| PanelEvent::Data(x)) =~= seq![PanelEvent::Data(b)]);
    assert(events(deepsleep_ops(sleep), true) =~= seq![
        PanelEvent::Wait,
        PanelEvent::Command(0x10),
        PanelEvent::Data(b),
    ]);
}

/// What the controller receives from `draw`: the image goes into the RAM of
/// command `0x26`, then, after the window and the address counters are set again,
/// into the black/white RAM of command `0x24`, and the refresh follows.
pub proof fn law_draw_reaches_controller()
    ensures
        events(draw_ops(), true) == seq![
            PanelEvent::Wait,
            PanelEvent::Command(0x11),
            PanelEvent::Data(0x03),
            PanelEvent::Command(0x26),
            PanelEvent::Frame,
            PanelEvent::Command(0x11),
            PanelEvent::Data(0x03),
            PanelEvent::Command(0x44),
            PanelEvent::Data(0x00),
            PanelEvent::Data(0x18),
            PanelEvent::Command(0x45),
            PanelEvent::Data(0x00),
            PanelEvent::Data(0x00),
            PanelEvent::Data(0xC7),
            PanelEvent::Command(0x4E),
            PanelEvent::Data(0x00),
            PanelEvent::Command(0x4F),
            PanelEvent::Data(0x00),
            PanelEvent::Data(0x00),
            PanelEvent::Command(0x24),
            PanelEvent::Frame,
            PanelEvent::Command(0x4E),
            PanelEvent::Data(0x00),
            PanelEvent::Command(0x4F),
            PanelEvent::Data(0x00),
            PanelEvent::Data(0x00),
            PanelEvent::Wait,
            PanelEvent::Command(0x22),
            PanelEvent::Command(0xF7),
            PanelEvent::Command(0x20),
        ],
{
    let w = seq![PanelOp::WaitReady];
    lemma_single_events(PanelOp::WaitReady);
    lemma_settings_events(0x18, 0xC7);
    lemma_command_events(0x26);
    lemma_command_events(0x24);
    lemma_image_events();
    law_short_routines_reach_controller(false);
    let d1 = w + order_bit_ops();
    lemma_join(w, order_bit_ops());
    lemma_join(d1, command_ops(0x26));
    let d2 = d1 + command_ops(0x26);
    lemma_join(d2, image_ops());
    let d3 = d2 + image_ops();
    lemma_join(d3, order_bit_ops());
    let d4 = d3 + order_bit_ops();
    lemma_join(d4, size_ops(0x18, 0xC7));
    let d5 = d4 + size_ops(0x18, 0xC7);
    lemma_join(d5, ram_counter_ops());
    let d6 = d5 + ram_counter_ops();
    lemma_join(d6, command_ops(0x24));
    let d7 = d6 + command_ops(0x24);
    lemma_join(d7, image_ops());
    let d8 = d7 + image_ops();
    lemma_join(d8, ram_counter_ops());
    let d9 = d8 + ram_counter_ops();
    lemma_join(d9, refresh_ops());
    assert(events(draw_ops(), true) =~= seq![
        PanelEvent::Wait,
        PanelEvent::Command(0x11),
        PanelEvent::Data(0x03),
        PanelEvent::Command(0x26),
        PanelEvent::Frame,
        PanelEvent::Command(0x11),
        PanelEvent::Data(0x03),
        PanelEvent::Command(0x44),
        PanelEvent::Data(0x00),
        PanelEvent::Data(0x18),
        PanelEvent::Command(0x45),
        PanelEvent::Data(0x00),
        PanelEvent::Data(0x00),
        PanelEvent::Data(0xC7),
        PanelEvent::Command(0x4E),
        PanelEvent::Data(0x00),
        PanelEvent::Command(0x4F),
        PanelEvent::Data(0x00),
        PanelEvent::Data(0x00),
        PanelEvent::Command(0x24),
        PanelEvent::Frame,
        PanelEvent::Command(0x4E),
        PanelEvent::Data(0x00),
        PanelEvent::Command(0x4F),
        PanelEvent::Data(0x00),
        PanelEvent::Data(0x00),
        PanelEvent::Wait,
        PanelEvent::Command(0x22),
        PanelEvent::Command(0xF7),
        PanelEvent::Command(0x20),
    ]);
}

/// What the controller receives at power-up: a reset pulse with its delays, a
/// software reset, then the driver output (`0x01`: `0xC7 0x00 0x00`), border
/// (`0x3C`: `0x05`), temperature sensor (`0x18`: `0x80`), data entry mode, RAM
/// window and address counter settings.
pub proof fn law_init_reaches_controller()
    ensures
        events(init_ops(), true) == seq![
            PanelEvent::Reset(true),
            PanelEvent::Delay(10),
            PanelEvent::Reset(false),
            PanelEvent::Delay(10),
            PanelEvent::Reset(true),
            PanelEvent::Wait,
            PanelEvent::Command(0x12),
            PanelEvent::Wait,
            PanelEvent::Command(0x01),
            PanelEvent::Data(0xC7),
            PanelEvent::Data(0x00),
            PanelEvent::Data(0x00),
            PanelEvent::Command(0x3C),
            PanelEvent::Data(0x05),
            PanelEvent::Command(0x18),
            PanelEvent::Data(0x80),
            PanelEvent::Command(0x11),
            PanelEvent::Data(0x03),
            PanelEvent::Command(0x44),
            PanelEvent::Data(0x00),
            PanelEvent::Data(0x18),
            PanelEvent::Command(0x45),
            PanelEvent::Data(0x00),
            PanelEvent::Data(0x00),
            PanelEvent::Data(0xC7),
            PanelEvent::Command(0x4E),
            PanelEvent::Data(0x00),
            PanelEvent::Command(0x4F),
            PanelEvent::Data(0x00),
            PanelEvent::Data(0x00),
        ],
{
    let p1 = seq![PanelOp::ResetPin(true)];
    let p2 = seq![PanelOp::ChipSelect(true)];
    let p3 = seq![PanelOp::DataCommand(true)];
    let p4 = seq![PanelOp::DelayMs(10)];
    let p5 = seq![PanelOp::ResetPin(false)];
    lemma_single_events(PanelOp::ResetPin(true));
    lemma_single_events(PanelOp::ChipSelect(true));
    lemma_single_events(PanelOp::DataCommand(true));
    lemma_single_events(PanelOp::DelayMs(10));
    lemma_single_events(PanelOp::ResetPin(false));
    lemma_join(p1, p2);
    lemma_join(p1 + p2, p3);
    lemma_join(p1 + p2 + p3, p4);
    lemma_join(p1 + p2 + p3 + p4, p5);
    lemma_join(p1 + p2 + p3 + p4 + p5, p4);
    lemma_join(p1 + p2 + p3 + p4 + p5 + p4, p1);
    let pins = p1 + p2 + p3 + p4 + p5 + p4 + p1;
    assert(pins =~= seq![
        PanelOp::ResetPin(true),
        PanelOp::ChipSelect(true),
        PanelOp::DataCommand(true),
        PanelOp::DelayMs(10),
        PanelOp::ResetPin(false),
        PanelOp::DelayMs(10),
        PanelOp::ResetPin(true),
    ]);
    law_short_routines_reach_controller(false);
    lemma_single_events(PanelOp::WaitReady);
    lemma_command_events(0x12);
    let w = seq![PanelOp::WaitReady];
    lemma_join(w, command_ops(0x12));
    lemma_join(w + command_ops(0x12), w);
    lemma_sequence_events(0x01, seq![0xC7, 0x00, 0x00]);
    lemma_sequence_events(0x3C, seq![0x05]);
    lemma_sequence_events(0x18, seq![0x80]);
    assert(seq![0xC7u8, 0x00u8, 0x00u8].map_values(|x: u8| PanelEvent::Data(x)) =~= seq![
        PanelEvent::Data(0xC7),
        PanelEvent::Data(0x00),
        PanelEvent::Data(0x00),
    ]);
    assert(seq![0x05u8].map_values(|x: u8| PanelEvent::Data(x)) =~= seq![PanelEvent::Data(0x05)]);
    assert(seq![0x80u8].map_values(|x: u8| PanelEvent::Data(x)) =~= seq![PanelEvent::Data(0x80)]);
    lemma_settings_events(0x18, 0xC7);
    let i1 = pins + reset_ops();
    lemma_join(pins, reset_ops());
    lemma_join(i1, init_display_ops());
    let i2 = i1 + init_display_ops();
    lemma_join(i2, sequence_ops(0x3C, seq![0x05]));
    let i3 = i2 + sequence_ops(0x3C, seq![0x05]);
    lemma_join(i3, sequence_ops(0x18, seq![0x80]));
    let i4 = i3 + sequence_ops(0x18, seq![0x80]);
    lemma_join(i4, order_bit_ops());
    let i5 = i4 + order_bit_ops();
    lemma_join(i5, size_ops(0x18, 0xC7));
    let i6 = i5 + size_ops(0x18, 0xC7);
    lemma_join(i6, ram_counter_ops());
    assert(events(init_ops(), true) =~= seq![
        PanelEvent::Reset(true),
        PanelEvent::Delay(10),
        PanelEvent::Reset(false),
        PanelEvent::Delay(10),
        PanelEvent::Reset(true),
        PanelEvent::Wait,
        PanelEvent::Command(0x12),
        PanelEvent::Wait,
        PanelEvent::Command(0x01),
        PanelEvent::Data(0xC7),
        PanelEvent::Data(0x00),
        PanelEvent::Data(0x00),
        PanelEvent::Command(0x3C),
        PanelEvent::Data(0x05),
        PanelEvent::Command(0x18),
        PanelEvent::Data(0x80),
        PanelEvent::Command(0x11),
        PanelEvent::Data(0x03),
        PanelEvent::Command(0x44),
        PanelEvent::Data(0x00),
        PanelEvent::Data(0x18),
        PanelEvent::Command(0x45),
        PanelEvent::Data(0x00),
        PanelEvent::Data(0x00),
        PanelEvent::Data(0xC7),
        PanelEvent::Command(0x4E),
        PanelEvent::Data(0x00),
        PanelEvent::Command(0x4F),
        PanelEvent::Data(0x00),
        PanelEvent::Data(0x00),
    ]);
}

/// A list of panel operations, built routine by routine.
pub struct PanelScript {
    ops: Vec<PanelOp>,
}

impl View for PanelScript {
    type V = Seq<PanelOp>;

    closed spec fn view(&self) -> Seq<PanelOp> {
        self.ops@
    }
}

impl PanelScript {
    /// An empty script.
    pub fn new() -> (s: Self)
        ensures
            s@ == Seq::<PanelOp>::empty(),
    {
        PanelScript { ops: Vec::new() }
    }

    /// The operations, in order.
    pub fn ops(&self) -> (r: &Vec<PanelOp>)
        ensures
            r@ == self@,
    {
        &self.ops
    }

    fn push(&mut self, op: PanelOp)
        ensures
            final(self)@ == old(self)@.push(op),
    {
        self.ops.push(op);
    }

    /// Sends one command byte.
    pub fn write_command(&mut self, write: u8)
        ensures
            final(self)@ == old(self)@ + command_ops(write),
    {
        self.push(PanelOp::DataCommand(false));
        self.push(PanelOp::ChipSelect(false));
        self.push(PanelOp::Spi(write));
        self.push(PanelOp::ChipSelect(true));
        self.push(PanelOp::DataCommand(true));
        assert(final(self)@ =~= old(self)@ + command_ops(write));
    }

    /// Sends data bytes in one transfer.
    pub fn write_data(&mut self, write: &[u8])
        ensures
            final(self)@ == old(self)@ + data_ops(write@),
    {
        self.push(PanelOp::ChipSelect(false));
        let n = write.len();
        let mut i: usize = 0;
        while i < n
            invariant
                n == write@.len(),
                i <= n,
                self@ == old(self)@ + seq![PanelOp::ChipSelect(false)] + write@.take(i as int).map_values(
                    |d: u8| PanelOp::Spi(d),
                ),
            decreases n - i,
        {
            self.push(PanelOp::Spi(write[i]));
            assert(write@.take(i + 1).map_values(|d: u8| PanelOp::Spi(d)) =~= write@.take(
                i as int,
            ).map_values(|d: u8| PanelOp::Spi(d)).push(PanelOp::Spi(write@[i as int])));
            i = i + 1;
        }
        assert(write@.take(n as int) =~= write@);
        self.push(PanelOp::ChipSelect(true));
        assert(final(self)@ =~= old(self)@ + data_ops(write@));
    }

    /// Sends the image buffer.
    pub fn write_img(&mut self)
        ensures
            final(self)@ == old(self)@ + image_ops(),
    {
        self.push(PanelOp::ChipSelect(false));
        self.push(PanelOp::SpiFrame);
        self.push(PanelOp::ChipSelect(true));
        assert(final(self)@ =~= old(self)@ + image_ops());
    }

    /// Sends a command, then each data byte in a transfer of its own.
    pub fn write_sequence(&mut self, command: u8, data: &[u8])
        ensures
            final(self)@ == old(self)@ + sequence_ops(command, data@),
    {
        self.write_command(command);
        let n = data.len();
        let mut i: usize = 0;
        assert(data@.take(0) =~= Seq::<u8>::empty());
        while i < n
            invariant
                n == data@.len(),
                i <= n,
                self@ == old(self)@ + sequence_ops(command, data@.take(i as int)),
            decreases n - i,
        {
            let d = [data[i]];
            assert(d@ =~= seq![data@[i as int]]);
            self.write_data(&d);
            assert(data@.take(i + 1).drop_last() =~= data@.take(i as int));
            assert(self@ =~= old(self)@ + sequence_ops(command, data@.take(i + 1)));
            i = i + 1;
        }
        assert(data@.take(n as int) =~= data@);
    }

    fn write_byte(&mut self, byte: u8)
        ensures
            final(self)@ == old(self)@ + data_ops(seq![byte]),
    {
        let d = [byte];
        assert(d@ =~= seq![byte]);
        self.write_data(&d);
    }

    /// Data entry mode: x and y increasing.
    pub fn set_order_bit(&mut self)
        ensures
            final(self)@ == old(self)@ + order_bit_ops(),
    {
        self.write_command(0x11);
        self.write_byte(0x03);
        assert(final(self)@ =~= old(self)@ + order_bit_ops());
    }

    /// The RAM window.
    pub fn set_size(&mut self, end_x: u8, end_y: u8)
        ensures
            final(self)@ == old(self)@ + size_ops(end_x, end_y),
    {
        self.write_command(0x44);
        self.write_byte(0x00);
        self.write_byte(end_x);
        self.write_command(0x45);
        self.write_byte(0x00);
        self.write_byte(0x00);
        self.write_byte(end_y);
        assert(final(self)@ =~= old(self)@ + size_ops(end_x, end_y));
    }

    /// The RAM address counters back to 0.
    pub fn reset_ram_counter(&mut self)
        ensures
            final(self)@ == old(self)@ + ram_counter_ops(),
    {
        let x: [u8; 1] = [0x00];
        assert(x@ =~= seq![0x00u8]);
        self.write_sequence(0x4E, &x);
        let y: [u8; 2] = [0x00, 0x00];
        assert(y@ =~= seq![0x00u8, 0x00u8]);
        self.write_sequence(0x4F, &y);
        assert(final(self)@ =~= old(self)@ + ram_counter_ops());
    }

    /// Driver output control.
    pub fn init_display(&mut self)
        ensures
            final(self)@ == old(self)@ + init_display_ops(),
    {
        let gates: [u8; 3] = [0xC7, 0x00, 0x00];
        assert(gates@ =~= seq![0xC7u8, 0x00u8, 0x00u8]);
        self.write_sequence(0x01, &gates);
    }

    /// Software reset.
    pub fn reset(&mut self)
        ensures
            final(self)@ == old(self)@ + reset_ops(),
    {
        self.push(PanelOp::WaitReady);
        self.write_command(0x12);
        self.push(PanelOp::WaitReady);
        assert(final(self)@ =~= old(self)@ + reset_ops());
    }

    /// The power-up sequence.
    pub fn init(&mut self)
        ensures
            final(self)@ == old(self)@ + init_ops(),
    {
        self.push(PanelOp::ResetPin(true));
        self.push(PanelOp::ChipSelect(true));
        self.push(PanelOp::DataCommand(true));
        self.push(PanelOp::DelayMs(10));
        self.push(PanelOp::ResetPin(false));
        self.push(PanelOp::DelayMs(10));
        self.push(PanelOp::ResetPin(true));
        self.reset();
        self.init_display();
        let border: [u8; 1] = [0x05];
        assert(border@ =~= seq![0x05u8]);
        self.write_sequence(0x3C, &border);
        let sensor: [u8; 1] = [0x80];
        assert(sensor@ =~= seq![0x80u8]);
        self.write_sequence(0x18, &sensor);
        self.set_order_bit();
        self.set_size(0x18, 0xC7);
        self.reset_ram_counter();
        assert(final(self)@ =~= old(self)@ + init_ops());
    }

    /// Display update with the current settings.
    pub fn update_display(&mut self)
        ensures
            final(self)@ == old(self)@ + update_display_ops(),
    {
        self.push(PanelOp::WaitReady);
        self.write_command(0x20);
        assert(final(self)@ =~= old(self)@ + update_display_ops());
    }

    /// Full refresh.
    pub fn refresh(&mut self)
        ensures
            final(self)@ == old(self)@ + refresh_ops(),
    {
        self.push(PanelOp::WaitReady);
        self.write_command(0x22);
        self.write_command(0xF7);
        self.write_command(0x20);
        assert(final(self)@ =~= old(self)@ + refresh_ops());
    }

    /// Writes the image into both RAM banks and refreshes.
    pub fn draw(&mut self)
        ensures
            final(self)@ == old(self)@ + draw_ops(),
    {
        self.push(PanelOp::WaitReady);
        self.set_order_bit();
        self.write_command(0x26);
        self.write_img();
        self.set_order_bit();
        self.set_size(0x18, 0xC7);
        self.reset_ram_counter();
        self.write_command(0x24);
        self.write_img();
        self.reset_ram_counter();
        self.refresh();
        assert(final(self)@ =~= old(self)@ + draw_ops());
    }

    /// Deep sleep on or off.
    pub fn set_deepsleep(&mut self, sleep: bool)
        ensures
            final(self)@ == old(self)@ + deepsleep_ops(sleep),
    {
        self.push(PanelOp::WaitReady);
        let mode: [u8; 1] = if sleep {
            [0x01]
        } else {
            [0x00]
        };
        assert(mode@ =~= seq![if sleep { 0x01u8 } else { 0x00u8 }]);
        self.write_sequence(0x10, &mode);
        assert(final(self)@ =~= old(self)@ + deepsleep_ops(sleep));
    }
}

} // verus!
