//! The panel's controller protocol as a state machine.
//!
//! Each operation of the driver is planned here as the exact list of [`Step`]s that it
//! asks of the hardware: line levels, bus writes, delays and busy waits, with the
//! changes of the driver's own state placed where they happen. Whoever owns the
//! hardware performs the steps in order, stops at the first one that fails, and keeps
//! the last [`Step::State`] it passed as the driver's state.
use crate::geometry::{
    ceil_multiple, clips_to_zero_width, floor_multiple, lemma_screen_intersection_absent_iff_outside,
    lies_outside_screen, round_down, round_up, screen, trunc_div, trunc_rem, Rect, Span, HEIGHT,
    WIDTH,
};
use vstd::prelude::*;

verus! {

/// Number of bytes in one full frame of the panel's RAM, one bit per pixel.
pub const FRAME_BYTES: usize = WIDTH * HEIGHT / 8;

/// Opcodes of the controller.
pub const DRIVER_OUTPUT_CONTROL: u8 = 0x01;
pub const DATA_ENTRY_MODE: u8 = 0x11;
pub const TEMPERATURE_SENSOR: u8 = 0x18;
pub const MASTER_ACTIVATION: u8 = 0x20;
pub const UPDATE_CONTROL_2: u8 = 0x22;
pub const WRITE_RAM_BW: u8 = 0x24;
pub const WRITE_RAM_RED: u8 = 0x26;
pub const BORDER_WAVEFORM: u8 = 0x3C;
pub const RAM_X_RANGE: u8 = 0x44;
pub const RAM_Y_RANGE: u8 = 0x45;
pub const RAM_X_COUNTER: u8 = 0x4E;
pub const RAM_Y_COUNTER: u8 = 0x4F;

/// Parameters of the update-control-2 command.
pub const MODE_POWER_ON: u8 = 0xF8;
pub const MODE_POWER_OFF: u8 = 0x83;
pub const MODE_FULL_UPDATE: u8 = 0xF4;
pub const MODE_PARTIAL_UPDATE: u8 = 0xFC;

/// The driver's own state: whether the panel is powered and brought up, and whether the
/// first full refresh and the first pixel write of the session are still to come.
#[derive(Clone, Copy, Debug, PartialEq, Eq, Structural)]
pub struct Display {
    pub power_is_on: bool,
    pub initialized: bool,
    pub initial_refresh: bool,
    pub initial_write: bool,
}

/// One thing asked of the hardware, or a change of the driver's state.
#[derive(Clone, Debug, PartialEq, Eq)]
pub enum Step {
    /// Drive the data/command select line: low selects commands, high selects data.
    SetDc(bool),
    /// Drive the reset line.
    SetRst(bool),
    /// One bus write of these bytes.
    Write(Vec<u8>),
    /// One bus write of the caller's bitmap.
    WriteBitmap,
    /// `count` bus writes, each of the single byte `value`.
    Fill { value: u8, count: usize },
    /// Sleep for this many milliseconds.
    DelayMs(u32),
    /// Wait until the busy line reads low (see `crate::busy`).
    WaitWhileBusy,
    /// From here on the driver's state is this one.
    State(Display),
}

/// What a [`Step`] stands for, with byte vectors seen as sequences.
pub enum Op {
    SetDc(bool),
    SetRst(bool),
    Write(Seq<u8>),
    WriteBitmap,
    Fill(u8, nat),
    DelayMs(u32),
    WaitWhileBusy,
    State(Display),
}

impl View for Step {
    type V = Op;

    open spec fn view(&self) -> Op {
        match self {
            Step::SetDc(h) => Op::SetDc(*h),
            Step::SetRst(h) => Op::SetRst(*h),
            Step::Write(b) => Op::Write(b@),
            Step::WriteBitmap => Op::WriteBitmap,
            Step::Fill { value, count } => Op::Fill(*value, *count as nat),
            Step::DelayMs(ms) => Op::DelayMs(*ms),
            Step::WaitWhileBusy => Op::WaitWhileBusy,
            Step::State(s) => Op::State(*s),
        }
    }
}

/// The operations that a plan stands for.
pub open spec fn ops(plan: Seq<Step>) -> Seq<Op> {
    plan.map_values(|s: Step| s@)
}

/// A command byte sent in command mode, the line then back in data mode.
pub open spec fn cmd_ops(c: u8) -> Seq<Op> {
    seq![Op::SetDc(false), Op::Write(seq![c]), Op::SetDc(true)]
}

/// A command followed by its parameter bytes in one write.
pub open spec fn cmd_data_ops(c: u8, data: Seq<u8>) -> Seq<Op> {
    cmd_ops(c).push(Op::Write(data))
}

/// Settle for a millisecond, then wait for the busy line to fall.
pub open spec fn wait_ops() -> Seq<Op> {
    seq![Op::DelayMs(1), Op::WaitWhileBusy]
}

/// Sends an update-control-2 mode, triggers it and waits for it to finish.
pub open spec fn activate_ops(mode: u8) -> Seq<Op> {
    cmd_data_ops(UPDATE_CONTROL_2, seq![mode]) + cmd_ops(MASTER_ACTIVATION) + wait_ops()
}

/// A rectangle that lies on the panel: both spans within `[0, 200]` and not inverted.
pub open spec fn on_screen(r: Rect) -> bool {
    &&& 0 <= r.x.lo <= r.x.hi <= 200
    &&& 0 <= r.y.lo <= r.y.hi <= 200
}

/// The parameter bytes that address the RAM window `r`.
pub open spec fn x_range_bytes(r: Rect) -> Seq<u8> {
    seq![trunc_div(r.x.lo as int, 8) as u8, trunc_div(r.x.hi - 1, 8) as u8]
}

/// The Y range carries the low byte of the end twice, in place of its low and high
/// bytes; panels in use are driven with exactly these bytes.
pub open spec fn y_range_bytes(r: Rect) -> Seq<u8> {
    seq![
        trunc_rem(r.y.lo as int, 256) as u8,
        trunc_div(r.y.lo as int, 256) as u8,
        trunc_rem(r.y.hi - 1, 256) as u8,
        trunc_rem(r.y.hi - 1, 256) as u8,
    ]
}

pub open spec fn x_counter_bytes(r: Rect) -> Seq<u8> {
    seq![trunc_div(r.x.lo as int, 8) as u8]
}

pub open spec fn y_counter_bytes(r: Rect) -> Seq<u8> {
    seq![trunc_rem(r.y.lo as int, 256) as u8, trunc_div(r.y.lo as int, 256) as u8]
}

/// Directs later RAM writes and refreshes at the window `r`.
pub open spec fn window_ops(r: Rect) -> Seq<Op> {
    cmd_data_ops(DATA_ENTRY_MODE, seq![0x03u8]) + cmd_data_ops(RAM_X_RANGE, x_range_bytes(r))
        + cmd_data_ops(RAM_Y_RANGE, y_range_bytes(r)) + cmd_data_ops(
        RAM_X_COUNTER,
        x_counter_bytes(r),
    ) + cmd_data_ops(RAM_Y_COUNTER, y_counter_bytes(r))
}

/// `r` with its X span widened to whole bytes of eight pixels.
pub open spec fn byte_aligned(r: Rect) -> Rect {
    Rect {
        x: Span {
            lo: round_down(r.x.lo as int, 8) as i16,
            hi: round_up(r.x.hi as int, 8) as i16,
        },
        y: r.y,
    }
}

/// The bring-up commands, ending with a window over the whole panel.
pub open spec fn init_display_ops() -> Seq<Op> {
    cmd_data_ops(DRIVER_OUTPUT_CONTROL, seq![0xC7u8, 0x00u8, 0x00u8]) + cmd_data_ops(
        TEMPERATURE_SENSOR,
        seq![0x80u8],
    ) + border_ops(false) + window_ops(screen())
}

/// Selects a dark or a normal border waveform.
pub open spec fn border_ops(dark: bool) -> Seq<Op> {
    cmd_data_ops(BORDER_WAVEFORM, seq![if dark { 0x02u8 } else { 0x05u8 }])
}

/// A full-frame write of one byte value into the RAM bank that `c` selects.
pub open spec fn fill_ops(c: u8, value: u8) -> Seq<Op> {
    cmd_ops(c).push(Op::Fill(value, FRAME_BYTES as nat))
}

impl Display {
    /// The state of a newly constructed driver.
    pub open spec fn fresh() -> Display {
        Display { power_is_on: false, initialized: false, initial_refresh: true, initial_write: true }
    }

    /// Only a brought-up panel is marked initialized, and bring-up powers it.
    pub open spec fn wf(self) -> bool {
        self.initialized ==> self.power_is_on
    }

    pub open spec fn power_on_ops(self) -> (Seq<Op>, Display) {
        if self.power_is_on {
            (seq![], self)
        } else {
            let t = Display { power_is_on: true, ..self };
            (activate_ops(MODE_POWER_ON).push(Op::State(t)), t)
        }
    }

    pub open spec fn init_ops(self) -> (Seq<Op>, Display) {
        let p = self.power_on_ops();
        let t = Display { initialized: true, ..p.1 };
        (init_display_ops() + p.0.push(Op::State(t)), t)
    }

    /// Brings the panel up unless it already is.
    pub open spec fn ensure_init_ops(self) -> (Seq<Op>, Display) {
        if self.initialized {
            (seq![], self)
        } else {
            self.init_ops()
        }
    }

    pub open spec fn power_off_ops(self) -> (Seq<Op>, Display) {
        if !self.power_is_on {
            (seq![], self)
        } else {
            let t = Display { power_is_on: false, initialized: false, ..self };
            (activate_ops(MODE_POWER_OFF).push(Op::State(t)), t)
        }
    }

    pub open spec fn update_full_ops(self) -> (Seq<Op>, Display) {
        let t = Display { initial_refresh: false, ..self };
        (seq![Op::State(t)] + activate_ops(MODE_FULL_UPDATE), t)
    }

    pub open spec fn refresh_ops(self, r: Rect) -> (Seq<Op>, Display) {
        if self.initial_refresh {
            self.update_full_ops()
        } else {
            match r.overlap(screen()) {
                None => (seq![], self),
                Some(c) => {
                    let a = self.ensure_init_ops();
                    (a.0 + window_ops(byte_aligned(c)) + activate_ops(MODE_PARTIAL_UPDATE), a.1)
                },
            }
        }
    }

    pub open spec fn refresh_all_ops(self, partial: bool) -> (Seq<Op>, Display) {
        if partial {
            self.refresh_ops(screen())
        } else {
            self.update_full_ops()
        }
    }

    /// What every RAM write starts with: the panel brought up unless it is, then, on the
    /// first write of the session, the secondary bank pre-cleared to white.
    pub open spec fn prepare_write_ops(self) -> (Seq<Op>, Display) {
        let a = self.ensure_init_ops();
        if a.1.initial_write {
            let t = Display { initial_write: false, ..a.1 };
            (a.0 + fill_ops(WRITE_RAM_RED, 0xFF).push(Op::State(t)), t)
        } else {
            a
        }
    }

    pub open spec fn write_screen_buffer_ops(self, value: u8) -> (Seq<Op>, Display) {
        let a = self.prepare_write_ops();
        (a.0 + fill_ops(WRITE_RAM_BW, value), a.1)
    }

    pub open spec fn write_screen_buffer_again_ops(self, value: u8) -> (Seq<Op>, Display) {
        let a = self.ensure_init_ops();
        (a.0 + fill_ops(WRITE_RAM_BW, value), a.1)
    }

    /// The first write's pre-clear (with the bring-up it needs) whether or not the
    /// rectangle meets the panel; then, when it does, bring-up if still needed and the
    /// bitmap into the clipped window. A rectangle off the panel with no pre-clear due
    /// sends nothing.
    pub open spec fn write_image_ops(self, r: Rect) -> (Seq<Op>, Display) {
        match r.overlap(screen()) {
            None => if self.initial_write {
                self.prepare_write_ops()
            } else {
                (seq![], self)
            },
            Some(c) => {
                let a = self.prepare_write_ops();
                (
                    a.0 + window_ops(byte_aligned(c)) + cmd_ops(WRITE_RAM_BW).push(
                        Op::WriteBitmap,
                    ),
                    a.1,
                )
            },
        }
    }

    pub open spec fn draw_image_ops(self, r: Rect) -> (Seq<Op>, Display) {
        let a = self.write_image_ops(r);
        let b = a.1.refresh_ops(r);
        let c = b.1.write_image_ops(r);
        (a.0 + b.0 + c.0, c.1)
    }

    pub open spec fn clear_screen_ops(self, value: u8) -> (Seq<Op>, Display) {
        let a = self.write_screen_buffer_ops(value);
        let b = a.1.refresh_all_ops(true);
        let c = b.1.write_screen_buffer_again_ops(value);
        (a.0 + b.0 + c.0, c.1)
    }
}

/// The driver's state after performing `ops` from state `s`: the last state step, if any.
pub open spec fn state_after(s: Display, ops: Seq<Op>) -> Display
    decreases ops.len(),
{
    if ops.len() == 0 {
        s
    } else {
        match ops.last() {
            Op::State(t) => t,
            _ => state_after(s, ops.drop_last()),
        }
    }
}

/// Whether `ops` holds no state step.
pub open spec fn stateless(ops: Seq<Op>) -> bool {
    forall|i: int| 0 <= i < ops.len() ==> !(#[trigger] ops[i] is State)
}

proof fn lemma_state_after_append(s: Display, a: Seq<Op>, b: Seq<Op>)
    ensures
        state_after(s, a + b) == state_after(state_after(s, a), b),
    decreases b.len(),
{
    if b.len() == 0 {
        assert(a + b =~= a);
    } else {
        assert((a + b).drop_last() =~= a + b.drop_last());
        assert((a + b).last() == b.last());
        lemma_state_after_append(s, a, b.drop_last());
    }
}

proof fn lemma_state_after_stateless(s: Display, ops: Seq<Op>)
    requires
        stateless(ops),
    ensures
        state_after(s, ops) == s,
    decreases ops.len(),
{
    if ops.len() > 0 {
        assert(!(ops[ops.len() - 1] is State));
        assert forall|i: int| 0 <= i < ops.drop_last().len() implies !(
        #[trigger] ops.drop_last()[i] is State) by {
            assert(ops.drop_last()[i] == ops[i]);
        }
        lemma_state_after_stateless(s, ops.drop_last());
    }
}

proof fn lemma_stateless_concat(a: Seq<Op>, b: Seq<Op>)
    requires
        stateless(a),
        stateless(b),
    ensures
        stateless(a + b),
{
    assert forall|i: int| 0 <= i < (a + b).len() implies !(#[trigger] (a + b)[i] is State) by {
        if i < a.len() {
            assert((a + b)[i] == a[i]);
        } else {
            assert((a + b)[i] == b[i - a.len()]);
        }
    }
}

proof fn lemma_protocol_pieces_stateless(r: Rect, c: u8, data: Seq<u8>, value: u8, dark: bool)
    ensures
        stateless(cmd_ops(c)),
        stateless(cmd_data_ops(c, data)),
        stateless(wait_ops()),
        stateless(activate_ops(c)),
        stateless(window_ops(r)),
        stateless(border_ops(dark)),
        stateless(init_display_ops()),
        stateless(fill_ops(c, value)),
        stateless(seq![]),
{
    assert forall|d: Seq<u8>, k: u8| stateless(#[trigger] cmd_data_ops(k, d)) by {
        assert(cmd_data_ops(k, d) =~= seq![
            Op::SetDc(false),
            Op::Write(seq![k]),
            Op::SetDc(true),
            Op::Write(d),
        ]);
    }
    assert forall|k: u8| stateless(#[trigger] activate_ops(k)) by {
        lemma_stateless_concat(cmd_data_ops(UPDATE_CONTROL_2, seq![k]), cmd_ops(MASTER_ACTIVATION));
        lemma_stateless_concat(
            cmd_data_ops(UPDATE_CONTROL_2, seq![k]) + cmd_ops(MASTER_ACTIVATION),
            wait_ops(),
        );
    }
    assert forall|w: Rect| stateless(#[trigger] window_ops(w)) by {
        let a = cmd_data_ops(DATA_ENTRY_MODE, seq![0x03u8]);
        let b = cmd_data_ops(RAM_X_RANGE, x_range_bytes(w));
        let c2 = cmd_data_ops(RAM_Y_RANGE, y_range_bytes(w));
        let d = cmd_data_ops(RAM_X_COUNTER, x_counter_bytes(w));
        let e = cmd_data_ops(RAM_Y_COUNTER, y_counter_bytes(w));
        lemma_stateless_concat(a, b);
        lemma_stateless_concat(a + b, c2);
        lemma_stateless_concat(a + b + c2, d);
        lemma_stateless_concat(a + b + c2 + d, e);
    }
    let a = cmd_data_ops(DRIVER_OUTPUT_CONTROL, seq![0xC7u8, 0x00u8, 0x00u8]);
    let b = cmd_data_ops(TEMPERATURE_SENSOR, seq![0x80u8]);
    lemma_stateless_concat(a, b);
    lemma_stateless_concat(a + b, border_ops(false));
    lemma_stateless_concat(a + b + border_ops(false), window_ops(screen()));
    assert(fill_ops(c, value) =~= seq![
        Op::SetDc(false),
        Op::Write(seq![c]),
        Op::SetDc(true),
        Op::Fill(value, FRAME_BYTES as nat),
    ]);
}

proof fn lemma_state_after_stateless_suffix(s: Display, a: Seq<Op>, b: Seq<Op>)
    requires
        stateless(b),
    ensures
        state_after(s, a + b) == state_after(s, a),
{
    lemma_state_after_append(s, a, b);
    lemma_state_after_stateless(state_after(s, a), b);
}

proof fn lemma_state_after_push_state(s: Display, a: Seq<Op>, t: Display)
    ensures
        state_after(s, a.push(Op::State(t))) == t,
{
    assert(a.push(Op::State(t)).last() == Op::State(t));
}

proof fn lemma_ensure_init_settles(s: Display)
    ensures
        state_after(s, s.ensure_init_ops().0) == s.ensure_init_ops().1,
        state_after(s, s.power_on_ops().0) == s.power_on_ops().1,
{
    let p = s.power_on_ops();
    if !s.power_is_on {
        lemma_state_after_push_state(s, activate_ops(MODE_POWER_ON), p.1);
    }
    if !s.initialized {
        let t = Display { initialized: true, ..p.1 };
        lemma_state_after_push_state(s, init_display_ops() + p.0, t);
    }
}

proof fn lemma_refresh_settles(s: Display, r: Rect)
    ensures
        state_after(s, s.refresh_ops(r).0) == s.refresh_ops(r).1,
        state_after(s, s.update_full_ops().0) == s.update_full_ops().1,
{
    let t = Display { initial_refresh: false, ..s };
    lemma_protocol_pieces_stateless(r, MODE_FULL_UPDATE, seq![], 0, false);
    lemma_state_after_stateless_suffix(s, seq![Op::State(t)], activate_ops(MODE_FULL_UPDATE));
    lemma_state_after_push_state(s, seq![], t);
    assert(seq![Op::State(t)] =~= Seq::<Op>::empty().push(Op::State(t)));
    if !s.initial_refresh {
        if let Some(c) = r.overlap(screen()) {
            let a = s.ensure_init_ops();
            lemma_ensure_init_settles(s);
            lemma_protocol_pieces_stateless(byte_aligned(c), MODE_PARTIAL_UPDATE, seq![], 0, false);
            lemma_stateless_concat(window_ops(byte_aligned(c)), activate_ops(MODE_PARTIAL_UPDATE));
            assert(a.0 + window_ops(byte_aligned(c)) + activate_ops(MODE_PARTIAL_UPDATE) =~= a.0 + (
            window_ops(byte_aligned(c)) + activate_ops(MODE_PARTIAL_UPDATE)));
            lemma_state_after_stateless_suffix(
                s,
                a.0,
                window_ops(byte_aligned(c)) + activate_ops(MODE_PARTIAL_UPDATE),
            );
        }
    }
}

proof fn lemma_write_settles(s: Display, r: Rect, value: u8)
    ensures
        state_after(s, s.prepare_write_ops().0) == s.prepare_write_ops().1,
        state_after(s, s.write_screen_buffer_ops(value).0) == s.write_screen_buffer_ops(value).1,
        state_after(s, s.write_screen_buffer_again_ops(value).0)
            == s.write_screen_buffer_again_ops(value).1,
        state_after(s, s.write_image_ops(r).0) == s.write_image_ops(r).1,
{
    let a = s.ensure_init_ops();
    lemma_ensure_init_settles(s);
    let p = s.prepare_write_ops();
    if a.1.initial_write {
        let t = Display { initial_write: false, ..a.1 };
        lemma_state_after_push_state(s, a.0 + fill_ops(WRITE_RAM_RED, 0xFF), t);
    }
    lemma_protocol_pieces_stateless(r, WRITE_RAM_BW, seq![], value, false);
    lemma_state_after_stateless_suffix(s, a.0, fill_ops(WRITE_RAM_BW, value));
    lemma_state_after_stateless_suffix(s, p.0, fill_ops(WRITE_RAM_BW, value));
    if let Some(c) = r.overlap(screen()) {
        let tail = window_ops(byte_aligned(c)) + cmd_ops(WRITE_RAM_BW).push(Op::WriteBitmap);
        lemma_protocol_pieces_stateless(byte_aligned(c), WRITE_RAM_BW, seq![], value, false);
        assert forall|i: int|
            0 <= i < cmd_ops(WRITE_RAM_BW).push(Op::WriteBitmap).len() implies !(
        #[trigger] cmd_ops(WRITE_RAM_BW).push(Op::WriteBitmap)[i] is State) by {
            if i < 3 {
                assert(cmd_ops(WRITE_RAM_BW).push(Op::WriteBitmap)[i] == cmd_ops(WRITE_RAM_BW)[i]);
            }
        }
        lemma_stateless_concat(
            window_ops(byte_aligned(c)),
            cmd_ops(WRITE_RAM_BW).push(Op::WriteBitmap),
        );
        assert(p.0 + window_ops(byte_aligned(c)) + cmd_ops(WRITE_RAM_BW).push(Op::WriteBitmap)
            =~= p.0 + tail);
        lemma_state_after_stateless_suffix(s, p.0, tail);
    }
}

/// Performing every step of an operation's plan leaves the driver in the state that the
/// operation leads to.
pub proof fn lemma_plans_settle(s: Display, r: Rect, value: u8)
    ensures
        state_after(s, s.draw_image_ops(r).0) == s.draw_image_ops(r).1,
        state_after(s, s.write_image_ops(r).0) == s.write_image_ops(r).1,
        state_after(s, s.clear_screen_ops(value).0) == s.clear_screen_ops(value).1,
        state_after(s, s.power_off_ops().0) == s.power_off_ops().1,
        state_after(s, reset_ops()) == s,
{
    let a = s.write_image_ops(r);
    lemma_write_settles(s, r, value);
    let b = a.1.refresh_ops(r);
    lemma_refresh_settles(a.1, r);
    let c = b.1.write_image_ops(r);
    lemma_write_settles(b.1, r, value);
    lemma_state_after_append(s, a.0, b.0);
    lemma_state_after_append(s, a.0 + b.0, c.0);

    let d = s.write_screen_buffer_ops(value);
    let e = d.1.refresh_all_ops(true);
    lemma_refresh_settles(d.1, screen());
    let f = e.1.write_screen_buffer_again_ops(value);
    lemma_write_settles(e.1, r, value);
    lemma_state_after_append(s, d.0, e.0);
    lemma_state_after_append(s, d.0 + e.0, f.0);

    if s.power_is_on {
        let t = Display { power_is_on: false, initialized: false, ..s };
        lemma_state_after_push_state(s, activate_ops(MODE_POWER_OFF), t);
    }
    assert(stateless(reset_ops()));
    lemma_state_after_stateless(s, reset_ops());
}

/// The first refresh of a session is a full update, whatever rectangle it is given, and
/// it leaves the driver with the first refresh behind it.
pub proof fn lemma_first_refresh_is_full(s: Display, r: Rect)
    requires
        s.initial_refresh,
    ensures
        s.refresh_ops(r).0 == seq![Op::State(Display { initial_refresh: false, ..s })]
            + activate_ops(MODE_FULL_UPDATE),
        activate_ops(MODE_FULL_UPDATE).subrange(0, 4) == cmd_data_ops(
            UPDATE_CONTROL_2,
            seq![MODE_FULL_UPDATE],
        ),
        state_after(s, s.refresh_ops(r).0) == (Display { initial_refresh: false, ..s }),
{
    lemma_refresh_settles(s, r);
    assert(activate_ops(MODE_FULL_UPDATE).subrange(0, 4) =~= cmd_data_ops(
        UPDATE_CONTROL_2,
        seq![MODE_FULL_UPDATE],
    ));
}

/// Drawing into a rectangle that lies wholly off the panel sends nothing beyond the
/// first write's pre-clear and the bring-up it needs, and nothing at all when no
/// pre-clear is due, once the first full refresh is behind the driver. Before that, the refresh is a full update whatever the
/// rectangle, and a rectangle that clips to a zero-length span still gets a window.
pub proof fn lemma_draw_outside_sends_only_preclear(s: Display, r: Rect)
    requires
        !s.initial_refresh,
        lies_outside_screen(r),
        !clips_to_zero_width(r),
    ensures
        s.draw_image_ops(r).0 == if s.initial_write {
            s.prepare_write_ops().0
        } else {
            seq![]
        },
        !s.initial_write ==> s.draw_image_ops(r).1 == s,
{
    lemma_screen_intersection_absent_iff_outside(r);
    let a = s.write_image_ops(r);
    let b = a.1.refresh_ops(r);
    let c = b.1.write_image_ops(r);
    assert(b.0 =~= seq![]);
    assert(c.0 =~= seq![]);
    assert(a.0 + b.0 + c.0 =~= a.0);
}

/// After powering off, drawing into a rectangle that meets the panel brings it up again
/// before anything else: the complete bring-up sequence, then power-on; and it leaves
/// the panel brought up and powered. (A rectangle off the panel sends nothing but a due
/// pre-clear.)
pub proof fn lemma_power_off_then_draw_reinits(s: Display, r: Rect)
    requires
        s.wf(),
        r.overlap(screen()) is Some,
    ensures
        ({
            let t = s.power_off_ops().1;
            let d = t.draw_image_ops(r).0;
            let up = init_display_ops() + activate_ops(MODE_POWER_ON);
            &&& !t.initialized && !t.power_is_on
            &&& d.len() >= up.len()
            &&& d.subrange(0, up.len() as int) == up
            &&& state_after(t, d).initialized
            &&& state_after(t, d).power_is_on
        }),
{
    let t = s.power_off_ops().1;
    let up = init_display_ops() + activate_ops(MODE_POWER_ON);
    let n = up.len() as int;
    let i = t.init_ops();
    assert(i.0 =~= up + seq![
        Op::State(Display { power_is_on: true, ..t }),
        Op::State(Display { power_is_on: true, initialized: true, ..t }),
    ]);
    let p = t.prepare_write_ops();
    assert(p.0.subrange(0, n) =~= up);
    let a = t.write_image_ops(r);
    let b = a.1.refresh_ops(r);
    let c = b.1.write_image_ops(r);
    assert(a.0.subrange(0, n) =~= up);
    assert((a.0 + b.0 + c.0).subrange(0, n) =~= up);
    lemma_plans_settle(t, r, 0);
}

/// Once the first full refresh or the first write of a session is behind the driver, no
/// operation brings it back; and every operation keeps the driver well formed.
pub proof fn lemma_session_flags_never_return(s: Display, r: Rect, value: u8)
    ensures
        !s.initial_refresh ==> !s.draw_image_ops(r).1.initial_refresh
            && !s.write_image_ops(r).1.initial_refresh && !s.clear_screen_ops(value).1.initial_refresh
            && !s.power_off_ops().1.initial_refresh,
        !s.initial_write ==> !s.draw_image_ops(r).1.initial_write
            && !s.write_image_ops(r).1.initial_write && !s.clear_screen_ops(value).1.initial_write
            && !s.power_off_ops().1.initial_write,
        s.wf() ==> s.draw_image_ops(r).1.wf() && s.write_image_ops(r).1.wf()
            && s.clear_screen_ops(value).1.wf() && s.power_off_ops().1.wf(),
{
}

/// Pulse the reset line low for ten milliseconds, then let it settle high.
pub open spec fn reset_ops() -> Seq<Op> {
    seq![Op::SetRst(false), Op::DelayMs(10), Op::SetRst(true), Op::DelayMs(10)]
}

/// The idle levels that construction drives: data mode, reset released.
pub open spec fn construct_ops() -> Seq<Op> {
    seq![Op::SetDc(true), Op::SetRst(true)]
}

fn push_step(plan: &mut Vec<Step>, s: Step)
    ensures
        ops(final(plan)@) == ops(old(plan)@).push(s@),
{
    let ghost v = s@;
    plan.push(s);
    proof {
        assert(ops(plan@) =~= ops(old(plan)@).push(v));
    }
}

/// Drives D/C low, sends the opcode, drives D/C high again.
fn transfer_command(plan: &mut Vec<Step>, c: u8)
    ensures
        ops(final(plan)@) == ops(old(plan)@) + cmd_ops(c),
{
    push_step(plan, Step::SetDc(false));
    let b = vec![c];
    assert(b@ =~= seq![c]);
    push_step(plan, Step::Write(b));
    push_step(plan, Step::SetDc(true));
    proof {
        assert(ops(plan@) =~= ops(old(plan)@) + cmd_ops(c));
    }
}

fn command_with(plan: &mut Vec<Step>, c: u8, data: Vec<u8>)
    ensures
        ops(final(plan)@) == ops(old(plan)@) + cmd_data_ops(c, data@),
{
    transfer_command(plan, c);
    push_step(plan, Step::Write(data));
    proof {
        assert(ops(plan@) =~= ops(old(plan)@) + cmd_data_ops(c, data@));
    }
}

/// Sleeps a millisecond so that the controller can raise the busy line, then waits.
fn wait_while_busy(plan: &mut Vec<Step>)
    ensures
        ops(final(plan)@) == ops(old(plan)@) + wait_ops(),
{
    push_step(plan, Step::DelayMs(1));
    push_step(plan, Step::WaitWhileBusy);
    proof {
        assert(ops(plan@) =~= ops(old(plan)@) + wait_ops());
    }
}

fn activate(plan: &mut Vec<Step>, mode: u8)
    ensures
        ops(final(plan)@) == ops(old(plan)@) + activate_ops(mode),
{
    let b = vec![mode];
    assert(b@ =~= seq![mode]);
    command_with(plan, UPDATE_CONTROL_2, b);
    transfer_command(plan, MASTER_ACTIVATION);
    wait_while_busy(plan);
    proof {
        assert(ops(plan@) =~= ops(old(plan)@) + activate_ops(mode));
    }
}

/// Addresses the RAM window `rect`: entry mode, X and Y ranges, X and Y counters.
fn set_partial_ram_area(plan: &mut Vec<Step>, rect: Rect)
    requires
        on_screen(rect),
    ensures
        ops(final(plan)@) == ops(old(plan)@) + window_ops(rect),
{
    let ghost before = ops(plan@);
    let mode = vec![0x03u8];
    assert(mode@ =~= seq![0x03u8]);
    command_with(plan, DATA_ENTRY_MODE, mode);

    let xs = vec![(rect.x.lo / 8) as u8, ((rect.x.hi - 1) / 8) as u8];
    assert(xs@ =~= x_range_bytes(rect));
    command_with(plan, RAM_X_RANGE, xs);

    let y_end = ((rect.y.hi - 1) % 256) as u8;
    let ys = vec![(rect.y.lo % 256) as u8, (rect.y.lo / 256) as u8, y_end, y_end];
    assert(ys@ =~= y_range_bytes(rect));
    command_with(plan, RAM_Y_RANGE, ys);

    let xc = vec![(rect.x.lo / 8) as u8];
    assert(xc@ =~= x_counter_bytes(rect));
    command_with(plan, RAM_X_COUNTER, xc);

    let yc = vec![(rect.y.lo % 256) as u8, (rect.y.lo / 256) as u8];
    assert(yc@ =~= y_counter_bytes(rect));
    command_with(plan, RAM_Y_COUNTER, yc);
    proof {
        assert(ops(plan@) =~= before + window_ops(rect));
    }
}

fn set_dark_border(plan: &mut Vec<Step>, dark_border: bool)
    ensures
        ops(final(plan)@) == ops(old(plan)@) + border_ops(dark_border),
{
    let b = vec![if dark_border { 0x02u8 } else { 0x05u8 }];
    assert(b@ =~= seq![if dark_border { 0x02u8 } else { 0x05u8 }]);
    command_with(plan, BORDER_WAVEFORM, b);
}

fn init_display(plan: &mut Vec<Step>)
    ensures
        ops(final(plan)@) == ops(old(plan)@) + init_display_ops(),
{
    let ghost before = ops(plan@);
    let b = vec![0xC7u8, 0x00u8, 0x00u8];
    assert(b@ =~= seq![0xC7u8, 0x00u8, 0x00u8]);
    command_with(plan, DRIVER_OUTPUT_CONTROL, b);
    let t = vec![0x80u8];
    assert(t@ =~= seq![0x80u8]);
    command_with(plan, TEMPERATURE_SENSOR, t);
    set_dark_border(plan, false);
    set_partial_ram_area(plan, Rect::screen());
    proof {
        assert(ops(plan@) =~= before + init_display_ops());
    }
}

/// Writes `value` into every byte of the RAM bank that `command` selects.
fn write_screen_buffer_inner(plan: &mut Vec<Step>, command: u8, value: u8)
    ensures
        ops(final(plan)@) == ops(old(plan)@) + fill_ops(command, value),
{
    transfer_command(plan, command);
    push_step(plan, Step::Fill { value, count: FRAME_BYTES });
    proof {
        assert(ops(plan@) =~= ops(old(plan)@) + fill_ops(command, value));
    }
}

impl Display {
    fn power_on(&mut self, plan: &mut Vec<Step>)
        ensures
            ops(final(plan)@) == ops(old(plan)@) + old(self).power_on_ops().0,
            *final(self) == old(self).power_on_ops().1,
    {
        if self.power_is_on {
            proof {
                assert(ops(plan@) =~= ops(old(plan)@) + old(self).power_on_ops().0);
            }
            return ;
        }
        activate(plan, MODE_POWER_ON);
        self.power_is_on = true;
        push_step(plan, Step::State(*self));
        proof {
            assert(ops(plan@) =~= ops(old(plan)@) + old(self).power_on_ops().0);
        }
    }

    fn init(&mut self, plan: &mut Vec<Step>)
        ensures
            ops(final(plan)@) == ops(old(plan)@) + old(self).init_ops().0,
            *final(self) == old(self).init_ops().1,
    {
        init_display(plan);
        self.power_on(plan);
        self.initialized = true;
        push_step(plan, Step::State(*self));
        proof {
            assert(ops(plan@) =~= ops(old(plan)@) + old(self).init_ops().0);
        }
    }

    fn ensure_init(&mut self, plan: &mut Vec<Step>)
        ensures
            ops(final(plan)@) == ops(old(plan)@) + old(self).ensure_init_ops().0,
            *final(self) == old(self).ensure_init_ops().1,
    {
        if !self.initialized {
            self.init(plan);
        } else {
            assert(ops(plan@) =~= ops(old(plan)@) + seq![]);
        }
    }

    fn update_full(&mut self, plan: &mut Vec<Step>)
        ensures
            ops(final(plan)@) == ops(old(plan)@) + old(self).update_full_ops().0,
            *final(self) == old(self).update_full_ops().1,
    {
        self.initial_refresh = false;
        push_step(plan, Step::State(*self));
        activate(plan, MODE_FULL_UPDATE);
        proof {
            assert(ops(plan@) =~= ops(old(plan)@) + old(self).update_full_ops().0);
        }
    }

    fn update_part(plan: &mut Vec<Step>)
        ensures
            ops(final(plan)@) == ops(old(plan)@) + activate_ops(MODE_PARTIAL_UPDATE),
    {
        activate(plan, MODE_PARTIAL_UPDATE);
    }

    fn refresh(&mut self, plan: &mut Vec<Step>, rect: Rect)
        ensures
            ops(final(plan)@) == ops(old(plan)@) + old(self).refresh_ops(rect).0,
            *final(self) == old(self).refresh_ops(rect).1,
    {
        if self.initial_refresh {
            self.update_full(plan);
            return ;
        }
        let clipped = match rect.intersection(Rect::screen()) {
            Some(c) => c,
            None => {
                assert(ops(plan@) =~= ops(old(plan)@) + seq![]);
                return ;
            },
        };
        let aligned = align_to_bytes(clipped);
        self.ensure_init(plan);
        set_partial_ram_area(plan, aligned);
        Display::update_part(plan);
        proof {
            assert(ops(plan@) =~= ops(old(plan)@) + old(self).refresh_ops(rect).0);
        }
    }

    fn refresh_all(&mut self, plan: &mut Vec<Step>, partial_update_mode: bool)
        ensures
            ops(final(plan)@) == ops(old(plan)@) + old(self).refresh_all_ops(
                partial_update_mode,
            ).0,
            *final(self) == old(self).refresh_all_ops(partial_update_mode).1,
    {
        if partial_update_mode {
            self.refresh(plan, Rect::screen());
        } else {
            self.update_full(plan);
        }
    }

    fn prepare_write(&mut self, plan: &mut Vec<Step>)
        ensures
            ops(final(plan)@) == ops(old(plan)@) + old(self).prepare_write_ops().0,
            *final(self) == old(self).prepare_write_ops().1,
    {
        self.ensure_init(plan);
        if self.initial_write {
            write_screen_buffer_inner(plan, WRITE_RAM_RED, 0xFF);
            self.initial_write = false;
            push_step(plan, Step::State(*self));
        }
        proof {
            assert(ops(plan@) =~= ops(old(plan)@) + old(self).prepare_write_ops().0);
        }
    }

    fn write_screen_buffer(&mut self, plan: &mut Vec<Step>, value: u8)
        ensures
            ops(final(plan)@) == ops(old(plan)@) + old(self).write_screen_buffer_ops(value).0,
            *final(self) == old(self).write_screen_buffer_ops(value).1,
    {
        self.prepare_write(plan);
        write_screen_buffer_inner(plan, WRITE_RAM_BW, value);
        proof {
            assert(ops(plan@) =~= ops(old(plan)@) + old(self).write_screen_buffer_ops(value).0);
        }
    }

    fn write_screen_buffer_again(&mut self, plan: &mut Vec<Step>, value: u8)
        ensures
            ops(final(plan)@) == ops(old(plan)@) + old(self).write_screen_buffer_again_ops(
                value,
            ).0,
            *final(self) == old(self).write_screen_buffer_again_ops(value).1,
    {
        self.ensure_init(plan);
        write_screen_buffer_inner(plan, WRITE_RAM_BW, value);
        proof {
            assert(ops(plan@) =~= ops(old(plan)@) + old(self).write_screen_buffer_again_ops(
                value,
            ).0);
        }
    }

    /// Pre-clears on the first write of the session, then, when the rectangle meets the
    /// panel, brings it up if needed and sends the bitmap into the clipped, byte-aligned
    /// window of the black-and-white RAM bank.
    fn write_image_inner(&mut self, plan: &mut Vec<Step>, rect: Rect)
        ensures
            ops(final(plan)@) == ops(old(plan)@) + old(self).write_image_ops(rect).0,
            *final(self) == old(self).write_image_ops(rect).1,
    {
        let clipped = match rect.intersection(Rect::screen()) {
            Some(c) => c,
            None => {
                if self.initial_write {
                    self.prepare_write(plan);
                } else {
                    assert(ops(plan@) =~= ops(old(plan)@) + seq![]);
                }
                return ;
            },
        };
        self.prepare_write(plan);
        let aligned = align_to_bytes(clipped);
        set_partial_ram_area(plan, aligned);
        transfer_command(plan, WRITE_RAM_BW);
        push_step(plan, Step::WriteBitmap);
        proof {
            assert(ops(plan@) =~= ops(old(plan)@) + old(self).write_image_ops(rect).0);
        }
    }
}

/// The rectangle `[x_lo, x_hi) x [y_lo, y_hi)`.
pub open spec fn rect_of(x_lo: i16, y_lo: i16, x_hi: i16, y_hi: i16) -> Rect {
    Rect { x: Span { lo: x_lo, hi: x_hi }, y: Span { lo: y_lo, hi: y_hi } }
}

impl Display {
    /// A new driver, and the steps that put its lines in their idle levels.
    pub fn new() -> (r: (Display, Vec<Step>))
        ensures
            r.0 == Display::fresh(),
            ops(r.1@) == construct_ops(),
    {
        let mut plan: Vec<Step> = Vec::new();
        push_step(&mut plan, Step::SetDc(true));
        push_step(&mut plan, Step::SetRst(true));
        proof {
            assert(ops(plan@) =~= construct_ops());
        }
        let display = Display {
            power_is_on: false,
            initialized: false,
            initial_refresh: true,
            initial_write: true,
        };
        (display, plan)
    }

    /// Pulses the reset line; the driver's state is left as it is.
    pub fn reset(&self) -> (plan: Vec<Step>)
        ensures
            ops(plan@) == reset_ops(),
            state_after(*self, ops(plan@)) == *self,
    {
        proof {
            lemma_plans_settle(*self, screen(), 0);
        }
        let mut plan: Vec<Step> = Vec::new();
        push_step(&mut plan, Step::SetRst(false));
        push_step(&mut plan, Step::DelayMs(10));
        push_step(&mut plan, Step::SetRst(true));
        push_step(&mut plan, Step::DelayMs(10));
        proof {
            assert(ops(plan@) =~= reset_ops());
        }
        plan
    }

    /// Fills the panel with `value`: write, partial refresh of the whole panel, write again.
    pub fn clear_screen(&self, value: u8) -> (plan: Vec<Step>)
        ensures
            ops(plan@) == self.clear_screen_ops(value).0,
            state_after(*self, ops(plan@)) == self.clear_screen_ops(value).1,
    {
        proof {
            lemma_plans_settle(*self, screen(), value);
        }
        let mut plan: Vec<Step> = Vec::new();
        let mut s = *self;
        s.write_screen_buffer(&mut plan, value);
        s.refresh_all(&mut plan, true);
        s.write_screen_buffer_again(&mut plan, value);
        proof {
            assert(ops(plan@) =~= self.clear_screen_ops(value).0);
        }
        plan
    }

    /// Shows the caller's bitmap in the rectangle: write, refresh, and the same write
    /// again so that the controller's RAM matches what the panel now shows.
    pub fn draw_image(&self, x_lo: i16, y_lo: i16, x_hi: i16, y_hi: i16) -> (plan: Vec<Step>)
        ensures
            ops(plan@) == self.draw_image_ops(rect_of(x_lo, y_lo, x_hi, y_hi)).0,
            state_after(*self, ops(plan@)) == self.draw_image_ops(rect_of(x_lo, y_lo, x_hi, y_hi)).1,
    {
        let rect = Rect { x: Span { lo: x_lo, hi: x_hi }, y: Span { lo: y_lo, hi: y_hi } };
        proof {
            lemma_plans_settle(*self, rect, 0);
        }
        let mut plan: Vec<Step> = Vec::new();
        let mut s = *self;
        s.write_image_inner(&mut plan, rect);
        s.refresh(&mut plan, rect);
        s.write_image_inner(&mut plan, rect);
        proof {
            assert(ops(plan@) =~= self.draw_image_ops(rect).0);
        }
        plan
    }

    /// Writes the caller's bitmap into the rectangle of the controller's RAM without
    /// refreshing.
    pub fn write_image(&self, x_lo: i16, y_lo: i16, x_hi: i16, y_hi: i16) -> (plan: Vec<Step>)
        ensures
            ops(plan@) == self.write_image_ops(rect_of(x_lo, y_lo, x_hi, y_hi)).0,
            state_after(*self, ops(plan@)) == self.write_image_ops(rect_of(x_lo, y_lo, x_hi, y_hi)).1,
    {
        let rect = Rect { x: Span { lo: x_lo, hi: x_hi }, y: Span { lo: y_lo, hi: y_hi } };
        proof {
            lemma_plans_settle(*self, rect, 0);
        }
        let mut plan: Vec<Step> = Vec::new();
        let mut s = *self;
        s.write_image_inner(&mut plan, rect);
        assert(ops(plan@) =~= seq![] + self.write_image_ops(rect).0);
        plan
    }

    /// Powers the panel off unless it already is; the next drawing brings it up again.
    pub fn power_off(&self) -> (plan: Vec<Step>)
        ensures
            ops(plan@) == self.power_off_ops().0,
            state_after(*self, ops(plan@)) == self.power_off_ops().1,
    {
        proof {
            lemma_plans_settle(*self, screen(), 0);
        }
        let mut plan: Vec<Step> = Vec::new();
        if self.power_is_on {
            activate(&mut plan, MODE_POWER_OFF);
            let off = Display { power_is_on: false, initialized: false, ..*self };
            push_step(&mut plan, Step::State(off));
        }
        proof {
            assert(ops(plan@) =~= self.power_off_ops().0);
        }
        plan
    }
}

/// Widens the X span of a rectangle on the panel to whole bytes.
fn align_to_bytes(r: Rect) -> (a: Rect)
    requires
        on_screen(r),
    ensures
        a == byte_aligned(r),
        on_screen(a),
{
    let lo = floor_multiple(r.x.lo, 8);
    let hi = ceil_multiple(r.x.hi, 8);
    Rect { x: Span { lo, hi }, y: r.y }
}

} // verus!
