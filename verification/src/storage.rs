//! The measurements that the device keeps: the sampling period and the stored
//! voltages, with the rule that decides when a new value is due.
use vstd::prelude::*;

verus! {

/// The sampling period, in minutes, of a store that has not been configured.
pub const DEFAULT_TIME: u8 = 10;

/// The persisted record: the sampling period in minutes and the stored values.
pub struct Data {
    pub time: u8,
    pub values: Vec<u16>,
}

impl Data {
    /// An empty record with the default period.
    pub fn new() -> (d: Self)
        ensures
            d.time == DEFAULT_TIME,
            d.values@ == Seq::<u16>::empty(),
    {
        let time: u8 = DEFAULT_TIME;
        let values: Vec<u16> = Vec::new();
        Self { time, values }
    }

    /// Stores one more value after the others.
    pub fn append_value(&mut self, value: u16)
        ensures
            final(self).time == old(self).time,
            final(self).values@ == old(self).values@.push(value),
    {
        self.values.push(value)
    }

    /// The stored values, oldest first.
    pub fn get_data(&self) -> (r: &Vec<u16>)
        ensures
            r@ == self.values@,
    {
        &self.values
    }
}

/// What a `StorageHandler` holds: the period, the values, and whether the last
/// check reported a data point.
pub ghost struct StoreView {
    pub time: u8,
    pub values: Seq<u16>,
    pub was_set: bool,
}

/// The outcome of one check of the clock at `now` seconds: the new state and
/// whether a data point is due. One is due when `now` is a whole multiple of the
/// period (in minutes) and the previous check did not report one.
pub open spec fn datapoint_step(v: StoreView, now: u64) -> (StoreView, bool) {
    let due = now as int % (v.time as int * 60) == 0 && !v.was_set;
    (StoreView { time: v.time, values: v.values, was_set: due }, due)
}

/// The labels of the stored values: value `i` is labelled `i * time` (its age in
/// minutes from the first one). One label is made per value, counted modulo 256.
pub open spec fn labels_of(v: StoreView) -> Seq<u16> {
    Seq::new(v.values.len() % 256, |i: int| (v.time as int * i) as u16)
}

/// The measurement store: the record, and the flag that keeps one second from
/// producing two data points.
pub struct StorageHandler {
    pointer: Data,
    was_set: bool,
}

impl View for StorageHandler {
    type V = StoreView;

    closed spec fn view(&self) -> StoreView {
        StoreView { time: self.pointer.time, values: self.pointer.values@, was_set: self.was_set }
    }
}

impl StorageHandler {
    /// A store that starts from the record read back from flash, or from an empty
    /// record with the default period where nothing could be read.
    pub fn new(stored: Option<Data>) -> (h: Self)
        ensures
            h@.was_set == false,
            match stored {
                Some(d) => h@.time == d.time && h@.values == d.values@,
                None => h@.time == DEFAULT_TIME && h@.values == Seq::<u16>::empty(),
            },
    {
        let pointer = match stored {
            Some(d) => d,
            None => Data::new(),
        };
        let was_set = false;
        Self { pointer, was_set }
    }

    /// The record, as it is to be persisted.
    pub fn data(&self) -> (d: &Data)
        ensures
            d.time == self@.time,
            d.values@ == self@.values,
    {
        &self.pointer
    }

    /// Stores one more value after the others.
    pub fn add_value(&mut self, value: u16)
        ensures
            final(self)@ == (StoreView {
                time: old(self)@.time,
                values: old(self)@.values.push(value),
                was_set: old(self)@.was_set,
            }),
    {
        self.pointer.append_value(value);
    }

    /// Drops every value and returns to the default period.
    pub fn rest_store(&mut self)
        ensures
            final(self)@ == (StoreView {
                time: DEFAULT_TIME,
                values: Seq::<u16>::empty(),
                was_set: old(self)@.was_set,
            }),
    {
        self.pointer = Data::new();
    }

    /// Sets the sampling period, in minutes.
    pub fn set_time(&mut self, time: u8)
        ensures
            final(self)@ == (StoreView {
                time: time,
                values: old(self)@.values,
                was_set: old(self)@.was_set,
            }),
    {
        self.pointer.time = time;
    }

    /// Whether a data point is due at `now_secs` (seconds since the Unix epoch):
    /// when `now_secs` is a whole multiple of the period and the previous check did
    /// not report one. The flag is left set exactly when a point is reported.
    pub fn has_datapoint(&mut self, now_secs: u64) -> (due: bool)
        requires
            old(self)@.time > 0,
        ensures
            (final(self)@, due) == datapoint_step(old(self)@, now_secs),
    {
        let period = self.pointer.time as u64 * 60;
        if now_secs % period == 0 && !self.was_set {
            self.was_set = true;
            return true;
        } else {
            self.was_set = false;
        }
        false
    }

    /// The stored values, oldest first.
    pub fn get_values(&self) -> (r: &Vec<u16>)
        ensures
            r@ == self@.values,
    {
        self.pointer.get_data()
    }

    /// The chart labels of the stored values (see `labels_of`).
    pub fn get_labels(&self) -> (out: Vec<u16>)
        ensures
            out@ == labels_of(self@),
    {
        let mut out: Vec<u16> = Vec::new();
        let len = (self.get_values().len() % 256) as u8;
        let time = self.pointer.time;
        let mut i: u8 = 0;
        while i < len
            invariant
                i <= len,
                len == self@.values.len() % 256,
                time == self@.time,
                out@.len() == i,
                forall|k: int| 0 <= k < i ==> out@[k] == (time as int * k) as u16,
            decreases len - i,
        {
            assert(time as int * i as int <= 255 * 255) by (nonlinear_arith)
                requires
                    time <= 255,
                    i <= 255,
            ;
            out.push(time as u16 * i as u16);
            i = i + 1;
        }
        assert(out@ =~= labels_of(self@));
        out
    }
}

/// A check that reports a data point is always followed by one that does not:
/// two consecutive checks never both report one, whatever the clock says.
pub proof fn law_no_two_datapoints_in_a_row(v: StoreView, now1: u64, now2: u64)
    requires
        v.time > 0,
    ensures
        !(datapoint_step(v, now1).1 && datapoint_step(datapoint_step(v, now1).0, now2).1),
{
}

/// A check never changes the period or the stored values.
pub proof fn law_check_keeps_values(v: StoreView, now: u64)
    ensures
        datapoint_step(v, now).0.time == v.time,
        datapoint_step(v, now).0.values == v.values,
{
}

/// After a check that did not report, a point is due at every whole multiple of
/// the period.
pub proof fn law_due_on_period_after_quiet_check(v: StoreView, now1: u64, now2: u64)
    requires
        v.time > 0,
        !datapoint_step(v, now1).1,
        now2 as int % (v.time as int * 60) == 0,
    ensures
        datapoint_step(datapoint_step(v, now1).0, now2).1,
{
}

/// The labels count the stored values modulo 256, start at 0 and go up by the
/// period at each step.
pub proof fn law_labels_step_by_period(v: StoreView)
    ensures
        labels_of(v).len() == v.values.len() % 256,
        labels_of(v).len() > 0 ==> labels_of(v)[0] == 0,
        forall|i: int|
            0 <= i < labels_of(v).len() - 1 ==> #[trigger] labels_of(v)[i + 1] == labels_of(v)[i]
                + v.time,
{
    assert forall|i: int| 0 <= i < labels_of(v).len() - 1 implies #[trigger] labels_of(v)[i + 1]
        == labels_of(v)[i] + v.time by {
        assert(v.time as int * i <= 255 * 254) by (nonlinear_arith)
            requires
                v.time <= 255,
                0 <= i < 255,
        ;
        assert(v.time as int * (i + 1) == v.time as int * i + v.time) by (nonlinear_arith);
    }
}

} // verus!
