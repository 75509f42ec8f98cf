//! The schedule of the inertial system: on a millisecond tick it samples the
//! inertial sensor, on every tenth the magnetometer, and on every twentieth it
//! sends the orientation system a batch of twenty inertial frames and two
//! magnetometer frames, when that many were collected.

use vstd::prelude::*;

verus! {

/// Ticks between two samples of the inertial sensor.
pub const INERTIAL_DIVISOR: u64 = 1;
/// Ticks between two samples of the magnetometer.
pub const MAG_DIVISOR: u64 = 10;
/// Ticks between two batches.
pub const BATCH_DIVISOR: u64 = 20;
/// Inertial frames in a batch.
pub const INERTIAL_PER_BATCH: usize = 20;
/// Magnetometer frames in a batch.
pub const MAG_PER_BATCH: usize = 2;

/// What the inertial system does on one tick.
#[derive(Debug, Clone, Copy, PartialEq, Eq, Structural)]
pub struct TickPlan {
    /// Sample the inertial sensor.
    pub read_inertial: bool,
    /// Sample the magnetometer.
    pub read_mag: bool,
    /// Send a batch if one is complete.
    pub send_batch: bool,
}

/// The plan of tick `counter`.
pub fn tick_plan(counter: u64) -> (p: TickPlan)
    ensures
        p.read_inertial == (counter % INERTIAL_DIVISOR == 0),
        p.read_mag == (counter % MAG_DIVISOR == 0),
        p.send_batch == (counter % BATCH_DIVISOR == 0),
{
    TickPlan {
        read_inertial: counter % INERTIAL_DIVISOR == 0,
        read_mag: counter % MAG_DIVISOR == 0,
        send_batch: counter % BATCH_DIVISOR == 0,
    }
}

/// The frames collected since the last batch, oldest first.
pub struct SensorBatcher<I, M> {
    inertial: Vec<I>,
    mag: Vec<M>,
}

impl<I, M> SensorBatcher<I, M> {
    /// The inertial frames collected since the last batch.
    pub closed spec fn inertial_frames(&self) -> Seq<I> {
        self.inertial@
    }

    /// The magnetometer frames collected since the last batch.
    pub closed spec fn mag_frames(&self) -> Seq<M> {
        self.mag@
    }

    /// Nothing collected yet.
    pub fn new() -> (b: Self)
        ensures
            b.inertial_frames() == Seq::<I>::empty(),
            b.mag_frames() == Seq::<M>::empty(),
    {
        SensorBatcher { inertial: Vec::new(), mag: Vec::new() }
    }

    /// Keeps an inertial frame.
    pub fn push_inertial(&mut self, frame: I)
        ensures
            final(self).inertial_frames() == old(self).inertial_frames().push(frame),
            final(self).mag_frames() == old(self).mag_frames(),
    {
        self.inertial.push(frame);
    }

    /// Keeps a magnetometer frame.
    pub fn push_mag(&mut self, frame: M)
        ensures
            final(self).mag_frames() == old(self).mag_frames().push(frame),
            final(self).inertial_frames() == old(self).inertial_frames(),
    {
        self.mag.push(frame);
    }

    /// When enough frames were collected, hands out the oldest twenty
    /// inertial frames and two magnetometer frames as a batch and drops every
    /// collected frame; otherwise keeps collecting.
    pub fn take_batch(&mut self) -> (batch: Option<(Vec<I>, Vec<M>)>)
        ensures
            (old(self).inertial_frames().len() >= INERTIAL_PER_BATCH
                && old(self).mag_frames().len() >= MAG_PER_BATCH) == batch is Some,
            batch matches Some((i, m)) ==> {
                &&& i@ == old(self).inertial_frames().subrange(0, INERTIAL_PER_BATCH as int)
                &&& m@ == old(self).mag_frames().subrange(0, MAG_PER_BATCH as int)
                &&& final(self).inertial_frames() == Seq::<I>::empty()
                &&& final(self).mag_frames() == Seq::<M>::empty()
            },
            batch is None ==> final(self).inertial_frames() == old(self).inertial_frames()
                && final(self).mag_frames() == old(self).mag_frames(),
    {
        if self.inertial.len() < INERTIAL_PER_BATCH || self.mag.len() < MAG_PER_BATCH {
            return None;
        }
        let mut all_inertial: Vec<I> = Vec::new();
        let mut all_mag: Vec<M> = Vec::new();
        std::mem::swap(&mut all_inertial, &mut self.inertial);
        std::mem::swap(&mut all_mag, &mut self.mag);
        all_inertial.truncate(INERTIAL_PER_BATCH);
        all_mag.truncate(MAG_PER_BATCH);
        Some((all_inertial, all_mag))
    }
}

/// Schedule law: every batch tick samples both sensors, and the magnetometer
/// is sampled twice per batch period.
pub proof fn lemma_batch_ticks_sample_both(counter: u64)
    ensures
        counter % BATCH_DIVISOR == 0 ==> counter % MAG_DIVISOR == 0 && counter % INERTIAL_DIVISOR == 0,
{
}

} // verus!
