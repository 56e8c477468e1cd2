//! VL53L4CD time-of-flight distance sensor: the decisions of a distance read.
//! A measurement is read only when the sensor says one is ready, and it is
//! acknowledged (its interrupt cleared) before its distance is given out.
use vstd::prelude::*;

verus! {

/// The stages of a distance read.
#[allow(inconsistent_fields)]
#[derive(Debug, Clone, Copy, PartialEq, Eq, Structural)]
pub enum ReadStage {
    /// Ask whether a measurement is ready.
    CheckReady,
    /// Read the estimated measurement.
    Measure,
    /// Clear the interrupt, acknowledging the measurement of `distance_mm`.
    Acknowledge { distance_mm: u16 },
    /// Finished: the distance read, or `None` when no measurement was ready.
    Done { distance_mm: Option<u16> },
}

/// What the step that a stage asked for gave.
#[derive(Debug, Clone, Copy, PartialEq, Eq, Structural)]
pub enum ReadEvent {
    /// Whether a measurement is ready.
    Ready(bool),
    /// The estimated distance of the measurement, in millimetres.
    Measured { distance_mm: u16 },
    /// The interrupt was cleared.
    Acknowledged,
}

/// Whether `event` answers the step of `stage`.
pub open spec fn read_event_fits(stage: ReadStage, event: ReadEvent) -> bool {
    match stage {
        ReadStage::CheckReady => event is Ready,
        ReadStage::Measure => event is Measured,
        ReadStage::Acknowledge { .. } => event is Acknowledged,
        ReadStage::Done { .. } => false,
    }
}

/// One step of a distance read: no measurement ready gives `None`; otherwise
/// the measurement is read, acknowledged, and its distance given.
pub fn read_distance_step(stage: ReadStage, event: ReadEvent) -> (next: ReadStage)
    requires
        read_event_fits(stage, event),
    ensures
        match (stage, event) {
            (ReadStage::CheckReady, ReadEvent::Ready(ready)) => next == if ready {
                ReadStage::Measure
            } else {
                ReadStage::Done { distance_mm: None }
            },
            (ReadStage::Measure, ReadEvent::Measured { distance_mm }) => next
                == (ReadStage::Acknowledge { distance_mm }),
            (ReadStage::Acknowledge { distance_mm }, _) => next == (ReadStage::Done {
                distance_mm: Some(distance_mm),
            }),
            _ => false,
        },
{
    match (stage, event) {
        (ReadStage::CheckReady, ReadEvent::Ready(ready)) => if ready {
            ReadStage::Measure
        } else {
            ReadStage::Done { distance_mm: None }
        },
        (ReadStage::Measure, ReadEvent::Measured { distance_mm }) => ReadStage::Acknowledge {
            distance_mm,
        },
        (ReadStage::Acknowledge { distance_mm }, _) => ReadStage::Done {
            distance_mm: Some(distance_mm),
        },
        _ => ReadStage::Done { distance_mm: None },
    }
}

} // verus!
