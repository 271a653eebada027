//! The sample record that flows from ingestion to the store and on to readers.

use vstd::prelude::*;

verus! {

/// One accepted reading of the sensor.
///
/// Measured quantities are carried as the bit patterns of IEEE 754 binary64
/// values: the pipeline moves them and never computes with them. The
/// timestamp counts milliseconds since the Unix epoch, in UTC.
#[derive(Clone, Copy, Debug, PartialEq, Eq, Structural)]
pub struct Sample {
    pub temperature_bits: u64,
    pub humidity_bits: u64,
    /// Present only for an outdoor sensor.
    pub pressure_bits: Option<u64>,
    pub timestamp: i64,
}

impl Sample {
    /// A reading of an indoor sensor: temperature and humidity.
    pub fn indoor(temperature_bits: u64, humidity_bits: u64, timestamp: i64) -> (sample: Sample)
        ensures
            sample == (Sample { temperature_bits, humidity_bits, pressure_bits: None, timestamp }),
    {
        Sample { temperature_bits, humidity_bits, pressure_bits: None, timestamp }
    }

    /// A reading of an outdoor sensor, which also measures pressure.
    pub fn outdoor(
        temperature_bits: u64,
        pressure_bits: u64,
        humidity_bits: u64,
        timestamp: i64,
    ) -> (sample: Sample)
        ensures
            sample == (Sample {
                temperature_bits,
                humidity_bits,
                pressure_bits: Some(pressure_bits),
                timestamp,
            }),
    {
        Sample { temperature_bits, humidity_bits, pressure_bits: Some(pressure_bits), timestamp }
    }

    /// The same measurements with the timestamp replaced by `at`.
    pub open spec fn stamped(self, at: i64) -> Sample {
        Sample { timestamp: at, ..self }
    }

    /// Replaces whatever timestamp the payload carried by the instant `at`.
    pub fn restamp(self, at: i64) -> (sample: Sample)
        ensures
            sample == self.stamped(at),
    {
        Sample {
            temperature_bits: self.temperature_bits,
            humidity_bits: self.humidity_bits,
            pressure_bits: self.pressure_bits,
            timestamp: at,
        }
    }

    /// Whether the reading comes from an outdoor sensor.
    pub fn is_outdoor(&self) -> (outdoor: bool)
        ensures
            outdoor == self.pressure_bits.is_some(),
    {
        self.pressure_bits.is_some()
    }
}

} // verus!
