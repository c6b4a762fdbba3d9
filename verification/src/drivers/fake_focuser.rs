//! Simulated focuser.
use vstd::prelude::*;

use crate::base::connections::Connection;
use crate::base::errors::{VastError, VastErrorType, VastResult};
use crate::text::owned;
use crate::types::common::TemperatureUnit;

verus! {

/// Highest position the simulated focuser accepts.
pub const MAX_POSITION: u32 = 200_000;

/// Position of a new simulated focuser.
pub const START_POSITION: u32 = 10_000;

fn connection_error(message: &str) -> (e: VastError)
    ensures
        e.error_type == VastErrorType::ConnectionError,
{
    VastError::new(VastErrorType::ConnectionError, owned(message))
}

fn invalid_input(message: &str) -> (e: VastError)
    ensures
        e.error_type == VastErrorType::InvalidInput,
{
    VastError::new(VastErrorType::InvalidInput, owned(message))
}

/// The outcome of a move request once the connection has answered whether
/// it is open: the new position, a connection error when it is not open, or
/// an invalid-input error for a position above [`MAX_POSITION`].
pub fn decide_move(connected: bool, position: u32) -> (r: VastResult<u32>)
    ensures
        connected && position <= MAX_POSITION ==> r == Ok::<u32, VastError>(position),
        connected && position > MAX_POSITION ==> (r matches Err(e) && e.error_type == VastErrorType::InvalidInput),
        !connected ==> (r matches Err(e) && e.error_type == VastErrorType::ConnectionError),
{
    if !connected {
        return Err(connection_error("Fake focuser is not connected"));
    }
    if position > MAX_POSITION {
        return Err(invalid_input("Fake focuser position exceeds max"));
    }
    Ok(position)
}

/// In-memory focuser: holds a position and a reporting unit, behind a
/// connection that must be open. Its temperature lives with the caller.
pub struct FakeFocuser<C: Connection> {
    connection: Option<C>,
    position: u32,
    temperature_unit: TemperatureUnit,
}

impl<C: Connection> FakeFocuser<C> {
    /// Whether a connection is attached.
    pub closed spec fn attached(&self) -> bool {
        self.connection is Some
    }

    /// Current position.
    pub closed spec fn position(&self) -> u32 {
        self.position
    }

    /// Reporting unit.
    pub closed spec fn unit(&self) -> TemperatureUnit {
        self.temperature_unit
    }

    /// A detached focuser at the start position, reporting Celsius.
    pub fn new() -> (r: Self)
        ensures
            !r.attached(),
            r.position() == START_POSITION,
            r.unit() == TemperatureUnit::Celsius,
    {
        FakeFocuser { connection: None, position: START_POSITION, temperature_unit: TemperatureUnit::Celsius }
    }

    /// Attaches a connection.
    pub fn connect_inner(&mut self, connection: C) -> (r: VastResult<()>)
        ensures
            r is Ok,
            final(self).attached(),
            final(self).position() == old(self).position(),
            final(self).unit() == old(self).unit(),
    {
        self.connection = Some(connection);
        Ok(())
    }

    /// Current position; an error when detached.
    pub fn current_position_inner(&self) -> (r: VastResult<u32>)
        ensures
            self.attached() ==> r == Ok::<u32, VastError>(self.position()),
            !self.attached() ==> (r matches Err(e) && e.error_type == VastErrorType::ConnectionError),
    {
        if self.connection.is_none() {
            return Err(connection_error("Fake focuser is not connected"));
        }
        Ok(self.position)
    }

    /// Moves to `position`: refused when the connection is not open or the
    /// position is above [`MAX_POSITION`]; [`decide_move`] decides on the
    /// connection's answer.
    pub fn move_to_inner(&mut self, position: u32) -> (r: VastResult<()>)
        ensures
            !old(self).attached() ==> (r matches Err(e) && e.error_type == VastErrorType::ConnectionError),
            r is Ok ==> position <= MAX_POSITION && final(self).position() == position,
            r is Err ==> final(self).position() == old(self).position(),
            r matches Err(e) ==> e.error_type == VastErrorType::ConnectionError || (e.error_type
                == VastErrorType::InvalidInput && position > MAX_POSITION),
            old(self).attached() && position > MAX_POSITION ==> r is Err,
            final(self).attached() == old(self).attached(),
            final(self).unit() == old(self).unit(),
    {
        let connected = match &mut self.connection {
            Some(c) => c.is_connected(),
            None => false,
        };
        match decide_move(connected, position) {
            Ok(p) => {
                self.position = p;
                Ok(())
            },
            Err(e) => Err(e),
        }
    }

    /// The focuser reports temperatures.
    pub fn temperature_supported_inner(&self) -> (r: bool)
        ensures
            r,
    {
        true
    }

    /// Reporting unit.
    pub fn current_temperature_unit_inner(&self) -> (r: TemperatureUnit)
        ensures
            r == self.unit(),
    {
        self.temperature_unit
    }

    /// Sets the reporting unit.
    pub fn set_temperature_unit_inner(&mut self, unit: TemperatureUnit) -> (r: VastResult<()>)
        ensures
            r is Ok,
            final(self).unit() == unit,
            final(self).attached() == old(self).attached(),
            final(self).position() == old(self).position(),
    {
        self.temperature_unit = unit;
        Ok(())
    }

    /// Closes and detaches the connection.
    pub fn disconnect_inner(&mut self) -> (r: VastResult<()>)
        ensures
            r is Ok,
            !final(self).attached(),
            final(self).position() == old(self).position(),
            final(self).unit() == old(self).unit(),
    {
        if let Some(c) = &mut self.connection {
            c.disconnect();
        }
        self.connection = None;
        Ok(())
    }

    /// Whether a connection is attached.
    pub fn is_attached(&self) -> (r: bool)
        ensures
            r == self.attached(),
    {
        self.connection.is_some()
    }
}

} // verus!
