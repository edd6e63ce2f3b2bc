//! The gateway error taxonomy and its classification predicates.

use vstd::prelude::*;

verus! {

/// The main error type for all gateway operations.
#[derive(Debug, Clone)]
pub enum GatewayError {
    /// Transport open or I/O failure.
    Connection(String),
    /// Operation attempted before connect or after disconnect.
    NotConnected,
    /// `connect` exceeded the given timeout in milliseconds.
    ConnectionTimeout(u64),
    /// Wire-level malformed response.
    Protocol(String),
    /// Response semantically wrong: length, unexpected function code.
    InvalidResponse(String),
    /// Feature not implemented for this protocol.
    Unsupported(String),
    /// Invalid data format.
    InvalidData(String),
    /// Data conversion failed.
    DataConversion(String),
    /// Point not found.
    PointNotFound(String),
    /// Configuration error.
    Config(String),
    /// Invalid address format.
    InvalidAddress(String),
    /// Underlying I/O error.
    Io(String),
    /// Read operation timeout.
    ReadTimeout,
    /// Write operation timeout.
    WriteTimeout,
    /// Modbus protocol error.
    Modbus(String),
    /// IEC 60870-5-104 protocol error.
    Iec104(String),
    /// DNP3 protocol error.
    Dnp3(String),
    /// OPC UA protocol error.
    OpcUa(String),
    /// Internal error (a bug).
    Internal(String),
    /// Channel closed.
    ChannelClosed,
}

impl GatewayError {
    /// Whether the error indicates the connection must be re-established.
    pub open spec fn spec_needs_reconnect(self) -> bool {
        match self {
            GatewayError::Connection(_) => true,
            GatewayError::NotConnected => true,
            GatewayError::ConnectionTimeout(_) => true,
            GatewayError::Io(_) => true,
            GatewayError::ChannelClosed => true,
            _ => false,
        }
    }

    /// Whether the operation may simply be retried.
    pub open spec fn spec_is_retryable(self) -> bool {
        match self {
            GatewayError::ReadTimeout => true,
            GatewayError::WriteTimeout => true,
            GatewayError::Connection(_) => true,
            _ => false,
        }
    }

    /// Check if this error indicates that reconnection is needed.
    pub fn needs_reconnect(&self) -> (r: bool)
        ensures
            r == self.spec_needs_reconnect(),
    {
        matches!(
            self,
            GatewayError::Connection(_)
                | GatewayError::NotConnected
                | GatewayError::ConnectionTimeout(_)
                | GatewayError::Io(_)
                | GatewayError::ChannelClosed
        )
    }

    /// Check if this error is retryable.
    pub fn is_retryable(&self) -> (r: bool)
        ensures
            r == self.spec_is_retryable(),
    {
        matches!(
            self,
            GatewayError::ReadTimeout | GatewayError::WriteTimeout | GatewayError::Connection(_)
        )
    }

    /// Create a protocol error.
    pub fn protocol(msg: &str) -> (e: GatewayError)
        ensures
            e matches GatewayError::Protocol(m) && m@ == msg@,
    {
        GatewayError::Protocol(msg.to_owned())
    }

    /// Create a connection error.
    pub fn connection(msg: &str) -> (e: GatewayError)
        ensures
            e matches GatewayError::Connection(m) && m@ == msg@,
    {
        GatewayError::Connection(msg.to_owned())
    }

    /// Create an I/O error from a message.
    pub fn io(msg: &str) -> (e: GatewayError)
        ensures
            e matches GatewayError::Io(m) && m@ == msg@,
    {
        GatewayError::Io(msg.to_owned())
    }

    /// Create a configuration error.
    pub fn config(msg: &str) -> (e: GatewayError)
        ensures
            e matches GatewayError::Config(m) && m@ == msg@,
    {
        GatewayError::Config(msg.to_owned())
    }

    /// Create an invalid-data error.
    pub fn invalid_data(msg: &str) -> (e: GatewayError)
        ensures
            e matches GatewayError::InvalidData(m) && m@ == msg@,
    {
        GatewayError::InvalidData(msg.to_owned())
    }

    /// Create a Modbus error.
    pub fn modbus(msg: &str) -> (e: GatewayError)
        ensures
            e matches GatewayError::Modbus(m) && m@ == msg@,
    {
        GatewayError::Modbus(msg.to_owned())
    }

    /// Create an internal error.
    pub fn internal(msg: &str) -> (e: GatewayError)
        ensures
            e matches GatewayError::Internal(m) && m@ == msg@,
    {
        GatewayError::Internal(msg.to_owned())
    }
}

} // verus!
