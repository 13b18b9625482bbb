//! The log sink: formats each record and sends it to the host as a `log`
//! call over the channel it is bound to.
use crate::protocol::{format_record, log_payload, MAX_NAME_LEN, MAX_PAYLOAD_LEN};
use crate::serial::{call_state, SerialComm};
use vstd::prelude::*;
use vstd::string::StringSliceAdditionalSpecFns;

verus! {

/// The name under which log records are sent.
pub open spec fn log_name() -> Seq<u8> {
    "log".spec_bytes()
}

/// Sends log records over the channel it holds; without one it is disabled.
pub struct SerialLogger {
    pub serial_comm: Option<SerialComm>,
}

impl SerialLogger {
    /// A logger bound to `serial_comm`.
    pub fn init(serial_comm: SerialComm) -> (r: SerialLogger)
        ensures
            r.serial_comm == Some(serial_comm),
    {
        SerialLogger { serial_comm: Some(serial_comm) }
    }

    /// Whether the logger is bound to a channel.
    pub fn enabled(&self) -> (r: bool)
        ensures
            r == self.serial_comm.is_some(),
    {
        self.serial_comm.is_some()
    }

    /// Sends the record `level`, `message` as a `log` call. A disabled logger,
    /// or a channel before its handshake, drops it.
    pub fn log(&mut self, level: &str, message: &str)
        requires
            level.spec_bytes().len() <= MAX_NAME_LEN,
            level.spec_bytes().len() + message.spec_bytes().len() + 3 <= MAX_PAYLOAD_LEN,
        ensures
            old(self).serial_comm.is_none() ==> final(self).serial_comm.is_none(),
            old(self).serial_comm.is_some() ==> final(self).serial_comm.is_some(),
            old(self).serial_comm.is_some() ==> final(self).serial_comm.unwrap()@ == call_state(
                old(self).serial_comm.unwrap()@,
                log_name(),
                log_payload(level.spec_bytes(), message.spec_bytes()),
            ),
    {
        proof {
            reveal_strlit("log");
            vstd::string::is_ascii_spec_bytes("log");
            assert(vstd::string::is_ascii("log"));
        }
        match &mut self.serial_comm {
            Some(comm) => {
                let data = format_record(level, message);
                comm.call("log", data.as_slice());
            },
            None => {},
        }
    }
}

} // verus!
