//! Messages between the interface and its background worker, and how the
//! worker answers them.

use vstd::prelude::*;

use crate::error::AppError;

verus! {

/// A message to the interface.
#[derive(Debug)]
pub struct ToApp {
    pub message: ToAppMessage,
}

/// A message to the worker.
#[derive(Debug)]
pub struct ToWorker {
    pub message: ToWorkerMessage,
}

/// What the worker tells the interface.
#[derive(Debug)]
pub enum ToAppMessage {
    Pong,
    Error(AppError),
}

/// What the interface asks the worker.
#[derive(Debug)]
pub enum ToWorkerMessage {
    Ping,
}

/// The worker's answer to what it received: a pong to a ping, and a receive
/// error when receiving failed (`None`).
pub fn worker_reply(received: Option<ToWorker>) -> (r: ToApp)
    ensures
        match received {
            Some(m) => match m.message {
                ToWorkerMessage::Ping => r.message is Pong,
            },
            None => r.message matches ToAppMessage::Error(AppError::ChannelReceiveError),
        },
{
    match received {
        Some(m) => match m.message {
            ToWorkerMessage::Ping => ToApp { message: ToAppMessage::Pong },
        },
        None => ToApp { message: ToAppMessage::Error(AppError::ChannelReceiveError) },
    }
}

} // verus!
