//! Verified core of a command-dispatch gateway.
//!
//! The gateway supervises one long-running interactive child process: an HTTP
//! ingress accepts text commands and forwards them, through an in-process
//! FIFO queue, to the child's input stream, while the child's output stream
//! is mirrored line by line into structured log records.
//!
//! This crate holds the decision logic of that pipeline, verified:
//! UTF-8 acceptance of request bodies, the queue's FIFO discipline, the
//! writer's and reader's per-event policies, and the supervisor's startup
//! checks. The surrounding process, thread and network plumbing lives
//! outside the verified core and drives these functions.

pub mod command;
pub mod dispatch;
pub mod reader;
pub mod supervisor;
pub mod utf8;
