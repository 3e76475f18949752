//! A deterministic test-control harness for a query coordinator that learns
//! about progress and results only through an asynchronous feedback channel.
//!
//! The harness sits between the coordinator and its feedback source. It
//! buffers feedback, releases chosen parts of it, drives a logical clock by
//! hand, keeps named query sessions, and interprets a small directive
//! protocol that exercises all of this.
//!
//! The harness decides and a driver acts: [`interpreter`] hands the driver
//! one action at a time ([`protocol`]), as [`transition`] prescribes, and
//! [`laws`] states what holds of every step. The parts that the interpreter
//! is made of stand by themselves: the logical clock ([`clock`]), the queue
//! of intercepted feedback and its release policies ([`feedback`],
//! [`queue`]), the injected uppers ([`uppers`]), the snapshot of the
//! catalog ([`catalog`]), named sessions and batches of statements
//! ([`session`], [`batch`]), the rows that statements stream ([`peek`]),
//! the retry loop of a wait ([`wait`]) and the reading of a script's
//! records ([`directive`]).
//!
//! Two small libraries of the system under test come with the harness:
//! future, stream and sink combinators that are polled by hand
//! ([`future`]), and the renames in the `CREATE` statements of catalog
//! items ([`ast`], [`transform`]).

pub mod ast;
pub mod batch;
pub mod catalog;
pub mod clock;
pub mod directive;
pub mod feedback;
pub mod future;
pub mod harness;
pub mod interpreter;
pub mod laws;
pub mod names;
pub mod peek;
pub mod protocol;
pub mod queue;
pub mod session;
pub mod text;
pub mod transform;
pub mod transition;
pub mod uppers;
pub mod wait;
