//! Future, stream and sink combinators, polled once at a time.
//!
//! A combinator here holds the state that its kind of future keeps between
//! polls, and says for each poll what becomes of that state and what the
//! poll gives. The poll of whatever the combinator wraps is an event that
//! the driver hands in; nothing here suspends.

use core::future::Future;
use core::marker::PhantomData;
use vstd::future::FutureAdditionalSpecFns;
use vstd::prelude::*;

verus! {

/// `futures::future::Map`: the future that `FutureExt::map` makes of a
/// future and a function. Nothing is known of it but what [`map_future`]
/// says.
#[verifier::external_type_specification]
#[verifier::external_body]
#[verifier::reject_recursive_types(Fut)]
#[verifier::reject_recursive_types(F)]
pub struct ExMapped<Fut, F>(futures::future::Map<Fut, F>);

/// `futures::future::FutureExt::map`: the future that, when `fut`
/// completes, hands its output to `f` and completes with what `f` returns.
/// Whatever `fut` completes with, `f` must take it.
#[verifier::external_body]
fn map_future<T, R, Fut, F>(fut: Fut, f: F) -> (mapped: futures::future::Map<Fut, F>) where
    Fut: Future<Output = T>,
    F: FnOnce(T) -> R,

    requires
        forall|t: T| f.requires((t,)),
    ensures
        f.ensures((fut@,), mapped@),
{
    futures::future::FutureExt::map(fut, f)
}

/// What one poll gives: the value, or word that it is not there yet.
#[derive(Clone, Copy, Debug, PartialEq, Eq)]
pub enum Polled<T> {
    Ready(T),
    Pending,
}

/// One of three futures that give the same kind of value, as one type.
#[derive(Debug)]
pub enum Either3<A, B, C> {
    /// The first variant of the type.
    A(A),
    /// The second variant of the type.
    B(B),
    /// The third variant of the type.
    C(C),
}

/// Wrapping a future as one of three.
pub trait OreFutureExt: Sized {
    /// This future as the first of three.
    fn either_a<U, V>(self) -> (either: Either3<Self, U, V>)
        ensures
            either == Either3::<Self, U, V>::A(self),
    ;

    /// This future as the second of three.
    fn either_b<U, V>(self) -> (either: Either3<U, Self, V>)
        ensures
            either == Either3::<U, Self, V>::B(self),
    ;

    /// This future as the third of three.
    fn either_c<U, V>(self) -> (either: Either3<U, V, Self>)
        ensures
            either == Either3::<U, V, Self>::C(self),
    ;

    /// This future wrapped so that, if it is dropped before it is done, it
    /// can be handed on to run to its end.
    fn spawn_if_canceled(self) -> (wrapped: SpawnIfCanceled<Self>)
        ensures
            wrapped@ == Some(self),
    ;
}

impl<T: Future> OreFutureExt for T {
    fn either_a<U, V>(self) -> (either: Either3<T, U, V>) {
        Either3::A(self)
    }

    fn either_b<U, V>(self) -> (either: Either3<U, T, V>) {
        Either3::B(self)
    }

    fn either_c<U, V>(self) -> (either: Either3<U, V, T>) {
        Either3::C(self)
    }

    fn spawn_if_canceled(self) -> (wrapped: SpawnIfCanceled<T>) {
        SpawnIfCanceled { inner: Some(self) }
    }
}

/// A future that is to run to its end even if its owner lets go of it.
pub struct SpawnIfCanceled<Fut> {
    /// The future; `None` once it is done or handed on.
    pub inner: Option<Fut>,
}

impl<Fut> SpawnIfCanceled<Fut> {
    /// The future that is wrapped; `None` once it is done or handed on.
    pub open spec fn view(&self) -> Option<Fut> {
        self.inner
    }

    /// Takes the result of polling the wrapped future and gives it on. A
    /// future that is ready is done, and is let go of.
    ///
    /// A future that is done must not be polled again.
    pub fn polled<T>(&mut self, polled: Polled<T>) -> (given: Polled<T>)
        requires
            old(self)@ is Some,
        ensures
            given == polled,
            final(self)@ == if polled is Ready {
                None
            } else {
                old(self)@
            },
    {
        match polled {
            Polled::Pending => Polled::Pending,
            Polled::Ready(res) => {
                self.inner = None;
                Polled::Ready(res)
            },
        }
    }

    /// Lets go of the wrapper: a future that is not done comes out, to be
    /// spawned as a task of its own.
    pub fn canceled(&mut self) -> (unfinished: Option<Fut>)
        ensures
            unfinished == old(self)@,
            final(self)@ is None,
    {
        let mut unfinished: Option<Fut> = None;
        core::mem::swap(&mut unfinished, &mut self.inner);
        unfinished
    }

    /// How the wrapper shows its content to a reader.
    pub fn describe(&self) -> (text: &'static str)
        ensures
            text@ == if self@ is Some {
                "Some(<future>)"@
            } else {
                "None"@
            },
    {
        match &self.inner {
            None => "None",
            Some(_) => "Some(<future>)",
        }
    }
}

/// Discarding all items of a stream.
pub trait OreStreamExt: Sized {
    /// The future that takes the items of this stream until it ends, and
    /// throws them away.
    fn drain(self) -> (draining: Drain<Self>)
        ensures
            draining@ == self,
    ;
}

impl<S> OreStreamExt for S {
    fn drain(self) -> (draining: Drain<S>) {
        Drain(self)
    }
}

/// The future that a stream becomes when its items are discarded.
#[derive(Debug)]
pub struct Drain<S>(pub S);

/// How a drain goes on after a poll of its stream.
#[derive(Clone, Copy, Debug, PartialEq, Eq)]
pub enum DrainStep {
    /// An item came and is discarded: poll the stream again.
    Again,
    /// The stream has nothing yet: the drain is pending.
    Pending,
    /// The stream has ended: the drain is ready.
    Done,
}

impl<S> Drain<S> {
    /// The stream that is drained.
    pub open spec fn view(&self) -> S {
        self.0
    }

    /// Takes the result of polling the stream for its next item.
    pub fn polled<Item>(&self, next: Polled<Option<Item>>) -> (step: DrainStep)
        ensures
            step == match next {
                Polled::Ready(Some(_)) => DrainStep::Again,
                Polled::Ready(None) => DrainStep::Done,
                Polled::Pending => DrainStep::Pending,
            },
    {
        match next {
            Polled::Ready(Some(_)) => DrainStep::Again,
            Polled::Ready(None) => DrainStep::Done,
            Polled::Pending => DrainStep::Pending,
        }
    }
}

/// The future that gives the next item of a stream of results and takes
/// the end of the stream for an error.
#[derive(Debug)]
pub struct TryRecv<E>(E);

impl<E> TryRecv<E> {
    /// The error that stands for the end of the stream.
    pub closed spec fn view(&self) -> E {
        self.0
    }

    /// A receiver that reports the end of its stream as `eof`.
    pub fn new(eof: E) -> (receiver: Self)
        ensures
            receiver@ == eof,
    {
        TryRecv(eof)
    }

    /// Takes the result of polling the stream for its next item.
    ///
    /// An item or an error of the stream is given on as it is; the end of
    /// the stream is given as the error that stands for it.
    pub fn polled<T>(self, next: Polled<Option<Result<T, E>>>) -> (given: Polled<Result<T, E>>)
        ensures
            given == match next {
                Polled::Ready(Some(Ok(r))) => Polled::Ready(Ok::<T, E>(r)),
                Polled::Ready(Some(Err(err))) => Polled::Ready(Err::<T, E>(err)),
                Polled::Ready(None) => Polled::Ready(Err::<T, E>(self@)),
                Polled::Pending => Polled::Pending,
            },
    {
        match next {
            Polled::Ready(Some(Ok(r))) => Polled::Ready(Ok(r)),
            Polled::Ready(Some(Err(err))) => Polled::Ready(Err(err)),
            Polled::Ready(None) => Polled::Ready(Err(self.0)),
            Polled::Pending => Polled::Pending,
        }
    }
}

/// The future that puts one item into a sink without flushing the sink.
#[derive(Debug)]
#[must_use]
pub struct Enqueue<Item> {
    item: Option<Item>,
}

/// How an enqueue goes on after the sink was asked whether it is ready.
#[derive(Debug, PartialEq, Eq)]
pub enum EnqueueStep<Item, E> {
    /// The sink is ready: send it this item; what the sending gives is what
    /// the future is ready with.
    Send(Item),
    /// The future is ready with this result.
    Ready(Result<(), E>),
    /// The sink is not ready: the future is pending and keeps its item.
    Pending,
}

impl<Item> Enqueue<Item> {
    /// The item that is still to be sent.
    pub closed spec fn view(&self) -> Option<Item> {
        self.item
    }

    /// The future that will put `item` into a sink.
    pub fn new(item: Item) -> (enqueue: Self)
        ensures
            enqueue@ == Some(item),
    {
        Enqueue { item: Some(item) }
    }

    /// Whether the item is still to be sent, so that a poll has to ask the
    /// sink whether it is ready.
    pub fn holds_item(&self) -> (holds: bool)
        ensures
            holds == (self@ is Some),
    {
        self.item.is_some()
    }

    /// Takes the answer of the sink to the question whether it is ready.
    /// Where the item is sent already, the sink is not asked, and `ready`
    /// is not looked at.
    ///
    /// A sink that is ready gets the item. One that fails ends the future
    /// with its error, and the item is lost. One that is not ready leaves
    /// the future pending, with its item.
    pub fn polled<E>(&mut self, ready: Polled<Result<(), E>>) -> (step: EnqueueStep<Item, E>)
        ensures
            match old(self)@ {
                None => step == EnqueueStep::<Item, E>::Ready(Ok(())) && final(self)@ is None,
                Some(item) => match ready {
                    Polled::Ready(Ok(())) => step == EnqueueStep::<Item, E>::Send(item)
                        && final(self)@ is None,
                    Polled::Ready(Err(e)) => step == EnqueueStep::<Item, E>::Ready(Err(e))
                        && final(self)@ is None,
                    Polled::Pending => step == EnqueueStep::<Item, E>::Pending && final(self)@
                        == Some(item),
                },
            },
    {
        let mut held: Option<Item> = None;
        core::mem::swap(&mut held, &mut self.item);
        match held {
            None => EnqueueStep::Ready(Ok(())),
            Some(item) => match ready {
                Polled::Ready(Ok(())) => EnqueueStep::Send(item),
                Polled::Ready(Err(e)) => EnqueueStep::Ready(Err(e)),
                Polled::Pending => {
                    self.item = Some(item);
                    EnqueueStep::Pending
                },
            },
        }
    }
}

/// Constructs a sink that consumes its input and sends it nowhere.
pub fn dev_null<T, E>() -> (sink: DevNull<T, E>)
    ensures
        sink == DevNull::<T, E>(PhantomData, PhantomData),
{
    DevNull(PhantomData, PhantomData)
}

/// A sink that consumes its input and sends it nowhere.
#[derive(Debug)]
pub struct DevNull<T, E>(pub PhantomData<T>, pub PhantomData<E>);

impl<T, E> DevNull<T, E> {
    /// The sink is always ready.
    pub fn poll_ready(&self) -> (ready: Polled<Result<(), E>>)
        ensures
            ready == Polled::Ready(Ok::<(), E>(())),
    {
        Polled::Ready(Ok(()))
    }

    /// The item is taken and gone.
    pub fn start_send(&self, item: T) -> (sent: Result<(), E>)
        ensures
            sent == Ok::<(), E>(()),
    {
        let _ = item;
        Ok(())
    }

    /// There is never anything to flush.
    pub fn poll_flush(&self) -> (flushed: Polled<Result<(), E>>)
        ensures
            flushed == Polled::Ready(Ok::<(), E>(())),
    {
        Polled::Ready(Ok(()))
    }

    /// There is never anything to close.
    pub fn poll_close(&self) -> (closed: Polled<Result<(), E>>)
        ensures
            closed == Polled::Ready(Ok::<(), E>(())),
    {
        Polled::Ready(Ok(()))
    }
}

/// Either a future or an immediately available value.
pub enum MaybeFuture<T, Fut> {
    /// An immediately available value. It is there until it is taken.
    Immediate(Option<T>),
    /// A computation producing the value.
    Future(Fut),
}

impl<T, Fut: Future<Output = T>> MaybeFuture<T, Fut> {
    /// The value `t`, immediately available.
    pub fn from(t: T) -> (ready: Self)
        ensures
            ready == MaybeFuture::<T, Fut>::Immediate(Some(t)),
    {
        MaybeFuture::Immediate(Some(t))
    }

    /// Applies a function to the underlying value: at once where the value
    /// is there, and after the future completes where it is not. Either
    /// way the value that comes out is what `f` gives for the value that
    /// went in.
    pub fn map<F, R>(self, f: F) -> (mapped: MaybeFuture<R, futures::future::Map<Fut, F>>) where
        F: FnOnce(T) -> R,

        requires
            self matches MaybeFuture::Immediate(Some(t)) ==> f.requires((t,)),
            self is Future ==> forall|t: T| f.requires((t,)),
        ensures
            match self {
                MaybeFuture::Immediate(Some(t)) => mapped matches MaybeFuture::Immediate(Some(r))
                    && f.ensures((t,), r),
                MaybeFuture::Immediate(None) => mapped == MaybeFuture::<
                    R,
                    futures::future::Map<Fut, F>,
                >::Immediate(None),
                MaybeFuture::Future(fut) => mapped matches MaybeFuture::Future(m) && f.ensures(
                    (fut@,),
                    m@,
                ),
            },
    {
        match self {
            MaybeFuture::Immediate(t) => MaybeFuture::Immediate(
                match t {
                    Some(t) => Some(f(t)),
                    None => None,
                },
            ),
            MaybeFuture::Future(fut) => MaybeFuture::Future(map_future(fut, f)),
        }
    }

    /// Takes the value out where it is immediately available: the poll of
    /// such a future is ready with it, once.
    pub fn take_immediate(&mut self) -> (value: Option<T>)
        ensures
            match *old(self) {
                MaybeFuture::Immediate(t) => value == t && *final(self) == MaybeFuture::<
                    T,
                    Fut,
                >::Immediate(None),
                MaybeFuture::Future(_) => value is None && *final(self) == *old(self),
            },
    {
        match self {
            MaybeFuture::Immediate(t) => {
                let mut value: Option<T> = None;
                core::mem::swap(&mut value, t);
                value
            },
            MaybeFuture::Future(_) => None,
        }
    }
}

} // verus!
