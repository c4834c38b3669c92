//! What a connection keeps for each packet number space.

use crate::bytes::copy_at;
use crate::crypto::keys::Open;
use crate::crypto::keys::Seal;
use crate::error::Error;
use vstd::prelude::*;
use vstd::slice::slice_subrange;

verus! {

/// A packet number space.
#[derive(Clone, Copy, Debug, PartialEq, Eq, Structural)]
pub enum Epoch {
    Initial,
    Handshake,
    Application,
}

/// Bytes of a stream that wait to be sent.
pub struct SendBuf {
    pending: Vec<u8>,
    finished: bool,
}

impl View for SendBuf {
    type V = Seq<u8>;

    closed spec fn view(&self) -> Seq<u8> {
        self.pending@
    }
}

impl SendBuf {
    /// Whether the end of the stream was written.
    pub closed spec fn finished(&self) -> bool {
        self.finished
    }

    /// Nothing to send yet.
    pub fn new() -> (r: Self)
        ensures
            r@ == Seq::<u8>::empty(),
            !r.finished(),
    {
        SendBuf { pending: Vec::new(), finished: false }
    }

    /// Appends `data`, and with `fin` ends the stream. After the end nothing can be
    /// written.
    pub fn write(&mut self, data: &[u8], fin: bool) -> (r: Result<usize, Error>)
        ensures
            if old(self).finished() && data@.len() > 0 {
                r == Err::<usize, Error>(Error::FinalSize) && *final(self) == *old(self)
            } else {
                &&& r == Ok::<usize, Error>(data@.len() as usize)
                &&& final(self)@ == old(self)@ + data@
                &&& final(self).finished() == (old(self).finished() || fin)
            },
    {
        if self.finished && data.len() > 0 {
            return Err(Error::FinalSize);
        }
        self.pending.extend_from_slice(data);
        if fin {
            self.finished = true;
        }
        Ok(data.len())
    }

    /// Moves as many bytes as fit to `out`. Gives their number, and whether the
    /// stream ends with them.
    pub fn emit(&mut self, out: &mut [u8]) -> (r: Result<(usize, bool), Error>)
        ensures
            ({
                let n = if old(self)@.len() < old(out)@.len() {
                    old(self)@.len()
                } else {
                    old(out)@.len()
                };
                &&& r == Ok::<(usize, bool), Error>(
                    (n as usize, old(self).finished() && n == old(self)@.len()),
                )
                &&& final(out)@ == crate::bytes::spliced(old(out)@, 0, old(self)@.take(n as int))
                &&& final(self)@ == old(self)@.skip(n as int)
                &&& final(self).finished() == old(self).finished()
            }),
    {
        let n: usize = if self.pending.len() < out.len() {
            self.pending.len()
        } else {
            out.len()
        };
        proof {
            assert(self.pending@.subrange(0, n as int) =~= self.pending@.take(n as int));
        }
        copy_at(out, 0, slice_subrange(&self.pending, 0, n));
        let rest: Vec<u8> = self.pending.split_off(n);
        proof {
            assert(rest@ =~= old(self)@.skip(n as int));
        }
        self.pending = rest;
        Ok((n, self.finished && self.pending.len() == 0))
    }

    /// Whether there is something to send.
    pub fn has_pending(&self) -> (r: bool)
        ensures
            r == (self@.len() > 0),
    {
        self.pending.len() > 0
    }
}

/// The stream of handshake data of a packet number space.
pub struct CryptoStream {
    pub send: SendBuf,
}

/// Keys and handshake data of a packet number space, by contents.
pub struct SpaceView {
    pub open: Option<Open>,
    pub seal: Option<Seal>,
    pub zero_rtt_open: Option<Open>,
    pub pending: Seq<u8>,
    pub finished: bool,
}

/// Keys and handshake data of a packet number space.
pub struct CryptoContext {
    pub crypto_open: Option<Open>,
    pub crypto_seal: Option<Seal>,
    pub crypto_0rtt_open: Option<Open>,
    pub crypto_stream: CryptoStream,
}

impl CryptoContext {
    /// No keys and no data.
    pub fn new() -> (r: Self)
        ensures
            r.crypto_open is None,
            r.crypto_seal is None,
            r.crypto_0rtt_open is None,
            r.crypto_stream.send@ == Seq::<u8>::empty(),
            !r.crypto_stream.send.finished(),
    {
        CryptoContext {
            crypto_open: None,
            crypto_seal: None,
            crypto_0rtt_open: None,
            crypto_stream: CryptoStream { send: SendBuf::new() },
        }
    }

    /// Keys and handshake data, by contents.
    pub open spec fn space(&self) -> SpaceView {
        SpaceView {
            open: self.crypto_open,
            seal: self.crypto_seal,
            zero_rtt_open: self.crypto_0rtt_open,
            pending: self.crypto_stream.send@,
            finished: self.crypto_stream.send.finished(),
        }
    }

    /// Whether packets can be both sent and received.
    pub fn has_keys(&self) -> (r: bool)
        ensures
            r == (self.crypto_open is Some && self.crypto_seal is Some),
    {
        self.crypto_open.is_some() && self.crypto_seal.is_some()
    }

    /// Whether handshake data waits to be sent.
    pub fn data_available(&self) -> (r: bool)
        ensures
            r == (self.crypto_stream.send@.len() > 0),
    {
        self.crypto_stream.send.has_pending()
    }
}

/// Keys and handshake data of all packet number spaces.
pub struct CryptoContexts {
    pub initial: CryptoContext,
    pub handshake: CryptoContext,
    pub application: CryptoContext,
}

/// Keys and handshake data of all packet number spaces, by contents.
pub struct SpacesView {
    pub initial: SpaceView,
    pub handshake: SpaceView,
    pub application: SpaceView,
}

impl View for CryptoContexts {
    type V = SpacesView;

    open spec fn view(&self) -> SpacesView {
        SpacesView {
            initial: self.initial.space(),
            handshake: self.handshake.space(),
            application: self.application.space(),
        }
    }
}

impl SpacesView {
    /// The packet number space of an epoch.
    pub open spec fn at(self, epoch: Epoch) -> SpaceView {
        match epoch {
            Epoch::Initial => self.initial,
            Epoch::Handshake => self.handshake,
            Epoch::Application => self.application,
        }
    }
}

/// Each epoch has a packet number space of its own, which shows its own keys and its own
/// stream.
pub proof fn law_each_epoch_has_its_space(contexts: CryptoContexts)
    ensures
        contexts@.at(Epoch::Initial) == contexts.initial.space(),
        contexts@.at(Epoch::Handshake) == contexts.handshake.space(),
        contexts@.at(Epoch::Application) == contexts.application.space(),
        forall|context: CryptoContext| #[trigger]
            context.space() == (SpaceView {
                open: context.crypto_open,
                seal: context.crypto_seal,
                zero_rtt_open: context.crypto_0rtt_open,
                pending: context.crypto_stream.send@,
                finished: context.crypto_stream.send.finished(),
            }),
{
}

impl CryptoContexts {
    /// No keys and no data.
    pub fn new() -> (r: Self)
        ensures
            forall|epoch: Epoch| #[trigger]
                r@.at(epoch) == (SpaceView {
                    open: None,
                    seal: None,
                    zero_rtt_open: None,
                    pending: Seq::empty(),
                    finished: false,
                }),
    {
        CryptoContexts {
            initial: CryptoContext::new(),
            handshake: CryptoContext::new(),
            application: CryptoContext::new(),
        }
    }

    /// The packet number space of an epoch.
    pub fn get(&self, epoch: Epoch) -> (r: &CryptoContext)
        ensures
            r.space() == self@.at(epoch),
    {
        match epoch {
            Epoch::Initial => &self.initial,
            Epoch::Handshake => &self.handshake,
            Epoch::Application => &self.application,
        }
    }
}

} // verus!
