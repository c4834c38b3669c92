//! The settings that handshakes start from.

use crate::crypto::Level;
use crate::error::Error;
use crate::tls::client_store::QuicheClientSessionStore;
use crate::tls::client_store::SessionRegistry;
use crate::tls::credentials;
use crate::tls::credentials::read_pem_certificates;
use crate::tls::credentials::read_pem_private_key;
use crate::tls::credentials::PrivateKey;
use crate::tls::handshake::Handshake;
use crate::tls::identity;
use crate::tls::identity::copy_all;
use crate::tls::identity::copy_bytes;
use crate::tls::key_log::QuicheKeyLog;
use crate::tls::roots;
use crate::tls::roots::add_roots;
use crate::tls::roots::copy_roots;
use crate::tls::roots::empty_roots;
use crate::tls::roots::Anchor;
use crate::tls::server_sessions::QuicheServerSessionStore;
use crate::tls::ticket;
use crate::tls::ticket::QuicheTicketProducer;
use crate::tls::verify::HandshakeRecord;
use rustls::RootCertStore;
use std::sync::Arc;
use vstd::prelude::*;

verus! {

/// How many sessions a server keeps.
pub const SERVER_SESSIONS: usize = 256;

/// The settings that handshakes start from.
pub struct Context {
    /// The certificates that the endpoint shows, its own first.
    pub certificate_chain: Option<Vec<Vec<u8>>>,
    /// The key that goes with its own certificate.
    pub private_key: Option<PrivateKey>,
    /// The roots that peers must lead to.
    pub root_store: RootCertStore,
    /// Whether peers are checked.
    pub verify: bool,
    /// Whether keys are logged.
    pub keylog_enabled: bool,
    /// Whether early data is used.
    pub early_data_enabled: bool,
    /// The sessions that a server keeps.
    pub server_session_storage: Arc<QuicheServerSessionStore>,
    /// What makes a server's tickets, if a key was set for them.
    pub ticket_producer: Option<Arc<QuicheTicketProducer>>,
    /// The application protocols that are offered, the preferred ones first.
    pub alpn_protocols: Vec<Vec<u8>>,
    /// Where exported sessions are kept.
    pub session_registry: Arc<SessionRegistry>,
}

/// The roots that a PEM file adds: those that can be read, or none if the file is
/// not good.
pub open spec fn roots_in(pem: Seq<u8>) -> Seq<Anchor> {
    match credentials::pem_certificates(pem) {
        Some(certs) => roots::parsed_anchors(certs),
        None => Seq::empty(),
    }
}

/// The roots that some PEM files add, in order.
pub open spec fn roots_in_all(files: Seq<Seq<u8>>) -> Seq<Anchor>
    decreases files.len(),
{
    if files.len() == 0 {
        Seq::empty()
    } else {
        roots_in_all(files.drop_last()) + roots_in(files.last())
    }
}

/// A server keeps 256 sessions.
pub proof fn law_server_keeps_256_sessions()
    ensures
        SERVER_SESSIONS == 256,
{
}

/// The roots of PEM files are those of their certificates that can be read, file by file.
/// A file that is not good adds none.
pub proof fn law_roots_come_from_good_files(files: Seq<Seq<u8>>, pem: Seq<u8>)
    ensures
        credentials::pem_certificates(pem) is Some ==> roots_in(pem) == roots::parsed_anchors(
            credentials::pem_certificates(pem)->0,
        ),
        credentials::pem_certificates(pem) is None ==> roots_in(pem).len() == 0,
        roots_in_all(Seq::empty()).len() == 0,
        roots_in_all(files.push(pem)) == roots_in_all(files) + roots_in(pem),
{
    assert(files.push(pem).drop_last() =~= files);
}

impl Context {
    /// A certificate chain that was set is not empty.
    pub open spec fn well_formed(&self) -> bool {
        self.certificate_chain matches Some(chain) ==> chain@.len() > 0
    }

    /// Checks nobody, shows nothing, and has no roots, protocols or ticket key.
    /// Exported sessions go to `session_registry`.
    pub fn new(session_registry: Arc<SessionRegistry>) -> (r: Result<Context, Error>)
        ensures
            r matches Ok(ctx) && {
                &&& ctx.well_formed()
                &&& ctx.certificate_chain is None
                &&& ctx.private_key is None
                &&& roots::anchors(ctx.root_store) == Seq::<Anchor>::empty()
                &&& !ctx.verify
                &&& !ctx.keylog_enabled
                &&& !ctx.early_data_enabled
                &&& ctx.server_session_storage.capacity() == SERVER_SESSIONS
                &&& ctx.server_session_storage.began_empty()
                &&& ctx.ticket_producer is None
                &&& ctx.alpn_protocols@.len() == 0
                &&& ctx.session_registry == session_registry
            },
    {
        Ok(
            Context {
                certificate_chain: None,
                private_key: None,
                root_store: empty_roots(),
                verify: false,
                keylog_enabled: false,
                early_data_enabled: false,
                server_session_storage: Arc::new(QuicheServerSessionStore::new(SERVER_SESSIONS)),
                ticket_producer: None,
                alpn_protocols: Vec::new(),
                session_registry,
            },
        )
    }

    /// Adds the roots of a PEM file. It must be good, and hold at least one.
    pub fn load_verify_locations_from_file(&mut self, pem: &[u8]) -> (r: Result<(), Error>)
        ensures
            r == if roots_in(pem@).len() > 0 {
                Ok::<(), Error>(())
            } else {
                Err(Error::TlsFail)
            },
            roots::anchors(final(self).root_store) == roots::anchors(old(self).root_store)
                + roots_in(pem@),
            *final(self) == (Context { root_store: final(self).root_store, ..*old(self) }),
    {
        match read_pem_certificates(pem) {
            Err(_) => {
                proof {
                    assert(roots::anchors(self.root_store) + roots_in(pem@) =~= roots::anchors(
                        self.root_store,
                    ));
                }
                Err(Error::TlsFail)
            },
            Ok(certs) => {
                let valid: usize = add_roots(&mut self.root_store, certs);
                if valid == 0 {
                    Err(Error::TlsFail)
                } else {
                    Ok(())
                }
            },
        }
    }

    /// Adds the roots of all PEM files of a directory, given their contents. Files
    /// that are not good are passed over, but at least one must hold a root.
    pub fn load_verify_locations_from_directory(&mut self, files: &Vec<Vec<u8>>) -> (r: Result<
        (),
        Error,
    >)
        ensures
            r == if roots_in_all(identity::views(files@)).len() > 0 {
                Ok::<(), Error>(())
            } else {
                Err(Error::TlsFail)
            },
            roots::anchors(final(self).root_store) == roots::anchors(old(self).root_store)
                + roots_in_all(identity::views(files@)),
            *final(self) == (Context { root_store: final(self).root_store, ..*old(self) }),
    {
        let ghost all: Seq<Seq<u8>> = identity::views(files@);
        let mut valid: bool = false;
        let mut i: usize = 0;
        proof {
            assert(all.take(0) =~= Seq::<Seq<u8>>::empty());
            assert(roots::anchors(self.root_store) + roots_in_all(all.take(0)) =~= roots::anchors(
                self.root_store,
            ));
        }
        while i < files.len()
            invariant
                i <= files@.len(),
                all == identity::views(files@),
                valid == (roots_in_all(all.take(i as int)).len() > 0),
                roots::anchors(self.root_store) == roots::anchors(old(self).root_store)
                    + roots_in_all(all.take(i as int)),
                *self == (Context { root_store: self.root_store, ..*old(self) }),
            decreases files@.len() - i,
        {
            let ghost before: Seq<Anchor> = roots_in_all(all.take(i as int));
            if self.load_verify_locations_from_file(&files[i]).is_ok() {
                valid = true;
            }
            proof {
                let next = all.take(i + 1);
                assert(next.drop_last() =~= all.take(i as int));
                assert(next.last() == files@[i as int]@);
                assert(roots::anchors(old(self).root_store) + before + roots_in(next.last())
                    =~= roots::anchors(old(self).root_store) + roots_in_all(next));
            }
            i = i + 1;
        }
        proof {
            assert(all.take(i as int) =~= all);
        }
        if valid {
            Ok(())
        } else {
            Err(Error::TlsFail)
        }
    }

    /// Shows the certificate chain of a PEM file, which must be good and not empty.
    pub fn use_certificate_chain_file(&mut self, pem: &[u8]) -> (r: Result<(), Error>)
        ensures
            match credentials::pem_certificates(pem@) {
                Some(certs) => if certs.len() > 0 {
                    &&& r is Ok
                    &&& final(self).certificate_chain matches Some(chain)
                    &&& identity::views(chain@) == certs
                } else {
                    r == Err::<(), Error>(Error::TlsFail) && *final(self) == *old(self)
                },
                None => r == Err::<(), Error>(Error::TlsFail) && *final(self) == *old(self),
            },
            *final(self) == (Context {
                certificate_chain: final(self).certificate_chain,
                ..*old(self)
            }),
            old(self).well_formed() ==> final(self).well_formed(),
    {
        match read_pem_certificates(pem) {
            Err(_) => Err(Error::TlsFail),
            Ok(certs) => {
                if certs.len() == 0 {
                    return Err(Error::TlsFail);
                }
                self.certificate_chain = Some(certs);
                Ok(())
            },
        }
    }

    /// Uses the first private key of a PEM file, which must be good up to it.
    pub fn use_privkey_file(&mut self, pem: &[u8]) -> (r: Result<(), Error>)
        ensures
            match credentials::pem_private_key(pem@) {
                Some(key) => {
                    &&& r is Ok
                    &&& final(self).private_key matches Some(k)
                    &&& k@ == key
                },
                None => r == Err::<(), Error>(Error::TlsFail) && *final(self) == *old(self),
            },
            *final(self) == (Context { private_key: final(self).private_key, ..*old(self) }),
    {
        match read_pem_private_key(pem) {
            None => Err(Error::TlsFail),
            Some(key) => {
                self.private_key = Some(key);
                Ok(())
            },
        }
    }

    /// Sets whether peers are checked.
    pub fn set_verify(&mut self, verify: bool)
        ensures
            *final(self) == (Context { verify, ..*old(self) }),
    {
        self.verify = verify;
    }

    /// Logs keys from now on.
    pub fn enable_keylog(&mut self)
        ensures
            *final(self) == (Context { keylog_enabled: true, ..*old(self) }),
    {
        self.keylog_enabled = true;
    }

    /// Sets the application protocols that are offered.
    pub fn set_alpn(&mut self, v: &[&[u8]]) -> (r: Result<(), Error>)
        ensures
            r is Ok,
            identity::views(final(self).alpn_protocols@) == identity::slice_views(v@),
            *final(self) == (Context { alpn_protocols: final(self).alpn_protocols, ..*old(self) }),
    {
        let mut protocols: Vec<Vec<u8>> = Vec::new();
        let mut i: usize = 0;
        while i < v.len()
            invariant
                i <= v@.len(),
                protocols@.len() == i,
                forall|j: int| 0 <= j < i ==> (#[trigger] protocols@[j])@ == v@[j]@,
            decreases v@.len() - i,
        {
            protocols.push(copy_bytes(v[i]));
            i = i + 1;
        }
        proof {
            assert(identity::views(protocols@) =~= identity::slice_views(v@));
        }
        self.alpn_protocols = protocols;
        Ok(())
    }

    /// Sets the key of a server's tickets, which has 48 bytes.
    pub fn set_ticket_key(&mut self, key: &[u8]) -> (r: Result<(), Error>)
        ensures
            if key@.len() == ticket::TICKET_KEY_LEN {
                &&& r is Ok
                &&& final(self).ticket_producer matches Some(producer)
                &&& producer@ == ticket::ticket_key(key@)
            } else {
                r == Err::<(), Error>(Error::TlsFail) && *final(self) == *old(self)
            },
            *final(self) == (Context {
                ticket_producer: final(self).ticket_producer,
                ..*old(self)
            }),
    {
        match QuicheTicketProducer::new(key) {
            Err(e) => Err(e),
            Ok(producer) => {
                self.ticket_producer = Some(Arc::new(producer));
                Ok(())
            },
        }
    }

    /// Sets whether early data is used.
    pub fn set_early_data_enabled(&mut self, enabled: bool)
        ensures
            *final(self) == (Context { early_data_enabled: enabled, ..*old(self) }),
    {
        self.early_data_enabled = enabled;
    }

    /// Starts a handshake with the present settings.
    pub fn new_handshake(&mut self) -> (r: Result<Handshake, Error>)
        ensures
            *final(self) == *old(self),
            r matches Ok(h) && {
                &&& match (old(self).certificate_chain, h.certificate_chain) {
                    (Some(a), Some(b)) => identity::views(a@) == identity::views(b@),
                    (None, None) => true,
                    _ => false,
                }
                &&& match (old(self).private_key, h.private_key) {
                    (Some(a), Some(b)) => a@ == b@,
                    (None, None) => true,
                    _ => false,
                }
                &&& roots::anchors(h.root_store) == roots::anchors(old(self).root_store)
                &&& h.verify == old(self).verify
                &&& h.key_log is Some == old(self).keylog_enabled
                &&& h.early_data_enabled == old(self).early_data_enabled
                &&& h.server_session_storage == old(self).server_session_storage
                &&& h.ticket_producer == old(self).ticket_producer
                &&& identity::views(h.alpn_protocols@) == identity::views(
                    old(self).alpn_protocols@,
                )
                &&& h.is_server is None
                &&& h.server_name is None
                &&& h.local_transport_params@.len() == 0
                &&& h.conn is None
                &&& h.write_level == Level::Initial
                &&& !h.early_data_active
                &&& h.signature_scheme is None
                &&& h.recorded_peer_identity is None
                &&& h.session_store.registry() == old(self).session_registry
                &&& h.session_store.began_empty()
                &&& h.record.began_empty()
                &&& h.key_log matches Some(log) ==> log.began_empty()
                &&& old(self).well_formed() ==> h.well_formed()
            },
    {
        let key_log: Option<Arc<QuicheKeyLog>> = if self.keylog_enabled {
            Some(Arc::new(QuicheKeyLog::new()))
        } else {
            None
        };
        let certificate_chain: Option<Vec<Vec<u8>>> = match &self.certificate_chain {
            Some(chain) => {
                let copy: Vec<Vec<u8>> = copy_all(chain);
                proof {
                    assert(identity::views(copy@).len() == copy@.len());
                    assert(identity::views(chain@).len() == chain@.len());
                }
                Some(copy)
            },
            None => None,
        };
        let private_key: Option<PrivateKey> = match &self.private_key {
            Some(key) => Some(key.clone()),
            None => None,
        };
        let ticket_producer: Option<Arc<QuicheTicketProducer>> = match &self.ticket_producer {
            Some(producer) => Some(Arc::clone(producer)),
            None => None,
        };
        Ok(
            Handshake {
                certificate_chain,
                private_key,
                root_store: copy_roots(&self.root_store),
                verify: self.verify,
                key_log,
                early_data_enabled: self.early_data_enabled,
                server_session_storage: Arc::clone(&self.server_session_storage),
                ticket_producer,
                alpn_protocols: copy_all(&self.alpn_protocols),
                is_server: None,
                server_name: None,
                local_transport_params: Vec::new(),
                conn: None,
                write_level: Level::Initial,
                early_data_active: false,
                signature_scheme: None,
                recorded_peer_identity: None,
                record: Arc::new(HandshakeRecord::new()),
                session_store: Arc::new(
                    QuicheClientSessionStore::new(Arc::clone(&self.session_registry)),
                ),
            },
        )
    }
}

} // verus!
