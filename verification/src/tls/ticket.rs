//! Session tickets under a fixed key.

use crate::bytes;
use crate::bytes::u16_to_octets;
use crate::crypto::aws_lc;
use crate::crypto::aws_lc::hmac_sign;
use crate::crypto::aws_lc::hmac_verify;
use crate::crypto::Digest;
use crate::error::Error;
use crate::outside::try_encrypt;
use crate::outside::Encryption;
use crate::tls::foreign;
use crate::tls::foreign::print_name;
use crate::tls::foreign::seconds;
use crate::tls::text::same_bytes;
use vstd::prelude::*;
use vstd::slice::slice_subrange;

verus! {

/// How many bytes a ticket key has: a name, an HMAC key and an AES key.
pub const TICKET_KEY_LEN: usize = 48;

/// How many bytes a key's name has.
pub const TICKET_KEY_NAME_LEN: usize = 16;

/// How many bytes the HMAC key has.
pub const TICKET_HMAC_KEY_LEN: usize = 16;

/// How many bytes an initialisation vector has.
pub const TICKET_IV_LEN: usize = 16;

/// How many bytes the tag at the end of a ticket has.
pub const TICKET_TAG_LEN: usize = 32;

/// How long a ticket may be used, in seconds.
pub const TICKET_LIFETIME_SECS: u64 = 86_400;

/// The longest ticket that is looked at.
pub const MAX_TICKET_CIPHERTEXT_LEN: usize = 65_535;

/// The plaintext that `cipher::PaddedBlockDecryptingKey::decrypt` finds in CBC mode
/// with PKCS#7 padding, if the length and the padding are right.
pub uninterp spec fn cbc_decrypted(key: Seq<u8>, iv: Seq<u8>, ciphertext: Seq<u8>) -> Option<
    Seq<u8>,
>;

/// The length of a message of `n` bytes with its padding, which is never empty.
pub open spec fn padded_len(n: nat) -> nat {
    (n / 16 + 1) * 16
}

/// `cipher::PaddedBlockEncryptingKey::encrypt` in CBC mode with PKCS#7 padding, on
/// a copy of the message: the initialisation vector that it picks at random, and
/// the ciphertext.
///
/// The ciphertext fills whole blocks, and decrypts to the message.
#[verifier::external_body]
pub(crate) fn cbc_encrypt(key: &[u8], message: &[u8]) -> (r: Result<
    (Vec<u8>, Vec<u8>),
    aws_lc_rs::error::Unspecified,
>)
    requires
        key@.len() == 16,
    ensures
        r matches Ok((iv, ciphertext)) ==> {
            &&& iv@.len() == TICKET_IV_LEN
            &&& ciphertext@.len() == padded_len(message@.len())
            &&& cbc_decrypted(key@, iv@, ciphertext@) == Some(message@)
        },
{
    let key = aws_lc_rs::cipher::UnboundCipherKey::new(&aws_lc_rs::cipher::AES_128, key)?;
    let key = aws_lc_rs::cipher::PaddedBlockEncryptingKey::cbc_pkcs7(key)?;
    let mut ciphertext = message.to_vec();
    let context = key.encrypt(&mut ciphertext)?;
    let iv: &[u8] = (&context).try_into()?;
    Ok((iv.to_vec(), ciphertext))
}

/// `cipher::PaddedBlockDecryptingKey::decrypt` in CBC mode with PKCS#7 padding, on a
/// copy of the ciphertext.
#[verifier::external_body]
fn cbc_decrypt(key: &[u8], iv: &[u8], ciphertext: &[u8]) -> (r: Result<
    Vec<u8>,
    aws_lc_rs::error::Unspecified,
>)
    requires
        key@.len() == 16,
        iv@.len() == TICKET_IV_LEN,
    ensures
        match r {
            Ok(plaintext) => cbc_decrypted(key@, iv@, ciphertext@) == Some(plaintext@),
            Err(_) => cbc_decrypted(key@, iv@, ciphertext@) is None,
        },
{
    let key = aws_lc_rs::cipher::UnboundCipherKey::new(&aws_lc_rs::cipher::AES_128, key)?;
    let key = aws_lc_rs::cipher::PaddedBlockDecryptingKey::cbc_pkcs7(key)?;
    let iv = aws_lc_rs::iv::FixedLength::try_from(iv)?;
    let mut buf = ciphertext.to_vec();
    let context = aws_lc_rs::cipher::DecryptionContext::Iv128(iv);
    Ok(key.decrypt(&mut buf, context)?.to_vec())
}

/// What the tag of a ticket is made over. The length of the ciphertext stands
/// before it.
pub open spec fn tagged_data(key_name: Seq<u8>, iv: Seq<u8>, ciphertext: Seq<u8>) -> Seq<u8> {
    key_name + iv + bytes::u16_octets(ciphertext.len() as u16) + ciphertext
}

/// What a ticket key is made of.
pub struct TicketKey {
    pub name: Seq<u8>,
    pub hmac: Seq<u8>,
    pub aes: Seq<u8>,
}

/// The parts of a ticket key.
pub open spec fn ticket_key(key: Seq<u8>) -> TicketKey {
    TicketKey { name: key.subrange(0, 16), hmac: key.subrange(16, 32), aes: key.subrange(32, 48) }
}

impl TicketKey {
    /// The tag of a ticket.
    pub open spec fn tag(self, iv: Seq<u8>, ciphertext: Seq<u8>) -> Seq<u8> {
        aws_lc::hmac_tag(Digest::Sha256, self.hmac, tagged_data(self.name, iv, ciphertext))
    }

    /// The ticket with the given initialisation vector and ciphertext.
    pub open spec fn ticket(self, iv: Seq<u8>, ciphertext: Seq<u8>) -> Seq<u8> {
        self.name + iv + ciphertext + self.tag(iv, ciphertext)
    }

    /// The message in a ticket, if the ticket is not too long, carries the key's
    /// name and a fitting tag, and decrypts.
    pub open spec fn opened(self, ticket: Seq<u8>) -> Option<Seq<u8>> {
        let n = ticket.len() as int;
        let iv = ticket.subrange(16, 32);
        let ciphertext = ticket.subrange(32, n - 32);
        if n > MAX_TICKET_CIPHERTEXT_LEN || n < 64 || ticket.take(16) != self.name || ticket.skip(
            n - 32,
        ) != self.tag(iv, ciphertext) {
            None
        } else {
            cbc_decrypted(self.aes, iv, ciphertext)
        }
    }
}

/// A ticket opens to the message that its ciphertext decrypts to.
pub proof fn law_ticket_opens(key: TicketKey, iv: Seq<u8>, ciphertext: Seq<u8>)
    requires
        key.name.len() == TICKET_KEY_NAME_LEN,
        iv.len() == TICKET_IV_LEN,
        key.tag(iv, ciphertext).len() == TICKET_TAG_LEN,
        key.ticket(iv, ciphertext).len() <= MAX_TICKET_CIPHERTEXT_LEN,
    ensures
        key.opened(key.ticket(iv, ciphertext)) == cbc_decrypted(key.aes, iv, ciphertext),
{
    let t = key.ticket(iv, ciphertext);
    let n = t.len() as int;
    assert(t.take(16) =~= key.name);
    assert(t.subrange(16, 32) =~= iv);
    assert(t.subrange(32, n - 32) =~= ciphertext);
    assert(t.skip(n - 32) =~= key.tag(iv, ciphertext));
}

/// A ticket with another key's name does not open, whatever else it holds.
pub proof fn law_other_key_name_is_refused(key: TicketKey, ticket: Seq<u8>)
    requires
        ticket.len() < 16 || ticket.take(16) != key.name,
    ensures
        key.opened(ticket) is None,
{
}

/// The sizes of ticket keys and tickets in bytes, and how long a ticket may be used: a
/// day, in seconds.
pub proof fn law_ticket_sizes()
    ensures
        TICKET_KEY_LEN == 48,
        TICKET_KEY_NAME_LEN == 16,
        TICKET_HMAC_KEY_LEN == 16,
        TICKET_IV_LEN == 16,
        TICKET_TAG_LEN == 32,
        MAX_TICKET_CIPHERTEXT_LEN == 0xffff,
        TICKET_LIFETIME_SECS == 24 * 60 * 60,
{
}

/// A ticket key is a name, an HMAC key and an AES key in a row, of 16 bytes each.
pub proof fn law_ticket_key_is_three_parts(key: Seq<u8>)
    requires
        key.len() == 48,
    ensures
        ticket_key(key).name.len() == 16,
        ticket_key(key).hmac.len() == 16,
        ticket_key(key).aes.len() == 16,
        ticket_key(key).name + ticket_key(key).hmac + ticket_key(key).aes == key,
{
    assert(ticket_key(key).name + ticket_key(key).hmac + ticket_key(key).aes =~= key);
}

/// Padding takes a message to the next whole block of 16 bytes, by one byte at least.
pub proof fn law_padding_fills_a_block(n: nat)
    ensures
        n < padded_len(n) <= n + 16,
        padded_len(n) % 16 == 0,
{
}

/// A ticket is the key's name, the initialisation vector, the ciphertext and the tag. The
/// tag is made with the HMAC key over the name, the vector, the ciphertext's length in two
/// bytes and the ciphertext.
pub proof fn law_ticket_layout(key: TicketKey, iv: Seq<u8>, ciphertext: Seq<u8>)
    requires
        ciphertext.len() <= 0xffff,
    ensures
        key.ticket(iv, ciphertext) == key.name + iv + ciphertext + aws_lc::hmac_tag(
            Digest::Sha256,
            key.hmac,
            key.name + iv + seq![
                (ciphertext.len() / 256) as u8,
                (ciphertext.len() % 256) as u8,
            ] + ciphertext,
        ),
{
    let octets = seq![(ciphertext.len() / 256) as u8, (ciphertext.len() % 256) as u8];
    assert(bytes::u16_octets(ciphertext.len() as u16) =~= octets);
}

/// A ticket opens exactly when it has 64 to 65535 bytes, starts with the key's name, ends
/// with the tag of what stands between, and its ciphertext decrypts. The message is what
/// it decrypts to.
pub proof fn law_ticket_opens_exactly(key: TicketKey, ticket: Seq<u8>)
    ensures
        ({
            let n = ticket.len() as int;
            let iv = ticket.subrange(16, 32);
            let ciphertext = ticket.subrange(32, n - 32);
            let message = cbc_decrypted(key.aes, iv, ciphertext);
            &&& key.opened(ticket) is Some <==> {
                &&& 64 <= n <= 0xffff
                &&& ticket.take(16) == key.name
                &&& ticket.skip(n - 32) == aws_lc::hmac_tag(
                    Digest::Sha256,
                    key.hmac,
                    key.name + iv + bytes::u16_octets((n - 64) as u16) + ciphertext,
                )
                &&& message is Some
            }
            &&& key.opened(ticket) is Some ==> key.opened(ticket) == message
        }),
{
}

/// Makes and opens session tickets under one key.
pub struct QuicheTicketProducer {
    key_name: Vec<u8>,
    hmac_key: Vec<u8>,
    aes_key: Vec<u8>,
}

/// A copy of part of a slice.
fn part(s: &[u8], from: usize, to: usize) -> (r: Vec<u8>)
    requires
        from <= to <= s@.len(),
    ensures
        r@ == s@.subrange(from as int, to as int),
{
    let mut v: Vec<u8> = Vec::new();
    v.extend_from_slice(slice_subrange(s, from, to));
    proof {
        assert(v@ =~= s@.subrange(from as int, to as int));
    }
    v
}

impl View for QuicheTicketProducer {
    type V = TicketKey;

    closed spec fn view(&self) -> TicketKey {
        TicketKey { name: self.key_name@, hmac: self.hmac_key@, aes: self.aes_key@ }
    }
}

impl QuicheTicketProducer {
    #[verifier::type_invariant]
    spec fn sizes_fit(&self) -> bool {
        self.key_name@.len() == TICKET_KEY_NAME_LEN && self.hmac_key@.len() == TICKET_HMAC_KEY_LEN
            && self.aes_key@.len() == 16
    }

    /// Takes a ticket key, which has 48 bytes.
    pub fn new(key: &[u8]) -> (r: Result<Self, Error>)
        ensures
            match r {
                Ok(producer) => key@.len() == TICKET_KEY_LEN && producer@ == ticket_key(key@),
                Err(e) => key@.len() != TICKET_KEY_LEN && e == Error::TlsFail,
            },
    {
        if key.len() != TICKET_KEY_LEN {
            return Err(Error::TlsFail);
        }
        let key_name: Vec<u8> = part(key, 0, TICKET_KEY_NAME_LEN);
        let hmac_key: Vec<u8> = part(
            key,
            TICKET_KEY_NAME_LEN,
            TICKET_KEY_NAME_LEN + TICKET_HMAC_KEY_LEN,
        );
        let aes_key: Vec<u8> = part(
            key,
            TICKET_KEY_NAME_LEN + TICKET_HMAC_KEY_LEN,
            TICKET_KEY_LEN,
        );
        Ok(QuicheTicketProducer { key_name, hmac_key, aes_key })
    }

    /// What the tag of a ticket is made over.
    fn hmac_data(&self, iv: &[u8], ciphertext: &[u8]) -> (r: Vec<u8>)
        requires
            ciphertext@.len() <= u16::MAX,
        ensures
            r@ == tagged_data(self@.name, iv@, ciphertext@),
    {
        let mut data: Vec<u8> = Vec::new();
        data.extend_from_slice(&self.key_name);
        data.extend_from_slice(iv);
        data.extend_from_slice(&u16_to_octets(ciphertext.len() as u16));
        data.extend_from_slice(ciphertext);
        proof {
            assert(data@ =~= tagged_data(self@.name, iv@, ciphertext@));
        }
        data
    }

    /// Puts a ticket together, unless the ciphertext's length takes more than two
    /// bytes.
    pub fn assemble(&self, iv: &[u8], ciphertext: &[u8]) -> (r: Option<Vec<u8>>)
        ensures
            match r {
                Some(ticket) => ciphertext@.len() <= u16::MAX && ticket@ == self@.ticket(
                    iv@,
                    ciphertext@,
                ) && self@.tag(iv@, ciphertext@).len() == TICKET_TAG_LEN,
                None => ciphertext@.len() > u16::MAX,
            },
    {
        if ciphertext.len() > u16::MAX as usize {
            return None;
        }
        let data: Vec<u8> = self.hmac_data(iv, ciphertext);
        let tag: Vec<u8> = hmac_sign(Digest::Sha256, &self.hmac_key, &data);
        let mut ticket: Vec<u8> = Vec::new();
        ticket.extend_from_slice(&self.key_name);
        ticket.extend_from_slice(iv);
        ticket.extend_from_slice(ciphertext);
        ticket.extend_from_slice(&tag);
        proof {
            assert(ticket@ =~= self@.ticket(iv@, ciphertext@));
        }
        Some(ticket)
    }

    /// Makes a ticket for a message.
    ///
    /// The initialisation vector is random. Whatever it is, the ticket opens to
    /// the message. A message whose ticket would be longer than what is looked at gets
    /// none, since the length of a ticket takes two bytes where it is sent.
    pub fn encrypt(&self, message: &[u8]) -> (r: Option<Vec<u8>>)
        ensures
            padded_len(message@.len()) + 64 > MAX_TICKET_CIPHERTEXT_LEN ==> r is None,
            r matches Some(ticket) ==> {
                &&& ticket@.len() <= MAX_TICKET_CIPHERTEXT_LEN
                &&& ticket@.len() == padded_len(message@.len()) + 64
                &&& ticket@.take(16) == self@.name
                &&& ticket@.skip(ticket@.len() - 32) == self@.tag(
                    ticket@.subrange(16, 32),
                    ticket@.subrange(32, ticket@.len() - 32),
                )
                &&& cbc_decrypted(
                    self@.aes,
                    ticket@.subrange(16, 32),
                    ticket@.subrange(32, ticket@.len() - 32),
                ) == Some(message@)
                &&& self@.opened(ticket@) == Some(message@)
            },
            r is None ==> padded_len(message@.len()) + 64 > MAX_TICKET_CIPHERTEXT_LEN || exists|
                encryption: Encryption,
            | #[trigger]
                encryption.message() == message@ && encryption.key() == self@.aes
                    && !encryption.succeeded(),
    {
        proof {
            use_type_invariant(self);
        }
        let (parts, encryption): (Option<(Vec<u8>, Vec<u8>)>, Ghost<Encryption>) = try_encrypt(
            &self.aes_key,
            message,
        );
        proof {
            assert(encryption@.message() == message@);
        }
        match parts {
            None => None,
            Some((iv, ciphertext)) => match self.assemble(&iv, &ciphertext) {
                None => None,
                Some(ticket) => {
                    if ticket.len() > MAX_TICKET_CIPHERTEXT_LEN {
                        return None;
                    }
                    proof {
                        let t = ticket@;
                        let n = t.len() as int;
                        assert(t.take(16) =~= self@.name);
                        assert(t.subrange(16, 32) =~= iv@);
                        assert(t.subrange(32, n - 32) =~= ciphertext@);
                        assert(t.skip(n - 32) =~= self@.tag(iv@, ciphertext@));
                        law_ticket_opens(self@, iv@, ciphertext@);
                    }
                    Some(ticket)
                },
            },
        }
    }

    /// The message in a ticket of this key.
    pub fn decrypt(&self, ticket: &[u8]) -> (r: Option<Vec<u8>>)
        ensures
            match self@.opened(ticket@) {
                Some(message) => r matches Some(v) && v@ == message,
                None => r is None,
            },
    {
        proof {
            use_type_invariant(self);
        }
        if ticket.len() > MAX_TICKET_CIPHERTEXT_LEN {
            return None;
        }
        if ticket.len() < TICKET_KEY_NAME_LEN + TICKET_IV_LEN + TICKET_TAG_LEN {
            return None;
        }
        let key_name: &[u8] = slice_subrange(ticket, 0, TICKET_KEY_NAME_LEN);
        proof {
            assert(key_name@ =~= ticket@.take(16));
        }
        if !same_bytes(key_name, &self.key_name) {
            return None;
        }
        let iv: &[u8] = slice_subrange(
            ticket,
            TICKET_KEY_NAME_LEN,
            TICKET_KEY_NAME_LEN + TICKET_IV_LEN,
        );
        let tag_start: usize = ticket.len() - TICKET_TAG_LEN;
        let ciphertext: &[u8] = slice_subrange(
            ticket,
            TICKET_KEY_NAME_LEN + TICKET_IV_LEN,
            tag_start,
        );
        let tag: &[u8] = slice_subrange(ticket, tag_start, ticket.len());
        let data: Vec<u8> = self.hmac_data(iv, ciphertext);
        proof {
            assert(tag@ =~= ticket@.skip(ticket@.len() - 32));
        }
        if !hmac_verify(Digest::Sha256, &self.hmac_key, &data, tag) {
            return None;
        }
        match cbc_decrypt(&self.aes_key, iv, ciphertext) {
            Ok(message) => Some(message),
            Err(_) => None,
        }
    }

    /// How long a ticket may be used, in seconds.
    pub fn lifetime_secs(&self) -> (r: u64)
        ensures
            r == TICKET_LIFETIME_SECS,
    {
        TICKET_LIFETIME_SECS
    }
}

impl core::fmt::Debug for QuicheTicketProducer {
    /// Prints the type's name, and nothing of what it holds.
    fn fmt(&self, f: &mut core::fmt::Formatter<'_>) -> (r: core::fmt::Result)
        ensures
            foreign::printed_name("QuicheTicketProducer"@, r),
    {
        print_name(f, "QuicheTicketProducer")
    }
}

impl rustls::crypto::TicketProducer for QuicheTicketProducer {
    fn encrypt(&self, message: &[u8]) -> (r: Option<Vec<u8>>)
        ensures
            padded_len(message@.len()) + 64 > MAX_TICKET_CIPHERTEXT_LEN ==> r is None,
            r matches Some(ticket) ==> {
                &&& ticket@.len() == padded_len(message@.len()) + 64
                &&& ticket@.len() <= MAX_TICKET_CIPHERTEXT_LEN
                &&& self@.opened(ticket@) == Some(message@)
            },
            r is None ==> padded_len(message@.len()) + 64 > MAX_TICKET_CIPHERTEXT_LEN || exists|
                encryption: Encryption,
            | #[trigger]
                encryption.message() == message@ && encryption.key() == self@.aes
                    && !encryption.succeeded(),
    {
        QuicheTicketProducer::encrypt(self, message)
    }

    fn decrypt(&self, ciphertext: &[u8]) -> (r: Option<Vec<u8>>)
        ensures
            match self@.opened(ciphertext@) {
                Some(message) => r matches Some(v) && v@ == message,
                None => r is None,
            },
    {
        QuicheTicketProducer::decrypt(self, ciphertext)
    }

    fn lifetime(&self) -> (r: std::time::Duration)
        ensures
            foreign::whole_seconds(r) == TICKET_LIFETIME_SECS,
    {
        seconds(self.lifetime_secs())
    }
}

} // verus!
