//! The operator's SSH certificate authority: it signs the keys that a run's proxies serve with, and
//! the key that the run logs in with.
//!
//! Keys and certificates are OpenSSH texts. A key and the nonce of a certificate are drawn at random;
//! everything else follows from them.

use vstd::prelude::*;
use crate::text;

verus! {

/// `ssh_key::Error`: why a key or a certificate is not read or not made.
#[verifier::external_type_specification]
#[verifier::external_body]
pub struct ExSshKeyError(ssh_key::Error);

/// Why a key or a certificate could not be made.
#[derive(Debug)]
pub enum CaError {
    SshKey(ssh_key::Error),
    /// The operating system gave no random bytes.
    NoRandomness,
}

/// How long a certificate is good for. What it logs into is gone long before.
pub const CERTIFICATE_VALIDITY_SECONDS: u64 = 86400;

/// How far a certificate reaches back, for clocks that are behind.
pub const CLOCK_SKEW_SECONDS: u64 = 60;

// --- what the outside makes ------------------------------------------------------------------

/// The public key of an OpenSSH private key, as an OpenSSH text, if the text is an OpenSSH private
/// key.
pub uninterp spec fn openssh_public_key(private_key: Seq<char>) -> Option<Seq<char>>;

/// `ssh_key::PrivateKey::from_openssh`, its `public_key`, and `ssh_key::PublicKey::to_openssh`: the
/// public half of a private key, or an error where the text is no private key; a function of the text
/// alone.
#[verifier::external_body]
fn public_key(private_key: &str) -> (res: Result<String, ssh_key::Error>)
    ensures
        match res {
            Ok(key) => openssh_public_key(private_key@) == Some(key@),
            Err(_) => openssh_public_key(private_key@) is None,
        },
{
    ssh_key::PrivateKey::from_openssh(private_key)?.public_key().to_openssh()
}

/// The certificate, as an OpenSSH text, that an authority's private key signs for the public key of a
/// subject, if both texts are keys and the authority's can sign.
pub uninterp spec fn openssh_certificate(
    authority: Seq<char>,
    subject: Seq<char>,
    host: bool,
    key_id: Seq<char>,
    principals: Seq<Seq<char>>,
    valid_after: u64,
    valid_before: u64,
    nonce: Seq<u8>,
) -> Option<Seq<char>>;

/// `ssh_key::certificate::Builder`, from `new` to `sign`, and `ssh_key::Certificate::to_openssh`: the
/// certificate of a subject for these principals, or an error where a text is no key, the window
/// cannot be written, there is no principal or the key cannot sign. Signing with an Ed25519 key draws
/// nothing at random, so it is a function of the arguments alone.
#[verifier::external_body]
fn certificate(
    authority: &str,
    subject: &str,
    host: bool,
    key_id: &str,
    principals: &[String],
    valid_after: u64,
    valid_before: u64,
    nonce: &[u8],
) -> (res: Result<String, ssh_key::Error>)
    requires
        valid_after < valid_before,
    ensures
        match res {
            Ok(certificate) => openssh_certificate(
                authority@,
                subject@,
                host,
                key_id@,
                text::texts(principals@),
                valid_after,
                valid_before,
                nonce@,
            ) == Some(certificate@),
            Err(_) => openssh_certificate(
                authority@,
                subject@,
                host,
                key_id@,
                text::texts(principals@),
                valid_after,
                valid_before,
                nonce@,
            ) is None,
        },
{
    let signer = ssh_key::PrivateKey::from_openssh(authority)?;
    let key = ssh_key::PublicKey::from_openssh(subject)?;
    let kind = if host { ssh_key::certificate::CertType::Host } else { ssh_key::certificate::CertType::User };
    let mut builder = ssh_key::certificate::Builder::new(nonce, key, valid_after, valid_before)?;
    builder.cert_type(kind)?.key_id(key_id)?;
    for principal in principals {
        builder.valid_principal(principal.as_str())?;
    }
    builder.sign(&signer)?.to_openssh()
}

/// `ssh_key::PrivateKey::random` with Ed25519 and the operating system's generator, and
/// `ssh_key::PrivateKey::to_openssh`: a new private key. Which one is up to chance, but what is written
/// reads back as a private key, whose public half can be written. That a key is always drawn is not
/// claimed.
#[verifier::external_body]
fn random_key() -> (res: Result<String, ssh_key::Error>)
    ensures
        res matches Ok(key) ==> openssh_public_key(key@) is Some,
{
    let algorithm = ssh_key::Algorithm::Ed25519;
    let key = ssh_key::PrivateKey::random(&mut ssh_key::rand_core::OsRng, algorithm)?;
    Ok(key.to_openssh(ssh_key::LineEnding::LF)?.to_string())
}

/// `ssh_key::rand_core::RngCore::try_fill_bytes` of the operating system's generator, over as many
/// bytes as `ssh_key::certificate::Builder` recommends for a nonce: sixteen bytes, which are up to
/// chance. That there are any is not claimed.
#[verifier::external_body]
fn random_nonce() -> (res: Option<Vec<u8>>)
    ensures
        res matches Some(nonce) ==> nonce@.len() == 16,
{
    let mut nonce = vec![0u8; ssh_key::certificate::Builder::RECOMMENDED_NONCE_SIZE];
    ssh_key::rand_core::RngCore::try_fill_bytes(&mut ssh_key::rand_core::OsRng, &mut nonce).ok()?;
    Some(nonce)
}

// --- the window ------------------------------------------------------------------------------

/// From when a certificate signed now is good.
pub open spec fn valid_after(now: u64) -> u64 {
    if now < CLOCK_SKEW_SECONDS {
        0
    } else {
        (now - CLOCK_SKEW_SECONDS) as u64
    }
}

/// Until when a certificate signed now is good.
pub open spec fn valid_before(now: u64) -> u64 {
    if now > u64::MAX - CERTIFICATE_VALIDITY_SECONDS {
        u64::MAX
    } else {
        (now + CERTIFICATE_VALIDITY_SECONDS) as u64
    }
}

fn window(now: u64) -> (res: (u64, u64))
    ensures
        res.0 == valid_after(now),
        res.1 == valid_before(now),
        res.0 < res.1,
{
    let after: u64 = if now < CLOCK_SKEW_SECONDS {
        0
    } else {
        now - CLOCK_SKEW_SECONDS
    };
    let before: u64 = if now > u64::MAX - CERTIFICATE_VALIDITY_SECONDS {
        u64::MAX
    } else {
        now + CERTIFICATE_VALIDITY_SECONDS
    };
    (after, before)
}

/// A certificate is good at the time it is signed, and for as long as it is meant to be from then on.
pub proof fn a_certificate_is_good_when_signed(now: u64)
    requires
        now <= u64::MAX - CERTIFICATE_VALIDITY_SECONDS,
    ensures
        valid_after(now) <= now < valid_before(now),
        valid_before(now) - now == CERTIFICATE_VALIDITY_SECONDS,
{
}

// --- the authority ---------------------------------------------------------------------------

/// A certificate authority: its private key, which lives in memory only, so that a restart replaces
/// it.
pub struct CertificateAuthority {
    pub private_key: String,
}

/// A private key, the certificate its public half was signed with, and the public key of the
/// authority that signed it.
#[derive(Debug, Clone, PartialEq, Eq)]
pub struct KeyMaterial {
    pub private_key: String,
    pub certificate: String,
    pub ca_public_key: String,
}

/// The certificate an authority signs for the public half of a private key.
pub open spec fn certificate_of(
    authority: Seq<char>,
    private_key: Seq<char>,
    host: bool,
    key_id: Seq<char>,
    principals: Seq<Seq<char>>,
    now: u64,
    nonce: Seq<u8>,
) -> Option<Seq<char>> {
    match openssh_public_key(private_key) {
        Some(subject) => openssh_certificate(
            authority,
            subject,
            host,
            key_id,
            principals,
            valid_after(now),
            valid_before(now),
            nonce,
        ),
        None => None,
    }
}

/// Whether an authority signed a key for these principals.
pub open spec fn certified(
    keys: KeyMaterial,
    authority: Seq<char>,
    host: bool,
    key_id: Seq<char>,
    principals: Seq<Seq<char>>,
    now: u64,
    nonce: Seq<u8>,
) -> bool {
    &&& openssh_public_key(authority) == Some(keys.ca_public_key@)
    &&& certificate_of(authority, keys.private_key@, host, key_id, principals, now, nonce) == Some(
        keys.certificate@,
    )
}

/// Whether an authority signed a proxy's key: as a host's, for that host and nothing else.
pub open spec fn host_certified(
    keys: KeyMaterial,
    authority: Seq<char>,
    host: Seq<char>,
    now: u64,
    nonce: Seq<u8>,
) -> bool {
    certified(keys, authority, true, host, seq![host], now, nonce)
}

/// Whether an authority signed the key a run logs in with: as a user's, for the login user and the
/// run.
pub open spec fn client_certified(
    keys: KeyMaterial,
    authority: Seq<char>,
    run_id: Seq<char>,
    now: u64,
    nonce: Seq<u8>,
) -> bool {
    certified(keys, authority, false, run_id, seq!["root"@, run_id], now, nonce)
}

/// A new key pair: its private key, from which the public one can be read. Which key it is, and whether
/// one could be drawn, is up to chance.
pub fn generate_ephemeral_keypair() -> (res: Result<String, CaError>)
    ensures
        res matches Ok(key) ==> openssh_public_key(key@) is Some,
{
    match random_key() {
        Ok(key) => Ok(key),
        Err(error) => Err(CaError::SshKey(error)),
    }
}

impl CertificateAuthority {
    /// A new authority, which has a public key. Which key it is, and whether one could be drawn, is up
    /// to chance.
    pub fn generate() -> (res: Result<Self, CaError>)
        ensures
            res matches Ok(authority) ==> openssh_public_key(authority.private_key@) is Some,
    {
        match random_key() {
            Ok(private_key) => Ok(CertificateAuthority { private_key }),
            Err(error) => Err(CaError::SshKey(error)),
        }
    }

    /// The authority's public key.
    pub fn public_key_openssh(&self) -> (res: Result<String, CaError>)
        ensures
            match res {
                Ok(key) => openssh_public_key(self.private_key@) == Some(key@),
                Err(_) => openssh_public_key(self.private_key@) is None,
            },
    {
        match public_key(self.private_key.as_str()) {
            Ok(key) => Ok(key),
            Err(error) => Err(CaError::SshKey(error)),
        }
    }

    /// Signs a key for these principals.
    pub fn certify(
        &self,
        private_key: String,
        host: bool,
        key_id: &str,
        principals: &[String],
        now: u64,
        nonce: &[u8],
    ) -> (res: Result<KeyMaterial, CaError>)
        ensures
            match res {
                Ok(keys) => keys.private_key == private_key && certified(
                    keys,
                    self.private_key@,
                    host,
                    key_id@,
                    text::texts(principals@),
                    now,
                    nonce@,
                ),
                Err(_) => openssh_public_key(self.private_key@) is None || certificate_of(
                    self.private_key@,
                    private_key@,
                    host,
                    key_id@,
                    text::texts(principals@),
                    now,
                    nonce@,
                ) is None,
            },
    {
        let subject = match public_key(private_key.as_str()) {
            Ok(subject) => subject,
            Err(error) => {
                return Err(CaError::SshKey(error));
            },
        };
        let (after, before) = window(now);
        let signed = match certificate(
            self.private_key.as_str(),
            subject.as_str(),
            host,
            key_id,
            principals,
            after,
            before,
            nonce,
        ) {
            Ok(signed) => signed,
            Err(error) => {
                return Err(CaError::SshKey(error));
            },
        };
        match self.public_key_openssh() {
            Ok(ca_public_key) => Ok(
                KeyMaterial { private_key, certificate: signed, ca_public_key },
            ),
            Err(error) => Err(error),
        }
    }

    /// A new key for a proxy, signed for its host and nothing else. Which key it is, and whether one
    /// could be drawn, is up to chance.
    pub fn host_keys(&self, host: &str, now: u64) -> (res: Result<KeyMaterial, CaError>)
        ensures
            res matches Ok(keys) ==> exists|nonce: Seq<u8>|
                host_certified(keys, self.private_key@, host@, now, nonce),
    {
        let private_key = match generate_ephemeral_keypair() {
            Ok(key) => key,
            Err(error) => {
                return Err(error);
            },
        };
        let nonce = match random_nonce() {
            Some(nonce) => nonce,
            None => {
                return Err(CaError::NoRandomness);
            },
        };
        let principals: Vec<String> = vec![host.to_owned()];
        assert(text::texts(principals@) =~= seq![host@]);
        let res = self.certify(private_key, true, host, &principals, now, &nonce);
        assert(res matches Ok(keys) ==> host_certified(
            keys,
            self.private_key@,
            host@,
            now,
            nonce@,
        ));
        res
    }

    /// A new key for a run to log in with, signed for the login user and the run. Which key it is, and
    /// whether one could be drawn, is up to chance.
    pub fn client_keys(&self, run_id: &str, now: u64) -> (res: Result<KeyMaterial, CaError>)
        ensures
            res matches Ok(keys) ==> exists|nonce: Seq<u8>|
                client_certified(keys, self.private_key@, run_id@, now, nonce),
    {
        let private_key = match generate_ephemeral_keypair() {
            Ok(key) => key,
            Err(error) => {
                return Err(error);
            },
        };
        let nonce = match random_nonce() {
            Some(nonce) => nonce,
            None => {
                return Err(CaError::NoRandomness);
            },
        };
        let principals = client_principals(run_id);
        let res = self.certify(private_key, false, run_id, &principals, now, &nonce);
        assert(res matches Ok(keys) ==> client_certified(
            keys,
            self.private_key@,
            run_id@,
            now,
            nonce@,
        ));
        res
    }
}

/// The principals a run's client certificate is signed for: the login user and the run.
pub fn client_principals(run_id: &str) -> (res: Vec<String>)
    ensures
        text::texts(res@) == seq!["root"@, run_id@],
{
    let res: Vec<String> = vec!["root".to_owned(), run_id.to_owned()];
    assert(text::texts(res@) =~= seq!["root"@, run_id@]);
    res
}

/// A certificate is good from a minute before it is signed until a day after.
pub proof fn a_certificate_is_good_for_a_day(now: u64)
    ensures
        now >= 60 ==> valid_after(now) == now - 60,
        now < 60 ==> valid_after(now) == 0,
        now <= u64::MAX - 86400 ==> valid_before(now) == now + 86400,
        now > u64::MAX - 86400 ==> valid_before(now) == u64::MAX,
{
}

/// A host is certified as a host under its own name alone, and a run as a user, as root and under its own
/// identifier alone.
pub proof fn certificates_are_for_their_bearers(
    keys: KeyMaterial,
    authority: Seq<char>,
    name: Seq<char>,
    now: u64,
    nonce: Seq<u8>,
)
    ensures
        host_certified(keys, authority, name, now, nonce) ==> openssh_public_key(keys.private_key@)
            is Some && openssh_certificate(
            authority,
            openssh_public_key(keys.private_key@)->0,
            true,
            name,
            seq![name],
            valid_after(now),
            valid_before(now),
            nonce,
        ) == Some(keys.certificate@) && openssh_public_key(authority) == Some(keys.ca_public_key@),
        client_certified(keys, authority, name, now, nonce) ==> openssh_public_key(keys.private_key@)
            is Some && openssh_certificate(
            authority,
            openssh_public_key(keys.private_key@)->0,
            false,
            name,
            seq!["root"@, name],
            valid_after(now),
            valid_before(now),
            nonce,
        ) == Some(keys.certificate@) && openssh_public_key(authority) == Some(keys.ca_public_key@),
{
}

} // verus!
