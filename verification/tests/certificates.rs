use ansible_operator::ca::{
    client_principals, generate_ephemeral_keypair, CaError, CertificateAuthority,
    CERTIFICATE_VALIDITY_SECONDS, CLOCK_SKEW_SECONDS,
};
use ansible_operator::execution_evaluator::{ExecutionHash, SecretData};
use ansible_operator::managed_ssh::needs_reset;
use ansible_operator::paths::{
    MANAGED_SSH_CLIENT_CERT_FILENAME, MANAGED_SSH_CLIENT_KEY_FILENAME,
    MANAGED_SSH_KNOWN_HOSTS_FILENAME,
};
use ansible_operator::proxy_objects::{
    build_secret, render_client_cert_files, CA_PUB_FILENAME, HOST_CERT_FILENAME, HOST_KEY_FILENAME,
};
use ansible_operator::resources::LabelMap;
use ssh_key::certificate::CertType;
use ssh_key::{Certificate, PrivateKey, PublicKey};

const NOW: u64 = 1_700_000_000;

fn file(files: &LabelMap, name: &str) -> String {
    files.get(name).cloned().unwrap()
}

#[test]
fn an_authority_names_its_own_public_key() {
    let ca = CertificateAuthority::generate().unwrap();
    let private = PrivateKey::from_openssh(&ca.private_key).unwrap();
    assert_eq!(
        ca.public_key_openssh().unwrap(),
        private.public_key().to_openssh().unwrap()
    );
    assert!(ca.public_key_openssh().unwrap().starts_with("ssh-ed25519 "));
}

#[test]
fn two_keys_differ() {
    assert_ne!(
        generate_ephemeral_keypair().unwrap(),
        generate_ephemeral_keypair().unwrap()
    );
}

#[test]
fn a_text_that_is_no_key_is_an_error() {
    let ca = CertificateAuthority {
        private_key: "not a key".into(),
    };
    assert!(matches!(ca.public_key_openssh(), Err(CaError::SshKey(_))));
    assert!(matches!(ca.host_keys("worker-1", NOW), Err(CaError::SshKey(_))));
    let good = CertificateAuthority::generate().unwrap();
    assert!(good
        .certify("not a key".into(), true, "id", &["a".into()], NOW, &[0; 16])
        .is_err());
}

#[test]
fn a_certificate_for_nobody_is_refused() {
    let ca = CertificateAuthority::generate().unwrap();
    let key = generate_ephemeral_keypair().unwrap();
    assert!(ca.certify(key, false, "id", &[], NOW, &[0; 16]).is_err());
}

#[test]
fn a_proxys_certificate_is_its_hosts() {
    let ca = CertificateAuthority::generate().unwrap();
    let secret =
        build_secret("ansible-sshd-worker-1-abc", &ExecutionHash(26), "run-1", "worker-1", &ca, NOW)
            .unwrap();
    let certificate = Certificate::from_openssh(&file(&secret.string_data, HOST_CERT_FILENAME)).unwrap();
    assert_eq!(certificate.cert_type(), CertType::Host);
    assert_eq!(certificate.valid_principals(), ["worker-1"]);
    assert_eq!(certificate.key_id(), "worker-1");
    assert_eq!(certificate.valid_after(), NOW - CLOCK_SKEW_SECONDS);
    assert_eq!(certificate.valid_before(), NOW + CERTIFICATE_VALIDITY_SECONDS);
    let key = PrivateKey::from_openssh(file(&secret.string_data, HOST_KEY_FILENAME)).unwrap();
    assert_eq!(certificate.public_key(), key.public_key().key_data());
    let authority = PublicKey::from_openssh(&file(&secret.string_data, CA_PUB_FILENAME)).unwrap();
    assert_eq!(certificate.signature_key(), authority.key_data());
    assert_eq!(
        file(&secret.string_data, CA_PUB_FILENAME),
        ca.public_key_openssh().unwrap()
    );
}

#[test]
fn a_runs_certificate_is_for_the_login_user_and_the_run() {
    let ca = CertificateAuthority::generate().unwrap();
    let files = render_client_cert_files(&ca, "run-b", NOW).unwrap();
    let certificate = Certificate::from_openssh(&file(&files, MANAGED_SSH_CLIENT_CERT_FILENAME)).unwrap();
    assert_eq!(certificate.cert_type(), CertType::User);
    assert_eq!(certificate.valid_principals(), ["root", "run-b"]);
    let key = PrivateKey::from_openssh(file(&files, MANAGED_SSH_CLIENT_KEY_FILENAME)).unwrap();
    assert_eq!(certificate.public_key(), key.public_key().key_data());
    assert_eq!(
        file(&files, MANAGED_SSH_KNOWN_HOSTS_FILENAME),
        format!("@cert-authority * {}", ca.public_key_openssh().unwrap())
    );
}

#[test]
fn a_certificate_follows_from_its_key_and_nonce() {
    let ca = CertificateAuthority::generate().unwrap();
    let key = generate_ephemeral_keypair().unwrap();
    let principals = client_principals("run-1");
    let first = ca
        .certify(key.clone(), false, "run-1", &principals, NOW, &[7; 16])
        .unwrap();
    let again = ca
        .certify(key.clone(), false, "run-1", &principals, NOW, &[7; 16])
        .unwrap();
    let other = ca
        .certify(key, false, "run-1", &client_principals("run-2"), NOW, &[7; 16])
        .unwrap();
    assert_eq!(first, again);
    assert_ne!(first.certificate, other.certificate);
}

#[test]
fn a_new_identity_is_reset_only_for_another_authority() {
    let ca = CertificateAuthority::generate().unwrap();
    let other = CertificateAuthority::generate().unwrap();
    let files = render_client_cert_files(&ca, "run-1", NOW).unwrap();
    let mut stored = SecretData::new();
    for i in 0..files.len() {
        let (name, contents) = files.entry(i);
        stored.insert(name.to_string(), contents.as_bytes().to_vec());
    }
    assert!(!needs_reset(Some(&stored), &ca.public_key_openssh().unwrap()));
    assert!(needs_reset(Some(&stored), &other.public_key_openssh().unwrap()));
    assert!(!needs_reset(None, &ca.public_key_openssh().unwrap()));
}

#[test]
fn a_certificate_reaches_back_no_further_than_the_epoch() {
    let ca = CertificateAuthority::generate().unwrap();
    let keys = ca.host_keys("worker-1", 5).unwrap();
    let certificate = Certificate::from_openssh(&keys.certificate).unwrap();
    assert_eq!(certificate.valid_after(), 0);
    assert_eq!(certificate.valid_before(), 5 + CERTIFICATE_VALIDITY_SECONDS);
}
