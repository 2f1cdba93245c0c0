//! The TLS settings and the server's TLS material: the certificate chain,
//! the private key and, for mutual TLS, the client CA certificates, parsed
//! from PEM text; the caller reads the files and builds the server
//! configuration from the material.
use vstd::prelude::*;
use rustls::pki_types::PrivateKeyDer;

verus! {

/// TLS configuration: where the certificate chain, the private key and,
/// for mutual TLS, the client CA certificates are.
#[derive(Debug, Clone)]
pub struct TlsConfig {
    pub cert_path: String,
    pub key_path: String,
    pub client_ca_path: Option<String>,
}

/// Optional TLS config from application Config.
#[derive(Debug, Clone)]
pub struct TlsAppConfig {
    pub enabled: bool,
    pub cert_path: Option<String>,
    pub key_path: Option<String>,
    pub client_ca_path: Option<String>,
}

impl Default for TlsAppConfig {
    fn default() -> (r: Self)
        ensures
            !r.enabled,
            r.cert_path is None,
            r.key_path is None,
            r.client_ca_path is None,
    {
        TlsAppConfig { enabled: false, cert_path: None, key_path: None, client_ca_path: None }
    }
}

/// The message when TLS is enabled without a certificate path.
pub open spec fn missing_cert_message() -> Seq<char> {
    "tls.enabled=true but cert_path is missing"@
}

/// The message when TLS is enabled without a key path.
pub open spec fn missing_key_message() -> Seq<char> {
    "tls.enabled=true but key_path is missing"@
}

impl TlsAppConfig {
    /// The TLS settings to serve with: none when TLS is disabled; when it
    /// is enabled, the certificate and key paths must both be given (the
    /// certificate's absence is reported first).
    pub fn to_tls_config(&self) -> (r: Result<Option<TlsConfig>, String>)
        ensures
            !self.enabled ==> r matches Ok(None),
            self.enabled && self.cert_path is None ==> (r matches Err(e) && e@ == missing_cert_message()),
            self.enabled && self.cert_path is Some && self.key_path is None ==> (r matches Err(e) && e@ == missing_key_message()),
            self.enabled && self.cert_path is Some && self.key_path is Some ==> (r matches Ok(Some(c))
                && c.cert_path@ == self.cert_path->0@
                && c.key_path@ == self.key_path->0@
                && c.client_ca_path == self.client_ca_path),
    {
        if !self.enabled {
            return Ok(None);
        }
        let cert_path = match &self.cert_path {
            Some(p) => p.clone(),
            None => {
                return Err("tls.enabled=true but cert_path is missing".to_string());
            }
        };
        let key_path = match &self.key_path {
            Some(p) => p.clone(),
            None => {
                return Err("tls.enabled=true but key_path is missing".to_string());
            }
        };
        let client_ca_path = match &self.client_ca_path {
            Some(p) => Some(p.clone()),
            None => None,
        };
        Ok(Some(TlsConfig { cert_path, key_path, client_ca_path }))
    }
}

/// The encoding of a private key.
#[derive(Debug, Clone, Copy, PartialEq, Eq, Structural)]
pub enum KeyFormat {
    Pkcs1,
    Sec1,
    Pkcs8,
}

/// The DER certificates that `rustls_pemfile::certs` reads from `pem`, in
/// order, or `None` when reading fails.
pub uninterp spec fn pem_certs(pem: Seq<u8>) -> Option<Seq<Seq<u8>>>;

/// The first private key that `rustls_pemfile::private_key` reads from
/// `pem` (its encoding and DER bytes), `Some(None)` when there is none, or
/// `None` when reading fails.
pub uninterp spec fn pem_key(pem: Seq<u8>) -> Option<Option<(KeyFormat, Seq<u8>)>>;

/// The byte views of a list of byte vectors.
pub open spec fn byte_seqs(v: Seq<Vec<u8>>) -> Seq<Seq<u8>> {
    v.map_values(|b: Vec<u8>| b@)
}

/// Calls `rustls_pemfile::certs` on `pem` and collects the certificates'
/// DER bytes; `None` when reading fails.
#[verifier::external_body]
fn parse_certs(pem: &[u8]) -> (r: Option<Vec<Vec<u8>>>)
    ensures
        (r is Some) == (pem_certs(pem@) is Some),
        r matches Some(c) ==> byte_seqs(c@) == pem_certs(pem@)->0,
{
    match rustls_pemfile::certs(&mut &pem[..]).collect::<Result<Vec<_>, _>>() {
        Ok(certs) => Some(certs.into_iter().map(|c| c.to_vec()).collect()),
        Err(_) => None,
    }
}

/// Calls `rustls_pemfile::private_key` on `pem`: the key's encoding and DER
/// bytes, `Some(None)` when there is no key, `None` when reading fails.
#[verifier::external_body]
fn parse_key(pem: &[u8]) -> (r: Option<Option<(KeyFormat, Vec<u8>)>>)
    ensures
        (r is Some) == (pem_key(pem@) is Some),
        r matches Some(k) ==> (k is Some) == (pem_key(pem@)->0 is Some),
        r matches Some(Some(k)) ==> pem_key(pem@) == Some(Some((k.0, k.1@))),
{
    match rustls_pemfile::private_key(&mut &pem[..]) {
        Err(_) => None,
        Ok(None) => Some(None),
        Ok(Some(PrivateKeyDer::Pkcs1(k))) => Some(Some((KeyFormat::Pkcs1, k.secret_pkcs1_der().to_vec()))),
        Ok(Some(PrivateKeyDer::Sec1(k))) => Some(Some((KeyFormat::Sec1, k.secret_sec1_der().to_vec()))),
        Ok(Some(PrivateKeyDer::Pkcs8(k))) => Some(Some((KeyFormat::Pkcs8, k.secret_pkcs8_der().to_vec()))),
        Ok(Some(_)) => None,
    }
}

/// What the server's TLS configuration is built from.
#[derive(Debug, Clone)]
pub struct TlsMaterial {
    /// The certificate chain, DER encoded.
    pub certs: Vec<Vec<u8>>,
    pub key_format: KeyFormat,
    /// The private key, DER encoded.
    pub key: Vec<u8>,
    /// The CA certificates client certificates are verified against; when
    /// there are some, clients must present a certificate (mutual TLS).
    pub client_roots: Option<Vec<Vec<u8>>>,
    /// The application protocols offered, in order of preference.
    pub alpn: Vec<Vec<u8>>,
}

/// Why the TLS material could not be read.
#[derive(Debug, Clone, Copy, PartialEq, Eq, Structural)]
pub enum TlsError {
    BadCertificates,
    BadPrivateKey,
    NoPrivateKey,
    BadClientCa,
}

impl TlsError {
    /// The message the daemon reports.
    pub fn message(&self) -> (r: String)
        ensures
            *self == TlsError::NoPrivateKey ==> r@ == "no private key found"@,
            *self == TlsError::BadCertificates ==> r@ == "failed to read the certificate chain"@,
            *self == TlsError::BadPrivateKey ==> r@ == "failed to read the private key"@,
            *self == TlsError::BadClientCa ==> r@ == "failed to read the client CA certificates"@,
    {
        match self {
            TlsError::BadCertificates => "failed to read the certificate chain".to_string(),
            TlsError::BadPrivateKey => "failed to read the private key".to_string(),
            TlsError::NoPrivateKey => "no private key found".to_string(),
            TlsError::BadClientCa => "failed to read the client CA certificates".to_string(),
        }
    }
}

/// Whether reading a key found one.
pub open spec fn key_found(k: Option<Option<(KeyFormat, Seq<u8>)>>) -> bool {
    match k {
        Some(Some(_)) => true,
        _ => false,
    }
}

/// Whether the client CA text, if any, reads as certificates.
pub open spec fn ca_readable(ca_pem: Option<&[u8]>) -> bool {
    match ca_pem {
        Some(ca) => pem_certs(ca@) is Some,
        None => true,
    }
}

/// The protocols offered by ALPN: `h2`, then `http/1.1` (ASCII bytes).
pub open spec fn alpn_protocols() -> Seq<Seq<u8>> {
    seq![seq![104u8, 50u8], seq![104u8, 116u8, 116u8, 112u8, 47u8, 49u8, 46u8, 49u8]]
}

/// The TLS material for `config`, from the PEM text of its certificate
/// chain, its private key and, exactly when it names one, its client CA
/// file. The chain is read first, then the key, then the CA certificates;
/// the first that fails decides the error.
pub fn tls_material(config: &TlsConfig, cert_pem: &[u8], key_pem: &[u8], ca_pem: Option<&[u8]>) -> (r: Result<TlsMaterial, TlsError>)
    requires
        (ca_pem is Some) == (config.client_ca_path is Some),
    ensures
        pem_certs(cert_pem@) is None ==> r == Err::<TlsMaterial, TlsError>(TlsError::BadCertificates),
        pem_certs(cert_pem@) is Some && pem_key(key_pem@) is None ==> r == Err::<TlsMaterial, TlsError>(TlsError::BadPrivateKey),
        pem_certs(cert_pem@) is Some && pem_key(key_pem@) == Some(None::<(KeyFormat, Seq<u8>)>) ==> r == Err::<TlsMaterial, TlsError>(TlsError::NoPrivateKey),
        pem_certs(cert_pem@) is Some && key_found(pem_key(key_pem@)) && !ca_readable(ca_pem)
            ==> r == Err::<TlsMaterial, TlsError>(TlsError::BadClientCa),
        r is Ok <==> (pem_certs(cert_pem@) is Some && key_found(pem_key(key_pem@)) && ca_readable(ca_pem)),
        r matches Ok(m) ==> {
            &&& byte_seqs(m.certs@) == pem_certs(cert_pem@)->0
            &&& pem_key(key_pem@) == Some(Some((m.key_format, m.key@)))
            &&& (m.client_roots is Some) == (ca_pem is Some)
            &&& (ca_pem matches Some(ca) ==> m.client_roots matches Some(roots) && byte_seqs(roots@) == pem_certs(ca@)->0)
            &&& byte_seqs(m.alpn@) == alpn_protocols()
        },
{
    let certs = match parse_certs(cert_pem) {
        Some(c) => c,
        None => {
            return Err(TlsError::BadCertificates);
        }
    };
    let (key_format, key) = match parse_key(key_pem) {
        None => {
            return Err(TlsError::BadPrivateKey);
        }
        Some(None) => {
            return Err(TlsError::NoPrivateKey);
        }
        Some(Some(k)) => k,
    };
    let client_roots = match ca_pem {
        Some(ca) => match parse_certs(ca) {
            Some(roots) => Some(roots),
            None => {
                return Err(TlsError::BadClientCa);
            }
        },
        None => None,
    };
    let mut alpn: Vec<Vec<u8>> = Vec::new();
    alpn.push(vec![104u8, 50u8]);
    alpn.push(vec![104u8, 116u8, 116u8, 112u8, 47u8, 49u8, 46u8, 49u8]);
    proof {
        assert(byte_seqs(alpn@) =~= alpn_protocols());
    }
    Ok(TlsMaterial { certs, key_format, key, client_roots, alpn })
}

} // verus!
