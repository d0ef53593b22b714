//! The TLS connector that each tunnel builds once, with the trust anchor
//! that its configuration names when that anchor can be used.
use vstd::prelude::*;

verus! {

#[verifier::external_type_specification]
#[verifier::external_body]
pub struct ExTlsConnector(native_tls::TlsConnector);

#[verifier::external_type_specification]
#[verifier::external_body]
pub struct ExTlsConnectorBuilder(native_tls::TlsConnectorBuilder);

#[verifier::external_type_specification]
#[verifier::external_body]
pub struct ExCertificate(native_tls::Certificate);

#[verifier::external_type_specification]
#[verifier::external_body]
pub struct ExTlsError(native_tls::Error);

/// What could be read of the certificate file that a tunnel names.
#[derive(Debug)]
pub enum AnchorFile {
    /// The tunnel names no certificate file.
    NotConfigured,
    /// The file is named but could not be read.
    Unreadable,
    /// The file's contents.
    Bytes(Vec<u8>),
}

/// Why a named trust anchor was not used.
#[derive(Clone, Copy, Debug, PartialEq, Eq, Structural)]
pub enum AnchorIssue {
    Unreadable,
    Unparseable,
}

/// The trust store that a tunnel's connector validates the remote with.
#[derive(Clone, Copy, Debug, PartialEq, Eq, Structural)]
pub enum Trust {
    /// The default store; no anchor was named.
    DefaultStore,
    /// The default store extended by the named anchor.
    WithAnchor,
    /// The default store alone, because the named anchor could not be used.
    Degraded(AnchorIssue),
}

/// The trust store that follows from the anchor file and, where bytes were
/// read, from whether they parsed as a DER certificate.
pub open spec fn trust_spec(anchor: AnchorFile, parsed: bool) -> Trust {
    match anchor {
        AnchorFile::NotConfigured => Trust::DefaultStore,
        AnchorFile::Unreadable => Trust::Degraded(AnchorIssue::Unreadable),
        AnchorFile::Bytes(_) => if parsed {
            Trust::WithAnchor
        } else {
            Trust::Degraded(AnchorIssue::Unparseable)
        },
    }
}

/// Decides the trust store from the anchor file and the parse outcome.
pub fn trust_for(anchor: &AnchorFile, parsed: bool) -> (r: Trust)
    ensures
        r == trust_spec(*anchor, parsed),
{
    match anchor {
        AnchorFile::NotConfigured => Trust::DefaultStore,
        AnchorFile::Unreadable => Trust::Degraded(AnchorIssue::Unreadable),
        AnchorFile::Bytes(_) => if parsed {
            Trust::WithAnchor
        } else {
            Trust::Degraded(AnchorIssue::Unparseable)
        },
    }
}

/// Relies on native_tls::Certificate::from_der: parses DER bytes into a
/// certificate or reports an error.
#[verifier::external_body]
fn parse_der(der: &[u8]) -> (r: Result<native_tls::Certificate, native_tls::Error>) {
    native_tls::Certificate::from_der(der)
}

/// Relies on native_tls::TlsConnector::builder: a builder with the default
/// settings and the default trust store.
#[verifier::external_body]
fn connector_builder() -> (r: native_tls::TlsConnectorBuilder) {
    native_tls::TlsConnector::builder()
}

/// Relies on native_tls::TlsConnectorBuilder::add_root_certificate: adds a
/// certificate to the trust store that the builder will use.
#[verifier::external_body]
fn add_root(b: &mut native_tls::TlsConnectorBuilder, cert: native_tls::Certificate) {
    b.add_root_certificate(cert);
}

/// Relies on native_tls::TlsConnectorBuilder::build: makes the connector, or
/// reports why the TLS backend could not.
#[verifier::external_body]
fn build(b: &native_tls::TlsConnectorBuilder) -> (r: Result<native_tls::TlsConnector, native_tls::Error>) {
    b.build()
}

/// Builds a tunnel's connector. An anchor that cannot be read or parsed is
/// not an error: the connector then uses the default store, and the returned
/// trust says why.
pub fn build_connector(anchor: &AnchorFile) -> (r: Result<(native_tls::TlsConnector, Trust), native_tls::Error>)
    ensures
        r is Ok ==> exists|parsed: bool| r->Ok_0.1 == trust_spec(*anchor, parsed),
        r is Ok && !(*anchor is Bytes) ==> r->Ok_0.1 == trust_spec(*anchor, false),
{
    let mut builder = connector_builder();
    let parsed = match anchor {
        AnchorFile::Bytes(der) => match parse_der(der.as_slice()) {
            Ok(cert) => {
                add_root(&mut builder, cert);
                true
            },
            Err(_) => false,
        },
        _ => false,
    };
    let trust = trust_for(anchor, parsed);
    match build(&builder) {
        Ok(c) => Ok((c, trust)),
        Err(e) => Err(e),
    }
}

} // verus!
