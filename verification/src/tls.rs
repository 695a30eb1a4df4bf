//! TLS configuration: where a server's certificate comes from, how each side verifies its
//! peer, and the server/client TLS policies built from them, together with their flattened
//! wire form (the fields a config file carries) and the resolution rules between the two.
use vstd::prelude::*;

use crate::text::owned;

verus! {

/// Where a server's presented TLS certificate comes from. A self-signed certificate wins over
/// explicit files, so "both set" cannot be represented.
#[derive(Debug, Clone, PartialEq, Eq)]
pub enum ServerCertSource {
    SelfSigned,
    Explicit { cert_file: String, key_file: String },
    Unset,
}

impl Default for ServerCertSource {
    fn default() -> (r: Self)
        ensures
            r == ServerCertSource::Unset,
    {
        ServerCertSource::Unset
    }
}

/// The source `ServerCertSource::resolve` picks, or `None` when the inputs are inconsistent.
pub open spec fn spec_server_cert_resolve(
    self_signed: bool,
    cert_file: Option<String>,
    key_file: Option<String>,
) -> Option<ServerCertSource> {
    if self_signed {
        Some(ServerCertSource::SelfSigned)
    } else {
        match (cert_file, key_file) {
            (Some(c), Some(k)) => Some(ServerCertSource::Explicit { cert_file: c, key_file: k }),
            (None, None) => Some(ServerCertSource::Unset),
            _ => None,
        }
    }
}

impl ServerCertSource {
    /// Self-signed wins unconditionally; a certificate without its key (or the reverse) is a
    /// configuration error.
    pub fn resolve(self_signed: bool, cert_file: Option<String>, key_file: Option<String>) -> (r:
        Result<Self, String>)
        ensures
            match r {
                Ok(s) => spec_server_cert_resolve(self_signed, cert_file, key_file) == Some(s),
                Err(e) => spec_server_cert_resolve(self_signed, cert_file, key_file) is None
                    && e@ == "cert_file and key_file must both be set, or neither"@,
            },
    {
        if self_signed {
            return Ok(ServerCertSource::SelfSigned);
        }
        match (cert_file, key_file) {
            (Some(c), Some(k)) => Ok(ServerCertSource::Explicit { cert_file: c, key_file: k }),
            (None, None) => Ok(ServerCertSource::Unset),
            _ => Err(owned("cert_file and key_file must both be set, or neither")),
        }
    }
}

/// How a client verifies the server's certificate. Skip-verify wins over a CA file.
#[derive(Debug, Clone, PartialEq, Eq)]
pub enum ClientVerification {
    SkipVerify,
    Verify { ca_file: Option<String> },
}

impl Default for ClientVerification {
    fn default() -> (r: Self)
        ensures
            r == (ClientVerification::Verify { ca_file: None }),
    {
        ClientVerification::Verify { ca_file: None }
    }
}

pub open spec fn spec_client_verification_resolve(
    skip_verify: bool,
    ca_file: Option<String>,
) -> ClientVerification {
    if skip_verify {
        ClientVerification::SkipVerify
    } else {
        ClientVerification::Verify { ca_file }
    }
}

impl ClientVerification {
    pub fn resolve(skip_verify: bool, ca_file: Option<String>) -> (r: Self)
        ensures
            r == spec_client_verification_resolve(skip_verify, ca_file),
    {
        if skip_verify {
            ClientVerification::SkipVerify
        } else {
            ClientVerification::Verify { ca_file }
        }
    }
}

/// How a server verifies an incoming client certificate under mutual TLS: against a
/// non-empty list of CA files (any one suffices), or not at all.
#[derive(Debug, Clone, PartialEq, Eq)]
pub enum ClientCertVerification {
    Verify { ca_files: Vec<String> },
    SkipVerify,
}

impl View for ClientCertVerification {
    /// `Some(ca_files)` for `Verify`, `None` for `SkipVerify`.
    type V = Option<Seq<String>>;

    open spec fn view(&self) -> Option<Seq<String>> {
        match self {
            ClientCertVerification::Verify { ca_files } => Some(ca_files@),
            ClientCertVerification::SkipVerify => None,
        }
    }
}

/// The verification `ClientCertVerification::resolve` produces (by its view), or `None`
/// when it is an error.
pub open spec fn spec_client_cert_verification_resolve(
    skip_verify: bool,
    ca_files: Seq<String>,
) -> Option<Option<Seq<String>>> {
    if skip_verify {
        Some(None)
    } else if ca_files.len() == 0 {
        None
    } else {
        Some(Some(ca_files))
    }
}

impl ClientCertVerification {
    /// Skip-verify wins; otherwise at least one CA file is required.
    pub fn resolve(skip_verify: bool, ca_files: Vec<String>) -> (r: Result<Self, String>)
        ensures
            match r {
                Ok(v) => spec_client_cert_verification_resolve(skip_verify, ca_files@) == Some(
                    v@,
                ),
                Err(e) => spec_client_cert_verification_resolve(skip_verify, ca_files@) is None
                    && e@ == "ca_files must be non-empty when client_cert_skip_verify is unset"@,
            },
    {
        if skip_verify {
            return Ok(ClientCertVerification::SkipVerify);
        }
        if ca_files.len() == 0 {
            return Err(owned("ca_files must be non-empty when client_cert_skip_verify is unset"));
        }
        Ok(ClientCertVerification::Verify { ca_files })
    }
}

/// A client's own mutual-TLS identity. Self-signed wins; there is no "unset" state.
#[derive(Debug, Clone, PartialEq, Eq)]
pub enum ClientCertSource {
    SelfSigned,
    Explicit { client_cert_file: String, client_key_file: String },
}

pub open spec fn spec_client_cert_source_resolve(
    self_signed: bool,
    client_cert_file: Option<String>,
    client_key_file: Option<String>,
) -> Option<ClientCertSource> {
    if self_signed {
        Some(ClientCertSource::SelfSigned)
    } else {
        match (client_cert_file, client_key_file) {
            (Some(c), Some(k)) => Some(
                ClientCertSource::Explicit { client_cert_file: c, client_key_file: k },
            ),
            _ => None,
        }
    }
}

impl ClientCertSource {
    pub fn resolve(
        self_signed: bool,
        client_cert_file: Option<String>,
        client_key_file: Option<String>,
    ) -> (r: Result<Self, String>)
        ensures
            match r {
                Ok(s) => spec_client_cert_source_resolve(
                    self_signed,
                    client_cert_file,
                    client_key_file,
                ) == Some(s),
                Err(e) => spec_client_cert_source_resolve(
                    self_signed,
                    client_cert_file,
                    client_key_file,
                ) is None && e@
                    == "client_cert_file and client_key_file must both be set, or client_self_signed set"@,
            },
    {
        if self_signed {
            return Ok(ClientCertSource::SelfSigned);
        }
        match (client_cert_file, client_key_file) {
            (Some(c), Some(k)) => Ok(
                ClientCertSource::Explicit { client_cert_file: c, client_key_file: k },
            ),
            _ => Err(
                owned(
                    "client_cert_file and client_key_file must both be set, or client_self_signed set",
                ),
            ),
        }
    }
}

/// A server-role endpoint's TLS configuration. `NoTls` only stands for "no TLS block at all";
/// a present block always resolves to `Tls` or `MutualTls`.
#[derive(Debug, Clone, PartialEq, Eq)]
pub enum ServerTlsPolicy {
    NoTls,
    Tls { server_cert: ServerCertSource },
    MutualTls { server_cert: ServerCertSource, client_verification: ClientCertVerification },
}

impl View for ServerTlsPolicy {
    /// `None` for `NoTls`; otherwise the certificate source and, under mutual TLS, the view of
    /// the client verification.
    type V = Option<(ServerCertSource, Option<Option<Seq<String>>>)>;

    open spec fn view(&self) -> Self::V {
        match self {
            ServerTlsPolicy::NoTls => None,
            ServerTlsPolicy::Tls { server_cert } => Some((*server_cert, None)),
            ServerTlsPolicy::MutualTls { server_cert, client_verification } => Some(
                (*server_cert, Some(client_verification@)),
            ),
        }
    }
}

/// A client-role endpoint's TLS configuration, with the same `NoTls` convention.
#[derive(Debug, Clone, PartialEq, Eq)]
pub enum ClientTlsPolicy {
    NoTls,
    Tls { client_verification: ClientVerification },
    MutualTls { client_verification: ClientVerification, client_identity: ClientCertSource },
}

/// The `(ca_files, skip_verify)` wire pair of a client-certificate verification.
pub fn client_cert_verification_fields(v: &ClientCertVerification) -> (r: (Vec<String>, bool))
    ensures
        r.0@ == (match v {
            ClientCertVerification::SkipVerify => Seq::<String>::empty(),
            ClientCertVerification::Verify { ca_files } => ca_files@,
        }),
        r.1 == (v is SkipVerify),
{
    match v {
        ClientCertVerification::SkipVerify => (Vec::new(), true),
        ClientCertVerification::Verify { ca_files } => {
            let c = ca_files.clone();
            assert(c@ =~= ca_files@);
            (c, false)
        },
    }
}

/// The `(self_signed, cert_file, key_file)` wire triple of a client identity.
pub fn client_cert_source_fields(source: &ClientCertSource) -> (r: (
    bool,
    Option<String>,
    Option<String>,
))
    ensures
        r == spec_client_cert_source_fields(*source),
{
    match source {
        ClientCertSource::SelfSigned => (true, None, None),
        ClientCertSource::Explicit { client_cert_file, client_key_file } => (
            false,
            Some(client_cert_file.clone()),
            Some(client_key_file.clone()),
        ),
    }
}

pub open spec fn spec_client_cert_source_fields(source: ClientCertSource) -> (
    bool,
    Option<String>,
    Option<String>,
) {
    match source {
        ClientCertSource::SelfSigned => (true, None, None),
        ClientCertSource::Explicit { client_cert_file, client_key_file } => (
            false,
            Some(client_cert_file),
            Some(client_key_file),
        ),
    }
}

/// The `(self_signed, cert_file, key_file)` wire triple of a server certificate source.
pub fn server_cert_fields(source: &ServerCertSource) -> (r: (bool, Option<String>, Option<String>))
    ensures
        r == spec_server_cert_fields(*source),
{
    match source {
        ServerCertSource::SelfSigned => (true, None, None),
        ServerCertSource::Explicit { cert_file, key_file } => (
            false,
            Some(cert_file.clone()),
            Some(key_file.clone()),
        ),
        ServerCertSource::Unset => (false, None, None),
    }
}

pub open spec fn spec_server_cert_fields(source: ServerCertSource) -> (
    bool,
    Option<String>,
    Option<String>,
) {
    match source {
        ServerCertSource::SelfSigned => (true, None, None),
        ServerCertSource::Explicit { cert_file, key_file } => (
            false,
            Some(cert_file),
            Some(key_file),
        ),
        ServerCertSource::Unset => (false, None, None),
    }
}

/// The `(ca_file, insecure_skip_verify)` wire pair of a client verification.
pub fn client_verification_fields(v: &ClientVerification) -> (r: (Option<String>, bool))
    ensures
        r == spec_client_verification_fields(*v),
{
    match v {
        ClientVerification::SkipVerify => (None, true),
        ClientVerification::Verify { ca_file } => (ca_file.clone(), false),
    }
}

pub open spec fn spec_client_verification_fields(v: ClientVerification) -> (Option<String>, bool) {
    match v {
        ClientVerification::SkipVerify => (None, true),
        ClientVerification::Verify { ca_file } => (ca_file, false),
    }
}

// ---------------------------------------------------------------------------------------------
// Wire forms: the flattened fields each type is written as in a config file. Absent optional
// fields and `false` flags are omitted on write; `client_ca_file` is the legacy singular form
// of `client_ca_files`, read but never written.
// ---------------------------------------------------------------------------------------------

/// Wire fields of a `ServerCertSource`.
#[derive(Debug, Clone, PartialEq, Eq, Default)]
pub struct RawServerCert {
    pub cert_file: Option<String>,
    pub key_file: Option<String>,
    pub self_signed: bool,
}

/// Wire fields of a `ClientVerification`.
#[derive(Debug, Clone, PartialEq, Eq, Default)]
pub struct RawClientVerification {
    pub ca_file: Option<String>,
    pub insecure_skip_verify: bool,
}

/// Wire fields of a `ClientCertVerification`.
#[derive(Debug, Clone, PartialEq, Eq, Default)]
pub struct RawClientCertVerification {
    pub client_ca_files: Vec<String>,
    pub client_ca_file: Option<String>,
    pub client_cert_skip_verify: bool,
}

/// Wire fields of a `ClientCertSource`.
#[derive(Debug, Clone, PartialEq, Eq, Default)]
pub struct RawClientCertSource {
    pub client_cert_file: Option<String>,
    pub client_key_file: Option<String>,
    pub client_self_signed: bool,
}

/// Wire fields of a `ServerTlsPolicy`: the certificate source's three, `require_client_cert`
/// (the mutual-TLS trigger) and the client verification's three.
#[derive(Debug, Clone, PartialEq, Eq, Default)]
pub struct RawServerTlsPolicy {
    pub cert_file: Option<String>,
    pub key_file: Option<String>,
    pub self_signed: bool,
    pub require_client_cert: bool,
    pub client_ca_files: Vec<String>,
    pub client_ca_file: Option<String>,
    pub client_cert_skip_verify: bool,
}

/// Wire fields of a `ClientTlsPolicy`: the verification's two and the identity's three; mutual
/// TLS is inferred from any identity field being present.
#[derive(Debug, Clone, PartialEq, Eq, Default)]
pub struct RawClientTlsPolicy {
    pub ca_file: Option<String>,
    pub insecure_skip_verify: bool,
    pub client_cert_file: Option<String>,
    pub client_key_file: Option<String>,
    pub client_self_signed: bool,
}

/// The CA list a document names: the plural list when non-empty, else the legacy singular.
pub open spec fn spec_ca_files(plural: Seq<String>, singular: Option<String>) -> Seq<String> {
    if plural.len() > 0 {
        plural
    } else {
        match singular {
            Some(f) => seq![f],
            None => Seq::<String>::empty(),
        }
    }
}

/// The plural CA list when non-empty, else the legacy singular entry (if any).
pub fn merge_ca_files(plural: Vec<String>, singular: Option<String>) -> (r: Vec<String>)
    ensures
        r@ == spec_ca_files(plural@, singular),
{
    if plural.len() > 0 {
        plural
    } else {
        let mut v: Vec<String> = Vec::new();
        match singular {
            Some(f) => {
                v.push(f);
                assert(v@ =~= seq![f]);
            },
            None => {
                assert(v@ =~= Seq::<String>::empty());
            },
        }
        v
    }
}

impl ServerCertSource {
    /// The wire form of this source.
    pub fn to_raw(&self) -> (r: RawServerCert)
        ensures
            r == (RawServerCert {
                cert_file: spec_server_cert_fields(*self).1,
                key_file: spec_server_cert_fields(*self).2,
                self_signed: spec_server_cert_fields(*self).0,
            }),
    {
        let (self_signed, cert_file, key_file) = server_cert_fields(self);
        RawServerCert { cert_file, key_file, self_signed }
    }

    /// Reads a source from its wire form (the same resolution as `resolve`).
    pub fn from_raw(raw: RawServerCert) -> (r: Result<Self, String>)
        ensures
            match r {
                Ok(s) => spec_server_cert_resolve(raw.self_signed, raw.cert_file, raw.key_file)
                    == Some(s),
                Err(_) => spec_server_cert_resolve(
                    raw.self_signed,
                    raw.cert_file,
                    raw.key_file,
                ) is None,
            },
    {
        ServerCertSource::resolve(raw.self_signed, raw.cert_file, raw.key_file)
    }
}

impl ClientVerification {
    pub fn to_raw(&self) -> (r: RawClientVerification)
        ensures
            r == (RawClientVerification {
                ca_file: spec_client_verification_fields(*self).0,
                insecure_skip_verify: spec_client_verification_fields(*self).1,
            }),
    {
        let (ca_file, insecure_skip_verify) = client_verification_fields(self);
        RawClientVerification { ca_file, insecure_skip_verify }
    }

    pub fn from_raw(raw: RawClientVerification) -> (r: Self)
        ensures
            r == spec_client_verification_resolve(raw.insecure_skip_verify, raw.ca_file),
    {
        ClientVerification::resolve(raw.insecure_skip_verify, raw.ca_file)
    }
}

impl ClientCertVerification {
    pub fn to_raw(&self) -> (r: RawClientCertVerification)
        ensures
            r.client_ca_files@ == (match self@ {
                Some(files) => files,
                None => Seq::<String>::empty(),
            }),
            r.client_ca_file is None,
            r.client_cert_skip_verify == (self@ is None),
    {
        let (client_ca_files, client_cert_skip_verify) = client_cert_verification_fields(self);
        RawClientCertVerification { client_ca_files, client_ca_file: None, client_cert_skip_verify }
    }

    /// Reads a verification from its wire form: the plural list wins over the legacy singular.
    pub fn from_raw(raw: RawClientCertVerification) -> (r: Result<Self, String>)
        ensures
            match r {
                Ok(v) => spec_client_cert_verification_resolve(
                    raw.client_cert_skip_verify,
                    spec_ca_files(raw.client_ca_files@, raw.client_ca_file),
                ) == Some(v@),
                Err(_) => spec_client_cert_verification_resolve(
                    raw.client_cert_skip_verify,
                    spec_ca_files(raw.client_ca_files@, raw.client_ca_file),
                ) is None,
            },
    {
        let ca_files = merge_ca_files(raw.client_ca_files, raw.client_ca_file);
        ClientCertVerification::resolve(raw.client_cert_skip_verify, ca_files)
    }
}

impl ClientCertSource {
    pub fn to_raw(&self) -> (r: RawClientCertSource)
        ensures
            r == (RawClientCertSource {
                client_cert_file: spec_client_cert_source_fields(*self).1,
                client_key_file: spec_client_cert_source_fields(*self).2,
                client_self_signed: spec_client_cert_source_fields(*self).0,
            }),
    {
        let (client_self_signed, client_cert_file, client_key_file) = client_cert_source_fields(
            self,
        );
        RawClientCertSource { client_cert_file, client_key_file, client_self_signed }
    }

    pub fn from_raw(raw: RawClientCertSource) -> (r: Result<Self, String>)
        ensures
            match r {
                Ok(s) => spec_client_cert_source_resolve(
                    raw.client_self_signed,
                    raw.client_cert_file,
                    raw.client_key_file,
                ) == Some(s),
                Err(_) => spec_client_cert_source_resolve(
                    raw.client_self_signed,
                    raw.client_cert_file,
                    raw.client_key_file,
                ) is None,
            },
    {
        ClientCertSource::resolve(raw.client_self_signed, raw.client_cert_file, raw.client_key_file)
    }
}

/// The policy (by its view) a server wire form resolves to, or `None` when it is an error.
pub open spec fn spec_server_policy_from_raw(
    cert_file: Option<String>,
    key_file: Option<String>,
    self_signed: bool,
    require_client_cert: bool,
    client_ca_files: Seq<String>,
    client_ca_file: Option<String>,
    client_cert_skip_verify: bool,
) -> Option<(ServerCertSource, Option<Option<Seq<String>>>)> {
    match spec_server_cert_resolve(self_signed, cert_file, key_file) {
        None => None,
        Some(server_cert) => if !require_client_cert {
            Some((server_cert, None))
        } else {
            match spec_client_cert_verification_resolve(
                client_cert_skip_verify,
                spec_ca_files(client_ca_files, client_ca_file),
            ) {
                None => None,
                Some(v) => Some((server_cert, Some(v))),
            }
        },
    }
}

impl ServerTlsPolicy {
    /// The wire form of this policy. `NoTls` writes the same fields as `Tls { Unset }`.
    pub fn to_raw(&self) -> (r: RawServerTlsPolicy)
        ensures
            ({
                let (sc, v) = match self@ {
                    None => (ServerCertSource::Unset, None),
                    Some((sc, v)) => (sc, v),
                };
                &&& r.self_signed == spec_server_cert_fields(sc).0
                &&& r.cert_file == spec_server_cert_fields(sc).1
                &&& r.key_file == spec_server_cert_fields(sc).2
                &&& r.require_client_cert == (v is Some)
                &&& r.client_ca_files@ == (match v {
                    Some(Some(files)) => files,
                    _ => Seq::<String>::empty(),
                })
                &&& r.client_ca_file is None
                &&& r.client_cert_skip_verify == (v == Some(None::<Seq<String>>))
            }),
    {
        match self {
            ServerTlsPolicy::NoTls => {
                let r = RawServerTlsPolicy {
                    cert_file: None,
                    key_file: None,
                    self_signed: false,
                    require_client_cert: false,
                    client_ca_files: Vec::new(),
                    client_ca_file: None,
                    client_cert_skip_verify: false,
                };
                assert(r.client_ca_files@ =~= Seq::<String>::empty());
                r
            },
            ServerTlsPolicy::Tls { server_cert } => {
                let (self_signed, cert_file, key_file) = server_cert_fields(server_cert);
                let r = RawServerTlsPolicy {
                    cert_file,
                    key_file,
                    self_signed,
                    require_client_cert: false,
                    client_ca_files: Vec::new(),
                    client_ca_file: None,
                    client_cert_skip_verify: false,
                };
                assert(r.client_ca_files@ =~= Seq::<String>::empty());
                r
            },
            ServerTlsPolicy::MutualTls { server_cert, client_verification } => {
                let (self_signed, cert_file, key_file) = server_cert_fields(server_cert);
                let (client_ca_files, client_cert_skip_verify) = client_cert_verification_fields(
                    client_verification,
                );
                RawServerTlsPolicy {
                    cert_file,
                    key_file,
                    self_signed,
                    require_client_cert: true,
                    client_ca_files,
                    client_ca_file: None,
                    client_cert_skip_verify,
                }
            },
        }
    }

    /// Reads a policy from its wire form: `Tls` unless `require_client_cert`, and never
    /// `NoTls`.
    pub fn from_raw(raw: RawServerTlsPolicy) -> (r: Result<Self, String>)
        ensures
            match r {
                Ok(p) => spec_server_policy_from_raw(
                    raw.cert_file,
                    raw.key_file,
                    raw.self_signed,
                    raw.require_client_cert,
                    raw.client_ca_files@,
                    raw.client_ca_file,
                    raw.client_cert_skip_verify,
                ) == Some(p@.unwrap()) && !(p is NoTls),
                Err(_) => spec_server_policy_from_raw(
                    raw.cert_file,
                    raw.key_file,
                    raw.self_signed,
                    raw.require_client_cert,
                    raw.client_ca_files@,
                    raw.client_ca_file,
                    raw.client_cert_skip_verify,
                ) is None,
            },
    {
        let server_cert = match ServerCertSource::resolve(
            raw.self_signed,
            raw.cert_file,
            raw.key_file,
        ) {
            Ok(s) => s,
            Err(e) => return Err(e),
        };
        if !raw.require_client_cert {
            return Ok(ServerTlsPolicy::Tls { server_cert });
        }
        let ca_files = merge_ca_files(raw.client_ca_files, raw.client_ca_file);
        let client_verification = match ClientCertVerification::resolve(
            raw.client_cert_skip_verify,
            ca_files,
        ) {
            Ok(v) => v,
            Err(e) => return Err(e),
        };
        Ok(ServerTlsPolicy::MutualTls { server_cert, client_verification })
    }
}

/// The policy a client wire form resolves to, or `None` when it is an error.
pub open spec fn spec_client_policy_from_raw(raw: RawClientTlsPolicy) -> Option<ClientTlsPolicy> {
    let client_verification = spec_client_verification_resolve(
        raw.insecure_skip_verify,
        raw.ca_file,
    );
    let mtls = raw.client_self_signed || raw.client_cert_file is Some || raw.client_key_file is Some;
    if !mtls {
        Some(ClientTlsPolicy::Tls { client_verification })
    } else {
        match spec_client_cert_source_resolve(
            raw.client_self_signed,
            raw.client_cert_file,
            raw.client_key_file,
        ) {
            None => None,
            Some(client_identity) => Some(
                ClientTlsPolicy::MutualTls { client_verification, client_identity },
            ),
        }
    }
}

/// The wire form of a client policy (`NoTls` writes the same fields as the default `Tls`).
pub open spec fn spec_client_policy_to_raw(p: ClientTlsPolicy) -> RawClientTlsPolicy {
    match p {
        ClientTlsPolicy::NoTls => RawClientTlsPolicy {
            ca_file: None,
            insecure_skip_verify: false,
            client_cert_file: None,
            client_key_file: None,
            client_self_signed: false,
        },
        ClientTlsPolicy::Tls { client_verification } => RawClientTlsPolicy {
            ca_file: spec_client_verification_fields(client_verification).0,
            insecure_skip_verify: spec_client_verification_fields(client_verification).1,
            client_cert_file: None,
            client_key_file: None,
            client_self_signed: false,
        },
        ClientTlsPolicy::MutualTls { client_verification, client_identity } => RawClientTlsPolicy {
            ca_file: spec_client_verification_fields(client_verification).0,
            insecure_skip_verify: spec_client_verification_fields(client_verification).1,
            client_cert_file: spec_client_cert_source_fields(client_identity).1,
            client_key_file: spec_client_cert_source_fields(client_identity).2,
            client_self_signed: spec_client_cert_source_fields(client_identity).0,
        },
    }
}

impl ClientTlsPolicy {
    pub fn to_raw(&self) -> (r: RawClientTlsPolicy)
        ensures
            r == spec_client_policy_to_raw(*self),
    {
        match self {
            ClientTlsPolicy::NoTls => RawClientTlsPolicy {
                ca_file: None,
                insecure_skip_verify: false,
                client_cert_file: None,
                client_key_file: None,
                client_self_signed: false,
            },
            ClientTlsPolicy::Tls { client_verification } => {
                let (ca_file, insecure_skip_verify) = client_verification_fields(
                    client_verification,
                );
                RawClientTlsPolicy {
                    ca_file,
                    insecure_skip_verify,
                    client_cert_file: None,
                    client_key_file: None,
                    client_self_signed: false,
                }
            },
            ClientTlsPolicy::MutualTls { client_verification, client_identity } => {
                let (ca_file, insecure_skip_verify) = client_verification_fields(
                    client_verification,
                );
                let (client_self_signed, client_cert_file, client_key_file) =
                    client_cert_source_fields(client_identity);
                RawClientTlsPolicy {
                    ca_file,
                    insecure_skip_verify,
                    client_cert_file,
                    client_key_file,
                    client_self_signed,
                }
            },
        }
    }

    /// Reads a policy from its wire form: mutual TLS when any identity field is present.
    pub fn from_raw(raw: RawClientTlsPolicy) -> (r: Result<Self, String>)
        ensures
            match r {
                Ok(p) => spec_client_policy_from_raw(raw) == Some(p),
                Err(_) => spec_client_policy_from_raw(raw) is None,
            },
    {
        let ghost raw0 = raw;
        let client_verification = ClientVerification::resolve(
            raw.insecure_skip_verify,
            raw.ca_file,
        );
        let mtls = raw.client_self_signed || raw.client_cert_file.is_some()
            || raw.client_key_file.is_some();
        if !mtls {
            return Ok(ClientTlsPolicy::Tls { client_verification });
        }
        let client_identity = match ClientCertSource::resolve(
            raw.client_self_signed,
            raw.client_cert_file,
            raw.client_key_file,
        ) {
            Ok(s) => s,
            Err(e) => return Err(e),
        };
        Ok(ClientTlsPolicy::MutualTls { client_verification, client_identity })
    }
}

// ---------------------------------------------------------------------------------------------
// Laws
// ---------------------------------------------------------------------------------------------

/// How the TLS settings are read from their flags and files: a self-signed flag wins over any
/// files; otherwise a certificate file and a key file give an explicit source holding each in
/// its own place, and one without the other is refused (a server may also have neither, and
/// then no source is set). A client skips verifying the server exactly when told to, and
/// otherwise verifies against the CA file given (the system roots when none is).
pub proof fn lemma_tls_settings_resolve(
    self_signed: bool,
    cert: Option<String>,
    key: Option<String>,
    skip: bool,
    ca: Option<String>,
)
    ensures
        self_signed ==> spec_server_cert_resolve(self_signed, cert, key) == Some(
            ServerCertSource::SelfSigned,
        ),
        self_signed ==> spec_client_cert_source_resolve(self_signed, cert, key) == Some(
            ClientCertSource::SelfSigned,
        ),
        !self_signed ==> match (cert, key) {
            (Some(c), Some(k)) => {
                &&& spec_server_cert_resolve(self_signed, cert, key) == Some(
                    ServerCertSource::Explicit { cert_file: c, key_file: k },
                )
                &&& spec_client_cert_source_resolve(self_signed, cert, key) == Some(
                    ClientCertSource::Explicit { client_cert_file: c, client_key_file: k },
                )
            },
            (None, None) => {
                &&& spec_server_cert_resolve(self_signed, cert, key) == Some(ServerCertSource::Unset)
                &&& spec_client_cert_source_resolve(self_signed, cert, key) is None
            },
            _ => {
                &&& spec_server_cert_resolve(self_signed, cert, key) is None
                &&& spec_client_cert_source_resolve(self_signed, cert, key) is None
            },
        },
        spec_client_verification_resolve(skip, ca) == (if skip {
            ClientVerification::SkipVerify
        } else {
            ClientVerification::Verify { ca_file: ca }
        }),
{
}

/// A server certificate source read back from its own wire form is the same source.
pub proof fn lemma_server_cert_round_trip(s: ServerCertSource)
    ensures
        spec_server_cert_resolve(
            spec_server_cert_fields(s).0,
            spec_server_cert_fields(s).1,
            spec_server_cert_fields(s).2,
        ) == Some(s),
{
}

/// A client verification read back from its own wire form is the same verification.
pub proof fn lemma_client_verification_round_trip(v: ClientVerification)
    ensures
        spec_client_verification_resolve(
            spec_client_verification_fields(v).1,
            spec_client_verification_fields(v).0,
        ) == v,
{
}

/// A client identity read back from its own wire form is the same identity.
pub proof fn lemma_client_cert_source_round_trip(s: ClientCertSource)
    ensures
        spec_client_cert_source_resolve(
            spec_client_cert_source_fields(s).0,
            spec_client_cert_source_fields(s).1,
            spec_client_cert_source_fields(s).2,
        ) == Some(s),
{
}

/// A client-certificate verification read back from its own wire form is the same, unless it
/// is a `Verify` with no CA at all (which only direct construction can produce).
pub proof fn lemma_client_cert_verification_round_trip(v: Option<Seq<String>>)
    requires
        match v {
            Some(files) => files.len() > 0,
            None => true,
        },
    ensures
        spec_client_cert_verification_resolve(
            v is None,
            spec_ca_files(
                match v {
                    Some(files) => files,
                    None => Seq::<String>::empty(),
                },
                None,
            ),
        ) == Some(v),
{
}

/// A present server policy read back from its own wire form is the same policy (up to the
/// non-empty CA list mutual TLS needs); `NoTls` reads back as `Tls` with an unset source.
pub proof fn lemma_server_policy_round_trip(p: Option<(ServerCertSource, Option<Option<Seq<String>>>)>)
    requires
        match p {
            Some((_, Some(Some(files)))) => files.len() > 0,
            _ => true,
        },
    ensures
        ({
            let (sc, v) = match p {
                None => (ServerCertSource::Unset, None),
                Some((sc, v)) => (sc, v),
            };
            spec_server_policy_from_raw(
                spec_server_cert_fields(sc).1,
                spec_server_cert_fields(sc).2,
                spec_server_cert_fields(sc).0,
                v is Some,
                match v {
                    Some(Some(files)) => files,
                    _ => Seq::<String>::empty(),
                },
                None,
                v == Some(None::<Seq<String>>),
            ) == Some(
                match p {
                    None => (ServerCertSource::Unset, None),
                    Some(x) => x,
                },
            )
        }),
{
    match p {
        None => {},
        Some((sc, v)) => {
            lemma_server_cert_round_trip(sc);
        },
    }
}

/// A present client policy read back from its own wire form is the same policy; `NoTls`
/// reads back as `Tls` with the default verification.
pub proof fn lemma_client_policy_round_trip(p: ClientTlsPolicy)
    ensures
        spec_client_policy_from_raw(spec_client_policy_to_raw(p)) == Some(
            match p {
                ClientTlsPolicy::NoTls => ClientTlsPolicy::Tls {
                    client_verification: ClientVerification::Verify { ca_file: None },
                },
                _ => p,
            },
        ),
{
}

} // verus!
