//! The TLS/mTLS cluster shared by the setup dialogs: which rows show for a role and level,
//! filling the fields from an existing policy, reading them back, and the client-CA list.
use vstd::prelude::*;

use crate::convert::{extension_of, path_extension};
use crate::text::{append, chars_of, is, lower, lower_vec, owned, string_of, trim, trim_chars};
use crate::tls::{
    ClientCertSource, ClientCertVerification, ClientTlsPolicy, ClientVerification,
    ServerCertSource, ServerTlsPolicy,
};

verus! {

/// Which side of a connection an endpoint plays.
#[derive(Debug, Clone, Copy, PartialEq, Eq, Structural)]
pub enum ClientOrServer {
    Client,
    Server,
}

/// TLS/mTLS level, collapsed from either dialog's own richer level type; ordered
/// `Off < Tls < MutualTls`.
#[derive(Debug, Clone, Copy, PartialEq, Eq, Structural)]
pub enum EffectiveTlsLevel {
    Off,
    Tls,
    MutualTls,
}

impl Default for EffectiveTlsLevel {
    fn default() -> (r: Self)
        ensures
            r == EffectiveTlsLevel::Off,
    {
        EffectiveTlsLevel::Off
    }
}

/// The level is `Tls` or above.
pub open spec fn at_least_tls(l: EffectiveTlsLevel) -> bool {
    l != EffectiveTlsLevel::Off
}

/// "Generate an ephemeral self-signed certificate/identity" toggle.
#[derive(Debug, Clone, Copy, PartialEq, Eq, Structural)]
pub enum SelfSignedChoice {
    Off,
    On,
}

impl SelfSignedChoice {
    pub fn to_label(&self) -> (r: String)
        ensures
            r@ == match self {
                SelfSignedChoice::Off => "Off"@,
                SelfSignedChoice::On => "On"@,
            },
    {
        match self {
            SelfSignedChoice::Off => owned("Off"),
            SelfSignedChoice::On => owned("On"),
        }
    }
}

/// A binary skip-verify toggle.
#[derive(Debug, Clone, Copy, PartialEq, Eq, Structural)]
pub enum SkipVerifyChoice {
    Off,
    On,
}

impl SkipVerifyChoice {
    pub fn to_label(&self) -> (r: String)
        ensures
            r@ == match self {
                SkipVerifyChoice::Off => "Off"@,
                SkipVerifyChoice::On => "On"@,
            },
    {
        match self {
            SkipVerifyChoice::Off => owned("Off"),
            SkipVerifyChoice::On => owned("On"),
        }
    }
}

/// Raw TLS field values, read uniformly regardless of role; the owning dialog picks the half
/// its role uses.
#[derive(Debug)]
pub struct TlsSectionInputs {
    pub ca_file: String,
    pub cert_file: String,
    pub key_file: String,
    pub client_cert_file: String,
    pub client_key_file: String,
    pub client_ca_files: Vec<String>,
    pub self_signed: bool,
    pub skip_verify: bool,
    pub client_cert_skip_verify: bool,
}

/// The content of the TLS cluster: its toggles, texts and client-CA list (with the selected
/// entry), and the role and level it currently gates for.
#[derive(Debug)]
pub struct TlsSection {
    pub self_signed: SelfSignedChoice,
    pub cert_file: String,
    pub key_file: String,
    pub client_cert_file: String,
    pub client_key_file: String,
    pub client_cert_skip_verify: SkipVerifyChoice,
    pub skip_verify: SkipVerifyChoice,
    pub ca_file: String,
    pub client_ca_files: Vec<String>,
    pub client_ca_selection: usize,
    pub role: ClientOrServer,
    pub level: EffectiveTlsLevel,
}

impl TlsSection {
    /// The selected client-CA entry is one of the list (or 0 for an empty list).
    pub open spec fn wf(&self) -> bool {
        self.client_ca_files@.len() == 0 || self.client_ca_selection < self.client_ca_files@.len()
    }

    /// Server: self-signed certificate toggle (TLS or above). Client: self-signed identity
    /// toggle (mutual TLS only).
    pub open spec fn spec_show_self_signed(&self) -> bool {
        (self.role == ClientOrServer::Server && at_least_tls(self.level)) || (self.role
            == ClientOrServer::Client && self.level == EffectiveTlsLevel::MutualTls)
    }

    /// Client-only "accept any server certificate" toggle (TLS or above).
    pub open spec fn spec_show_skip_verify(&self) -> bool {
        self.role == ClientOrServer::Client && at_least_tls(self.level)
    }

    /// Server-only "accept any client certificate" toggle (mutual TLS only).
    pub open spec fn spec_show_client_cert_skip_verify(&self) -> bool {
        self.role == ClientOrServer::Server && self.level == EffectiveTlsLevel::MutualTls
    }

    /// Client trust-anchor input (TLS or above, while the server certificate is verified).
    pub open spec fn spec_show_ca_file(&self) -> bool {
        self.role == ClientOrServer::Client && at_least_tls(self.level) && self.skip_verify
            == SkipVerifyChoice::Off
    }

    /// Server certificate/key inputs (TLS or above, unless self-signed).
    pub open spec fn spec_show_server_cert(&self) -> bool {
        self.role == ClientOrServer::Server && at_least_tls(self.level) && self.self_signed
            == SelfSignedChoice::Off
    }

    /// Client identity certificate/key inputs (mutual TLS, unless self-signed).
    pub open spec fn spec_show_client_cert(&self) -> bool {
        self.role == ClientOrServer::Client && self.level == EffectiveTlsLevel::MutualTls
            && self.self_signed == SelfSignedChoice::Off
    }

    /// Server client-CA list (mutual TLS, while client certificates are verified).
    pub open spec fn spec_show_client_ca(&self) -> bool {
        self.role == ClientOrServer::Server && self.level == EffectiveTlsLevel::MutualTls
            && self.client_cert_skip_verify == SkipVerifyChoice::Off
    }

    /// A fresh cluster: every toggle off, every text empty, no client CA, gating a server with
    /// TLS off.
    pub fn new() -> (r: Self)
        ensures
            r.wf(),
            r.self_signed == SelfSignedChoice::Off,
            r.skip_verify == SkipVerifyChoice::Off,
            r.client_cert_skip_verify == SkipVerifyChoice::Off,
            r.cert_file@.len() == 0 && r.key_file@.len() == 0 && r.ca_file@.len() == 0,
            r.client_cert_file@.len() == 0 && r.client_key_file@.len() == 0,
            r.client_ca_files@.len() == 0,
            r.client_ca_selection == 0,
            r.role == ClientOrServer::Server,
            r.level == EffectiveTlsLevel::Off,
    {
        TlsSection {
            self_signed: SelfSignedChoice::Off,
            cert_file: String::new(),
            key_file: String::new(),
            client_cert_file: String::new(),
            client_key_file: String::new(),
            client_cert_skip_verify: SkipVerifyChoice::Off,
            skip_verify: SkipVerifyChoice::Off,
            ca_file: String::new(),
            client_ca_files: Vec::new(),
            client_ca_selection: 0,
            role: ClientOrServer::Server,
            level: EffectiveTlsLevel::Off,
        }
    }

    /// Set the role and level the rows are gated for.
    pub fn sync(&mut self, role: ClientOrServer, level: EffectiveTlsLevel)
        requires
            old(self).wf(),
        ensures
            final(self).wf(),
            final(self).role == role,
            final(self).level == level,
            final(self).self_signed == old(self).self_signed,
            final(self).skip_verify == old(self).skip_verify,
            final(self).client_cert_skip_verify == old(self).client_cert_skip_verify,
            final(self).client_ca_files@ == old(self).client_ca_files@,
            final(self).client_ca_selection == old(self).client_ca_selection,
            final(self).cert_file == old(self).cert_file,
            final(self).key_file == old(self).key_file,
            final(self).ca_file == old(self).ca_file,
            final(self).client_cert_file == old(self).client_cert_file,
            final(self).client_key_file == old(self).client_key_file,
    {
        self.role = role;
        self.level = level;
    }

    fn level_at_least_tls(&self) -> (r: bool)
        ensures
            r == at_least_tls(self.level),
    {
        match self.level {
            EffectiveTlsLevel::Off => false,
            _ => true,
        }
    }

    fn level_is_mutual(&self) -> (r: bool)
        ensures
            r == (self.level == EffectiveTlsLevel::MutualTls),
    {
        match self.level {
            EffectiveTlsLevel::MutualTls => true,
            _ => false,
        }
    }

    fn is_server(&self) -> (r: bool)
        ensures
            r == (self.role == ClientOrServer::Server),
    {
        match self.role {
            ClientOrServer::Server => true,
            ClientOrServer::Client => false,
        }
    }

    /// Whether the self-signed toggle applies.
    pub fn show_self_signed(&self) -> (r: bool)
        ensures
            r == self.spec_show_self_signed(),
    {
        (self.is_server() && self.level_at_least_tls()) || (!self.is_server()
            && self.level_is_mutual())
    }

    /// Whether the client's CA-file input applies.
    pub fn show_ca_file(&self) -> (r: bool)
        ensures
            r == self.spec_show_ca_file(),
    {
        let off = match self.skip_verify {
            SkipVerifyChoice::Off => true,
            SkipVerifyChoice::On => false,
        };
        !self.is_server() && self.level_at_least_tls() && off
    }

    /// Whether the server's certificate/key inputs apply.
    pub fn show_server_cert(&self) -> (r: bool)
        ensures
            r == self.spec_show_server_cert(),
    {
        let off = match self.self_signed {
            SelfSignedChoice::Off => true,
            SelfSignedChoice::On => false,
        };
        self.is_server() && self.level_at_least_tls() && off
    }

    /// Whether the client's identity certificate/key inputs apply.
    pub fn show_client_cert(&self) -> (r: bool)
        ensures
            r == self.spec_show_client_cert(),
    {
        let off = match self.self_signed {
            SelfSignedChoice::Off => true,
            SelfSignedChoice::On => false,
        };
        !self.is_server() && self.level_is_mutual() && off
    }

    /// Whether the server's client-CA list applies.
    pub fn show_client_ca(&self) -> (r: bool)
        ensures
            r == self.spec_show_client_ca(),
    {
        let off = match self.client_cert_skip_verify {
            SkipVerifyChoice::Off => true,
            SkipVerifyChoice::On => false,
        };
        self.is_server() && self.level_is_mutual() && off
    }

    pub fn show_self_signed_row(&self) -> (r: bool)
        ensures
            r == self.spec_show_self_signed(),
    {
        (self.is_server() && self.level_at_least_tls()) || (!self.is_server()
            && self.level_is_mutual())
    }

    /// Row of the skip-verify toggle: the server's client-certificate toggle, or the client's
    /// server-certificate toggle.
    pub fn show_skip_verify_row(&self) -> (r: bool)
        ensures
            r == (self.spec_show_client_cert_skip_verify() || self.spec_show_skip_verify()),
    {
        (self.is_server() && self.level_is_mutual()) || (!self.is_server()
            && self.level_at_least_tls())
    }

    /// Row of the own-identity certificate/key pair: the server's, or the client's.
    pub fn show_identity_row(&self) -> (r: bool)
        ensures
            r == (self.spec_show_server_cert() || self.spec_show_client_cert()),
    {
        let off = match self.self_signed {
            SelfSignedChoice::Off => true,
            SelfSignedChoice::On => false,
        };
        (self.is_server() && self.level_at_least_tls() && off) || (!self.is_server()
            && self.level_is_mutual() && off)
    }

    /// Row of the peer-verification input: the server's client-CA list, or the client's CA
    /// file.
    pub fn show_peer_verify_row(&self) -> (r: bool)
        ensures
            r == (self.spec_show_client_ca() || self.spec_show_ca_file()),
    {
        let ccsv_off = match self.client_cert_skip_verify {
            SkipVerifyChoice::Off => true,
            SkipVerifyChoice::On => false,
        };
        let sv_off = match self.skip_verify {
            SkipVerifyChoice::Off => true,
            SkipVerifyChoice::On => false,
        };
        (self.is_server() && self.level_is_mutual() && ccsv_off) || (!self.is_server()
            && self.level_at_least_tls() && sv_off)
    }
}

/// Each shared row shows at most one of its two halves: the server's and the client's are
/// never both offered.
pub proof fn lemma_rows_show_one_half(s: TlsSection)
    ensures
        !(s.spec_show_client_cert_skip_verify() && s.spec_show_skip_verify()),
        !(s.spec_show_server_cert() && s.spec_show_client_cert()),
        !(s.spec_show_client_ca() && s.spec_show_ca_file()),
{
}

/// With TLS off, no TLS row shows.
pub proof fn lemma_off_shows_nothing(s: TlsSection)
    requires
        s.level == EffectiveTlsLevel::Off,
    ensures
        !s.spec_show_self_signed(),
        !s.spec_show_skip_verify(),
        !s.spec_show_client_cert_skip_verify(),
        !s.spec_show_ca_file(),
        !s.spec_show_server_cert(),
        !s.spec_show_client_cert(),
        !s.spec_show_client_ca(),
{
}

/// A copy of a list of strings.
fn copy_strings(v: &Vec<String>) -> (r: Vec<String>)
    ensures
        r@ == v@,
{
    let mut out: Vec<String> = Vec::new();
    let mut i: usize = 0;
    while i < v.len()
        invariant
            i <= v@.len(),
            out@ == v@.take(i as int),
        decreases v.len() - i,
    {
        out.push(v[i].clone());
        assert(out@ =~= v@.take(i + 1));
        i += 1;
    }
    assert(v@.take(i as int) =~= v@);
    out
}

/// The server half of the fields `prefill` sets from a server policy: self-signed toggle,
/// certificate and key files, client-CA list, and the client-certificate skip toggle.
pub open spec fn spec_server_fields(p: ServerTlsPolicy) -> (
    SelfSignedChoice,
    Seq<char>,
    Seq<char>,
    Seq<String>,
    SkipVerifyChoice,
) {
    let (cert, verification) = match p {
        ServerTlsPolicy::MutualTls { server_cert, client_verification } => (
            server_cert,
            Some(client_verification),
        ),
        ServerTlsPolicy::Tls { server_cert } => (server_cert, Option::None),
        ServerTlsPolicy::NoTls => (ServerCertSource::Unset, Option::None),
    };
    let self_signed = if cert is SelfSigned {
        SelfSignedChoice::On
    } else {
        SelfSignedChoice::Off
    };
    let (c, k) = match cert {
        ServerCertSource::Explicit { cert_file, key_file } => (cert_file@, key_file@),
        _ => (Seq::<char>::empty(), Seq::<char>::empty()),
    };
    let (cas, skip) = match verification {
        Some(ClientCertVerification::Verify { ca_files }) => (ca_files@, SkipVerifyChoice::Off),
        Some(ClientCertVerification::SkipVerify) => (Seq::<String>::empty(), SkipVerifyChoice::On),
        Option::None => (Seq::<String>::empty(), SkipVerifyChoice::Off),
    };
    (self_signed, c, k, cas, skip)
}

/// The client half of the fields `prefill` sets from a client policy: skip toggle, CA file,
/// self-signed identity toggle, identity certificate and key files.
pub open spec fn spec_client_fields(p: ClientTlsPolicy) -> (
    SkipVerifyChoice,
    Seq<char>,
    SelfSignedChoice,
    Seq<char>,
    Seq<char>,
) {
    let (verification, identity) = match p {
        ClientTlsPolicy::MutualTls { client_verification, client_identity } => (
            client_verification,
            Some(client_identity),
        ),
        ClientTlsPolicy::Tls { client_verification } => (client_verification, Option::None),
        ClientTlsPolicy::NoTls => (ClientVerification::Verify { ca_file: Option::None }, Option::None),
    };
    let skip = if verification is SkipVerify {
        SkipVerifyChoice::On
    } else {
        SkipVerifyChoice::Off
    };
    let ca = match verification {
        ClientVerification::Verify { ca_file: Some(c) } => c@,
        _ => Seq::<char>::empty(),
    };
    let self_signed = if identity matches Some(ClientCertSource::SelfSigned) {
        SelfSignedChoice::On
    } else {
        SelfSignedChoice::Off
    };
    let (c, k) = match identity {
        Some(ClientCertSource::Explicit { client_cert_file, client_key_file }) => (
            client_cert_file@,
            client_key_file@,
        ),
        _ => (Seq::<char>::empty(), Seq::<char>::empty()),
    };
    (skip, ca, self_signed, c, k)
}

impl TlsSection {
    /// Fill the fields of `role`'s half from an existing policy (edit mode); without a policy
    /// for that role nothing changes.
    pub fn prefill(
        &mut self,
        role: ClientOrServer,
        server: Option<&ServerTlsPolicy>,
        client: Option<&ClientTlsPolicy>,
    )
        requires
            old(self).wf(),
        ensures
            final(self).wf(),
            final(self).role == old(self).role,
            final(self).level == old(self).level,
            match (role, server, client) {
                (ClientOrServer::Server, Some(p), _) => {
                    let (ss, c, k, cas, skip) = spec_server_fields(*p);
                    &&& final(self).self_signed == ss
                    &&& final(self).cert_file@ == c
                    &&& final(self).key_file@ == k
                    &&& final(self).client_ca_files@ == cas
                    &&& final(self).client_ca_selection == 0
                    &&& final(self).client_cert_skip_verify == skip
                    &&& final(self).skip_verify == old(self).skip_verify
                    &&& final(self).ca_file == old(self).ca_file
                    &&& final(self).client_cert_file == old(self).client_cert_file
                    &&& final(self).client_key_file == old(self).client_key_file
                },
                (ClientOrServer::Client, _, Some(p)) => {
                    let (skip, ca, ss, c, k) = spec_client_fields(*p);
                    &&& final(self).skip_verify == skip
                    &&& final(self).ca_file@ == ca
                    &&& final(self).self_signed == ss
                    &&& final(self).client_cert_file@ == c
                    &&& final(self).client_key_file@ == k
                    &&& final(self).cert_file == old(self).cert_file
                    &&& final(self).key_file == old(self).key_file
                    &&& final(self).client_ca_files@ == old(self).client_ca_files@
                    &&& final(self).client_ca_selection == old(self).client_ca_selection
                    &&& final(self).client_cert_skip_verify == old(self).client_cert_skip_verify
                },
                _ => final(self).self_signed == old(self).self_signed && final(self).cert_file
                    == old(self).cert_file && final(self).key_file == old(self).key_file && final(self).client_cert_file == old(self).client_cert_file && final(self).client_key_file
                    == old(self).client_key_file && final(self).ca_file == old(self).ca_file
                    && final(self).client_ca_files@ == old(self).client_ca_files@ && final(self).client_ca_selection == old(self).client_ca_selection && final(self).skip_verify == old(self).skip_verify && final(self).client_cert_skip_verify
                    == old(self).client_cert_skip_verify,
            },
    {
        match role {
            ClientOrServer::Server => {
                let tls = match server {
                    Some(t) => t,
                    Option::None => return ,
                };
                let (cert, verification) = match tls {
                    ServerTlsPolicy::MutualTls { server_cert, client_verification } => (
                        server_cert,
                        Some(client_verification),
                    ),
                    ServerTlsPolicy::Tls { server_cert } => (server_cert, Option::None),
                    ServerTlsPolicy::NoTls => (&ServerCertSource::Unset, Option::None),
                };
                self.self_signed = match cert {
                    ServerCertSource::SelfSigned => SelfSignedChoice::On,
                    _ => SelfSignedChoice::Off,
                };
                match cert {
                    ServerCertSource::Explicit { cert_file, key_file } => {
                        self.cert_file = cert_file.clone();
                        self.key_file = key_file.clone();
                    },
                    _ => {
                        self.cert_file = String::new();
                        self.key_file = String::new();
                    },
                }
                match verification {
                    Some(ClientCertVerification::Verify { ca_files }) => {
                        self.client_ca_files = copy_strings(ca_files);
                        self.client_cert_skip_verify = SkipVerifyChoice::Off;
                    },
                    Some(ClientCertVerification::SkipVerify) => {
                        self.client_ca_files = Vec::new();
                        self.client_cert_skip_verify = SkipVerifyChoice::On;
                    },
                    Option::None => {
                        self.client_ca_files = Vec::new();
                        self.client_cert_skip_verify = SkipVerifyChoice::Off;
                    },
                }
                self.client_ca_selection = 0;
            },
            ClientOrServer::Client => {
                let tls = match client {
                    Some(t) => t,
                    Option::None => return ,
                };
                match tls {
                    ClientTlsPolicy::MutualTls { client_verification, client_identity } => {
                        self.set_client_verification(client_verification);
                        self.self_signed = match client_identity {
                            ClientCertSource::SelfSigned => SelfSignedChoice::On,
                            _ => SelfSignedChoice::Off,
                        };
                        match client_identity {
                            ClientCertSource::Explicit { client_cert_file, client_key_file } => {
                                self.client_cert_file = client_cert_file.clone();
                                self.client_key_file = client_key_file.clone();
                            },
                            ClientCertSource::SelfSigned => {
                                self.client_cert_file = String::new();
                                self.client_key_file = String::new();
                            },
                        }
                    },
                    ClientTlsPolicy::Tls { client_verification } => {
                        self.set_client_verification(client_verification);
                        self.self_signed = SelfSignedChoice::Off;
                        self.client_cert_file = String::new();
                        self.client_key_file = String::new();
                    },
                    ClientTlsPolicy::NoTls => {
                        self.skip_verify = SkipVerifyChoice::Off;
                        self.ca_file = String::new();
                        self.self_signed = SelfSignedChoice::Off;
                        self.client_cert_file = String::new();
                        self.client_key_file = String::new();
                    },
                }
            },
        }
    }

    fn set_client_verification(&mut self, v: &ClientVerification)
        requires
            old(self).wf(),
        ensures
            final(self).wf(),
            final(self).skip_verify == (if *v is SkipVerify {
                SkipVerifyChoice::On
            } else {
                SkipVerifyChoice::Off
            }),
            final(self).ca_file@ == match *v {
                ClientVerification::Verify { ca_file: Some(c) } => c@,
                _ => Seq::<char>::empty(),
            },
            final(self).self_signed == old(self).self_signed,
            final(self).cert_file == old(self).cert_file,
            final(self).key_file == old(self).key_file,
            final(self).client_cert_file == old(self).client_cert_file,
            final(self).client_key_file == old(self).client_key_file,
            final(self).client_ca_files@ == old(self).client_ca_files@,
            final(self).client_ca_selection == old(self).client_ca_selection,
            final(self).client_cert_skip_verify == old(self).client_cert_skip_verify,
            final(self).role == old(self).role,
            final(self).level == old(self).level,
    {
        match v {
            ClientVerification::SkipVerify => {
                self.skip_verify = SkipVerifyChoice::On;
                self.ca_file = String::new();
            },
            ClientVerification::Verify { ca_file } => {
                self.skip_verify = SkipVerifyChoice::Off;
                self.ca_file = match ca_file {
                    Some(c) => c.clone(),
                    Option::None => String::new(),
                };
            },
        }
    }

    /// Every field's raw text or toggle state, regardless of role.
    pub fn extract(&self) -> (r: TlsSectionInputs)
        ensures
            r.ca_file@ == self.ca_file@,
            r.cert_file@ == self.cert_file@,
            r.key_file@ == self.key_file@,
            r.client_cert_file@ == self.client_cert_file@,
            r.client_key_file@ == self.client_key_file@,
            r.client_ca_files@ == self.client_ca_files@,
            r.self_signed == (self.self_signed == SelfSignedChoice::On),
            r.skip_verify == (self.skip_verify == SkipVerifyChoice::On),
            r.client_cert_skip_verify == (self.client_cert_skip_verify == SkipVerifyChoice::On),
    {
        TlsSectionInputs {
            ca_file: self.ca_file.clone(),
            cert_file: self.cert_file.clone(),
            key_file: self.key_file.clone(),
            client_cert_file: self.client_cert_file.clone(),
            client_key_file: self.client_key_file.clone(),
            client_ca_files: copy_strings(&self.client_ca_files),
            self_signed: match self.self_signed {
                SelfSignedChoice::On => true,
                SelfSignedChoice::Off => false,
            },
            skip_verify: match self.skip_verify {
                SkipVerifyChoice::On => true,
                SkipVerifyChoice::Off => false,
            },
            client_cert_skip_verify: match self.client_cert_skip_verify {
                SkipVerifyChoice::On => true,
                SkipVerifyChoice::Off => false,
            },
        }
    }

    /// Remove the selected client-CA entry, if any, keeping the selection on the entry that
    /// took its place (or the new last one). Returns whether the list became empty (the
    /// delete button then goes away and focus moves back to the add button).
    pub fn delete_selected_client_ca(&mut self) -> (emptied: bool)
        requires
            old(self).wf(),
        ensures
            final(self).wf(),
            old(self).client_ca_files@.len() == 0 ==> final(self).client_ca_files@ == old(self).client_ca_files@ && final(self).client_ca_selection == old(self).client_ca_selection
                && !emptied,
            old(self).client_ca_files@.len() > 0 ==> {
                let i = old(self).client_ca_selection as int;
                let n = old(self).client_ca_files@.len() - 1;
                &&& final(self).client_ca_files@ == old(self).client_ca_files@.remove(i)
                &&& final(self).client_ca_selection == (if n == 0 {
                    0
                } else if i < n {
                    i
                } else {
                    n - 1
                })
                &&& emptied == (n == 0)
            },
            final(self).role == old(self).role,
            final(self).level == old(self).level,
    {
        if self.client_ca_files.len() == 0 {
            return false;
        }
        let idx = self.client_ca_selection;
        self.client_ca_files.remove(idx);
        let new_len = self.client_ca_files.len();
        self.client_ca_selection = if new_len == 0 {
            0
        } else if idx < new_len - 1 {
            idx
        } else {
            new_len - 1
        };
        new_len == 0
    }
}

/// Filling the server half from a policy and reading the fields back gives the policy's
/// certificate source (self-signed, or its two files), its client-CA list and whether client
/// certificates go unverified.
pub proof fn lemma_server_prefill_reads_back(p: ServerTlsPolicy)
    ensures
        ({
            let (ss, c, k, cas, skip) = spec_server_fields(p);
            &&& (ss == SelfSignedChoice::On) == (p matches ServerTlsPolicy::Tls {
                server_cert: ServerCertSource::SelfSigned,
            } || p matches ServerTlsPolicy::MutualTls {
                server_cert: ServerCertSource::SelfSigned,
                ..
            })
            &&& (p matches ServerTlsPolicy::MutualTls {
                server_cert: ServerCertSource::Explicit { cert_file, key_file },
                ..
            } ==> c == cert_file@ && k == key_file@)
            &&& (p matches ServerTlsPolicy::Tls {
                server_cert: ServerCertSource::Explicit { cert_file, key_file },
            } ==> c == cert_file@ && k == key_file@)
            &&& (!(p matches ServerTlsPolicy::Tls { server_cert: ServerCertSource::Explicit { .. } })
                && !(p matches ServerTlsPolicy::MutualTls {
                server_cert: ServerCertSource::Explicit { .. },
                ..
            }) ==> c.len() == 0 && k.len() == 0)
            &&& (!(p matches ServerTlsPolicy::MutualTls {
                client_verification: ClientCertVerification::Verify { .. },
                ..
            }) ==> cas.len() == 0)
            &&& (p matches ServerTlsPolicy::MutualTls {
                client_verification: ClientCertVerification::Verify { ca_files },
                ..
            } ==> cas == ca_files@ && skip == SkipVerifyChoice::Off)
            &&& (p matches ServerTlsPolicy::MutualTls {
                client_verification: ClientCertVerification::SkipVerify,
                ..
            } ==> skip == SkipVerifyChoice::On)
        }),
{
}

/// Filling the client half from a policy and reading the fields back gives the policy's
/// identity files, each in its own field (the certificate file in the certificate field, the
/// key file in the key field), whether that identity is self-signed, whether the server goes
/// unverified, and the CA file it is verified against. Without an explicit identity both
/// identity fields are left empty.
pub proof fn lemma_client_prefill_reads_back(p: ClientTlsPolicy)
    ensures
        ({
            let (skip, ca, ss, c, k) = spec_client_fields(p);
            &&& (p matches ClientTlsPolicy::MutualTls {
                client_identity: ClientCertSource::Explicit { client_cert_file, client_key_file },
                ..
            } ==> c == client_cert_file@ && k == client_key_file@)
            &&& (!(p matches ClientTlsPolicy::MutualTls {
                client_identity: ClientCertSource::Explicit { .. },
                ..
            }) ==> c.len() == 0 && k.len() == 0)
            &&& (ss == SelfSignedChoice::On) == (p matches ClientTlsPolicy::MutualTls {
                client_identity: ClientCertSource::SelfSigned,
                ..
            })
            &&& (skip == SkipVerifyChoice::On) == ((p matches ClientTlsPolicy::Tls {
                client_verification: ClientVerification::SkipVerify,
            }) || (p matches ClientTlsPolicy::MutualTls {
                client_verification: ClientVerification::SkipVerify,
                ..
            }))
            &&& (p matches ClientTlsPolicy::Tls {
                client_verification: ClientVerification::Verify { ca_file: Some(f) },
            } ==> ca == f@)
            &&& (p matches ClientTlsPolicy::MutualTls {
                client_verification: ClientVerification::Verify { ca_file: Some(f) },
                ..
            } ==> ca == f@)
        }),
{
}

// ---------------------------------------------------------------------------------------------
// Adding a client-CA file.
// ---------------------------------------------------------------------------------------------

/// A client-CA file's extension is `pem`, `crt` or `key`, in any ASCII case.
pub open spec fn ca_extension_ok(ext: Option<Seq<char>>) -> bool {
    match ext {
        Some(e) => lower(e) == "pem"@ || lower(e) == "crt"@ || lower(e) == "key"@,
        None => false,
    }
}

/// The error text of a rejected client-CA path `p`, by reason.
pub open spec fn ca_path_error(input: Seq<char>, exists: bool, is_dir: bool) -> Option<Seq<char>> {
    let p = trim(input);
    if input.len() == 0 {
        Some("Path: Non-empty input required"@)
    } else if !exists {
        Some("Path: file not found: "@ + p)
    } else if is_dir {
        Some("Path: is a directory, not a file: "@ + p)
    } else if !ca_extension_ok(path_extension(p)) {
        Some("Path: unsupported extension (expected one of pem, crt, key): "@ + p)
    } else {
        None
    }
}

fn ca_extension_check(path: &str) -> (r: bool)
    ensures
        r == ca_extension_ok(path_extension(path@)),
{
    match extension_of(path) {
        Some(e) => {
            let l = lower_vec(&chars_of(e.as_str()));
            is(&l, "pem") || is(&l, "crt") || is(&l, "key")
        },
        None => false,
    }
}

/// Validate a path typed into the add-client-CA dialog, giving the trimmed path to add or why
/// it cannot be added: it must be non-empty, name an existing file that is not a directory, and
/// carry a CA extension. `exists` and `is_dir` report what the filesystem holds at the trimmed
/// path.
pub fn check_ca_file(input: &str, exists: bool, is_dir: bool) -> (r: Result<String, String>)
    ensures
        match ca_path_error(input@, exists, is_dir) {
            Some(e) => r matches Err(m) && m@ == e,
            None => r matches Ok(p) && p@ == trim(input@),
        },
{
    let v = chars_of(input);
    if v.len() == 0 {
        return Err(owned("Path: Non-empty input required"));
    }
    let t = trim_chars(&v);
    let p = string_of(&t);
    let reason = if !exists {
        "Path: file not found: "
    } else if is_dir {
        "Path: is a directory, not a file: "
    } else if !ca_extension_check(p.as_str()) {
        "Path: unsupported extension (expected one of pem, crt, key): "
    } else {
        return Ok(p);
    };
    let mut m = chars_of(reason);
    append(&mut m, &t);
    Err(string_of(&m))
}

} // verus!
