//! The `--upstream` / `--downstream` descriptors of bridge mode: the same `key=value,...`
//! language as `--module`, except that a comma-separated part without `=` continues the value
//! of the previous key (so `unit_ids=1,3,5-8` keeps its commas), resolved into a TCP-family
//! or serial endpoint with its optional TLS block.
use vstd::prelude::*;

use crate::cli::{
    get, invalid_field, labelled, lookup, pair_seqs, parse_opt_u32, parse_opt_u8, spec_parse_opt, strs,
};
use crate::num::{parse_u16, parse_unsigned, parse_usize};
use crate::text::{
    append, chars_of, concat3, is, is_char, seqs, split_char, split_char_vec, split_once_by,
    split_once_char, string_of, trim, trim_chars,
};
use crate::tls::{
    spec_client_cert_verification_resolve, spec_client_verification_resolve,
    spec_server_cert_resolve, ClientCertSource, ClientCertVerification, ClientTlsPolicy,
    ClientVerification, ServerCertSource, ServerTlsPolicy,
};

verus! {

// ---------------------------------------------------------------------------------------------
// The pairs of a bridge descriptor.
// ---------------------------------------------------------------------------------------------

/// The `(key, value)` pairs of a bridge descriptor whose comma-separated parts are `parts`:
/// blank parts are skipped, a part without `=` extends the value of the previous pair by a
/// comma and itself, and such a part with no previous pair is an error.
pub open spec fn spec_bridge_pairs_of(parts: Seq<Seq<char>>) -> Result<
    Seq<(Seq<char>, Seq<char>)>,
    Seq<char>,
>
    decreases parts.len(),
{
    if parts.len() == 0 {
        Ok(Seq::<(Seq<char>, Seq<char>)>::empty())
    } else {
        match spec_bridge_pairs_of(parts.drop_last()) {
            Err(e) => Err(e),
            Ok(acc) => {
                let t = trim(parts.last());
                if t.len() == 0 {
                    Ok(acc)
                } else {
                    match split_once_by(t, is_char('=')) {
                        Some((k, v)) => Ok(acc.push((trim(k), trim(v)))),
                        None => if acc.len() == 0 {
                            Err("expected key=value, got '"@ + t + "'"@)
                        } else {
                            Ok(acc.drop_last().push((acc.last().0, acc.last().1 + ","@ + t)))
                        },
                    }
                }
            },
        }
    }
}

/// The pairs of bridge descriptor `s`.
pub open spec fn spec_bridge_pairs(s: Seq<char>) -> Result<Seq<(Seq<char>, Seq<char>)>, Seq<char>> {
    spec_bridge_pairs_of(split_char(s, ','))
}

/// Once the pairs of a prefix of the parts are an error, so are those of all of them.
pub proof fn lemma_bridge_pairs_error_persists(parts: Seq<Seq<char>>, k: int)
    requires
        0 <= k <= parts.len(),
        spec_bridge_pairs_of(parts.take(k)) is Err,
    ensures
        spec_bridge_pairs_of(parts.take(parts.len() as int)) == spec_bridge_pairs_of(
            parts.take(k),
        ),
    decreases parts.len() - k,
{
    if k < parts.len() {
        assert(parts.take(k + 1).drop_last() =~= parts.take(k));
        lemma_bridge_pairs_error_persists(parts, k + 1);
    }
}

/// A bridge descriptor's pairs, in order.
pub fn bridge_pairs(input: &str) -> (r: Result<Vec<(Vec<char>, Vec<char>)>, String>)
    ensures
        match r {
            Ok(m) => spec_bridge_pairs(input@) == Ok::<_, Seq<char>>(pair_seqs(m@)),
            Err(e) => spec_bridge_pairs(input@) == Err::<Seq<(Seq<char>, Seq<char>)>, _>(e@),
        },
{
    let v = chars_of(input);
    let parts = split_char_vec(&v, ',');
    let mut m: Vec<(Vec<char>, Vec<char>)> = Vec::new();
    let mut i: usize = 0;
    assert(seqs(parts@).take(0) =~= Seq::<Seq<char>>::empty());
    assert(pair_seqs(m@) =~= Seq::<(Seq<char>, Seq<char>)>::empty());
    while i < parts.len()
        invariant
            i <= parts@.len(),
            v@ == input@,
            seqs(parts@) == split_char(v@, ','),
            spec_bridge_pairs_of(seqs(parts@).take(i as int)) == Ok::<_, Seq<char>>(
                pair_seqs(m@),
            ),
        decreases parts.len() - i,
    {
        let ghost pre = seqs(parts@).take(i as int);
        let ghost nxt = seqs(parts@).take(i + 1);
        assert(nxt.drop_last() =~= pre);
        assert(nxt.last() == parts@[i as int]@);
        let t = trim_chars(&parts[i]);
        if t.len() > 0 {
            match split_once_char(&t, '=') {
                Some((k, val)) => {
                    let ghost m0 = pair_seqs(m@);
                    let kt = trim_chars(&k);
                    let vt = trim_chars(&val);
                    let ghost kv = (kt@, vt@);
                    m.push((kt, vt));
                    assert(pair_seqs(m@) =~= m0.push(kv));
                },
                None => {
                    let ghost m0 = pair_seqs(m@);
                    match m.pop() {
                        None => {
                            let msg = concat3("expected key=value, got '", &t, "'");
                            proof {
                                assert(spec_bridge_pairs_of(nxt) == Err::<
                                    Seq<(Seq<char>, Seq<char>)>,
                                    _,
                                >(msg@));
                                lemma_bridge_pairs_error_persists(seqs(parts@), i as int + 1);
                                assert(seqs(parts@).take(parts@.len() as int) =~= seqs(parts@));
                            }
                            return Err(msg);
                        },
                        Some((k, val)) => {
                            let mut val = val;
                            let ghost before = val@;
                            val.push(',');
                            append(&mut val, &t);
                            proof {
                                assert(val@ =~= before + ","@ + t@) by {
                                    reveal_strlit(",");
                                }
                                assert(pair_seqs(m@) =~= m0.drop_last());
                            }
                            let ghost kv = (k@, val@);
                            m.push((k, val));
                            assert(pair_seqs(m@) =~= m0.drop_last().push(kv));
                        },
                    }
                },
            }
        }
        i += 1;
    }
    assert(seqs(parts@).take(i as int) =~= seqs(parts@));
    Ok(m)
}

/// The value of the last pair with key `key`, as a string.
fn get_string(m: &Vec<(Vec<char>, Vec<char>)>, key: &str) -> (r: Option<String>)
    ensures
        match r {
            Some(s) => lookup(pair_seqs(m@), key@) == Some(s@),
            None => lookup(pair_seqs(m@), key@) is None,
        },
{
    match get(m, key) {
        Some(v) => Some(string_of(&v)),
        None => None,
    }
}

// ---------------------------------------------------------------------------------------------
// The TLS block of a TCP-family descriptor.
// ---------------------------------------------------------------------------------------------

/// The model of a server certificate source.
pub ghost enum CertView {
    SelfSigned,
    Explicit { cert_file: Seq<char>, key_file: Seq<char> },
    Unset,
}

pub open spec fn cert_view(s: ServerCertSource) -> CertView {
    match s {
        ServerCertSource::SelfSigned => CertView::SelfSigned,
        ServerCertSource::Explicit { cert_file, key_file } => CertView::Explicit {
            cert_file: cert_file@,
            key_file: key_file@,
        },
        ServerCertSource::Unset => CertView::Unset,
    }
}

/// The model of a server TLS policy; under mutual TLS, `ca_files` is `None` when client
/// certificates are not verified.
pub ghost enum ServerTlsView {
    NoTls,
    Tls { server_cert: CertView },
    MutualTls { server_cert: CertView, ca_files: Option<Seq<Seq<char>>> },
}

pub open spec fn server_tls_view(p: ServerTlsPolicy) -> ServerTlsView {
    match p {
        ServerTlsPolicy::NoTls => ServerTlsView::NoTls,
        ServerTlsPolicy::Tls { server_cert } => ServerTlsView::Tls {
            server_cert: cert_view(server_cert),
        },
        ServerTlsPolicy::MutualTls { server_cert, client_verification } => ServerTlsView::MutualTls {
            server_cert: cert_view(server_cert),
            ca_files: match client_verification {
                ClientCertVerification::Verify { ca_files } => Some(strs(ca_files@)),
                ClientCertVerification::SkipVerify => None,
            },
        },
    }
}

/// The model of how a client verifies its server.
pub ghost enum VerifyView {
    SkipVerify,
    Verify { ca_file: Option<Seq<char>> },
}

pub open spec fn verify_view(v: ClientVerification) -> VerifyView {
    match v {
        ClientVerification::SkipVerify => VerifyView::SkipVerify,
        ClientVerification::Verify { ca_file } => VerifyView::Verify {
            ca_file: match ca_file {
                Some(c) => Some(c@),
                None => None,
            },
        },
    }
}

/// The model of a client TLS policy; under mutual TLS, `identity` is the certificate and key
/// files, or `None` for a self-signed identity.
pub ghost enum ClientTlsView {
    NoTls,
    Tls { verify: VerifyView },
    MutualTls { verify: VerifyView, identity: Option<(Seq<char>, Seq<char>)> },
}

pub open spec fn client_tls_view(p: ClientTlsPolicy) -> ClientTlsView {
    match p {
        ClientTlsPolicy::NoTls => ClientTlsView::NoTls,
        ClientTlsPolicy::Tls { client_verification } => ClientTlsView::Tls {
            verify: verify_view(client_verification),
        },
        ClientTlsPolicy::MutualTls { client_verification, client_identity } =>
            ClientTlsView::MutualTls {
            verify: verify_view(client_verification),
            identity: match client_identity {
                ClientCertSource::SelfSigned => None,
                ClientCertSource::Explicit { client_cert_file, client_key_file } => Some(
                    (client_cert_file@, client_key_file@),
                ),
            },
        },
    }
}

/// The TLS block of a TCP-family bridge endpoint: both halves are always present; the role
/// the endpoint plays decides which one is consulted.
#[derive(Debug)]
pub struct DescriptorTls {
    pub server: ServerTlsPolicy,
    pub client: ClientTlsPolicy,
}

impl View for DescriptorTls {
    type V = (ServerTlsView, ClientTlsView);

    open spec fn view(&self) -> (ServerTlsView, ClientTlsView) {
        (server_tls_view(self.server), client_tls_view(self.client))
    }
}

pub open spec fn opt_tls_view(t: Option<DescriptorTls>) -> Option<(ServerTlsView, ClientTlsView)> {
    match t {
        Some(t) => Some(t@),
        None => None,
    }
}

/// A `true|false` key of the descriptor: absent is `false`.
pub open spec fn spec_flag(m: Seq<(Seq<char>, Seq<char>)>, k: Seq<char>) -> Result<bool, Seq<char>> {
    match lookup(m, k) {
        None => Ok(false),
        Some(v) => if v == "true"@ {
            Ok(true)
        } else if v == "false"@ {
            Ok(false)
        } else {
            Err("invalid '"@ + k + "' value '"@ + v + "' (expected true|false)"@)
        },
    }
}

/// Any of the nine TLS keys occurs in the descriptor.
pub open spec fn tls_keys_present(m: Seq<(Seq<char>, Seq<char>)>) -> bool {
    ||| lookup(m, "ca_file"@) is Some
    ||| lookup(m, "cert_file"@) is Some
    ||| lookup(m, "key_file"@) is Some
    ||| lookup(m, "client_cert_file"@) is Some
    ||| lookup(m, "client_key_file"@) is Some
    ||| lookup(m, "client_ca_file"@) is Some
    ||| lookup(m, "require_client_cert"@) is Some
    ||| lookup(m, "self_signed"@) is Some
    ||| lookup(m, "insecure_skip_verify"@) is Some
}

/// The server certificate the descriptor names: self-signed wins; otherwise both files or
/// neither.
pub open spec fn spec_descriptor_cert(self_signed: bool, cert: Option<Seq<char>>, key: Option<
    Seq<char>,
>) -> Option<CertView> {
    if self_signed {
        Some(CertView::SelfSigned)
    } else {
        match (cert, key) {
            (Some(c), Some(k)) => Some(CertView::Explicit { cert_file: c, key_file: k }),
            (None, None) => Some(CertView::Unset),
            _ => None,
        }
    }
}

/// The TLS block of a descriptor with pairs `m`: none unless one of the TLS keys is present;
/// otherwise both halves, or the first error.
pub open spec fn spec_descriptor_tls(m: Seq<(Seq<char>, Seq<char>)>) -> Result<
    Option<(ServerTlsView, ClientTlsView)>,
    Seq<char>,
> {
    if !tls_keys_present(m) {
        Ok(None)
    } else {
        match spec_flag(m, "self_signed"@) {
            Err(e) => Err(e),
            Ok(self_signed) => match spec_descriptor_cert(
                self_signed,
                lookup(m, "cert_file"@),
                lookup(m, "key_file"@),
            ) {
                None => Err("cert_file and key_file must both be set, or neither"@),
                Some(cert) => match spec_flag(m, "require_client_cert"@) {
                    Err(e) => Err(e),
                    Ok(mutual) => {
                        let server = if mutual {
                            match lookup(m, "client_ca_file"@) {
                                None => Err(
                                    "ca_files must be non-empty when client_cert_skip_verify is unset"@,
                                ),
                                Some(ca) => Ok(
                                    ServerTlsView::MutualTls { server_cert: cert, ca_files: Some(seq![ca]) },
                                ),
                            }
                        } else {
                            Ok(ServerTlsView::Tls { server_cert: cert })
                        };
                        match server {
                            Err(e) => Err(e),
                            Ok(server) => match spec_flag(m, "insecure_skip_verify"@) {
                                Err(e) => Err(e),
                                Ok(skip) => {
                                    let verify = if skip {
                                        VerifyView::SkipVerify
                                    } else {
                                        VerifyView::Verify { ca_file: lookup(m, "ca_file"@) }
                                    };
                                    let client = match (
                                        lookup(m, "client_cert_file"@),
                                        lookup(m, "client_key_file"@),
                                    ) {
                                        (Some(c), Some(k)) => ClientTlsView::MutualTls {
                                            verify,
                                            identity: Some((c, k)),
                                        },
                                        _ => ClientTlsView::Tls { verify },
                                    };
                                    Ok(Some((server, client)))
                                },
                            },
                        }
                    },
                },
            },
        }
    }
}

/// The value of a `true|false` key.
fn flag(m: &Vec<(Vec<char>, Vec<char>)>, key: &str) -> (r: Result<bool, String>)
    ensures
        match r {
            Ok(b) => spec_flag(pair_seqs(m@), key@) == Ok::<_, Seq<char>>(b),
            Err(e) => spec_flag(pair_seqs(m@), key@) == Err::<bool, _>(e@),
        },
{
    match get(m, key) {
        None => Ok(false),
        Some(v) => {
            if is(&v, "true") {
                Ok(true)
            } else if is(&v, "false") {
                Ok(false)
            } else {
                let mut msg = chars_of("invalid '");
                append(&mut msg, &chars_of(key));
                append(&mut msg, &chars_of("' value '"));
                append(&mut msg, &v);
                append(&mut msg, &chars_of("' (expected true|false)"));
                Err(string_of(&msg))
            }
        },
    }
}

/// The TLS block of a TCP-family descriptor, when one of its keys is present.
pub fn build_descriptor_tls(m: &Vec<(Vec<char>, Vec<char>)>) -> (r: Result<
    Option<DescriptorTls>,
    String,
>)
    ensures
        match r {
            Ok(t) => spec_descriptor_tls(pair_seqs(m@)) == Ok::<_, Seq<char>>(opt_tls_view(t)),
            Err(e) => spec_descriptor_tls(pair_seqs(m@)) == Err::<
                Option<(ServerTlsView, ClientTlsView)>,
                _,
            >(e@),
        },
{
    let any_present = get(m, "ca_file").is_some() || get(m, "cert_file").is_some() || get(
        m,
        "key_file",
    ).is_some() || get(m, "client_cert_file").is_some() || get(m, "client_key_file").is_some()
        || get(m, "client_ca_file").is_some() || get(m, "require_client_cert").is_some() || get(
        m,
        "self_signed",
    ).is_some() || get(m, "insecure_skip_verify").is_some();
    if !any_present {
        return Ok(None);
    }
    let self_signed = match flag(m, "self_signed") {
        Ok(b) => b,
        Err(e) => return Err(e),
    };
    let server_cert = match ServerCertSource::resolve(
        self_signed,
        get_string(m, "cert_file"),
        get_string(m, "key_file"),
    ) {
        Ok(c) => c,
        Err(e) => return Err(e),
    };
    let mutual = match flag(m, "require_client_cert") {
        Ok(b) => b,
        Err(e) => return Err(e),
    };
    let server = if mutual {
        let mut ca_files: Vec<String> = Vec::new();
        match get_string(m, "client_ca_file") {
            Some(ca) => ca_files.push(ca),
            None => {},
        }
        let ghost cas = ca_files@;
        match ClientCertVerification::resolve(false, ca_files) {
            Ok(v) => {
                proof {
                    assert(strs(cas) =~= seq![cas[0]@]);
                }
                ServerTlsPolicy::MutualTls { server_cert, client_verification: v }
            },
            Err(e) => return Err(e),
        }
    } else {
        ServerTlsPolicy::Tls { server_cert }
    };
    let skip = match flag(m, "insecure_skip_verify") {
        Ok(b) => b,
        Err(e) => return Err(e),
    };
    let client_verification = ClientVerification::resolve(skip, get_string(m, "ca_file"));
    let client = match (get_string(m, "client_cert_file"), get_string(m, "client_key_file")) {
        (Some(client_cert_file), Some(client_key_file)) => ClientTlsPolicy::MutualTls {
            client_verification,
            client_identity: ClientCertSource::Explicit { client_cert_file, client_key_file },
        },
        _ => ClientTlsPolicy::Tls { client_verification },
    };
    Ok(Some(DescriptorTls { server, client }))
}

/// How a client checks its server, under a client policy that has TLS on.
pub open spec fn client_verify_view(c: ClientTlsView) -> Option<VerifyView> {
    match c {
        ClientTlsView::NoTls => None,
        ClientTlsView::Tls { verify } => Some(verify),
        ClientTlsView::MutualTls { verify, .. } => Some(verify),
    }
}

/// The client half of a descriptor's TLS block: whenever the block is built, TLS is on for the
/// client; it skips verifying the server exactly when `insecure_skip_verify=true`, and
/// otherwise verifies against the `ca_file` the descriptor gives (the system roots when it
/// gives none). It presents an identity exactly when both `client_cert_file` and
/// `client_key_file` are given, and then those two files, each in its own place. A descriptor
/// with a `ca_file` always has a TLS block or is refused.
pub proof fn lemma_descriptor_client_tls(m: Seq<(Seq<char>, Seq<char>)>)
    ensures
        lookup(m, "ca_file"@) is Some ==> !(spec_descriptor_tls(m) matches Ok(None)),
        match spec_descriptor_tls(m) {
            Ok(Some((_, client))) => {
                &&& client_verify_view(client) == Some(
                    if lookup(m, "insecure_skip_verify"@) == Some("true"@) {
                        VerifyView::SkipVerify
                    } else {
                        VerifyView::Verify { ca_file: lookup(m, "ca_file"@) }
                    },
                )
                &&& (client is MutualTls) <==> (lookup(m, "client_cert_file"@) is Some && lookup(
                    m,
                    "client_key_file"@,
                ) is Some)
                &&& client is MutualTls ==> client->identity == Some(
                    (lookup(m, "client_cert_file"@)->0, lookup(m, "client_key_file"@)->0),
                )
            },
            _ => true,
        },
{
    reveal_strlit("true");
    reveal_strlit("false");
    assert("true"@.len() == 4);
    assert("false"@.len() == 5);
}

/// The server certificate of a server TLS view.
pub open spec fn server_cert_view(s: ServerTlsView) -> Option<CertView> {
    match s {
        ServerTlsView::NoTls => None,
        ServerTlsView::Tls { server_cert } => Some(server_cert),
        ServerTlsView::MutualTls { server_cert, .. } => Some(server_cert),
    }
}

/// The server half of a descriptor's TLS block: whenever the block is built, TLS is on for the
/// server; its certificate is self-signed exactly when `self_signed=true`, and otherwise the
/// `cert_file`/`key_file` pair, each in its own place (or no files when neither is given). It
/// asks clients for certificates exactly when `require_client_cert=true`, and then verifies
/// them against the one `client_ca_file` given.
pub proof fn lemma_descriptor_server_tls(m: Seq<(Seq<char>, Seq<char>)>)
    ensures
        match spec_descriptor_tls(m) {
            Ok(Some((server, _))) => {
                &&& server_cert_view(server) == Some(
                    if lookup(m, "self_signed"@) == Some("true"@) {
                        CertView::SelfSigned
                    } else if lookup(m, "cert_file"@) is Some {
                        CertView::Explicit {
                            cert_file: lookup(m, "cert_file"@)->0,
                            key_file: lookup(m, "key_file"@)->0,
                        }
                    } else {
                        CertView::Unset
                    },
                )
                &&& lookup(m, "self_signed"@) != Some("true"@) ==> (lookup(m, "cert_file"@) is Some
                    <==> lookup(m, "key_file"@) is Some)
                &&& (server is MutualTls) <==> lookup(m, "require_client_cert"@) == Some("true"@)
                &&& server is MutualTls ==> server->ca_files == Some(
                    seq![lookup(m, "client_ca_file"@)->0],
                )
            },
            _ => true,
        },
{
    reveal_strlit("true");
    reveal_strlit("false");
    assert("true"@.len() == 4);
    assert("false"@.len() == 5);
}

/// A descriptor whose only TLS key is `ca_file=X` (no `insecure_skip_verify`, no client
/// identity, no server certificate keys) gets TLS on both halves: the server with no
/// certificate files set, and the client verifying against `X`.
pub proof fn lemma_descriptor_ca_file_only(m: Seq<(Seq<char>, Seq<char>)>)
    requires
        lookup(m, "ca_file"@) is Some,
        lookup(m, "cert_file"@) is None,
        lookup(m, "key_file"@) is None,
        lookup(m, "client_cert_file"@) is None,
        lookup(m, "client_key_file"@) is None,
        lookup(m, "client_ca_file"@) is None,
        lookup(m, "require_client_cert"@) is None,
        lookup(m, "self_signed"@) is None,
        lookup(m, "insecure_skip_verify"@) is None,
    ensures
        spec_descriptor_tls(m) == Ok::<_, Seq<char>>(
            Some(
                (
                    ServerTlsView::Tls { server_cert: CertView::Unset },
                    ClientTlsView::Tls {
                        verify: VerifyView::Verify { ca_file: lookup(m, "ca_file"@) },
                    },
                ),
            ),
        ),
{
}

/// The TLS block of a TCP-family bridge endpoint.
pub open spec fn endpoint_tls(k: KindView) -> Option<(ServerTlsView, ClientTlsView)> {
    match k {
        KindView::Tcp(c) => c.tls,
        KindView::RtuOverTcp(c) => c.tls,
        KindView::AsciiOverTcp(c) => c.tls,
        KindView::Rtu(_) => None,
    }
}

/// The network part of a TCP-family bridge endpoint, or `None` for a serial one.
pub open spec fn endpoint_tcp(k: KindView) -> Option<TcpView> {
    match k {
        KindView::Tcp(c) => Some(c),
        KindView::RtuOverTcp(c) => Some(c),
        KindView::AsciiOverTcp(c) => Some(c),
        KindView::Rtu(_) => None,
    }
}

/// What a parsed bridge descriptor holds: the endpoint kind of its transport, each transport
/// its own kind (`tcp` when none is given); the raw `unit_ids` text it gives; and for a
/// TCP-family transport the `ip` it gives (`127.0.0.1` without one), the `port` it gives, a
/// reconnect flag that is off only for `reconnect=false`, and the `timeout_ms` it gives
/// (3000 without one).
pub proof fn lemma_bridge_descriptor_fields(s: Seq<char>)
    requires
        spec_parse_bridge_descriptor(s) is Ok,
    ensures
        spec_bridge_pairs(s) is Ok,
        ({
            let m = spec_bridge_pairs(s)->Ok_0;
            let v = spec_parse_bridge_descriptor(s)->Ok_0;
            let t = match lookup(m, "transport"@) {
                Some(t) => t,
                None => "tcp"@,
            };
            &&& v.unit_ids == lookup(m, "unit_ids"@)
            &&& (v.kind is Tcp) <==> t == "tcp"@
            &&& (v.kind is RtuOverTcp) <==> t == "rtu_over_tcp"@
            &&& (v.kind is AsciiOverTcp) <==> t == "ascii_over_tcp"@
            &&& (v.kind is Rtu) <==> t == "rtu"@
            &&& match endpoint_tcp(v.kind) {
                Some(c) => {
                    &&& c.ip == (if lookup(m, "ip"@) is Some {
                        lookup(m, "ip"@)->0
                    } else {
                        "127.0.0.1"@
                    })
                    &&& parse_unsigned(lookup(m, "port"@)->0, 10, u16::MAX as int) == Some(
                        c.port as int,
                    )
                    &&& c.reconnect == (lookup(m, "reconnect"@) != Some("false"@))
                    &&& lookup(m, "timeout_ms"@) is None ==> c.timeout_ms == 3000
                    &&& lookup(m, "timeout_ms"@) is Some ==> parse_unsigned(
                        lookup(m, "timeout_ms"@)->0,
                        10,
                        usize::MAX as int,
                    ) == Some(c.timeout_ms as int)
                },
                None => true,
            }
        }),
{
    reveal_strlit("true");
    reveal_strlit("false");
    reveal_strlit("tcp");
    reveal_strlit("rtu");
    reveal_strlit("rtu_over_tcp");
    reveal_strlit("ascii_over_tcp");
    assert("true"@.len() == 4);
    assert("false"@.len() == 5);
    assert("tcp"@.len() == 3 && "tcp"@[0] == 't');
    assert("rtu"@.len() == 3 && "rtu"@[0] == 'r');
    assert("rtu_over_tcp"@.len() == 12);
    assert("ascii_over_tcp"@.len() == 14);
    let m = spec_bridge_pairs(s)->Ok_0;
    let v = spec_parse_bridge_descriptor(s)->Ok_0;
    if let Some(c) = endpoint_tcp(v.kind) {
        let x = parse_unsigned(lookup(m, "port"@)->0, 10, u16::MAX as int);
        crate::num::lemma_digits_value_nonneg(crate::num::unsigned_body(lookup(m, "port"@)->0), 10);
        assert(0 <= x->0 <= u16::MAX);
        if lookup(m, "timeout_ms"@) is Some {
            crate::num::lemma_digits_value_nonneg(
                crate::num::unsigned_body(lookup(m, "timeout_ms"@)->0),
                10,
            );
        }
    }
}

/// The client half of a TCP-family bridge endpoint's TLS block (no TLS when it has none).
pub open spec fn endpoint_client(k: KindView) -> ClientTlsView {
    match endpoint_tls(k) {
        Some((_, client)) => client,
        None => ClientTlsView::NoTls,
    }
}

/// A parsed TCP-family bridge descriptor carries exactly the TLS block its pairs describe; so
/// one with `ca_file=X` and no `insecure_skip_verify=true` has TLS on, and its client verifies
/// the server against `X`.
pub proof fn lemma_bridge_descriptor_tls(s: Seq<char>)
    requires
        spec_bridge_pairs(s) is Ok,
        spec_parse_bridge_descriptor(s) is Ok,
        !(spec_parse_bridge_descriptor(s)->Ok_0.kind is Rtu),
    ensures
        spec_descriptor_tls(spec_bridge_pairs(s)->Ok_0) == Ok::<_, Seq<char>>(
            endpoint_tls(spec_parse_bridge_descriptor(s)->Ok_0.kind),
        ),
        ({
            let m = spec_bridge_pairs(s)->Ok_0;
            lookup(m, "ca_file"@) is Some && lookup(m, "insecure_skip_verify"@) != Some("true"@) ==> {
                &&& endpoint_tls(spec_parse_bridge_descriptor(s)->Ok_0.kind) is Some
                &&& client_verify_view(endpoint_client(spec_parse_bridge_descriptor(s)->Ok_0.kind))
                    == Some(VerifyView::Verify { ca_file: lookup(m, "ca_file"@) })
            }
        }),
{
    let m = spec_bridge_pairs(s)->Ok_0;
    lemma_descriptor_client_tls(m);
}

// ---------------------------------------------------------------------------------------------
// Bridge endpoints.
// ---------------------------------------------------------------------------------------------

/// A TCP-family bridge endpoint.
#[derive(Debug)]
pub struct BridgeTcpConfig {
    pub ip: String,
    pub port: u16,
    pub timeout_ms: usize,
    pub delay_ms: usize,
    pub interval_ms: usize,
    pub reconnect: bool,
    pub tls: Option<DescriptorTls>,
}

/// A serial bridge endpoint.
#[derive(Debug)]
pub struct BridgeRtuConfig {
    pub path: String,
    pub baud_rate: u32,
    /// Inert for a bridge, as for an ordinary RTU server.
    pub slave: u8,
    pub parity: Option<String>,
    pub data_bits: Option<u8>,
    pub stop_bits: Option<u8>,
    pub timeout_ms: usize,
    pub delay_ms: usize,
    pub interval_ms: usize,
    pub reconnect: bool,
}

/// The transport of a bridge endpoint.
#[derive(Debug)]
pub enum BridgeEndpointKind {
    Tcp(BridgeTcpConfig),
    RtuOverTcp(BridgeTcpConfig),
    AsciiOverTcp(BridgeTcpConfig),
    Rtu(BridgeRtuConfig),
}

/// One side of a bridge: its transport, and the raw `unit_ids` filter text (a list of unit
/// ids and ranges such as `1,3,5-8`) when the descriptor gives one.
#[derive(Debug)]
pub struct BridgeEndpointSpec {
    pub kind: BridgeEndpointKind,
    pub unit_ids: Option<String>,
}

/// The model of a TCP-family endpoint.
pub ghost struct TcpView {
    pub ip: Seq<char>,
    pub port: u16,
    pub timeout_ms: usize,
    pub delay_ms: usize,
    pub interval_ms: usize,
    pub reconnect: bool,
    pub tls: Option<(ServerTlsView, ClientTlsView)>,
}

/// The model of a serial endpoint.
pub ghost struct RtuView {
    pub path: Seq<char>,
    pub baud_rate: u32,
    pub slave: u8,
    pub parity: Option<Seq<char>>,
    pub data_bits: Option<u8>,
    pub stop_bits: Option<u8>,
    pub timeout_ms: usize,
    pub delay_ms: usize,
    pub interval_ms: usize,
    pub reconnect: bool,
}

pub ghost enum KindView {
    Tcp(TcpView),
    RtuOverTcp(TcpView),
    AsciiOverTcp(TcpView),
    Rtu(RtuView),
}

/// The model of a bridge endpoint.
pub ghost struct BridgeView {
    pub kind: KindView,
    pub unit_ids: Option<Seq<char>>,
}

impl View for BridgeTcpConfig {
    type V = TcpView;

    open spec fn view(&self) -> TcpView {
        TcpView {
            ip: self.ip@,
            port: self.port,
            timeout_ms: self.timeout_ms,
            delay_ms: self.delay_ms,
            interval_ms: self.interval_ms,
            reconnect: self.reconnect,
            tls: opt_tls_view(self.tls),
        }
    }
}

impl View for BridgeRtuConfig {
    type V = RtuView;

    open spec fn view(&self) -> RtuView {
        RtuView {
            path: self.path@,
            baud_rate: self.baud_rate,
            slave: self.slave,
            parity: match self.parity {
                Some(p) => Some(p@),
                None => None,
            },
            data_bits: self.data_bits,
            stop_bits: self.stop_bits,
            timeout_ms: self.timeout_ms,
            delay_ms: self.delay_ms,
            interval_ms: self.interval_ms,
            reconnect: self.reconnect,
        }
    }
}

impl View for BridgeEndpointKind {
    type V = KindView;

    open spec fn view(&self) -> KindView {
        match self {
            BridgeEndpointKind::Tcp(c) => KindView::Tcp(c@),
            BridgeEndpointKind::RtuOverTcp(c) => KindView::RtuOverTcp(c@),
            BridgeEndpointKind::AsciiOverTcp(c) => KindView::AsciiOverTcp(c@),
            BridgeEndpointKind::Rtu(c) => KindView::Rtu(c@),
        }
    }
}

impl View for BridgeEndpointSpec {
    type V = BridgeView;

    open spec fn view(&self) -> BridgeView {
        BridgeView {
            kind: self.kind@,
            unit_ids: match self.unit_ids {
                Some(u) => Some(u@),
                None => None,
            },
        }
    }
}

/// The `reconnect` key: absent is `true`.
pub open spec fn spec_reconnect(v: Option<Seq<char>>) -> Result<bool, Seq<char>> {
    match v {
        None => Ok(true),
        Some(v) => if v == "true"@ {
            Ok(true)
        } else if v == "false"@ {
            Ok(false)
        } else {
            Err("invalid 'reconnect' value '"@ + v + "' (expected true|false)"@)
        },
    }
}

/// A TCP-family endpoint of transport `t`: its TLS block first, then `ip` (default
/// `127.0.0.1`) and a required `port`.
pub open spec fn spec_bridge_tcp(
    m: Seq<(Seq<char>, Seq<char>)>,
    t: Seq<char>,
    timeout_ms: usize,
    reconnect: bool,
) -> Result<TcpView, Seq<char>> {
    match spec_descriptor_tls(m) {
        Err(e) => Err(e),
        Ok(tls) => {
            let ip = match lookup(m, "ip"@) {
                Some(i) => i,
                None => "127.0.0.1"@,
            };
            match lookup(m, "port"@) {
                None => Err(t + " descriptor requires 'port'"@),
                Some(p) => match parse_unsigned(p, 10, u16::MAX as int) {
                    None => Err("invalid 'port'"@),
                    Some(port) => Ok(
                        TcpView {
                            ip,
                            port: port as u16,
                            timeout_ms,
                            delay_ms: 0,
                            interval_ms: 0,
                            reconnect,
                            tls,
                        },
                    ),
                },
            }
        },
    }
}

/// A serial endpoint: a required `path`, `baud` (or `baud_rate`, default 19200), `parity`,
/// `data_bits` and `stop_bits`; the unit id is 1.
pub open spec fn spec_bridge_rtu(m: Seq<(Seq<char>, Seq<char>)>, timeout_ms: usize, reconnect: bool) -> Result<
    RtuView,
    Seq<char>,
> {
    match lookup(m, "path"@) {
        None => Err("rtu descriptor requires 'path'"@),
        Some(path) => {
            let baud_src = match lookup(m, "baud"@) {
                Some(b) => Some(b),
                None => lookup(m, "baud_rate"@),
            };
            match spec_parse_opt(baud_src, "baud"@, u32::MAX as int) {
                Err(e) => Err(e),
                Ok(baud) => match spec_parse_opt(
                    lookup(m, "data_bits"@),
                    "data_bits"@,
                    u8::MAX as int,
                ) {
                    Err(e) => Err(e),
                    Ok(data_bits) => match spec_parse_opt(
                        lookup(m, "stop_bits"@),
                        "stop_bits"@,
                        u8::MAX as int,
                    ) {
                        Err(e) => Err(e),
                        Ok(stop_bits) => Ok(
                            RtuView {
                                path,
                                baud_rate: match baud {
                                    Some(b) => b as u32,
                                    None => 19200u32,
                                },
                                slave: 1,
                                parity: lookup(m, "parity"@),
                                data_bits: match data_bits {
                                    Some(d) => Some(d as u8),
                                    None => None,
                                },
                                stop_bits: match stop_bits {
                                    Some(s) => Some(s as u8),
                                    None => None,
                                },
                                timeout_ms,
                                delay_ms: 0,
                                interval_ms: 0,
                                reconnect,
                            },
                        ),
                    },
                },
            }
        },
    }
}

/// The endpoint a bridge descriptor describes, or the error message.
pub open spec fn spec_parse_bridge_descriptor(s: Seq<char>) -> Result<BridgeView, Seq<char>> {
    match spec_bridge_pairs(s) {
        Err(e) => Err(e),
        Ok(m) => {
            let unit_ids = lookup(m, "unit_ids"@);
            match spec_parse_opt(lookup(m, "timeout_ms"@), "timeout_ms"@, usize::MAX as int) {
                Err(e) => Err(e),
                Ok(t) => {
                    let timeout_ms = match t {
                        Some(x) => x as usize,
                        None => 3000usize,
                    };
                    match spec_reconnect(lookup(m, "reconnect"@)) {
                        Err(e) => Err(e),
                        Ok(reconnect) => {
                            let tr = match lookup(m, "transport"@) {
                                Some(t) => t,
                                None => "tcp"@,
                            };
                            let kind = if tr == "tcp"@ {
                                match spec_bridge_tcp(m, tr, timeout_ms, reconnect) {
                                    Ok(c) => Ok(KindView::Tcp(c)),
                                    Err(e) => Err(e),
                                }
                            } else if tr == "rtu_over_tcp"@ {
                                match spec_bridge_tcp(m, tr, timeout_ms, reconnect) {
                                    Ok(c) => Ok(KindView::RtuOverTcp(c)),
                                    Err(e) => Err(e),
                                }
                            } else if tr == "ascii_over_tcp"@ {
                                match spec_bridge_tcp(m, tr, timeout_ms, reconnect) {
                                    Ok(c) => Ok(KindView::AsciiOverTcp(c)),
                                    Err(e) => Err(e),
                                }
                            } else if tr == "rtu"@ {
                                match spec_bridge_rtu(m, timeout_ms, reconnect) {
                                    Ok(c) => Ok(KindView::Rtu(c)),
                                    Err(e) => Err(e),
                                }
                            } else {
                                Err(
                                    "invalid transport '"@ + tr
                                        + "' (expected tcp|rtu|rtu_over_tcp|ascii_over_tcp)"@,
                                )
                            };
                            match kind {
                                Err(e) => Err(e),
                                Ok(kind) => Ok(BridgeView { kind, unit_ids }),
                            }
                        },
                    }
                },
            }
        },
    }
}

fn bridge_tcp(m: &Vec<(Vec<char>, Vec<char>)>, t: &Vec<char>, timeout_ms: usize, reconnect: bool) -> (r:
    Result<BridgeTcpConfig, String>)
    ensures
        match r {
            Ok(c) => spec_bridge_tcp(pair_seqs(m@), t@, timeout_ms, reconnect) == Ok::<
                _,
                Seq<char>,
            >(c@),
            Err(e) => spec_bridge_tcp(pair_seqs(m@), t@, timeout_ms, reconnect) == Err::<
                TcpView,
                _,
            >(e@),
        },
{
    let tls = match build_descriptor_tls(m) {
        Ok(t) => t,
        Err(e) => return Err(e),
    };
    let ip = match get(m, "ip") {
        Some(i) => string_of(&i),
        None => string_of(&chars_of("127.0.0.1")),
    };
    let port = match get(m, "port") {
        None => return Err(labelled(t, " descriptor requires 'port'")),
        Some(p) => match parse_u16(&p) {
            Some(x) => x,
            None => return Err(string_of(&chars_of("invalid 'port'"))),
        },
    };
    Ok(BridgeTcpConfig { ip, port, timeout_ms, delay_ms: 0, interval_ms: 0, reconnect, tls })
}

fn bridge_rtu(m: &Vec<(Vec<char>, Vec<char>)>, timeout_ms: usize, reconnect: bool) -> (r: Result<
    BridgeRtuConfig,
    String,
>)
    ensures
        match r {
            Ok(c) => spec_bridge_rtu(pair_seqs(m@), timeout_ms, reconnect) == Ok::<_, Seq<char>>(
                c@,
            ),
            Err(e) => spec_bridge_rtu(pair_seqs(m@), timeout_ms, reconnect) == Err::<RtuView, _>(
                e@,
            ),
        },
{
    let path = match get(m, "path") {
        None => return Err(string_of(&chars_of("rtu descriptor requires 'path'"))),
        Some(p) => string_of(&p),
    };
    let baud_src = match get(m, "baud") {
        Some(b) => Some(b),
        None => get(m, "baud_rate"),
    };
    let baud = match parse_opt_u32(baud_src, "baud") {
        Ok(b) => b,
        Err(e) => return Err(e),
    };
    let parity = get_string(m, "parity");
    let data_bits = match parse_opt_u8(get(m, "data_bits"), "data_bits") {
        Ok(d) => d,
        Err(e) => return Err(e),
    };
    let stop_bits = match parse_opt_u8(get(m, "stop_bits"), "stop_bits") {
        Ok(s) => s,
        Err(e) => return Err(e),
    };
    let baud_rate = match baud {
        Some(b) => b,
        None => 19200,
    };
    Ok(
        BridgeRtuConfig {
            path,
            baud_rate,
            slave: 1,
            parity,
            data_bits,
            stop_bits,
            timeout_ms,
            delay_ms: 0,
            interval_ms: 0,
            reconnect,
        },
    )
}

/// Parse a single `--upstream` / `--downstream` value (`key=val,key=val,...`) into a bridge
/// endpoint.
pub fn parse_bridge_descriptor(input: &str) -> (r: Result<BridgeEndpointSpec, String>)
    ensures
        match r {
            Ok(s) => spec_parse_bridge_descriptor(input@) == Ok::<_, Seq<char>>(s@),
            Err(e) => spec_parse_bridge_descriptor(input@) == Err::<BridgeView, _>(e@),
        },
{
    let m = match bridge_pairs(input) {
        Ok(m) => m,
        Err(e) => return Err(e),
    };
    let unit_ids = get_string(&m, "unit_ids");
    let timeout_ms = match get(&m, "timeout_ms") {
        None => 3000usize,
        Some(v) => match parse_usize(&v) {
            Some(x) => x,
            None => return Err(invalid_field("timeout_ms")),
        },
    };
    proof {
        reveal_strlit("true");
        reveal_strlit("false");
        reveal_strlit("tcp");
        reveal_strlit("rtu");
        reveal_strlit("rtu_over_tcp");
        reveal_strlit("ascii_over_tcp");
    }
    let reconnect = match get(&m, "reconnect") {
        None => true,
        Some(v) => {
            if is(&v, "true") {
                true
            } else if is(&v, "false") {
                false
            } else {
                return Err(concat3("invalid 'reconnect' value '", &v, "' (expected true|false)"));
            }
        },
    };
    let t = match get(&m, "transport") {
        Some(t) => t,
        None => chars_of("tcp"),
    };
    let kind = if is(&t, "tcp") {
        match bridge_tcp(&m, &t, timeout_ms, reconnect) {
            Ok(c) => BridgeEndpointKind::Tcp(c),
            Err(e) => return Err(e),
        }
    } else if is(&t, "rtu_over_tcp") {
        match bridge_tcp(&m, &t, timeout_ms, reconnect) {
            Ok(c) => BridgeEndpointKind::RtuOverTcp(c),
            Err(e) => return Err(e),
        }
    } else if is(&t, "ascii_over_tcp") {
        match bridge_tcp(&m, &t, timeout_ms, reconnect) {
            Ok(c) => BridgeEndpointKind::AsciiOverTcp(c),
            Err(e) => return Err(e),
        }
    } else if is(&t, "rtu") {
        match bridge_rtu(&m, timeout_ms, reconnect) {
            Ok(c) => BridgeEndpointKind::Rtu(c),
            Err(e) => return Err(e),
        }
    } else {
        return Err(
            concat3(
                "invalid transport '",
                &t,
                "' (expected tcp|rtu|rtu_over_tcp|ascii_over_tcp)",
            ),
        );
    };
    Ok(BridgeEndpointSpec { kind, unit_ids })
}

} // verus!
