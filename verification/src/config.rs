//! The configuration: how the page cache works, and which ports are listened on.
use vstd::prelude::*;

verus! {

/// How the page cache is filled.
#[derive(Debug, Clone, Copy, PartialEq, Eq, Structural)]
pub enum CacheMode {
    Online,
    Oneshot,
    Offline,
}

/// The ports that are listened on. Behind a reverse proxy there is none for
/// HTTPS.
#[derive(Debug, Clone, Copy)]
pub struct Ports {
    pub https: Option<u16>,
    pub blobcast: u16,
    pub http: u16,
}

/// Where the certificate and its key are.
#[derive(Debug)]
pub struct Tls {
    pub cert: String,
    pub key: String,
}

/// Why a configuration is refused.
#[derive(Debug, Clone, Copy, PartialEq, Eq, Structural)]
pub enum ConfigError {
    /// TLS is configured, and no port for it.
    HttpsPortMissing,
    /// A port for HTTPS is configured, and no TLS.
    TlsMissing,
}

/// The protocol that is spoken on a port.
#[derive(Debug, Clone, Copy, PartialEq, Eq, Structural)]
pub enum Service {
    Ecast,
    Blobcast,
}

/// A port that is listened on.
#[derive(Debug, Clone, Copy, PartialEq, Eq, Structural)]
pub struct Listener {
    pub service: Service,
    pub port: u16,
    /// Whether connections to it are encrypted.
    pub tls: bool,
}

/// Whether connections are encrypted: TLS and a port for it come together or
/// not at all.
pub open spec fn uses_tls(tls: Option<Tls>, https: Option<u16>) -> Result<bool, ConfigError> {
    match (tls, https) {
        (Some(_), Some(_)) => Ok(true),
        (None, None) => Ok(false),
        (Some(_), None) => Err(ConfigError::HttpsPortMissing),
        (None, Some(_)) => Err(ConfigError::TlsMissing),
    }
}

/// The ports that are listened on, in the order in which that begins. Where
/// connections are encrypted, the port for plain HTTP is still there.
pub open spec fn listeners_of(ports: Ports, tls: bool) -> Seq<Listener> {
    match (tls, ports.https) {
        (true, Some(https)) => seq![
            Listener { service: Service::Ecast, port: https, tls: true },
            Listener { service: Service::Blobcast, port: ports.blobcast, tls: true },
            Listener { service: Service::Ecast, port: ports.http, tls: false },
        ],
        _ => seq![
            Listener { service: Service::Blobcast, port: ports.blobcast, tls: false },
            Listener { service: Service::Ecast, port: ports.http, tls: false },
        ],
    }
}

impl ConfigError {
    /// The error in words.
    pub fn message(&self) -> (message: String)
        ensures
            message@ == match *self {
                ConfigError::HttpsPortMissing =>
                    "`ports.https` is required when TLS is configured"@,
                ConfigError::TlsMissing => "TLS is required when `ports.https` is configured"@,
            },
    {
        match self {
            ConfigError::HttpsPortMissing => {
                "`ports.https` is required when TLS is configured".to_owned()
            },
            ConfigError::TlsMissing => {
                "TLS is required when `ports.https` is configured".to_owned()
            },
        }
    }
}

/// Where the certificate is that connections are encrypted with, if they are.
pub fn tls_files<'a>(tls: &'a Option<Tls>, https: Option<u16>) -> (files: Result<
    Option<&'a Tls>,
    ConfigError,
>)
    ensures
        match files {
            Ok(Some(files)) => uses_tls(*tls, https) == Ok::<bool, ConfigError>(true) && *tls
                == Some(*files),
            Ok(None) => uses_tls(*tls, https) == Ok::<bool, ConfigError>(false),
            Err(error) => uses_tls(*tls, https) == Err::<bool, ConfigError>(error),
        },
{
    match (tls, https) {
        (Some(tls), Some(_)) => Ok(Some(tls)),
        (None, None) => Ok(None),
        (Some(_), None) => Err(ConfigError::HttpsPortMissing),
        (None, Some(_)) => Err(ConfigError::TlsMissing),
    }
}

/// The ports that are listened on, in the order in which that begins.
pub fn listeners(ports: &Ports, tls: bool) -> (listeners: Vec<Listener>)
    ensures
        listeners@ == listeners_of(*ports, tls),
{
    match (tls, ports.https) {
        (true, Some(https)) => vec![
            Listener { service: Service::Ecast, port: https, tls: true },
            Listener { service: Service::Blobcast, port: ports.blobcast, tls: true },
            Listener { service: Service::Ecast, port: ports.http, tls: false },
        ],
        _ => vec![
            Listener { service: Service::Blobcast, port: ports.blobcast, tls: false },
            Listener { service: Service::Ecast, port: ports.http, tls: false },
        ],
    }
}

/// One of `listeners` is for `port`.
pub open spec fn is_listened_on(listeners: Seq<Listener>, port: u16) -> bool {
    exists|i: int| 0 <= i < listeners.len() && (#[trigger] listeners[i]).port == port
}

/// A configuration that is accepted has every port listened on that it names,
/// and no other; connections are encrypted somewhere exactly where there is a
/// port for HTTPS.
pub proof fn law_configured_ports_are_listened_on(ports: Ports, tls: Option<Tls>, secure: bool)
    requires
        uses_tls(tls, ports.https) == Ok::<bool, ConfigError>(secure),
    ensures
        forall|port: u16| #[trigger]
            is_listened_on(listeners_of(ports, secure), port) <==> (port == ports.http || port
                == ports.blobcast || ports.https == Some(port)),
        ports.https is Some <==> exists|i: int|
            0 <= i < listeners_of(ports, secure).len() && (#[trigger] listeners_of(
                ports,
                secure,
            )[i]).tls,
{
    let all = listeners_of(ports, secure);
    assert(all[0].tls == (ports.https is Some));
    assert forall|port: u16| #[trigger] is_listened_on(all, port) <==> (port == ports.http || port
        == ports.blobcast || ports.https == Some(port)) by {
        if port == all[0].port {
        } else if port == all[1].port {
        } else if ports.https is Some && port == all[2].port {
        }
    }
}

/// TLS and a port for it come together or not at all, and what is missing is named.
pub proof fn law_tls_and_its_port_come_together(tls: Tls, port: u16)
    ensures
        uses_tls(Some(tls), Some(port)) == Ok::<bool, ConfigError>(true),
        uses_tls(None, None) == Ok::<bool, ConfigError>(false),
        uses_tls(Some(tls), None) == Err::<bool, ConfigError>(ConfigError::HttpsPortMissing),
        uses_tls(None, Some(port)) == Err::<bool, ConfigError>(ConfigError::TlsMissing),
{
}

/// Where connections are encrypted, they are on every port for HTTPS, whatever its
/// number, and on the one for Blobcast; on the one for plain HTTP they never are.
/// Those three are listened on, in that order, and no others.
pub proof fn law_encrypted_listeners(ports: Ports, https: u16)
    requires
        ports.https == Some(https),
    ensures
        ({
            let all = listeners_of(ports, true);
            &&& all.len() == 3
            &&& all[0].tls && all[0].port == https && all[0].service == Service::Ecast
            &&& all[1].tls && all[1].port == ports.blobcast && all[1].service == Service::Blobcast
            &&& !all[2].tls && all[2].port == ports.http && all[2].service == Service::Ecast
        }),
{
}

/// Where connections are not encrypted, or there is no port for HTTPS, Blobcast and
/// then plain HTTP are listened on, both in the clear, and nothing else is.
pub proof fn law_plain_listeners(ports: Ports, tls: bool)
    requires
        !tls || ports.https is None,
    ensures
        ({
            let all = listeners_of(ports, tls);
            &&& all.len() == 2
            &&& !all[0].tls && all[0].port == ports.blobcast && all[0].service == Service::Blobcast
            &&& !all[1].tls && all[1].port == ports.http && all[1].service == Service::Ecast
        }),
{
}

/// The numbers of the ports decide on nothing but where is listened: with others in
/// their place, each listener speaks the same protocol and is encrypted or not as
/// before.
pub proof fn law_port_numbers_decide_on_nothing_else(a: Ports, b: Ports, tls: bool, i: int)
    requires
        a.https is Some == b.https is Some,
        0 <= i < listeners_of(a, tls).len(),
    ensures
        listeners_of(a, tls).len() == listeners_of(b, tls).len(),
        listeners_of(a, tls)[i].service == listeners_of(b, tls)[i].service,
        listeners_of(a, tls)[i].tls == listeners_of(b, tls)[i].tls,
{
}

} // verus!
