use std::collections::BTreeMap;

use dashmap::DashMap;
use johnbox::config::{listeners, tls_files, ConfigError, Listener, Service};
use johnbox::room::sockets_to_close;
use johnbox::{Client, ClientType, JBProfile, JBProfileRoles, JBRoom, Ports, Room, Tls, Token};

fn config() -> JBRoom {
    JBRoom {
        app_id: "id".to_string(),
        app_tag: "tag".to_string(),
        audience_enabled: true,
        code: "ABCD".to_string(),
        host: "h".to_string(),
        audience_host: "a".to_string(),
        locked: true,
        full: false,
        moderation_enabled: false,
        password_required: true,
        twitch_locked: false,
        locale: "en".to_string(),
        keepalive: true,
    }
}

fn client(id: i64, connected: bool) -> Client {
    Client {
        profile: JBProfile {
            id,
            user_id: "u".to_string(),
            role: "host".to_string(),
            name: "n".to_string(),
            roles: if id == 1 { JBProfileRoles::Host {} } else { JBProfileRoles::NoRole },
        },
        connected,
        pc: 0,
        client_type: ClientType::Blobcast,
        secret: Token::from([0; 12]),
    }
}

#[test]
fn clone_keeps_every_field() {
    let room = config();
    let copy = room.clone();
    assert_eq!(format!("{:?}", copy), format!("{:?}", room));
    assert!(copy.locked && !copy.full);
    assert_eq!(copy.code, "ABCD");
}

#[test]
fn all_open_sockets_are_closed() {
    let connections = DashMap::new();
    for id in 1..40 {
        connections.insert(id, Client { pc: 10 * id as u64, ..client(id, id % 3 == 0) });
    }
    let mut room = Room { connections, room_serial: 4, room_config: config() };
    let mut ids = room.close();
    ids.sort();
    let expected: Vec<i64> = (1..40).filter(|id| id % 3 == 0).collect();
    assert_eq!(ids, expected);
    assert_eq!(room.connections.len(), 39);
    for id in 1..40 {
        let kept = room.connections.get(&id).unwrap();
        assert_eq!(kept.connected, id % 3 == 0);
        assert_eq!(kept.pc, 10 * id as u64);
        assert_eq!(kept.profile.id, id);
    }
    assert_eq!(room.room_serial, 4);
}

#[test]
fn empty_room_has_nothing_to_close() {
    let mut room = Room { connections: DashMap::new(), room_serial: 0, room_config: config() };
    assert!(room.close().is_empty());
}

#[test]
fn sockets_are_closed_in_the_order_listed() {
    assert_eq!(sockets_to_close(&vec![(5, true), (2, false), (-1, true)]), vec![5, -1]);
}

#[test]
fn first_failure_is_reported() {
    assert_eq!(Room::closed(&vec![]), Ok(()));
    assert_eq!(Room::closed(&vec![(1, true), (2, true)]), Ok(()));
    assert_eq!(Room::closed(&vec![(1, true), (2, false), (3, false)]), Err(2));
}

#[test]
fn reverse_proxy_config_allows_no_https_port() {
    let table: BTreeMap<String, u16> = toml::from_str("blobcast = 38203\nhttp = 8080").unwrap();
    let ports = Ports {
        https: table.get("https").copied(),
        blobcast: table["blobcast"],
        http: table["http"],
    };

    assert_eq!(ports.https, None);
    assert!(tls_files(&None, ports.https).unwrap().is_none());
    assert_eq!(
        listeners(&ports, false),
        vec![
            Listener { service: Service::Blobcast, port: 38203, tls: false },
            Listener { service: Service::Ecast, port: 8080, tls: false },
        ]
    );
}

#[test]
fn tls_and_its_port_come_together() {
    let tls = Some(Tls { cert: "c.pem".to_string(), key: "k.pem".to_string() });
    let files = tls_files(&tls, Some(443)).unwrap().unwrap();
    assert_eq!(files.cert, "c.pem");
    assert_eq!(files.key, "k.pem");
    let error = tls_files(&tls, None).unwrap_err();
    assert_eq!(error, ConfigError::HttpsPortMissing);
    assert_eq!(error.message(), "`ports.https` is required when TLS is configured");
    let error = tls_files(&None, Some(443)).unwrap_err();
    assert_eq!(error, ConfigError::TlsMissing);
    assert_eq!(error.message(), "TLS is required when `ports.https` is configured");
}

#[test]
fn plain_http_stays_beside_tls() {
    let ports = Ports { https: Some(443), blobcast: 38203, http: 80 };
    assert_eq!(
        listeners(&ports, true),
        vec![
            Listener { service: Service::Ecast, port: 443, tls: true },
            Listener { service: Service::Blobcast, port: 38203, tls: true },
            Listener { service: Service::Ecast, port: 80, tls: false },
        ]
    );
}
