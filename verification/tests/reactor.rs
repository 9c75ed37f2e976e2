use gnss_share::config::Config;
use gnss_share::server::{
    classify_client_event, classify_token, Action, ClientEventClass, Event, Server, TokenClass,
    CHUNK_SIZE, SERIAL_TOKEN, TCP_TOKEN, UNIX_TOKEN,
};
use gnss_share::stream::Stream;

fn test_config(no_tcp: bool, socket_path: Option<String>) -> Config {
    Config {
        dev_path: String::from("/dev/ttyUSB0"),
        port: 10110,
        net_iface: None,
        no_tcp,
        socket_path,
        baudrate: 115200,
        daemonize: false,
    }
}

fn server_with_clients(clients: Vec<Stream>) -> Server {
    let mut server = Server::new(test_config(false, None));
    for client in clients {
        assert!(server.add_client(client));
    }
    server
}

#[test]
fn new_server_has_empty_registry() {
    let server = Server::new(test_config(false, None));
    assert_eq!(server.client_count(), 0);
}

#[test]
fn well_known_tokens_are_distinct() {
    assert_eq!(SERIAL_TOKEN, 0);
    assert_eq!(TCP_TOKEN, 1);
    assert_eq!(UNIX_TOKEN, 2);
    assert_eq!(CHUNK_SIZE, 1024);
}

#[test]
fn add_client_registers_fresh_handle() {
    let mut server = Server::new(test_config(false, None));
    assert!(server.add_client(Stream::Unix { fd: 5 }));
    assert_eq!(server.client_count(), 1);
    assert!(server.contains_client(5));
}

#[test]
fn add_client_rejects_duplicate_handle() {
    let mut server = server_with_clients(vec![Stream::Unix { fd: 5 }]);
    assert!(!server.add_client(Stream::Tcp {
        fd: 5,
        peer: String::from("10.0.0.1:2000"),
    }));
    assert_eq!(server.client_count(), 1);
}

#[test]
fn add_client_rejects_well_known_handles() {
    let mut server = Server::new(test_config(false, None));
    assert!(!server.add_client(Stream::Unix { fd: 0 }));
    assert!(!server.add_client(Stream::Unix { fd: 1 }));
    assert!(!server.add_client(Stream::Unix { fd: 2 }));
    assert_eq!(server.client_count(), 0);
}

#[test]
fn remove_client_removes_exactly_the_named_handle() {
    let mut server = server_with_clients(vec![
        Stream::Unix { fd: 5 },
        Stream::Unix { fd: 6 },
        Stream::Unix { fd: 7 },
    ]);
    assert!(server.remove_client(6));
    assert_eq!(server.client_count(), 2);
    assert!(server.contains_client(5));
    assert!(!server.contains_client(6));
    assert!(server.contains_client(7));
}

#[test]
fn remove_absent_client_is_a_noop() {
    let mut server = server_with_clients(vec![Stream::Unix { fd: 5 }]);
    assert!(!server.remove_client(99));
    assert_eq!(server.client_count(), 1);
    assert!(server.contains_client(5));
}

#[test]
fn remove_client_twice_is_a_noop_the_second_time() {
    let mut server = server_with_clients(vec![Stream::Unix { fd: 5 }]);
    assert!(server.remove_client(5));
    assert!(!server.remove_client(5));
    assert_eq!(server.client_count(), 0);
}

#[test]
fn broadcast_targets_lists_handles_in_registry_order() {
    let server = server_with_clients(vec![
        Stream::Unix { fd: 9 },
        Stream::Tcp {
            fd: 4,
            peer: String::from("10.0.0.1:2000"),
        },
        Stream::Unix { fd: 7 },
    ]);
    assert_eq!(server.broadcast_targets(), vec![9, 4, 7]);
}

#[test]
fn device_chunk_is_broadcast_verbatim_to_all_clients() {
    let mut server = server_with_clients(vec![Stream::Unix { fd: 5 }, Stream::Unix { fd: 6 }]);
    let chunk = b"$GPGGA,123519,4807.038,N,01131.000,E,1,08,0.9,545.4,M*47\r\n".to_vec();
    let action = server.dispatch(Event::DeviceData {
        data: chunk.clone(),
    });
    assert_eq!(
        action,
        Action::Broadcast {
            data: chunk,
            targets: vec![5, 6],
        }
    );
    assert_eq!(server.client_count(), 2);
}

#[test]
fn empty_device_read_is_no_data_yet_not_end_of_stream() {
    let mut server = server_with_clients(vec![Stream::Unix { fd: 5 }]);
    let action = server.dispatch(Event::DeviceData { data: Vec::new() });
    assert_eq!(action, Action::Ignore);
    assert_eq!(server.client_count(), 1);
}

#[test]
fn accepted_connection_is_admitted_and_registered() {
    let mut server = Server::new(test_config(false, None));
    let action = server.dispatch(Event::Accepted {
        client: Stream::Tcp {
            fd: 12,
            peer: String::from("192.168.1.20:40000"),
        },
    });
    assert_eq!(action, Action::Register { fd: 12 });
    assert!(server.contains_client(12));
}

#[test]
fn accepted_duplicate_handle_is_not_admitted() {
    let mut server = server_with_clients(vec![Stream::Unix { fd: 12 }]);
    let action = server.dispatch(Event::Accepted {
        client: Stream::Unix { fd: 12 },
    });
    assert_eq!(action, Action::Ignore);
    assert_eq!(server.client_count(), 1);
}

#[test]
fn client_bytes_are_forwarded_verbatim_to_the_device() {
    let mut server = server_with_clients(vec![Stream::Unix { fd: 5 }]);
    let sent = b"$PMTK001,1,1*32\r\n".to_vec();
    let action = server.dispatch(Event::ClientData {
        fd: 5,
        data: sent.clone(),
    });
    assert_eq!(action, Action::ForwardToDevice { data: sent });
    assert_eq!(server.client_count(), 1);
}

#[test]
fn zero_length_client_read_removes_the_client() {
    let mut server = server_with_clients(vec![Stream::Unix { fd: 5 }, Stream::Unix { fd: 6 }]);
    let action = server.dispatch(Event::ClientData {
        fd: 5,
        data: Vec::new(),
    });
    assert_eq!(action, Action::Deregister { fd: 5 });
    assert!(!server.contains_client(5));
    assert!(server.contains_client(6));
}

#[test]
fn client_close_event_removes_the_client_once() {
    let mut server = server_with_clients(vec![Stream::Unix { fd: 5 }]);
    assert_eq!(
        server.dispatch(Event::ClientClosed { fd: 5 }),
        Action::Deregister { fd: 5 }
    );
    assert_eq!(
        server.dispatch(Event::ClientClosed { fd: 5 }),
        Action::Ignore
    );
    assert_eq!(server.client_count(), 0);
}

#[test]
fn data_from_an_unknown_client_is_ignored() {
    let mut server = server_with_clients(vec![Stream::Unix { fd: 5 }]);
    let action = server.dispatch(Event::ClientData {
        fd: 99,
        data: b"x".to_vec(),
    });
    assert_eq!(action, Action::Ignore);
    assert_eq!(server.client_count(), 1);
}

#[test]
fn removed_client_is_not_a_broadcast_target() {
    let mut server = server_with_clients(vec![Stream::Unix { fd: 5 }, Stream::Unix { fd: 6 }]);
    server.dispatch(Event::ClientClosed { fd: 5 });
    let action = server.dispatch(Event::DeviceData {
        data: b"abc".to_vec(),
    });
    assert_eq!(
        action,
        Action::Broadcast {
            data: b"abc".to_vec(),
            targets: vec![6],
        }
    );
}

#[test]
fn scenario_device_line_reaches_both_tcp_clients_in_one_delivery() {
    let mut server = server_with_clients(vec![
        Stream::Tcp {
            fd: 10,
            peer: String::from("192.168.1.20:40000"),
        },
        Stream::Tcp {
            fd: 11,
            peer: String::from("192.168.1.21:40001"),
        },
    ]);
    let line = b"$GPGGA,1,2,3\r\n".to_vec();
    let action = server.dispatch(Event::DeviceData {
        data: line.clone(),
    });
    assert_eq!(
        action,
        Action::Broadcast {
            data: line,
            targets: vec![10, 11],
        }
    );
}

#[test]
fn scenario_unix_client_line_reaches_device_unmodified() {
    let mut server = server_with_clients(vec![Stream::Unix { fd: 8 }]);
    let line = b"$PMTK001,1,1*32\r\n".to_vec();
    let action = server.dispatch(Event::ClientData {
        fd: 8,
        data: line.clone(),
    });
    assert_eq!(action, Action::ForwardToDevice { data: line });
}

#[test]
fn scenario_fin_mid_session_removes_client_without_affecting_delivery() {
    let mut server = server_with_clients(vec![
        Stream::Tcp {
            fd: 10,
            peer: String::from("192.168.1.20:40000"),
        },
        Stream::Tcp {
            fd: 11,
            peer: String::from("192.168.1.21:40001"),
        },
    ]);
    let chunk = b"$GPRMC,0,A*0B\r\n".to_vec();
    let actions = server.handle_events(vec![
        Event::ClientData {
            fd: 10,
            data: Vec::new(),
        },
        Event::DeviceData {
            data: chunk.clone(),
        },
    ]);
    assert_eq!(
        actions,
        vec![
            Action::Deregister { fd: 10 },
            Action::Broadcast {
                data: chunk,
                targets: vec![11],
            },
        ]
    );
    assert!(!server.contains_client(10));
    assert!(server.contains_client(11));
}

#[test]
fn scenario_no_listeners_device_still_drained_and_data_discarded() {
    let config = test_config(true, None);
    let plan = config.listener_plan();
    assert!(!plan.bind_tcp);
    assert!(!plan.bind_unix);
    let mut server = Server::new(config);
    let action = server.dispatch(Event::DeviceData {
        data: b"$GPGGA,1,2,3\r\n".to_vec(),
    });
    assert_eq!(
        action,
        Action::Broadcast {
            data: b"$GPGGA,1,2,3\r\n".to_vec(),
            targets: Vec::new(),
        }
    );
}

#[test]
fn removal_completes_before_later_events_in_the_same_batch() {
    let mut server = server_with_clients(vec![Stream::Unix { fd: 5 }]);
    let actions = server.handle_events(vec![
        Event::ClientClosed { fd: 5 },
        Event::ClientData {
            fd: 5,
            data: b"late".to_vec(),
        },
    ]);
    assert_eq!(actions, vec![Action::Deregister { fd: 5 }, Action::Ignore]);
    assert_eq!(server.client_count(), 0);
}

#[test]
fn batch_dispatch_returns_one_action_per_event() {
    let mut server = server_with_clients(vec![Stream::Unix { fd: 5 }]);
    let actions = server.handle_events(vec![
        Event::DeviceData { data: Vec::new() },
        Event::Accepted {
            client: Stream::Unix { fd: 6 },
        },
        Event::ClientData {
            fd: 6,
            data: b"hi".to_vec(),
        },
    ]);
    assert_eq!(
        actions,
        vec![
            Action::Ignore,
            Action::Register { fd: 6 },
            Action::ForwardToDevice {
                data: b"hi".to_vec(),
            },
        ]
    );
    assert_eq!(server.client_count(), 2);
}

#[test]
fn token_classification_matches_handle_identity() {
    assert_eq!(classify_token(0), TokenClass::Device);
    assert_eq!(classify_token(1), TokenClass::TcpListener);
    assert_eq!(classify_token(2), TokenClass::UnixListener);
    assert_eq!(classify_token(3), TokenClass::Client);
    assert_eq!(classify_token(4096), TokenClass::Client);
}

#[test]
fn client_event_classification_prefers_close_over_read() {
    assert_eq!(
        classify_client_event(true, false, false, true),
        ClientEventClass::Close
    );
    assert_eq!(
        classify_client_event(false, true, false, false),
        ClientEventClass::Close
    );
    assert_eq!(
        classify_client_event(false, false, true, true),
        ClientEventClass::Close
    );
    assert_eq!(
        classify_client_event(false, false, false, true),
        ClientEventClass::Read
    );
    assert_eq!(
        classify_client_event(false, false, false, false),
        ClientEventClass::Skip
    );
}
