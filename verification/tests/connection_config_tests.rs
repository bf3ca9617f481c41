use cargosos_bitcoin::configurations::connection_config::ConnectionConfig;
use cargosos_bitcoin::configurations::error_configuration::ErrorConfiguration;
use cargosos_bitcoin::configurations::parsable::{parse_structure, Parsable};
use cargosos_bitcoin::connections::dns_seeder::DNSSeeder;
use cargosos_bitcoin::connections::ibd_methods::IBDMethod;
use cargosos_bitcoin::connections::p2p_protocol::ProtocolVersionP2P;
use cargosos_bitcoin::connections::supported_services::SupportedServices;
use cargosos_bitcoin::messages::bitfield_services::BitfieldServices;

#[test]
fn test01_accept_valid_input() {
    let configuration = "connection {
            dns_seeder {
                seed = seed.testnet.bitcoin.sprovoost.nl
                port = 18333
            }
            p2p_protocol_version = V70015
            ibd_method = HeaderFirst
            peer_count_max = 8
            block_height = 0
            services = [Unname]
            magic_numbers = [1, 2, 3, 4]
            nonce = 0
            user_agent = Tanto tiempo
            relay = true
        }";

    let name = "connection";
    let map = parse_structure(configuration.to_string()).unwrap();

    let connection_result = ConnectionConfig::parse(name, &map);

    let config_connection = ConnectionConfig {
        dns_seeder: DNSSeeder {
            dns_addr: "seed.testnet.bitcoin.sprovoost.nl".to_string(),
            port_number: 18333,
        },
        p2p_protocol_version: ProtocolVersionP2P::V70015,
        ibd_method: IBDMethod::HeaderFirst,
        peer_count_max: 8,
        block_height: 0,
        services: BitfieldServices { elements: vec![SupportedServices::Unname] },
        magic_numbers: [1, 2, 3, 4],
        nonce: 0,
        user_agent: "Tanto tiempo".to_string(),
        relay: true,
    };

    assert_eq!(Ok(config_connection), connection_result);
}

#[test]
fn test02_accepts_input_with_empty_spaces() {
    let configuration = "connection {
            dns_seeder {
                seed = seed.testnet.bitcoin.sprovoost.nl
                             port = 18333
        }
                      p2p_protocol_version = V70015
            ibd_method=                                 HeaderFirst
            peer_count_max = 8
            block_height = 0
            services = [Unname]
            magic_numbers = [1, 2, 3, 4]
            nonce = 0
            user_agent = Tanto tiempo
            relay = true
        }";

    let name = "connection";
    let map = parse_structure(configuration.to_string()).unwrap();

    let connection_result = ConnectionConfig::parse(name, &map);

    let config_connection = ConnectionConfig {
        dns_seeder: DNSSeeder {
            dns_addr: "seed.testnet.bitcoin.sprovoost.nl".to_string(),
            port_number: 18333,
        },
        p2p_protocol_version: ProtocolVersionP2P::V70015,
        ibd_method: IBDMethod::HeaderFirst,
        peer_count_max: 8,
        block_height: 0,
        services: BitfieldServices { elements: vec![SupportedServices::Unname] },
        magic_numbers: [1, 2, 3, 4],
        nonce: 0,
        user_agent: "Tanto tiempo".to_string(),
        relay: true,
    };

    assert_eq!(Ok(config_connection), connection_result);
}

#[test]
fn test03_does_not_accept_input_with_missing_values() {
    let configuration = "connection {
            dns_seeder {
                seed = seed.testnet.bitcoin.sprovoost.nl
                port = 18333
            }
            p2p_protocol_version = V70015
            peer_count_max = 8
            block_height = 0
            services = [Unname]
            magic_numbers = [1, 2, 3, 4]
            nonce = 0
            user_agent = Tanto tiempo
            relay = true
        }";

    let name = "connection";
    let map = parse_structure(configuration.to_string()).unwrap();

    let connection_result = ConnectionConfig::parse(name, &map);

    assert_eq!(Err(ErrorConfiguration::ValueNotFound), connection_result);
}

#[test]
fn test04_accept_input_with_duplicate_value() {
    let configuration = "connection {
            dns_seeder {
                seed = seed.testnet.bitcoin.sprovoost.nl
                port = 18333
            }
            p2p_protocol_version = V70015
            ibd_method = HeaderFirst
            ibd_method = HeaderFirst
            peer_count_max = 8
            block_height = 0
            services = [Unname]
            magic_numbers = [1, 2, 3, 4]
        }";

    let name = "connection";
    let map = parse_structure(configuration.to_string()).unwrap();

    let connection_result = ConnectionConfig::parse(name, &map);

    let config_connection = ConnectionConfig {
        dns_seeder: DNSSeeder {
            dns_addr: "seed.testnet.bitcoin.sprovoost.nl".to_string(),
            port_number: 18333,
        },
        p2p_protocol_version: ProtocolVersionP2P::V70015,
        ibd_method: IBDMethod::HeaderFirst,
        peer_count_max: 8,
        block_height: 0,
        services: BitfieldServices { elements: vec![SupportedServices::Unname] },
        magic_numbers: [1, 2, 3, 4],
        nonce: 0,
        user_agent: "Tanto tiempo".to_string(),
        relay: true,
    };

    assert_eq!(Ok(config_connection), connection_result);
}

#[test]
fn test05_does_not_accept_input_with_not_information() {
    let configuration = "";

    let name = "connection";
    let map = parse_structure(configuration.to_string()).unwrap();

    let connection_result = ConnectionConfig::parse(name, &map);

    assert_eq!(Err(ErrorConfiguration::ValueNotFound), connection_result);
}
