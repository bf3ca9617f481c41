use vstd::prelude::*;

use super::error_configuration::ErrorConfiguration;
use super::parsable::{parse_structure, value_from_map, KeyValueMap, Parsable};
use crate::connections::dns_seeder::DNSSeeder;
use crate::connections::ibd_methods::IBDMethod;
use crate::connections::p2p_protocol::ProtocolVersionP2P;
use crate::connections::supported_services::SupportedServices;
use crate::messages::bitfield_services::BitfieldServices;
use crate::messages::message_header::MagicType;
use crate::serialization::primitives::bytes_equal;

verus! {

/// Everything the connection layer is configured with.
#[derive(Debug, Clone, PartialEq, Eq)]
pub struct ConnectionConfig {
    pub dns_seeder: DNSSeeder,
    pub p2p_protocol_version: ProtocolVersionP2P,
    pub ibd_method: IBDMethod,
    pub peer_count_max: usize,
    pub block_height: i32,
    pub services: BitfieldServices,
    pub magic_numbers: MagicType,
    pub nonce: u64,
    pub user_agent: String,
    pub relay: bool,
}

impl Parsable for DNSSeeder {
    fn parse(name: &str, map: &KeyValueMap) -> Result<DNSSeeder, ErrorConfiguration> {
        let group = value_from_map(name.to_owned(), map)?;
        let inner = parse_structure(group)?;
        let dns_addr = String::parse("seed", &inner)?;
        let port_number = u16::parse("port", &inner)?;
        Ok(DNSSeeder { dns_addr, port_number })
    }
}

impl Parsable for ProtocolVersionP2P {
    fn parse(name: &str, map: &KeyValueMap) -> Result<ProtocolVersionP2P, ErrorConfiguration> {
        let text = value_from_map(name.to_owned(), map)?;
        let bytes = text.as_str().as_bytes();
        if bytes.len() < 2 || bytes[0] != 86 {
            return Err(ErrorConfiguration::ErrorCantParseValue(text));
        }
        let number = match super::parsable::parse_u64_digits(
            vstd::slice::slice_subrange(bytes, 1, bytes.len()),
        ) {
            Some(number) => number,
            None => {
                return Err(ErrorConfiguration::ErrorCantParseValue(text));
            },
        };
        if number > i32::MAX as u64 {
            return Err(ErrorConfiguration::ErrorCantParseValue(text));
        }
        match ProtocolVersionP2P::from_i32(number as i32) {
            Ok(version) => Ok(version),
            Err(_) => Err(ErrorConfiguration::ErrorCantParseValue(text)),
        }
    }
}

impl Parsable for IBDMethod {
    fn parse(name: &str, map: &KeyValueMap) -> Result<IBDMethod, ErrorConfiguration> {
        let text = value_from_map(name.to_owned(), map)?;
        if bytes_equal(text.as_str().as_bytes(), "HeaderFirst".as_bytes()) {
            Ok(IBDMethod::HeaderFirst)
        } else if bytes_equal(text.as_str().as_bytes(), "BlocksFirst".as_bytes()) {
            Ok(IBDMethod::BlocksFirst)
        } else {
            Err(ErrorConfiguration::ErrorCantParseValue(text))
        }
    }
}

impl Parsable for SupportedServices {
    fn parse(name: &str, map: &KeyValueMap) -> Result<SupportedServices, ErrorConfiguration> {
        let text = value_from_map(name.to_owned(), map)?;
        match supported_service_of_text(text.as_str()) {
            Some(service) => Ok(service),
            None => Err(ErrorConfiguration::ErrorCantParseValue(text)),
        }
    }
}

/// The service a configuration word names, when it names one.
pub fn supported_service_of_text(text: &str) -> (r: Option<SupportedServices>) {
    let bytes = text.as_bytes();
    if bytes_equal(bytes, "Unname".as_bytes()) {
        Some(SupportedServices::Unname)
    } else if bytes_equal(bytes, "NodeNetwork".as_bytes()) {
        Some(SupportedServices::NodeNetwork)
    } else if bytes_equal(bytes, "NodeGetUTXO".as_bytes()) {
        Some(SupportedServices::NodeGetUTXO)
    } else if bytes_equal(bytes, "NodeBloom".as_bytes()) {
        Some(SupportedServices::NodeBloom)
    } else if bytes_equal(bytes, "NodeWitness".as_bytes()) {
        Some(SupportedServices::NodeWitness)
    } else if bytes_equal(bytes, "NodeXthin".as_bytes()) {
        Some(SupportedServices::NodeXthin)
    } else if bytes_equal(bytes, "NodeNetworkLimited".as_bytes()) {
        Some(SupportedServices::NodeNetworkLimited)
    } else {
        None
    }
}

/// The comma-separated words of a bracketed list, trimmed.
fn bracketed_words(text: &str) -> (r: Option<Vec<String>>) {
    let bytes = text.as_bytes();
    if bytes.len() < 2 || bytes[0] != 91 || bytes[bytes.len() - 1] != 93 {
        return None;
    }
    let mut words: Vec<String> = Vec::new();
    let mut current: Vec<u8> = Vec::new();
    let mut i: usize = 1;
    while i < bytes.len() - 1
        invariant
            bytes@.len() >= 2,
            1 <= i <= bytes@.len(),
        decreases bytes@.len() - i,
    {
        let byte = bytes[i];
        if byte == 44 {
            match trimmed_word(&current) {
                Some(word) => {
                    words.push(word);
                },
                None => {
                    return None;
                },
            }
            current = Vec::new();
        } else {
            current.push(byte);
        }
        i = i + 1;
    }
    match trimmed_word(&current) {
        Some(word) => {
            words.push(word);
        },
        None => {
            return None;
        },
    }
    Some(words)
}

/// One word with the blank bytes around it dropped.
fn trimmed_word(raw: &Vec<u8>) -> (r: Option<String>) {
    let mut start: usize = 0;
    let mut end: usize = raw.len();
    while start < end && (raw[start] == 32 || raw[start] == 9 || raw[start] == 13 || raw[start]
        == 10)
        invariant
            start <= end <= raw@.len(),
        decreases end - start,
    {
        start = start + 1;
    }
    while end > start && (raw[end - 1] == 32 || raw[end - 1] == 9 || raw[end - 1] == 13 || raw[end
        - 1] == 10)
        invariant
            start <= end <= raw@.len(),
        decreases end,
    {
        end = end - 1;
    }
    let mut out: Vec<u8> = Vec::new();
    let mut i: usize = start;
    while i < end
        invariant
            start <= i <= end <= raw@.len(),
        decreases end - i,
    {
        out.push(raw[i]);
        i = i + 1;
    }
    crate::serialization::deserializable_fix_size::string_from_utf8(out)
}

impl Parsable for BitfieldServices {
    fn parse(name: &str, map: &KeyValueMap) -> Result<BitfieldServices, ErrorConfiguration> {
        let text = value_from_map(name.to_owned(), map)?;
        let words = match bracketed_words(text.as_str()) {
            Some(words) => words,
            None => {
                return Err(ErrorConfiguration::ErrorCantParseValue(text));
            },
        };
        let mut elements: Vec<SupportedServices> = Vec::new();
        let mut i: usize = 0;
        while i < words.len()
            decreases words@.len() - i,
        {
            match supported_service_of_text(words[i].as_str()) {
                Some(service) => {
                    elements.push(service);
                },
                None => {
                    return Err(ErrorConfiguration::ErrorCantParseValue(text));
                },
            }
            i = i + 1;
        }
        Ok(BitfieldServices { elements })
    }
}

impl Parsable for MagicType {
    fn parse(name: &str, map: &KeyValueMap) -> Result<MagicType, ErrorConfiguration> {
        let text = value_from_map(name.to_owned(), map)?;
        let words = match bracketed_words(text.as_str()) {
            Some(words) => words,
            None => {
                return Err(ErrorConfiguration::ErrorCantParseValue(text));
            },
        };
        if words.len() != 4 {
            return Err(ErrorConfiguration::ErrorCantParseValue(text));
        }
        let mut numbers: Vec<u8> = Vec::new();
        let mut i: usize = 0;
        while i < words.len()
            invariant
                numbers@.len() == i,
                i <= words@.len(),
            decreases words@.len() - i,
        {
            match super::parsable::parse_u64_digits(words[i].as_str().as_bytes()) {
                Some(number) => {
                    if number > u8::MAX as u64 {
                        return Err(ErrorConfiguration::ErrorCantParseValue(text));
                    }
                    numbers.push(number as u8);
                },
                None => {
                    return Err(ErrorConfiguration::ErrorCantParseValue(text));
                },
            }
            i = i + 1;
        }
        if numbers.len() == 4 {
            Ok([numbers[0], numbers[1], numbers[2], numbers[3]])
        } else {
            Err(ErrorConfiguration::ErrorCantParseValue(text))
        }
    }
}

impl Parsable for ConnectionConfig {
    fn parse(name: &str, map: &KeyValueMap) -> Result<ConnectionConfig, ErrorConfiguration> {
        let group = value_from_map(name.to_owned(), map)?;
        let inner = parse_structure(group)?;
        let nonce = match Option::<u64>::parse("nonce", &inner)? {
            Some(nonce) => nonce,
            None => 0,
        };
        let user_agent = match Option::<String>::parse("user_agent", &inner)? {
            Some(user_agent) => user_agent,
            None => "Tanto tiempo".to_string(),
        };
        let relay = match Option::<bool>::parse("relay", &inner)? {
            Some(relay) => relay,
            None => true,
        };
        Ok(
            ConnectionConfig {
                dns_seeder: DNSSeeder::parse("dns_seeder", &inner)?,
                p2p_protocol_version: ProtocolVersionP2P::parse("p2p_protocol_version", &inner)?,
                ibd_method: IBDMethod::parse("ibd_method", &inner)?,
                peer_count_max: usize::parse("peer_count_max", &inner)?,
                block_height: i32::parse("block_height", &inner)?,
                services: BitfieldServices::parse("services", &inner)?,
                magic_numbers: MagicType::parse("magic_numbers", &inner)?,
                nonce,
                user_agent,
                relay,
            },
        )
    }
}

} // verus!
