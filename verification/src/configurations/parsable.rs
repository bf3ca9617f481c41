use vstd::prelude::*;

use super::error_configuration::ErrorConfiguration;
use crate::serialization::primitives::bytes_equal;

verus! {

/// A configuration key.
pub type Key = String;

/// A configuration value, possibly a whole nested group.
pub type Value = String;

/// The options read out of a configuration text, in reading order; a later
/// entry under the same key wins.
#[derive(Debug, Clone)]
pub struct KeyValueMap {
    pub entries: Vec<(String, String)>,
}

/// The map the entry list stands for.
pub open spec fn key_value_view(entries: Seq<(String, String)>) -> Map<Seq<char>, Seq<char>>
    decreases entries.len(),
{
    if entries.len() == 0 {
        Map::empty()
    } else {
        key_value_view(entries.drop_last()).insert(entries.last().0@, entries.last().1@)
    }
}

impl KeyValueMap {
    /// An empty option map.
    pub fn new() -> (r: KeyValueMap)
        ensures
            r.entries@.len() == 0,
    {
        KeyValueMap { entries: Vec::new() }
    }

    /// Remembers one option; a later entry under the same key wins.
    pub fn insert(&mut self, key: String, value: String)
        ensures
            final(self).entries@ == old(self).entries@.push((key, value)),
    {
        self.entries.push((key, value));
    }
}

/// The value under a key: the latest entry with that key, or `ValueNotFound`
/// when there is none.
pub fn value_from_map(key: Key, map: &KeyValueMap) -> (r: Result<Value, ErrorConfiguration>)
    ensures
        (r matches Ok(v) ==> key_value_view(map.entries@).contains_key(key@) && v@
            == key_value_view(map.entries@)[key@]),
        (r is Err ==> !key_value_view(map.entries@).contains_key(key@) && r == Err::<
            Value,
            ErrorConfiguration,
        >(ErrorConfiguration::ValueNotFound)),
{
    let mut i: usize = map.entries.len();
    proof {
        assert(map.entries@.take(map.entries@.len() as int) =~= map.entries@);
    }
    while i > 0
        invariant
            i <= map.entries@.len(),
            key_value_view(map.entries@).contains_key(key@) ==> key_value_view(
                map.entries@.take(i as int),
            ).contains_key(key@),
            key_value_view(map.entries@.take(i as int)).contains_key(key@) ==> key_value_view(
                map.entries@,
            ).contains_key(key@) && key_value_view(map.entries@.take(i as int))[key@]
                == key_value_view(map.entries@)[key@],
        decreases i,
    {
        i = i - 1;
        proof {
            assert(map.entries@.take(i + 1).drop_last() =~= map.entries@.take(i as int));
        }
        if bytes_equal(map.entries[i].0.as_str().as_bytes(), key.as_str().as_bytes()) {
            proof {
                vstd::utf8::encode_utf8_decode_utf8(map.entries@[i as int].0@);
                vstd::utf8::encode_utf8_decode_utf8(key@);
                assert(map.entries@[i as int].0@ == key@);
                assert(key_value_view(map.entries@.take(i + 1)).contains_key(key@));
                assert(key_value_view(map.entries@.take(i + 1))[key@] == map.entries@[
                i as int].1@);
            }
            let value = map.entries[i].1.clone();
            proof {
                assert(value@ == map.entries@[i as int].1@);
            }
            return Ok(value);
        }
        proof {
            if key_value_view(map.entries@.take(i + 1)).contains_key(key@) {
                if map.entries@[i as int].0@ == key@ {
                    assert(false);
                }
                assert(key_value_view(map.entries@.take(i as int)).contains_key(key@));
            }
        }
    }
    proof {
        assert(map.entries@.take(0) =~= Seq::<(String, String)>::empty());
    }
    Err(ErrorConfiguration::ValueNotFound)
}

/// A value that the configuration text can name.
pub trait Parsable: Sized {
    /// Reads the value stored under `name`.
    fn parse(name: &str, map: &KeyValueMap) -> Result<Self, ErrorConfiguration>;
}

/// Splits a configuration text into its options: keys and values alternate,
/// separated by assignment signs and the line ends that close assignments;
/// braces keep a whole nested group together as one value.
pub fn parse_structure(value: Value) -> (r: Result<KeyValueMap, ErrorConfiguration>)
    ensures
        r is Ok,
{
    let bytes = value.as_str().as_bytes();
    let mut tokens: Vec<Vec<u8>> = Vec::new();
    let mut current: Vec<u8> = Vec::new();
    let mut group_count: u64 = 0;
    let mut assignment = false;
    let mut i: usize = 0;
    while i < bytes.len()
        decreases bytes@.len() - i,
    {
        let byte = bytes[i];
        let mut split = false;
        if byte == 123 {
            // an opening brace
            if group_count == 0 {
                split = true;
            }
            if group_count < u64::MAX {
                group_count = group_count + 1;
            }
        } else if byte == 125 {
            // a closing brace
            if group_count == 0 {
                split = true;
            } else if group_count == 1 {
                group_count = 0;
                split = true;
            } else {
                group_count = group_count - 1;
            }
        } else if byte == 10 {
            // a line end
            if group_count == 0 && assignment {
                assignment = false;
                split = true;
            }
        } else if byte == 61 {
            // an assignment sign
            if group_count == 0 {
                assignment = true;
                split = true;
            }
        }
        if split {
            tokens.push(current);
            current = Vec::new();
        } else {
            current.push(byte);
        }
        i = i + 1;
    }
    tokens.push(current);
    let mut map = KeyValueMap::new();
    let mut k: usize = 0;
    while k < tokens.len()
        decreases tokens@.len() - k,
    {
        if k % 2 == 0 && k + 1 < tokens.len() {
            let key = trimmed_text(&tokens[k]);
            let value_text = trimmed_text(&tokens[k + 1]);
            match (key, value_text) {
                (Some(key), Some(value_text)) => {
                    map.insert(key, value_text);
                },
                _ => {},
            }
        }
        k = k + 1;
    }
    Ok(map)
}

/// The text of a token with the blank bytes around it dropped; `None` when
/// the bytes are not text.
fn trimmed_text(token: &Vec<u8>) -> (r: Option<String>) {
    let mut start: usize = 0;
    let mut end: usize = token.len();
    while start < end && is_blank(token[start])
        invariant
            start <= end <= token@.len(),
        decreases end - start,
    {
        start = start + 1;
    }
    while end > start && is_blank(token[end - 1])
        invariant
            start <= end <= token@.len(),
        decreases end,
    {
        end = end - 1;
    }
    let mut trimmed: Vec<u8> = Vec::new();
    let mut i: usize = start;
    while i < end
        invariant
            start <= i <= end <= token@.len(),
        decreases end - i,
    {
        trimmed.push(token[i]);
        i = i + 1;
    }
    crate::serialization::deserializable_fix_size::string_from_utf8(trimmed)
}

/// Whether a byte is a space or other layout byte.
fn is_blank(byte: u8) -> (r: bool) {
    byte == 32 || byte == 9 || byte == 13 || byte == 10
}

/// The number a run of decimal digits denotes.
pub open spec fn digits_value(digits: Seq<u8>) -> nat
    decreases digits.len(),
{
    if digits.len() == 0 {
        0
    } else {
        digits_value(digits.drop_last()) * 10 + (if 48 <= digits.last() <= 57 {
            (digits.last() - 48) as nat
        } else {
            0
        })
    }
}

/// Reads an unsigned decimal number; text that is not all digits, is empty,
/// or denotes more than 64 bits hold is refused.
pub fn parse_u64_digits(digits: &[u8]) -> (r: Option<u64>) {
    if digits.len() == 0 {
        return None;
    }
    let mut acc: u64 = 0;
    let mut i: usize = 0;
    while i < digits.len()
        invariant
            i <= digits@.len(),
        decreases digits@.len() - i,
    {
        let byte = digits[i];
        if byte < 48 || byte > 57 {
            return None;
        }
        let digit = (byte - 48) as u64;
        if acc > (u64::MAX - digit) / 10 {
            return None;
        }
        acc = acc * 10 + digit;
        i = i + 1;
    }
    Some(acc)
}

impl Parsable for String {
    fn parse(name: &str, map: &KeyValueMap) -> Result<String, ErrorConfiguration> {
        value_from_map(name.to_owned(), map)
    }
}

impl Parsable for bool {
    fn parse(name: &str, map: &KeyValueMap) -> Result<bool, ErrorConfiguration> {
        let text = value_from_map(name.to_owned(), map)?;
        if bytes_equal(text.as_str().as_bytes(), "true".as_bytes()) {
            Ok(true)
        } else if bytes_equal(text.as_str().as_bytes(), "false".as_bytes()) {
            Ok(false)
        } else {
            Err(ErrorConfiguration::ErrorCantParseValue(text))
        }
    }
}

impl Parsable for u64 {
    fn parse(name: &str, map: &KeyValueMap) -> Result<u64, ErrorConfiguration> {
        let text = value_from_map(name.to_owned(), map)?;
        match parse_u64_digits(text.as_str().as_bytes()) {
            Some(value) => Ok(value),
            None => Err(ErrorConfiguration::ErrorCantParseValue(text)),
        }
    }
}

impl Parsable for u32 {
    fn parse(name: &str, map: &KeyValueMap) -> Result<u32, ErrorConfiguration> {
        let value = u64::parse(name, map)?;
        if value <= u32::MAX as u64 {
            Ok(value as u32)
        } else {
            Err(ErrorConfiguration::ErrorCantParseValue("over 32 bits".to_string()))
        }
    }
}

impl Parsable for u16 {
    fn parse(name: &str, map: &KeyValueMap) -> Result<u16, ErrorConfiguration> {
        let value = u64::parse(name, map)?;
        if value <= u16::MAX as u64 {
            Ok(value as u16)
        } else {
            Err(ErrorConfiguration::ErrorCantParseValue("over 16 bits".to_string()))
        }
    }
}

impl Parsable for u8 {
    fn parse(name: &str, map: &KeyValueMap) -> Result<u8, ErrorConfiguration> {
        let value = u64::parse(name, map)?;
        if value <= u8::MAX as u64 {
            Ok(value as u8)
        } else {
            Err(ErrorConfiguration::ErrorCantParseValue("over 8 bits".to_string()))
        }
    }
}

impl Parsable for usize {
    fn parse(name: &str, map: &KeyValueMap) -> Result<usize, ErrorConfiguration> {
        let value = u64::parse(name, map)?;
        if value <= usize::MAX as u64 {
            Ok(value as usize)
        } else {
            Err(ErrorConfiguration::ErrorCantParseValue("over this machine".to_string()))
        }
    }
}

impl Parsable for i32 {
    fn parse(name: &str, map: &KeyValueMap) -> Result<i32, ErrorConfiguration> {
        let text = value_from_map(name.to_owned(), map)?;
        let bytes = text.as_str().as_bytes();
        if bytes.len() > 0 && bytes[0] == 45 {
            let magnitude = match parse_u64_digits(
                vstd::slice::slice_subrange(bytes, 1, bytes.len()),
            ) {
                Some(magnitude) => magnitude,
                None => {
                    return Err(ErrorConfiguration::ErrorCantParseValue(text));
                },
            };
            if magnitude <= 0x8000_0000u64 {
                Ok((-(magnitude as i64)) as i32)
            } else {
                Err(ErrorConfiguration::ErrorCantParseValue(text))
            }
        } else {
            let magnitude = match parse_u64_digits(bytes) {
                Some(magnitude) => magnitude,
                None => {
                    return Err(ErrorConfiguration::ErrorCantParseValue(text));
                },
            };
            if magnitude <= i32::MAX as u64 {
                Ok(magnitude as i32)
            } else {
                Err(ErrorConfiguration::ErrorCantParseValue(text))
            }
        }
    }
}

impl<V: Parsable> Parsable for Option<V> {
    fn parse(name: &str, map: &KeyValueMap) -> Result<Option<V>, ErrorConfiguration> {
        match V::parse(name, map) {
            Ok(value) => Ok(Some(value)),
            Err(error) => {
                if matches!(error, ErrorConfiguration::ValueNotFound) {
                    Ok(None)
                } else {
                    Err(error)
                }
            },
        }
    }
}

} // verus!
