use vstd::prelude::*;

use crate::serialization::deserializable_internal_order::{read_array, DeserializableInternalOrder};
use crate::serialization::error_serialization::ErrorSerialization;
use crate::serialization::serializable_internal_order::{write_array, SerializableInternalOrder};

verus! {

/// The command a message frame announces: twelve ASCII bytes, the name
/// padded with zero bytes.
#[derive(Debug, Clone, Copy, PartialEq, Eq, Structural)]
pub enum CommandName {
    Version,
    Verack,
    GetHeaders,
    Headers,
    Inventory,
    Block,
    Ping,
    Pong,
    SendHeaders,
    SendCmpct,
    Addr,
    FeeFilter,
    GetData,
    Alert,
    Tx,
}

/// The twelve wire bytes of each command name.
pub open spec fn command_name_bytes(name: CommandName) -> Seq<u8> {
    match name {
        CommandName::Version => seq![118u8, 101u8, 114u8, 115u8, 105u8, 111u8, 110u8, 0u8, 0u8, 0u8, 0u8, 0u8],
        CommandName::Verack => seq![118u8, 101u8, 114u8, 97u8, 99u8, 107u8, 0u8, 0u8, 0u8, 0u8, 0u8, 0u8],
        CommandName::GetHeaders => seq![103u8, 101u8, 116u8, 104u8, 101u8, 97u8, 100u8, 101u8, 114u8, 115u8, 0u8, 0u8],
        CommandName::Headers => seq![104u8, 101u8, 97u8, 100u8, 101u8, 114u8, 115u8, 0u8, 0u8, 0u8, 0u8, 0u8],
        CommandName::Inventory => seq![105u8, 110u8, 118u8, 0u8, 0u8, 0u8, 0u8, 0u8, 0u8, 0u8, 0u8, 0u8],
        CommandName::Block => seq![98u8, 108u8, 111u8, 99u8, 107u8, 0u8, 0u8, 0u8, 0u8, 0u8, 0u8, 0u8],
        CommandName::Ping => seq![112u8, 105u8, 110u8, 103u8, 0u8, 0u8, 0u8, 0u8, 0u8, 0u8, 0u8, 0u8],
        CommandName::Pong => seq![112u8, 111u8, 110u8, 103u8, 0u8, 0u8, 0u8, 0u8, 0u8, 0u8, 0u8, 0u8],
        CommandName::SendHeaders => seq![115u8, 101u8, 110u8, 100u8, 104u8, 101u8, 97u8, 100u8, 101u8, 114u8, 115u8, 0u8],
        CommandName::SendCmpct => seq![115u8, 101u8, 110u8, 100u8, 99u8, 109u8, 112u8, 99u8, 116u8, 0u8, 0u8, 0u8],
        CommandName::Addr => seq![97u8, 100u8, 100u8, 114u8, 0u8, 0u8, 0u8, 0u8, 0u8, 0u8, 0u8, 0u8],
        CommandName::FeeFilter => seq![102u8, 101u8, 101u8, 102u8, 105u8, 108u8, 116u8, 101u8, 114u8, 0u8, 0u8, 0u8],
        CommandName::GetData => seq![103u8, 101u8, 116u8, 100u8, 97u8, 116u8, 97u8, 0u8, 0u8, 0u8, 0u8, 0u8],
        CommandName::Alert => seq![97u8, 108u8, 101u8, 114u8, 116u8, 0u8, 0u8, 0u8, 0u8, 0u8, 0u8, 0u8],
        CommandName::Tx => seq![116u8, 120u8, 0u8, 0u8, 0u8, 0u8, 0u8, 0u8, 0u8, 0u8, 0u8, 0u8],
    }
}

/// The command whose wire bytes these are, when they are one.
pub open spec fn command_name_of(bytes: Seq<u8>) -> Option<CommandName> {
    if bytes == command_name_bytes(CommandName::Version) {
        Some(CommandName::Version)
    } else if bytes == command_name_bytes(CommandName::Verack) {
        Some(CommandName::Verack)
    } else if bytes == command_name_bytes(CommandName::GetHeaders) {
        Some(CommandName::GetHeaders)
    } else if bytes == command_name_bytes(CommandName::Headers) {
        Some(CommandName::Headers)
    } else if bytes == command_name_bytes(CommandName::Inventory) {
        Some(CommandName::Inventory)
    } else if bytes == command_name_bytes(CommandName::Block) {
        Some(CommandName::Block)
    } else if bytes == command_name_bytes(CommandName::Ping) {
        Some(CommandName::Ping)
    } else if bytes == command_name_bytes(CommandName::Pong) {
        Some(CommandName::Pong)
    } else if bytes == command_name_bytes(CommandName::SendHeaders) {
        Some(CommandName::SendHeaders)
    } else if bytes == command_name_bytes(CommandName::SendCmpct) {
        Some(CommandName::SendCmpct)
    } else if bytes == command_name_bytes(CommandName::Addr) {
        Some(CommandName::Addr)
    } else if bytes == command_name_bytes(CommandName::FeeFilter) {
        Some(CommandName::FeeFilter)
    } else if bytes == command_name_bytes(CommandName::GetData) {
        Some(CommandName::GetData)
    } else if bytes == command_name_bytes(CommandName::Alert) {
        Some(CommandName::Alert)
    } else if bytes == command_name_bytes(CommandName::Tx) {
        Some(CommandName::Tx)
    } else {
        None
    }
}

/// The twelve wire bytes of a command, as an array.
pub fn command_name_array(name: CommandName) -> (r: [u8; 12])
    ensures
        r@ == command_name_bytes(name),
{
    let raw: [u8; 12] = match name {
            CommandName::Version => [118u8, 101u8, 114u8, 115u8, 105u8, 111u8, 110u8, 0u8, 0u8, 0u8, 0u8, 0u8],
            CommandName::Verack => [118u8, 101u8, 114u8, 97u8, 99u8, 107u8, 0u8, 0u8, 0u8, 0u8, 0u8, 0u8],
            CommandName::GetHeaders => [103u8, 101u8, 116u8, 104u8, 101u8, 97u8, 100u8, 101u8, 114u8, 115u8, 0u8, 0u8],
            CommandName::Headers => [104u8, 101u8, 97u8, 100u8, 101u8, 114u8, 115u8, 0u8, 0u8, 0u8, 0u8, 0u8],
            CommandName::Inventory => [105u8, 110u8, 118u8, 0u8, 0u8, 0u8, 0u8, 0u8, 0u8, 0u8, 0u8, 0u8],
            CommandName::Block => [98u8, 108u8, 111u8, 99u8, 107u8, 0u8, 0u8, 0u8, 0u8, 0u8, 0u8, 0u8],
            CommandName::Ping => [112u8, 105u8, 110u8, 103u8, 0u8, 0u8, 0u8, 0u8, 0u8, 0u8, 0u8, 0u8],
            CommandName::Pong => [112u8, 111u8, 110u8, 103u8, 0u8, 0u8, 0u8, 0u8, 0u8, 0u8, 0u8, 0u8],
            CommandName::SendHeaders => [115u8, 101u8, 110u8, 100u8, 104u8, 101u8, 97u8, 100u8, 101u8, 114u8, 115u8, 0u8],
            CommandName::SendCmpct => [115u8, 101u8, 110u8, 100u8, 99u8, 109u8, 112u8, 99u8, 116u8, 0u8, 0u8, 0u8],
            CommandName::Addr => [97u8, 100u8, 100u8, 114u8, 0u8, 0u8, 0u8, 0u8, 0u8, 0u8, 0u8, 0u8],
            CommandName::FeeFilter => [102u8, 101u8, 101u8, 102u8, 105u8, 108u8, 116u8, 101u8, 114u8, 0u8, 0u8, 0u8],
            CommandName::GetData => [103u8, 101u8, 116u8, 100u8, 97u8, 116u8, 97u8, 0u8, 0u8, 0u8, 0u8, 0u8],
            CommandName::Alert => [97u8, 108u8, 101u8, 114u8, 116u8, 0u8, 0u8, 0u8, 0u8, 0u8, 0u8, 0u8],
            CommandName::Tx => [116u8, 120u8, 0u8, 0u8, 0u8, 0u8, 0u8, 0u8, 0u8, 0u8, 0u8, 0u8],
    };
    proof {
        assert(raw@ =~= command_name_bytes(name));
    }
    raw
}

impl SerializableInternalOrder for CommandName {
    open spec fn io_bytes(&self) -> Seq<u8> {
        command_name_bytes(*self)
    }

    open spec fn io_wf(&self) -> bool {
        true
    }

    fn io_serialize(&self, stream: &mut Vec<u8>) -> (r: Result<(), ErrorSerialization>) {
        let raw = command_name_array(*self);
        write_array(stream, &raw);
        proof {
            assert(stream@ =~= old(stream)@ + self.io_bytes());
        }
        Ok(())
    }
}

impl DeepView for CommandName {
    type V = CommandName;

    open spec fn deep_view(&self) -> CommandName {
        *self
    }
}

impl DeserializableInternalOrder for CommandName {
    open spec fn io_parse(data: Seq<u8>) -> Option<(CommandName, Seq<u8>)> {
        if data.len() >= 12 {
            match command_name_of(data.take(12)) {
                Some(name) => Some((name, data.skip(12))),
                None => None,
            }
        } else {
            None
        }
    }

    fn io_deserialize(stream: &mut &[u8]) -> (r: Result<CommandName, ErrorSerialization>) {
        let saved: &[u8] = *stream;
        let raw = match read_array::<12>(stream) {
            Some(raw) => raw,
            None => {
                return Err(ErrorSerialization::ErrorWhileReading);
            },
        };
        let name: Option<CommandName> = if crate::serialization::primitives::bytes_equal(
            raw.as_slice(),
            command_name_array(CommandName::Version).as_slice(),
        ) {
            Some(CommandName::Version)
        } else if crate::serialization::primitives::bytes_equal(raw.as_slice(), command_name_array(CommandName::Verack).as_slice()) {
            Some(CommandName::Verack)
        } else if crate::serialization::primitives::bytes_equal(raw.as_slice(), command_name_array(CommandName::GetHeaders).as_slice()) {
            Some(CommandName::GetHeaders)
        } else if crate::serialization::primitives::bytes_equal(raw.as_slice(), command_name_array(CommandName::Headers).as_slice()) {
            Some(CommandName::Headers)
        } else if crate::serialization::primitives::bytes_equal(raw.as_slice(), command_name_array(CommandName::Inventory).as_slice()) {
            Some(CommandName::Inventory)
        } else if crate::serialization::primitives::bytes_equal(raw.as_slice(), command_name_array(CommandName::Block).as_slice()) {
            Some(CommandName::Block)
        } else if crate::serialization::primitives::bytes_equal(raw.as_slice(), command_name_array(CommandName::Ping).as_slice()) {
            Some(CommandName::Ping)
        } else if crate::serialization::primitives::bytes_equal(raw.as_slice(), command_name_array(CommandName::Pong).as_slice()) {
            Some(CommandName::Pong)
        } else if crate::serialization::primitives::bytes_equal(raw.as_slice(), command_name_array(CommandName::SendHeaders).as_slice()) {
            Some(CommandName::SendHeaders)
        } else if crate::serialization::primitives::bytes_equal(raw.as_slice(), command_name_array(CommandName::SendCmpct).as_slice()) {
            Some(CommandName::SendCmpct)
        } else if crate::serialization::primitives::bytes_equal(raw.as_slice(), command_name_array(CommandName::Addr).as_slice()) {
            Some(CommandName::Addr)
        } else if crate::serialization::primitives::bytes_equal(raw.as_slice(), command_name_array(CommandName::FeeFilter).as_slice()) {
            Some(CommandName::FeeFilter)
        } else if crate::serialization::primitives::bytes_equal(raw.as_slice(), command_name_array(CommandName::GetData).as_slice()) {
            Some(CommandName::GetData)
        } else if crate::serialization::primitives::bytes_equal(raw.as_slice(), command_name_array(CommandName::Alert).as_slice()) {
            Some(CommandName::Alert)
        } else if crate::serialization::primitives::bytes_equal(raw.as_slice(), command_name_array(CommandName::Tx).as_slice()) {
            Some(CommandName::Tx)
        } else {
            None
        };
        match name {
            Some(name) => {
                proof {
                    assert(raw@ == saved@.take(12));
                    assert(command_name_of(saved@.take(12)) == Some(name));
                }
                Ok(name)
            },
            None => {
                *stream = saved;
                proof {
                    assert(command_name_of(saved@.take(12)) is None) by {
                        assert(raw@ == saved@.take(12));
                    }
                }
                Err(ErrorSerialization::ErrorInDeserialization(
                    "no command has this name".to_string(),
                ))
            },
        }
    }

    proof fn lemma_io_round_trip(value: CommandName, rest: Seq<u8>) {
        let data = value.io_bytes() + rest;
        assert(command_name_bytes(value).len() == 12);
        assert(data.take(12) =~= command_name_bytes(value));
        assert(data.skip(12) =~= rest);
        assert(command_name_of(command_name_bytes(value)) == Some(value));
    }
}

} // verus!
