use vstd::prelude::*;

use super::command_name::CommandName;
use super::message::Message;
use crate::serialization::deserializable_internal_order::DeserializableInternalOrder;
use crate::serialization::error_serialization::ErrorSerialization;
use crate::serialization::primitives::{clone_bytes, read_bytes};
use crate::serialization::serializable_internal_order::{write_slice, SerializableInternalOrder};

verus! {

/// An alert frame; tolerated and dropped whole.
#[derive(Debug)]
pub struct AlertMessage {
    pub contents: Vec<u8>,
}

/// The mathematical shape of this payload: its raw bytes.
#[verifier::ext_equal]
pub ghost struct AlertMessageView {
    pub contents: Seq<u8>,
}

impl DeepView for AlertMessage {
    type V = AlertMessageView;

    open spec fn deep_view(&self) -> AlertMessageView {
        AlertMessageView { contents: self.contents@ }
    }
}

impl Clone for AlertMessage {
    fn clone(&self) -> (r: AlertMessage)
        ensures
            r.deep_view() == self.deep_view(),
    {
        AlertMessage { contents: clone_bytes(&self.contents) }
    }
}

impl SerializableInternalOrder for AlertMessage {
    open spec fn io_bytes(&self) -> Seq<u8> {
        self.contents@
    }

    open spec fn io_wf(&self) -> bool {
        // the payload swallows whatever follows it, so its encoding reads
        // back as the same value only when nothing follows
        false
    }

    fn io_serialize(&self, stream: &mut Vec<u8>) -> (r: Result<(), ErrorSerialization>) {
        write_slice(stream, self.contents.as_slice());
        proof {
            assert(stream@ =~= old(stream)@ + self.io_bytes());
        }
        Ok(())
    }
}

impl DeserializableInternalOrder for AlertMessage {
    open spec fn io_parse(data: Seq<u8>) -> Option<(AlertMessageView, Seq<u8>)> {
        Some((AlertMessageView { contents: data }, Seq::empty()))
    }

    fn io_deserialize(stream: &mut &[u8]) -> (r: Result<AlertMessage, ErrorSerialization>) {
        let length = stream.len();
        match read_bytes(stream, length) {
            Some(contents) => {
                proof {
                    assert(contents@ =~= old(stream)@);
                    assert(final(stream)@ =~= Seq::<u8>::empty());
                }
                Ok(AlertMessage { contents })
            },
            None => Err(ErrorSerialization::ErrorWhileReading),
        }
    }

    proof fn lemma_io_round_trip(value: AlertMessage, rest: Seq<u8>) {
    }
}

impl Message for AlertMessage {
    open spec fn spec_command() -> CommandName {
        CommandName::Alert
    }

    fn get_command_name() -> (r: CommandName) {
        CommandName::Alert
    }
}

} // verus!
