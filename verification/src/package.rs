//! What nodes and clients send each other: an action and its data, framed
//! by a length.
//!
//! On the wire a package is eight bytes that hold the payload's length,
//! most significant byte first, and then the payload, which is the package's
//! JSON text.
use vstd::prelude::*;
use vstd::string::*;
use vstd::utf8::encode_utf8;
use crate::config::Config;
use crate::error::{ReceivePackageBytesError, ReceivePackageError, SendPackageError};
use crate::json::{json_string, json_string_text};
use crate::text::append_bytes;

verus! {

/// What a package is for.
#[derive(Clone, Copy, Debug, PartialEq, Eq, Hash, Structural)]
pub enum Action {
    AddBlock,
    AddTransaction,
    AddTransactionFail,
    AddTransactionSuccess,
    GetBalance,
    GetBalanceSuccess,
    GetBlockchainLen,
    GetBlockchainLenSuccess,
    GetBlocks,
    GetBlocksSuccess,
    GetLastBlockHash,
    GetLastBlockHashSuccess,
}

/// An action and the data that goes with it.
pub struct Package {
    action: Action,
    data: String,
}

/// What a package is, as plain values.
pub struct PackageView {
    pub action: Action,
    pub data: Seq<char>,
}

impl View for Package {
    type V = PackageView;

    closed spec fn view(&self) -> PackageView {
        PackageView { action: self.action, data: self.data@ }
    }
}

/// Number of bytes of the length in front of a payload.
pub const LENGTH_BYTES: usize = 8;

/// The name of an action, as it stands in a package's JSON text.
pub open spec fn action_name(action: Action) -> Seq<char> {
    match action {
        Action::AddBlock => "AddBlock"@,
        Action::AddTransaction => "AddTransaction"@,
        Action::AddTransactionFail => "AddTransactionFail"@,
        Action::AddTransactionSuccess => "AddTransactionSuccess"@,
        Action::GetBalance => "GetBalance"@,
        Action::GetBalanceSuccess => "GetBalanceSuccess"@,
        Action::GetBlockchainLen => "GetBlockchainLen"@,
        Action::GetBlockchainLenSuccess => "GetBlockchainLenSuccess"@,
        Action::GetBlocks => "GetBlocks"@,
        Action::GetBlocksSuccess => "GetBlocksSuccess"@,
        Action::GetLastBlockHash => "GetLastBlockHash"@,
        Action::GetLastBlockHashSuccess => "GetLastBlockHashSuccess"@,
    }
}

/// The JSON object of a package, without spaces.
pub open spec fn package_json(package: PackageView) -> Seq<char> {
    "{\"action\":"@ + json_string_text(action_name(package.action)) + ",\"data\":"@
        + json_string_text(package.data) + "}"@
}

/// The number that bytes stand for, most significant byte first.
pub open spec fn big_endian(bytes: Seq<u8>) -> nat
    decreases bytes.len(),
{
    if bytes.len() == 0 {
        0
    } else {
        big_endian(bytes.drop_last()) * 256 + bytes.last() as nat
    }
}

/// The bytes that go over the wire for a payload: its length in eight
/// bytes, then the payload.
pub open spec fn is_frame(frame: Seq<u8>, payload: Seq<u8>) -> bool {
    &&& frame.len() == LENGTH_BYTES + payload.len()
    &&& big_endian(frame.take(LENGTH_BYTES as int)) == payload.len()
    &&& frame.skip(LENGTH_BYTES as int) == payload
}

/// What is asked of an announced length: it must not be over the limit.
pub open spec fn length_check(length: nat, max_size: usize) -> Result<
    usize,
    ReceivePackageBytesError,
> {
    if length > max_size {
        Err(ReceivePackageBytesError::TooBig)
    } else {
        Ok(length as usize)
    }
}

/// What is asked of a received action: where actions are named, it must be
/// one of them.
pub open spec fn action_check(action: Action, accepted: Option<Seq<Action>>) -> Result<
    (),
    ReceivePackageError,
> {
    match accepted {
        Some(actions) => if actions.contains(action) {
            Ok(())
        } else {
            Err(ReceivePackageError::InvalidAction)
        },
        None => Ok(()),
    }
}

/// The name of an action.
pub fn name_of(action: Action) -> (out: &'static str)
    ensures
        out@ == action_name(action),
{
    match action {
        Action::AddBlock => "AddBlock",
        Action::AddTransaction => "AddTransaction",
        Action::AddTransactionFail => "AddTransactionFail",
        Action::AddTransactionSuccess => "AddTransactionSuccess",
        Action::GetBalance => "GetBalance",
        Action::GetBalanceSuccess => "GetBalanceSuccess",
        Action::GetBlockchainLen => "GetBlockchainLen",
        Action::GetBlockchainLenSuccess => "GetBlockchainLenSuccess",
        Action::GetBlocks => "GetBlocks",
        Action::GetBlocksSuccess => "GetBlocksSuccess",
        Action::GetLastBlockHash => "GetLastBlockHash",
        Action::GetLastBlockHashSuccess => "GetLastBlockHashSuccess",
    }
}

/// The eight bytes that stand for `length`, most significant byte first.
pub fn encode_length(length: u64) -> (out: Vec<u8>)
    ensures
        out@.len() == LENGTH_BYTES,
        big_endian(out@) == length,
{
    let b7 = (length % 256) as u8;
    let r1 = length / 256;
    let b6 = (r1 % 256) as u8;
    let r2 = r1 / 256;
    let b5 = (r2 % 256) as u8;
    let r3 = r2 / 256;
    let b4 = (r3 % 256) as u8;
    let r4 = r3 / 256;
    let b3 = (r4 % 256) as u8;
    let r5 = r4 / 256;
    let b2 = (r5 % 256) as u8;
    let r6 = r5 / 256;
    let b1 = (r6 % 256) as u8;
    let r7 = r6 / 256;
    assert(r7 < 256);
    let b0 = r7 as u8;
    let mut out: Vec<u8> = Vec::new();
    out.push(b0);
    out.push(b1);
    out.push(b2);
    out.push(b3);
    out.push(b4);
    out.push(b5);
    out.push(b6);
    out.push(b7);
    proof {
        lemma_big_endian_8(out@);
    }
    out
}

/// The number that eight bytes stand for, most significant byte first.
pub fn decode_length(bytes: &[u8]) -> (out: u64)
    requires
        bytes@.len() == LENGTH_BYTES,
    ensures
        out == big_endian(bytes@),
{
    proof {
        lemma_big_endian_8(bytes@);
    }
    bytes[0] as u64 * 0x100_0000_0000_0000 + bytes[1] as u64 * 0x1_0000_0000_0000 + bytes[2] as u64
        * 0x100_0000_0000 + bytes[3] as u64 * 0x1_0000_0000 + bytes[4] as u64 * 0x100_0000
        + bytes[5] as u64 * 0x1_0000 + bytes[6] as u64 * 0x100 + bytes[7] as u64
}

/// What eight bytes stand for, written out.
pub proof fn lemma_big_endian_8(bytes: Seq<u8>)
    requires
        bytes.len() == 8,
    ensures
        big_endian(bytes) == bytes[0] * 0x100_0000_0000_0000 + bytes[1] * 0x1_0000_0000_0000
            + bytes[2] * 0x100_0000_0000 + bytes[3] * 0x1_0000_0000 + bytes[4] * 0x100_0000
            + bytes[5] * 0x1_0000 + bytes[6] * 0x100 + bytes[7],
{
    let b7 = bytes.drop_last();
    let b6 = b7.drop_last();
    let b5 = b6.drop_last();
    let b4 = b5.drop_last();
    let b3 = b4.drop_last();
    let b2 = b3.drop_last();
    let b1 = b2.drop_last();
    let b0 = b1.drop_last();
    assert(big_endian(b0) == 0);
    assert(big_endian(b1) == bytes[0]);
    assert(big_endian(b2) == big_endian(b1) * 256 + bytes[1]);
    assert(big_endian(b3) == big_endian(b2) * 256 + bytes[2]);
    assert(big_endian(b4) == big_endian(b3) * 256 + bytes[3]);
    assert(big_endian(b5) == big_endian(b4) * 256 + bytes[4]);
    assert(big_endian(b6) == big_endian(b5) * 256 + bytes[5]);
    assert(big_endian(b7) == big_endian(b6) * 256 + bytes[6]);
    assert(big_endian(bytes) == big_endian(b7) * 256 + bytes[7]);
}

impl Clone for Package {
    fn clone(&self) -> (out: Self)
        ensures
            out@ == self@,
    {
        Package { action: self.action, data: self.data.clone() }
    }
}

impl Package {
    /// The action.
    pub fn action(&self) -> (out: Action)
        ensures
            out == self@.action,
    {
        self.action
    }

    /// The data.
    pub fn data(&self) -> (out: &str)
        ensures
            out@ == self@.data,
    {
        self.data.as_str()
    }

    /// A package with `action` and `data`.
    pub fn new(action: Action, data: &str) -> (out: Self)
        ensures
            out@ == (PackageView { action, data: data@ }),
    {
        Package { action, data: data.to_owned() }
    }

    /// The JSON text of the package.
    pub fn to_json(&self) -> (out: String)
        ensures
            out@ == package_json(self@),
    {
        let mut out = String::from_str("{\"action\":");
        out.append(json_string(name_of(self.action)).as_str());
        out.append(",\"data\":");
        out.append(json_string(self.data.as_str()).as_str());
        out.append("}");
        out
    }

    /// The bytes that go over the wire for the package: the length of its
    /// JSON text in eight bytes, then the text. A text that is longer than
    /// the limit is not sent.
    pub fn frame(&self, config: &Config) -> (out: Result<Vec<u8>, SendPackageError>)
        ensures
            match out {
                Ok(frame) => {
                    &&& encode_utf8(package_json(self@)).len() <= config@.max_size
                    &&& is_frame(frame@, encode_utf8(package_json(self@)))
                },
                Err(e) => e == SendPackageError::TooBig && encode_utf8(package_json(self@)).len()
                    > config@.max_size,
            },
    {
        let json = self.to_json();
        let bytes = json.as_str().as_bytes();
        if bytes.len() > config.package_limits().max_size() {
            return Err(SendPackageError::TooBig);
        }
        let mut frame = encode_length(bytes.len() as u64);
        let ghost prefix = frame@;
        append_bytes(&mut frame, bytes);
        assert(frame@.take(LENGTH_BYTES as int) =~= prefix);
        assert(frame@.skip(LENGTH_BYTES as int) =~= bytes@);
        Ok(frame)
    }

    /// Reads the length that eight received bytes announce. A length over
    /// the limit is refused, so that no more than the limit is ever read.
    pub fn receive_length(config: &Config, header: &[u8]) -> (out: Result<
        usize,
        ReceivePackageBytesError,
    >)
        requires
            header@.len() == LENGTH_BYTES,
        ensures
            out == length_check(big_endian(header@), config@.max_size),
    {
        let size = decode_length(header);
        if size > config.package_limits().max_size() as u64 {
            return Err(ReceivePackageBytesError::TooBig);
        }
        Ok(size as usize)
    }

    /// Whether the package's action is one of `accepted_actions`, where
    /// actions are named.
    #[verifier::loop_isolation(false)]
    pub fn validate_action(&self, accepted_actions: &Option<Vec<Action>>) -> (out: Result<
        (),
        ReceivePackageError,
    >)
        ensures
            out == action_check(
                self@.action,
                match *accepted_actions {
                    Some(actions) => Some(actions@),
                    None => None,
                },
            ),
    {
        match accepted_actions {
            Some(actions) => {
                let mut i: usize = 0;
                while i < actions.len()
                    invariant
                        i <= actions@.len(),
                        forall|k: int| 0 <= k < i ==> actions@[k] != self@.action,
                    decreases actions@.len() - i,
                {
                    if actions[i] == self.action {
                        assert(actions@[i as int] == self@.action);
                        return Ok(());
                    }
                    i += 1;
                }
                Err(ReceivePackageError::InvalidAction)
            },
            None => Ok(()),
        }
    }
}

} // verus!
