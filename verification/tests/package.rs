use blockchain::config::{Config, PackageLimits, Tracing, TracingTarget};
use blockchain::error::{ReceivePackageBytesError, ReceivePackageError, SendPackageError};
use blockchain::package::{decode_length, encode_length, name_of, Action, Package};

fn config(max_size: usize) -> Config {
    Config::new(
        vec!["127.0.0.1:8000".to_owned()],
        PackageLimits::new(max_size, 5),
        Tracing::new(
            TracingTarget::new("info".to_owned(), "client.log".to_owned()),
            TracingTarget::new("debug".to_owned(), "node.log".to_owned()),
        ),
        None,
    )
    .unwrap()
}

const ACTIONS: [Action; 12] = [
    Action::AddBlock,
    Action::AddTransaction,
    Action::AddTransactionFail,
    Action::AddTransactionSuccess,
    Action::GetBalance,
    Action::GetBalanceSuccess,
    Action::GetBlockchainLen,
    Action::GetBlockchainLenSuccess,
    Action::GetBlocks,
    Action::GetBlocksSuccess,
    Action::GetLastBlockHash,
    Action::GetLastBlockHashSuccess,
];

#[test]
fn a_package_holds_its_action_and_data() {
    let package = Package::new(Action::GetBalance, "address");
    assert_eq!(package.action(), Action::GetBalance);
    assert_eq!(package.data(), "address");
    let copy = package.clone();
    assert_eq!(copy.action(), Action::GetBalance);
    assert_eq!(copy.data(), "address");
}

#[test]
fn the_json_of_a_package() {
    let package = Package::new(Action::GetBalance, "some \"data\"\n");
    assert_eq!(package.to_json(), "{\"action\":\"GetBalance\",\"data\":\"some \\\"data\\\"\\n\"}");
    for action in ACTIONS {
        let package = Package::new(action, "x");
        let parsed: serde_json::Value = serde_json::from_str(&package.to_json()).unwrap();
        assert_eq!(parsed["action"].as_str(), Some(name_of(action)));
        assert_eq!(format!("{:?}", action), name_of(action));
        assert_eq!(parsed["data"].as_str(), Some("x"));
        assert_eq!(parsed.as_object().unwrap().len(), 2);
    }
}

#[test]
fn the_length_goes_first_in_eight_bytes() {
    assert_eq!(encode_length(0), [0, 0, 0, 0, 0, 0, 0, 0]);
    assert_eq!(encode_length(1), [0, 0, 0, 0, 0, 0, 0, 1]);
    assert_eq!(encode_length(258), [0, 0, 0, 0, 0, 0, 1, 2]);
    assert_eq!(encode_length(0x0102030405060708), [1, 2, 3, 4, 5, 6, 7, 8]);
    assert_eq!(encode_length(u64::MAX), [255; 8]);
    for length in [0u64, 1, 255, 256, 65_535, 65_536, 1 << 32, u64::MAX - 1, u64::MAX, 0xdead_beef_0bad_f00d] {
        assert_eq!(encode_length(length), length.to_be_bytes());
        assert_eq!(decode_length(&length.to_be_bytes()), length);
        assert_eq!(decode_length(&encode_length(length)), length);
    }
}

#[test]
fn a_frame_is_the_length_and_the_json() {
    let package = Package::new(Action::AddTransaction, "données");
    let json = package.to_json();
    let frame = package.frame(&config(1000)).unwrap();
    assert_eq!(frame.len(), 8 + json.len());
    assert_eq!(&frame[..8], (json.len() as u64).to_be_bytes());
    assert_eq!(&frame[8..], json.as_bytes());
    assert_eq!(Package::receive_length(&config(1000), &frame[..8]), Ok(json.len()));
}

#[test]
fn too_big_to_send() {
    let package = Package::new(Action::GetBlocks, "");
    let len = package.to_json().len();
    assert_eq!(len, 32);
    assert!(package.frame(&config(len)).is_ok());
    assert_eq!(package.frame(&config(len - 1)), Err(SendPackageError::TooBig));
    assert_eq!(package.frame(&config(0)), Err(SendPackageError::TooBig));
}

#[test]
fn too_big_to_receive() {
    let limits = config(100);
    assert_eq!(Package::receive_length(&limits, &100u64.to_be_bytes()), Ok(100));
    assert_eq!(Package::receive_length(&limits, &0u64.to_be_bytes()), Ok(0));
    assert_eq!(
        Package::receive_length(&limits, &101u64.to_be_bytes()),
        Err(ReceivePackageBytesError::TooBig)
    );
    assert_eq!(
        Package::receive_length(&limits, &u64::MAX.to_be_bytes()),
        Err(ReceivePackageBytesError::TooBig)
    );
    assert_eq!(
        Package::receive_length(&limits, &[1, 0, 0, 0, 0, 0, 0, 0]),
        Err(ReceivePackageBytesError::TooBig)
    );
}

#[test]
fn only_accepted_actions_pass() {
    let package = Package::new(Action::GetBalanceSuccess, "12");
    assert_eq!(package.validate_action(&None), Ok(()));
    assert_eq!(package.validate_action(&Some(vec![Action::GetBalanceSuccess])), Ok(()));
    assert_eq!(
        package.validate_action(&Some(vec![Action::GetBalance, Action::GetBalanceSuccess])),
        Ok(())
    );
    assert_eq!(
        package.validate_action(&Some(vec![Action::GetBalance])),
        Err(ReceivePackageError::InvalidAction)
    );
    assert_eq!(
        package.validate_action(&Some(Vec::new())),
        Err(ReceivePackageError::InvalidAction)
    );
}
