use quartz_messenger::error::ClientError;

#[test]
fn every_failure_exits_with_status_one() {
    let failures = [
        ClientError::RegistryIo,
        ClientError::IndexOutOfRange { count: 3 },
        ClientError::NonNumericIndex,
        ClientError::Transport,
        ClientError::Protocol { status: 503 },
        ClientError::Decryption,
        ClientError::MalformedBundle { messages: 2, senders: 1 },
        ClientError::MissingKey,
    ];
    for failure in failures {
        assert_eq!(failure.exit_code(), 1);
        assert!(!failure.describe().is_empty());
    }
}

#[test]
fn index_failures_have_their_own_lines() {
    assert_eq!(ClientError::IndexOutOfRange { count: 0 }.describe(), "Server index out of range");
    assert_eq!(ClientError::NonNumericIndex.describe(), "Error: index is not a number");
}
