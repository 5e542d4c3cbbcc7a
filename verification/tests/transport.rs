use balance_ledger::balance::Balance;
use balance_ledger::balance_error::{BalanceError, StorageError};
use balance_ledger::balance_event_api::{default_limit, default_offset, BalanceEventQuery};
use balance_ledger::balance_event_emitter_job::{
    number_option, number_or, text_option, BalanceEventEmitterConfig,
};
use balance_ledger::balance_payload::{
    CreateBalanceRequest, DepositBalanceRequest, TransferBalanceRequest, WithdrawBalanceRequest,
};
use balance_ledger::common_response::{
    create_balance_answer, deposit_balance_answer, get_balance_answer, refusal,
    transfer_balance_answer, withdraw_balance_answer,
};
use balance_ledger::server_config::ServerConfig;

fn text(s: &str) -> Option<String> {
    Some(s.to_string())
}

#[test]
fn errors_in_words() {
    assert_eq!(
        BalanceError::BalanceAlreadyExists(1).message(),
        "Balance with id 1 already exists"
    );
    assert_eq!(
        BalanceError::BalanceNotFound(99).message(),
        "Balance with id 99 not found"
    );
    assert_eq!(
        BalanceError::InsufficientFunds {
            balance: 0,
            amount: 5
        }
        .message(),
        "Insufficient funds for withdrawal. Balance: 0, Requested: 5"
    );
    assert_eq!(
        BalanceError::InsufficientFunds {
            balance: u128::MAX,
            amount: 12_345_678_901_234_567_890_123
        }
        .message(),
        "Insufficient funds for withdrawal. Balance: 340282366920938463463374607431768211455, Requested: 12345678901234567890123"
    );
    assert_eq!(
        BalanceError::UnknownError("deposit balance error".to_string()).message(),
        "Unknown error: deposit balance error"
    );
    assert_eq!(
        BalanceError::Overflow.message(),
        "Amount exceeds the range of a balance"
    );
    assert_eq!(
        BalanceError::Storage(StorageError::Unavailable).message(),
        "Storage error: the store failed to read or write"
    );
    assert_eq!(
        BalanceError::BalanceNotFound(u64::MAX).message(),
        "Balance with id 18446744073709551615 not found"
    );
}

#[test]
fn storage_errors_in_words() {
    assert_eq!(
        StorageError::Unavailable.message(),
        "the store failed to read or write"
    );
    assert_eq!(
        StorageError::CorruptCounter.message(),
        "a counter in the store is not eight bytes long"
    );
    assert_eq!(
        StorageError::CorruptRecord.message(),
        "a record in the store is malformed or misplaced"
    );
    assert_eq!(StorageError::EventIdExhausted.message(), "no event id is left");
}

#[test]
fn requests_become_commands() {
    let create = CreateBalanceRequest { id: 4 }.command();
    assert_eq!(create.id, 4);
    let deposit = DepositBalanceRequest { id: 4, amount: 9 }.command();
    assert_eq!((deposit.id, deposit.amount), (4, 9));
    let withdraw = WithdrawBalanceRequest { id: 5, amount: 8 }.command();
    assert_eq!((withdraw.id, withdraw.amount), (5, 8));
    let transfer = TransferBalanceRequest {
        from_id: 1,
        to_id: 2,
        amount: 3,
    }
    .command();
    assert_eq!((transfer.from_id, transfer.to_id, transfer.amount), (1, 2, 3));
}

#[test]
fn answers_to_commands_that_were_carried_out() {
    let created = create_balance_answer(&Ok(7)).unwrap();
    assert_eq!(created.code, 200);
    assert_eq!(created.data, "Balance created with id: 7");
    let deposited =
        deposit_balance_answer(&DepositBalanceRequest { id: 1, amount: 100 }, &Ok(())).unwrap();
    assert_eq!(deposited.code, 200);
    assert_eq!(deposited.data, "Balance deposited with id: 1, amount: 100");
    let withdrawn =
        withdraw_balance_answer(&WithdrawBalanceRequest { id: 1, amount: 40 }, &Ok(())).unwrap();
    assert_eq!(withdrawn.code, 200);
    assert_eq!(withdrawn.data, "Balance withdrawn with id: 1, amount: 40");
    let transferred = transfer_balance_answer(
        &TransferBalanceRequest {
            from_id: 1,
            to_id: 2,
            amount: 30,
        },
        &Ok(()),
    )
    .unwrap();
    assert_eq!(transferred.code, 200);
    assert_eq!(
        transferred.data,
        "Balance transferred from 1 to 2 with amount: 30"
    );
    assert_eq!(
        get_balance_answer(&Ok(Balance { id: 1, amount: 60 })),
        Ok(Balance { id: 1, amount: 60 })
    );
}

#[test]
fn answers_to_commands_that_were_refused() {
    let refused = create_balance_answer(&Err(BalanceError::BalanceAlreadyExists(1))).unwrap_err();
    assert_eq!(refused.code, 400);
    assert_eq!(refused.message, "Balance with id 1 already exists");
    let refused = deposit_balance_answer(
        &DepositBalanceRequest { id: 99, amount: 10 },
        &Err(BalanceError::BalanceNotFound(99)),
    )
    .unwrap_err();
    assert_eq!(refused.code, 400);
    assert_eq!(refused.message, "Balance with id 99 not found");
    let refused = withdraw_balance_answer(
        &WithdrawBalanceRequest { id: 1, amount: 5 },
        &Err(BalanceError::InsufficientFunds {
            balance: 0,
            amount: 5,
        }),
    )
    .unwrap_err();
    assert_eq!(
        refused.message,
        "Insufficient funds for withdrawal. Balance: 0, Requested: 5"
    );
    let refused = transfer_balance_answer(
        &TransferBalanceRequest {
            from_id: 1,
            to_id: 2,
            amount: 3,
        },
        &Err(BalanceError::Overflow),
    )
    .unwrap_err();
    assert_eq!(refused.code, 400);
    assert_eq!(
        get_balance_answer(&Err(BalanceError::BalanceNotFound(2))),
        Err("Error getting balance: Balance with id 2 not found".to_string())
    );
    let direct = refusal(&BalanceError::UnknownError("x".to_string()));
    assert_eq!((direct.code, direct.message.as_str()), (400, "Unknown error: x"));
}

#[test]
fn event_query_defaults() {
    assert_eq!(default_offset(), 1);
    assert_eq!(default_limit(), 10);
    assert_eq!(
        BalanceEventQuery::default(),
        BalanceEventQuery {
            offset: 1,
            limit: 10
        }
    );
    assert_eq!(
        BalanceEventQuery::new(None, Some(5)),
        BalanceEventQuery {
            offset: 1,
            limit: 5
        }
    );
    assert_eq!(
        BalanceEventQuery::new(Some(3), None),
        BalanceEventQuery {
            offset: 3,
            limit: 10
        }
    );
}

#[test]
fn options_fall_back_to_their_defaults() {
    assert_eq!(number_or(None, 7), 7);
    assert_eq!(number_or(Some(None), 7), 7);
    assert_eq!(number_or(Some(Some(0)), 7), 0);
    assert_eq!(number_option(&None, 1000), 1000);
    assert_eq!(number_option(&text("250"), 1000), 250);
    assert_eq!(number_option(&text("+250"), 1000), 250);
    assert_eq!(number_option(&text("0"), 1000), 0);
    assert_eq!(number_option(&text(""), 1000), 1000);
    assert_eq!(number_option(&text("12a"), 1000), 1000);
    assert_eq!(number_option(&text(" 12"), 1000), 1000);
    assert_eq!(number_option(&text("-1"), 1000), 1000);
    assert_eq!(
        number_option(&text("18446744073709551615"), 1000),
        u64::MAX
    );
    assert_eq!(number_option(&text("18446744073709551616"), 1000), 1000);
    assert_eq!(number_option(&text("+"), 1000), 1000);
    assert_eq!(number_option(&text("++1"), 1000), 1000);
    assert_eq!(number_option(&text("1+"), 1000), 1000);
    assert_eq!(number_option(&text("0007"), 1000), 7);
    assert_eq!(number_option(&text("+0"), 1000), 0);
    assert_eq!(number_option(&text("1_000"), 1000), 1000);
    assert_eq!(number_option(&text("12 "), 1000), 1000);
    assert_eq!(number_option(&text("\u{661}\u{662}"), 1000), 1000);
    assert_eq!(
        number_option(&text("000000000000000000000000000000000042"), 1000),
        42
    );
    assert_eq!(text_option(None, "balance.event"), "balance.event");
    assert_eq!(text_option(text("other"), "balance.event"), "other");
}

#[test]
fn publisher_settings_defaults() {
    let config = BalanceEventEmitterConfig::new(None, None, None, None, None, None);
    assert_eq!(config.brokers, "localhost:9092");
    assert_eq!(config.topic, "balance.event");
    assert_eq!(config.pooling_size, 1000);
    assert_eq!(config.publish_interval_ms, 100);
    assert_eq!(config.send_timeout_ms, 1000);
    assert_eq!(config.mailbox_capacity, 1024);
}

#[test]
fn publisher_settings_from_options() {
    let config = BalanceEventEmitterConfig::new(
        text("kafka:9092,kafka2:9092"),
        text("ledger.events"),
        text("50"),
        text("x"),
        text("2500"),
        text("16"),
    );
    assert_eq!(config.brokers, "kafka:9092,kafka2:9092");
    assert_eq!(config.topic, "ledger.events");
    assert_eq!(config.pooling_size, 50);
    assert_eq!(config.publish_interval_ms, 100);
    assert_eq!(config.send_timeout_ms, 2500);
    assert_eq!(config.mailbox_capacity, 16);
}

#[test]
fn server_settings_defaults() {
    let config = ServerConfig::from_values(None, None, None, None, 8);
    assert_eq!(config.port, 8080);
    assert_eq!(config.host, "0.0.0.0");
    assert_eq!(config.log_config_path, "log4rs.yaml");
    assert_eq!(config.worker_size, 8);
}

#[test]
fn server_settings_from_options() {
    let config = ServerConfig::from_values(
        text("9000"),
        text("127.0.0.1"),
        text("conf/log.yaml"),
        text("2"),
        8,
    );
    assert_eq!(config.port, 9000);
    assert_eq!(config.host, "127.0.0.1");
    assert_eq!(config.log_config_path, "conf/log.yaml");
    assert_eq!(config.worker_size, 2);
    // a port that is none, and more workers than processors
    let config = ServerConfig::from_values(text("65536"), None, None, text("64"), 8);
    assert_eq!(config.port, 8080);
    assert_eq!(config.worker_size, 8);
    let config = ServerConfig::from_values(text("65535"), None, None, text("zero"), 8);
    assert_eq!(config.port, 65535);
    assert_eq!(config.worker_size, 8);
    let config = ServerConfig::from_values(text("http"), None, None, text("0"), 8);
    assert_eq!(config.port, 8080);
    assert_eq!(config.worker_size, 0);
}
