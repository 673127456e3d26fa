use ferrumdb::aof::AofOperation;
use ferrumdb::aof::AofReader;
use ferrumdb::aof::AofWriter;
use ferrumdb::aof::SyncPolicy;
use ferrumdb::commands::matches_pattern;
use ferrumdb::commands::AnyCommand;
use ferrumdb::commands::ClientCommand;
use ferrumdb::commands::Command;
use ferrumdb::commands::CommandContext;
use ferrumdb::commands::CommandRegistry;
use ferrumdb::commands::DecrByCommand;
use ferrumdb::commands::DecrCommand;
use ferrumdb::commands::DelCommand;
use ferrumdb::commands::ExistsCommand;
use ferrumdb::commands::ExpireCommand;
use ferrumdb::commands::FlushDbCommand;
use ferrumdb::commands::GetCommand;
use ferrumdb::commands::HDelCommand;
use ferrumdb::commands::HGetAllCommand;
use ferrumdb::commands::HGetCommand;
use ferrumdb::commands::HIncrByCommand;
use ferrumdb::commands::HKeysCommand;
use ferrumdb::commands::HSetCommand;
use ferrumdb::commands::IncrByCommand;
use ferrumdb::commands::IncrCommand;
use ferrumdb::commands::InfoCommand;
use ferrumdb::commands::KeysCommand;
use ferrumdb::commands::LLenCommand;
use ferrumdb::commands::LPushCommand;
use ferrumdb::commands::LRangeCommand;
use ferrumdb::commands::RPushCommand;
use ferrumdb::commands::SAddCommand;
use ferrumdb::commands::SCardCommand;
use ferrumdb::commands::SMembersCommand;
use ferrumdb::commands::SetCommand;
use ferrumdb::commands::TtlCommand;
use ferrumdb::protocol::RespValue;
use ferrumdb::store::Moment;
use ferrumdb::store::Value;

const SECOND: u64 = 1_000_000_000;
const WRONGTYPE: &str = "WRONGTYPE Operation against a key holding the wrong kind of value";

fn bulk(text: &str) -> RespValue {
    RespValue::bulk_string(text.as_bytes().to_vec())
}

fn bulks(words: &[&str]) -> Vec<RespValue> {
    words.iter().map(|w| bulk(w)).collect()
}

fn at(seconds: u64) -> Moment {
    Moment { monotonic: seconds * SECOND, wall_millis: 1_700_000_000_000 + seconds * 1000 }
}

fn error(text: &str) -> RespValue {
    RespValue::Error(text.to_string())
}

fn sorted_bulks(reply: RespValue) -> Vec<Vec<u8>> {
    let mut items: Vec<Vec<u8>> = match reply {
        RespValue::Array(items) => items
            .into_iter()
            .map(|item| match item {
                RespValue::BulkString(b) => b,
                other => panic!("not a bulk string: {:?}", other),
            })
            .collect(),
        other => panic!("not an array: {:?}", other),
    };
    items.sort();
    items
}

#[test]
fn test_set_get() {
    let mut ctx = CommandContext::new();

    let set_cmd = SetCommand;
    let get_cmd = GetCommand;

    let args = vec![bulk("mykey"), bulk("myvalue")];

    let result = set_cmd.execute(&mut ctx, &args);
    assert_eq!(result, RespValue::simple_string("OK"));

    let args = vec![bulk("mykey")];
    let result = get_cmd.execute(&mut ctx, &args);
    assert_eq!(result, RespValue::bulk_string(b"myvalue".to_vec()));
}

#[test]
fn test_get_nonexistent() {
    let mut ctx = CommandContext::new();
    let get_cmd = GetCommand;

    let args = vec![bulk("nonexistent")];
    let result = get_cmd.execute(&mut ctx, &args);
    assert_eq!(result, RespValue::null());
}

#[test]
fn test_del() {
    let mut ctx = CommandContext::new();
    ctx.store.set(b"key1".to_vec(), Value::string(b"value1".to_vec()));
    ctx.store.set(b"key2".to_vec(), Value::string(b"value2".to_vec()));

    let del_cmd = DelCommand;

    let args = vec![
        bulk("key1"),
        bulk("key2"),
        bulk("key3"), // doesn't exist
    ];

    let result = del_cmd.execute(&mut ctx, &args);
    assert_eq!(result, RespValue::integer(2));
}

#[test]
fn key_test_exists() {
    let mut ctx = CommandContext::new();
    ctx.store.set(b"key1".to_vec(), Value::string(b"value1".to_vec()));

    let exists_cmd = ExistsCommand;

    let args = vec![
        bulk("key1"),
        bulk("key2"), // doesn't exist
    ];

    let result = exists_cmd.execute(&mut ctx, &args);
    assert_eq!(result, RespValue::integer(1));
}

#[test]
fn test_expire_ttl() {
    let mut ctx = CommandContext::new();
    ctx.store.set(b"key1".to_vec(), Value::string(b"value1".to_vec()));

    let expire_cmd = ExpireCommand;
    let ttl_cmd = TtlCommand;

    // Set expiration to 100 seconds
    let args = vec![bulk("key1"), bulk("100")];
    let result = expire_cmd.execute(&mut ctx, &args);
    assert_eq!(result, RespValue::integer(1));

    // Check TTL (should be around 100, but might be 99 due to timing)
    let args = vec![bulk("key1")];
    let result = ttl_cmd.execute(&mut ctx, &args);
    if let RespValue::Integer(ttl) = result {
        assert!(ttl >= 99 && ttl <= 100);
    } else {
        panic!("Expected integer response");
    }
}

#[test]
fn test_ttl_no_key() {
    let mut ctx = CommandContext::new();
    let ttl_cmd = TtlCommand;

    let args = vec![bulk("nonexistent")];
    let result = ttl_cmd.execute(&mut ctx, &args);
    assert_eq!(result, RespValue::integer(-2));
}

#[test]
fn test_ttl_no_expiration() {
    let mut ctx = CommandContext::new();
    ctx.store.set(b"key1".to_vec(), Value::string(b"value1".to_vec()));

    let ttl_cmd = TtlCommand;

    let args = vec![bulk("key1")];
    let result = ttl_cmd.execute(&mut ctx, &args);
    assert_eq!(result, RespValue::integer(-1));
}

#[test]
fn test_incr() {
    let mut ctx = CommandContext::new();
    let cmd = IncrCommand;

    // INCR on non-existent key
    let args = vec![bulk("counter")];
    let result = cmd.execute(&mut ctx, &args);
    assert_eq!(result, RespValue::integer(1));

    // INCR again
    let result = cmd.execute(&mut ctx, &args);
    assert_eq!(result, RespValue::integer(2));
}

#[test]
fn test_incrby() {
    let mut ctx = CommandContext::new();
    let cmd = IncrByCommand;

    // INCRBY on non-existent key
    let args = vec![bulk("counter"), bulk("10")];
    let result = cmd.execute(&mut ctx, &args);
    assert_eq!(result, RespValue::integer(10));

    // INCRBY again
    let result = cmd.execute(&mut ctx, &args);
    assert_eq!(result, RespValue::integer(20));
}

#[test]
fn test_decr() {
    let mut ctx = CommandContext::new();
    let cmd = DecrCommand;

    // DECR on non-existent key
    let args = vec![bulk("counter")];
    let result = cmd.execute(&mut ctx, &args);
    assert_eq!(result, RespValue::integer(-1));

    // DECR again
    let result = cmd.execute(&mut ctx, &args);
    assert_eq!(result, RespValue::integer(-2));
}

#[test]
fn test_decrby() {
    let mut ctx = CommandContext::new();
    let cmd = DecrByCommand;

    // DECRBY on non-existent key
    let args = vec![bulk("counter"), bulk("5")];
    let result = cmd.execute(&mut ctx, &args);
    assert_eq!(result, RespValue::integer(-5));

    // DECRBY again
    let result = cmd.execute(&mut ctx, &args);
    assert_eq!(result, RespValue::integer(-10));
}

#[test]
fn test_hset_hget() {
    let mut ctx = CommandContext::new();
    let hset_cmd = HSetCommand;
    let hget_cmd = HGetCommand;

    // HSET myhash field1 value1
    let args = vec![bulk("myhash"), bulk("field1"), bulk("value1")];
    let result = hset_cmd.execute(&mut ctx, &args);
    assert_eq!(result, RespValue::integer(1));

    // HGET myhash field1
    let args = vec![bulk("myhash"), bulk("field1")];
    let result = hget_cmd.execute(&mut ctx, &args);
    assert_eq!(result, RespValue::bulk_string(b"value1".to_vec()));

    // HGET myhash nonexistent
    let args = vec![bulk("myhash"), bulk("nonexistent")];
    let result = hget_cmd.execute(&mut ctx, &args);
    assert_eq!(result, RespValue::null());
}

#[test]
fn test_hgetall() {
    let mut ctx = CommandContext::new();
    let hset_cmd = HSetCommand;
    let hgetall_cmd = HGetAllCommand;

    // HSET myhash field1 value1 field2 value2
    let args = vec![
        bulk("myhash"),
        bulk("field1"),
        bulk("value1"),
        bulk("field2"),
        bulk("value2"),
    ];
    hset_cmd.execute(&mut ctx, &args);

    // HGETALL myhash
    let args = vec![bulk("myhash")];
    let result = hgetall_cmd.execute(&mut ctx, &args);

    // Should return array with 4 elements (2 fields + 2 values)
    if let RespValue::Array(arr) = result {
        assert_eq!(arr.len(), 4);
    } else {
        panic!("Expected array response");
    }
}

#[test]
fn test_hdel() {
    let mut ctx = CommandContext::new();
    let hset_cmd = HSetCommand;
    let hdel_cmd = HDelCommand;

    // HSET myhash field1 value1 field2 value2
    let args = vec![
        bulk("myhash"),
        bulk("field1"),
        bulk("value1"),
        bulk("field2"),
        bulk("value2"),
    ];
    hset_cmd.execute(&mut ctx, &args);

    // HDEL myhash field1
    let args = vec![bulk("myhash"), bulk("field1")];
    let result = hdel_cmd.execute(&mut ctx, &args);
    assert_eq!(result, RespValue::integer(1));

    // HDEL myhash field1 again (should return 0)
    let result = hdel_cmd.execute(&mut ctx, &args);
    assert_eq!(result, RespValue::integer(0));
}

#[test]
fn test_hincrby() {
    let mut ctx = CommandContext::new();
    let hincrby_cmd = HIncrByCommand;

    // HINCRBY myhash counter 10
    let args = vec![bulk("myhash"), bulk("counter"), bulk("10")];
    let result = hincrby_cmd.execute(&mut ctx, &args);
    assert_eq!(result, RespValue::integer(10));

    // HINCRBY myhash counter 5
    let args = vec![bulk("myhash"), bulk("counter"), bulk("5")];
    let result = hincrby_cmd.execute(&mut ctx, &args);
    assert_eq!(result, RespValue::integer(15));
}

#[test]
fn test_lpush_rpush() {
    let mut ctx = CommandContext::new();
    let lpush_cmd = LPushCommand;
    let rpush_cmd = RPushCommand;
    let lrange_cmd = LRangeCommand;

    // RPUSH mylist a b c
    let args = vec![bulk("mylist"), bulk("a"), bulk("b"), bulk("c")];
    let result = rpush_cmd.execute(&mut ctx, &args);
    assert_eq!(result, RespValue::integer(3));

    // LPUSH mylist x
    let args = vec![bulk("mylist"), bulk("x")];
    let result = lpush_cmd.execute(&mut ctx, &args);
    assert_eq!(result, RespValue::integer(4));

    // LRANGE mylist 0 -1 should return [x, a, b, c]
    let args = vec![bulk("mylist"), bulk("0"), bulk("-1")];
    let result = lrange_cmd.execute(&mut ctx, &args);
    let expected = RespValue::array(vec![
        RespValue::bulk_string(b"x".to_vec()),
        RespValue::bulk_string(b"a".to_vec()),
        RespValue::bulk_string(b"b".to_vec()),
        RespValue::bulk_string(b"c".to_vec()),
    ]);
    assert_eq!(result, expected);
}

#[test]
fn test_llen() {
    let mut ctx = CommandContext::new();
    let rpush_cmd = RPushCommand;
    let llen_cmd = LLenCommand;

    // RPUSH mylist a b c
    let args = vec![bulk("mylist"), bulk("a"), bulk("b"), bulk("c")];
    rpush_cmd.execute(&mut ctx, &args);

    // LLEN mylist
    let args = vec![bulk("mylist")];
    let result = llen_cmd.execute(&mut ctx, &args);
    assert_eq!(result, RespValue::integer(3));

    // LLEN nonexistent
    let args = vec![bulk("nonexistent")];
    let result = llen_cmd.execute(&mut ctx, &args);
    assert_eq!(result, RespValue::integer(0));
}

#[test]
fn test_lrange() {
    let mut ctx = CommandContext::new();
    let rpush_cmd = RPushCommand;
    let lrange_cmd = LRangeCommand;

    // RPUSH mylist a b c d e
    let args = vec![bulk("mylist"), bulk("a"), bulk("b"), bulk("c"), bulk("d"), bulk("e")];
    rpush_cmd.execute(&mut ctx, &args);

    // LRANGE mylist 1 3 should return [b, c, d]
    let args = vec![bulk("mylist"), bulk("1"), bulk("3")];
    let result = lrange_cmd.execute(&mut ctx, &args);
    let expected = RespValue::array(vec![
        RespValue::bulk_string(b"b".to_vec()),
        RespValue::bulk_string(b"c".to_vec()),
        RespValue::bulk_string(b"d".to_vec()),
    ]);
    assert_eq!(result, expected);

    // LRANGE mylist -2 -1 should return [d, e]
    let args = vec![bulk("mylist"), bulk("-2"), bulk("-1")];
    let result = lrange_cmd.execute(&mut ctx, &args);
    let expected = RespValue::array(vec![
        RespValue::bulk_string(b"d".to_vec()),
        RespValue::bulk_string(b"e".to_vec()),
    ]);
    assert_eq!(result, expected);
}

#[test]
fn test_sadd() {
    let mut ctx = CommandContext::new();
    let cmd = SAddCommand;

    // SADD myset a b c
    let args = vec![bulk("myset"), bulk("a"), bulk("b"), bulk("c")];
    let result = cmd.execute(&mut ctx, &args);
    assert_eq!(result, RespValue::integer(3));

    // SADD myset b c d (b and c already exist)
    let args = vec![bulk("myset"), bulk("b"), bulk("c"), bulk("d")];
    let result = cmd.execute(&mut ctx, &args);
    assert_eq!(result, RespValue::integer(1)); // Only d was added
}

#[test]
fn test_smembers() {
    let mut ctx = CommandContext::new();
    let sadd_cmd = SAddCommand;
    let smembers_cmd = SMembersCommand;

    // SADD myset a b c
    let args = vec![bulk("myset"), bulk("a"), bulk("b"), bulk("c")];
    sadd_cmd.execute(&mut ctx, &args);

    // SMEMBERS myset
    let args = vec![bulk("myset")];
    let result = smembers_cmd.execute(&mut ctx, &args);

    // Check that we got an array with 3 elements
    if let RespValue::Array(arr) = result {
        assert_eq!(arr.len(), 3);
        // Can't guarantee order in a set
    } else {
        panic!("Expected array response");
    }

    // SMEMBERS nonexistent
    let args = vec![bulk("nonexistent")];
    let result = smembers_cmd.execute(&mut ctx, &args);
    assert_eq!(result, RespValue::array(vec![]));
}

#[test]
fn test_scard() {
    let mut ctx = CommandContext::new();
    let sadd_cmd = SAddCommand;
    let scard_cmd = SCardCommand;

    // SADD myset a b c
    let args = vec![bulk("myset"), bulk("a"), bulk("b"), bulk("c")];
    sadd_cmd.execute(&mut ctx, &args);

    // SCARD myset
    let args = vec![bulk("myset")];
    let result = scard_cmd.execute(&mut ctx, &args);
    assert_eq!(result, RespValue::integer(3));

    // SCARD nonexistent
    let args = vec![bulk("nonexistent")];
    let result = scard_cmd.execute(&mut ctx, &args);
    assert_eq!(result, RespValue::integer(0));
}

#[test]
fn test_info() {
    let mut ctx = CommandContext::new();
    ctx.store.set(b"key1".to_vec(), Value::string(b"value1".to_vec()));
    ctx.store.set(b"key2".to_vec(), Value::string(b"value2".to_vec()));

    let cmd = InfoCommand;
    let result = cmd.execute(&mut ctx, &[]);

    if let RespValue::BulkString(bytes) = result {
        let info = String::from_utf8(bytes.to_vec()).unwrap();
        assert!(info.contains("ferrumdb_version"));
        assert!(info.contains("keys=2"));
    } else {
        panic!("Expected bulk string response");
    }
}

#[test]
fn test_flushdb() {
    let mut ctx = CommandContext::new();
    ctx.store.set(b"key1".to_vec(), Value::string(b"value1".to_vec()));
    ctx.store.set(b"key2".to_vec(), Value::string(b"value2".to_vec()));

    assert_eq!(ctx.store.len(), 2);

    let cmd = FlushDbCommand;
    let result = cmd.execute(&mut ctx, &[]);
    assert_eq!(result, RespValue::simple_string("OK"));

    assert_eq!(ctx.store.len(), 0);
}

#[test]
fn test_keys_all() {
    let mut ctx = CommandContext::new();

    // Add some keys
    ctx.store.set(b"key1".to_vec(), Value::string(b"value1".to_vec()));
    ctx.store.set(b"key2".to_vec(), Value::string(b"value2".to_vec()));
    ctx.store.set(b"name".to_vec(), Value::string(b"Alice".to_vec()));

    let cmd = KeysCommand;
    let args = vec![bulk("*")];
    let result = cmd.execute(&mut ctx, &args);

    if let RespValue::Array(keys) = result {
        assert_eq!(keys.len(), 3);
    } else {
        panic!("Expected array response");
    }
}

#[test]
fn test_keys_prefix() {
    let mut ctx = CommandContext::new();

    ctx.store.set(b"user:1".to_vec(), Value::string(b"Alice".to_vec()));
    ctx.store.set(b"user:2".to_vec(), Value::string(b"Bob".to_vec()));
    ctx.store.set(b"session:1".to_vec(), Value::string(b"xyz".to_vec()));

    let cmd = KeysCommand;
    let args = vec![bulk("user:*")];
    let result = cmd.execute(&mut ctx, &args);

    if let RespValue::Array(keys) = result {
        assert_eq!(keys.len(), 2);
    } else {
        panic!("Expected array response");
    }
}

#[test]
fn test_keys_suffix() {
    let mut ctx = CommandContext::new();

    ctx.store.set(b"data:cache".to_vec(), Value::string(b"1".to_vec()));
    ctx.store.set(b"temp:cache".to_vec(), Value::string(b"2".to_vec()));
    ctx.store.set(b"data:main".to_vec(), Value::string(b"3".to_vec()));

    let cmd = KeysCommand;
    let args = vec![bulk("*:cache")];
    let result = cmd.execute(&mut ctx, &args);

    if let RespValue::Array(keys) = result {
        assert_eq!(keys.len(), 2);
    } else {
        panic!("Expected array response");
    }
}

#[test]
fn test_keys_contains() {
    let mut ctx = CommandContext::new();

    ctx.store.set(b"user_admin".to_vec(), Value::string(b"1".to_vec()));
    ctx.store.set(b"admin_role".to_vec(), Value::string(b"2".to_vec()));
    ctx.store.set(b"role_user".to_vec(), Value::string(b"3".to_vec()));

    let cmd = KeysCommand;
    let args = vec![bulk("*admin*")];
    let result = cmd.execute(&mut ctx, &args);

    if let RespValue::Array(keys) = result {
        assert_eq!(keys.len(), 2);
    } else {
        panic!("Expected array response");
    }
}

#[test]
fn test_keys_exact() {
    let mut ctx = CommandContext::new();

    ctx.store.set(b"exact_key".to_vec(), Value::string(b"1".to_vec()));
    ctx.store.set(b"other_key".to_vec(), Value::string(b"2".to_vec()));

    let cmd = KeysCommand;
    let args = vec![bulk("exact_key")];
    let result = cmd.execute(&mut ctx, &args);

    if let RespValue::Array(keys) = result {
        assert_eq!(keys.len(), 1);
        if let RespValue::BulkString(key) = &keys[0] {
            assert_eq!(key, &b"exact_key".to_vec());
        }
    } else {
        panic!("Expected array response");
    }
}

#[test]
fn wrong_number_of_arguments() {
    let mut ctx = CommandContext::new();
    let now = at(0);
    let cases: Vec<(AnyCommand, usize, &str)> = vec![
        (AnyCommand::SetValue, 1, "SET"),
        (AnyCommand::Get, 0, "GET"),
        (AnyCommand::Del, 0, "DEL"),
        (AnyCommand::Exists, 0, "EXISTS"),
        (AnyCommand::Expire, 1, "EXPIRE"),
        (AnyCommand::Ttl, 0, "TTL"),
        (AnyCommand::Incr, 0, "INCR"),
        (AnyCommand::IncrBy, 1, "INCRBY"),
        (AnyCommand::Decr, 0, "DECR"),
        (AnyCommand::DecrBy, 1, "DECRBY"),
        (AnyCommand::LPush, 1, "LPUSH"),
        (AnyCommand::RPush, 1, "RPUSH"),
        (AnyCommand::LRange, 2, "LRANGE"),
        (AnyCommand::LLen, 0, "LLEN"),
        (AnyCommand::SAdd, 1, "SADD"),
        (AnyCommand::SMembers, 0, "SMEMBERS"),
        (AnyCommand::SCard, 0, "SCARD"),
        (AnyCommand::HSet, 2, "HSET"),
        (AnyCommand::HSet, 4, "HSET"),
        (AnyCommand::HGet, 1, "HGET"),
        (AnyCommand::HGetAll, 0, "HGETALL"),
        (AnyCommand::HDel, 1, "HDEL"),
        (AnyCommand::HKeys, 0, "HKEYS"),
        (AnyCommand::HIncrBy, 2, "HINCRBY"),
        (AnyCommand::Keys, 0, "KEYS"),
    ];
    for (command, count, name) in cases {
        let args: Vec<RespValue> = (0..count).map(|i| bulk(&format!("a{}", i))).collect();
        assert_eq!(
            command.execute_at(&mut ctx, &args, now),
            error(&format!("ERR wrong number of arguments for '{}' command", name))
        );
        assert_eq!(command.name(), name);
        assert!(command.min_args() > count || name == "HSET");
    }
    assert_eq!(ctx.store.len(), 0);
}

#[test]
fn arguments_of_the_wrong_kind() {
    let mut ctx = CommandContext::new();
    let now = at(0);
    let not_bulk = error("ERR Expected bulk string");
    let number = RespValue::integer(1);
    assert_eq!(SetCommand.execute_at(&mut ctx, &[number.clone(), bulk("v")], now), not_bulk);
    assert_eq!(SetCommand.execute_at(&mut ctx, &[bulk("k"), number.clone()], now), not_bulk);
    assert_eq!(GetCommand.execute_at(&mut ctx, &[RespValue::Null], now), not_bulk);
    assert_eq!(
        DelCommand.execute_at(&mut ctx, &[bulk("k"), number.clone()], now),
        not_bulk
    );
    assert_eq!(
        LPushCommand.execute_at(&mut ctx, &[bulk("l"), bulk("a"), number.clone()], now),
        not_bulk
    );
    assert_eq!(
        SAddCommand.execute_at(&mut ctx, &[bulk("s"), number.clone()], now),
        not_bulk
    );
    assert_eq!(
        HSetCommand.execute_at(&mut ctx, &[bulk("h"), bulk("f"), number.clone()], now),
        not_bulk
    );
    assert_eq!(
        HDelCommand.execute_at(&mut ctx, &[bulk("h"), number.clone()], now),
        not_bulk
    );
    // Nothing was changed by any of them.
    assert_eq!(ctx.store.len(), 0);

    assert_eq!(
        ExpireCommand.execute_at(&mut ctx, &[bulk("k"), bulk("soon")], now),
        error("ERR Invalid integer")
    );
    assert_eq!(
        ExpireCommand.execute_at(
            &mut ctx,
            &[bulk("k"), RespValue::bulk_string(vec![0xff])],
            now
        ),
        error("ERR Invalid UTF-8")
    );
    assert_eq!(
        IncrByCommand.execute_at(&mut ctx, &[bulk("k"), RespValue::Null], now),
        error("ERR Expected integer or bulk string")
    );
    // An integer frame is taken as a number.
    assert_eq!(
        IncrByCommand.execute_at(&mut ctx, &[bulk("k"), RespValue::integer(4)], now),
        RespValue::integer(4)
    );
}

#[test]
fn wrong_type() {
    let mut ctx = CommandContext::new();
    let now = at(0);
    RPushCommand.execute_at(&mut ctx, &bulks(&["list", "a"]), now);
    SAddCommand.execute_at(&mut ctx, &bulks(&["set", "a"]), now);
    HSetCommand.execute_at(&mut ctx, &bulks(&["hash", "f", "v"]), now);
    SetCommand.execute_at(&mut ctx, &bulks(&["string", "v"]), now);

    let wrong = error(WRONGTYPE);
    assert_eq!(GetCommand.execute_at(&mut ctx, &bulks(&["list"]), now), wrong);
    assert_eq!(IncrCommand.execute_at(&mut ctx, &bulks(&["list"]), now), wrong);
    assert_eq!(DecrByCommand.execute_at(&mut ctx, &bulks(&["hash", "1"]), now), wrong);
    assert_eq!(LPushCommand.execute_at(&mut ctx, &bulks(&["string", "a"]), now), wrong);
    assert_eq!(RPushCommand.execute_at(&mut ctx, &bulks(&["set", "a"]), now), wrong);
    assert_eq!(LRangeCommand.execute_at(&mut ctx, &bulks(&["set", "0", "1"]), now), wrong);
    assert_eq!(LLenCommand.execute_at(&mut ctx, &bulks(&["hash"]), now), wrong);
    assert_eq!(SAddCommand.execute_at(&mut ctx, &bulks(&["list", "a"]), now), wrong);
    assert_eq!(SMembersCommand.execute_at(&mut ctx, &bulks(&["list"]), now), wrong);
    assert_eq!(SCardCommand.execute_at(&mut ctx, &bulks(&["string"]), now), wrong);
    assert_eq!(HSetCommand.execute_at(&mut ctx, &bulks(&["list", "f", "v"]), now), wrong);
    assert_eq!(HGetCommand.execute_at(&mut ctx, &bulks(&["list", "f"]), now), wrong);
    assert_eq!(HGetAllCommand.execute_at(&mut ctx, &bulks(&["set"]), now), wrong);
    assert_eq!(HDelCommand.execute_at(&mut ctx, &bulks(&["string", "f"]), now), wrong);
    assert_eq!(HKeysCommand.execute_at(&mut ctx, &bulks(&["list"]), now), wrong);
    assert_eq!(
        HIncrByCommand.execute_at(&mut ctx, &bulks(&["set", "f", "1"]), now),
        wrong
    );

    // Nothing was changed by any of them.
    assert_eq!(
        LRangeCommand.execute_at(&mut ctx, &bulks(&["list", "0", "-1"]), now),
        RespValue::array(vec![bulk("a")])
    );
    assert_eq!(SCardCommand.execute_at(&mut ctx, &bulks(&["set"]), now), RespValue::integer(1));
    assert_eq!(
        HGetAllCommand.execute_at(&mut ctx, &bulks(&["hash"]), now),
        RespValue::array(vec![bulk("f"), bulk("v")])
    );
    assert_eq!(GetCommand.execute_at(&mut ctx, &bulks(&["string"]), now), bulk("v"));
}

#[test]
fn get_of_a_counter_is_its_text() {
    let mut ctx = CommandContext::new();
    let now = at(0);
    DecrByCommand.execute_at(&mut ctx, &bulks(&["n", "42"]), now);
    assert_eq!(GetCommand.execute_at(&mut ctx, &bulks(&["n"]), now), bulk("-42"));
}

#[test]
fn counters() {
    let mut ctx = CommandContext::new();
    let now = at(0);
    // A string that spells a number counts as that number, and becomes one.
    SetCommand.execute_at(&mut ctx, &bulks(&["n", "10"]), now);
    assert_eq!(IncrCommand.execute_at(&mut ctx, &bulks(&["n"]), now), RespValue::integer(11));
    assert_eq!(ctx.store.get_at(b"n", 0).unwrap().as_integer(), Some(11));
    assert_eq!(
        IncrByCommand.execute_at(&mut ctx, &bulks(&["n", "-20"]), now),
        RespValue::integer(-9)
    );
    assert_eq!(DecrCommand.execute_at(&mut ctx, &bulks(&["n"]), now), RespValue::integer(-10));
    assert_eq!(
        DecrByCommand.execute_at(&mut ctx, &bulks(&["n", "-15"]), now),
        RespValue::integer(5)
    );

    let not_a_number = error("ERR value is not an integer or out of range");
    SetCommand.execute_at(&mut ctx, &bulks(&["s", "ten"]), now);
    assert_eq!(IncrCommand.execute_at(&mut ctx, &bulks(&["s"]), now), not_a_number);
    assert_eq!(DecrCommand.execute_at(&mut ctx, &bulks(&["s"]), now), not_a_number);
    assert_eq!(GetCommand.execute_at(&mut ctx, &bulks(&["s"]), now), bulk("ten"));

    let up = error("ERR increment would overflow");
    let down = error("ERR decrement would overflow");
    let max = i64::MAX.to_string();
    let min = i64::MIN.to_string();
    SetCommand.execute_at(&mut ctx, &bulks(&["max", &max]), now);
    assert_eq!(IncrCommand.execute_at(&mut ctx, &bulks(&["max"]), now), up);
    assert_eq!(IncrByCommand.execute_at(&mut ctx, &bulks(&["max", "1"]), now), up);
    assert_eq!(GetCommand.execute_at(&mut ctx, &bulks(&["max"]), now), bulk(&max));
    SetCommand.execute_at(&mut ctx, &bulks(&["min", &min]), now);
    assert_eq!(DecrCommand.execute_at(&mut ctx, &bulks(&["min"]), now), down);
    assert_eq!(DecrByCommand.execute_at(&mut ctx, &bulks(&["min", "1"]), now), down);
    assert_eq!(GetCommand.execute_at(&mut ctx, &bulks(&["min"]), now), bulk(&min));
    // Taking the least number from nothing leaves the range too.
    assert_eq!(DecrByCommand.execute_at(&mut ctx, &bulks(&["fresh", &min]), now), down);
    assert!(!ctx.store.exists_at(b"fresh", 0));
    assert_eq!(
        IncrByCommand.execute_at(&mut ctx, &bulks(&["fresh", &min]), now),
        RespValue::integer(i64::MIN)
    );
}

#[test]
fn counting_keeps_the_expiry() {
    let mut ctx = CommandContext::new();
    IncrCommand.execute_at(&mut ctx, &bulks(&["n"]), at(0));
    ExpireCommand.execute_at(&mut ctx, &bulks(&["n", "10"]), at(0));
    assert_eq!(IncrCommand.execute_at(&mut ctx, &bulks(&["n"]), at(5)), RespValue::integer(2));
    assert_eq!(TtlCommand.execute_at(&mut ctx, &bulks(&["n"]), at(5)), RespValue::integer(5));
    // Past the expiry the count begins again, without expiry.
    assert_eq!(IncrCommand.execute_at(&mut ctx, &bulks(&["n"]), at(10)), RespValue::integer(1));
    assert_eq!(TtlCommand.execute_at(&mut ctx, &bulks(&["n"]), at(10)), RespValue::integer(-1));
}

#[test]
fn expire_and_ttl_at_given_instants() {
    let mut ctx = CommandContext::new();
    SetCommand.execute_at(&mut ctx, &bulks(&["k", "v"]), at(0));
    assert_eq!(TtlCommand.execute_at(&mut ctx, &bulks(&["k"]), at(0)), RespValue::integer(-1));
    assert_eq!(
        ExpireCommand.execute_at(&mut ctx, &bulks(&["k", "100"]), at(1)),
        RespValue::integer(1)
    );
    assert_eq!(TtlCommand.execute_at(&mut ctx, &bulks(&["k"]), at(1)), RespValue::integer(100));
    assert_eq!(TtlCommand.execute_at(&mut ctx, &bulks(&["k"]), at(2)), RespValue::integer(99));
    assert_eq!(
        ExistsCommand.execute_at(&mut ctx, &bulks(&["k", "k"]), at(100)),
        RespValue::integer(2)
    );
    assert_eq!(TtlCommand.execute_at(&mut ctx, &bulks(&["k"]), at(101)), RespValue::integer(-2));
    assert_eq!(GetCommand.execute_at(&mut ctx, &bulks(&["k"]), at(0)), RespValue::Null);
    assert_eq!(
        ExpireCommand.execute_at(&mut ctx, &bulks(&["k", "100"]), at(0)),
        RespValue::integer(0)
    );
    // A time to live that is not positive clears the expiry.
    SetCommand.execute_at(&mut ctx, &bulks(&["k", "v"]), at(0));
    ExpireCommand.execute_at(&mut ctx, &bulks(&["k", "5"]), at(0));
    assert_eq!(
        ExpireCommand.execute_at(&mut ctx, &bulks(&["k", "0"]), at(1)),
        RespValue::integer(1)
    );
    assert_eq!(TtlCommand.execute_at(&mut ctx, &bulks(&["k"]), at(50)), RespValue::integer(-1));
}

#[test]
fn del_counts_each_key_once() {
    let mut ctx = CommandContext::new();
    SetCommand.execute_at(&mut ctx, &bulks(&["a", "1"]), at(0));
    SetCommand.execute_at(&mut ctx, &bulks(&["b", "2"]), at(0));
    ExpireCommand.execute_at(&mut ctx, &bulks(&["b", "1"]), at(0));
    assert_eq!(
        DelCommand.execute_at(&mut ctx, &bulks(&["a", "a", "b", "c"]), at(5)),
        RespValue::integer(1)
    );
    assert_eq!(ctx.store.len(), 0);
}

#[test]
fn lists() {
    let mut ctx = CommandContext::new();
    let now = at(0);
    // Each value pushed to the front ends up before those pushed earlier.
    assert_eq!(
        LPushCommand.execute_at(&mut ctx, &bulks(&["l", "a", "b", "c"]), now),
        RespValue::integer(3)
    );
    let range = |ctx: &mut CommandContext, start: &str, stop: &str| {
        LRangeCommand.execute_at(ctx, &bulks(&["l", start, stop]), now)
    };
    assert_eq!(range(&mut ctx, "0", "-1"), RespValue::array(bulks(&["c", "b", "a"])));
    assert_eq!(
        RPushCommand.execute_at(&mut ctx, &bulks(&["l", "d", "e"]), now),
        RespValue::integer(5)
    );
    assert_eq!(
        range(&mut ctx, "0", "-1"),
        RespValue::array(bulks(&["c", "b", "a", "d", "e"]))
    );
    assert_eq!(range(&mut ctx, "0", "0"), RespValue::array(bulks(&["c"])));
    assert_eq!(range(&mut ctx, "4", "4"), RespValue::array(bulks(&["e"])));
    assert_eq!(range(&mut ctx, "-1", "-1"), RespValue::array(bulks(&["e"])));
    assert_eq!(range(&mut ctx, "3", "100"), RespValue::array(bulks(&["d", "e"])));
    assert_eq!(range(&mut ctx, "-100", "1"), RespValue::array(bulks(&["c", "b"])));
    assert_eq!(range(&mut ctx, "-3", "-2"), RespValue::array(bulks(&["a", "d"])));
    let empty = RespValue::array(vec![]);
    assert_eq!(range(&mut ctx, "2", "1"), empty);
    assert_eq!(range(&mut ctx, "5", "10"), empty);
    assert_eq!(range(&mut ctx, "0", "-6"), empty);
    assert_eq!(range(&mut ctx, "0", "-100"), empty);
    assert_eq!(range(&mut ctx, "-1", "0"), empty);
    let least = i64::MIN.to_string();
    let most = i64::MAX.to_string();
    assert_eq!(range(&mut ctx, &most, &most), empty);
    assert_eq!(range(&mut ctx, &least, &least), empty);
    assert_eq!(
        range(&mut ctx, &least, &most),
        RespValue::array(bulks(&["c", "b", "a", "d", "e"]))
    );
    assert_eq!(
        LRangeCommand.execute_at(&mut ctx, &bulks(&["none", "0", "-1"]), now),
        empty
    );
    assert_eq!(
        LRangeCommand.execute_at(&mut ctx, &bulks(&["l", "x", "1"]), now),
        error("ERR Invalid integer")
    );
    assert_eq!(LLenCommand.execute_at(&mut ctx, &bulks(&["l"]), now), RespValue::integer(5));
}

#[test]
fn sets() {
    let mut ctx = CommandContext::new();
    let now = at(0);
    assert_eq!(
        SAddCommand.execute_at(&mut ctx, &bulks(&["s", "a", "b", "a", "c", "b"]), now),
        RespValue::integer(3)
    );
    assert_eq!(SCardCommand.execute_at(&mut ctx, &bulks(&["s"]), now), RespValue::integer(3));
    assert_eq!(
        SAddCommand.execute_at(&mut ctx, &bulks(&["s", "b", "c", "d"]), now),
        RespValue::integer(1)
    );
    assert_eq!(SCardCommand.execute_at(&mut ctx, &bulks(&["s"]), now), RespValue::integer(4));
    assert_eq!(
        sorted_bulks(SMembersCommand.execute_at(&mut ctx, &bulks(&["s"]), now)),
        vec![b"a".to_vec(), b"b".to_vec(), b"c".to_vec(), b"d".to_vec()]
    );
}

#[test]
fn hashes() {
    let mut ctx = CommandContext::new();
    let now = at(0);
    // The answer counts the fields that are new, not the pairs.
    assert_eq!(
        HSetCommand.execute_at(&mut ctx, &bulks(&["h", "f1", "v1", "f2", "v2", "f1", "v3"]), now),
        RespValue::integer(2)
    );
    assert_eq!(
        HSetCommand.execute_at(&mut ctx, &bulks(&["h", "f2", "w", "f3", "x"]), now),
        RespValue::integer(1)
    );
    assert_eq!(HGetCommand.execute_at(&mut ctx, &bulks(&["h", "f1"]), now), bulk("v3"));
    assert_eq!(HGetCommand.execute_at(&mut ctx, &bulks(&["h", "f2"]), now), bulk("w"));
    assert_eq!(HGetCommand.execute_at(&mut ctx, &bulks(&["none", "f"]), now), RespValue::Null);
    assert_eq!(
        sorted_bulks(HKeysCommand.execute_at(&mut ctx, &bulks(&["h"]), now)),
        vec![b"f1".to_vec(), b"f2".to_vec(), b"f3".to_vec()]
    );
    match HGetAllCommand.execute_at(&mut ctx, &bulks(&["h"]), now) {
        RespValue::Array(items) => {
            assert_eq!(items.len(), 6);
            let mut pairs: Vec<(RespValue, RespValue)> =
                items.chunks(2).map(|p| (p[0].clone(), p[1].clone())).collect();
            pairs.sort_by_key(|p| format!("{:?}", p.0));
            assert_eq!(
                pairs,
                vec![
                    (bulk("f1"), bulk("v3")),
                    (bulk("f2"), bulk("w")),
                    (bulk("f3"), bulk("x")),
                ]
            );
        }
        other => panic!("not an array: {:?}", other),
    }
    assert_eq!(
        HKeysCommand.execute_at(&mut ctx, &bulks(&["none"]), now),
        RespValue::array(vec![])
    );
    assert_eq!(
        HGetAllCommand.execute_at(&mut ctx, &bulks(&["none"]), now),
        RespValue::array(vec![])
    );
    assert_eq!(
        HDelCommand.execute_at(&mut ctx, &bulks(&["h", "f1", "zz", "f1", "f3"]), now),
        RespValue::integer(2)
    );
    assert_eq!(
        HDelCommand.execute_at(&mut ctx, &bulks(&["none", "f"]), now),
        RespValue::integer(0)
    );
    assert_eq!(
        sorted_bulks(HKeysCommand.execute_at(&mut ctx, &bulks(&["h"]), now)),
        vec![b"f2".to_vec()]
    );
}

#[test]
fn hash_counters() {
    let mut ctx = CommandContext::new();
    let now = at(0);
    assert_eq!(
        HIncrByCommand.execute_at(&mut ctx, &bulks(&["h", "c", "10"]), now),
        RespValue::integer(10)
    );
    assert_eq!(
        HIncrByCommand.execute_at(&mut ctx, &bulks(&["h", "c", "-25"]), now),
        RespValue::integer(-15)
    );
    // The number is kept as its text.
    assert_eq!(HGetCommand.execute_at(&mut ctx, &bulks(&["h", "c"]), now), bulk("-15"));
    HSetCommand.execute_at(&mut ctx, &bulks(&["h", "t", "text"]), now);
    assert_eq!(
        HIncrByCommand.execute_at(&mut ctx, &bulks(&["h", "t", "1"]), now),
        error("ERR hash value is not an integer")
    );
    let max = i64::MAX.to_string();
    HSetCommand.execute_at(&mut ctx, &bulks(&["h", "m", &max]), now);
    assert_eq!(
        HIncrByCommand.execute_at(&mut ctx, &bulks(&["h", "m", "1"]), now),
        error("ERR increment would overflow")
    );
    assert_eq!(HGetCommand.execute_at(&mut ctx, &bulks(&["h", "m"]), now), bulk(&max));
    assert_eq!(
        HIncrByCommand.execute_at(&mut ctx, &bulks(&["h", "m", "x"]), now),
        error("ERR Invalid integer")
    );
}

#[test]
fn client_stubs() {
    let mut ctx = CommandContext::new();
    let now = at(0);
    let ok = RespValue::simple_string("OK");
    let run = |ctx: &mut CommandContext, words: &[&str]| {
        ClientCommand.execute_at(ctx, &bulks(words), now)
    };
    assert_eq!(run(&mut ctx, &["SETNAME", "me"]), ok);
    assert_eq!(run(&mut ctx, &["setname", "me"]), ok);
    assert_eq!(
        run(&mut ctx, &["SETNAME"]),
        error("ERR wrong number of arguments for 'client setname'")
    );
    assert_eq!(run(&mut ctx, &["GetName"]), RespValue::Null);
    assert_eq!(run(&mut ctx, &["LIST"]), RespValue::bulk_string(Vec::new()));
    assert_eq!(run(&mut ctx, &["SETINFO", "lib-name", "x"]), ok);
    assert_eq!(run(&mut ctx, &["REPLY", "ON"]), ok);
    assert_eq!(run(&mut ctx, &["id"]), RespValue::integer(1));
    assert_eq!(run(&mut ctx, &["kill"]), error("ERR unknown subcommand 'KILL'"));
    assert_eq!(
        run(&mut ctx, &[]),
        error("ERR wrong number of arguments for 'client' command")
    );
    assert_eq!(
        ClientCommand.execute_at(&mut ctx, &[RespValue::integer(1)], now),
        error("ERR invalid subcommand")
    );
    assert_eq!(
        ClientCommand.execute_at(&mut ctx, &[RespValue::bulk_string(vec![0xff])], now),
        error("ERR invalid subcommand")
    );
}

#[test]
fn info_text_is_exact() {
    let mut ctx = CommandContext::new();
    ctx.set_platform("linux", "x86_64");
    SetCommand.execute_at(&mut ctx, &bulks(&["a", "1"]), at(0));
    SetCommand.execute_at(&mut ctx, &bulks(&["b", "2"]), at(0));
    SetCommand.execute_at(&mut ctx, &bulks(&["c", "3"]), at(0));
    ExpireCommand.execute_at(&mut ctx, &bulks(&["c", "1"]), at(0));
    let expected = "# Server\r\nferrumdb_version:0.1.0\r\nferrumdb_mode:standalone\r\n\
                    os:linux\r\narch:x86_64\r\n\r\n# Keyspace\r\ndb0:keys=2,expires=1\r\n";
    assert_eq!(
        InfoCommand.execute_at(&mut ctx, &bulks(&["keyspace"]), at(5)),
        bulk(expected)
    );
    // INFO only reads: the expired key is still there.
    assert_eq!(ctx.store.len(), 3);
    let fresh = CommandContext::new();
    assert_eq!(fresh.os, "unknown");
    assert_eq!(fresh.arch, "unknown");
}

#[test]
fn keys_patterns() {
    assert!(matches_pattern(b"anything", "*"));
    assert!(matches_pattern(b"", "*"));
    assert!(matches_pattern(b"user:1", "user:*"));
    assert!(!matches_pattern(b"xuser:1", "user:*"));
    assert!(matches_pattern(b"data:cache", "*:cache"));
    assert!(!matches_pattern(b"data:cache1", "*:cache"));
    assert!(matches_pattern(b"user_admin", "*admin*"));
    assert!(matches_pattern(b"admin", "*admin*"));
    assert!(!matches_pattern(b"admi", "*admin*"));
    assert!(matches_pattern(b"x", "**"));
    assert!(matches_pattern(b"exact", "exact"));
    assert!(!matches_pattern(b"exact1", "exact"));
    assert!(matches_pattern(b"", ""));
    assert!(!matches_pattern(b"a", ""));
    // A star in the middle is no wildcard.
    assert!(matches_pattern(b"a*b", "a*b"));
    assert!(!matches_pattern(b"axb", "a*b"));
    // Keys are byte strings: one that is not UTF-8 is matched like any other.
    assert!(matches_pattern(&[0xff, 0xfe], "*"));
    assert!(matches_pattern(&[b'a', 0xff], "a*"));
    assert!(matches_pattern(&[0xff, b'a'], "*a"));
    assert!(matches_pattern(&[0xff, b'a', 0xfe], "*a*"));
    assert!(!matches_pattern(&[0xff, 0xfe], "a*"));
    assert!(!matches_pattern(&[0xff, 0xfe], "a"));
    assert!(matches_pattern("clé".as_bytes(), "*é"));
}

#[test]
fn keys_lists_only_what_has_not_expired() {
    let mut ctx = CommandContext::new();
    SetCommand.execute_at(&mut ctx, &bulks(&["user:1", "a"]), at(0));
    SetCommand.execute_at(&mut ctx, &bulks(&["user:2", "b"]), at(0));
    SetCommand.execute_at(&mut ctx, &bulks(&["other", "c"]), at(0));
    ExpireCommand.execute_at(&mut ctx, &bulks(&["user:2", "1"]), at(0));
    assert_eq!(
        sorted_bulks(KeysCommand.execute_at(&mut ctx, &bulks(&["user:*"]), at(0))),
        vec![b"user:1".to_vec(), b"user:2".to_vec()]
    );
    assert_eq!(
        sorted_bulks(KeysCommand.execute_at(&mut ctx, &bulks(&["user:*"]), at(5))),
        vec![b"user:1".to_vec()]
    );
    assert_eq!(
        KeysCommand.execute_at(&mut ctx, &[RespValue::bulk_string(vec![0xff])], at(5)),
        error("ERR invalid pattern encoding")
    );
    // A key that is not UTF-8 is listed like any other.
    SetCommand.execute_at(
        &mut ctx,
        &[RespValue::bulk_string(vec![0xff, 0xfe]), bulk("d")],
        at(5),
    );
    assert_eq!(
        sorted_bulks(KeysCommand.execute_at(&mut ctx, &bulks(&["*"]), at(5))),
        vec![b"other".to_vec(), b"user:1".to_vec(), vec![0xff, 0xfe]]
    );
}

#[test]
fn registry() {
    let registry = CommandRegistry::new();
    assert_eq!(registry.get("get"), Some(AnyCommand::Get));
    assert_eq!(registry.get("Set"), Some(AnyCommand::SetValue));
    assert_eq!(registry.get("HINCRBY"), Some(AnyCommand::HIncrBy));
    assert_eq!(registry.get("flushDB"), Some(AnyCommand::FlushDb));
    assert_eq!(registry.get("PING"), None);
    assert_eq!(registry.get(""), None);
    assert!(registry.has_command("smembers"));
    assert!(!registry.has_command("SMEMBER"));
    // Looking up the upper-case name does not fold the case again.
    assert_eq!(CommandRegistry::lookup("get"), None);
    assert_eq!(CommandRegistry::lookup("GET"), Some(AnyCommand::Get));

    let names = registry.command_names();
    assert_eq!(names.len(), 27);
    for name in &names {
        let command = registry.get(&name.to_lowercase()).unwrap();
        assert_eq!(command.name(), name);
        if let Some(most) = command.max_args() {
            assert!(command.min_args() <= most);
        }
    }
    assert_eq!(AnyCommand::Get.min_args(), 1);
    assert_eq!(AnyCommand::Get.max_args(), Some(1));
    assert_eq!(AnyCommand::HSet.min_args(), 3);
    assert_eq!(AnyCommand::HSet.max_args(), None);
    assert_eq!(AnyCommand::Info.min_args(), 0);
    assert_eq!(AnyCommand::Info.max_args(), Some(1));
    assert_eq!(AnyCommand::FlushDb.max_args(), Some(0));
    assert_eq!(AnyCommand::Client.max_args(), None);
}

fn logged(ctx: &mut CommandContext) -> Vec<(AofOperation, Vec<u8>, Vec<Vec<u8>>, u64)> {
    let batch = ctx.aof_writer.as_mut().unwrap().flush();
    AofReader::from_data(batch.bytes)
        .parse_entries()
        .into_iter()
        .map(|e| (e.op, e.key, e.payload, e.timestamp))
        .collect()
}

#[test]
fn what_is_logged() {
    let mut ctx = CommandContext::with_capacity(16);
    ctx.set_aof_writer(AofWriter::new(SyncPolicy::Always, 0));
    let now = at(3);
    let stamp = now.wall_millis;

    SetCommand.execute_at(&mut ctx, &bulks(&["k", "v"]), now);
    assert_eq!(
        logged(&mut ctx),
        vec![(AofOperation::SetKey, b"k".to_vec(), vec![b"v".to_vec()], stamp)]
    );

    IncrCommand.execute_at(&mut ctx, &bulks(&["n"]), now);
    IncrCommand.execute_at(&mut ctx, &bulks(&["n"]), now);
    assert_eq!(
        logged(&mut ctx),
        vec![
            (AofOperation::SetKey, b"n".to_vec(), vec![b"1".to_vec()], stamp),
            (AofOperation::SetKey, b"n".to_vec(), vec![b"2".to_vec()], stamp),
        ]
    );

    HSetCommand.execute_at(&mut ctx, &bulks(&["h", "f", "1", "g", "2"]), now);
    assert_eq!(
        logged(&mut ctx),
        vec![
            (AofOperation::HSet, b"h".to_vec(), vec![b"f".to_vec(), b"1".to_vec()], stamp),
            (AofOperation::HSet, b"h".to_vec(), vec![b"g".to_vec(), b"2".to_vec()], stamp),
        ]
    );

    HIncrByCommand.execute_at(&mut ctx, &bulks(&["h", "f", "41"]), now);
    assert_eq!(
        logged(&mut ctx),
        vec![(AofOperation::HSet, b"h".to_vec(), vec![b"f".to_vec(), b"42".to_vec()], stamp)]
    );

    HDelCommand.execute_at(&mut ctx, &bulks(&["h", "g", "zz"]), now);
    assert_eq!(
        logged(&mut ctx),
        vec![(AofOperation::HDel, b"h".to_vec(), vec![b"g".to_vec()], stamp)]
    );

    ExpireCommand.execute_at(&mut ctx, &bulks(&["k", "60"]), now);
    ExpireCommand.execute_at(&mut ctx, &bulks(&["absent", "60"]), now);
    assert_eq!(
        logged(&mut ctx),
        vec![(AofOperation::Expire, b"k".to_vec(), vec![b"60".to_vec()], stamp)]
    );

    DelCommand.execute_at(&mut ctx, &bulks(&["k", "absent", "n"]), now);
    assert_eq!(
        logged(&mut ctx),
        vec![
            (AofOperation::Del, b"k".to_vec(), vec![], stamp),
            (AofOperation::Del, b"n".to_vec(), vec![], stamp),
        ]
    );

    // Reads, failures and the commands that are not logged leave the log alone.
    GetCommand.execute_at(&mut ctx, &bulks(&["h"]), now);
    IncrByCommand.execute_at(&mut ctx, &bulks(&["m", "5"]), now);
    DecrCommand.execute_at(&mut ctx, &bulks(&["m"]), now);
    DecrByCommand.execute_at(&mut ctx, &bulks(&["m", "2"]), now);
    LPushCommand.execute_at(&mut ctx, &bulks(&["l", "a"]), now);
    RPushCommand.execute_at(&mut ctx, &bulks(&["l", "a"]), now);
    SAddCommand.execute_at(&mut ctx, &bulks(&["s", "a"]), now);
    HSetCommand.execute_at(&mut ctx, &bulks(&["l", "f", "v"]), now);
    FlushDbCommand.execute_at(&mut ctx, &[], now);
    assert_eq!(logged(&mut ctx), vec![]);
}
