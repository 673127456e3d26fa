use ferrumdb::aof::replay_entries;
use ferrumdb::aof::AofConfig;
use ferrumdb::aof::AofReader;
use ferrumdb::aof::AofWriter;
use ferrumdb::commands::CommandContext;
use ferrumdb::store::MemoryStore;
use ferrumdb::aof::AofEntry;
use ferrumdb::aof::AofOperation;
use ferrumdb::aof::SyncPolicy;
use ferrumdb::dispatch::Dispatcher;
use ferrumdb::protocol::RespValue;
use ferrumdb::store::Moment;

const SECOND: u64 = 1_000_000_000;

fn bulk(text: &str) -> RespValue {
    RespValue::bulk_string(text.as_bytes().to_vec())
}

fn command(words: &[&str]) -> RespValue {
    RespValue::array(words.iter().map(|w| bulk(w)).collect())
}

fn at(seconds: u64) -> Moment {
    Moment { monotonic: seconds * SECOND, wall_millis: seconds * 1000 }
}

fn error(text: &str) -> RespValue {
    RespValue::Error(text.to_string())
}

#[test]
fn test_dispatch_set_get() {
    let mut dispatcher = Dispatcher::new();

    // SET mykey myvalue
    let set_cmd = RespValue::array(vec![bulk("SET"), bulk("mykey"), bulk("myvalue")]);

    let result = dispatcher.dispatch(set_cmd);
    assert_eq!(result, RespValue::simple_string("OK"));

    // GET mykey
    let get_cmd = RespValue::array(vec![bulk("GET"), bulk("mykey")]);

    let result = dispatcher.dispatch(get_cmd);
    assert_eq!(result, RespValue::bulk_string(b"myvalue".to_vec()));
}

#[test]
fn test_dispatch_unknown_command() {
    let mut dispatcher = Dispatcher::new();

    let cmd = RespValue::array(vec![bulk("UNKNOWN")]);

    let result = dispatcher.dispatch(cmd);
    assert!(matches!(result, RespValue::Error(_)));
}

#[test]
fn test_dispatch_invalid_args() {
    let mut dispatcher = Dispatcher::new();

    // GET without key
    let cmd = RespValue::array(vec![bulk("GET")]);

    let result = dispatcher.dispatch(cmd);
    assert!(matches!(result, RespValue::Error(_)));
}

#[test]
fn dispatch_errors_are_exact() {
    let mut dispatcher = Dispatcher::with_capacity(8);
    let now = at(0);
    assert_eq!(
        dispatcher.dispatch_at(RespValue::integer(1), now),
        error("ERR expected array")
    );
    assert_eq!(dispatcher.dispatch_at(RespValue::Null, now), error("ERR expected array"));
    assert_eq!(
        dispatcher.dispatch_at(RespValue::array(vec![]), now),
        error("ERR empty command array")
    );
    assert_eq!(
        dispatcher.dispatch_at(RespValue::array(vec![RespValue::integer(1)]), now),
        error("ERR command name must be a bulk string")
    );
    assert_eq!(
        dispatcher.dispatch_at(
            RespValue::array(vec![RespValue::bulk_string(vec![0xc0, 0x80])]),
            now
        ),
        error("ERR invalid command name encoding")
    );
    assert_eq!(
        dispatcher.dispatch_at(command(&["Unknown", "x"]), now),
        error("ERR unknown command 'Unknown'")
    );
    // The name is shown as it was given.
    assert_eq!(
        dispatcher.dispatch_at(command(&["get"]), now),
        error("ERR wrong number of arguments for 'get' command")
    );
    assert_eq!(
        dispatcher.dispatch_at(command(&["GET", "a", "b"]), now),
        error("ERR wrong number of arguments for 'GET' command")
    );
    assert_eq!(
        dispatcher.dispatch_at(command(&["flushdb", "now"]), now),
        error("ERR wrong number of arguments for 'flushdb' command")
    );
    assert_eq!(dispatcher.context().store.len(), 0);
}

#[test]
fn dispatch_is_case_insensitive() {
    let mut dispatcher = Dispatcher::default();
    let now = at(0);
    assert_eq!(
        dispatcher.dispatch_at(command(&["set", "k", "v"]), now),
        RespValue::simple_string("OK")
    );
    assert_eq!(dispatcher.dispatch_at(command(&["gEt", "k"]), now), bulk("v"));
    assert_eq!(
        dispatcher.dispatch_at(command(&["Exists", "k", "k", "z"]), now),
        RespValue::integer(2)
    );
    dispatcher.context_mut().store.clear();
    assert_eq!(dispatcher.dispatch_at(command(&["GET", "k"]), now), RespValue::Null);
}

#[test]
fn scenario_strings() {
    let mut dispatcher = Dispatcher::new();
    assert_eq!(
        dispatcher.dispatch(command(&["SET", "mykey", "myvalue"])),
        RespValue::simple_string("OK")
    );
    assert_eq!(dispatcher.dispatch(command(&["GET", "mykey"])), bulk("myvalue"));
    assert_eq!(dispatcher.dispatch(command(&["GET", "none"])), RespValue::Null);
}

#[test]
fn scenario_lists() {
    let mut dispatcher = Dispatcher::new();
    assert_eq!(
        dispatcher.dispatch(command(&["RPUSH", "mylist", "a", "b", "c"])),
        RespValue::integer(3)
    );
    assert_eq!(
        dispatcher.dispatch(command(&["LPUSH", "mylist", "x"])),
        RespValue::integer(4)
    );
    assert_eq!(
        dispatcher.dispatch(command(&["LRANGE", "mylist", "0", "-1"])),
        RespValue::array(vec![bulk("x"), bulk("a"), bulk("b"), bulk("c")])
    );
    assert_eq!(
        dispatcher.dispatch(command(&["LRANGE", "mylist", "-2", "-1"])),
        RespValue::array(vec![bulk("b"), bulk("c")])
    );
}

#[test]
fn scenario_sets() {
    let mut dispatcher = Dispatcher::new();
    assert_eq!(
        dispatcher.dispatch(command(&["SADD", "myset", "a", "b", "c"])),
        RespValue::integer(3)
    );
    assert_eq!(dispatcher.dispatch(command(&["SCARD", "myset"])), RespValue::integer(3));
    assert_eq!(
        dispatcher.dispatch(command(&["SADD", "myset", "b", "c", "d"])),
        RespValue::integer(1)
    );
    assert_eq!(dispatcher.dispatch(command(&["SCARD", "myset"])), RespValue::integer(4));
    match dispatcher.dispatch(command(&["SMEMBERS", "myset"])) {
        RespValue::Array(items) => assert_eq!(items.len(), 4),
        other => panic!("not an array: {:?}", other),
    }
}

#[test]
fn scenario_hashes() {
    let mut dispatcher = Dispatcher::new();
    assert_eq!(
        dispatcher.dispatch(command(&["HSET", "h", "f1", "v1", "f2", "v2"])),
        RespValue::integer(2)
    );
    assert_eq!(dispatcher.dispatch(command(&["HGET", "h", "f1"])), bulk("v1"));
    assert_eq!(dispatcher.dispatch(command(&["HDEL", "h", "f1"])), RespValue::integer(1));
    assert_eq!(dispatcher.dispatch(command(&["HDEL", "h", "f1"])), RespValue::integer(0));
    assert_eq!(
        dispatcher.dispatch(command(&["HINCRBY", "h", "c", "10"])),
        RespValue::integer(10)
    );
    assert_eq!(
        dispatcher.dispatch(command(&["HINCRBY", "h", "c", "5"])),
        RespValue::integer(15)
    );
}

#[test]
fn scenario_no_update_is_lost() {
    let mut dispatcher = Dispatcher::new();
    dispatcher.dispatch(command(&["SET", "n", "40"]));
    assert_eq!(dispatcher.dispatch(command(&["INCR", "n"])), RespValue::integer(41));
    assert_eq!(dispatcher.dispatch(command(&["INCR", "n"])), RespValue::integer(42));
    assert_eq!(dispatcher.dispatch(command(&["GET", "n"])), bulk("42"));
}

fn dump(dispatcher: &mut Dispatcher, keys: &[&str], now: Moment) -> Vec<String> {
    let mut lines = Vec::new();
    for key in keys {
        let plain = dispatcher.dispatch_at(command(&["GET", key]), now);
        let mut fields = match dispatcher.dispatch_at(command(&["HGETALL", key]), now) {
            RespValue::Array(items) => items
                .chunks(2)
                .map(|p| format!("{:?}={:?}", p[0], p[1]))
                .collect::<Vec<String>>(),
            other => vec![format!("{:?}", other)],
        };
        fields.sort();
        let ttl = dispatcher.dispatch_at(command(&["TTL", key]), now);
        lines.push(format!("{} {:?} {:?} {:?}", key, plain, fields, ttl));
    }
    lines
}

#[test]
fn scenario_durability() {
    let config = AofConfig {
        path: "unused.aof".to_string(),
        sync_policy: SyncPolicy::Always,
        enabled: true,
    };
    let now = at(10);
    let mut first = Dispatcher::with_aof_at(&config, None, now);
    let script: Vec<Vec<&str>> = vec![
        vec!["SET", "a", "1"],
        vec!["SET", "b", "two"],
        vec!["HSET", "h", "f1", "v1", "f2", "v2"],
        vec!["SET", "gone", "x"],
        vec!["DEL", "gone", "never"],
        vec!["HSET", "h", "f1", "changed"],
        vec!["HDEL", "h", "f2", "f9"],
        vec!["INCR", "n"],
        vec!["INCR", "n"],
        vec!["HINCRBY", "h", "count", "7"],
        vec!["SET", "a", "again"],
        vec!["HSET", "gone2", "f", "v"],
        vec!["DEL", "gone2"],
        vec!["EXPIRE", "b", "100"],
    ];
    let mut file: Vec<u8> = Vec::new();
    for words in &script {
        let reply = first.dispatch_at(command(words), now);
        assert!(!matches!(reply, RespValue::Error(_)));
        // What the writer hands over after each command goes to the file.
        let batch = first.context_mut().aof_writer.as_mut().unwrap().flush();
        assert!(batch.sync);
        file.extend_from_slice(&batch.bytes);
    }
    let keys = ["a", "b", "h", "gone", "gone2", "n", "never"];
    let before = dump(&mut first, &keys, now);

    // A new process: an empty store, the file read and replayed.
    let mut second = Dispatcher::with_aof_at(&config, Some(file.clone()), now);
    assert_eq!(dump(&mut second, &keys, now), before);
    assert_eq!(second.context().store.len(), first.context().store.len());
    assert!(second.context().aof_writer.is_some());

    // Without a log nothing is replayed, and none is written.
    let off = AofConfig { path: "unused.aof".to_string(), sync_policy: SyncPolicy::No, enabled: false };
    let third = Dispatcher::with_aof_at(&off, Some(file.clone()), now);
    assert_eq!(third.context().store.len(), 0);
    assert!(third.context().aof_writer.is_none());

    // A file that is cut short gives the state up to its last whole entry.
    let mut cut = Dispatcher::with_aof(&config, Some(file[..file.len() - 1].to_vec()));
    assert_eq!(cut.dispatch(command(&["TTL", "b"])), RespValue::integer(-1));
    assert_eq!(cut.dispatch(command(&["GET", "a"])), bulk("again"));
}

#[test]
fn replay_takes_entries_as_written_by_hand() {
    let mut file = Vec::new();
    for entry in [
        AofEntry::with_timestamp(AofOperation::SetKey, 1, b"k".to_vec(), vec![b"v".to_vec()]),
        AofEntry::with_timestamp(AofOperation::Incr, 2, b"n".to_vec(), vec![b"5".to_vec()]),
        AofEntry::with_timestamp(AofOperation::SAdd, 3, b"s".to_vec(), vec![b"m".to_vec()]),
    ] {
        file.extend_from_slice(&entry.to_bytes());
    }
    let mut dispatcher = Dispatcher::with_aof_at(&AofConfig::default(), Some(file), at(0));
    assert_eq!(dispatcher.dispatch_at(command(&["GET", "k"]), at(0)), bulk("v"));
    assert_eq!(dispatcher.dispatch_at(command(&["INCR", "n"]), at(0)), RespValue::integer(6));
    assert_eq!(dispatcher.dispatch_at(command(&["SCARD", "s"]), at(0)), RespValue::integer(0));
}

#[test]
fn a_run_of_commands_replays_into_a_fresh_store() {
    let mut context = CommandContext::new();
    context.set_aof_writer(AofWriter::new(SyncPolicy::Always, 0));
    let mut first = Dispatcher::with_context(context);
    let script: Vec<Vec<&str>> = vec![
        vec!["SET", "a", "1"],
        vec!["HSET", "h", "f1", "v1", "f2", "v2"],
        vec!["SET", "b", "2"],
        vec!["HDEL", "h", "f1", "nope"],
        vec!["DEL", "b", "never"],
        vec!["HSET", "a", "f", "v"],
        vec!["HDEL", "a", "f"],
        vec!["SET", "h2", "x"],
        vec!["DEL", "h2"],
        vec!["HSET", "h2", "k", "v"],
        vec!["HSET", "h", "f2", "again", "f3", "v3"],
    ];
    let mut file: Vec<u8> = Vec::new();
    for (i, words) in script.iter().enumerate() {
        first.dispatch_at(command(words), at(i as u64));
        let batch = first.context_mut().aof_writer.as_mut().unwrap().flush();
        // Every write is forced to disk; a command that logs nothing forces nothing.
        assert_eq!(batch.sync, !batch.bytes.is_empty());
        file.extend_from_slice(&batch.bytes);
    }

    let entries = AofReader::from_data(file).parse_entries();
    // One entry for each SET, each pair of HSET, each field and key taken out.
    assert_eq!(entries.len(), 1 + 2 + 1 + 1 + 1 + 0 + 0 + 1 + 1 + 1 + 2);
    let count = entries.len();
    let mut store = MemoryStore::new();
    assert_eq!(replay_entries(&mut store, entries), Ok(count));

    let left = &mut first.context_mut().store;
    let mut keys = left.keys_at(1000 * SECOND);
    keys.sort();
    let mut replayed = store.keys_at(0);
    replayed.sort();
    assert_eq!(keys, replayed);
    assert_eq!(keys, vec![b"a".to_vec(), b"h".to_vec(), b"h2".to_vec()]);
    for key in &keys {
        let was = left.get_at(key, 0).unwrap();
        let is = store.get_at(key, 0).unwrap();
        assert_eq!(was.as_string(), is.as_string());
        match (was.as_hash(), is.as_hash()) {
            (Some(x), Some(y)) => {
                assert_eq!(x.len(), y.len());
                for i in 0..x.len() {
                    assert_eq!(y.get(x.key_at(i)), Some(x.value_at(i)));
                }
            }
            (None, None) => {}
            _ => panic!("the two stores hold values of different kinds"),
        }
    }
    assert_eq!(store.get_at(b"a", 0).unwrap().as_string(), Some(&b"1".to_vec()));
    assert_eq!(store.get_at(b"h", 0).unwrap().as_hash().unwrap().len(), 2);
}
