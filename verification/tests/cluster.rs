use ferrumdb::cluster::aof_path_for;
use ferrumdb::cluster::default_shard_count;
use ferrumdb::cluster::route_command;
use ferrumdb::cluster::ClusterManager;
use ferrumdb::cluster::Shard;
use ferrumdb::cluster::ShardAction;
use ferrumdb::cluster::ShardConfig;
use ferrumdb::cluster::ShardEvent;
use ferrumdb::cluster::ShardRouter;
use ferrumdb::cluster::ShardState;
use ferrumdb::commands::CommandContext;
use ferrumdb::commands::CommandRegistry;
use ferrumdb::protocol::RespValue;
use ferrumdb::store::Moment;
use std::hash::Hasher;

const SECOND: u64 = 1_000_000_000;

fn bulk(text: &str) -> RespValue {
    RespValue::bulk_string(text.as_bytes().to_vec())
}

fn command(words: &[&str]) -> RespValue {
    RespValue::array(words.iter().map(|w| bulk(w)).collect())
}

fn at(seconds: u64) -> Moment {
    Moment { monotonic: seconds * SECOND, wall_millis: seconds * 1000 }
}

fn error(text: &str) -> RespValue {
    RespValue::Error(text.to_string())
}

#[test]
fn test_routing_deterministic() {
    let router = ShardRouter::new(4);
    let key = b"test_key".to_vec();

    // Same key should always route to same shard
    let shard1 = router.route_key(&key);
    let shard2 = router.route_key(&key);
    assert_eq!(shard1, shard2);
}

#[test]
fn test_routing_distribution() {
    let router = ShardRouter::new(4);
    let mut shard_counts = vec![0; 4];

    // Test with 1000 keys
    for i in 0..1000 {
        let key = format!("key_{}", i).into_bytes();
        let shard = router.route_key(&key);
        shard_counts[shard] += 1;
    }

    // Each shard should get roughly 250 keys (±50 for variance)
    for count in shard_counts {
        assert!(count > 200 && count < 300, "Uneven distribution: {}", count);
    }
}

#[test]
fn test_single_shard() {
    let router = ShardRouter::new(1);
    let key = b"any_key".to_vec();
    assert_eq!(router.route_key(&key), 0);
}

#[test]
fn routing_is_the_hash_of_length_and_key() {
    let router = ShardRouter::new(7);
    assert_eq!(router.num_shards(), 7);
    for key in [&b""[..], b"a", b"key_1", b"a much longer key than the others"] {
        let mut hasher = siphasher::sip::SipHasher13::new();
        hasher.write(&(key.len() as u64).to_le_bytes());
        hasher.write(key);
        assert_eq!(router.route_key(key), (hasher.finish() % 7) as usize);
    }
    // Not every key goes to one shard.
    let first = router.route_key(b"key_0");
    assert!((1..100).any(|i| router.route_key(format!("key_{}", i).as_bytes()) != first));
}

#[test]
fn routing_of_commands() {
    let router = ShardRouter::new(5);
    let to = |key: &str| router.route_key(key.as_bytes());
    assert_eq!(route_command(&router, &command(&["GET", "alpha"])), to("alpha"));
    assert_eq!(route_command(&router, &command(&["set", "beta", "v"])), to("beta"));
    // Only the first key counts.
    assert_eq!(route_command(&router, &command(&["DEL", "k1", "k2"])), to("k1"));
    // Commands without a key go to shard 0, whatever follows the name.
    for key in ["a", "b", "c", "d", "e", "f", "g", "h"] {
        assert_eq!(route_command(&router, &command(&["INFO", key])), 0);
        assert_eq!(route_command(&router, &command(&["flushdb", key])), 0);
        assert_eq!(route_command(&router, &command(&["Ping", key])), 0);
    }
    assert_eq!(route_command(&router, &command(&["GET"])), 0);
    assert_eq!(route_command(&router, &command(&[])), 0);
    assert_eq!(route_command(&router, &RespValue::integer(3)), 0);
    assert_eq!(route_command(&router, &bulk("GET")), 0);
    assert_eq!(
        route_command(
            &router,
            &RespValue::array(vec![RespValue::integer(1), bulk("alpha")])
        ),
        0
    );
    assert_eq!(
        route_command(&router, &RespValue::array(vec![bulk("GET"), RespValue::integer(1)])),
        0
    );
    assert_eq!(
        route_command(
            &router,
            &RespValue::array(vec![RespValue::bulk_string(vec![0xff]), bulk("alpha")])
        ),
        0
    );
    // The keys used above do not all go to shard 0.
    assert!(["alpha", "beta", "k1", "gamma", "delta"].iter().any(|k| to(k) != 0));
}

#[test]
fn shard_count_and_log_paths() {
    assert_eq!(default_shard_count(0), 1);
    assert_eq!(default_shard_count(1), 1);
    assert_eq!(default_shard_count(8), 8);
    assert_eq!(default_shard_count(16), 16);
    assert_eq!(default_shard_count(17), 16);
    assert_eq!(default_shard_count(usize::MAX), 16);
    assert_eq!(aof_path_for(0), "ferrumdb_shard_0.aof");
    assert_eq!(aof_path_for(15), "ferrumdb_shard_15.aof");
}

#[test]
fn shard_life() {
    let config = ShardConfig { shard_id: 3, aof_enabled: false, aof_path: None };
    let mut shard = Shard::new(&config);
    assert_eq!(shard.id(), 3);
    assert_eq!(shard.state(), ShardState::Starting);
    assert!(shard.context().aof_writer.is_none());

    // Before its loop runs the shard serves nothing.
    assert!(matches!(
        shard.handle(ShardEvent::Command(command(&["SET", "k", "v"]))),
        ShardAction::Unavailable
    ));
    assert!(matches!(shard.handle(ShardEvent::StatsRequest), ShardAction::Unavailable));
    assert!(matches!(shard.handle(ShardEvent::InboxClosed), ShardAction::Nothing));
    assert_eq!(shard.state(), ShardState::Starting);

    assert!(matches!(shard.handle(ShardEvent::Started), ShardAction::Nothing));
    assert_eq!(shard.state(), ShardState::Running);
    assert!(matches!(shard.handle(ShardEvent::Started), ShardAction::Nothing));
    assert_eq!(shard.state(), ShardState::Running);

    match shard.handle_at(ShardEvent::Command(command(&["SET", "k", "v"])), at(0)) {
        ShardAction::Reply(reply) => assert_eq!(reply, RespValue::simple_string("OK")),
        other => panic!("unexpected action {:?}", other),
    }
    shard.handle_at(ShardEvent::Command(command(&["EXPIRE", "k", "1"])), at(0));
    match shard.handle_at(ShardEvent::StatsRequest, at(5)) {
        ShardAction::Stats(stats) => {
            assert_eq!(stats.total_keys, 1);
            assert_eq!(stats.active_keys, 0);
            assert_eq!(stats.expired_keys, 1);
            assert_eq!(stats.used_memory_bytes, 0);
        }
        other => panic!("unexpected action {:?}", other),
    }
    assert_eq!(shard.get_stats().total_keys, 1);

    // With one inbox closed the other is still served.
    assert!(matches!(shard.handle(ShardEvent::InboxClosed), ShardAction::Nothing));
    assert_eq!(shard.state(), ShardState::Draining);
    match shard.handle_at(ShardEvent::Command(command(&["GET", "k"])), at(0)) {
        ShardAction::Reply(reply) => assert_eq!(reply, bulk("v")),
        other => panic!("unexpected action {:?}", other),
    }
    assert!(matches!(shard.handle(ShardEvent::InboxClosed), ShardAction::Exit));
    assert_eq!(shard.state(), ShardState::Stopped);
    assert!(matches!(
        shard.handle(ShardEvent::Command(command(&["GET", "k"]))),
        ShardAction::Unavailable
    ));
    assert!(matches!(shard.handle(ShardEvent::InboxClosed), ShardAction::Nothing));
    assert_eq!(shard.state(), ShardState::Stopped);
}

#[test]
fn shard_with_a_log() {
    let config = ShardConfig {
        shard_id: 0,
        aof_enabled: true,
        aof_path: Some(aof_path_for(0)),
    };
    let mut shard = Shard::new_at(&config, at(0));
    shard.handle(ShardEvent::Started);
    shard.handle_at(ShardEvent::Command(command(&["SET", "k", "v"])), at(0));
    let batch = shard.context_mut().aof_writer.as_mut().unwrap().flush();
    assert!(batch.bytes.len() >= 25);
    // Every second, and no second has passed.
    assert!(!batch.sync);
    shard.handle_at(ShardEvent::Command(command(&["SET", "k", "w"])), at(1));
    assert!(shard.context_mut().aof_writer.as_mut().unwrap().flush().sync);

    // A log that is enabled without a path is not kept.
    let odd = ShardConfig { shard_id: 1, aof_enabled: true, aof_path: None };
    assert!(Shard::new(&odd).context().aof_writer.is_none());
}

#[test]
fn shard_dispatch_errors() {
    let registry = CommandRegistry::new();
    let mut ctx = CommandContext::new();
    let mut run = |frame: RespValue| Shard::dispatch_command(&registry, &mut ctx, frame);
    assert_eq!(run(RespValue::integer(1)), error("ERR invalid command format"));
    assert_eq!(run(RespValue::array(vec![])), error("ERR invalid command format"));
    assert_eq!(
        run(RespValue::array(vec![RespValue::Null])),
        error("ERR command name must be a bulk string")
    );
    assert_eq!(
        run(RespValue::array(vec![RespValue::bulk_string(vec![0x80])])),
        error("ERR invalid command name encoding")
    );
    assert_eq!(run(command(&["nope"])), error("ERR unknown command 'nope'"));
    // The number of arguments is checked before the command runs; the name
    // is shown as it was given.
    assert_eq!(
        run(command(&["get"])),
        error("ERR wrong number of arguments for 'get' command")
    );
    assert_eq!(run(command(&["set", "k", "v"])), RespValue::simple_string("OK"));
    assert_eq!(
        run(command(&["GET", "k", "extra"])),
        error("ERR wrong number of arguments for 'GET' command")
    );
    assert_eq!(
        run(command(&["flushdb", "now"])),
        error("ERR wrong number of arguments for 'flushdb' command")
    );
    assert_eq!(
        run(command(&["TTL", "k", "k"])),
        error("ERR wrong number of arguments for 'TTL' command")
    );
    // Nothing was changed by any of them.
    assert_eq!(run(command(&["get", "k"])), bulk("v"));
    // A command without a greatest number takes as many as it is given.
    assert_eq!(run(command(&["del", "k", "a", "b", "c"])), RespValue::integer(1));
}

#[test]
fn cluster_keeps_keys_apart() {
    let mut cluster = ClusterManager::new(4, false);
    assert_eq!(cluster.num_shards(), 4);
    let router = ShardRouter::new(4);
    let now = at(0);
    let mut expected = vec![0usize; 4];
    for i in 0..200 {
        let key = format!("key_{}", i);
        expected[router.route_key(key.as_bytes())] += 1;
        assert_eq!(
            cluster.execute_at(command(&["SET", &key, "v"]), now),
            RespValue::simple_string("OK")
        );
    }
    // Every key went to the store of its shard, and to no other.
    for shard in 0..4 {
        assert_eq!(cluster.shard(shard).id(), shard);
        assert_eq!(cluster.shard(shard).context().store.len(), expected[shard]);
    }
    for i in 0..200 {
        let key = format!("key_{}", i);
        assert_eq!(cluster.execute_at(command(&["GET", &key]), now), bulk("v"));
    }
    let details = cluster.get_shard_details();
    assert_eq!(details.len(), 4);
    for (shard, detail) in details.iter().enumerate() {
        assert_eq!(detail.shard_id, shard);
        assert_eq!(detail.total_keys, expected[shard]);
        assert_eq!(detail.active_keys, expected[shard]);
        assert_eq!(detail.expired_keys, 0);
    }
    let stats = cluster.get_cluster_stats();
    assert_eq!(stats.num_shards, 4);
    assert_eq!(stats.total_keys, 200);
    assert_eq!(
        stats.total_memory_bytes,
        details.iter().map(|d| d.memory_bytes).sum::<usize>()
    );

    // FLUSHDB goes to shard 0 and empties that shard alone.
    assert_eq!(cluster.execute(command(&["FLUSHDB"])), RespValue::simple_string("OK"));
    assert_eq!(cluster.shard(0).context().store.len(), 0);
    for shard in 1..4 {
        assert_eq!(cluster.shard(shard).context().store.len(), expected[shard]);
    }
}

#[test]
fn cluster_routes_by_the_first_key_only() {
    let mut cluster = ClusterManager::new(8, false);
    let router = ShardRouter::new(8);
    let now = at(0);
    // Two keys on different shards.
    let first = "key_0".to_string();
    let other = (1..100)
        .map(|i| format!("key_{}", i))
        .find(|k| router.route_key(k.as_bytes()) != router.route_key(first.as_bytes()))
        .unwrap();
    cluster.execute_at(command(&["SET", &first, "1"]), now);
    cluster.execute_at(command(&["SET", &other, "2"]), now);
    assert_eq!(
        cluster.execute_at(command(&["DEL", &first, &other]), now),
        RespValue::integer(1)
    );
    assert_eq!(cluster.execute_at(command(&["GET", &other]), now), bulk("2"));
}

#[test]
fn cluster_serializes_counters() {
    let mut cluster = ClusterManager::new(3, true);
    for shard in 0..3 {
        assert!(cluster.shard(shard).context().aof_writer.is_some());
        assert_eq!(cluster.shard(shard).state(), ShardState::Running);
    }
    for expected in 1..=50 {
        assert_eq!(
            cluster.execute(command(&["INCR", "counter"])),
            RespValue::integer(expected)
        );
    }
    assert_eq!(cluster.execute(command(&["GET", "counter"])), bulk("50"));
    assert_eq!(
        cluster.execute(command(&["GET", "counter", "extra"])),
        error("ERR wrong number of arguments for 'GET' command")
    );
    assert_eq!(
        cluster.execute(RespValue::integer(9)),
        error("ERR invalid command format")
    );
}
