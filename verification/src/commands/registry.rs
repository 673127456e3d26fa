//! The catalogue of commands, by name.

use vstd::prelude::*;
use vstd::string::StringExecFns;
use crate::commands::admin::InfoCommand;
use crate::commands::admin::FlushDbCommand;
use crate::commands::admin::ClientCommand;
use crate::commands::counter::IncrCommand;
use crate::commands::counter::IncrByCommand;
use crate::commands::counter::DecrCommand;
use crate::commands::counter::DecrByCommand;
use crate::commands::hash::HSetCommand;
use crate::commands::hash::HGetCommand;
use crate::commands::hash::HGetAllCommand;
use crate::commands::hash::HDelCommand;
use crate::commands::hash::HKeysCommand;
use crate::commands::hash::HIncrByCommand;
use crate::commands::key::DelCommand;
use crate::commands::key::ExistsCommand;
use crate::commands::list::LPushCommand;
use crate::commands::list::RPushCommand;
use crate::commands::list::LRangeCommand;
use crate::commands::list::LLenCommand;
use crate::commands::search::KeysCommand;
use crate::commands::set::SAddCommand;
use crate::commands::set::SMembersCommand;
use crate::commands::set::SCardCommand;
use crate::commands::string::SetCommand;
use crate::commands::string::GetCommand;
use crate::commands::ttl::ExpireCommand;
use crate::commands::ttl::TtlCommand;
use crate::commands::admin::str_eq;
use crate::commands::context::CommandContext;
use crate::commands::context::ContextView;
use crate::commands::Command;
use crate::protocol::text::str_to_uppercase;
use crate::protocol::text::folded;
use crate::protocol::types::Frame;
use crate::protocol::types::RespValue;
use crate::store::clock::Moment;

verus! {

/// Any command of the catalogue.
#[derive(Debug, Clone, Copy, PartialEq, Eq, Structural)]
pub enum AnyCommand {
    /// `SET`.
    SetValue,
    /// `GET`.
    Get,
    /// `DEL`.
    Del,
    /// `EXISTS`.
    Exists,
    /// `EXPIRE`.
    Expire,
    /// `TTL`.
    Ttl,
    /// `INCR`.
    Incr,
    /// `INCRBY`.
    IncrBy,
    /// `DECR`.
    Decr,
    /// `DECRBY`.
    DecrBy,
    /// `LPUSH`.
    LPush,
    /// `RPUSH`.
    RPush,
    /// `LRANGE`.
    LRange,
    /// `LLEN`.
    LLen,
    /// `SADD`.
    SAdd,
    /// `SMEMBERS`.
    SMembers,
    /// `SCARD`.
    SCard,
    /// `HSET`.
    HSet,
    /// `HGET`.
    HGet,
    /// `HGETALL`.
    HGetAll,
    /// `HDEL`.
    HDel,
    /// `HKEYS`.
    HKeys,
    /// `HINCRBY`.
    HIncrBy,
    /// `INFO`.
    Info,
    /// `FLUSHDB`.
    FlushDb,
    /// `CLIENT`.
    Client,
    /// `KEYS`.
    Keys,
}

/// The command whose upper-case name is `name`, if the catalogue has one.
pub open spec fn catalogue(name: Seq<char>) -> Option<AnyCommand> {
    if name == "SET"@ {
        Some(AnyCommand::SetValue)
    }     else if name == "GET"@ {
        Some(AnyCommand::Get)
    }     else if name == "DEL"@ {
        Some(AnyCommand::Del)
    }     else if name == "EXISTS"@ {
        Some(AnyCommand::Exists)
    }     else if name == "EXPIRE"@ {
        Some(AnyCommand::Expire)
    }     else if name == "TTL"@ {
        Some(AnyCommand::Ttl)
    }     else if name == "INCR"@ {
        Some(AnyCommand::Incr)
    }     else if name == "INCRBY"@ {
        Some(AnyCommand::IncrBy)
    }     else if name == "DECR"@ {
        Some(AnyCommand::Decr)
    }     else if name == "DECRBY"@ {
        Some(AnyCommand::DecrBy)
    }     else if name == "LPUSH"@ {
        Some(AnyCommand::LPush)
    }     else if name == "RPUSH"@ {
        Some(AnyCommand::RPush)
    }     else if name == "LRANGE"@ {
        Some(AnyCommand::LRange)
    }     else if name == "LLEN"@ {
        Some(AnyCommand::LLen)
    }     else if name == "SADD"@ {
        Some(AnyCommand::SAdd)
    }     else if name == "SMEMBERS"@ {
        Some(AnyCommand::SMembers)
    }     else if name == "SCARD"@ {
        Some(AnyCommand::SCard)
    }     else if name == "HSET"@ {
        Some(AnyCommand::HSet)
    }     else if name == "HGET"@ {
        Some(AnyCommand::HGet)
    }     else if name == "HGETALL"@ {
        Some(AnyCommand::HGetAll)
    }     else if name == "HDEL"@ {
        Some(AnyCommand::HDel)
    }     else if name == "HKEYS"@ {
        Some(AnyCommand::HKeys)
    }     else if name == "HINCRBY"@ {
        Some(AnyCommand::HIncrBy)
    }     else if name == "INFO"@ {
        Some(AnyCommand::Info)
    }     else if name == "FLUSHDB"@ {
        Some(AnyCommand::FlushDb)
    }     else if name == "CLIENT"@ {
        Some(AnyCommand::Client)
    }     else if name == "KEYS"@ {
        Some(AnyCommand::Keys)
    } else {
        None
    }
}

/// The upper-case names of the commands of the catalogue.
pub open spec fn catalogue_names() -> Seq<Seq<char>> {
    seq![
        "SET"@,
        "GET"@,
        "DEL"@,
        "EXISTS"@,
        "EXPIRE"@,
        "TTL"@,
        "INCR"@,
        "INCRBY"@,
        "DECR"@,
        "DECRBY"@,
        "LPUSH"@,
        "RPUSH"@,
        "LRANGE"@,
        "LLEN"@,
        "SADD"@,
        "SMEMBERS"@,
        "SCARD"@,
        "HSET"@,
        "HGET"@,
        "HGETALL"@,
        "HDEL"@,
        "HKEYS"@,
        "HINCRBY"@,
        "INFO"@,
        "FLUSHDB"@,
        "CLIENT"@,
        "KEYS"@,
    ]
}

impl Command for AnyCommand {
    open spec fn label(&self) -> Seq<char> {
        match self {
            AnyCommand::SetValue => SetCommand.label(),
            AnyCommand::Get => GetCommand.label(),
            AnyCommand::Del => DelCommand.label(),
            AnyCommand::Exists => ExistsCommand.label(),
            AnyCommand::Expire => ExpireCommand.label(),
            AnyCommand::Ttl => TtlCommand.label(),
            AnyCommand::Incr => IncrCommand.label(),
            AnyCommand::IncrBy => IncrByCommand.label(),
            AnyCommand::Decr => DecrCommand.label(),
            AnyCommand::DecrBy => DecrByCommand.label(),
            AnyCommand::LPush => LPushCommand.label(),
            AnyCommand::RPush => RPushCommand.label(),
            AnyCommand::LRange => LRangeCommand.label(),
            AnyCommand::LLen => LLenCommand.label(),
            AnyCommand::SAdd => SAddCommand.label(),
            AnyCommand::SMembers => SMembersCommand.label(),
            AnyCommand::SCard => SCardCommand.label(),
            AnyCommand::HSet => HSetCommand.label(),
            AnyCommand::HGet => HGetCommand.label(),
            AnyCommand::HGetAll => HGetAllCommand.label(),
            AnyCommand::HDel => HDelCommand.label(),
            AnyCommand::HKeys => HKeysCommand.label(),
            AnyCommand::HIncrBy => HIncrByCommand.label(),
            AnyCommand::Info => InfoCommand.label(),
            AnyCommand::FlushDb => FlushDbCommand.label(),
            AnyCommand::Client => ClientCommand.label(),
            AnyCommand::Keys => KeysCommand.label(),
        }
    }

    open spec fn least_args(&self) -> nat {
        match self {
            AnyCommand::SetValue => SetCommand.least_args(),
            AnyCommand::Get => GetCommand.least_args(),
            AnyCommand::Del => DelCommand.least_args(),
            AnyCommand::Exists => ExistsCommand.least_args(),
            AnyCommand::Expire => ExpireCommand.least_args(),
            AnyCommand::Ttl => TtlCommand.least_args(),
            AnyCommand::Incr => IncrCommand.least_args(),
            AnyCommand::IncrBy => IncrByCommand.least_args(),
            AnyCommand::Decr => DecrCommand.least_args(),
            AnyCommand::DecrBy => DecrByCommand.least_args(),
            AnyCommand::LPush => LPushCommand.least_args(),
            AnyCommand::RPush => RPushCommand.least_args(),
            AnyCommand::LRange => LRangeCommand.least_args(),
            AnyCommand::LLen => LLenCommand.least_args(),
            AnyCommand::SAdd => SAddCommand.least_args(),
            AnyCommand::SMembers => SMembersCommand.least_args(),
            AnyCommand::SCard => SCardCommand.least_args(),
            AnyCommand::HSet => HSetCommand.least_args(),
            AnyCommand::HGet => HGetCommand.least_args(),
            AnyCommand::HGetAll => HGetAllCommand.least_args(),
            AnyCommand::HDel => HDelCommand.least_args(),
            AnyCommand::HKeys => HKeysCommand.least_args(),
            AnyCommand::HIncrBy => HIncrByCommand.least_args(),
            AnyCommand::Info => InfoCommand.least_args(),
            AnyCommand::FlushDb => FlushDbCommand.least_args(),
            AnyCommand::Client => ClientCommand.least_args(),
            AnyCommand::Keys => KeysCommand.least_args(),
        }
    }

    open spec fn most_args(&self) -> Option<nat> {
        match self {
            AnyCommand::SetValue => SetCommand.most_args(),
            AnyCommand::Get => GetCommand.most_args(),
            AnyCommand::Del => DelCommand.most_args(),
            AnyCommand::Exists => ExistsCommand.most_args(),
            AnyCommand::Expire => ExpireCommand.most_args(),
            AnyCommand::Ttl => TtlCommand.most_args(),
            AnyCommand::Incr => IncrCommand.most_args(),
            AnyCommand::IncrBy => IncrByCommand.most_args(),
            AnyCommand::Decr => DecrCommand.most_args(),
            AnyCommand::DecrBy => DecrByCommand.most_args(),
            AnyCommand::LPush => LPushCommand.most_args(),
            AnyCommand::RPush => RPushCommand.most_args(),
            AnyCommand::LRange => LRangeCommand.most_args(),
            AnyCommand::LLen => LLenCommand.most_args(),
            AnyCommand::SAdd => SAddCommand.most_args(),
            AnyCommand::SMembers => SMembersCommand.most_args(),
            AnyCommand::SCard => SCardCommand.most_args(),
            AnyCommand::HSet => HSetCommand.most_args(),
            AnyCommand::HGet => HGetCommand.most_args(),
            AnyCommand::HGetAll => HGetAllCommand.most_args(),
            AnyCommand::HDel => HDelCommand.most_args(),
            AnyCommand::HKeys => HKeysCommand.most_args(),
            AnyCommand::HIncrBy => HIncrByCommand.most_args(),
            AnyCommand::Info => InfoCommand.most_args(),
            AnyCommand::FlushDb => FlushDbCommand.most_args(),
            AnyCommand::Client => ClientCommand.most_args(),
            AnyCommand::Keys => KeysCommand.most_args(),
        }
    }

    open spec fn accepts(
        &self,
        pre: ContextView,
        args: Seq<Frame>,
        now: Moment,
        post: ContextView,
        reply: Frame,
    ) -> bool {
        match self {
            AnyCommand::SetValue => SetCommand.accepts(pre, args, now, post, reply),
            AnyCommand::Get => GetCommand.accepts(pre, args, now, post, reply),
            AnyCommand::Del => DelCommand.accepts(pre, args, now, post, reply),
            AnyCommand::Exists => ExistsCommand.accepts(pre, args, now, post, reply),
            AnyCommand::Expire => ExpireCommand.accepts(pre, args, now, post, reply),
            AnyCommand::Ttl => TtlCommand.accepts(pre, args, now, post, reply),
            AnyCommand::Incr => IncrCommand.accepts(pre, args, now, post, reply),
            AnyCommand::IncrBy => IncrByCommand.accepts(pre, args, now, post, reply),
            AnyCommand::Decr => DecrCommand.accepts(pre, args, now, post, reply),
            AnyCommand::DecrBy => DecrByCommand.accepts(pre, args, now, post, reply),
            AnyCommand::LPush => LPushCommand.accepts(pre, args, now, post, reply),
            AnyCommand::RPush => RPushCommand.accepts(pre, args, now, post, reply),
            AnyCommand::LRange => LRangeCommand.accepts(pre, args, now, post, reply),
            AnyCommand::LLen => LLenCommand.accepts(pre, args, now, post, reply),
            AnyCommand::SAdd => SAddCommand.accepts(pre, args, now, post, reply),
            AnyCommand::SMembers => SMembersCommand.accepts(pre, args, now, post, reply),
            AnyCommand::SCard => SCardCommand.accepts(pre, args, now, post, reply),
            AnyCommand::HSet => HSetCommand.accepts(pre, args, now, post, reply),
            AnyCommand::HGet => HGetCommand.accepts(pre, args, now, post, reply),
            AnyCommand::HGetAll => HGetAllCommand.accepts(pre, args, now, post, reply),
            AnyCommand::HDel => HDelCommand.accepts(pre, args, now, post, reply),
            AnyCommand::HKeys => HKeysCommand.accepts(pre, args, now, post, reply),
            AnyCommand::HIncrBy => HIncrByCommand.accepts(pre, args, now, post, reply),
            AnyCommand::Info => InfoCommand.accepts(pre, args, now, post, reply),
            AnyCommand::FlushDb => FlushDbCommand.accepts(pre, args, now, post, reply),
            AnyCommand::Client => ClientCommand.accepts(pre, args, now, post, reply),
            AnyCommand::Keys => KeysCommand.accepts(pre, args, now, post, reply),
        }
    }

    fn execute_at(&self, ctx: &mut CommandContext, args: &[RespValue], now: Moment) -> (reply:
        RespValue) {
        match self {
            AnyCommand::SetValue => SetCommand.execute_at(ctx, args, now),
            AnyCommand::Get => GetCommand.execute_at(ctx, args, now),
            AnyCommand::Del => DelCommand.execute_at(ctx, args, now),
            AnyCommand::Exists => ExistsCommand.execute_at(ctx, args, now),
            AnyCommand::Expire => ExpireCommand.execute_at(ctx, args, now),
            AnyCommand::Ttl => TtlCommand.execute_at(ctx, args, now),
            AnyCommand::Incr => IncrCommand.execute_at(ctx, args, now),
            AnyCommand::IncrBy => IncrByCommand.execute_at(ctx, args, now),
            AnyCommand::Decr => DecrCommand.execute_at(ctx, args, now),
            AnyCommand::DecrBy => DecrByCommand.execute_at(ctx, args, now),
            AnyCommand::LPush => LPushCommand.execute_at(ctx, args, now),
            AnyCommand::RPush => RPushCommand.execute_at(ctx, args, now),
            AnyCommand::LRange => LRangeCommand.execute_at(ctx, args, now),
            AnyCommand::LLen => LLenCommand.execute_at(ctx, args, now),
            AnyCommand::SAdd => SAddCommand.execute_at(ctx, args, now),
            AnyCommand::SMembers => SMembersCommand.execute_at(ctx, args, now),
            AnyCommand::SCard => SCardCommand.execute_at(ctx, args, now),
            AnyCommand::HSet => HSetCommand.execute_at(ctx, args, now),
            AnyCommand::HGet => HGetCommand.execute_at(ctx, args, now),
            AnyCommand::HGetAll => HGetAllCommand.execute_at(ctx, args, now),
            AnyCommand::HDel => HDelCommand.execute_at(ctx, args, now),
            AnyCommand::HKeys => HKeysCommand.execute_at(ctx, args, now),
            AnyCommand::HIncrBy => HIncrByCommand.execute_at(ctx, args, now),
            AnyCommand::Info => InfoCommand.execute_at(ctx, args, now),
            AnyCommand::FlushDb => FlushDbCommand.execute_at(ctx, args, now),
            AnyCommand::Client => ClientCommand.execute_at(ctx, args, now),
            AnyCommand::Keys => KeysCommand.execute_at(ctx, args, now),
        }
    }

    fn name(&self) -> (r: &'static str) {
        match self {
            AnyCommand::SetValue => SetCommand.name(),
            AnyCommand::Get => GetCommand.name(),
            AnyCommand::Del => DelCommand.name(),
            AnyCommand::Exists => ExistsCommand.name(),
            AnyCommand::Expire => ExpireCommand.name(),
            AnyCommand::Ttl => TtlCommand.name(),
            AnyCommand::Incr => IncrCommand.name(),
            AnyCommand::IncrBy => IncrByCommand.name(),
            AnyCommand::Decr => DecrCommand.name(),
            AnyCommand::DecrBy => DecrByCommand.name(),
            AnyCommand::LPush => LPushCommand.name(),
            AnyCommand::RPush => RPushCommand.name(),
            AnyCommand::LRange => LRangeCommand.name(),
            AnyCommand::LLen => LLenCommand.name(),
            AnyCommand::SAdd => SAddCommand.name(),
            AnyCommand::SMembers => SMembersCommand.name(),
            AnyCommand::SCard => SCardCommand.name(),
            AnyCommand::HSet => HSetCommand.name(),
            AnyCommand::HGet => HGetCommand.name(),
            AnyCommand::HGetAll => HGetAllCommand.name(),
            AnyCommand::HDel => HDelCommand.name(),
            AnyCommand::HKeys => HKeysCommand.name(),
            AnyCommand::HIncrBy => HIncrByCommand.name(),
            AnyCommand::Info => InfoCommand.name(),
            AnyCommand::FlushDb => FlushDbCommand.name(),
            AnyCommand::Client => ClientCommand.name(),
            AnyCommand::Keys => KeysCommand.name(),
        }
    }

    fn min_args(&self) -> (r: usize) {
        match self {
            AnyCommand::SetValue => SetCommand.min_args(),
            AnyCommand::Get => GetCommand.min_args(),
            AnyCommand::Del => DelCommand.min_args(),
            AnyCommand::Exists => ExistsCommand.min_args(),
            AnyCommand::Expire => ExpireCommand.min_args(),
            AnyCommand::Ttl => TtlCommand.min_args(),
            AnyCommand::Incr => IncrCommand.min_args(),
            AnyCommand::IncrBy => IncrByCommand.min_args(),
            AnyCommand::Decr => DecrCommand.min_args(),
            AnyCommand::DecrBy => DecrByCommand.min_args(),
            AnyCommand::LPush => LPushCommand.min_args(),
            AnyCommand::RPush => RPushCommand.min_args(),
            AnyCommand::LRange => LRangeCommand.min_args(),
            AnyCommand::LLen => LLenCommand.min_args(),
            AnyCommand::SAdd => SAddCommand.min_args(),
            AnyCommand::SMembers => SMembersCommand.min_args(),
            AnyCommand::SCard => SCardCommand.min_args(),
            AnyCommand::HSet => HSetCommand.min_args(),
            AnyCommand::HGet => HGetCommand.min_args(),
            AnyCommand::HGetAll => HGetAllCommand.min_args(),
            AnyCommand::HDel => HDelCommand.min_args(),
            AnyCommand::HKeys => HKeysCommand.min_args(),
            AnyCommand::HIncrBy => HIncrByCommand.min_args(),
            AnyCommand::Info => InfoCommand.min_args(),
            AnyCommand::FlushDb => FlushDbCommand.min_args(),
            AnyCommand::Client => ClientCommand.min_args(),
            AnyCommand::Keys => KeysCommand.min_args(),
        }
    }

    fn max_args(&self) -> (r: Option<usize>) {
        match self {
            AnyCommand::SetValue => SetCommand.max_args(),
            AnyCommand::Get => GetCommand.max_args(),
            AnyCommand::Del => DelCommand.max_args(),
            AnyCommand::Exists => ExistsCommand.max_args(),
            AnyCommand::Expire => ExpireCommand.max_args(),
            AnyCommand::Ttl => TtlCommand.max_args(),
            AnyCommand::Incr => IncrCommand.max_args(),
            AnyCommand::IncrBy => IncrByCommand.max_args(),
            AnyCommand::Decr => DecrCommand.max_args(),
            AnyCommand::DecrBy => DecrByCommand.max_args(),
            AnyCommand::LPush => LPushCommand.max_args(),
            AnyCommand::RPush => RPushCommand.max_args(),
            AnyCommand::LRange => LRangeCommand.max_args(),
            AnyCommand::LLen => LLenCommand.max_args(),
            AnyCommand::SAdd => SAddCommand.max_args(),
            AnyCommand::SMembers => SMembersCommand.max_args(),
            AnyCommand::SCard => SCardCommand.max_args(),
            AnyCommand::HSet => HSetCommand.max_args(),
            AnyCommand::HGet => HGetCommand.max_args(),
            AnyCommand::HGetAll => HGetAllCommand.max_args(),
            AnyCommand::HDel => HDelCommand.max_args(),
            AnyCommand::HKeys => HKeysCommand.max_args(),
            AnyCommand::HIncrBy => HIncrByCommand.max_args(),
            AnyCommand::Info => InfoCommand.max_args(),
            AnyCommand::FlushDb => FlushDbCommand.max_args(),
            AnyCommand::Client => ClientCommand.max_args(),
            AnyCommand::Keys => KeysCommand.max_args(),
        }
    }
}

/// Whether `found` is a command that bears the name `name`.
pub open spec fn bears(found: Option<AnyCommand>, name: Seq<char>) -> bool {
    match found {
        Some(command) => command.label() == name,
        None => false,
    }
}

/// Every command is found under its own name: each name of the catalogue
/// leads to a command, and that command bears the name.
pub proof fn lemma_catalogue_is_complete()
    ensures
        catalogue_names().len() == 27,
        forall|i: int|
            0 <= i < catalogue_names().len() ==> bears(
                #[trigger] catalogue(catalogue_names()[i]),
                catalogue_names()[i],
            ),
{
    reveal_strlit("SET");
    reveal_strlit("GET");
    reveal_strlit("DEL");
    reveal_strlit("EXISTS");
    reveal_strlit("EXPIRE");
    reveal_strlit("TTL");
    reveal_strlit("INCR");
    reveal_strlit("INCRBY");
    reveal_strlit("DECR");
    reveal_strlit("DECRBY");
    reveal_strlit("LPUSH");
    reveal_strlit("RPUSH");
    reveal_strlit("LRANGE");
    reveal_strlit("LLEN");
    reveal_strlit("SADD");
    reveal_strlit("SMEMBERS");
    reveal_strlit("SCARD");
    reveal_strlit("HSET");
    reveal_strlit("HGET");
    reveal_strlit("HGETALL");
    reveal_strlit("HDEL");
    reveal_strlit("HKEYS");
    reveal_strlit("HINCRBY");
    reveal_strlit("INFO");
    reveal_strlit("FLUSHDB");
    reveal_strlit("CLIENT");
    reveal_strlit("KEYS");
    assert forall|i: int| 0 <= i < catalogue_names().len() implies bears(
        #[trigger] catalogue(catalogue_names()[i]),
        catalogue_names()[i],
    ) by {
        let name = catalogue_names()[i];
        if i == 0 {
            assert(name == "SET"@);
        }
        if i == 1 {
            assert(name == "GET"@);
        }
        if i == 2 {
            assert(name == "DEL"@);
        }
        if i == 3 {
            assert(name == "EXISTS"@);
        }
        if i == 4 {
            assert(name == "EXPIRE"@);
        }
        if i == 5 {
            assert(name == "TTL"@);
        }
        if i == 6 {
            assert(name == "INCR"@);
        }
        if i == 7 {
            assert(name == "INCRBY"@);
        }
        if i == 8 {
            assert(name == "DECR"@);
        }
        if i == 9 {
            assert(name == "DECRBY"@);
        }
        if i == 10 {
            assert(name == "LPUSH"@);
        }
        if i == 11 {
            assert(name == "RPUSH"@);
        }
        if i == 12 {
            assert(name == "LRANGE"@);
        }
        if i == 13 {
            assert(name == "LLEN"@);
        }
        if i == 14 {
            assert(name == "SADD"@);
        }
        if i == 15 {
            assert(name == "SMEMBERS"@);
        }
        if i == 16 {
            assert(name == "SCARD"@);
        }
        if i == 17 {
            assert(name == "HSET"@);
        }
        if i == 18 {
            assert(name == "HGET"@);
        }
        if i == 19 {
            assert(name == "HGETALL"@);
        }
        if i == 20 {
            assert(name == "HDEL"@);
        }
        if i == 21 {
            assert(name == "HKEYS"@);
        }
        if i == 22 {
            assert(name == "HINCRBY"@);
        }
        if i == 23 {
            assert(name == "INFO"@);
        }
        if i == 24 {
            assert(name == "FLUSHDB"@);
        }
        if i == 25 {
            assert(name == "CLIENT"@);
        }
        if i == 26 {
            assert(name == "KEYS"@);
        }
    }
}

/// A command is found whatever the case of the ASCII letters of its name:
/// text that is all ASCII and, with its letters made capitals, is a name of
/// the catalogue leads to the command that bears that name.
pub proof fn lemma_found_in_any_case(name: Seq<char>, i: int)
    requires
        0 <= i < catalogue_names().len(),
        vstd::utf8::is_ascii_chars(name),
        crate::protocol::text::ascii_upper(name) == catalogue_names()[i],
    ensures
        bears(catalogue(folded(name)), catalogue_names()[i]),
{
    lemma_catalogue_is_complete();
}

/// Examples: `get`, `Get` and `GET` all lead to GET, `hIncrBy` leads to
/// HINCRBY, and `GETS` leads nowhere.
pub proof fn lemma_names_fold()
    ensures
        catalogue(folded("get"@)) == Some(AnyCommand::Get),
        catalogue(folded("Get"@)) == Some(AnyCommand::Get),
        catalogue(folded("GET"@)) == Some(AnyCommand::Get),
        catalogue(folded("hIncrBy"@)) == Some(AnyCommand::HIncrBy),
        catalogue(folded("GETS"@)) is None,
{
    reveal_strlit("get");
    reveal_strlit("Get");
    reveal_strlit("GET");
    reveal_strlit("hIncrBy");
    reveal_strlit("HINCRBY");
    reveal_strlit("GETS");
    lemma_catalogue_is_complete();
    assert(vstd::utf8::is_ascii_chars("get"@));
    assert(vstd::utf8::is_ascii_chars("Get"@));
    assert(vstd::utf8::is_ascii_chars("GET"@));
    assert(vstd::utf8::is_ascii_chars("hIncrBy"@));
    assert(vstd::utf8::is_ascii_chars("GETS"@));
    assert(crate::protocol::text::ascii_upper("get"@) =~= "GET"@);
    assert(crate::protocol::text::ascii_upper("Get"@) =~= "GET"@);
    assert(crate::protocol::text::ascii_upper("GET"@) =~= "GET"@);
    assert(crate::protocol::text::ascii_upper("hIncrBy"@) =~= "HINCRBY"@);
    assert(crate::protocol::text::ascii_upper("GETS"@) =~= "GETS"@);
    lemma_get_and_hincrby();
    assert(catalogue("GETS"@) is None) by {
        lemma_not_a_name("GETS"@);
    }
}

/// The names `GET` and `HINCRBY` lead to GET and HINCRBY.
proof fn lemma_get_and_hincrby()
    ensures
        catalogue("GET"@) == Some(AnyCommand::Get),
        catalogue("HINCRBY"@) == Some(AnyCommand::HIncrBy),
{
    reveal_strlit("SET");
    reveal_strlit("GET");
    reveal_strlit("DEL");
    reveal_strlit("EXISTS");
    reveal_strlit("EXPIRE");
    reveal_strlit("TTL");
    reveal_strlit("INCR");
    reveal_strlit("INCRBY");
    reveal_strlit("DECR");
    reveal_strlit("DECRBY");
    reveal_strlit("LPUSH");
    reveal_strlit("RPUSH");
    reveal_strlit("LRANGE");
    reveal_strlit("LLEN");
    reveal_strlit("SADD");
    reveal_strlit("SMEMBERS");
    reveal_strlit("SCARD");
    reveal_strlit("HSET");
    reveal_strlit("HGET");
    reveal_strlit("HGETALL");
    reveal_strlit("HDEL");
    reveal_strlit("HKEYS");
    reveal_strlit("HINCRBY");
    reveal_strlit("INFO");
    reveal_strlit("FLUSHDB");
    reveal_strlit("CLIENT");
    reveal_strlit("KEYS");
    assert("GET"@[0] != "SET"@[0]);
    assert("HINCRBY"@.len() != "SET"@.len());
    assert("HINCRBY"@.len() != "GET"@.len());
    assert("HINCRBY"@.len() != "DEL"@.len());
    assert("HINCRBY"@.len() != "EXISTS"@.len());
    assert("HINCRBY"@.len() != "EXPIRE"@.len());
    assert("HINCRBY"@.len() != "TTL"@.len());
    assert("HINCRBY"@.len() != "INCR"@.len());
    assert("HINCRBY"@.len() != "INCRBY"@.len());
    assert("HINCRBY"@.len() != "DECR"@.len());
    assert("HINCRBY"@.len() != "DECRBY"@.len());
    assert("HINCRBY"@.len() != "LPUSH"@.len());
    assert("HINCRBY"@.len() != "RPUSH"@.len());
    assert("HINCRBY"@.len() != "LRANGE"@.len());
    assert("HINCRBY"@.len() != "LLEN"@.len());
    assert("HINCRBY"@.len() != "SADD"@.len());
    assert("HINCRBY"@.len() != "SMEMBERS"@.len());
    assert("HINCRBY"@.len() != "SCARD"@.len());
    assert("HINCRBY"@.len() != "HSET"@.len());
    assert("HINCRBY"@.len() != "HGET"@.len());
    assert("HINCRBY"@[1] != "HGETALL"@[1]);
    assert("HINCRBY"@.len() != "HDEL"@.len());
    assert("HINCRBY"@.len() != "HKEYS"@.len());
}

/// Text of four characters that begins with `G` is no name of the
/// catalogue.
proof fn lemma_not_a_name(name: Seq<char>)
    requires
        name.len() == 4,
        name[0] == 'G',
    ensures
        catalogue(name) is None,
{
    reveal_strlit("SET");
    reveal_strlit("GET");
    reveal_strlit("DEL");
    reveal_strlit("EXISTS");
    reveal_strlit("EXPIRE");
    reveal_strlit("TTL");
    reveal_strlit("INCR");
    reveal_strlit("INCRBY");
    reveal_strlit("DECR");
    reveal_strlit("DECRBY");
    reveal_strlit("LPUSH");
    reveal_strlit("RPUSH");
    reveal_strlit("LRANGE");
    reveal_strlit("LLEN");
    reveal_strlit("SADD");
    reveal_strlit("SMEMBERS");
    reveal_strlit("SCARD");
    reveal_strlit("HSET");
    reveal_strlit("HGET");
    reveal_strlit("HGETALL");
    reveal_strlit("HDEL");
    reveal_strlit("HKEYS");
    reveal_strlit("HINCRBY");
    reveal_strlit("INFO");
    reveal_strlit("FLUSHDB");
    reveal_strlit("CLIENT");
    reveal_strlit("KEYS");
}

/// The strings of `names` as sequences of characters.
pub open spec fn names_view(names: Seq<String>) -> Seq<Seq<char>> {
    names.map_values(|name: String| name@)
}

/// The registry of the commands. Commands are found by name, whatever the
/// case of its letters.
pub struct CommandRegistry;

impl CommandRegistry {
    /// The registry of all commands.
    pub fn new() -> Self {
        CommandRegistry
    }

    /// The command whose upper-case name is `name`.
    pub fn lookup(name: &str) -> (r: Option<AnyCommand>)
        ensures
            r == catalogue(name@),
    {
        if str_eq(name, "SET") {
            Some(AnyCommand::SetValue)
        }         else if str_eq(name, "GET") {
            Some(AnyCommand::Get)
        }         else if str_eq(name, "DEL") {
            Some(AnyCommand::Del)
        }         else if str_eq(name, "EXISTS") {
            Some(AnyCommand::Exists)
        }         else if str_eq(name, "EXPIRE") {
            Some(AnyCommand::Expire)
        }         else if str_eq(name, "TTL") {
            Some(AnyCommand::Ttl)
        }         else if str_eq(name, "INCR") {
            Some(AnyCommand::Incr)
        }         else if str_eq(name, "INCRBY") {
            Some(AnyCommand::IncrBy)
        }         else if str_eq(name, "DECR") {
            Some(AnyCommand::Decr)
        }         else if str_eq(name, "DECRBY") {
            Some(AnyCommand::DecrBy)
        }         else if str_eq(name, "LPUSH") {
            Some(AnyCommand::LPush)
        }         else if str_eq(name, "RPUSH") {
            Some(AnyCommand::RPush)
        }         else if str_eq(name, "LRANGE") {
            Some(AnyCommand::LRange)
        }         else if str_eq(name, "LLEN") {
            Some(AnyCommand::LLen)
        }         else if str_eq(name, "SADD") {
            Some(AnyCommand::SAdd)
        }         else if str_eq(name, "SMEMBERS") {
            Some(AnyCommand::SMembers)
        }         else if str_eq(name, "SCARD") {
            Some(AnyCommand::SCard)
        }         else if str_eq(name, "HSET") {
            Some(AnyCommand::HSet)
        }         else if str_eq(name, "HGET") {
            Some(AnyCommand::HGet)
        }         else if str_eq(name, "HGETALL") {
            Some(AnyCommand::HGetAll)
        }         else if str_eq(name, "HDEL") {
            Some(AnyCommand::HDel)
        }         else if str_eq(name, "HKEYS") {
            Some(AnyCommand::HKeys)
        }         else if str_eq(name, "HINCRBY") {
            Some(AnyCommand::HIncrBy)
        }         else if str_eq(name, "INFO") {
            Some(AnyCommand::Info)
        }         else if str_eq(name, "FLUSHDB") {
            Some(AnyCommand::FlushDb)
        }         else if str_eq(name, "CLIENT") {
            Some(AnyCommand::Client)
        }         else if str_eq(name, "KEYS") {
            Some(AnyCommand::Keys)
        } else {
            None
        }
    }

    /// The command named `name`, whatever the case of its letters.
    pub fn get(&self, name: &str) -> (r: Option<AnyCommand>)
        ensures
            r == catalogue(folded(name@)),
    {
        let upper_name = str_to_uppercase(name);
        Self::lookup(upper_name.as_str())
    }

    /// Whether there is a command named `name`, whatever the case of its
    /// letters.
    pub fn has_command(&self, name: &str) -> (r: bool)
        ensures
            r == catalogue(folded(name@)).is_some(),
    {
        self.get(name).is_some()
    }

    /// The upper-case names of all commands.
    pub fn command_names(&self) -> (r: Vec<String>)
        ensures
            names_view(r@) == catalogue_names(),
    {
        let mut names: Vec<String> = Vec::new();
        names.push(String::from_str("SET"));
        names.push(String::from_str("GET"));
        names.push(String::from_str("DEL"));
        names.push(String::from_str("EXISTS"));
        names.push(String::from_str("EXPIRE"));
        names.push(String::from_str("TTL"));
        names.push(String::from_str("INCR"));
        names.push(String::from_str("INCRBY"));
        names.push(String::from_str("DECR"));
        names.push(String::from_str("DECRBY"));
        names.push(String::from_str("LPUSH"));
        names.push(String::from_str("RPUSH"));
        names.push(String::from_str("LRANGE"));
        names.push(String::from_str("LLEN"));
        names.push(String::from_str("SADD"));
        names.push(String::from_str("SMEMBERS"));
        names.push(String::from_str("SCARD"));
        names.push(String::from_str("HSET"));
        names.push(String::from_str("HGET"));
        names.push(String::from_str("HGETALL"));
        names.push(String::from_str("HDEL"));
        names.push(String::from_str("HKEYS"));
        names.push(String::from_str("HINCRBY"));
        names.push(String::from_str("INFO"));
        names.push(String::from_str("FLUSHDB"));
        names.push(String::from_str("CLIENT"));
        names.push(String::from_str("KEYS"));
        assert(names_view(names@) =~= catalogue_names());
        names
    }
}

impl Default for CommandRegistry {
    fn default() -> Self {
        Self::new()
    }
}

} // verus!
