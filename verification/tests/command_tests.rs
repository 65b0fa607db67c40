use miniredis::command::cmd_get_set::parse_get_args;
use miniredis::command::cmd_lpush::parse_list_items;
use miniredis::command::cmd_lrange::{extract_and_return_values, parse_lrange_args, LrangeArgs};
use miniredis::db::{DbEntry, MemoryDb, RedisType};
use miniredis::{
    handle_command, CommandBlpop, CommandEcho, CommandGet, CommandLlen, CommandLpop, CommandLpush,
    CommandLrange, CommandPing, CommandRegistry, CommandRpush, CommandSet, CommandKind, Resp, Step,
};

fn bulk(s: &str) -> Resp {
    Resp::BulkString(s.into())
}

fn bulks(items: &[&str]) -> Resp {
    Resp::Array(items.iter().map(|s| bulk(s)).collect())
}

fn strings(items: &[&str]) -> Vec<String> {
    items.iter().map(|s| s.to_string()).collect()
}

#[test]
fn test_parse_get_params() {
    let args_set_with_px = vec![
        Resp::BulkString("set".into()),
        Resp::BulkString("k".into()),
        Resp::BulkString("v".into()),
        Resp::BulkString("Px".into()),
        Resp::BulkString("10".into()),
    ];

    match parse_get_args(&args_set_with_px, 7) {
        Ok((key, parsed_entry)) => {
            assert_eq!(key, "set");
            assert_eq!(parsed_entry.value, RedisType::String("k".into()));
            assert_eq!(parsed_entry.px, None);
            assert_eq!(parsed_entry.created_at, 7);
        }
        Err(s) => panic!("unexpected error {}", s),
    }
}

#[test]
fn cmd_get_set_test_get_set() {
    let mut db = MemoryDb::new();
    let key = Resp::BulkString("key".into());
    let value = Resp::BulkString("value".into());
    let args = vec![key.clone(), value.clone()];

    let command_set = CommandSet {};
    let _ = command_set.execute(&mut db, &args);

    let command_get = CommandGet {};
    let result = command_get.execute(&mut db, &vec![key]);
    assert_eq!(result, value);
}

#[test]
fn set_and_get_errors() {
    let mut db = MemoryDb::new();
    assert_eq!(
        CommandSet {}.execute_at(&mut db, &[], 1),
        Resp::Error("No key and value supplied for SET".into())
    );
    assert_eq!(
        CommandSet {}.execute_at(&mut db, &[Resp::Int(1), bulk("v")], 1),
        Resp::Error("Key and value must exist and be strings".into())
    );
    assert_eq!(CommandSet {}.execute_at(&mut db, &[bulk("k"), bulk("v")], 1), Resp::Simple("OK".into()));
    assert_eq!(CommandGet {}.execute_at(&mut db, &[], 1), Resp::Error("Wrong arguments for get".into()));
    assert_eq!(CommandGet {}.execute_at(&mut db, &[bulk("none")], 1), Resp::NullBulkString);
    CommandLpush {}.execute_at(&mut db, &[bulk("l"), bulk("a")], 1);
    assert_eq!(
        CommandGet {}.execute_at(&mut db, &[bulk("l")], 1),
        Resp::Error("WRONGTYPE Operation against a key holding the wrong kind of value".into())
    );
}

#[test]
fn ping_and_echo() {
    let mut db = MemoryDb::new();
    assert_eq!(CommandPing {}.execute(&mut db, &[]), Resp::Simple("PONG".into()));
    assert_eq!(CommandEcho {}.execute(&mut db, &[bulk("hi"), bulk("x")]), bulk("hi"));
    assert_eq!(CommandEcho {}.execute(&mut db, &[]), Resp::Simple("".into()));
}

#[test]
fn parse_list_items_cases() {
    let args = vec![bulk("k"), bulk("a"), bulk("b")];
    let (key, items) = parse_list_items(&args).unwrap();
    assert_eq!(key, "k");
    assert_eq!(items, strings(&["a", "b"]));
    assert_eq!(
        parse_list_items(&[bulk("k")]).unwrap_err(),
        "No key and at least one value supplied for SET"
    );
    assert_eq!(parse_list_items(&[Resp::Int(1), bulk("a")]).unwrap_err(), "Key must be a BulkString");
    assert_eq!(parse_list_items(&[bulk("k"), bulk("a"), Resp::Int(2)]).unwrap_err(), "All values must be BulkStrings");
}

#[test]
fn lpush_rpush_llen() {
    let mut db = MemoryDb::new();
    assert_eq!(CommandLpush {}.execute_at(&mut db, &[bulk("l"), bulk("a"), bulk("b")], 1), Resp::Int(2));
    assert_eq!(CommandRpush {}.execute_at(&mut db, &[bulk("l"), bulk("c")], 1), Resp::Int(3));
    assert_eq!(CommandLpush {}.execute(&mut db, &[bulk("l"), bulk("z")]), Resp::Int(4));
    assert_eq!(
        CommandLrange {}.execute_at(&mut db, &[bulk("l"), bulk("0"), bulk("-1")], 1),
        bulks(&["z", "b", "a", "c"])
    );
    assert_eq!(CommandLlen {}.execute_at(&mut db, &[bulk("l")], 1), Resp::Int(4));
    assert_eq!(CommandLlen {}.execute_at(&mut db, &[bulk("none")], 1), Resp::Int(0));
    assert_eq!(CommandLlen {}.execute(&mut db, &[]), Resp::Int(0));
    CommandSet {}.execute_at(&mut db, &[bulk("s"), bulk("v")], 1);
    assert_eq!(
        CommandRpush {}.execute_at(&mut db, &[bulk("s"), bulk("c")], 1),
        Resp::Error("Existing entry is not a list type".into())
    );
    assert_eq!(CommandLlen {}.execute_at(&mut db, &[bulk("s")], 1), Resp::Int(0));
}

#[test]
fn lpop_cases() {
    let mut db = MemoryDb::new();
    CommandRpush {}.execute_at(&mut db, &[bulk("l"), bulk("a"), bulk("b"), bulk("c"), bulk("d")], 1);
    assert_eq!(CommandLpop {}.execute_at(&mut db, &[bulk("l")], 1), bulk("a"));
    assert_eq!(CommandLpop {}.execute_at(&mut db, &[bulk("l"), bulk("2")], 1), bulks(&["b", "c"]));
    assert_eq!(CommandLpop {}.execute_at(&mut db, &[bulk("l"), bulk("0")], 1), bulks(&[]));
    assert_eq!(CommandLpop {}.execute_at(&mut db, &[bulk("l"), bulk("9")], 1), bulks(&["d"]));
    assert_eq!(CommandLpop {}.execute_at(&mut db, &[bulk("l")], 1), Resp::NullBulkString);
    assert_eq!(CommandLpop {}.execute(&mut db, &[Resp::Int(3)]), Resp::NullBulkString);
    CommandRpush {}.execute_at(&mut db, &[bulk("m"), bulk("x"), bulk("y")], 1);
    assert_eq!(CommandLpop {}.execute_at(&mut db, &[bulk("m"), bulk("-1")], 1), bulk("x"));
    assert_eq!(CommandLlen {}.execute_at(&mut db, &[bulk("m")], 1), Resp::Int(1));
}

#[test]
fn lrange_indexing() {
    let items = strings(&["a", "b", "c", "d", "e"]);
    assert_eq!(extract_and_return_values(items.clone(), &0, &-1), bulks(&["a", "b", "c", "d", "e"]));
    assert_eq!(extract_and_return_values(items.clone(), &1, &2), bulks(&["b", "c"]));
    assert_eq!(extract_and_return_values(items.clone(), &-3, &3), bulks(&["c", "d"]));
    assert_eq!(extract_and_return_values(items.clone(), &5, &10), bulks(&[]));
    assert_eq!(extract_and_return_values(items.clone(), &2, &-10), bulks(&[]));
    assert_eq!(extract_and_return_values(vec!["a".into(), "b".into(), "c".into()], &1, &2), bulks(&["b", "c"]));
    assert_eq!(extract_and_return_values(items.clone(), &-2, &-1), bulks(&["d", "e"]));
    assert_eq!(extract_and_return_values(items.clone(), &-100, &100), bulks(&["a", "b", "c", "d", "e"]));
    assert_eq!(extract_and_return_values(items.clone(), &6, &7), bulks(&[]));
    assert_eq!(extract_and_return_values(items.clone(), &4, &2), bulks(&[]));
    assert_eq!(extract_and_return_values(vec![], &0, &-1), bulks(&[]));
}

#[test]
fn lrange_arguments() {
    assert_eq!(
        parse_lrange_args(&[bulk("k"), bulk("0"), bulk("-1")]).unwrap(),
        LrangeArgs { key: "k".into(), start: 0, end: -1 }
    );
    assert_eq!(
        parse_lrange_args(&[bulk("k")]).unwrap_err(),
        "Exactly 3 arguments needed: LRANGE <key> <start> <end>"
    );
    assert_eq!(
        parse_lrange_args(&[Resp::Int(1), bulk("0"), bulk("1")]).unwrap_err(),
        "The first parameter must be a BulkString"
    );
    assert_eq!(
        parse_lrange_args(&[bulk("k"), bulk("x"), bulk("1")]).unwrap_err(),
        "The second parameter must be parseable as an i64"
    );
    assert_eq!(
        parse_lrange_args(&[bulk("k"), Resp::Int(0), bulk("1")]).unwrap_err(),
        "The second parameter must be a BulkString"
    );
    assert_eq!(
        parse_lrange_args(&[bulk("k"), bulk("0"), bulk("y")]).unwrap_err(),
        "The third parameter must be parseable as an i64"
    );
    assert_eq!(
        parse_lrange_args(&[bulk("k"), bulk("0"), Resp::Int(1)]).unwrap_err(),
        "The second parameter must be a BulkString"
    );
    let mut db = MemoryDb::new();
    assert_eq!(CommandLrange {}.execute(&mut db, &[bulk("none"), bulk("0"), bulk("1")]), bulks(&[]));
    assert_eq!(
        CommandLrange {}.execute(&mut db, &[bulk("k")]),
        Resp::Error("Exactly 3 arguments needed: LRANGE <key> <start> <end>".into())
    );
}

#[test]
fn blpop_parts() {
    let mut db = MemoryDb::new();
    let args = vec![bulk("q"), bulk("0.5")];
    assert_eq!(CommandBlpop::parse_key(&args), Some(&"q".to_string()));
    assert_eq!(CommandBlpop::timeout_arg(&args), Some(&"0.5".to_string()));
    assert_eq!(CommandBlpop::parse_key(&[Resp::Int(1)]), None);
    assert_eq!(CommandBlpop::timeout_arg(&[bulk("q")]), None);
    let entry = DbEntry::new_at(RedisType::List(strings(&["x", "y"])), 3);
    let key = "q".to_string();
    assert_eq!(
        CommandBlpop {}.pop_front(&mut db, &key, Some(entry)),
        bulks(&["q", "x"])
    );
    assert_eq!(db.get_at("q", 3).unwrap().value, RedisType::List(strings(&["y"])));
    assert_eq!(CommandBlpop {}.pop_front(&mut db, &key, None), Resp::NullBulkString);
}

#[test]
fn registry_lookup() {
    let registry = CommandRegistry::new();
    assert_eq!(registry.lookup("PING"), Some(CommandKind::Ping));
    assert_eq!(registry.lookup("LRANGE"), Some(CommandKind::Lrange));
    assert_eq!(registry.lookup("ping"), None);
    assert_eq!(registry.lookup("NOPE"), None);
}

#[test]
fn handle_command_dispatch() {
    let mut db = MemoryDb::new();
    let registry = CommandRegistry::new();
    assert_eq!(
        handle_command(&mut db, &registry, bulks(&["ping"])),
        Some(Step::Reply(Resp::Simple("PONG".into())))
    );
    assert_eq!(
        handle_command(&mut db, &registry, bulks(&["sEt", "k", "v"])),
        Some(Step::Reply(Resp::Simple("OK".into())))
    );
    assert_eq!(handle_command(&mut db, &registry, bulks(&["get", "k"])), Some(Step::Reply(bulk("v"))));
    assert_eq!(handle_command(&mut db, &registry, bulks(&["set", "k"])), None);
    assert_eq!(
        handle_command(&mut db, &registry, bulks(&["blpop", "q", "1"])),
        Some(Step::WaitForList { key: "q".into(), timeout: Some("1".into()) })
    );
    assert_eq!(
        handle_command(&mut db, &registry, bulks(&["foo"])),
        Some(Step::Reply(Resp::Error("Command not implemented".into())))
    );
    assert_eq!(
        handle_command(&mut db, &registry, bulks(&[])),
        Some(Step::Reply(Resp::Error("Don't know how to handle that array".into())))
    );
    assert_eq!(
        handle_command(&mut db, &registry, Resp::Array(vec![Resp::Int(1)])),
        Some(Step::Reply(Resp::Error("First element must be a BulkString".into())))
    );
    assert_eq!(
        handle_command(&mut db, &registry, bulk("PING")),
        Some(Step::Reply(Resp::Error("Commands must be Arrays of BulkStrings".into())))
    );
}

#[test]
fn push_pop_orders() {
    let mut db = MemoryDb::new();
    CommandRpush {}.execute_at(&mut db, &[bulk("queue"), bulk("1"), bulk("2"), bulk("3")], 1);
    assert_eq!(CommandLpop {}.execute_at(&mut db, &[bulk("queue")], 1), bulk("1"));
    CommandLpush {}.execute_at(&mut db, &[bulk("stack"), bulk("1"), bulk("2"), bulk("3")], 1);
    assert_eq!(CommandLpop {}.execute_at(&mut db, &[bulk("stack")], 1), bulk("3"));
    CommandRpush {}.execute_at(&mut db, &[bulk("one"), bulk("x")], 1);
    assert_eq!(CommandLpop {}.execute_at(&mut db, &[bulk("one")], 1), bulk("x"));
    assert_eq!(CommandLlen {}.execute_at(&mut db, &[bulk("one")], 1), Resp::Int(0));
}

#[test]
fn blocked_blpop_is_woken_by_a_push() {
    let mut db = MemoryDb::new();
    let key = "jobs".to_string();
    let (gone_tx, gone_rx) = tokio::sync::oneshot::channel();
    let (tx, mut rx) = tokio::sync::oneshot::channel();
    let (later_tx, mut later_rx) = tokio::sync::oneshot::channel();
    assert_eq!(db.get_or_wait_at(&key, gone_tx, 1), None);
    assert_eq!(db.get_or_wait_at(&key, tx, 1), None);
    assert_eq!(db.get_or_wait_at(&key, later_tx, 1), None);
    drop(gone_rx);
    let written = DbEntry::new_at(RedisType::List(strings(&["x", "rest"])), 2);
    db.set(&key, &written).unwrap();
    let handed = rx.try_recv().unwrap();
    assert_eq!(handed, written);
    assert!(later_rx.try_recv().is_err());
    assert_eq!(
        CommandBlpop {}.pop_front(&mut db, &key, Some(handed)),
        bulks(&["jobs", "x"])
    );
    assert_eq!(db.get_at(&key, 2).unwrap().value, RedisType::List(strings(&["rest"])));
}

#[test]
fn blocked_blpop_takes_the_only_element() {
    let mut db = MemoryDb::new();
    let key = "one".to_string();
    let (tx, mut rx) = tokio::sync::oneshot::channel();
    assert_eq!(db.get_or_wait_at(&key, tx, 1), None);
    db.set(&key, &DbEntry::new_at(RedisType::List(strings(&["only"])), 2)).unwrap();
    let handed = rx.try_recv().unwrap();
    assert_eq!(
        CommandBlpop {}.pop_front(&mut db, &key, Some(handed)),
        bulks(&["one", "only"])
    );
    assert_eq!(db.get_at(&key, 3), None);
}
