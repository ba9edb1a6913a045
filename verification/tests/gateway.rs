//! End-to-end tests: every route's command built, run against the
//! reference store, and translated, with exact statuses and bodies.

use redis_gateway::Reply;
use redis_gateway::command::{InputError, StoreCommand, del_command, get_command, incr_command,
    lpush_command, lrange_command, mget_command, set_command};
use redis_gateway::dispatch::execute;
use redis_gateway::respond::{input_reply, respond};
use redis_gateway::store::MemStore;
use redis_gateway::value::Outcome;
use redis_gateway::{except_reply, hello_reply};

fn run(store: &mut MemStore, cmd: StoreCommand) -> Reply {
    let outcome = execute(store, &cmd);
    respond(&cmd, &outcome)
}

fn set(store: &mut MemStore, k: &str, v: &str) -> Reply {
    run(store, set_command(k.to_string(), v.to_string()).unwrap())
}

fn get(store: &mut MemStore, k: &str) -> Reply {
    run(store, get_command(k.to_string()).unwrap())
}

#[test]
fn set_then_get_round_trips() {
    let mut store = MemStore::new();
    let r = set(&mut store, "k", "v");
    assert_eq!(r.status, 200);
    assert_eq!(r.body.as_str(), "set k:v");
    let r = get(&mut store, "k");
    assert_eq!(r.status, 200);
    assert_eq!(r.body.as_str(), "\"v\"");
}

#[test]
fn get_unset_key_is_null_not_error() {
    let mut store = MemStore::new();
    let r = get(&mut store, "missing");
    assert_eq!(r.status, 200);
    assert_eq!(r.body.as_str(), "null");
}

#[test]
fn get_after_del_is_null() {
    let mut store = MemStore::new();
    set(&mut store, "k", "v");
    let r = run(&mut store, del_command("k".to_string()).unwrap());
    assert_eq!(r.status, 200);
    assert_eq!(r.body.as_str(), "delete k");
    let r = get(&mut store, "k");
    assert_eq!(r.status, 200);
    assert_eq!(r.body.as_str(), "null");
}

#[test]
fn del_is_idempotent() {
    let mut store = MemStore::new();
    set(&mut store, "k", "v");
    let first = run(&mut store, del_command("k".to_string()).unwrap());
    let second = run(&mut store, del_command("k".to_string()).unwrap());
    assert_eq!(first.status, 200);
    assert_eq!(second.status, 200);
    assert_eq!(second.body.as_str(), "delete k");
}

#[test]
fn mget_aligns_with_input_whatever_exists() {
    let mut store = MemStore::new();
    set(&mut store, "k2", "v2");
    let cmd = mget_command(vec!["k1".to_string(), "k2".to_string(), "k3".to_string()]).unwrap();
    let r = run(&mut store, cmd);
    assert_eq!(r.status, 200);
    assert_eq!(r.body.as_str(), "[null,\"v2\",null]");
}

#[test]
fn lrange_is_most_recent_first() {
    let mut store = MemStore::new();
    let r = run(&mut store, lpush_command("k".to_string(), "a".to_string()).unwrap());
    assert_eq!(r.status, 200);
    assert_eq!(r.body.as_str(), "lpush k:a");
    let r = run(&mut store, lpush_command("k".to_string(), "b".to_string()).unwrap());
    assert_eq!(r.status, 200);
    let r = run(&mut store, lrange_command("k".to_string()).unwrap());
    assert_eq!(r.status, 200);
    assert_eq!(r.body.as_str(), "[\"b\",\"a\"]");
}

#[test]
fn lrange_of_absent_key_is_empty_array() {
    let mut store = MemStore::new();
    let r = run(&mut store, lrange_command("k".to_string()).unwrap());
    assert_eq!(r.status, 200);
    assert_eq!(r.body.as_str(), "[]");
}

#[test]
fn incr_non_numeric_is_500_and_does_not_mutate() {
    let mut store = MemStore::new();
    set(&mut store, "k", "abc");
    let r = run(&mut store, incr_command("k".to_string()).unwrap());
    assert_eq!(r.status, 500);
    assert_eq!(
        r.body.as_str(),
        "store error: ERR value is not an integer or out of range"
    );
    let r = get(&mut store, "k");
    assert_eq!(r.body.as_str(), "\"abc\"");
}

#[test]
fn racing_sets_leave_one_whole_value() {
    for second_is_x in [false, true] {
        let mut store = MemStore::new();
        if second_is_x {
            set(&mut store, "k", "y");
            set(&mut store, "k", "x");
        } else {
            set(&mut store, "k", "x");
            set(&mut store, "k", "y");
        }
        let r = get(&mut store, "k");
        assert_eq!(r.status, 200);
        assert!(r.body.as_str() == "\"x\"" || r.body.as_str() == "\"y\"");
    }
}

#[test]
fn except_is_always_400() {
    let r = except_reply();
    assert_eq!(r.status, 400);
    assert_eq!(r.body.as_str(), "error");
}

#[test]
fn hello_is_liveness() {
    let r = hello_reply();
    assert_eq!(r.status, 200);
    assert_eq!(r.body.as_str(), "Hello Redis");
}

#[test]
fn incr_counts_from_absent_and_onward() {
    let mut store = MemStore::new();
    let r = run(&mut store, incr_command("n".to_string()).unwrap());
    assert_eq!(r.status, 200);
    assert_eq!(r.body.as_str(), "1");
    let r = run(&mut store, incr_command("n".to_string()).unwrap());
    assert_eq!(r.body.as_str(), "2");
    let r = get(&mut store, "n");
    assert_eq!(r.body.as_str(), "\"2\"");
}

#[test]
fn incr_parses_stored_decimals() {
    let mut store = MemStore::new();
    set(&mut store, "n", "41");
    let r = run(&mut store, incr_command("n".to_string()).unwrap());
    assert_eq!(r.status, 200);
    assert_eq!(r.body.as_str(), "42");
    set(&mut store, "m", "-5");
    let r = run(&mut store, incr_command("m".to_string()).unwrap());
    assert_eq!(r.body.as_str(), "-4");
    set(&mut store, "low", "-9223372036854775808");
    let r = run(&mut store, incr_command("low".to_string()).unwrap());
    assert_eq!(r.body.as_str(), "-9223372036854775807");
}

#[test]
fn incr_rejects_leading_zeros_and_overflow() {
    let mut store = MemStore::new();
    set(&mut store, "z", "011");
    let r = run(&mut store, incr_command("z".to_string()).unwrap());
    assert_eq!(r.status, 500);
    set(&mut store, "big", "9223372036854775807");
    let r = run(&mut store, incr_command("big".to_string()).unwrap());
    assert_eq!(r.status, 500);
    assert_eq!(
        r.body.as_str(),
        "store error: ERR value is not an integer or out of range"
    );
    let r = get(&mut store, "big");
    assert_eq!(r.body.as_str(), "\"9223372036854775807\"");
}

#[test]
fn wrong_kind_of_entry_is_rejected() {
    let mut store = MemStore::new();
    run(&mut store, lpush_command("l".to_string(), "a".to_string()).unwrap());
    let r = get(&mut store, "l");
    assert_eq!(r.status, 500);
    assert_eq!(
        r.body.as_str(),
        "store error: WRONGTYPE Operation against a key holding the wrong kind of value"
    );
    let r = run(&mut store, incr_command("l".to_string()).unwrap());
    assert_eq!(r.status, 500);
    set(&mut store, "s", "v");
    let r = run(&mut store, lrange_command("s".to_string()).unwrap());
    assert_eq!(r.status, 500);
    let r = run(&mut store, lpush_command("s".to_string(), "a".to_string()).unwrap());
    assert_eq!(r.status, 500);
}

#[test]
fn mget_gives_null_for_list_entries() {
    let mut store = MemStore::new();
    run(&mut store, lpush_command("l".to_string(), "a".to_string()).unwrap());
    set(&mut store, "s", "v");
    let r = run(&mut store, mget_command(vec!["l".to_string(), "s".to_string()]).unwrap());
    assert_eq!(r.status, 200);
    assert_eq!(r.body.as_str(), "[null,\"v\"]");
}

#[test]
fn json_bodies_escape_metacharacters() {
    let mut store = MemStore::new();
    set(&mut store, "k", "a\"b\\c\nd");
    let r = get(&mut store, "k");
    assert_eq!(r.status, 200);
    assert_eq!(r.body.as_str(), "\"a\\\"b\\\\c\\u000ad\"");
}

#[test]
fn set_overwrites_any_entry_kind() {
    let mut store = MemStore::new();
    run(&mut store, lpush_command("k".to_string(), "a".to_string()).unwrap());
    let r = set(&mut store, "k", "v");
    assert_eq!(r.status, 200);
    let r = get(&mut store, "k");
    assert_eq!(r.body.as_str(), "\"v\"");
}

#[test]
fn malformed_input_is_400_before_any_outcome() {
    assert_eq!(get_command("".to_string()).unwrap_err(), InputError::EmptyKey);
    assert_eq!(set_command("".to_string(), "v".to_string()).unwrap_err(), InputError::EmptyKey);
    assert_eq!(set_command("k".to_string(), "".to_string()).unwrap_err(), InputError::EmptyValue);
    assert_eq!(
        lpush_command("k".to_string(), "".to_string()).unwrap_err(),
        InputError::EmptyValue
    );
    assert_eq!(mget_command(vec![]).unwrap_err(), InputError::NoKeys);
    assert_eq!(
        mget_command(vec!["a".to_string(), "".to_string()]).unwrap_err(),
        InputError::EmptyKey
    );
    let r = input_reply(&InputError::EmptyKey);
    assert_eq!(r.status, 400);
    assert_eq!(r.body.as_str(), "empty key");
    let r = input_reply(&InputError::NoKeys);
    assert_eq!(r.status, 400);
    assert_eq!(r.body.as_str(), "no keys given");
}

#[test]
fn pool_failure_maps_to_generic_500() {
    let cmd = get_command("k".to_string()).unwrap();
    let r = respond(&cmd, &Outcome::PoolExhaustedOrBroken);
    assert_eq!(r.status, 500);
    assert_eq!(r.body.as_str(), "store connection unavailable");
}
