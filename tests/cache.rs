use std::any::Any;
use std::sync::Arc;

use memcache::{settle_reply, Cache, Command, Error};

type Handle = Arc<dyn Any + Send + Sync>;

fn key(s: &str) -> String {
    String::from(s)
}

/// Reads `k` as a value of type `T`, as a caller of the engine would.
fn read_as<T: Any + Send + Sync>(c: &mut Cache<Handle>, k: &str, now: u64) -> Result<Arc<T>, Error> {
    let reply = c.get(&key(k), now);
    settle_reply(Some(reply.map(|v| v.downcast::<T>().ok())))
}

#[test]
fn test_get_put() {
    let mut c: Cache<Handle> = Cache::new(0);
    assert_eq!(read_as::<i32>(&mut c, "foo", 0).unwrap_err(), Error::NoValue);

    c.put(key("foo"), Arc::new(69i32), 1000, 0);
    assert_eq!(read_as::<String>(&mut c, "foo", 0).unwrap_err(), Error::InvalidCast);
    assert_eq!(*read_as::<i32>(&mut c, "foo", 0).unwrap(), 69);

    assert_eq!(read_as::<i32>(&mut c, "foo", 1000).unwrap_err(), Error::Expired);
    assert_eq!(read_as::<i32>(&mut c, "foo", 1000).unwrap_err(), Error::NoValue);
}

#[test]
fn test_get_refresh() {
    let mut c: Cache<Handle> = Cache::new(0);
    c.put(key("bar"), Arc::new(1337i32), 1000, 0);

    let v = c.get_refresh(&key("bar"), 250).unwrap();
    assert_eq!(*v.downcast::<i32>().unwrap(), 1337);

    assert_eq!(*read_as::<i32>(&mut c, "bar", 750).unwrap(), 1337);
    // The refresh at 250 moved the deadline from 1000 to 1250.
    assert_eq!(*read_as::<i32>(&mut c, "bar", 1249).unwrap(), 1337);
    assert_eq!(read_as::<i32>(&mut c, "bar", 1250).unwrap_err(), Error::Expired);
}

#[test]
fn test_remove() {
    let mut c: Cache<Handle> = Cache::new(0);
    c.put(key("baz"), Arc::new(42i32), 86_400_000, 0);
    assert_eq!(*read_as::<i32>(&mut c, "baz", 5).unwrap(), 42);

    c.remove(&key("baz"));
    assert_eq!(read_as::<i32>(&mut c, "baz", 6).unwrap_err(), Error::NoValue);
}

#[test]
fn remove_of_absent_key_is_a_no_op() {
    let mut c: Cache<u64> = Cache::new(0);
    c.put(key("a"), 1, 100, 0);
    c.remove(&key("b"));
    assert_eq!(c.get(&key("a"), 10), Ok(1));
    assert_eq!(c.get(&key("b"), 10), Err(Error::NoValue));
}

#[test]
fn test_gc() {
    let mut c: Cache<u64> = Cache::new(0);
    let mut seed: u64 = 12345;
    let mut keys: Vec<String> = Vec::new();
    for i in 0..1000u64 {
        seed = seed.wrapping_mul(6364136223846793005).wrapping_add(1442695040888963407);
        let ttl = 1 + (seed >> 33) % 999;
        let k = format!("key{}-{}", i, seed >> 40);
        c.handle(Command::Put(k.clone(), i, ttl), 0);
        keys.push(k);
    }
    let mut now: u64 = 0;
    for _ in 0..100 {
        for k in &keys {
            let r = c.handle(Command::Get(k.clone(), false), now);
            assert!(r.is_some());
        }
        now += 10;
    }
    for k in &keys {
        let r = c.get(k, now);
        assert!(matches!(r, Err(Error::NoValue) | Err(Error::Expired)));
    }
    assert_eq!(c.sweep(now), None);
}

#[test]
fn put_overwrites_value_and_ttl() {
    let mut c: Cache<u64> = Cache::new(0);
    c.put(key("k"), 1, 10, 0);
    c.put(key("k"), 2, 100, 5);
    assert_eq!(c.get(&key("k"), 50), Ok(2));
    assert_eq!(c.get(&key("k"), 105), Err(Error::Expired));
}

#[test]
fn zero_ttl_expires_at_once() {
    let mut c: Cache<u64> = Cache::new(0);
    c.put(key("z"), 7, 0, 40);
    assert_eq!(c.get(&key("z"), 40), Err(Error::Expired));
    assert_eq!(c.get(&key("z"), 40), Err(Error::NoValue));
}

#[test]
fn deadline_saturates_at_the_end_of_the_clock() {
    let mut c: Cache<u64> = Cache::new(0);
    c.put(key("forever"), 9, u64::MAX, 1000);
    assert_eq!(c.get(&key("forever"), u64::MAX - 1), Ok(9));
    assert_eq!(c.get(&key("forever"), u64::MAX), Err(Error::Expired));
}

#[test]
fn refresh_of_expired_entry_evicts_it() {
    let mut c: Cache<u64> = Cache::new(0);
    c.put(key("r"), 3, 100, 0);
    assert_eq!(c.get_refresh(&key("r"), 100), Err(Error::Expired));
    assert_eq!(c.get_refresh(&key("r"), 100), Err(Error::NoValue));
}

#[test]
fn sweep_removes_exactly_the_expired_entries() {
    let mut c: Cache<u64> = Cache::new(0);
    c.put(key("a"), 1, 10, 0);
    c.put(key("b"), 2, 20, 0);
    c.put(key("c"), 3, 30, 0);
    c.put(key("d"), 4, 25, 0);
    assert_eq!(c.sweep(20), Some(25));
    assert_eq!(c.get(&key("a"), 0), Err(Error::NoValue));
    assert_eq!(c.get(&key("b"), 0), Err(Error::NoValue));
    assert_eq!(c.get(&key("c"), 0), Ok(3));
    assert_eq!(c.get(&key("d"), 0), Ok(4));
    assert_eq!(c.sweep(29), Some(30));
    assert_eq!(c.sweep(30), None);
}

#[test]
fn maintain_sweeps_only_past_the_watermark() {
    let mut c: Cache<u64> = Cache::new(100);
    c.put(key("a"), 1, 50, 100);
    c.put(key("b"), 2, 80, 100);
    // The watermark is 100: nothing is swept at 100 itself.
    c.maintain(100);
    c.maintain(160);
    // The sweep at 160 evicted "a" and recorded 180 as the watermark.
    assert_eq!(c.sweep(0), Some(180));
    assert_eq!(c.get(&key("a"), 0), Err(Error::NoValue));
    assert_eq!(c.get(&key("b"), 0), Ok(2));
}

#[test]
fn handle_answers_reads_only() {
    let mut c: Cache<u64> = Cache::new(0);
    assert_eq!(c.handle(Command::Put(key("x"), 5, 100), 0), None);
    assert_eq!(c.handle(Command::Get(key("x"), true), 60), Some(Ok(5)));
    assert_eq!(c.handle(Command::Get(key("x"), false), 150), Some(Ok(5)));
    assert_eq!(c.handle(Command::Remove(key("x")), 151), None);
    assert_eq!(c.handle(Command::Get(key("x"), false), 152), Some(Err(Error::NoValue)));
}

#[test]
fn handle_sweeps_expired_entries_without_a_read() {
    let mut c: Cache<u64> = Cache::new(0);
    c.handle(Command::Put(key("short"), 1, 5), 0);
    c.handle(Command::Put(key("long"), 2, 500), 0);
    // Time 10 is past the watermark (0): the sweep evicts "short" unread.
    c.handle(Command::Remove(key("none")), 10);
    assert_eq!(c.get(&key("short"), 0), Err(Error::NoValue));
    assert_eq!(c.get(&key("long"), 0), Ok(2));
}

#[test]
fn settle_reply_maps_each_case() {
    assert_eq!(settle_reply::<u8>(None), Err(Error::ThreadDisconnected));
    assert_eq!(settle_reply::<u8>(Some(Err(Error::Expired))), Err(Error::Expired));
    assert_eq!(settle_reply::<u8>(Some(Ok(None))), Err(Error::InvalidCast));
    assert_eq!(settle_reply::<u8>(Some(Ok(Some(4)))), Ok(4));
}

#[test]
fn error_messages() {
    assert_eq!(Error::Expired.message(), "Value expired");
    assert_eq!(Error::InvalidCast.message(), "Invalid cast");
    assert_eq!(Error::NoValue.message(), "No value");
    assert_eq!(Error::ThreadDisconnected.message(), "Thread disconnected");
    assert_eq!(Error::ThreadErr(String::from("full")).message(), "Thread disconnected: full");
}
