//! Properties of the cache that relate several operations, stated over the
//! spec functions that the operations' contracts use.
use vstd::prelude::*;

use crate::cache::{after_put, after_read, deadline, read_error};
use crate::error::{settled, Error};
use crate::table::Entry;

verus! {

/// A key that holds no entry reads as `NoValue`, whatever the time, and the
/// read leaves the table as it was.
pub proof fn law_absent_key_reads_no_value<V>(
    m: Map<Seq<char>, Entry<V>>,
    key: Seq<char>,
    refresh: bool,
    now: u64,
)
    requires
        !m.contains_key(key),
    ensures
        read_error(m, key, now) == Some(Error::NoValue),
        after_read(m, key, refresh, now) == m,
{
}

/// Right after a value is stored with a positive time-to-live, a read at the
/// same instant finds it live and gets that very value back; a caller that
/// asks for another type then gets `InvalidCast`, as no expiry can intervene.
pub proof fn law_put_then_read<V, T>(
    m: Map<Seq<char>, Entry<V>>,
    key: Seq<char>,
    value: V,
    ttl_ms: u64,
    now: u64,
)
    requires
        ttl_ms > 0,
        now < u64::MAX,
    ensures
        read_error(after_put(m, key, value, ttl_ms, now), key, now) is None,
        after_put(m, key, value, ttl_ms, now)[key].value == value,
        settled::<T>(Some(Ok(None))) == Err::<T, Error>(Error::InvalidCast),
{
}

/// Once the clock has reached an entry's deadline, a read reports `Expired`
/// and evicts it, so every later read reports `NoValue`, with no sweep needed.
pub proof fn law_expired_once<V>(
    m: Map<Seq<char>, Entry<V>>,
    key: Seq<char>,
    refresh: bool,
    now: u64,
    later: u64,
)
    requires
        m.contains_key(key),
        m[key].expires <= now,
    ensures
        read_error(m, key, now) == Some(Error::Expired),
        !after_read(m, key, refresh, now).contains_key(key),
        read_error(after_read(m, key, refresh, now), key, later) == Some(Error::NoValue),
{
}

/// A refreshing read of a live entry sets its deadline to the time of the
/// refresh plus the time-to-live it was stored with, keeps its value and
/// time-to-live, and the entry stays readable until that new deadline, also
/// past its old one.
pub proof fn law_refresh_extends<V>(
    m: Map<Seq<char>, Entry<V>>,
    key: Seq<char>,
    now: u64,
    later: u64,
)
    requires
        m.contains_key(key),
        now < m[key].expires,
    ensures
        after_read(m, key, true, now)[key] == (Entry {
            expires: deadline(now, m[key].ttl_ms),
            ..m[key]
        }),
        later < deadline(now, m[key].ttl_ms) ==> read_error(
            after_read(m, key, true, now),
            key,
            later,
        ) is None,
{
}

/// After a key is removed it reads as `NoValue`; removing a key that holds no
/// entry changes nothing.
pub proof fn law_remove<V>(m: Map<Seq<char>, Entry<V>>, key: Seq<char>, now: u64)
    ensures
        read_error(m.remove(key), key, now) == Some(Error::NoValue),
        !m.contains_key(key) ==> m.remove(key) == m,
{
    if !m.contains_key(key) {
        assert(m.remove(key) =~= m);
    }
}

} // verus!
