use vstd::prelude::*;

use crate::error::Error;
use crate::table::{Entry, Table};

verus! {

/// A message to the engine that owns the cache.
pub enum Command<V> {
    /// Read the value under a key; with `true`, also move its deadline forward.
    Get(String, bool),
    /// Store a value under a key with a time-to-live in milliseconds.
    Put(String, V, u64),
    /// Delete the entry under a key.
    Remove(String),
}

/// The deadline of an entry written at `now` with a time-to-live of `ttl_ms`;
/// it stays at the clock's last instant rather than wrap around.
pub open spec fn deadline(now: u64, ttl_ms: u64) -> u64 {
    if now + ttl_ms > u64::MAX {
        u64::MAX
    } else {
        (now + ttl_ms) as u64
    }
}

/// Why a read of `key` at `now` fails, or `None` when the entry is live.
pub open spec fn read_error<V>(m: Map<Seq<char>, Entry<V>>, key: Seq<char>, now: u64) -> Option<
    Error,
> {
    if !m.contains_key(key) {
        Some(Error::NoValue)
    } else if m[key].expires <= now {
        Some(Error::Expired)
    } else {
        None
    }
}

/// The table after a read of `key` at `now`: an expired entry is evicted, and
/// a refreshing read of a live entry moves its deadline to `now` plus its
/// time-to-live.
pub open spec fn after_read<V>(
    m: Map<Seq<char>, Entry<V>>,
    key: Seq<char>,
    refresh: bool,
    now: u64,
) -> Map<Seq<char>, Entry<V>> {
    if !m.contains_key(key) {
        m
    } else if m[key].expires <= now {
        m.remove(key)
    } else if refresh {
        m.insert(key, Entry { expires: deadline(now, m[key].ttl_ms), ..m[key] })
    } else {
        m
    }
}

/// The table after `value` is stored under `key` at `now`.
pub open spec fn after_put<V>(
    m: Map<Seq<char>, Entry<V>>,
    key: Seq<char>,
    value: V,
    ttl_ms: u64,
    now: u64,
) -> Map<Seq<char>, Entry<V>> {
    m.insert(key, Entry { value, expires: deadline(now, ttl_ms), ttl_ms })
}

/// The entries of `m` that are still live at `now`.
pub open spec fn swept<V>(m: Map<Seq<char>, Entry<V>>, now: u64) -> Map<Seq<char>, Entry<V>> {
    Map::new(|k: Seq<char>| m.contains_key(k) && m[k].expires > now, |k: Seq<char>| m[k])
}

/// `w` is the earliest deadline among the entries of `m`.
pub open spec fn earliest<V>(m: Map<Seq<char>, Entry<V>>, w: u64) -> bool {
    &&& exists|k: Seq<char>| #[trigger] m.contains_key(k) && m[k].expires == w
    &&& forall|k: Seq<char>| #[trigger] m.contains_key(k) ==> w <= m[k].expires
}

/// `w` is at or before the deadline of every entry of `m`.
pub open spec fn bounded_by<V>(m: Map<Seq<char>, Entry<V>>, w: u64) -> bool {
    forall|k: Seq<char>| #[trigger] m.contains_key(k) ==> w <= m[k].expires
}

/// The watermark after a read: a refresh may only lower it to the new deadline.
pub open spec fn watermark_after_read<V>(
    w: u64,
    m: Map<Seq<char>, Entry<V>>,
    key: Seq<char>,
    refresh: bool,
    now: u64,
) -> u64 {
    if refresh && read_error(m, key, now) is None && deadline(now, m[key].ttl_ms) < w {
        deadline(now, m[key].ttl_ms)
    } else {
        w
    }
}

/// The table after one command is applied at `now`, before any sweep.
pub open spec fn after_command<V>(m: Map<Seq<char>, Entry<V>>, c: Command<V>, now: u64) -> Map<
    Seq<char>,
    Entry<V>,
> {
    match c {
        Command::Get(k, refresh) => after_read(m, k@, refresh, now),
        Command::Put(k, v, ttl_ms) => after_put(m, k@, v, ttl_ms, now),
        Command::Remove(k) => m.remove(k@),
    }
}

/// The watermark after one command is applied at `now`, before any sweep.
pub open spec fn watermark_after_command<V>(
    w: u64,
    m: Map<Seq<char>, Entry<V>>,
    c: Command<V>,
    now: u64,
) -> u64 {
    match c {
        Command::Get(k, refresh) => watermark_after_read(w, m, k@, refresh, now),
        Command::Put(_, _, ttl_ms) => if deadline(now, ttl_ms) < w {
            deadline(now, ttl_ms)
        } else {
            w
        },
        Command::Remove(_) => w,
    }
}

/// The cache state owned by the engine: the table of entries, and a watermark
/// that is at or before every entry's deadline.
pub struct Cache<V> {
    table: Table<V>,
    watermark: u64,
}

impl<V> View for Cache<V> {
    type V = Map<Seq<char>, Entry<V>>;

    closed spec fn view(&self) -> Map<Seq<char>, Entry<V>> {
        self.table@
    }
}

impl<V> Cache<V> {
    #[verifier::type_invariant]
    closed spec fn inv(&self) -> bool {
        &&& self.table.wf()
        &&& forall|k: Seq<char>|
            #[trigger] self.table@.contains_key(k) ==> self.watermark <= self.table@[k].expires
    }

    /// The recorded watermark: no sweep runs until the clock has passed it.
    pub closed spec fn next_expiry(&self) -> u64 {
        self.watermark
    }

    /// An empty cache whose watermark starts at `now`.
    pub fn new(now: u64) -> (c: Self)
        ensures
            c@ == Map::<Seq<char>, Entry<V>>::empty(),
            c.next_expiry() == now,
    {
        Cache { table: Table::new(), watermark: now }
    }

    /// Stores `value` under `key` at `now`, replacing any entry there; it
    /// expires `ttl_ms` milliseconds later.
    pub fn put(&mut self, key: String, value: V, ttl_ms: u64, now: u64)
        ensures
            final(self)@ == after_put(old(self)@, key@, value, ttl_ms, now),
            final(self).next_expiry() == if deadline(now, ttl_ms) < old(self).next_expiry() {
                deadline(now, ttl_ms)
            } else {
                old(self).next_expiry()
            },
            bounded_by(final(self)@, final(self).next_expiry()),
    {
        proof {
            use_type_invariant(&*self);
        }
        let expires = now.saturating_add(ttl_ms);
        let mut t = Table::new();
        std::mem::swap(&mut t, &mut self.table);
        t.insert(key, Entry { value, expires, ttl_ms });
        if expires < self.watermark {
            self.watermark = expires;
        }
        self.table = t;
        proof {
            use_type_invariant(&*self);
        }
    }

    /// Deletes the entry under `key`; a key that is absent is left alone.
    pub fn remove(&mut self, key: &String)
        ensures
            final(self)@ == old(self)@.remove(key@),
            final(self).next_expiry() == old(self).next_expiry(),
            bounded_by(final(self)@, final(self).next_expiry()),
    {
        proof {
            use_type_invariant(&*self);
        }
        let mut t = Table::new();
        std::mem::swap(&mut t, &mut self.table);
        t.remove(key);
        self.table = t;
        proof {
            use_type_invariant(&*self);
        }
    }

    /// Evicts every entry whose deadline is at or before `now`, and returns the
    /// earliest deadline among those that stay, or `None` when none stays.
    pub fn sweep(&mut self, now: u64) -> (r: Option<u64>)
        ensures
            final(self)@ == swept(old(self)@, now),
            final(self).next_expiry() == old(self).next_expiry(),
            match r {
                None => final(self)@ == Map::<Seq<char>, Entry<V>>::empty(),
                Some(w) => earliest(final(self)@, w),
            },
    {
        proof {
            use_type_invariant(&*self);
        }
        let ghost m0 = self@;
        let mut t = Table::new();
        std::mem::swap(&mut t, &mut self.table);
        let r = t.sweep(now);
        self.table = t;
        assert(self@ =~= swept(m0, now));
        proof {
            if r is None {
                assert(self@ =~= Map::<Seq<char>, Entry<V>>::empty());
            }
        }
        r
    }

    /// Sweeps the table when `now` has passed the watermark, and then records
    /// the earliest deadline that stays as the new watermark.
    pub fn maintain(&mut self, now: u64)
        ensures
            final(self)@ == if now > old(self).next_expiry() {
                swept(old(self)@, now)
            } else {
                old(self)@
            },
            if now > old(self).next_expiry() && final(self)@ != Map::<
                Seq<char>,
                Entry<V>,
            >::empty() {
                earliest(final(self)@, final(self).next_expiry())
            } else {
                final(self).next_expiry() == old(self).next_expiry()
            },
            bounded_by(final(self)@, final(self).next_expiry()),
    {
        proof {
            use_type_invariant(&*self);
        }
        if now > self.watermark {
            match self.sweep(now) {
                Some(w) => {
                    proof {
                        use_type_invariant(&*self);
                    }
                    let mut t = Table::new();
                    std::mem::swap(&mut t, &mut self.table);
                    self.watermark = w;
                    self.table = t;
                },
                None => {},
            }
        }
        proof {
            use_type_invariant(&*self);
        }
    }
}

impl<V: Clone> Cache<V> {
    /// Reads `key` at `now`. An expired entry is evicted and reported as
    /// such; with `refresh`, a live entry's deadline moves to `now` plus its
    /// time-to-live, after its value has been read.
    fn read(&mut self, key: &String, refresh: bool, now: u64) -> (r: Result<V, Error>)
        ensures
            final(self)@ == after_read(old(self)@, key@, refresh, now),
            final(self).next_expiry() == watermark_after_read(
                old(self).next_expiry(),
                old(self)@,
                key@,
                refresh,
                now,
            ),
            bounded_by(final(self)@, final(self).next_expiry()),
            match r {
                Ok(v) => read_error(old(self)@, key@, now) is None && cloned(
                    old(self)@[key@].value,
                    v,
                ),
                Err(e) => read_error(old(self)@, key@, now) == Some(e),
            },
    {
        proof {
            use_type_invariant(&*self);
        }
        let ghost m0 = self@;
        let found = self.table.lookup(key);
        match found {
            None => Err(Error::NoValue),
            Some(e) => {
                if e.expires <= now {
                    let mut t = Table::new();
                    std::mem::swap(&mut t, &mut self.table);
                    t.remove(key);
                    self.table = t;
                    proof {
                        use_type_invariant(&*self);
                    }
                    Err(Error::Expired)
                } else {
                    let v = e.value.clone();
                    if refresh {
                        let expires = now.saturating_add(e.ttl_ms);
                        let mut t = Table::new();
                        std::mem::swap(&mut t, &mut self.table);
                        t.set_expires(key, expires);
                        if expires < self.watermark {
                            self.watermark = expires;
                        }
                        self.table = t;
                        proof {
                            use_type_invariant(&*self);
                        }
                    }
                    Ok(v)
                }
            },
        }
    }

    /// Reads `key` at `now`: `NoValue` when it is absent, `Expired` (and
    /// evicted) when its deadline is at or before `now`, else a clone of the
    /// stored handle.
    pub fn get(&mut self, key: &String, now: u64) -> (r: Result<V, Error>)
        ensures
            final(self)@ == after_read(old(self)@, key@, false, now),
            final(self).next_expiry() == old(self).next_expiry(),
            bounded_by(final(self)@, final(self).next_expiry()),
            match r {
                Ok(v) => read_error(old(self)@, key@, now) is None && cloned(
                    old(self)@[key@].value,
                    v,
                ),
                Err(e) => read_error(old(self)@, key@, now) == Some(e),
            },
    {
        self.read(key, false, now)
    }

    /// Reads `key` at `now` as `get` does, and on success moves the entry's
    /// deadline to `now` plus the time-to-live it was stored with.
    pub fn get_refresh(&mut self, key: &String, now: u64) -> (r: Result<V, Error>)
        ensures
            final(self)@ == after_read(old(self)@, key@, true, now),
            final(self).next_expiry() == watermark_after_read(
                old(self).next_expiry(),
                old(self)@,
                key@,
                true,
                now,
            ),
            bounded_by(final(self)@, final(self).next_expiry()),
            match r {
                Ok(v) => read_error(old(self)@, key@, now) is None && cloned(
                    old(self)@[key@].value,
                    v,
                ),
                Err(e) => read_error(old(self)@, key@, now) == Some(e),
            },
    {
        self.read(key, true, now)
    }

    /// Applies one command at `now`, then sweeps if `now` has passed the
    /// watermark. A `Get` is answered with its result; the other commands get
    /// no answer.
    pub fn handle(&mut self, command: Command<V>, now: u64) -> (r: Option<Result<V, Error>>)
        ensures
            ({
                let mid = after_command(old(self)@, command, now);
                let mid_mark = watermark_after_command(
                    old(self).next_expiry(),
                    old(self)@,
                    command,
                    now,
                );
                &&& final(self)@ == if now > mid_mark {
                    swept(mid, now)
                } else {
                    mid
                }
                &&& if now > mid_mark && final(self)@ != Map::<Seq<char>, Entry<V>>::empty() {
                    earliest(final(self)@, final(self).next_expiry())
                } else {
                    final(self).next_expiry() == mid_mark
                }
            }),
            bounded_by(final(self)@, final(self).next_expiry()),
            match command {
                Command::Get(k, _) => match r {
                    Some(Ok(v)) => read_error(old(self)@, k@, now) is None && cloned(
                        old(self)@[k@].value,
                        v,
                    ),
                    Some(Err(e)) => read_error(old(self)@, k@, now) == Some(e),
                    None => false,
                },
                _ => r is None,
            },
    {
        let r = match command {
            Command::Get(key, refresh) => Some(self.read(&key, refresh, now)),
            Command::Put(key, value, ttl_ms) => {
                self.put(key, value, ttl_ms, now);
                None
            },
            Command::Remove(key) => {
                self.remove(&key);
                None
            },
        };
        self.maintain(now);
        r
    }
}

} // verus!
