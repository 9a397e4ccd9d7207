//! Name lookup in a `.dir` sprite archive: a 1024-bucket hash table of
//! named entries, looked up case-insensitively with `|`-separated fallback
//! names.
use vstd::prelude::*;

use crate::bytes::{le_u32, read_u32_le};
use crate::font::cstr_len;

verus! {

/// Number of hash buckets of an archive directory.
pub const GFX_DIR_BUCKETS: usize = 1024;

/// Longest name part that a lookup reads.
pub const GFX_NAME_MAX: usize = 0xFF;

/// One entry of the directory: the value that locates its resource, a
/// field of unknown use, and its (lower-case) name.
#[derive(Debug, Clone)]
pub struct GfxDirEntry {
    pub value: u32,
    pub _unknown_08: u32,
    pub name: Vec<u8>,
}

/// The directory: for each bucket, its chain of entries in chain order.
#[derive(Debug, Clone)]
pub struct GfxDirTable {
    pub buckets: Vec<Vec<GfxDirEntry>>,
}

impl GfxDirTable {
    pub open spec fn wf(&self) -> bool {
        self.buckets@.len() == GFX_DIR_BUCKETS
    }
}

/// The 10-bit hash of a name: for each byte, rotate the hash left by one
/// bit within 10 bits, then add the byte, modulo 1024.
pub open spec fn dir_hash(s: Seq<u8>) -> u32
    decreases s.len(),
{
    if s.len() == 0 {
        0
    } else {
        let h = dir_hash(s.drop_last()) as int;
        let rot = (2 * h + (h / 512) % 2) % 1024;
        ((rot + s.last()) % 1024) as u32
    }
}

/// The name hash starts at 0, and each further byte `c` first rotates the
/// 10-bit hash left by one bit (bit 9 comes back in as bit 0), then adds
/// `c`, modulo 1024; the hash always lies below 1024.
pub proof fn lemma_dir_hash_step(s: Seq<u8>, c: u8)
    ensures
        dir_hash(Seq::<u8>::empty()) == 0,
        dir_hash(s) < 1024,
        dir_hash(s.push(c)) as int == ((2 * dir_hash(s)) % 1024 + dir_hash(s) / 512 + c) % 1024,
{
    assert(s.push(c).drop_last() =~= s);
    let h = dir_hash(s) as int;
    assert(h < 1024);
    if h < 512 {
        assert((2 * h + (h / 512) % 2) % 1024 == (2 * h) % 1024 + h / 512);
    } else {
        assert((2 * h + (h / 512) % 2) % 1024 == (2 * h) % 1024 + h / 512);
    }
}

/// The hash of a name (see `dir_hash`).
pub fn gfx_dir_hash(name: &[u8]) -> (h: u32)
    ensures
        h == dir_hash(name@),
        h < 1024,
{
    let mut hash: u32 = 0;
    let mut i: usize = 0;
    while i < name.len()
        invariant
            i <= name@.len(),
            hash == dir_hash(name@.take(i as int)),
            hash < 1024,
        decreases name@.len() - i,
    {
        let bit9: u32 = (hash >> 9u32) & 1;
        let h0 = hash;
        assert(bit9 == (h0 as int / 512) % 2) by (bit_vector)
            requires
                bit9 == (h0 >> 9u32) & 1,
                h0 < 1024,
        ;
        let rot: u32 = ((hash << 1u32) | bit9) & 0x3FF;
        assert(rot == (2 * h0 + bit9) % 1024) by (bit_vector)
            requires
                rot == ((h0 << 1u32) | bit9) & 0x3FF,
                bit9 <= 1,
                h0 < 1024,
        ;
        let c: u32 = name[i] as u32;
        let sum: u32 = rot + c;
        hash = sum & 0x3FF;
        let r0 = rot;
        assert(hash == (r0 + c) % 1024) by (bit_vector)
            requires
                hash == sum & 0x3FF,
                sum == r0 + c,
                r0 < 1024,
                c < 256,
        ;
        proof {
            assert(name@.take(i + 1).drop_last() =~= name@.take(i as int));
        }
        i = i + 1;
    }
    proof {
        assert(name@.take(i as int) =~= name@);
    }
    hash
}

/// `b` with `A`..`Z` turned into `a`..`z`.
pub open spec fn lower_ascii(b: u8) -> u8 {
    if 65 <= b <= 90 {
        (b + 0x20) as u8
    } else {
        b
    }
}

/// The part of a name that a lookup reads: up to its end or 255 bytes.
pub open spec fn name_head(s: Seq<u8>) -> Seq<u8> {
    let n = cstr_len(s);
    s.take(if n < GFX_NAME_MAX {
        n
    } else {
        GFX_NAME_MAX as int
    })
}

/// The index of the first `|` in `s`, if any.
pub open spec fn first_pipe(s: Seq<u8>) -> Option<int>
    decreases s.len(),
{
    if s.len() == 0 {
        None
    } else if s[0] == 124 {
        Some(0)
    } else {
        match first_pipe(s.drop_first()) {
            Some(p) => Some(p + 1),
            None => None,
        }
    }
}

proof fn lemma_first_pipe_at(s: Seq<u8>, m: int)
    requires
        0 <= m <= s.len(),
        forall|j: int| 0 <= j < m ==> s[j] != 124,
        m == s.len() || s[m] == 124,
    ensures
        first_pipe(s) == (if m < s.len() {
            Some(m)
        } else {
            None::<int>
        }),
    decreases m,
{
    if m > 0 {
        lemma_first_pipe_at(s.drop_first(), m - 1);
    }
}

/// The key that the first name of `s` is looked up by: the read part up to
/// the first `|`, in lower case.
pub open spec fn lookup_key(s: Seq<u8>) -> Seq<u8> {
    let h = name_head(s);
    let part = match first_pipe(h) {
        Some(p) => h.take(p),
        None => h,
    };
    part.map_values(|b: u8| lower_ascii(b))
}

/// The first entry of `chain` named `key`.
pub open spec fn chain_find(chain: Seq<GfxDirEntry>, key: Seq<u8>) -> Option<int>
    decreases chain.len(),
{
    if chain.len() == 0 {
        None
    } else {
        match chain_find(chain.drop_last(), key) {
            Some(i) => Some(i),
            None => if chain.last().name@ == key {
                Some(chain.len() - 1)
            } else {
                None
            },
        }
    }
}

/// The entry found for name `s`, as (bucket, place in chain): the entry
/// named by the key of its first name in that key's bucket, or else the
/// entry found for the names after the first `|`.
pub open spec fn dir_find(t: GfxDirTable, s: Seq<u8>) -> Option<(int, int)>
    decreases s.len(),
{
    let key = lookup_key(s);
    let b = dir_hash(key) as int;
    match chain_find(t.buckets@[b]@, key) {
        Some(i) => Some((b, i)),
        None => match first_pipe(name_head(s)) {
            Some(p) => {
                proof {
                    lemma_head_len(s);
                }
                dir_find(t, s.skip(p + 1))
            },
            None => None,
        },
    }
}

fn lookup_key_of(s: &[u8], start: usize) -> (r: (Vec<u8>, Option<usize>))
    requires
        start <= s@.len(),
    ensures
        r.0@ == lookup_key(s@.skip(start as int)),
        match r.1 {
            Some(p) => first_pipe(name_head(s@.skip(start as int))) == Some(p as int),
            None => first_pipe(name_head(s@.skip(start as int))) is None,
        },
{
    let ghost t = s@.skip(start as int);
    let len: usize = s.len();
    let mut n: usize = 0;
    while start + n < len && s[start + n] != 0 && n < GFX_NAME_MAX
        invariant
            len == s@.len(),
            start <= len,
            t == s@.skip(start as int),
            n <= GFX_NAME_MAX,
            start + n <= len,
            forall|j: int| 0 <= j < n ==> t[j] != 0,
        decreases len - start - n,
    {
        n = n + 1;
    }
    proof {
        if n < GFX_NAME_MAX {
            crate::font::lemma_cstr_len(t, n as int);
        } else {
            crate::font::lemma_cstr_len_ge(t, n as int);
        }
        assert(name_head(t) =~= t.take(n as int));
    }
    let mut m: usize = 0;
    while m < n && s[start + m] != 124
        invariant
            len == s@.len(),
            start + n <= len,
            t == s@.skip(start as int),
            m <= n,
            forall|j: int| 0 <= j < m ==> t[j] != 124,
        decreases n - m,
    {
        m = m + 1;
    }
    proof {
        lemma_first_pipe_at(t.take(n as int), m as int);
    }
    let mut key: Vec<u8> = Vec::new();
    let mut k: usize = 0;
    while k < m
        invariant
            len == s@.len(),
            start + n <= len,
            m <= n,
            t == s@.skip(start as int),
            k <= m,
            key@ == t.take(k as int).map_values(|b: u8| lower_ascii(b)),
        decreases m - k,
    {
        let b = s[start + k];
        let lb: u8 = if 65 <= b && b <= 90 {
            b + 0x20
        } else {
            b
        };
        key.push(lb);
        proof {
            assert(key@ =~= t.take(k + 1).map_values(|b: u8| lower_ascii(b)));
        }
        k = k + 1;
    }
    proof {
        let h = t.take(n as int);
        if m < n {
            assert(h.take(m as int) =~= t.take(m as int));
        } else {
            assert(h =~= t.take(m as int));
        }
    }
    let pipe: Option<usize> = if m < n {
        Some(m)
    } else {
        None
    };
    (key, pipe)
}

fn chain_find_exec(chain: &Vec<GfxDirEntry>, key: &Vec<u8>) -> (r: Option<usize>)
    ensures
        match r {
            Some(i) => chain_find(chain@, key@) == Some(i as int),
            None => chain_find(chain@, key@) is None,
        },
{
    let mut i: usize = 0;
    while i < chain.len()
        invariant
            i <= chain@.len(),
            chain_find(chain@.take(i as int), key@) is None,
        decreases chain@.len() - i,
    {
        proof {
            assert(chain@.take(i + 1).drop_last() =~= chain@.take(i as int));
        }
        if bytes_equal(&chain[i].name, key) {
            proof {
                assert(chain@.take(i + 1).last() == chain@[i as int]);
                assert(chain_find(chain@.take(i + 1), key@) == Some(i as int));
                lemma_chain_find_prefix(chain@, i as int + 1, key@);
            }
            return Some(i);
        }
        i = i + 1;
    }
    proof {
        assert(chain@.take(i as int) =~= chain@);
    }
    None
}

proof fn lemma_chain_find_prefix(c: Seq<GfxDirEntry>, m: int, key: Seq<u8>)
    requires
        0 < m <= c.len(),
        chain_find(c.take(m), key) is Some,
    ensures
        chain_find(c, key) == chain_find(c.take(m), key),
    decreases c.len(),
{
    if c.len() > m {
        assert(c.drop_last().take(m) =~= c.take(m));
        lemma_chain_find_prefix(c.drop_last(), m, key);
    } else {
        assert(c.take(m) =~= c);
    }
}

fn bytes_equal(a: &Vec<u8>, b: &Vec<u8>) -> (r: bool)
    ensures
        r == (a@ == b@),
{
    if a.len() != b.len() {
        return false;
    }
    let mut i: usize = 0;
    while i < a.len()
        invariant
            i <= a@.len() == b@.len(),
            forall|j: int| 0 <= j < i ==> a@[j] == b@[j],
        decreases a@.len() - i,
    {
        if a[i] != b[i] {
            return false;
        }
        i = i + 1;
    }
    assert(a@ =~= b@);
    true
}

/// Looks up the C string `name` (see `dir_find`): the bucket and chain
/// place of the entry found, or `None`.
pub fn gfx_dir_find_entry(name: &[u8], dir: &GfxDirTable) -> (r: Option<(usize, usize)>)
    requires
        dir.wf(),
    ensures
        match r {
            Some((b, i)) => dir_find(*dir, name@) == Some((b as int, i as int)),
            None => dir_find(*dir, name@) is None,
        },
{
    let mut start: usize = 0;
    proof {
        assert(name@.skip(0) =~= name@);
    }
    while start <= name.len()
        invariant
            dir.wf(),
            start <= name@.len(),
            dir_find(*dir, name@) == dir_find(*dir, name@.skip(start as int)),
        decreases name@.len() + 1 - start,
    {
        let (key, pipe) = lookup_key_of(name, start);
        let b: u32 = gfx_dir_hash(key.as_slice());
        match chain_find_exec(&dir.buckets[b as usize], &key) {
            Some(i) => {
                return Some((b as usize, i));
            },
            None => {},
        }
        match pipe {
            Some(p) => {
                proof {
                    let t = name@.skip(start as int);
                    lemma_head_len(t);
                    assert(t.skip(p + 1) =~= name@.skip(start + p + 1));
                }
                start = start + p + 1;
            },
            None => {
                return None;
            },
        }
    }
    None
}

proof fn lemma_cstr_len_props(s: Seq<u8>)
    ensures
        0 <= cstr_len(s) <= s.len(),
        forall|j: int| 0 <= j < cstr_len(s) ==> s[j] != 0,
        cstr_len(s) == s.len() || s[cstr_len(s)] == 0,
    decreases s.len(),
{
    if s.len() > 0 && s[0] != 0 {
        lemma_cstr_len_props(s.drop_first());
        assert forall|j: int| 0 <= j < cstr_len(s) implies s[j] != 0 by {
            if j > 0 {
                assert(s[j] == s.drop_first()[j - 1]);
            }
        }
    }
}

proof fn lemma_first_pipe_props(h: Seq<u8>)
    ensures
        match first_pipe(h) {
            Some(p) => 0 <= p < h.len() && h[p] == 124 && forall|j: int| 0 <= j < p ==> h[j] != 124,
            None => forall|j: int| 0 <= j < h.len() ==> h[j] != 124,
        },
    decreases h.len(),
{
    if h.len() > 0 {
        lemma_first_pipe_props(h.drop_first());
        if h[0] != 124 {
            match first_pipe(h.drop_first()) {
                Some(p) => {
                    assert forall|j: int| 0 <= j < p + 1 implies h[j] != 124 by {
                        if j > 0 {
                            assert(h[j] == h.drop_first()[j - 1]);
                        }
                    }
                },
                None => {
                    assert forall|j: int| 0 <= j < h.len() implies h[j] != 124 by {
                        if j > 0 {
                            assert(h[j] == h.drop_first()[j - 1]);
                        }
                    }
                },
            }
        }
    }
}

/// The key a name is looked up by: the name's bytes up to (not including)
/// its first zero byte or `|`, at most 255 of them, with `A`-`Z` turned
/// into `a`-`z` and every other byte kept.
pub proof fn lemma_lookup_key_shape(s: Seq<u8>)
    ensures
        lookup_key(s).len() <= GFX_NAME_MAX,
        lookup_key(s).len() <= s.len(),
        forall|j: int| 0 <= j < lookup_key(s).len() ==> #[trigger] s[j] != 0,
        forall|j: int| 0 <= j < lookup_key(s).len() ==> #[trigger] s[j] != 124,
        forall|j: int|
            0 <= j < lookup_key(s).len() ==> #[trigger] lookup_key(s)[j] == (if 65 <= s[j] && s[j]
                <= 90 {
                (s[j] + 32) as u8
            } else {
                s[j]
            }),
        lookup_key(s).len() == s.len() || lookup_key(s).len() == GFX_NAME_MAX || s[lookup_key(s).len() as int]
            == 0 || s[lookup_key(s).len() as int] == 124,
{
    lemma_cstr_len_props(s);
    let h = name_head(s);
    lemma_first_pipe_props(h);
    let part = match first_pipe(h) {
        Some(p) => h.take(p),
        None => h,
    };
    let k = lookup_key(s);
    assert(k == part.map_values(|b: u8| lower_ascii(b)));
    assert(k.len() == part.len());
    assert forall|j: int| 0 <= j < lookup_key(s).len() implies s[j] != 0 && s[j] != 124 && #[trigger] lookup_key(s)[j] == (if 65
        <= s[j] && s[j] <= 90 {
        (s[j] + 32) as u8
    } else {
        s[j]
    }) by {
        assert(part[j] == h[j]);
        assert(h[j] == s[j]);
        assert(k[j] == lower_ascii(part[j]));
    }
    assert forall|j: int| 0 <= j < lookup_key(s).len() implies #[trigger] s[j] != 124 by {
        assert(h[j] == s[j]);
        match first_pipe(h) {
            Some(p) => {
                assert(j < p);
            },
            None => {},
        }
    }
    let n = cstr_len(s);
    assert(h.len() == (if n < GFX_NAME_MAX {
        n
    } else {
        GFX_NAME_MAX as int
    }));
    match first_pipe(h) {
        Some(p) => {
            assert(k.len() == p);
            assert(h[p] == s[p]);
        },
        None => {
            assert(k.len() == h.len());
            if n < GFX_NAME_MAX {
                assert(k.len() == n);
            }
        },
    }
}

/// A chain lookup finds the first entry of the chain with exactly the key
/// as its name, and finds nothing when no entry has it.
pub proof fn lemma_chain_find_first(chain: Seq<GfxDirEntry>, key: Seq<u8>)
    ensures
        match chain_find(chain, key) {
            Some(i) => 0 <= i < chain.len() && chain[i].name@ == key && forall|j: int|
                0 <= j < i ==> chain[j].name@ != key,
            None => forall|j: int| 0 <= j < chain.len() ==> chain[j].name@ != key,
        },
    decreases chain.len(),
{
    if chain.len() > 0 {
        let c = chain.drop_last();
        lemma_chain_find_first(c, key);
        assert forall|j: int| 0 <= j < c.len() implies #[trigger] c[j] == chain[j] by {}
        match chain_find(c, key) {
            Some(i) => {
                assert(chain_find(chain, key) == Some(i));
                assert(c[i] == chain[i]);
                assert forall|j: int| 0 <= j < i implies chain[j].name@ != key by {
                    assert(c[j] == chain[j]);
                }
            },
            None => {
                assert(chain.last() == chain[chain.len() - 1]);
                if chain.last().name@ == key {
                    assert(chain_find(chain, key) == Some(chain.len() - 1));
                    assert forall|j: int| 0 <= j < chain.len() - 1 implies chain[j].name@ != key by {
                        assert(c[j] == chain[j]);
                    }
                } else {
                    assert(chain_find(chain, key) is None);
                    assert forall|j: int| 0 <= j < chain.len() implies chain[j].name@ != key by {
                        if j < chain.len() - 1 {
                            assert(c[j] == chain[j]);
                        }
                    }
                }
            },
        }
    }
}

/// An entry found for a name sits in the bucket of its own name's hash and
/// is named by the lookup key of the name or of the rest of it after one
/// of its `|`s; when the first key's bucket holds an entry of that name,
/// the first such entry is the one found.
pub proof fn lemma_dir_find_sound(t: GfxDirTable, s: Seq<u8>)
    requires
        t.wf(),
    ensures
        dir_find(t, s) matches Some((b, i)) ==> {
            &&& 0 <= b < GFX_DIR_BUCKETS
            &&& 0 <= i < t.buckets@[b]@.len()
            &&& b == dir_hash(t.buckets@[b]@[i].name@)
            &&& exists|k: int|
                0 <= k <= s.len() && t.buckets@[b]@[i].name@ == #[trigger] lookup_key(s.skip(k))
        },
        chain_find(t.buckets@[dir_hash(lookup_key(s)) as int]@, lookup_key(s)) is Some ==> dir_find(
            t,
            s,
        ) == Some(
            (
                dir_hash(lookup_key(s)) as int,
                chain_find(t.buckets@[dir_hash(lookup_key(s)) as int]@, lookup_key(s))->0,
            ),
        ),
    decreases s.len(),
{
    let key = lookup_key(s);
    let b = dir_hash(key) as int;
    lemma_dir_hash_step(key, 0);
    lemma_chain_find_first(t.buckets@[b]@, key);
    match chain_find(t.buckets@[b]@, key) {
        Some(i) => {
            assert(s.skip(0) =~= s);
        },
        None => {
            match first_pipe(name_head(s)) {
                Some(p) => {
                    lemma_head_len(s);
                    lemma_dir_find_sound(t, s.skip(p + 1));
                    if dir_find(t, s) is Some {
                        let (b2, i2) = dir_find(t, s)->0;
                        let k2 = choose|k: int|
                            0 <= k <= s.skip(p + 1).len() && t.buckets@[b2]@[i2].name@
                                == #[trigger] lookup_key(s.skip(p + 1).skip(k));
                        assert(s.skip(p + 1).skip(k2) =~= s.skip(p + 1 + k2));
                        assert(t.buckets@[b2]@[i2].name@ == lookup_key(s.skip(p + 1 + k2)));
                    }
                },
                None => {},
            }
        },
    }
}

pub proof fn lemma_head_len(t: Seq<u8>)
    ensures
        name_head(t).len() <= t.len(),
        match first_pipe(name_head(t)) {
            Some(p) => 0 <= p < name_head(t).len(),
            None => true,
        },
{
    lemma_first_pipe_range(name_head(t));
    crate::font::lemma_cstr_len_le(t);
}

pub proof fn lemma_first_pipe_range(h: Seq<u8>)
    ensures
        match first_pipe(h) {
            Some(p) => 0 <= p < h.len(),
            None => true,
        },
    decreases h.len(),
{
    if h.len() > 0 {
        lemma_first_pipe_range(h.drop_first());
    }
}

/// The chain of entries that starts at table offset `off` (0: none): the
/// node at byte `off - 4` of the table holds the next offset, the value,
/// the unknown field and the C string of the name. `None` when a node or
/// its name runs past the table, or the chain has more than `fuel` nodes.
pub open spec fn chain_at(t: Seq<u8>, off: u32, fuel: nat) -> Option<Seq<(u32, u32, Seq<u8>)>>
    decreases fuel,
{
    if off == 0 {
        Some(Seq::empty())
    } else if fuel == 0 || off < 4 || off + 8 > t.len() {
        None
    } else {
        let pos = off - 4;
        let name = t.skip(pos + 12);
        if cstr_len(name) >= name.len() {
            None
        } else {
            match chain_at(t, le_u32(t, pos), (fuel - 1) as nat) {
                Some(rest) => Some(
                    seq![(le_u32(t, pos + 4), le_u32(t, pos + 8), name.take(cstr_len(name)))]
                        + rest,
                ),
                None => None,
            }
        }
    }
}

/// The little-endian 32-bit word at `o` of `t`, byte by byte.
pub open spec fn word_at(t: Seq<u8>, o: int) -> int {
    t[o] as int + t[o + 1] as int * 0x100 + t[o + 2] as int * 0x1_0000 + t[o + 3] as int * 0x100_0000
}

/// A chain node at table offset `off` (not 0): the word before `off` is the
/// offset of the next node, then come the entry's value and unknown word
/// and its zero-terminated name, which must end inside the table; the rest
/// of the chain is the chain at the next offset.
pub proof fn lemma_chain_node(t: Seq<u8>, off: u32, fuel: nat)
    requires
        off != 0,
        chain_at(t, off, fuel) is Some,
    ensures
        ({
            let c = chain_at(t, off, fuel)->0;
            let o = off as int;
            let n = c[0].2.len() as int;
            &&& fuel > 0 && o >= 4 && o + 8 <= t.len()
            &&& c.len() >= 1
            &&& c[0].0 as int == word_at(t, o)
            &&& c[0].1 as int == word_at(t, o + 4)
            &&& o + 8 + n < t.len()
            &&& t[o + 8 + n] == 0
            &&& forall|j: int| 0 <= j < n ==> #[trigger] c[0].2[j] == t[o + 8 + j] && t[o + 8 + j] != 0
            &&& chain_at(t, word_at(t, o - 4) as u32, (fuel - 1) as nat) == Some(c.drop_first())
        }),
{
    let pos = off - 4;
    let name = t.skip(pos + 12);
    lemma_cstr_len_props(name);
    let c = chain_at(t, off, fuel)->0;
    assert(c.drop_first() =~= chain_at(t, le_u32(t, pos), (fuel - 1) as nat)->0);
    assert forall|j: int| 0 <= j < c[0].2.len() implies #[trigger] c[0].2[j] == t[off + 8 + j] && t[off
        + 8 + j] != 0 by {
        assert(name[j] == t[pos + 12 + j]);
    }
    assert(name[cstr_len(name)] == t[pos + 12 + cstr_len(name)]);
}

/// The entries of a chain as plain values.
pub open spec fn entry_values(c: Seq<GfxDirEntry>) -> Seq<(u32, u32, Seq<u8>)> {
    c.map_values(|e: GfxDirEntry| (e.value, e._unknown_08, e.name@))
}

/// The directory stored in the table bytes `t`: bucket `k`'s chain starts
/// at the offset in the `k`-th word; `None` when a chain is broken (see
/// `chain_at`, with as many nodes allowed as the table has bytes).
pub open spec fn dir_table_ok(t: Seq<u8>, d: GfxDirTable) -> bool {
    &&& d.buckets@.len() == GFX_DIR_BUCKETS
    &&& forall|k: int|
        0 <= k < GFX_DIR_BUCKETS ==> chain_at(t, le_u32(t, 4 * k), t.len() as nat) == Some(
            entry_values(#[trigger] d.buckets@[k]@),
        )
}

fn read_chain(t: &[u8], off0: u32) -> (r: Option<Vec<GfxDirEntry>>)
    requires
        t@.len() <= u32::MAX,
    ensures
        match r {
            Some(c) => chain_at(t@, off0, t@.len() as nat) == Some(entry_values(c@)),
            None => chain_at(t@, off0, t@.len() as nat) is None,
        },
{
    let len: usize = t.len();
    let mut out: Vec<GfxDirEntry> = Vec::new();
    let mut off: u32 = off0;
    let mut fuel: usize = len;
    proof {
        assert(entry_values(out@) =~= Seq::<(u32, u32, Seq<u8>)>::empty());
    }
    while off != 0
        invariant
            len == t@.len() <= u32::MAX,
            fuel <= len,
            chain_at(t@, off0, len as nat) == match chain_at(t@, off, fuel as nat) {
                Some(rest) => Some(entry_values(out@) + rest),
                None => None::<Seq<(u32, u32, Seq<u8>)>>,
            },
        decreases fuel,
    {
        if fuel == 0 || off < 4 || off as u64 + 8 > len as u64 {
            return None;
        }
        let pos: usize = (off - 4) as usize;
        let ghost name = t@.skip(pos + 12);
        let mut n: usize = 0;
        while pos + 12 + n < len && t[pos + 12 + n] != 0
            invariant
                len == t@.len(),
                pos + 12 <= len,
                name == t@.skip(pos + 12),
                pos + 12 + n <= len,
                forall|j: int| 0 <= j < n ==> name[j] != 0,
            decreases len - pos - 12 - n,
        {
            n = n + 1;
        }
        if pos + 12 + n >= len {
            proof {
                crate::font::lemma_cstr_len_ge(name, n as int);
            }
            return None;
        }
        proof {
            crate::font::lemma_cstr_len(name, n as int);
        }
        let mut nm: Vec<u8> = Vec::new();
        let mut k: usize = 0;
        while k < n
            invariant
                len == t@.len(),
                pos + 12 + n < len,
                name == t@.skip(pos + 12),
                k <= n,
                nm@ == name.take(k as int),
            decreases n - k,
        {
            nm.push(t[pos + 12 + k]);
            proof {
                assert(nm@ =~= name.take(k + 1));
            }
            k = k + 1;
        }
        let next: u32 = read_u32_le(t, pos);
        let e = GfxDirEntry { value: read_u32_le(t, pos + 4), _unknown_08: read_u32_le(t, pos + 8), name: nm };
        let ghost before = out@;
        out.push(e);
        proof {
            assert(entry_values(out@) =~= entry_values(before).push((e.value, e._unknown_08, e.name@)));
            assert(entry_values(before).push((e.value, e._unknown_08, e.name@)) + chain_at(t@, next, (fuel - 1) as nat).unwrap_or(Seq::empty())
                =~= entry_values(before) + (seq![(e.value, e._unknown_08, e.name@)] + chain_at(t@, next, (fuel - 1) as nat).unwrap_or(Seq::empty())));
        }
        off = next;
        fuel = fuel - 1;
    }
    proof {
        assert(entry_values(out@) + Seq::<(u32, u32, Seq<u8>)>::empty() =~= entry_values(out@));
    }
    Some(out)
}

/// Reads the directory from its table bytes (see `dir_table_ok`): `None`
/// when a chain is broken.
pub fn gfx_dir_load_table(t: &[u8]) -> (r: Option<GfxDirTable>)
    requires
        GFX_DIR_BUCKETS * 4 <= t@.len() <= u32::MAX,
    ensures
        match r {
            Some(d) => dir_table_ok(t@, d),
            None => exists|k: int|
                0 <= k < GFX_DIR_BUCKETS && (#[trigger] chain_at(t@, le_u32(t@, 4 * k), t@.len() as nat)) is None,
        },
{
    let mut buckets: Vec<Vec<GfxDirEntry>> = Vec::new();
    let mut k: usize = 0;
    while k < GFX_DIR_BUCKETS
        invariant
            GFX_DIR_BUCKETS * 4 <= t@.len() <= u32::MAX,
            k <= GFX_DIR_BUCKETS,
            buckets@.len() == k,
            forall|j: int|
                0 <= j < k ==> chain_at(t@, le_u32(t@, 4 * j), t@.len() as nat) == Some(
                    entry_values(#[trigger] buckets@[j]@),
                ),
        decreases GFX_DIR_BUCKETS - k,
    {
        let off = read_u32_le(t, 4 * k);
        match read_chain(t, off) {
            Some(c) => {
                buckets.push(c);
            },
            None => {
                assert(chain_at(t@, le_u32(t@, 4 * (k as int)), t@.len() as nat) is None);
                return None;
            },
        }
        k = k + 1;
    }
    Some(GfxDirTable { buckets })
}

/// The magic at the start of an archive, `"DIR\x1A"` read as a
/// little-endian `u32`.
pub const GFX_DIR_MAGIC: u32 = 0x1A52_4944;

/// The archive header: total file size and the size of the directory
/// data that follows the header.
#[derive(Clone, Copy, PartialEq, Eq, Structural, Debug)]
pub struct GfxDirHeader {
    pub total_file_size: u32,
    pub data_size: u32,
}

/// Read the 12-byte archive header: `None` when it is short or the magic
/// is wrong.
pub fn gfx_dir_header(h: &[u8]) -> (r: Option<GfxDirHeader>)
    ensures
        r is None <==> (h.len() < 12 || le_u32(h@, 0) != GFX_DIR_MAGIC),
        r matches Some(hd) ==> hd.total_file_size == le_u32(h@, 4) && hd.data_size == le_u32(h@, 8),
{
    if h.len() < 12 {
        return None;
    }
    if read_u32_le(h, 0) != GFX_DIR_MAGIC {
        return None;
    }
    Some(GfxDirHeader { total_file_size: read_u32_le(h, 4), data_size: read_u32_le(h, 8) })
}

/// How the directory is read when it cannot be mapped in place: the bytes
/// to skip, the bytes to read, and the size of the buffer they go into
/// (rounded up to four, plus a 32-byte header). Sizes wrap at 32 bits.
#[derive(Clone, Copy, PartialEq, Eq, Structural, Debug)]
pub struct GfxDirReadPlan {
    pub skip: u32,
    pub read_size: u32,
    pub buffer_size: u32,
}

/// The read plan for an archive header.
pub fn gfx_dir_read_plan(hd: GfxDirHeader) -> (r: GfxDirReadPlan)
    ensures
        r.skip as int == (hd.data_size + 4) % 0x1_0000_0000,
        r.read_size as int == (hd.total_file_size - hd.data_size - 4) % 0x1_0000_0000,
        r.buffer_size as int == ((r.read_size + 3) % 0x1_0000_0000 / 4 * 4 + 0x20) % 0x1_0000_0000,
{
    let skip = hd.data_size.wrapping_add(4);
    let read_size = hd.total_file_size.wrapping_sub(hd.data_size).wrapping_sub(4);
    let buffer_size = (read_size.wrapping_add(3) / 4 * 4).wrapping_add(0x20);
    GfxDirReadPlan { skip, read_size, buffer_size }
}

} // verus!
