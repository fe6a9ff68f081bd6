//! Director integration: reports of cache operations.
//!
//! What is reported of store and remove operations as they complete. The service
//! that the reports go to is the caller's.

use vstd::prelude::*;
use vstd::string::*;

verus! {

// ---------------------------------------------------------------------------
// Chunk hashes
// ---------------------------------------------------------------------------
/// Where the first `c` of `s` stands.
pub open spec fn first_of(s: Seq<char>, c: char) -> Option<int>
    decreases s.len(),
{
    if s.len() == 0 {
        None
    } else if s[0] == c {
        Some(0)
    } else {
        match first_of(s.skip(1), c) {
            Some(i) => Some(i + 1),
            None => None,
        }
    }
}

/// The segment number `n` of `s`, which `c` separates into segments.
pub open spec fn segment(s: Seq<char>, c: char, n: nat) -> Option<Seq<char>>
    decreases n,
{
    match first_of(s, c) {
        None => if n == 0 {
            Some(s)
        } else {
            None
        },
        Some(i) => if n == 0 {
            Some(s.take(i))
        } else {
            segment(s.skip(i + 1), c, (n - 1) as nat)
        },
    }
}

/// The value of a hexadecimal digit.
pub open spec fn hex_digit(c: char) -> Option<nat> {
    let code = c as int;
    if 48 <= code <= 57 {
        Some((code - 48) as nat)
    } else if 97 <= code <= 102 {
        Some((code - 87) as nat)
    } else if 65 <= code <= 70 {
        Some((code - 55) as nat)
    } else {
        None
    }
}

/// The number that hexadecimal digits stand for; `None` without digits or with
/// anything else among them.
pub open spec fn hex_value(s: Seq<char>) -> Option<nat>
    decreases s.len(),
{
    if s.len() == 0 {
        None
    } else if s.len() == 1 {
        hex_digit(s[0])
    } else {
        match (hex_value(s.drop_last()), hex_digit(s.last())) {
            (Some(high), Some(low)) => Some(high * 16 + low),
            _ => None,
        }
    }
}

/// The number that a hexadecimal text stands for, if it fits in a `u64`. A plus
/// sign may stand before the digits.
pub open spec fn parsed_hex(s: Seq<char>) -> Option<nat> {
    let digits = if s.len() > 1 && s[0] == '+' {
        s.skip(1)
    } else {
        s
    };
    match hex_value(digits) {
        Some(v) if v <= u64::MAX => Some(v),
        _ => None,
    }
}

/// The chunk hash of an LMCache key: its fourth segment.
pub open spec fn chunk_hash(key: Seq<char>) -> Option<nat> {
    match segment(key, '@', 3) {
        Some(s) => parsed_hex(s),
        None => None,
    }
}

/// The value of a hexadecimal digit.
fn parse_hex_digit(c: char) -> (r: Option<u64>)
    ensures
        match r {
            Some(d) => hex_digit(c) == Some(d as nat) && d < 16,
            None => hex_digit(c) is None,
        },
{
    let code: u32 = c as u32;
    if 48 <= code && code <= 57 {
        Some((code - 48) as u64)
    } else if 97 <= code && code <= 102 {
        Some((code - 87) as u64)
    } else if 65 <= code && code <= 70 {
        Some((code - 55) as u64)
    } else {
        None
    }
}

/// A character that is no digit spoils the number.
proof fn lemma_bad_digit(s: Seq<char>, at: int)
    requires
        0 <= at < s.len(),
        hex_digit(s[at]) is None,
    ensures
        hex_value(s) is None,
    decreases s.len(),
{
    if s.len() > 1 && at < s.len() - 1 {
        lemma_bad_digit(s.drop_last(), at);
    }
}

/// More digits make a number no smaller.
proof fn lemma_value_grows(s: Seq<char>, k: int)
    requires
        1 <= k <= s.len(),
        hex_value(s) is Some,
    ensures
        hex_value(s.take(k)) matches Some(v) && v <= hex_value(s)->0,
    decreases s.len() - k,
{
    if k == s.len() {
        assert(s.take(k) =~= s);
    } else {
        lemma_value_grows(s, k + 1);
        assert(s.take(k + 1).drop_last() =~= s.take(k));
    }
}

/// The number that the hexadecimal digits of `s` in the range stand for, if it
/// fits in a `u64`.
fn parse_hex_digits(s: &str, from: usize, to: usize) -> (r: Option<u64>)
    requires
        from <= to <= s@.len(),
    ensures
        match r {
            Some(v) => hex_value(s@.subrange(from as int, to as int)) == Some(v as nat),
            None => hex_value(s@.subrange(from as int, to as int)) matches Some(v) ==> v
                > u64::MAX,
        },
{
    let ghost digits = s@.subrange(from as int, to as int);
    if from == to {
        return None;
    }
    let mut v: u64 = match parse_hex_digit(s.get_char(from)) {
        Some(d) => d,
        None => {
            proof {
                lemma_bad_digit(digits, 0);
            }
            return None;
        },
    };
    let mut i: usize = from + 1;
    assert(digits.take(1)[0] == digits[0]);
    while i < to
        invariant
            from < i <= to <= s@.len(),
            digits == s@.subrange(from as int, to as int),
            hex_value(digits.take(i - from)) == Some(v as nat),
        decreases to - i,
    {
        let ghost k = i - from;
        match parse_hex_digit(s.get_char(i)) {
            Some(d) => {
                proof {
                    assert(digits.take(k + 1).drop_last() =~= digits.take(k));
                    assert(digits.take(k + 1).last() == digits[k]);
                }
                if v > 0x0fff_ffff_ffff_ffff {
                    proof {
                        if hex_value(digits) is Some {
                            lemma_value_grows(digits, k + 1);
                        }
                    }
                    return None;
                }
                v = v * 16 + d;
            },
            None => {
                proof {
                    lemma_bad_digit(digits, k);
                }
                return None;
            },
        }
        i = i + 1;
    }
    assert(digits.take(i - from) =~= digits);
    Some(v)
}

/// Where the first `c` of `s` stands, from `from` on.
fn find_from(s: &str, from: usize, c: char) -> (r: Option<usize>)
    requires
        from <= s@.len(),
    ensures
        match r {
            Some(i) => from <= i < s@.len() <= usize::MAX && first_of(s@.skip(from as int), c)
                == Some(i - from),
            None => first_of(s@.skip(from as int), c) is None,
        },
{
    let len: usize = s.unicode_len();
    let mut i: usize = from;
    while i < len
        invariant
            from <= i <= len == s@.len(),
            first_of(s@.skip(from as int), c) == (match first_of(s@.skip(i as int), c) {
                Some(j) => Some(j + i - from),
                None => None,
            }),
        decreases len - i,
    {
        assert(s@.skip(i as int)[0] == s@[i as int]);
        assert(s@.skip(i as int).skip(1) =~= s@.skip(i + 1));
        if s.get_char(i) == c {
            return Some(i);
        }
        i = i + 1;
    }
    None
}

/// Parses the chunk hash from an LMCache key and returns it as a u64.
///
/// LMCache key format: `model@rank@group@chunk_hash[@salt]`
///
/// The chunk_hash is the 4th segment (0-indexed: index 3), stored as a hex
/// string. Returns `None` if the key doesn't have enough segments or the
/// hex string cannot be parsed as u64.
pub fn extract_chunk_hash(key: &str) -> (r: Option<u64>)
    ensures
        match r {
            Some(v) => chunk_hash(key@) == Some(v as nat),
            None => chunk_hash(key@) is None,
        },
{
    let len: usize = key.unicode_len();
    let mut start: usize = 0;
    let mut n: usize = 3;
    assert(key@.skip(0) =~= key@);
    while n > 0
        invariant
            n <= 3,
            start <= len == key@.len(),
            segment(key@, '@', 3) == segment(key@.skip(start as int), '@', n as nat),
        decreases n,
    {
        match find_from(key, start, '@') {
            Some(i) => {
                assert(key@.skip(start as int).skip(i - start + 1) =~= key@.skip(i + 1));
                start = i + 1;
            },
            None => return None,
        }
        n = n - 1;
    }
    let end: usize = match find_from(key, start, '@') {
        Some(i) => i,
        None => len,
    };
    let ghost part = key@.subrange(start as int, end as int);
    proof {
        let rest = key@.skip(start as int);
        assert(rest.take(end - start) =~= part);
        if end == len {
            assert(rest =~= part);
        }
        assert(segment(key@, '@', 3) == Some(part));
    }
    if end - start > 1 && key.get_char(start) == '+' {
        assert(part.skip(1) =~= key@.subrange(start + 1, end as int));
        parse_hex_digits(key, start + 1, end)
    } else {
        parse_hex_digits(key, start, end)
    }
}

// ---------------------------------------------------------------------------
// Reports
// ---------------------------------------------------------------------------
/// The chunk hashes of the keys that have one, in order.
pub open spec fn chunk_hashes(keys: Seq<String>) -> Seq<u64>
    decreases keys.len(),
{
    if keys.len() == 0 {
        Seq::empty()
    } else {
        let earlier = chunk_hashes(keys.drop_last());
        match chunk_hash(keys.last()@) {
            Some(v) => earlier.push(v as u64),
            None => earlier,
        }
    }
}

/// A report of stored blocks.
#[derive(Debug)]
pub struct ReportStoreRequest {
    pub node_id: String,
    pub block_hashes: Vec<u64>,
    pub tenant_id: String,
    pub model_name: String,
    pub block_size: u32,
    pub cache_salt: String,
}

/// A report of removed blocks.
#[derive(Debug)]
pub struct ReportRemoveRequest {
    pub node_id: String,
    pub block_hashes: Vec<u64>,
    pub tenant_id: String,
    pub model_name: String,
}

/// The registration of a worker instance.
#[derive(Debug)]
pub struct RegisterRequest {
    pub instance_id: String,
    pub role: i32,
    pub tenant_id: String,
    pub model_name: String,
    pub rpc_endpoint: String,
    pub dp_rank: u32,
    pub node_id: String,
    pub block_size: u32,
}

/// Who reports to a Director service, and of what.
#[derive(Debug)]
pub struct DirectorIntegration {
    /// Node identifier.
    pub node_id: String,
    /// Tenant identifier.
    pub tenant_id: String,
    /// Model name.
    pub model_name: String,
    /// Block size in tokens.
    pub block_size: u32,
    /// Cache salt for prefix-aware hashing.
    pub cache_salt: String,
}

impl DirectorIntegration {
    /// Reports under these names, without a cache salt.
    pub fn connect(node_id: &str, tenant_id: &str, model_name: &str, block_size: u32) -> (r: Self)
        ensures
            r.node_id@ == node_id@,
            r.tenant_id@ == tenant_id@,
            r.model_name@ == model_name@,
            r.block_size == block_size,
            r.cache_salt@ == Seq::<char>::empty(),
    {
        DirectorIntegration {
            node_id: node_id.to_owned(),
            tenant_id: tenant_id.to_owned(),
            model_name: model_name.to_owned(),
            block_size,
            cache_salt: String::new(),
        }
    }

    /// The chunk hashes of the keys that have one.
    fn hashes(keys: &[String]) -> (r: Vec<u64>)
        ensures
            r@ == chunk_hashes(keys@),
    {
        let mut r: Vec<u64> = Vec::new();
        let mut i: usize = 0;
        while i < keys.len()
            invariant
                i <= keys@.len(),
                r@ == chunk_hashes(keys@.take(i as int)),
            decreases keys@.len() - i,
        {
            proof {
                assert(keys@.take(i + 1).drop_last() =~= keys@.take(i as int));
                assert(keys@.take(i + 1).last() == keys@[i as int]);
            }
            if let Some(v) = extract_chunk_hash(keys[i].as_str()) {
                r.push(v);
            }
            i = i + 1;
        }
        assert(keys@.take(i as int) =~= keys@);
        r
    }

    /// The report of a batch of store operations; `None` when no key has a chunk
    /// hash.
    pub fn report_store(&self, block_hashes: &[String]) -> (r: Option<ReportStoreRequest>)
        ensures
            match r {
                Some(q) => {
                    &&& chunk_hashes(block_hashes@).len() > 0
                    &&& q.block_hashes@ == chunk_hashes(block_hashes@)
                    &&& q.node_id@ == self.node_id@
                    &&& q.tenant_id@ == self.tenant_id@
                    &&& q.model_name@ == self.model_name@
                    &&& q.block_size == self.block_size
                    &&& q.cache_salt@ == self.cache_salt@
                },
                None => chunk_hashes(block_hashes@).len() == 0,
            },
    {
        let hashes: Vec<u64> = Self::hashes(block_hashes);
        if hashes.len() == 0 {
            return None;
        }
        Some(
            ReportStoreRequest {
                node_id: self.node_id.clone(),
                block_hashes: hashes,
                tenant_id: self.tenant_id.clone(),
                model_name: self.model_name.clone(),
                block_size: self.block_size,
                cache_salt: self.cache_salt.clone(),
            },
        )
    }

    /// The report of a batch of remove operations; `None` when no key has a chunk
    /// hash.
    pub fn report_remove(&self, block_hashes: &[String]) -> (r: Option<ReportRemoveRequest>)
        ensures
            match r {
                Some(q) => {
                    &&& chunk_hashes(block_hashes@).len() > 0
                    &&& q.block_hashes@ == chunk_hashes(block_hashes@)
                    &&& q.node_id@ == self.node_id@
                    &&& q.tenant_id@ == self.tenant_id@
                    &&& q.model_name@ == self.model_name@
                },
                None => chunk_hashes(block_hashes@).len() == 0,
            },
    {
        let hashes: Vec<u64> = Self::hashes(block_hashes);
        if hashes.len() == 0 {
            return None;
        }
        Some(
            ReportRemoveRequest {
                node_id: self.node_id.clone(),
                block_hashes: hashes,
                tenant_id: self.tenant_id.clone(),
                model_name: self.model_name.clone(),
            },
        )
    }

    /// The registration of this worker instance.
    pub fn register(&self, instance_id: &str, role: i32, rpc_endpoint: &str, dp_rank: u32) -> (r:
        RegisterRequest)
        ensures
            r.instance_id@ == instance_id@,
            r.role == role,
            r.tenant_id@ == self.tenant_id@,
            r.model_name@ == self.model_name@,
            r.rpc_endpoint@ == rpc_endpoint@,
            r.dp_rank == dp_rank,
            r.node_id@ == self.node_id@,
            r.block_size == self.block_size,
    {
        RegisterRequest {
            instance_id: instance_id.to_owned(),
            role,
            tenant_id: self.tenant_id.clone(),
            model_name: self.model_name.clone(),
            rpc_endpoint: rpc_endpoint.to_owned(),
            dp_rank,
            node_id: self.node_id.clone(),
            block_size: self.block_size,
        }
    }
}

// ---------------------------------------------------------------------------
// Laws
// ---------------------------------------------------------------------------
/// `s` holds no `c`.
pub open spec fn without(s: Seq<char>, c: char) -> bool {
    forall|i: int| 0 <= i < s.len() ==> #[trigger] s[i] != c
}

proof fn lemma_first_of(s: Seq<char>, c: char, rest: Seq<char>)
    requires
        without(s, c),
    ensures
        first_of(s, c) is None,
        first_of(s + seq![c] + rest, c) == Some(s.len() as int),
    decreases s.len(),
{
    let all = s + seq![c] + rest;
    if s.len() > 0 {
        let tail = s.skip(1);
        assert forall|i: int| 0 <= i < tail.len() implies #[trigger] tail[i] != c by {
            assert(tail[i] == s[i + 1]);
        }
        lemma_first_of(tail, c, rest);
        assert(all.skip(1) =~= tail + seq![c] + rest);
        assert(all[0] == s[0]);
    } else {
        assert(all[0] == c);
    }
}

/// One segment further.
proof fn lemma_next_segment(s: Seq<char>, c: char, rest: Seq<char>, n: nat)
    requires
        without(s, c),
    ensures
        segment(s + seq![c] + rest, c, n + 1) == segment(rest, c, n),
        segment(s + seq![c] + rest, c, 0) == Some(s),
        segment(s, c, 0) == Some(s),
{
    lemma_first_of(s, c, rest);
    let all = s + seq![c] + rest;
    assert(all.skip(s.len() as int + 1) =~= rest);
    assert(all.take(s.len() as int) =~= s);
}

/// The chunk hash of a key `model@rank@group@chunk_hash` is the number that its
/// fourth segment stands for, and a salt behind it changes nothing.
pub proof fn law_key_format(
    model: Seq<char>,
    rank: Seq<char>,
    group: Seq<char>,
    hash: Seq<char>,
    salt: Seq<char>,
)
    requires
        without(model, '@'),
        without(rank, '@'),
        without(group, '@'),
        without(hash, '@'),
    ensures
        ({
            let sep = seq!['@'];
            let plain = model + sep + (rank + sep + (group + sep + hash));
            let salted = model + sep + (rank + sep + (group + sep + (hash + sep + salt)));
            chunk_hash(plain) == parsed_hex(hash) && chunk_hash(salted) == parsed_hex(hash)
        }),
{
    let sep = seq!['@'];
    let tail = hash + sep + salt;
    lemma_next_segment(model, '@', rank + sep + (group + sep + hash), 2);
    lemma_next_segment(rank, '@', group + sep + hash, 1);
    lemma_next_segment(group, '@', hash, 0);
    lemma_next_segment(hash, '@', salt, 0);
    lemma_next_segment(model, '@', rank + sep + (group + sep + tail), 2);
    lemma_next_segment(rank, '@', group + sep + tail, 1);
    lemma_next_segment(group, '@', tail, 0);
}

/// A key with fewer than four segments has no chunk hash.
pub proof fn law_short_key_has_no_hash(model: Seq<char>, rank: Seq<char>, group: Seq<char>)
    requires
        without(model, '@'),
        without(rank, '@'),
        without(group, '@'),
    ensures
        chunk_hash(model) is None,
        chunk_hash(model + seq!['@'] + rank) is None,
        chunk_hash(model + seq!['@'] + (rank + seq!['@'] + group)) is None,
{
    let sep = seq!['@'];
    lemma_first_of(model, '@', rank);
    lemma_first_of(rank, '@', group);
    lemma_first_of(group, '@', group);
    lemma_next_segment(model, '@', rank, 2);
    lemma_next_segment(model, '@', rank + sep + group, 2);
    lemma_next_segment(rank, '@', group, 1);
}

/// The digits are those of base sixteen, in either case.
pub proof fn law_hex_digits(c: char)
    ensures
        '0' <= c <= '9' ==> hex_digit(c) == Some((c as int - '0' as int) as nat),
        'a' <= c <= 'f' ==> hex_digit(c) == Some((10 + c as int - 'a' as int) as nat),
        'A' <= c <= 'F' ==> hex_digit(c) == Some((10 + c as int - 'A' as int) as nat),
        hex_digit(c) is Some <==> '0' <= c <= '9' || 'a' <= c <= 'f' || 'A' <= c <= 'F',
{
}

/// A further digit multiplies the number by sixteen and adds itself; anything else
/// behind a number, and anything that is no number, spoils it.
pub proof fn law_further_digit(s: Seq<char>, c: char)
    requires
        s.len() > 0,
    ensures
        hex_value(s.push(c)) == (match (hex_value(s), hex_digit(c)) {
            (Some(v), Some(d)) => Some(16 * v + d),
            _ => None,
        }),
        hex_value(seq![c]) == hex_digit(c),
        hex_value(Seq::<char>::empty()) is None,
{
    assert(s.push(c).drop_last() =~= s);
}

/// A hexadecimal text parses to its number when that fits in 64 bits, and not
/// otherwise. One plus sign before it changes nothing; without digits behind it
/// the text is no number.
pub proof fn law_parsed_hex(s: Seq<char>)
    ensures
        s.len() > 0 && s[0] != '+' ==> {
            &&& parsed_hex(s) is Some <==> hex_value(s) is Some && hex_value(s)->0
                <= 0xffff_ffff_ffff_ffff
            &&& parsed_hex(s) is Some ==> parsed_hex(s) == hex_value(s)
            &&& parsed_hex(seq!['+'] + s) == parsed_hex(s)
        },
        parsed_hex(Seq::<char>::empty()) is None,
        parsed_hex(seq!['+']) is None,
        parsed_hex(seq!['+', '+'] + s) is None,
{
    if s.len() > 0 && s[0] != '+' {
        assert((seq!['+'] + s).skip(1) =~= s);
    }
    let twice = seq!['+', '+'] + s;
    assert(twice.skip(1)[0] == '+');
    lemma_bad_digit(twice.skip(1), 0);
}

/// The hashes of a batch are those of its parts, one behind the other, and a key
/// has a hash in the report when it has one at all.
pub proof fn law_report_in_parts(first: Seq<String>, second: Seq<String>)
    ensures
        chunk_hashes(first + second) == chunk_hashes(first) + chunk_hashes(second),
        first.len() == 1 ==> match chunk_hash(first[0]@) {
            Some(v) => chunk_hashes(first) == seq![v as u64],
            None => chunk_hashes(first) == Seq::<u64>::empty(),
        },
    decreases second.len(),
{
    if second.len() == 0 {
        assert(first + second =~= first);
        assert(chunk_hashes(first) + chunk_hashes(second) =~= chunk_hashes(first));
    } else {
        law_report_in_parts(first, second.drop_last());
        assert((first + second).drop_last() =~= first + second.drop_last());
        assert((first + second).last() == second.last());
        assert(chunk_hashes(first + second) =~= chunk_hashes(first) + chunk_hashes(second));
    }
    if first.len() == 1 {
        assert(chunk_hashes(first.drop_last()) =~= Seq::<u64>::empty());
    }
}

} // verus!
