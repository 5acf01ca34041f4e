//! Query parsing for icon requests.
//!
//! A query of the form `seed.format` splits at the first dot into a seed and
//! a format name; without a dot the whole query is the seed and the format
//! defaults to `svg`.  The seed is hashed to a 64-bit value whose eight
//! little-endian bytes, padded with eight zero bytes, form the 16-byte seed
//! block handed to the icon generators.

use vstd::prelude::*;

verus! {

use vstd::std_specs::hash::DefaultHasherAdditionalSpecFns;
use std::collections::hash_map::DefaultHasher;
use core::hash::Hasher;
use vstd::string::StrSliceExecFns;
use vstd::string::StringSliceAdditionalSpecFns;
use vstd::string::StringExecFns;

/// Position of the first dot in the query, or its length when it has none.
pub open spec fn first_dot(q: Seq<char>) -> int
    decreases q.len(),
{
    if q.len() == 0 {
        0
    } else if q[0] == '.' {
        0
    } else {
        1 + first_dot(q.drop_first())
    }
}

/// The seed part of a query: everything before the first dot.
pub open spec fn seed_of(q: Seq<char>) -> Seq<char> {
    q.take(first_dot(q))
}

/// The format part of a query: everything after the first dot, or `svg` when
/// there is no dot.
pub open spec fn format_of(q: Seq<char>) -> Seq<char> {
    if first_dot(q) < q.len() {
        q.skip(first_dot(q) + 1)
    } else {
        "svg"@
    }
}

/// The 64-bit hash of the seed's UTF-8 bytes, as the standard library's
/// default hasher computes it from one write.
pub open spec fn query_hash(q: Seq<char>) -> u64 {
    DefaultHasher::spec_finish(seq![vstd::utf8::encode_utf8(seed_of(q))])
}

/// The 16-byte seed block: the hash's eight bytes, least significant first,
/// then eight zero bytes.
pub open spec fn seed_block_of(q: Seq<char>) -> Seq<u8> {
    Seq::new(
        16,
        |i: int|
            if i < 8 {
                ((query_hash(q) >> ((8 * i) as u64)) & 0xff) as u8
            } else {
                0u8
            },
    )
}

/// `first_dot` is the position of the first dot: no dot lies before it, and
/// either a dot stands at it or it is the query's end.
proof fn lemma_first_dot_at(q: Seq<char>, i: int)
    requires
        0 <= i <= q.len(),
        forall|k: int| 0 <= k < i ==> q[k] != '.',
        i < q.len() ==> q[i] == '.',
    ensures
        first_dot(q) == i,
    decreases i,
{
    if i == 0 {
    } else {
        assert(q[0] != '.');
        lemma_first_dot_at(q.drop_first(), i - 1);
    }
}

/// Split a query into its 16-byte seed block and its format name.
///
/// The block is built from the seed's hash; the format is what follows the
/// first dot, or `svg` when the query has none.
pub fn parse_query(query: &String) -> (res: ([u8; 16], String))
    ensures
        res.0@ == seed_block_of(query@),
        res.1@ == format_of(query@),
{
    let q: &str = query.as_str();
    let n: usize = q.unicode_len();
    let mut i: usize = 0;
    let mut dot: usize = n;
    while i < n
        invariant_except_break
            i <= n,
            n == q@.len(),
            forall|k: int| 0 <= k < i ==> q@[k] != '.',
            dot == n,
        ensures
            dot <= n,
            n == q@.len(),
            forall|k: int| 0 <= k < dot ==> q@[k] != '.',
            dot < n ==> q@[dot as int] == '.',
        decreases n - i,
    {
        if q.get_char(i) == '.' {
            dot = i;
            break;
        }
        i += 1;
    }
    proof {
        lemma_first_dot_at(q@, dot as int);
    }
    let seed: &str = q.substring_char(0, dot);
    let format: String = if dot < n {
        String::from_str(q.substring_char(dot + 1, n))
    } else {
        String::from_str("svg")
    };
    proof {
        assert(seed@ =~= seed_of(query@));
        if dot < n {
            assert(format@ =~= format_of(query@));
        }
    }
    let mut hasher = DefaultHasher::new();
    hasher.write(seed.as_bytes());
    let hash: u64 = hasher.finish();
    proof {
        assert(Seq::<Seq<u8>>::empty().push(seed.spec_bytes()) =~= seq![
            vstd::utf8::encode_utf8(seed_of(query@)),
        ]);
    }
    let block: [u8; 16] = [
        (hash & 0xff) as u8,
        ((hash >> 8u64) & 0xff) as u8,
        ((hash >> 16u64) & 0xff) as u8,
        ((hash >> 24u64) & 0xff) as u8,
        ((hash >> 32u64) & 0xff) as u8,
        ((hash >> 40u64) & 0xff) as u8,
        ((hash >> 48u64) & 0xff) as u8,
        ((hash >> 56u64) & 0xff) as u8,
        0,
        0,
        0,
        0,
        0,
        0,
        0,
        0,
    ];
    proof {
        assert(hash & 0xff == (hash >> 0u64) & 0xff) by (bit_vector);
        assert(block@ =~= seed_block_of(query@));
    }
    (block, format)
}

} // verus!
