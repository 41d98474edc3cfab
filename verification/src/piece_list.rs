//! The piece list of the packing tool: a JSON object that maps each piece's
//! id, a decimal number, to its destination (x, y) and size (w, h). The list
//! is read into entries ordered by the number of their id.
use vstd::prelude::*;
use std::collections::HashMap;
use crate::atlas::{PieceEntry, order_entries, sorted_by_key, kept_count};

verus! {

broadcast use vstd::seq_lib::group_to_multiset_ensures;

/// An ASCII decimal digit.
pub open spec fn is_digit(c: char) -> bool {
    '0' <= c && c <= '9'
}

/// The value of a string of decimal digits, most significant first.
pub open spec fn digits_value(s: Seq<char>) -> int
    decreases s.len(),
{
    if s.len() == 0 {
        0
    } else {
        digits_value(s.drop_last()) * 10 + (s.last() as int - '0' as int)
    }
}

/// The digits of a number written with an optional leading `+`.
pub open spec fn unsigned_digits(s: Seq<char>) -> Seq<char> {
    if s.len() > 0 && s[0] == '+' {
        s.drop_first()
    } else {
        s
    }
}

/// The `u32` that `s` spells, read as `str::parse::<u32>` reads it: an
/// optional `+`, then one or more ASCII digits, with a value that fits.
pub open spec fn decimal_u32(s: Seq<char>) -> Option<u32> {
    let d = unsigned_digits(s);
    if d.len() > 0 && (forall|i: int| 0 <= i < d.len() ==> is_digit(#[trigger] d[i]))
        && digits_value(d) <= u32::MAX {
        Some(digits_value(d) as u32)
    } else {
        None
    }
}

proof fn lemma_digits_nonneg(s: Seq<char>)
    requires
        forall|i: int| 0 <= i < s.len() ==> is_digit(#[trigger] s[i]),
    ensures
        digits_value(s) >= 0,
    decreases s.len(),
{
    if s.len() > 0 {
        lemma_digits_nonneg(s.drop_last());
    }
}

/// A prefix of a string of digits is worth no more than the whole string.
proof fn lemma_prefix_value_le(s: Seq<char>, j: int)
    requires
        0 <= j <= s.len(),
        forall|i: int| 0 <= i < s.len() ==> is_digit(#[trigger] s[i]),
    ensures
        digits_value(s.take(j)) <= digits_value(s),
    decreases s.len(),
{
    if j < s.len() {
        lemma_prefix_value_le(s.drop_last(), j);
        assert(s.drop_last().take(j) =~= s.take(j));
        lemma_digits_nonneg(s.drop_last());
    } else {
        assert(s.take(j) =~= s);
    }
}

/// The number that a piece id spells (see `decimal_u32`).
pub fn id_number(s: &str) -> (r: Option<u32>)
    ensures
        r == decimal_u32(s@),
{
    let n = s.unicode_len();
    let mut start: usize = 0;
    if n > 0 && s.get_char(0) == '+' {
        start = 1;
    }
    let ghost d = unsigned_digits(s@);
    assert(d =~= s@.subrange(start as int, n as int));
    if start == n {
        return None;
    }
    let mut acc: u64 = 0;
    let mut i: usize = start;
    assert(s@.subrange(start as int, start as int) =~= Seq::<char>::empty());
    while i < n
        invariant
            n == s@.len(),
            start <= i <= n,
            start < n,
            d == s@.subrange(start as int, n as int),
            d == unsigned_digits(s@),
            forall|k: int| start <= k < i ==> is_digit(#[trigger] s@[k]),
            acc == digits_value(s@.subrange(start as int, i as int)),
            acc <= u32::MAX,
        decreases n - i,
    {
        let c = s.get_char(i);
        if !(c >= '0' && c <= '9') {
            assert(d[i - start] == c);
            assert(!is_digit(d[i - start]));
            return None;
        }
        let digit: u64 = (c as u32 - '0' as u32) as u64;
        let ghost p = s@.subrange(start as int, i + 1);
        assert(p.drop_last() =~= s@.subrange(start as int, i as int));
        assert(p.last() == c);
        let next: u64 = acc * 10 + digit;
        assert(next == digits_value(p));
        if next > u32::MAX as u64 {
            proof {
                if forall|k: int| 0 <= k < d.len() ==> is_digit(#[trigger] d[k]) {
                    lemma_prefix_value_le(d, i + 1 - start);
                    assert(d.take(i + 1 - start) =~= p);
                }
            }
            return None;
        }
        acc = next;
        i = i + 1;
    }
    assert(forall|k: int| 0 <= k < d.len() ==> is_digit(#[trigger] d[k])) by {
        assert forall|k: int| 0 <= k < d.len() implies is_digit(#[trigger] d[k]) by {
            assert(d[k] == s@[start + k]);
        }
    }
    Some(acc as u32)
}

/// What `serde_json` reads from the bytes of a piece list: a map from each
/// id to its destination and size, or nothing when the bytes are not such a
/// JSON object.
pub uninterp spec fn piece_list_of(json: Seq<u8>) -> Option<Map<Seq<char>, (u32, u32, u32, u32)>>;

/// Calls `serde_json::from_slice` to read the bytes as a map from ids to
/// (dest_x, dest_y, width, height), and lists the map's entries. The contract
/// says that the call fails exactly when the name gives nothing, and that the
/// list holds every entry of the named map once; the order of the list is
/// that of the hash map's walk and is left unsaid.
#[verifier::external_body]
fn parse_piece_list(json: &[u8]) -> (r: Option<Vec<(String, (u32, u32, u32, u32))>>)
    ensures
        r is Some <==> piece_list_of(json@) is Some,
        r matches Some(v) ==> {
            &&& forall|i: int, j: int| 0 <= i < j < v@.len() ==> v@[i].0@ != v@[j].0@
            &&& forall|i: int|
                0 <= i < v@.len() ==> piece_list_of(json@)->0.contains_key(#[trigger] v@[i].0@)
                    && piece_list_of(json@)->0[v@[i].0@] == v@[i].1
            &&& forall|k: Seq<char>| #[trigger]
                piece_list_of(json@)->0.contains_key(k) ==> exists|i: int|
                    0 <= i < v@.len() && #[trigger] v@[i].0@ == k
        },
{
    match serde_json::from_slice::<HashMap<String, (u32, u32, u32, u32)>>(json) {
        Ok(map) => Some(map.into_iter().collect()),
        Err(_) => None,
    }
}

/// The list names at least two pieces.
pub open spec fn has_two_ids(m: Map<Seq<char>, (u32, u32, u32, u32)>) -> bool {
    exists|a: Seq<char>, b: Seq<char>|
        a != b && #[trigger] m.contains_key(a) && #[trigger] m.contains_key(b)
}

/// The key by which the piece `id` is ordered: the number that its id spells
/// when there are at least two pieces to order, else nothing is compared.
pub open spec fn entry_key(m: Map<Seq<char>, (u32, u32, u32, u32)>, id: Seq<char>) -> u32 {
    if has_two_ids(m) {
        decimal_u32(id)->0
    } else {
        0
    }
}

/// `e` is the entry of one piece of the list `m`.
pub open spec fn entry_of_list(e: PieceEntry, m: Map<Seq<char>, (u32, u32, u32, u32)>) -> bool {
    &&& m.contains_key(e.id@)
    &&& e.dest_x == m[e.id@].0
    &&& e.dest_y == m[e.id@].1
    &&& e.key == entry_key(m, e.id@)
}

/// `all` holds an entry for each piece of `m`, once.
pub open spec fn lists_each_piece(all: Seq<PieceEntry>, m: Map<Seq<char>, (u32, u32, u32, u32)>) -> bool {
    &&& forall|i: int| 0 <= i < all.len() ==> entry_of_list(#[trigger] all[i], m)
    &&& forall|i: int, j: int| 0 <= i < j < all.len() ==> all[i].id@ != all[j].id@
    &&& forall|k: Seq<char>| #[trigger]
        m.contains_key(k) ==> exists|i: int| 0 <= i < all.len() && #[trigger] all[i].id@ == k
}

/// The pieces have to be ordered and some id spells no `u32`.
pub open spec fn ids_fail(m: Map<Seq<char>, (u32, u32, u32, u32)>) -> bool {
    has_two_ids(m) && exists|k: Seq<char>| #[trigger] m.contains_key(k) && decimal_u32(k) is None
}

/// Reordering a list of entries keeps it a list of each piece once.
proof fn lemma_permutation_lists_each_piece(
    ents: Seq<PieceEntry>,
    all: Seq<PieceEntry>,
    m: Map<Seq<char>, (u32, u32, u32, u32)>,
)
    requires
        lists_each_piece(ents, m),
        all.to_multiset() == ents.to_multiset(),
    ensures
        lists_each_piece(all, m),
{
    assert forall|i: int| 0 <= i < all.len() implies entry_of_list(#[trigger] all[i], m) by {
        assert(all.contains(all[i]));
        assert(all.to_multiset().count(all[i]) > 0);
        assert(ents.contains(all[i]));
    }
    assert(ents.no_duplicates()) by {
        assert forall|p: int, q: int| 0 <= p < ents.len() && 0 <= q < ents.len() && p != q implies ents[p]
            != ents[q] by {
            if p < q {
                assert(ents[p].id@ != ents[q].id@);
            } else {
                assert(ents[q].id@ != ents[p].id@);
            }
        }
    }
    ents.lemma_multiset_has_no_duplicates();
    all.lemma_multiset_has_no_duplicates_conv();
    assert forall|i: int, j: int| 0 <= i < j < all.len() implies all[i].id@ != all[j].id@ by {
        assert(all.contains(all[i]));
        assert(all.to_multiset().count(all[i]) > 0);
        assert(all.contains(all[j]));
        assert(all.to_multiset().count(all[j]) > 0);
        assert(ents.contains(all[i]));
        assert(ents.contains(all[j]));
        let p = choose|p: int| 0 <= p < ents.len() && ents[p] == all[i];
        let q = choose|q: int| 0 <= q < ents.len() && ents[q] == all[j];
        assert(all[i] != all[j]);
        if p < q {
            assert(ents[p].id@ != ents[q].id@);
        } else {
            assert(ents[q].id@ != ents[p].id@);
        }
    }
    assert forall|k: Seq<char>| #[trigger] m.contains_key(k) implies exists|i: int|
        0 <= i < all.len() && #[trigger] all[i].id@ == k by {
        let p = choose|p: int| 0 <= p < ents.len() && #[trigger] ents[p].id@ == k;
        assert(ents.contains(ents[p]));
        assert(ents.to_multiset().count(ents[p]) > 0);
        assert(all.contains(ents[p]));
        let i = choose|i: int| 0 <= i < all.len() && all[i] == ents[p];
        assert(all[i].id@ == k);
    }
}

/// Reads the piece list from the bytes of its JSON file, orders the pieces
/// by the number that their id spells, and keeps the first `limit` of them
/// (all of them when there is no limit). Nothing is read when the bytes are
/// not a piece list, or when there are two or more pieces to order and an id
/// spells no `u32`.
pub fn read_piece_entries(json: &[u8], limit: Option<usize>) -> (r: Option<Vec<PieceEntry>>)
    ensures
        r is None <==> (piece_list_of(json@) is None || ids_fail(piece_list_of(json@)->0)),
        r matches Some(v) ==> {
            &&& sorted_by_key(v@)
            &&& exists|all: Seq<PieceEntry>|
                #![trigger lists_each_piece(all, piece_list_of(json@)->0)]
                {
                    &&& lists_each_piece(all, piece_list_of(json@)->0)
                    &&& sorted_by_key(all)
                    &&& v@.len() == kept_count(all.len(), limit)
                    &&& v@ == all.take(v@.len() as int)
                }
        },
{
    let list = match parse_piece_list(json) {
        Some(l) => l,
        None => {
            return None;
        },
    };
    let ghost m = piece_list_of(json@)->0;
    let n = list.len();
    let compare = n > 1;
    proof {
        if n > 1 {
            assert(m.contains_key(list@[0].0@));
            assert(m.contains_key(list@[1].0@));
            assert(list@[0].0@ != list@[1].0@);
        } else if has_two_ids(m) {
            let (a, b) = choose|a: Seq<char>, b: Seq<char>|
                a != b && #[trigger] m.contains_key(a) && #[trigger] m.contains_key(b);
            let ia = choose|i: int| 0 <= i < list@.len() && #[trigger] list@[i].0@ == a;
            let ib = choose|i: int| 0 <= i < list@.len() && #[trigger] list@[i].0@ == b;
            assert(false);
        }
    }
    let mut entries: Vec<PieceEntry> = Vec::new();
    let mut i: usize = 0;
    while i < n
        invariant
            n == list@.len(),
            i <= n,
            m == piece_list_of(json@)->0,
            compare == has_two_ids(m),
            forall|a: int, b: int| 0 <= a < b < list@.len() ==> list@[a].0@ != list@[b].0@,
            forall|a: int|
                0 <= a < list@.len() ==> m.contains_key(#[trigger] list@[a].0@) && m[list@[a].0@]
                    == list@[a].1,
            entries@.len() == i,
            forall|j: int|
                0 <= j < i ==> {
                    &&& (#[trigger] entries@[j]).id@ == list@[j].0@
                    &&& entries@[j].dest_x == list@[j].1.0
                    &&& entries@[j].dest_y == list@[j].1.1
                    &&& entries@[j].key == entry_key(m, list@[j].0@)
                    &&& (compare ==> decimal_u32(list@[j].0@) is Some)
                },
        decreases n - i,
    {
        let id = list[i].0.clone();
        let key: u32 = if compare {
            match id_number(id.as_str()) {
                Some(k) => k,
                None => {
                    assert(m.contains_key(list@[i as int].0@));
                    return None;
                },
            }
        } else {
            0
        };
        entries.push(PieceEntry { id, key, dest_x: list[i].1.0, dest_y: list[i].1.1 });
        i = i + 1;
    }
    let ghost ents = entries@;
    proof {
        assert(lists_each_piece(ents, m)) by {
            assert forall|k: Seq<char>| #[trigger] m.contains_key(k) implies exists|j: int|
                0 <= j < ents.len() && #[trigger] ents[j].id@ == k by {
                let j = choose|j: int| 0 <= j < list@.len() && #[trigger] list@[j].0@ == k;
                assert(ents[j].id@ == k);
            }
            assert forall|a: int, b: int| 0 <= a < b < ents.len() implies ents[a].id@ != ents[b].id@ by {
                assert(ents[a].id@ == list@[a].0@);
                assert(ents[b].id@ == list@[b].0@);
            }
        }
        if ids_fail(m) {
            let k = choose|k: Seq<char>| #[trigger] m.contains_key(k) && decimal_u32(k) is None;
            let j = choose|j: int| 0 <= j < list@.len() && #[trigger] list@[j].0@ == k;
            assert(ents[j].id@ == k);
            assert(false);
        }
    }
    let r = order_entries(entries, limit);
    proof {
        let all = choose|all: Seq<PieceEntry>|
            all.to_multiset() == ents.to_multiset() && sorted_by_key(all) && r@ == all.take(
                r@.len() as int,
            );
        lemma_permutation_lists_each_piece(ents, all, m);
        assert(all.len() == all.to_multiset().len());
        assert(ents.len() == ents.to_multiset().len());
        assert(lists_each_piece(all, piece_list_of(json@)->0));
    }
    Some(r)
}

} // verus!
