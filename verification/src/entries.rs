//! Helpers on byte vectors and on the entry vectors that stand for maps:
//! how the map view of such a vector changes under a push or an in-place
//! update, and small verified clone/compare utilities.

use vstd::prelude::*;
use crate::types::{
    bytes_seq, opt_bytes, origin_keys_unique, origin_map, tap_origin_keys_unique, tap_origin_map,
    tap_script_keys_unique, tap_script_map, KeyOrigin, KeyedOrigin, TapKeyOrigin, TapScriptEntry,
};

verus! {

/// A clone of a byte vector is the same byte string.
pub(crate) fn clone_bytes(b: &Vec<u8>) -> (r: Vec<u8>)
    ensures
        r@ == b@,
{
    let r = b.clone();
    proof {
        assert forall|i: int| 0 <= i < r@.len() implies r@[i] == b@[i] by {
            assert(cloned::<u8>(b@[i], r@[i]));
        }
        assert(r@ =~= b@);
    }
    r
}

/// A clone of a path is the same child-number sequence.
pub(crate) fn clone_path(p: &Vec<u32>) -> (r: Vec<u32>)
    ensures
        r@ == p@,
{
    let r = p.clone();
    proof {
        assert forall|i: int| 0 <= i < r@.len() implies r@[i] == p@[i] by {
            assert(cloned::<u32>(p@[i], r@[i]));
        }
        assert(r@ =~= p@);
    }
    r
}

/// A clone of an optional byte vector keeps its view.
pub(crate) fn clone_opt_bytes(o: &Option<Vec<u8>>) -> (r: Option<Vec<u8>>)
    ensures
        opt_bytes(r) == opt_bytes(*o),
{
    match o {
        Some(b) => Some(clone_bytes(b)),
        None => None,
    }
}

/// Byte-string equality.
pub(crate) fn bytes_eq(a: &Vec<u8>, b: &Vec<u8>) -> (r: bool)
    ensures
        r == (a@ == b@),
{
    if a.len() != b.len() {
        return false;
    }
    let n = a.len();
    let mut i: usize = 0;
    while i < n
        invariant
            i <= n,
            n == a@.len(),
            n == b@.len(),
            forall|j: int| 0 <= j < i ==> a@[j] == b@[j],
        decreases n - i,
    {
        if a[i] != b[i] {
            return false;
        }
        i += 1;
    }
    proof {
        assert(a@ =~= b@);
    }
    true
}

/// Whether `h` occurs among the byte strings of `hs`.
pub(crate) fn contains_bytes(hs: &Vec<Vec<u8>>, h: &Vec<u8>) -> (r: bool)
    ensures
        r == bytes_seq(hs@).contains(h@),
{
    let n = hs.len();
    let mut i: usize = 0;
    while i < n
        invariant
            i <= n,
            n == hs@.len(),
            forall|j: int| 0 <= j < i ==> bytes_seq(hs@)[j] != h@,
        decreases n - i,
    {
        if bytes_eq(&hs[i], h) {
            proof {
                assert(bytes_seq(hs@)[i as int] == h@);
            }
            return true;
        }
        proof {
            assert(bytes_seq(hs@)[i as int] == hs@[i as int]@);
        }
        i += 1;
    }
    proof {
        if bytes_seq(hs@).contains(h@) {
            let j = choose|j: int| 0 <= j < bytes_seq(hs@).len() && bytes_seq(hs@)[j] == h@;
            assert(false);
        }
    }
    false
}

/// A key that no entry carries is not in the map the vector stands for.
pub proof fn lemma_origin_map_absent(s: Seq<KeyedOrigin>, k: Seq<u8>)
    requires
        forall|i: int| 0 <= i < s.len() ==> (#[trigger] s[i]).key@ != k,
    ensures
        !origin_map(s).dom().contains(k),
    decreases s.len(),
{
    if s.len() > 0 {
        lemma_origin_map_absent(s.drop_last(), k);
    }
}

/// Replacing the entry at `i` by one with the same key updates the map at
/// that key alone.
pub proof fn lemma_origin_map_update(s: Seq<KeyedOrigin>, i: int, e: KeyedOrigin)
    requires
        origin_keys_unique(s),
        0 <= i < s.len(),
        e.key@ == s[i].key@,
    ensures
        origin_map(s.update(i, e)) == origin_map(s).insert(e.key@, e.origin@),
    decreases s.len(),
{
    let s2 = s.update(i, e);
    if i == s.len() - 1 {
        assert(s2.drop_last() =~= s.drop_last());
        assert(s2.last() == e);
        assert(origin_map(s2) =~= origin_map(s).insert(e.key@, e.origin@));
    } else {
        assert(s2.drop_last() =~= s.drop_last().update(i, e));
        assert(origin_keys_unique(s.drop_last()));
        lemma_origin_map_update(s.drop_last(), i, e);
        assert(s2.last() == s.last());
        assert(s[i].key@ != s.last().key@);
        assert(origin_map(s2) =~= origin_map(s).insert(e.key@, e.origin@));
    }
}

/// A key that no entry carries is not in the map the vector stands for.
pub proof fn lemma_tap_origin_map_absent(s: Seq<TapKeyOrigin>, k: Seq<u8>)
    requires
        forall|i: int| 0 <= i < s.len() ==> (#[trigger] s[i]).key@ != k,
    ensures
        !tap_origin_map(s).dom().contains(k),
    decreases s.len(),
{
    if s.len() > 0 {
        lemma_tap_origin_map_absent(s.drop_last(), k);
    }
}

/// With pairwise-distinct keys, the map's value at an entry's key is that
/// entry's value.
pub proof fn lemma_tap_origin_map_present(s: Seq<TapKeyOrigin>, i: int)
    requires
        tap_origin_keys_unique(s),
        0 <= i < s.len(),
    ensures
        tap_origin_map(s).dom().contains(s[i].key@),
        tap_origin_map(s)[s[i].key@] == (bytes_seq(s[i].leaf_hashes@), s[i].origin@),
    decreases s.len(),
{
    if i < s.len() - 1 {
        assert(tap_origin_keys_unique(s.drop_last()));
        lemma_tap_origin_map_present(s.drop_last(), i);
        assert(s[i].key@ != s.last().key@);
    }
}

/// Replacing the entry at `i` by one with the same key updates the map at
/// that key alone.
pub proof fn lemma_tap_origin_map_update(s: Seq<TapKeyOrigin>, i: int, e: TapKeyOrigin)
    requires
        tap_origin_keys_unique(s),
        0 <= i < s.len(),
        e.key@ == s[i].key@,
    ensures
        tap_origin_map(s.update(i, e)) == tap_origin_map(s).insert(
            e.key@,
            (bytes_seq(e.leaf_hashes@), e.origin@),
        ),
    decreases s.len(),
{
    let s2 = s.update(i, e);
    if i == s.len() - 1 {
        assert(s2.drop_last() =~= s.drop_last());
        assert(s2.last() == e);
        assert(tap_origin_map(s2) =~= tap_origin_map(s).insert(
            e.key@,
            (bytes_seq(e.leaf_hashes@), e.origin@),
        ));
    } else {
        assert(s2.drop_last() =~= s.drop_last().update(i, e));
        assert(tap_origin_keys_unique(s.drop_last()));
        lemma_tap_origin_map_update(s.drop_last(), i, e);
        assert(s2.last() == s.last());
        assert(s[i].key@ != s.last().key@);
        assert(tap_origin_map(s2) =~= tap_origin_map(s).insert(
            e.key@,
            (bytes_seq(e.leaf_hashes@), e.origin@),
        ));
    }
}

/// A control block that no entry carries is not in the map the vector
/// stands for.
pub proof fn lemma_tap_script_map_absent(s: Seq<TapScriptEntry>, k: Seq<u8>)
    requires
        forall|i: int| 0 <= i < s.len() ==> (#[trigger] s[i]).control_block@ != k,
    ensures
        !tap_script_map(s).dom().contains(k),
    decreases s.len(),
{
    if s.len() > 0 {
        lemma_tap_script_map_absent(s.drop_last(), k);
    }
}

/// Replacing the entry at `i` by one with the same control block updates
/// the map at that key alone.
pub proof fn lemma_tap_script_map_update(s: Seq<TapScriptEntry>, i: int, e: TapScriptEntry)
    requires
        tap_script_keys_unique(s),
        0 <= i < s.len(),
        e.control_block@ == s[i].control_block@,
    ensures
        tap_script_map(s.update(i, e)) == tap_script_map(s).insert(
            e.control_block@,
            (e.script@, e.leaf_version),
        ),
    decreases s.len(),
{
    let s2 = s.update(i, e);
    if i == s.len() - 1 {
        assert(s2.drop_last() =~= s.drop_last());
        assert(s2.last() == e);
        assert(tap_script_map(s2) =~= tap_script_map(s).insert(
            e.control_block@,
            (e.script@, e.leaf_version),
        ));
    } else {
        assert(s2.drop_last() =~= s.drop_last().update(i, e));
        assert(tap_script_keys_unique(s.drop_last()));
        lemma_tap_script_map_update(s.drop_last(), i, e);
        assert(s2.last() == s.last());
        assert(s[i].control_block@ != s.last().control_block@);
        assert(tap_script_map(s2) =~= tap_script_map(s).insert(
            e.control_block@,
            (e.script@, e.leaf_version),
        ));
    }
}

/// Finds the entry holding `key`, if any.
pub(crate) fn find_origin(s: &Vec<KeyedOrigin>, key: &Vec<u8>) -> (r: Option<usize>)
    ensures
        match r {
            Some(i) => i < s@.len() && s@[i as int].key@ == key@,
            None => forall|i: int| 0 <= i < s@.len() ==> (#[trigger] s@[i]).key@ != key@,
        },
{
    let n = s.len();
    let mut i: usize = 0;
    while i < n
        invariant
            i <= n,
            n == s@.len(),
            forall|j: int| 0 <= j < i ==> (#[trigger] s@[j]).key@ != key@,
        decreases n - i,
    {
        if bytes_eq(&s[i].key, key) {
            return Some(i);
        }
        i += 1;
    }
    None
}

/// Finds the entry holding `key`, if any.
pub(crate) fn find_tap_origin(s: &Vec<TapKeyOrigin>, key: &Vec<u8>) -> (r: Option<usize>)
    ensures
        match r {
            Some(i) => i < s@.len() && s@[i as int].key@ == key@,
            None => forall|i: int| 0 <= i < s@.len() ==> (#[trigger] s@[i]).key@ != key@,
        },
{
    let n = s.len();
    let mut i: usize = 0;
    while i < n
        invariant
            i <= n,
            n == s@.len(),
            forall|j: int| 0 <= j < i ==> (#[trigger] s@[j]).key@ != key@,
        decreases n - i,
    {
        if bytes_eq(&s[i].key, key) {
            return Some(i);
        }
        i += 1;
    }
    None
}

/// Finds the entry holding `control_block`, if any.
pub(crate) fn find_tap_script(s: &Vec<TapScriptEntry>, control_block: &Vec<u8>) -> (r: Option<
    usize,
>)
    ensures
        match r {
            Some(i) => i < s@.len() && s@[i as int].control_block@ == control_block@,
            None => forall|i: int|
                0 <= i < s@.len() ==> (#[trigger] s@[i]).control_block@ != control_block@,
        },
{
    let n = s.len();
    let mut i: usize = 0;
    while i < n
        invariant
            i <= n,
            n == s@.len(),
            forall|j: int| 0 <= j < i ==> (#[trigger] s@[j]).control_block@ != control_block@,
        decreases n - i,
    {
        if bytes_eq(&s[i].control_block, control_block) {
            return Some(i);
        }
        i += 1;
    }
    None
}

/// Inserts or overwrites the origin recorded for `key`: the map the vector
/// stands for gains exactly that association.
pub(crate) fn upsert_origin(v: &mut Vec<KeyedOrigin>, key: &Vec<u8>, origin: KeyOrigin)
    requires
        origin_keys_unique(old(v)@),
    ensures
        origin_keys_unique(final(v)@),
        origin_map(final(v)@) == origin_map(old(v)@).insert(key@, origin@),
{
    match find_origin(v, key) {
        Some(i) => {
            let e = KeyedOrigin { key: clone_bytes(key), origin };
            let ghost s = v@;
            let ghost e_g = e;
            let _ = v.remove(i);
            v.insert(i, e);
            proof {
                assert(v@ =~= s.update(i as int, e_g));
                lemma_origin_map_update(s, i as int, e_g);
                assert forall|a: int, b: int| 0 <= a < b < v@.len() implies v@[a].key@
                    != v@[b].key@ by {
                    assert(s[a].key@ != s[b].key@);
                }
            }
        },
        None => {
            let ghost s = v@;
            let e = KeyedOrigin { key: clone_bytes(key), origin };
            let ghost e_g = e;
            v.push(e);
            proof {
                assert(v@.drop_last() =~= s);
                lemma_origin_map_absent(s, key@);
                assert(origin_map(v@) =~= origin_map(s).insert(key@, origin@));
                assert forall|a: int, b: int| 0 <= a < b < v@.len() implies v@[a].key@
                    != v@[b].key@ by {
                    if b < v@.len() - 1 {
                        assert(s[a].key@ != s[b].key@);
                    } else {
                        assert(s[a].key@ != key@);
                    }
                }
            }
        },
    }
}

/// Inserts or overwrites the script recorded for `control_block`, always
/// with the fixed tapscript leaf version.
pub(crate) fn upsert_tap_script(
    v: &mut Vec<TapScriptEntry>,
    control_block: &Vec<u8>,
    script: &Vec<u8>,
    leaf_version: u8,
)
    requires
        tap_script_keys_unique(old(v)@),
    ensures
        tap_script_keys_unique(final(v)@),
        tap_script_map(final(v)@) == tap_script_map(old(v)@).insert(
            control_block@,
            (script@, leaf_version),
        ),
{
    let e = TapScriptEntry {
        control_block: clone_bytes(control_block),
        script: clone_bytes(script),
        leaf_version,
    };
    let ghost e_g = e;
    match find_tap_script(v, control_block) {
        Some(i) => {
            let ghost s = v@;
            let _ = v.remove(i);
            v.insert(i, e);
            proof {
                assert(v@ =~= s.update(i as int, e_g));
                lemma_tap_script_map_update(s, i as int, e_g);
                assert forall|a: int, b: int| 0 <= a < b < v@.len() implies v@[a].control_block@
                    != v@[b].control_block@ by {
                    assert(s[a].control_block@ != s[b].control_block@);
                }
            }
        },
        None => {
            let ghost s = v@;
            v.push(e);
            proof {
                assert(v@.drop_last() =~= s);
                lemma_tap_script_map_absent(s, control_block@);
                assert(tap_script_map(v@) =~= tap_script_map(s).insert(
                    control_block@,
                    (script@, leaf_version),
                ));
                assert forall|a: int, b: int| 0 <= a < b < v@.len() implies v@[a].control_block@
                    != v@[b].control_block@ by {
                    if b < v@.len() - 1 {
                        assert(s[a].control_block@ != s[b].control_block@);
                    } else {
                        assert(s[a].control_block@ != control_block@);
                    }
                }
            }
        },
    }
}

} // verus!
