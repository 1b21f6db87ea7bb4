use vstd::prelude::*;

use crate::bytes::append_bytes;

verus! {

broadcast use vstd::seq_lib::group_seq_properties;

/// A peer discovered from its announce.
#[derive(Clone, Debug)]
pub struct PeerInfo {
    /// Lower-case hex address hash: the peer's SINGLE destination.
    pub hash: String,
    /// The announce's app_data bytes (a display name, for instance).
    pub app_data: Vec<u8>,
}

/// Lexicographic order on characters, by code point; a proper prefix comes first.
pub open spec fn key_lt(a: Seq<char>, b: Seq<char>) -> bool
    decreases a.len(),
{
    if a.len() == 0 {
        b.len() > 0
    } else if b.len() == 0 {
        false
    } else if a[0] != b[0] {
        (a[0] as int) < (b[0] as int)
    } else {
        key_lt(a.drop_first(), b.drop_first())
    }
}

/// Peers in strictly increasing order of hash (so no hash occurs twice).
pub open spec fn strictly_sorted(s: Seq<PeerInfo>) -> bool {
    forall|i: int, j: int| 0 <= i < j < s.len() ==> key_lt(#[trigger] s[i].hash@, #[trigger] s[j].hash@)
}

/// Whether some peer in the sequence has this hash.
pub open spec fn has_key(s: Seq<PeerInfo>, k: Seq<char>) -> bool {
    exists|i: int| 0 <= i < s.len() && #[trigger] s[i].hash@ == k
}

/// A position of a peer with this hash.
pub open spec fn key_index(s: Seq<PeerInfo>, k: Seq<char>) -> int {
    choose|i: int| 0 <= i < s.len() && #[trigger] s[i].hash@ == k
}

/// The peers as a map from hash to app_data.
pub open spec fn table_map(s: Seq<PeerInfo>) -> Map<Seq<char>, Seq<u8>> {
    Map::new(|k: Seq<char>| has_key(s, k), |k: Seq<char>| s[key_index(s, k)].app_data@)
}

proof fn lemma_lt_irreflexive(a: Seq<char>)
    ensures
        !key_lt(a, a),
    decreases a.len(),
{
    if a.len() > 0 {
        lemma_lt_irreflexive(a.drop_first());
    }
}

proof fn lemma_lt_asymmetric(a: Seq<char>, b: Seq<char>)
    ensures
        key_lt(a, b) ==> !key_lt(b, a),
    decreases a.len(),
{
    if a.len() > 0 && b.len() > 0 && a[0] == b[0] {
        lemma_lt_asymmetric(a.drop_first(), b.drop_first());
    }
}

proof fn lemma_lt_total(a: Seq<char>, b: Seq<char>)
    ensures
        a != b ==> key_lt(a, b) || key_lt(b, a),
    decreases a.len(),
{
    if a.len() > 0 && b.len() > 0 && a[0] == b[0] {
        lemma_lt_total(a.drop_first(), b.drop_first());
        if a.drop_first() == b.drop_first() {
            assert(a =~= seq![a[0]] + a.drop_first());
            assert(b =~= seq![b[0]] + b.drop_first());
        }
    } else if a.len() == 0 && b.len() == 0 {
        assert(a =~= b);
    }
}

proof fn lemma_lt_transitive(a: Seq<char>, b: Seq<char>, c: Seq<char>)
    requires
        key_lt(a, b),
        key_lt(b, c),
    ensures
        key_lt(a, c),
    decreases a.len(),
{
    if a.len() > 0 && b.len() > 0 && c.len() > 0 && a[0] == b[0] && b[0] == c[0] {
        lemma_lt_transitive(a.drop_first(), b.drop_first(), c.drop_first());
    }
}

proof fn lemma_lt_common_prefix(a: Seq<char>, b: Seq<char>, i: int)
    requires
        0 <= i <= a.len(),
        i <= b.len(),
        forall|j: int| 0 <= j < i ==> a[j] == b[j],
    ensures
        key_lt(a, b) == key_lt(a.skip(i), b.skip(i)),
    decreases i,
{
    if i > 0 {
        lemma_lt_common_prefix(a.drop_first(), b.drop_first(), i - 1);
        assert(a.drop_first().skip(i - 1) =~= a.skip(i));
        assert(b.drop_first().skip(i - 1) =~= b.skip(i));
    } else {
        assert(a.skip(0) =~= a);
        assert(b.skip(0) =~= b);
    }
}

/// Compares two hashes: -1 when `a` comes first, 0 when equal, 1 when `b` comes first.
fn compare_keys(a: &str, b: &str) -> (r: i8)
    ensures
        r == -1 <==> key_lt(a@, b@),
        r == 0 <==> a@ == b@,
        r == 1 <==> key_lt(b@, a@),
        r == -1 || r == 0 || r == 1,
{
    proof {
        lemma_lt_irreflexive(a@);
        lemma_lt_asymmetric(a@, b@);
        lemma_lt_total(a@, b@);
    }
    let n = a.unicode_len();
    let m = b.unicode_len();
    let mut i: usize = 0;
    while i < n && i < m
        invariant
            n == a@.len(),
            m == b@.len(),
            i <= n,
            i <= m,
            forall|j: int| 0 <= j < i ==> a@[j] == b@[j],
        decreases n - i,
    {
        let x = a.get_char(i);
        let y = b.get_char(i);
        if x != y {
            proof {
                lemma_lt_common_prefix(a@, b@, i as int);
                lemma_lt_common_prefix(b@, a@, i as int);
                assert(a@ != b@);
            }
            if (x as u32) < (y as u32) {
                return -1;
            } else {
                return 1;
            }
        }
        i = i + 1;
    }
    proof {
        lemma_lt_common_prefix(a@, b@, i as int);
        lemma_lt_common_prefix(b@, a@, i as int);
    }
    if n == m {
        assert(a@ =~= b@);
        0
    } else if n < m {
        -1
    } else {
        1
    }
}

proof fn lemma_sorted_unique(s: Seq<PeerInfo>, a: int, b: int)
    requires
        strictly_sorted(s),
        0 <= a < s.len(),
        0 <= b < s.len(),
        s[a].hash@ == s[b].hash@,
    ensures
        a == b,
{
    lemma_lt_irreflexive(s[a].hash@);
    if a < b {
        assert(key_lt(s[a].hash@, s[b].hash@));
    } else if b < a {
        assert(key_lt(s[b].hash@, s[a].hash@));
    }
}

proof fn lemma_map_lookup(s: Seq<PeerInfo>, i: int)
    requires
        strictly_sorted(s),
        0 <= i < s.len(),
    ensures
        table_map(s).contains_key(s[i].hash@),
        table_map(s)[s[i].hash@] == s[i].app_data@,
{
    let k = s[i].hash@;
    assert(has_key(s, k));
    lemma_sorted_unique(s, i, key_index(s, k));
}

proof fn lemma_map_len(s: Seq<PeerInfo>)
    requires
        strictly_sorted(s),
    ensures
        table_map(s).dom().finite(),
        table_map(s).dom().len() == s.len(),
{
    let keys = s.map_values(|p: PeerInfo| p.hash@);
    assert forall|a: int, b: int| 0 <= a < keys.len() && 0 <= b < keys.len() && a != b implies keys[a]
        != keys[b] by {
        if keys[a] == keys[b] {
            lemma_sorted_unique(s, a, b);
        }
    }
    assert(keys.no_duplicates());
    keys.unique_seq_to_set();
    assert forall|k: Seq<char>| table_map(s).dom().contains(k) <==> keys.to_set().contains(k) by {
        if table_map(s).dom().contains(k) {
            let i = key_index(s, k);
            assert(keys[i] == k);
        }
        if keys.to_set().contains(k) {
            let i = choose|i: int| 0 <= i < keys.len() && keys[i] == k;
            assert(s[i].hash@ == k);
        }
    }
    assert(table_map(s).dom() =~= keys.to_set());
}

proof fn lemma_map_insert_at(s: Seq<PeerInfo>, i: int, p: PeerInfo)
    requires
        strictly_sorted(s),
        strictly_sorted(s.insert(i, p)),
        0 <= i <= s.len(),
        !has_key(s, p.hash@),
    ensures
        table_map(s.insert(i, p)) == table_map(s).insert(p.hash@, p.app_data@),
{
    let t = s.insert(i, p);
    let m = table_map(s).insert(p.hash@, p.app_data@);
    assert forall|k: Seq<char>| table_map(t).contains_key(k) <==> m.contains_key(k) by {
        if has_key(t, k) {
            let j = key_index(t, k);
            if j < i {
                assert(s[j] == t[j]);
            } else if j > i {
                assert(s[j - 1] == t[j]);
            }
        }
        if has_key(s, k) {
            let j = key_index(s, k);
            if j < i {
                assert(s[j] == t[j]);
            } else {
                assert(s[j] == t[j + 1]);
            }
        }
        if k == p.hash@ {
            assert(t[i] == p);
        }
    }
    assert forall|k: Seq<char>| #[trigger] table_map(t).contains_key(k) implies table_map(t)[k]
        == m[k] by {
        let j = key_index(t, k);
        if k == p.hash@ {
            assert(t[i] == p);
            lemma_sorted_unique(t, i, j);
        } else {
            let oj = if j < i {
                j
            } else {
                j - 1
            };
            assert(s[oj] == t[j]);
            lemma_map_lookup(s, oj);
        }
    }
    assert(table_map(t) =~= m);
}

proof fn lemma_map_update_at(s: Seq<PeerInfo>, i: int, p: PeerInfo)
    requires
        strictly_sorted(s),
        0 <= i < s.len(),
        s[i].hash@ == p.hash@,
    ensures
        strictly_sorted(s.update(i, p)),
        table_map(s.update(i, p)) == table_map(s).insert(p.hash@, p.app_data@),
{
    let t = s.update(i, p);
    assert(strictly_sorted(t)) by {
        assert forall|a: int, b: int| 0 <= a < b < t.len() implies key_lt(
            #[trigger] t[a].hash@,
            #[trigger] t[b].hash@,
        ) by {
            assert(key_lt(s[a].hash@, s[b].hash@));
        }
    }
    let m = table_map(s).insert(p.hash@, p.app_data@);
    assert forall|k: Seq<char>| table_map(t).contains_key(k) <==> m.contains_key(k) by {
        if has_key(t, k) {
            let j = key_index(t, k);
            assert(s[j].hash@ == t[j].hash@);
        }
        if has_key(s, k) {
            let j = key_index(s, k);
            assert(s[j].hash@ == t[j].hash@);
        }
        if k == p.hash@ {
            assert(t[i] == p);
        }
    }
    assert forall|k: Seq<char>| #[trigger] table_map(t).contains_key(k) implies table_map(t)[k]
        == m[k] by {
        let j = key_index(t, k);
        if k == p.hash@ {
            assert(t[i] == p);
            lemma_sorted_unique(t, i, j);
        } else {
            assert(j != i);
            assert(s[j] == t[j]);
            lemma_map_lookup(s, j);
        }
    }
    assert(table_map(t) =~= m);
}

/// Copies a peer record.
fn copy_peer(p: &PeerInfo) -> (r: PeerInfo)
    ensures
        r.hash@ == p.hash@,
        r.app_data@ == p.app_data@,
{
    let mut data: Vec<u8> = Vec::new();
    append_bytes(&mut data, p.app_data.as_slice());
    PeerInfo { hash: p.hash.clone(), app_data: data }
}

/// The peer table: one record per hash, kept in increasing order of hash.
pub struct PeerTable {
    entries: Vec<PeerInfo>,
}

impl View for PeerTable {
    type V = Map<Seq<char>, Seq<u8>>;

    closed spec fn view(&self) -> Map<Seq<char>, Seq<u8>> {
        table_map(self.entries@)
    }
}

impl PeerTable {
    #[verifier::type_invariant]
    spec fn sorted_entries(self) -> bool {
        strictly_sorted(self.entries@)
    }

    /// An empty table.
    pub fn new() -> (t: PeerTable)
        ensures
            t@ == Map::<Seq<char>, Seq<u8>>::empty(),
    {
        let t = PeerTable { entries: Vec::new() };
        assert(t@ =~= Map::<Seq<char>, Seq<u8>>::empty());
        t
    }

    /// Number of peers.
    pub fn len(&self) -> (n: usize)
        ensures
            self@.dom().finite(),
            n == self@.dom().len(),
    {
        proof {
            use_type_invariant(self);
            lemma_map_len(self.entries@);
        }
        self.entries.len()
    }

    /// Whether a peer with this hash is known.
    pub fn contains(&self, hash: &str) -> (b: bool)
        ensures
            b == self@.contains_key(hash@),
    {
        proof {
            use_type_invariant(self);
        }
        let n = self.entries.len();
        let mut i: usize = 0;
        while i < n
            invariant
                n == self.entries@.len(),
                strictly_sorted(self.entries@),
                i <= n,
                forall|j: int| 0 <= j < i ==> self.entries@[j].hash@ != hash@,
            decreases n - i,
        {
            if compare_keys(self.entries[i].hash.as_str(), hash) == 0 {
                proof {
                    lemma_map_lookup(self.entries@, i as int);
                }
                return true;
            }
            i = i + 1;
        }
        false
    }

    /// Adds a peer, or replaces the record of the peer with the same hash.
    pub fn insert(&mut self, info: PeerInfo)
        ensures
            final(self)@ == old(self)@.insert(info.hash@, info.app_data@),
    {
        proof {
            use_type_invariant(&*self);
        }
        let ghost s = self.entries@;
        let ghost k = info.hash@;
        let n = self.entries.len();
        let mut i: usize = 0;
        let mut found = false;
        while i < n
            invariant_except_break
                k == info.hash@,
                n == s.len(),
                s == self.entries@,
                strictly_sorted(s),
                i <= n,
                forall|j: int| 0 <= j < i ==> key_lt(#[trigger] s[j].hash@, k),
                !found,
            ensures
                n == s.len(),
                s == self.entries@,
                i <= n,
                forall|j: int| 0 <= j < i ==> key_lt(#[trigger] s[j].hash@, k),
                found ==> i < n && s[i as int].hash@ == k,
                !found ==> i == n || key_lt(k, s[i as int].hash@),
            decreases n - i,
        {
            let c = compare_keys(self.entries[i].hash.as_str(), info.hash.as_str());
            if c == 0 {
                found = true;
                break;
            }
            if c == 1 {
                break;
            }
            i = i + 1;
        }
        let mut entries: Vec<PeerInfo> = Vec::new();
        std::mem::swap(&mut entries, &mut self.entries);
        assert(entries@ == s);
        if found {
            proof {
                lemma_map_update_at(s, i as int, info);
            }
            entries.set(i, info);
        } else {
            proof {
                assert forall|j: int| i <= j < n implies key_lt(k, #[trigger] s[j].hash@) by {
                    if j > i {
                        lemma_lt_transitive(k, s[i as int].hash@, s[j].hash@);
                    }
                }
                assert forall|j: int| 0 <= j < n implies s[j].hash@ != k by {
                    lemma_lt_irreflexive(k);
                }
                let t = s.insert(i as int, info);
                assert forall|a: int, b: int| 0 <= a < b < t.len() implies key_lt(
                    #[trigger] t[a].hash@,
                    #[trigger] t[b].hash@,
                ) by {
                    if b < i {
                        assert(key_lt(s[a].hash@, s[b].hash@));
                    } else if b == i {
                    } else if a < i {
                        lemma_lt_transitive(s[a].hash@, k, s[b - 1].hash@);
                    } else if a == i {
                    } else {
                        assert(key_lt(s[a - 1].hash@, s[b - 1].hash@));
                    }
                }
                lemma_map_insert_at(s, i as int, info);
            }
            entries.insert(i, info);
        }
        self.entries = entries;
    }

    /// Removes every peer.
    pub fn clear(&mut self)
        ensures
            final(self)@ == Map::<Seq<char>, Seq<u8>>::empty(),
    {
        self.entries = Vec::new();
        assert(self@ =~= Map::<Seq<char>, Seq<u8>>::empty());
    }

    /// Every peer, in increasing order of hash.
    pub fn list(&self) -> (r: Vec<PeerInfo>)
        ensures
            listing_of(r@, self@),
            forall|i: int, j: int|
                0 <= i < j < r@.len() ==> precedes(#[trigger] r@[i].hash@, #[trigger] r@[j].hash@),
    {
        proof {
            use_type_invariant(self);
            lemma_map_len(self.entries@);
        }
        let n = self.entries.len();
        let mut out: Vec<PeerInfo> = Vec::new();
        let mut i: usize = 0;
        while i < n
            invariant
                n == self.entries@.len(),
                strictly_sorted(self.entries@),
                i <= n,
                out@.len() == i,
                forall|j: int|
                    0 <= j < i ==> (#[trigger] out@[j]).hash@ == self.entries@[j].hash@
                        && out@[j].app_data@ == self.entries@[j].app_data@,
            decreases n - i,
        {
            out.push(copy_peer(&self.entries[i]));
            i = i + 1;
        }
        proof {
            assert forall|a: int, b: int| 0 <= a < b < out@.len() implies key_lt(
                #[trigger] out@[a].hash@,
                #[trigger] out@[b].hash@,
            ) by {
                assert(key_lt(self.entries@[a].hash@, self.entries@[b].hash@));
            }
            assert forall|j: int| 0 <= j < out@.len() implies self@.contains_key(
                #[trigger] out@[j].hash@,
            ) && self@[out@[j].hash@] == out@[j].app_data@ by {
                lemma_map_lookup(self.entries@, j);
            }
            lemma_listing_in_character_order(out@, self@);
        }
        out
    }
}

/// `r` lists the map exactly: in strictly increasing order of hash, one record per key,
/// each with the key's app_data.
pub open spec fn listing_of(r: Seq<PeerInfo>, m: Map<Seq<char>, Seq<u8>>) -> bool {
    &&& strictly_sorted(r)
    &&& r.len() == m.dom().len()
    &&& m.dom().finite()
    &&& forall|j: int|
        0 <= j < r.len() ==> m.contains_key(#[trigger] r[j].hash@) && m[r[j].hash@]
            == r[j].app_data@
}

/// A listing holds every key of the map: a sorted listing of a map is unique.
pub proof fn lemma_listing_complete(r: Seq<PeerInfo>, m: Map<Seq<char>, Seq<u8>>)
    requires
        listing_of(r, m),
    ensures
        forall|k: Seq<char>| m.contains_key(k) ==> has_key(r, k),
        table_map(r) == m,
{
    lemma_map_len(r);
    assert forall|k: Seq<char>| table_map(r).contains_key(k) implies m.contains_key(k) by {
        let j = key_index(r, k);
        assert(m.contains_key(r[j].hash@));
    }
    assert(table_map(r).dom().subset_of(m.dom()));
    vstd::set_lib::lemma_subset_equality(table_map(r).dom(), m.dom());
    assert forall|k: Seq<char>| m.contains_key(k) implies has_key(r, k) by {
        assert(table_map(r).dom().contains(k));
    }
    assert forall|k: Seq<char>| #[trigger] table_map(r).contains_key(k) implies table_map(r)[k]
        == m[k] by {
        let j = key_index(r, k);
        assert(m[r[j].hash@] == r[j].app_data@);
    }
    assert(table_map(r) =~= m);
}

proof fn lemma_map_drop_first(s: Seq<PeerInfo>)
    requires
        strictly_sorted(s),
        s.len() > 0,
    ensures
        strictly_sorted(s.drop_first()),
        table_map(s.drop_first()) == table_map(s).remove(s[0].hash@),
{
    let t = s.drop_first();
    let k = s[0].hash@;
    assert(strictly_sorted(t)) by {
        assert forall|a: int, b: int| 0 <= a < b < t.len() implies key_lt(
            #[trigger] t[a].hash@,
            #[trigger] t[b].hash@,
        ) by {
            assert(key_lt(s[a + 1].hash@, s[b + 1].hash@));
        }
    }
    let m = table_map(s).remove(k);
    assert forall|x: Seq<char>| table_map(t).contains_key(x) <==> m.contains_key(x) by {
        if has_key(t, x) {
            let j = key_index(t, x);
            assert(s[j + 1] == t[j]);
            if x == k {
                lemma_sorted_unique(s, 0, j + 1);
            }
        }
        if has_key(s, x) && x != k {
            let j = key_index(s, x);
            assert(j != 0);
            assert(t[j - 1] == s[j]);
        }
    }
    assert forall|x: Seq<char>| #[trigger] table_map(t).contains_key(x) implies table_map(t)[x]
        == m[x] by {
        let j = key_index(t, x);
        assert(s[j + 1] == t[j]);
        if x == k {
            lemma_sorted_unique(s, 0, j + 1);
        }
        lemma_map_lookup(s, j + 1);
        lemma_map_lookup(t, j);
        assert(m[x] == table_map(s)[x]);
    }
    assert(table_map(t) =~= m);
}

proof fn lemma_sorted_same_map(s1: Seq<PeerInfo>, s2: Seq<PeerInfo>)
    requires
        strictly_sorted(s1),
        strictly_sorted(s2),
        table_map(s1) == table_map(s2),
    ensures
        s1.len() == s2.len(),
        forall|i: int|
            0 <= i < s1.len() ==> (#[trigger] s1[i]).hash@ == s2[i].hash@ && s1[i].app_data@
                == s2[i].app_data@,
    decreases s1.len(),
{
    if s1.len() == 0 {
        if s2.len() > 0 {
            lemma_map_lookup(s2, 0);
        }
    } else if s2.len() == 0 {
        lemma_map_lookup(s1, 0);
    } else {
        let k1 = s1[0].hash@;
        let k2 = s2[0].hash@;
        lemma_map_lookup(s1, 0);
        lemma_map_lookup(s2, 0);
        let j = key_index(s2, k1);
        let i = key_index(s1, k2);
        if j > 0 && i > 0 {
            assert(key_lt(k2, s2[j].hash@));
            assert(key_lt(k1, s1[i].hash@));
            lemma_lt_asymmetric(k1, k2);
            assert(false);
        }
        assert(k1 == k2);
        lemma_map_drop_first(s1);
        lemma_map_drop_first(s2);
        lemma_sorted_same_map(s1.drop_first(), s2.drop_first());
        assert forall|x: int| 0 <= x < s1.len() implies (#[trigger] s1[x]).hash@ == s2[x].hash@
            && s1[x].app_data@ == s2[x].app_data@ by {
            if x > 0 {
                assert(s1.drop_first()[x - 1] == s1[x]);
                assert(s2.drop_first()[x - 1] == s2[x]);
            }
        }
    }
}

/// A map has one sorted listing: any two listings of it agree record by record.
pub proof fn lemma_listing_unique(l1: Seq<PeerInfo>, l2: Seq<PeerInfo>, m: Map<Seq<char>, Seq<u8>>)
    requires
        listing_of(l1, m),
        listing_of(l2, m),
    ensures
        l1.len() == l2.len(),
        forall|i: int|
            0 <= i < l1.len() ==> (#[trigger] l1[i]).hash@ == l2[i].hash@ && l1[i].app_data@
                == l2[i].app_data@,
{
    lemma_listing_complete(l1, m);
    lemma_listing_complete(l2, m);
    lemma_sorted_same_map(l1, l2);
}

/// `a` comes before `b` in character order: `a` is a proper prefix of `b`, or at the first
/// position where they differ `a` has the smaller code point.
pub open spec fn precedes(a: Seq<char>, b: Seq<char>) -> bool {
    (a.len() < b.len() && b.take(a.len() as int) == a) || exists|i: int|
        0 <= i < a.len() && i < b.len() && a.take(i) == b.take(i) && (a[i] as int) < (
        #[trigger] b[i] as int)
}

/// The order of the peer table is lexicographic order by code point.
pub proof fn lemma_key_order(a: Seq<char>, b: Seq<char>)
    ensures
        key_lt(a, b) <==> precedes(a, b),
    decreases a.len(),
{
    if a.len() == 0 {
        if b.len() > 0 {
            assert(b.take(0) =~= a);
        }
    } else if b.len() == 0 {
    } else if a[0] != b[0] {
        if (a[0] as int) < (b[0] as int) {
            assert(a.take(0) =~= b.take(0));
        }
        if precedes(a, b) {
            if a.len() < b.len() && b.take(a.len() as int) == a {
                assert(b.take(a.len() as int)[0] == b[0]);
            } else {
                let i = choose|i: int|
                    0 <= i < a.len() && i < b.len() && a.take(i) == b.take(i) && (a[i] as int) < (
                    #[trigger] b[i] as int);
                if i > 0 {
                    assert(a.take(i)[0] == b.take(i)[0]);
                }
            }
        }
    } else {
        let a1 = a.drop_first();
        let b1 = b.drop_first();
        lemma_key_order(a1, b1);
        if precedes(a1, b1) {
            if a1.len() < b1.len() && b1.take(a1.len() as int) == a1 {
                assert(b.take(a.len() as int) =~= a) by {
                    assert forall|j: int| 0 <= j < a.len() implies #[trigger] b.take(a.len() as int)[j]
                        == a[j] by {
                        if j > 0 {
                            assert(b1.take(a1.len() as int)[j - 1] == a1[j - 1]);
                        }
                    }
                }
            } else {
                let i = choose|i: int|
                    0 <= i < a1.len() && i < b1.len() && a1.take(i) == b1.take(i) && (a1[i] as int)
                        < (#[trigger] b1[i] as int);
                assert(a.take(i + 1) =~= b.take(i + 1)) by {
                    assert forall|j: int| 0 <= j < i + 1 implies #[trigger] a.take(i + 1)[j] == b.take(
                        i + 1,
                    )[j] by {
                        if j > 0 {
                            assert(a1.take(i)[j - 1] == b1.take(i)[j - 1]);
                        }
                    }
                }
                assert((a[i + 1] as int) < (b[i + 1] as int));
            }
        }
        if precedes(a, b) {
            if a.len() < b.len() && b.take(a.len() as int) == a {
                assert(b1.take(a1.len() as int) =~= a1) by {
                    assert forall|j: int| 0 <= j < a1.len() implies #[trigger] b1.take(a1.len() as int)[j]
                        == a1[j] by {
                        assert(b.take(a.len() as int)[j + 1] == a[j + 1]);
                    }
                }
            } else {
                let i = choose|i: int|
                    0 <= i < a.len() && i < b.len() && a.take(i) == b.take(i) && (a[i] as int) < (
                    #[trigger] b[i] as int);
                assert(i > 0);
                assert(a1.take(i - 1) =~= b1.take(i - 1)) by {
                    assert forall|j: int| 0 <= j < i - 1 implies #[trigger] a1.take(i - 1)[j] == b1.take(
                        i - 1,
                    )[j] by {
                        assert(a.take(i)[j + 1] == b.take(i)[j + 1]);
                    }
                }
                assert((a1[i - 1] as int) < (b1[i - 1] as int));
            }
        }
    }
}

/// A listing of the peer table is in increasing order of hash by character code.
pub proof fn lemma_listing_in_character_order(r: Seq<PeerInfo>, m: Map<Seq<char>, Seq<u8>>)
    requires
        listing_of(r, m),
    ensures
        forall|i: int, j: int|
            0 <= i < j < r.len() ==> precedes(#[trigger] r[i].hash@, #[trigger] r[j].hash@),
{
    assert forall|i: int, j: int| 0 <= i < j < r.len() implies precedes(
        #[trigger] r[i].hash@,
        #[trigger] r[j].hash@,
    ) by {
        lemma_key_order(r[i].hash@, r[j].hash@);
    }
}

} // verus!
