//! The signature store: a mapping from threat name to exact byte
//! pattern, extended at runtime from a serialized (JSON) mapping.
//!
//! The store is a vector of entries with unique names; its mathematical
//! view is the map from name to pattern. Updates merge: incoming names
//! overwrite existing ones and new names are added, and a malformed
//! payload leaves the store untouched.

use crate::search::{contains_bytes, contains_seq};
use vstd::prelude::*;

verus! {

/// Confidence attached to an exact signature match.
pub const SIGNATURE_CONFIDENCE: u32 = 9500;

/// The map from threat name to byte pattern described by a list of
/// entries; later entries win.
pub open spec fn map_of_entries(s: Seq<(String, Vec<u8>)>) -> Map<Seq<char>, Seq<u8>>
    decreases s.len(),
{
    if s.len() == 0 {
        Map::<Seq<char>, Seq<u8>>::empty()
    } else {
        map_of_entries(s.drop_last()).insert(s.last().0@, s.last().1@)
    }
}

/// Index of the first entry from `i` on whose pattern occurs in
/// `content`.
pub open spec fn first_match_from(
    content: Seq<u8>,
    entries: Seq<(String, Vec<u8>)>,
    i: int,
) -> Option<int>
    decreases entries.len() - i,
{
    if i < 0 || i >= entries.len() {
        None
    } else if contains_seq(content, entries[i].1@) {
        Some(i)
    } else {
        first_match_from(content, entries, i + 1)
    }
}

/// What a JSON signature payload parses to: the mapping it describes,
/// or nothing when it is malformed. The result depends on the text
/// alone.
pub uninterp spec fn json_sig_map(s: Seq<char>) -> Option<Map<Seq<char>, Seq<u8>>>;

/// Relies on `serde_json::from_str::<HashMap<String, Vec<u8>>>`: a JSON
/// object of name -> byte-array parses to exactly that mapping, in some
/// order; malformed text is rejected.
#[verifier::external_body]
fn parse_signature_json(s: &str) -> (r: Option<Vec<(String, Vec<u8>)>>)
    ensures
        r.is_some() == json_sig_map(s@).is_some(),
        r matches Some(v) ==> map_of_entries(v@) == json_sig_map(s@)->Some_0,
{
    match serde_json::from_str::<std::collections::HashMap<String, Vec<u8>>>(s) {
        Ok(m) => Some(m.into_iter().collect()),
        Err(_) => None,
    }
}

/// The signature store. Entry names are unique; the order of entries is
/// the order scans probe them in, which callers must not rely on.
pub struct SignatureStore {
    entries: Vec<(String, Vec<u8>)>,
}

impl SignatureStore {
    /// The entries as the contracts see them.
    pub closed spec fn entries(&self) -> Seq<(String, Vec<u8>)> {
        self.entries@
    }

    /// The name-to-pattern mapping the store holds.
    pub open spec fn map(&self) -> Map<Seq<char>, Seq<u8>> {
        map_of_entries(self.entries())
    }

    /// Entry names are pairwise distinct.
    pub open spec fn wf(&self) -> bool {
        forall|i: int, j: int|
            0 <= i < j < self.entries().len() ==> self.entries()[i].0@ != self.entries()[j].0@
    }

    /// An empty store.
    pub fn new() -> (r: SignatureStore)
        ensures
            r.wf(),
            r.entries().len() == 0,
            r.map() == Map::<Seq<char>, Seq<u8>>::empty(),
    {
        SignatureStore { entries: Vec::new() }
    }

    /// How many signatures the store holds.
    pub fn len(&self) -> (r: usize)
        ensures
            r == self.entries().len(),
    {
        self.entries.len()
    }

    /// Insert one signature, overwriting an entry of the same name.
    pub fn insert(&mut self, name: String, pattern: Vec<u8>)
        requires
            old(self).wf(),
        ensures
            final(self).wf(),
            final(self).map() == old(self).map().insert(name@, pattern@),
            final(self).entries().len() <= old(self).entries().len() + 1,
    {
        let n = self.entries.len();
        let ghost orig = self.entries@;
        proof {
            assert forall|a: int, b: int|
                0 <= a < b < orig.len() implies orig[a].0@ != orig[b].0@ by {
                assert(old(self).entries()[a].0@ != old(self).entries()[b].0@);
            }
        }
        for i in 0..n
            invariant
                n == self.entries@.len(),
                self.entries@ == orig,
                orig == old(self).entries(),
                old(self).wf(),
                forall|a: int, b: int| 0 <= a < b < orig.len() ==> orig[a].0@ != orig[b].0@,
                forall|j: int| 0 <= j < i ==> orig[j].0@ != name@,
        {
            if string_eq(&self.entries[i].0, &name) {
                self.entries[i] = (name, pattern);
                proof {
                    let updated = self.entries@;
                    lemma_map_of_update(orig, i as int, updated[i as int]);
                    assert forall|a: int, b: int|
                        0 <= a < b < updated.len() implies updated[a].0@ != updated[b].0@ by {
                        assert(updated[a].0@ == orig[a].0@);
                        assert(updated[b].0@ == orig[b].0@);
                    }
                }
                return ;
            }
        }
        self.entries.push((name, pattern));
        proof {
            let pushed = self.entries@;
            assert(pushed.drop_last() =~= orig);
            assert forall|a: int, b: int|
                0 <= a < b < pushed.len() implies pushed[a].0@ != pushed[b].0@ by {
                if b < pushed.len() - 1 {
                    assert(pushed[a].0@ == orig[a].0@ && pushed[b].0@ == orig[b].0@);
                } else {
                    assert(pushed[a].0@ == orig[a].0@ && pushed[b].0@ == name@);
                }
            }
        }
    }

    /// Index of the first entry whose pattern occurs in `content`, with
    /// that entry's name: the signature scan.
    pub fn scan(&self, content: &[u8]) -> (r: Option<(String, u32)>)
        ensures
            match first_match_from(content@, self.entries(), 0) {
                Some(i) => r matches Some(m) && m.0@ == self.entries()[i].0@ && m.1
                    == SIGNATURE_CONFIDENCE,
                None => r is None,
            },
    {
        let n = self.entries.len();
        for i in 0..n
            invariant
                n == self.entries@.len(),
                first_match_from(content@, self.entries@, 0) == first_match_from(
                    content@,
                    self.entries@,
                    i as int,
                ),
        {
            if contains_bytes(content, self.entries[i].1.as_slice()) {
                let name = self.entries[i].0.clone();
                return Some((name, SIGNATURE_CONFIDENCE));
            }
        }
        None
    }

    /// Install the built-in signatures a fresh scanner starts with.
    pub fn load_builtin_signatures(&mut self)
        requires
            old(self).wf(),
        ensures
            final(self).wf(),
            final(self).map() == old(self).map().insert(
                "trojan_example"@,
                seq![0x90u8, 0x90u8, 0x90u8],
            ).insert("ransomware_pattern"@, seq![0xE8u8, 0u8, 0u8, 0u8, 0u8]),
    {
        let trojan: Vec<u8> = vec![0x90, 0x90, 0x90];
        let ransom: Vec<u8> = vec![0xE8, 0x00, 0x00, 0x00, 0x00];
        assert(trojan@ =~= seq![0x90u8, 0x90u8, 0x90u8]);
        assert(ransom@ =~= seq![0xE8u8, 0u8, 0u8, 0u8, 0u8]);
        self.insert(string_from("trojan_example"), trojan);
        self.insert(string_from("ransomware_pattern"), ransom);
    }

    /// Merge a serialized signature mapping into the store. Returns
    /// whether the payload parsed; a malformed payload changes nothing.
    pub fn update_signatures(&mut self, data: &str) -> (ok: bool)
        requires
            old(self).wf(),
        ensures
            final(self).wf(),
            ok == json_sig_map(data@).is_some(),
            json_sig_map(data@) matches Some(m) ==> final(self).map() == old(
                self,
            ).map().union_prefer_right(m),
            json_sig_map(data@) is None ==> final(self).entries() == old(self).entries(),
    {
        match parse_signature_json(data) {
            None => false,
            Some(incoming) => {
                let ghost target = map_of_entries(incoming@);
                let ghost base = self.map();
                let n = incoming.len();
                let mut k: usize = 0;
                let mut rest = incoming;
                proof {
                    assert(rest@.take(0) =~= Seq::<(String, Vec<u8>)>::empty());
                    assert(base.union_prefer_right(map_of_entries(rest@.take(0))) =~= base);
                }
                while k < n
                    invariant
                        self.wf(),
                        n == rest@.len(),
                        k <= n,
                        map_of_entries(rest@) == target,
                        self.map() == base.union_prefer_right(map_of_entries(rest@.take(k as int))),
                    decreases n - k,
                {
                    let (name, pattern) = entry_clone(&rest[k]);
                    proof {
                        let pre = rest@.take(k as int);
                        let post = rest@.take(k + 1);
                        assert(post.drop_last() =~= pre);
                        assert(map_of_entries(post) == map_of_entries(pre).insert(
                            rest@[k as int].0@,
                            rest@[k as int].1@,
                        ));
                        assert(base.union_prefer_right(map_of_entries(post))
                            =~= base.union_prefer_right(map_of_entries(pre)).insert(
                            rest@[k as int].0@,
                            rest@[k as int].1@,
                        ));
                    }
                    self.insert(name, pattern);
                    k = k + 1;
                }
                proof {
                    assert(rest@.take(n as int) =~= rest@);
                }
                true
            },
        }
    }
}

/// Clone one store entry.
fn entry_clone(e: &(String, Vec<u8>)) -> (r: (String, Vec<u8>))
    ensures
        r.0@ == e.0@,
        r.1@ == e.1@,
{
    (e.0.clone(), e.1.clone())
}

/// String equality, as view equality.
fn string_eq(a: &String, b: &String) -> (r: bool)
    ensures
        r == (a@ == b@),
{
    a.eq(b)
}

/// A `String` from a literal.
fn string_from(s: &str) -> (r: String)
    ensures
        r@ == s@,
{
    s.to_owned()
}

/// Updating the entry at `i` with one of the same name is insertion
/// into the map, when names are unique.
proof fn lemma_map_of_update(s: Seq<(String, Vec<u8>)>, i: int, e: (String, Vec<u8>))
    requires
        0 <= i < s.len(),
        s[i].0@ == e.0@,
        forall|a: int, b: int| 0 <= a < b < s.len() ==> s[a].0@ != s[b].0@,
    ensures
        map_of_entries(s.update(i, e)) == map_of_entries(s).insert(e.0@, e.1@),
    decreases s.len(),
{
    let s2 = s.update(i, e);
    if i == s.len() - 1 {
        assert(s2.drop_last() =~= s.drop_last());
        assert(s2.last() == e);
        assert(map_of_entries(s2) =~= map_of_entries(s).insert(e.0@, e.1@));
    } else {
        lemma_map_of_update(s.drop_last(), i, e);
        assert(s2.drop_last() =~= s.drop_last().update(i, e));
        assert(s2.last() == s.last());
        assert(s[i].0@ != s.last().0@);
        assert(map_of_entries(s2) =~= map_of_entries(s).insert(e.0@, e.1@));
    }
}

} // verus!
