use vstd::prelude::*;
use vstd::string::*;

verus! {

/// The map that a list of key/value pairs denotes: a later pair overrides
/// an earlier one with the same key.
pub open spec fn pairs_to_map(ps: Seq<(Seq<char>, Seq<char>)>) -> Map<Seq<char>, Seq<char>>
    decreases ps.len(),
{
    if ps.len() == 0 {
        Map::empty()
    } else {
        pairs_to_map(ps.drop_last()).insert(ps.last().0, ps.last().1)
    }
}

pub open spec fn pair_view(p: (String, String)) -> (Seq<char>, Seq<char>) {
    (p.0@, p.1@)
}

/// A key occurring in the pairs at `j` and nowhere after it maps to the value at `j`.
pub proof fn lemma_last_occurrence(ps: Seq<(Seq<char>, Seq<char>)>, k: Seq<char>, j: int)
    requires
        0 <= j < ps.len(),
        ps[j].0 == k,
        forall|i: int| j < i < ps.len() ==> ps[i].0 != k,
    ensures
        pairs_to_map(ps).contains_key(k),
        pairs_to_map(ps)[k] == ps[j].1,
    decreases ps.len(),
{
    if j < ps.len() - 1 {
        let d = ps.drop_last();
        assert forall|i: int| j < i < d.len() implies d[i].0 != k by {
            assert(d[i] == ps[i]);
        }
        lemma_last_occurrence(d, k, j);
    }
}

/// A key that no pair has is absent from the map.
pub proof fn lemma_absent_key(ps: Seq<(Seq<char>, Seq<char>)>, k: Seq<char>)
    requires
        forall|i: int| 0 <= i < ps.len() ==> ps[i].0 != k,
    ensures
        !pairs_to_map(ps).contains_key(k),
    decreases ps.len(),
{
    if ps.len() > 0 {
        let d = ps.drop_last();
        assert forall|i: int| 0 <= i < d.len() implies d[i].0 != k by {
            assert(d[i] == ps[i]);
        }
        lemma_absent_key(d, k);
    }
}

/// What a list of pairs maps to: exactly the keys that occur in it, each to
/// the value of its last occurrence.
pub proof fn lemma_pairs_to_map(ps: Seq<(Seq<char>, Seq<char>)>)
    ensures
        forall|k: Seq<char>| #[trigger] pairs_to_map(ps).contains_key(k)
            <==> exists|i: int| 0 <= i < ps.len() && ps[i].0 == k,
        forall|j: int| #![trigger ps[j]]
            0 <= j < ps.len() && (forall|i: int| j < i < ps.len() ==> ps[i].0 != ps[j].0)
                ==> pairs_to_map(ps)[ps[j].0] == ps[j].1,
{
    assert forall|k: Seq<char>| #[trigger] pairs_to_map(ps).contains_key(k)
        <==> exists|i: int| 0 <= i < ps.len() && ps[i].0 == k by {
        if exists|i: int| 0 <= i < ps.len() && ps[i].0 == k {
            let i = choose|i: int| 0 <= i < ps.len() && ps[i].0 == k;
            lemma_has_key(ps, k, i);
        } else {
            lemma_absent_key(ps, k);
        }
    }
    assert forall|j: int| #![trigger ps[j]]
        0 <= j < ps.len() && (forall|i: int| j < i < ps.len() ==> ps[i].0 != ps[j].0)
            implies pairs_to_map(ps)[ps[j].0] == ps[j].1 by {
        lemma_last_occurrence(ps, ps[j].0, j);
    }
}

/// A key that occurs at `i` is in the map.
proof fn lemma_has_key(ps: Seq<(Seq<char>, Seq<char>)>, k: Seq<char>, i: int)
    requires
        0 <= i < ps.len(),
        ps[i].0 == k,
    ensures
        pairs_to_map(ps).contains_key(k),
    decreases ps.len(),
{
    if i < ps.len() - 1 && ps.last().0 != k {
        let d = ps.drop_last();
        assert(d[i] == ps[i]);
        lemma_has_key(d, k, i);
    }
}

/// The key/value section of a log line, kept in the order it was read.
#[derive(Debug, Clone)]
pub struct Fields {
    pub pairs: Vec<(String, String)>,
}

impl Fields {
    pub open spec fn pair_seq(&self) -> Seq<(Seq<char>, Seq<char>)> {
        self.pairs@.map_values(|p: (String, String)| pair_view(p))
    }

    /// What the fields denote: each key with its last value.
    pub open spec fn view(&self) -> Map<Seq<char>, Seq<char>> {
        pairs_to_map(self.pair_seq())
    }

    /// The value of `key`, the last one where the key occurs more than once.
    pub fn get(&self, key: &str) -> (r: Option<&String>)
        ensures
            r is Some <==> self.view().contains_key(key@),
            r matches Some(v) ==> v@ == self.view()[key@],
    {
        let k = String::from_str(key);
        let mut i: usize = self.pairs.len();
        while i > 0
            invariant
                i <= self.pairs.len(),
                k@ == key@,
                forall|j: int| i <= j < self.pairs.len() ==> self.pair_seq()[j].0 != key@,
            decreases i,
        {
            i = i - 1;
            if self.pairs[i].0 == k {
                proof {
                    lemma_last_occurrence(self.pair_seq(), key@, i as int);
                }
                return Some(&self.pairs[i].1);
            }
        }
        proof {
            lemma_absent_key(self.pair_seq(), key@);
        }
        None
    }

    /// The value of `key`, or the empty string where it is absent.
    pub fn get_or_empty(&self, key: &str) -> (r: String)
        ensures
            r@ == (if self.view().contains_key(key@) { self.view()[key@] } else { Seq::empty() }),
    {
        match self.get(key) {
            Some(v) => v.clone(),
            None => String::new(),
        }
    }
}

} // verus!
