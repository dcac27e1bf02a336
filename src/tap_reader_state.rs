use vstd::prelude::*;
use csv::{Position, StringRecord};

verus! {

#[verifier::external_type_specification]
#[verifier::external_body]
pub struct ExStringRecord(csv::StringRecord);

#[verifier::external_type_specification]
#[verifier::external_body]
pub struct ExPosition(csv::Position);

/// Relies on the derived `Clone` of `csv::StringRecord`: the same record.
pub assume_specification[ <csv::StringRecord as Clone>::clone ](r: &csv::StringRecord) -> (c: csv::StringRecord)
    ensures
        c == *r,
;

/// Relies on the derived `Clone` of `csv::Position`: the same position.
pub assume_specification[ <csv::Position as Clone>::clone ](p: &csv::Position) -> (c: csv::Position)
    ensures
        c == *p,
;

/// State kept while reading a tabular profile: the record read ahead, if any, and a
/// counter per placeholder name.
pub struct TapReaderState {
    cached_next_record: Option<(StringRecord, Position)>,
    placeholder_ids: Vec<(String, u64)>,
}

/// Position of key `k` among the entries of `s`, if present.
pub open spec fn has_key_at(s: Seq<(String, u64)>, k: Seq<char>, i: int) -> bool {
    0 <= i < s.len() && s[i].0@ == k
}

impl TapReaderState {
    pub closed spec fn wf(&self) -> bool {
        forall|i: int, j: int|
            0 <= i < self.placeholder_ids@.len() && 0 <= j < self.placeholder_ids@.len() && i != j
                ==> #[trigger] self.placeholder_ids@[i].0@ != #[trigger] self.placeholder_ids@[j].0@
    }

    /// The last value handed out for placeholder `k`, if any.
    pub closed spec fn count_of(&self, k: Seq<char>) -> Option<u64> {
        if exists|i: int| has_key_at(self.placeholder_ids@, k, i) {
            Some(self.placeholder_ids@[choose|i: int| has_key_at(self.placeholder_ids@, k, i)].1)
        } else {
            None
        }
    }

    /// The record read ahead and its position, if any.
    pub closed spec fn cached(&self) -> Option<(StringRecord, Position)> {
        self.cached_next_record
    }

    pub fn new() -> (r: TapReaderState)
        ensures
            r.wf(),
            r.cached() is None,
            forall|k: Seq<char>| r.count_of(k) is None,
    {
        TapReaderState { cached_next_record: None, placeholder_ids: Vec::new() }
    }

    /// Keeps a copy of a record read ahead, with its position.
    pub fn set_next_record(&mut self, rcd: &StringRecord, pos: &Position)
        ensures
            final(self).cached() == Some((*rcd, *pos)),
            final(self).wf() == old(self).wf(),
            forall|k: Seq<char>| final(self).count_of(k) == old(self).count_of(k),
    {
        self.cached_next_record = Some((rcd.clone(), pos.clone()));
        assert(self.placeholder_ids@ == old(self).placeholder_ids@);
    }

    /// Forgets the record read ahead.
    pub fn reset_next_record(&mut self)
        ensures
            final(self).cached() is None,
            final(self).wf() == old(self).wf(),
            forall|k: Seq<char>| final(self).count_of(k) == old(self).count_of(k),
    {
        self.cached_next_record = None;
        assert(self.placeholder_ids@ == old(self).placeholder_ids@);
    }

    /// The record read ahead and its position, if any.
    pub fn get_cached_next_record(&self) -> (r: Option<(&StringRecord, &Position)>)
        ensures
            match r {
                Some((rcd, pos)) => self.cached() == Some((*rcd, *pos)),
                None => self.cached() is None,
            },
    {
        match &self.cached_next_record {
            Some((rcd, pos)) => Some((rcd, pos)),
            None => None,
        }
    }

    /// A fresh number for placeholder `str`: 0 the first time, then one more than the
    /// previous time.
    pub fn placeholder_id(&mut self, str: &str) -> (r: u64)
        requires
            old(self).wf(),
            old(self).count_of(str@) != Some(u64::MAX),
        ensures
            final(self).wf(),
            r == match old(self).count_of(str@) {
                None => 0,
                Some(v) => (v + 1) as u64,
            },
            final(self).count_of(str@) == Some(r),
            forall|k: Seq<char>| k != str@ ==> final(self).count_of(k) == old(self).count_of(k),
    {
        let ghost s0 = self.placeholder_ids@;
        let wanted = str.to_owned();
        let mut i: usize = 0;
        while i < self.placeholder_ids.len()
            invariant
                self.placeholder_ids@ == s0,
                old(self).placeholder_ids@ == s0,
                old(self).wf(),
                old(self).count_of(str@) != Some(u64::MAX),
                wanted@ == str@,
                i <= s0.len(),
                forall|j: int| 0 <= j < i ==> s0[j].0@ != str@,
            decreases s0.len() - i,
        {
            if self.placeholder_ids[i].0 == wanted {
                let v = self.placeholder_ids[i].1;
                proof {
                    assert(has_key_at(s0, str@, i as int));
                    let c = choose|j: int| has_key_at(s0, str@, j);
                    assert(s0[c].0@ == s0[i as int].0@);
                    assert(c == i as int);
                }
                let key = self.placeholder_ids[i].0.clone();
                self.placeholder_ids.set(i, (key, v + 1));
                proof {
                    let s1 = self.placeholder_ids@;
                    assert(has_key_at(s1, str@, i as int));
                    let c = choose|j: int| has_key_at(s1, str@, j);
                    assert(s1[c].0@ == s1[i as int].0@);
                    assert(c == i as int);
                    assert forall|k: Seq<char>| k != str@ implies self.count_of(k) == old(self).count_of(k) by {
                        assert forall|j: int| has_key_at(s1, k, j) <==> has_key_at(s0, k, j) by {
                            if j != i as int && 0 <= j < s0.len() {
                                assert(s1[j] == s0[j]);
                            }
                        }
                        if exists|j: int| has_key_at(s0, k, j) {
                            let c1 = choose|j: int| has_key_at(s1, k, j);
                            assert(s1[c1] == s0[c1]);
                        }
                    }
                }
                return v + 1;
            }
            i += 1;
        }
        proof {
            assert(!exists|j: int| has_key_at(s0, str@, j));
        }
        self.placeholder_ids.push((wanted, 0));
        proof {
            let s1 = self.placeholder_ids@;
            let n = s0.len() as int;
            assert(has_key_at(s1, str@, n));
            let c = choose|j: int| has_key_at(s1, str@, j);
            if c != n {
                assert(s1[c] == s0[c]);
            }
            assert(c == n);
            assert forall|k: Seq<char>| k != str@ implies self.count_of(k) == old(self).count_of(k) by {
                assert forall|j: int| has_key_at(s1, k, j) <==> has_key_at(s0, k, j) by {
                    if 0 <= j < n {
                        assert(s1[j] == s0[j]);
                    }
                }
                if exists|j: int| has_key_at(s0, k, j) {
                    let c1 = choose|j: int| has_key_at(s1, k, j);
                    assert(s1[c1] == s0[c1]);
                }
            }
        }
        0
    }
}

} // verus!
