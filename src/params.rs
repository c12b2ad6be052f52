//! The parameter set of one call: named string values, names unique,
//! insertion order kept.
use vstd::prelude::*;

verus! {

/// Whether some entry of `s` has the name `k`.
pub open spec fn has_key(s: Seq<(Seq<char>, Seq<char>)>, k: Seq<char>) -> bool {
    exists|i: int| 0 <= i < s.len() && #[trigger] s[i].0 == k
}

/// No two entries of `s` share a name.
pub open spec fn unique_keys(s: Seq<(Seq<char>, Seq<char>)>) -> bool {
    forall|i: int, j: int| 0 <= i < s.len() && 0 <= j < s.len() && i != j ==> #[trigger] s[i].0 != #[trigger] s[j].0
}

/// `s` after setting `k` to `v`: the entry named `k` is overwritten in place,
/// or a new entry is appended at the end.
pub open spec fn with_entry(s: Seq<(Seq<char>, Seq<char>)>, k: Seq<char>, v: Seq<char>) -> Seq<
    (Seq<char>, Seq<char>),
> {
    if has_key(s, k) {
        s.update(choose|i: int| 0 <= i < s.len() && #[trigger] s[i].0 == k, (k, v))
    } else {
        s.push((k, v))
    }
}

/// The view of a vector of owned string pairs.
pub open spec fn string_pairs_view(v: Seq<(String, String)>) -> Seq<(Seq<char>, Seq<char>)> {
    v.map_values(|p: (String, String)| (p.0@, p.1@))
}

/// An ordered mapping from parameter names to string values.
pub struct Parameters {
    entries: Vec<(String, String)>,
}

impl View for Parameters {
    type V = Seq<(Seq<char>, Seq<char>)>;

    closed spec fn view(&self) -> Seq<(Seq<char>, Seq<char>)> {
        string_pairs_view(self.entries@)
    }
}

impl Parameters {
    /// Names are unique.
    pub open spec fn wf(&self) -> bool {
        unique_keys(self@)
    }

    /// An empty parameter set.
    pub fn new() -> (r: Parameters)
        ensures
            r@ == Seq::<(Seq<char>, Seq<char>)>::empty(),
            r.wf(),
    {
        let r = Parameters { entries: Vec::new() };
        assert(r@ =~= Seq::<(Seq<char>, Seq<char>)>::empty());
        r
    }

    /// Sets `name` to `value`: overwrites the entry of that name where there
    /// is one, else appends a new entry.
    pub fn set(&mut self, name: &str, value: &str)
        requires
            old(self).wf(),
        ensures
            final(self).wf(),
            final(self)@ == with_entry(old(self)@, name@, value@),
    {
        let ghost s = self@;
        let key = name.to_owned();
        let val = value.to_owned();
        let mut i: usize = 0;
        while i < self.entries.len()
            invariant
                i <= self.entries@.len(),
                self@ == s,
                s == old(self)@,
                unique_keys(s),
                key@ == name@,
                val@ == value@,
                forall|k: int| 0 <= k < i ==> #[trigger] s[k].0 != name@,
            decreases self.entries@.len() - i,
        {
            assert(s[i as int] == (self.entries@[i as int].0@, self.entries@[i as int].1@));
            let same = self.entries[i].0.eq(&key);
            if same {
                assert(s[i as int].0 == name@);
                let ghost j = choose|j: int| 0 <= j < s.len() && #[trigger] s[j].0 == name@;
                assert(j == i);
                self.entries.set(i, (key, val));
                assert(self@ =~= with_entry(s, name@, value@));
                return;
            }
            i = i + 1;
        }
        self.entries.push((key, val));
        assert(self@ =~= with_entry(s, name@, value@));
    }

    /// Number of entries.
    pub fn len(&self) -> (r: usize)
        ensures
            r == self@.len(),
    {
        self.entries.len()
    }

    /// The entries in insertion order.
    pub fn entries(&self) -> (r: &Vec<(String, String)>)
        ensures
            string_pairs_view(r@) == self@,
    {
        &self.entries
    }
}

impl Default for Parameters {
    fn default() -> (r: Parameters)
        ensures
            r@ == Seq::<(Seq<char>, Seq<char>)>::empty(),
    {
        Parameters::new()
    }
}

} // verus!
