//! The per-owner record of aliases whose sponsorship has been paid. An alias
//! that enters the record never leaves it.

use vstd::prelude::*;

verus! {

/// No alias is recorded twice.
pub open spec fn marks_unique(s: Seq<Seq<char>>) -> bool {
    forall|i: int, j: int| 0 <= i < j < s.len() ==> s[i] != s[j]
}

/// Alias `a` is recorded as sponsored.
pub open spec fn is_marked(s: Seq<Seq<char>>, a: Seq<char>) -> bool {
    exists|i: int| 0 <= i < s.len() && s[i] == a
}

/// What one marking step leaves behind: an idempotent set-insert.
pub open spec fn mark_result(s: Seq<Seq<char>>, a: Seq<char>) -> Seq<Seq<char>> {
    if is_marked(s, a) {
        s
    } else {
        s.push(a)
    }
}

/// One owner's set of sponsored aliases.
pub struct SponsoredSet {
    pub aliases: Vec<String>,
}

impl View for SponsoredSet {
    type V = Seq<Seq<char>>;

    open spec fn view(&self) -> Seq<Seq<char>> {
        self.aliases@.map_values(|a: String| a@)
    }
}

impl SponsoredSet {
    /// The shape every operation preserves.
    pub open spec fn wf(&self) -> bool {
        marks_unique(self@)
    }

    /// An empty record.
    pub fn new() -> (r: SponsoredSet)
        ensures
            r@ == Seq::<Seq<char>>::empty(),
            r.wf(),
    {
        let r = SponsoredSet { aliases: Vec::new() };
        proof {
            assert(r@ =~= Seq::<Seq<char>>::empty());
        }
        r
    }

    /// Whether `alias` has been sponsored.
    pub fn contains(&self, alias: &String) -> (r: bool)
        ensures
            r == is_marked(self@, alias@),
    {
        let n = self.aliases.len();
        let mut i: usize = 0;
        while i < n
            invariant
                n == self.aliases@.len(),
                i <= n,
                forall|j: int| 0 <= j < i ==> self@[j] != alias@,
            decreases n - i,
        {
            if self.aliases[i] == *alias {
                assert(self@[i as int] == alias@);
                return true;
            }
            i += 1;
        }
        false
    }

    /// Record `alias` as sponsored: an idempotent set-insert that never
    /// removes a mark.
    pub fn mark(&mut self, alias: &String)
        requires
            old(self).wf(),
        ensures
            final(self).wf(),
            final(self)@ == mark_result(old(self)@, alias@),
            forall|x: Seq<char>|
                is_marked(final(self)@, x) <==> (is_marked(old(self)@, x) || x == alias@),
    {
        if self.contains(alias) {
            return ;
        }
        let ghost s0 = self@;
        self.aliases.push(alias.clone());
        proof {
            assert(self@ =~= s0.push(alias@));
            assert forall|i: int, j: int| 0 <= i < j < self@.len() implies self@[i] != self@[j] by {
                if j < s0.len() {
                    assert(s0[i] != s0[j]);
                } else {
                    assert(self@[j] == alias@);
                    if s0[i] == alias@ {
                        assert(is_marked(s0, alias@));
                    }
                }
            }
            assert forall|x: Seq<char>|
                is_marked(self@, x) <==> (is_marked(s0, x) || x == alias@) by {
                if is_marked(self@, x) {
                    let i = choose|i: int| 0 <= i < self@.len() && self@[i] == x;
                    if i < s0.len() {
                        assert(s0[i] == x);
                        assert(is_marked(s0, x));
                    } else {
                        assert(x == alias@);
                    }
                }
                if is_marked(s0, x) {
                    let i = choose|i: int| 0 <= i < s0.len() && s0[i] == x;
                    assert(self@[i] == x);
                    assert(is_marked(self@, x));
                }
                if x == alias@ {
                    assert(self@[s0.len() as int] == alias@);
                    assert(is_marked(self@, x));
                }
            }
        }
    }

    /// A copy of every sponsored alias, in the record's stable order.
    pub fn list(&self) -> (r: Vec<String>)
        ensures
            r@.len() == self@.len(),
            forall|i: int| 0 <= i < self@.len() ==> r@[i]@ == self@[i],
    {
        let mut result: Vec<String> = Vec::new();
        let n = self.aliases.len();
        let mut i: usize = 0;
        while i < n
            invariant
                n == self.aliases@.len(),
                i <= n,
                result@.len() == i,
                forall|j: int| 0 <= j < i ==> result@[j]@ == self@[j],
            decreases n - i,
        {
            result.push(self.aliases[i].clone());
            i += 1;
        }
        result
    }
}

} // verus!
