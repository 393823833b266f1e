//! The scope: the run-time registry of compiled schemas, keyed by
//! canonical URL. Reference validators consult it at validation time;
//! resolution never fetches anything.
//!
//! Compiled trees are immutable once built, so many validations may read
//! one scope at once; registration takes an exclusive reference, and a
//! host that shares a scope across threads brings its own
//! synchronization around that.

use vstd::prelude::*;

use crate::validators::{Validator, ValidatorView, Validators, views_of};

verus! {

/// The registry of known compiled schemas. Registration is last-wins: a
/// later entry for a URL shadows an earlier one.
pub struct Scope {
    entries: Vec<(String, Validators)>,
}

/// The map a sequence of registrations builds up, later entries shadowing
/// earlier ones.
pub open spec fn entries_map(s: Seq<(String, Vec<Validator>)>) -> Map<
    Seq<char>,
    Seq<ValidatorView>,
>
    decreases s.len(),
{
    if s.len() == 0 {
        Map::empty()
    } else {
        entries_map(s.drop_last()).insert(s.last().0@, views_of(s.last().1@))
    }
}

impl View for Scope {
    type V = Map<Seq<char>, Seq<ValidatorView>>;

    closed spec fn view(&self) -> Map<Seq<char>, Seq<ValidatorView>> {
        entries_map(self.entries@)
    }
}

impl Scope {
    /// A scope with no schemas in it.
    pub fn new() -> (r: Scope)
        ensures
            r@ == Map::<Seq<char>, Seq<ValidatorView>>::empty(),
    {
        Scope { entries: Vec::new() }
    }

    /// Registers a compiled schema under its canonical URL, shadowing any
    /// earlier registration of the same URL.
    pub fn register(&mut self, url: String, schema: Validators)
        ensures
            final(self)@ == old(self)@.insert(url@, views_of(schema@)),
    {
        let ghost before = self.entries@;
        self.entries.push((url, schema));
        proof {
            assert(self.entries@.drop_last() =~= before);
        }
    }

    /// Looks a compiled schema up by canonical URL. Never fetches; `None`
    /// means the schema has not been registered.
    #[verifier::loop_isolation(false)]
    pub fn resolve<'a>(&'a self, url: &String) -> (r: Option<&'a Validators>)
        ensures
            match r {
                Some(vs) => self@.contains_key(url@) && self@[url@] == views_of(vs@),
                None => !self@.contains_key(url@),
            },
    {
        let ghost s = self.entries@;
        let mut i: usize = self.entries.len();
        proof {
            assert(s.take(i as int) =~= s);
        }
        while i > 0
            invariant
                0 <= i <= s.len(),
                entries_map(s.take(i as int)).contains_key(url@) ==> self@.contains_key(url@)
                    && self@[url@] == entries_map(s.take(i as int))[url@],
                !entries_map(s.take(i as int)).contains_key(url@) ==> !self@.contains_key(url@),
            decreases i,
        {
            i = i - 1;
            proof {
                assert(s.take(i + 1).drop_last() =~= s.take(i as int));
                assert(s.take(i + 1).last() == s[i as int]);
            }
            if self.entries[i].0.eq(url) {
                return Some(&self.entries[i].1);
            }
        }
        proof {
            assert(s.take(0) =~= Seq::empty());
        }
        None
    }
}

} // verus!
