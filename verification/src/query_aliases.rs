//! Rewriting of spoken queries into the terms that the checklists use.
//!
//! The user says "mark 82" and the section is called "MK-82". The similarity of
//! the two is low; a rewrite of "mark" to "mk" before matching closes the gap.

use vstd::prelude::*;

use crate::word_map::{
    ordered_rules, pair_texts, rewrite, rewrite_words, rules_of, WordMap,
};

verus! {

#[derive(Debug, Clone)]
pub struct QueryAliases {
    pub rewrites: WordMap,
}

impl Default for QueryAliases {
    fn default() -> (r: QueryAliases)
        ensures
            r.rewrites@.len() == 0,
    {
        QueryAliases { rewrites: WordMap::new() }
    }
}

impl QueryAliases {
    /// Rewrites a normalised query: each key of the table, in lower case and as
    /// a whole word, is replaced by its value, longest key first, so that
    /// "mark 82" beats "mark".
    pub fn rewrite(&self, query: &str) -> (r: String)
        ensures
            r@ == rewrite(query@, ordered_rules(self.rewrites@)),
    {
        let rules = rules_of(&self.rewrites);
        rewrite_query(query, &rules)
    }
}

/// Rewrites a query by rules in the order in which they are given.
pub fn rewrite_query(query: &str, rules: &Vec<(String, String)>) -> (r: String)
    ensures
        r@ == rewrite(query@, pair_texts(rules@)),
{
    let (out, _fired) = rewrite_words(query, rules);
    out
}

} // verus!
