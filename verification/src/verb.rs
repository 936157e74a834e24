//! The action classifier: the semantic category of the change a resource
//! undergoes, derived from its raw action tokens.

use crate::error::{ErrorModel, TrowelError};
use crate::strutil::{
    chars_lt, insert_sorted_unique, lemma_strictly_sorted_canonical, strictly_sorted, string_views,
};
use vstd::prelude::*;

verus! {

/// The semantic category of a resource change.
#[derive(Clone, Copy, Debug, Hash, PartialEq, Eq, Structural)]
pub enum Verb {
    Create,
    Update,
    Replace,
    Destroy,
    Read,
    Ignore,
}

/// The fixed display rank of a verb; histogram entries are ordered by it.
/// `Ignore` never appears in rank-sorted output.
pub open spec fn verb_rank(v: Verb) -> int {
    match v {
        Verb::Create => 0,
        Verb::Destroy => 1,
        Verb::Replace => 2,
        Verb::Update => 3,
        Verb::Read => 4,
        Verb::Ignore => 99,
    }
}

/// The display name of a verb.
pub open spec fn verb_name(v: Verb) -> Seq<char> {
    match v {
        Verb::Create => "Create"@,
        Verb::Update => "Update"@,
        Verb::Replace => "Replace"@,
        Verb::Destroy => "Destroy"@,
        Verb::Read => "Read"@,
        Verb::Ignore => "Ignore"@,
    }
}

/// The lower-case name of a verb.
pub open spec fn verb_name_lower(v: Verb) -> Seq<char> {
    match v {
        Verb::Create => "create"@,
        Verb::Update => "update"@,
        Verb::Replace => "replace"@,
        Verb::Destroy => "destroy"@,
        Verb::Read => "read"@,
        Verb::Ignore => "ignore"@,
    }
}

/// The past-tense label of a verb, for "will be ..." lines.
pub open spec fn verb_past_tense(v: Verb) -> Seq<char> {
    match v {
        Verb::Create => "created"@,
        Verb::Update => "updated"@,
        Verb::Replace => "replaced"@,
        Verb::Destroy => "destroyed"@,
        Verb::Read => "read"@,
        Verb::Ignore => "ignored"@,
    }
}

/// The verb for a set of action tokens. Exactly six combinations are legal;
/// every other set has no verb.
pub open spec fn verb_of_actions(s: Set<Seq<char>>) -> Option<Verb> {
    if s == set!["no-op"@] {
        Some(Verb::Ignore)
    } else if s == set!["create"@] {
        Some(Verb::Create)
    } else if s == set!["update"@] {
        Some(Verb::Update)
    } else if s == set!["delete"@] {
        Some(Verb::Destroy)
    } else if s == set!["create"@, "delete"@] {
        Some(Verb::Replace)
    } else if s == set!["read"@] {
        Some(Verb::Read)
    } else {
        None
    }
}

/// The verb for a sorted, deduplicated sequence of action tokens.
pub open spec fn verb_of_sorted(ss: Seq<Seq<char>>) -> Option<Verb> {
    if ss == seq!["no-op"@] {
        Some(Verb::Ignore)
    } else if ss == seq!["create"@] {
        Some(Verb::Create)
    } else if ss == seq!["update"@] {
        Some(Verb::Update)
    } else if ss == seq!["delete"@] {
        Some(Verb::Destroy)
    } else if ss == seq!["create"@, "delete"@] {
        Some(Verb::Replace)
    } else if ss == seq!["read"@] {
        Some(Verb::Read)
    } else {
        None
    }
}

/// On a strictly sorted sequence, classifying the sequence and classifying
/// the set of its elements agree.
pub proof fn lemma_verb_of_sorted_agrees(ss: Seq<Seq<char>>)
    requires
        strictly_sorted(ss),
    ensures
        verb_of_actions(ss.to_set()) == verb_of_sorted(ss),
{
    reveal_strlit("no-op");
    reveal_strlit("create");
    reveal_strlit("update");
    reveal_strlit("delete");
    reveal_strlit("read");
    let s = ss.to_set();
    assert(chars_lt("create"@, "delete"@));
    assert(strictly_sorted(seq!["no-op"@]));
    assert(strictly_sorted(seq!["create"@]));
    assert(strictly_sorted(seq!["update"@]));
    assert(strictly_sorted(seq!["delete"@]));
    assert(strictly_sorted(seq!["read"@]));
    assert(strictly_sorted(seq!["create"@, "delete"@]));
    crate::strutil::lemma_singleton_to_set("no-op"@);
    crate::strutil::lemma_singleton_to_set("create"@);
    crate::strutil::lemma_singleton_to_set("update"@);
    crate::strutil::lemma_singleton_to_set("delete"@);
    crate::strutil::lemma_singleton_to_set("read"@);
    crate::strutil::lemma_pair_to_set("create"@, "delete"@);
    if s == set!["no-op"@] {
        lemma_strictly_sorted_canonical(ss, seq!["no-op"@]);
    } else if s == set!["create"@] {
        lemma_strictly_sorted_canonical(ss, seq!["create"@]);
    } else if s == set!["update"@] {
        lemma_strictly_sorted_canonical(ss, seq!["update"@]);
    } else if s == set!["delete"@] {
        lemma_strictly_sorted_canonical(ss, seq!["delete"@]);
    } else if s == set!["create"@, "delete"@] {
        lemma_strictly_sorted_canonical(ss, seq!["create"@, "delete"@]);
    } else if s == set!["read"@] {
        lemma_strictly_sorted_canonical(ss, seq!["read"@]);
    }
}

/// The past-tense label of a verb, as a free function.
pub fn verb_to_past_tense(verb: &Verb) -> (s: String)
    ensures
        s@ == verb_past_tense(*verb),
{
    verb.to_past_tense()
}

impl Verb {
    /// The fixed display rank of this verb.
    pub fn rank(&self) -> (r: u8)
        ensures
            r as int == verb_rank(*self),
    {
        match self {
            Verb::Create => 0,
            Verb::Destroy => 1,
            Verb::Replace => 2,
            Verb::Update => 3,
            Verb::Read => 4,
            Verb::Ignore => 99,
        }
    }

    /// The display name of this verb.
    pub fn name(&self) -> (s: &'static str)
        ensures
            s@ == verb_name(*self),
    {
        match self {
            Verb::Create => "Create",
            Verb::Update => "Update",
            Verb::Replace => "Replace",
            Verb::Destroy => "Destroy",
            Verb::Read => "Read",
            Verb::Ignore => "Ignore",
        }
    }

    /// The lower-case name of this verb.
    pub fn name_lower(&self) -> (s: String)
        ensures
            s@ == verb_name_lower(*self),
    {
        match self {
            Verb::Create => "create".to_owned(),
            Verb::Update => "update".to_owned(),
            Verb::Replace => "replace".to_owned(),
            Verb::Destroy => "destroy".to_owned(),
            Verb::Read => "read".to_owned(),
            Verb::Ignore => "ignore".to_owned(),
        }
    }

    /// The past-tense label of this verb.
    pub fn to_past_tense(&self) -> (s: String)
        ensures
            s@ == verb_past_tense(*self),
    {
        match self {
            Verb::Create => "created".to_owned(),
            Verb::Update => "updated".to_owned(),
            Verb::Replace => "replaced".to_owned(),
            Verb::Destroy => "destroyed".to_owned(),
            Verb::Read => "read".to_owned(),
            Verb::Ignore => "ignored".to_owned(),
        }
    }

    /// Classifies a resource change by its raw action list.
    pub fn from_resource(rc: &crate::plan::TfPlanResourceChange) -> (r: Result<Verb, TrowelError>)
        ensures
            match r {
                Ok(v) => verb_of_actions(rc@.change.actions.to_set()) == Some(v),
                Err(e) => {
                    &&& verb_of_actions(rc@.change.actions.to_set()) is None
                    &&& e@ matches ErrorModel::UnrecognizedActionSet { actions: a }
                        && strictly_sorted(a) && a.to_set() == rc@.change.actions.to_set()
                },
            },
    {
        Verb::from_actions(&rc.change.actions)
    }

    /// Classifies a raw action list: the tokens are sorted and
    /// deduplicated, then matched against the fixed table. Order and
    /// repetition of the input never matter; any unrecognized combination
    /// is an error carrying the offending set.
    pub fn from_actions(actions: &Vec<String>) -> (r: Result<Verb, TrowelError>)
        ensures
            match r {
                Ok(v) => verb_of_actions(string_views(actions@).to_set()) == Some(v),
                Err(e) => {
                    &&& verb_of_actions(string_views(actions@).to_set()) is None
                    &&& e@ matches ErrorModel::UnrecognizedActionSet { actions: a }
                        && strictly_sorted(a) && a.to_set() == string_views(actions@).to_set()
                },
            },
    {
        let mut sorted: Vec<String> = Vec::new();
        let n = actions.len();
        let mut i: usize = 0;
        while i < n
            invariant
                i <= n,
                n == actions@.len(),
                strictly_sorted(string_views(sorted@)),
                string_views(sorted@).to_set() == string_views(actions@.subrange(0, i as int))
                    .to_set(),
            decreases n - i,
        {
            proof {
                crate::strutil::lemma_views_prefix_to_set(actions@, i as int);
            }
            insert_sorted_unique(&mut sorted, actions[i].clone());
            i = i + 1;
        }
        proof {
            assert(actions@.subrange(0, n as int) =~= actions@);
            lemma_verb_of_sorted_agrees(string_views(sorted@));
        }
        let ghost ss = string_views(sorted@);
        let r = if sorted.len() == 1 {
            let a0 = &sorted[0];
            if *a0 == "no-op".to_owned() {
                Some(Verb::Ignore)
            } else if *a0 == "create".to_owned() {
                Some(Verb::Create)
            } else if *a0 == "update".to_owned() {
                Some(Verb::Update)
            } else if *a0 == "delete".to_owned() {
                Some(Verb::Destroy)
            } else if *a0 == "read".to_owned() {
                Some(Verb::Read)
            } else {
                None
            }
        } else if sorted.len() == 2 {
            let two = *(&sorted[0]) == "create".to_owned() && *(&sorted[1]) == "delete".to_owned();
            if two {
                Some(Verb::Replace)
            } else {
                None
            }
        } else {
            None
        };
        proof {
            if ss.len() == 1 {
                assert(ss =~= seq![ss[0]]);
            }
            if ss.len() == 2 {
                assert(ss =~= seq![ss[0], ss[1]]);
            }
        }
        match r {
            Some(v) => Ok(v),
            None => {
                proof {
                    assert(verb_of_sorted(ss) is None) by {
                        if ss.len() == 1 {
                            assert(ss[0] != "no-op"@ && ss[0] != "create"@ && ss[0] != "update"@
                                && ss[0] != "delete"@ && ss[0] != "read"@);
                        }
                    }
                }
                Err(TrowelError::UnrecognizedActionSet { actions: sorted })
            },
        }
    }
}

} // verus!
