//! What the tray front end's conversation list shows.

use vstd::prelude::*;
use vstd::std_specs::convert::FromSpecImpl;

use crate::adaptors::types::MsgsStore;

verus! {

/// A conversation as the list shows it.
#[derive(Debug)]
pub struct Conversation {
    pub id: String,
    pub name: String,
}

impl<'a> From<&'a MsgsStore> for Conversation {
    fn from(value: &'a MsgsStore) -> (r: Self) {
        Conversation { id: value.id.clone(), name: value.name.clone() }
    }
}

impl<'a> FromSpecImpl<&'a MsgsStore> for Conversation {
    open spec fn obeys_from_spec() -> bool {
        true
    }

    open spec fn from_spec(value: &'a MsgsStore) -> Conversation {
        listed_as(*value)
    }
}

/// How a conversation is listed: by its id and name.
pub open spec fn listed_as(m: MsgsStore) -> Conversation {
    Conversation { id: m.id, name: m.name }
}


/// The conversations of several accounts, listed account after account.
pub open spec fn listed(lists: Seq<Seq<MsgsStore>>) -> Seq<Conversation>
    decreases lists.len(),
{
    if lists.len() == 0 {
        seq![]
    } else {
        listed(lists.drop_last()) + lists.last().map_values(|m: MsgsStore| listed_as(m))
    }
}

/// What the conversation list shows once every account's conversations are
/// fetched: all of them, account after account, each in its order.
pub fn conversations_of(lists: &Vec<Vec<MsgsStore>>) -> (r: Vec<Conversation>)
    ensures
        r@ == listed(lists@.map_values(|l: Vec<MsgsStore>| l@)),
{
    let ghost ls = lists@.map_values(|l: Vec<MsgsStore>| l@);
    let mut r: Vec<Conversation> = Vec::new();
    for i in 0..lists.len()
        invariant
            ls == lists@.map_values(|l: Vec<MsgsStore>| l@),
            r@ == listed(ls.take(i as int)),
    {
        let ghost before = r@;
        let l = &lists[i];
        for j in 0..l.len()
            invariant
                r@ == before + l@.take(j as int).map_values(|m: MsgsStore| listed_as(m)),
        {
            r.push(Conversation::from(&l[j]));
            assert(l@.take(j + 1).map_values(|m: MsgsStore| listed_as(m)) =~= l@.take(
                j as int,
            ).map_values(|m: MsgsStore| listed_as(m)).push(
                listed_as(l@[j as int]),
            ));
        }
        assert(l@.take(l@.len() as int) =~= l@);
        assert(ls.take(i + 1).drop_last() =~= ls.take(i as int));
        assert(ls.take(i + 1).last() == l@);
    }
    assert(ls.take(ls.len() as int) =~= ls);
    r
}

} // verus!
